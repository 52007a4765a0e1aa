//! What the picker puts on the screen: styled lines of text, and how they
//! follow from its state.

use vstd::prelude::*;
use vstd::seq_lib::lemma_no_dup_in_concat;
use vstd::set_lib::{lemma_int_range, set_int_range};

use crate::model::{
    entry_is_current, is_current, is_text, Activity, CurrentView, Entry, EntryView, GroupView,
};
use crate::picker::{
    killed_word, renamed_word, App, AppView, KillKind, KillView, RenameKind, RenameView,
};
use crate::preview::{
    holds_text, last_of, law_blank_lines_alone_are_left_out, non_blank, tail_non_empty,
};
use crate::sessions::{
    has_group, holds_place, is_group_of, is_grouping, lemma_groups_differ, window_before,
};
use crate::text::{decimal, decimal_text, join, joined, pad_left, padded_left};

verus! {

// ---------------------------------------------------------------------------
// Styled text
// ---------------------------------------------------------------------------

/// The colors that are used.
#[derive(Debug, Clone, Copy, PartialEq, Eq, Structural)]
pub enum Color {
    Black,
    Cyan,
    DarkGray,
    Green,
    Red,
    Yellow,
}

/// How a text is shown; without a color, in that of the terminal.
#[derive(Debug, Clone, Copy, PartialEq, Eq, Structural)]
pub struct Style {
    pub fg: Option<Color>,
    pub bg: Option<Color>,
    pub bold: bool,
}

/// A text in one style.
#[derive(Debug)]
pub struct Span {
    pub text: String,
    pub style: Style,
}

/// The contents of a [`Span`].
#[verifier::ext_equal]
pub struct SpanView {
    pub text: Seq<char>,
    pub style: Style,
}

impl View for Span {
    type V = SpanView;

    open spec fn view(&self) -> SpanView {
        SpanView { text: self.text@, style: self.style }
    }
}

impl DeepView for Span {
    type V = SpanView;

    open spec fn deep_view(&self) -> SpanView {
        self@
    }
}

/// One line on the screen.
#[derive(Debug)]
pub struct Line {
    pub spans: Vec<Span>,
}

impl View for Line {
    type V = Seq<SpanView>;

    open spec fn view(&self) -> Seq<SpanView> {
        self.spans.deep_view()
    }
}

impl DeepView for Line {
    type V = Seq<SpanView>;

    open spec fn deep_view(&self) -> Seq<SpanView> {
        self@
    }
}

/// The style of the terminal.
pub open spec fn plain() -> Style {
    Style { fg: None, bg: None, bold: false }
}

/// A color.
pub open spec fn colored(color: Color) -> Style {
    Style { fg: Some(color), bg: None, bold: false }
}

/// A color, in bold.
pub open spec fn bold_colored(color: Color) -> Style {
    Style { fg: Some(color), bg: None, bold: true }
}

/// The style of the terminal, in bold.
pub open spec fn bold() -> Style {
    Style { fg: None, bg: None, bold: true }
}

/// The style of what is selected.
pub open spec fn highlight() -> Style {
    Style { fg: Some(Color::Black), bg: Some(Color::Cyan), bold: true }
}

/// A text in a style.
pub open spec fn styled(text: Seq<char>, style: Style) -> SpanView {
    SpanView { text, style }
}

/// A text in the style of the terminal.
pub open spec fn raw(text: Seq<char>) -> SpanView {
    SpanView { text, style: plain() }
}

/// Gives the style of what is selected.
pub fn highlight_style() -> (r: Style)
    ensures
        r == highlight(),
{
    Style { fg: Some(Color::Black), bg: Some(Color::Cyan), bold: true }
}

/// What stands before the selected window.
pub const HIGHLIGHT_SYMBOL: &'static str = "> ";

fn plain_style() -> (r: Style)
    ensures
        r == plain(),
{
    Style { fg: None, bg: None, bold: false }
}

fn color_style(color: Color) -> (r: Style)
    ensures
        r == colored(color),
{
    Style { fg: Some(color), bg: None, bold: false }
}

fn bold_color_style(color: Color) -> (r: Style)
    ensures
        r == bold_colored(color),
{
    Style { fg: Some(color), bg: None, bold: true }
}

fn bold_style() -> (r: Style)
    ensures
        r == bold(),
{
    Style { fg: None, bg: None, bold: true }
}

impl Line {
    fn new() -> (r: Self)
        ensures
            r@ == Seq::<SpanView>::empty(),
    {
        let r = Line { spans: Vec::new() };
        assert(r@ =~= Seq::<SpanView>::empty());
        r
    }

    fn add_text(&mut self, text: String, style: Style)
        ensures
            final(self)@ == old(self)@.push(styled(text@, style)),
    {
        let ghost before = self@;
        let span = Span { text, style };
        let ghost shown = span@;
        self.spans.push(span);
        assert(self@ =~= before.push(shown));
    }
}

fn push_line(lines: &mut Vec<Line>, line: Line)
    ensures
        final(lines).deep_view() == old(lines).deep_view().push(line@),
{
    let ghost before = lines.deep_view();
    lines.push(line);
    assert(lines.deep_view() =~= before.push(line@));
}

// ---------------------------------------------------------------------------
// The header
// ---------------------------------------------------------------------------

/// How many windows the first `k` sessions have.
pub open spec fn windows_in(sessions: Seq<GroupView>, k: int) -> nat
    decreases k,
{
    if k <= 0 {
        0
    } else {
        windows_in(sessions, k - 1) + sessions[k - 1].window_indices.len()
    }
}

/// How many of the first `k` entries are producing output.
pub open spec fn running_in(entries: Seq<EntryView>, k: int) -> nat
    decreases k,
{
    if k <= 0 {
        0
    } else {
        running_in(entries, k - 1) + if entries[k - 1].activity == Activity::Active {
            1nat
        } else {
            0
        }
    }
}

/// The first line of the header: how much there is, and what is selected.
pub open spec fn title_line(app: AppView) -> Seq<SpanView> {
    seq![
        styled("rmux-jump"@, bold()),
        raw("  "@),
        styled(
            decimal(app.sessions.len()) + " sessions · "@ + decimal(
                windows_in(app.sessions, app.sessions.len() as int),
            ) + " windows · "@ + decimal(running_in(app.entries, app.entries.len() as int))
                + " running"@,
            colored(Color::Cyan),
        ),
        styled(
            match app.session() {
                Some(session) => "  → "@ + session.name + " ("@ + decimal(
                    session.window_indices.len(),
                ) + ")"@,
                None => Seq::empty(),
            },
            colored(Color::DarkGray),
        ),
    ]
}

/// How the session in place `k` is shown in the strip.
pub open spec fn tab_style(app: AppView, k: int) -> Style {
    if k == app.selected_session {
        highlight()
    } else if app.current.session_id == Some(app.sessions[k].id) {
        bold_colored(Color::Green)
    } else if app.sessions[k].attached {
        colored(Color::Green)
    } else {
        plain()
    }
}

/// What is shown of the session in place `k` in the strip: its name, with a
/// star where the picker was opened from it.
pub open spec fn tab_text(app: AppView, k: int) -> Seq<char> {
    " "@ + app.sessions[k].name + (if app.current.session_id == Some(app.sessions[k].id) {
        "*"@
    } else {
        ""@
    }) + " "@
}

/// The strip of the first `k` sessions.
pub open spec fn strip_line(app: AppView, k: int) -> Seq<SpanView>
    decreases k,
{
    if k <= 0 {
        seq![styled("Sessions "@, colored(Color::DarkGray))]
    } else {
        strip_line(app, k - 1).push(styled(tab_text(app, k - 1), tab_style(app, k - 1))).push(
            raw(" "@),
        )
    }
}

/// The last line of the header: the keys, and how often the picker refreshes.
pub open spec fn help_line(refresh_seconds: u64) -> Seq<SpanView> {
    seq![
        styled(
            "h/l session  j/k window  enter switch  $/, rename ses/win  X/x kill ses/win  r refresh  q/esc quit  ·  "@
                + (if refresh_seconds == 0 {
                "auto off"@
            } else {
                "auto "@ + decimal(refresh_seconds as nat) + "s"@
            }),
            colored(Color::DarkGray),
        ),
    ]
}

/// The header.
pub open spec fn header(app: AppView) -> Seq<Seq<SpanView>> {
    seq![
        title_line(app),
        strip_line(app, app.sessions.len() as int),
        help_line(app.refresh_seconds),
    ]
}

fn count_windows(app: &App) -> (n: u128)
    ensures
        n == windows_in(app@.sessions, app@.sessions.len() as int),
{
    let ghost groups = app@.sessions;
    let mut n: u128 = 0;
    let mut k: usize = 0;
    while k < app.sessions.len()
        invariant
            groups == app@.sessions,
            k <= app.sessions@.len(),
            n == windows_in(groups, k as int),
            n <= k * usize::MAX,
        decreases app.sessions@.len() - k,
    {
        let len: usize = app.sessions[k].window_indices.len();
        assert(groups[k as int].window_indices.len() == len);
        assert((k + 1) * usize::MAX == k * usize::MAX + usize::MAX) by (nonlinear_arith);
        assert((k + 1) * usize::MAX <= u128::MAX) by (nonlinear_arith)
            requires
                k < usize::MAX,
                usize::MAX <= 0xffff_ffff_ffff_ffff,
        ;
        n = n + len as u128;
        k += 1;
    }
    n
}

fn count_running(entries: &Vec<Entry>) -> (n: usize)
    ensures
        n == running_in(entries.deep_view(), entries@.len() as int),
{
    let ghost all = entries.deep_view();
    let mut n: usize = 0;
    let mut k: usize = 0;
    while k < entries.len()
        invariant
            all == entries.deep_view(),
            k <= entries@.len(),
            n == running_in(all, k as int),
            n <= k,
        decreases entries@.len() - k,
    {
        assert(all[k as int] == entries[k as int]@);
        if entries[k].activity == Activity::Active {
            n += 1;
        }
        k += 1;
    }
    n
}

fn render_title(app: &App) -> (r: Line)
    ensures
        r@ == title_line(app@),
{
    let mut summary = decimal_text(app.sessions.len() as u128);
    summary.append(" sessions · ");
    summary.append(decimal_text(count_windows(app)).as_str());
    summary.append(" windows · ");
    summary.append(decimal_text(count_running(&app.entries) as u128).as_str());
    summary.append(" running");
    let current = match app.current_session() {
        Some(session) => {
            let mut text = "  → ".to_owned();
            text.append(session.name.as_str());
            text.append(" (");
            text.append(decimal_text(session.window_indices.len() as u128).as_str());
            text.append(")");
            text
        },
        None => String::new(),
    };
    let mut line = Line::new();
    line.add_text("rmux-jump".to_owned(), bold_style());
    line.add_text("  ".to_owned(), plain_style());
    line.add_text(summary, color_style(Color::Cyan));
    line.add_text(current, color_style(Color::DarkGray));
    assert(line@ =~= title_line(app@));
    line
}

fn render_strip(app: &App) -> (r: Line)
    ensures
        r@ == strip_line(app@, app@.sessions.len() as int),
{
    let ghost groups = app@.sessions;
    let mut line = Line::new();
    line.add_text("Sessions ".to_owned(), color_style(Color::DarkGray));
    assert(line@ =~= strip_line(app@, 0));
    let mut k: usize = 0;
    while k < app.sessions.len()
        invariant
            groups == app@.sessions,
            k <= app.sessions@.len(),
            line@ == strip_line(app@, k as int),
        decreases app.sessions@.len() - k,
    {
        let session = &app.sessions[k];
        assert(groups[k as int] == session@);
        let is_current = is_text(&app.current.session_id, &session.id);
        let style = if k == app.selected_session {
            highlight_style()
        } else if is_current {
            bold_color_style(Color::Green)
        } else if session.attached {
            color_style(Color::Green)
        } else {
            plain_style()
        };
        let mut text = " ".to_owned();
        text.append(session.name.as_str());
        text.append(
            if is_current {
                "*"
            } else {
                ""
            },
        );
        text.append(" ");
        line.add_text(text, style);
        line.add_text(" ".to_owned(), plain_style());
        k += 1;
    }
    line
}

fn render_help(refresh_seconds: u64) -> (r: Line)
    ensures
        r@ == help_line(refresh_seconds),
{
    let refresh = if refresh_seconds == 0 {
        "auto off".to_owned()
    } else {
        let mut text = "auto ".to_owned();
        text.append(decimal_text(refresh_seconds as u128).as_str());
        text.append("s");
        text
    };
    let mut text =
        "h/l session  j/k window  enter switch  $/, rename ses/win  X/x kill ses/win  r refresh  q/esc quit  ·  ".to_owned();
    text.append(refresh.as_str());
    let mut line = Line::new();
    line.add_text(text, color_style(Color::DarkGray));
    assert(line@ =~= help_line(refresh_seconds));
    line
}

/// Makes the header.
pub fn render_header(app: &App) -> (r: Vec<Line>)
    ensures
        r.deep_view() == header(app@),
{
    let mut lines: Vec<Line> = Vec::new();
    push_line(&mut lines, render_title(app));
    push_line(&mut lines, render_strip(app));
    push_line(&mut lines, render_help(app.refresh_seconds));
    assert(lines.deep_view() =~= header(app@));
    lines
}

// ---------------------------------------------------------------------------
// The list of windows
// ---------------------------------------------------------------------------

/// What is said behind a window: whether the picker was opened from it,
/// whether it is producing output, and whether it is the active one of its
/// session.
pub open spec fn flags_of(entry: EntryView, current: CurrentView) -> Seq<Seq<char>> {
    let here = if entry_is_current(entry, current) {
        seq!["here"@]
    } else {
        Seq::empty()
    };
    let running = if entry.activity == Activity::Active {
        seq!["running"@]
    } else {
        Seq::empty()
    };
    let focused = if entry.window_active {
        seq!["focused"@]
    } else {
        Seq::empty()
    };
    here + running + focused
}

/// The flags of a window as they are shown.
pub open spec fn flags_text(entry: EntryView, current: CurrentView) -> Seq<char> {
    let flags = flags_of(entry, current);
    if flags.len() == 0 {
        Seq::empty()
    } else {
        "  "@ + join(flags, ","@)
    }
}

/// The line of a window.
pub open spec fn window_line(entry: EntryView, current: CurrentView) -> Seq<SpanView> {
    let here = entry_is_current(entry, current);
    let running = entry.activity == Activity::Active;
    seq![
        if here {
            styled("●"@, bold_colored(Color::Green))
        } else {
            raw(" "@)
        },
        raw(" "@),
        if running {
            styled("▸"@, bold_colored(Color::Cyan))
        } else {
            raw(" "@)
        },
        raw(" "@),
        styled(pad_left(entry.window_index, 3) + ": "@, colored(Color::DarkGray)),
        styled(
            entry.window_name,
            if here {
                bold_colored(Color::Green)
            } else if running {
                bold_colored(Color::Cyan)
            } else {
                bold()
            },
        ),
        raw("  "@ + entry.pane_current_path),
        styled(flags_text(entry, current), colored(Color::Yellow)),
    ]
}

/// A line of the preview, as it is shown below a window.
pub open spec fn inline_line(text: Seq<char>) -> Seq<SpanView> {
    seq![styled("    "@ + text, colored(Color::DarkGray))]
}

/// The lines of a window in the list: its own, and some of its preview.
pub open spec fn window_item(
    entry: EntryView,
    current: CurrentView,
    inline_lines: usize,
) -> Seq<Seq<SpanView>> {
    let tail = last_of(non_blank(entry.preview), inline_lines as nat);
    seq![window_line(entry, current)] + Seq::new(tail.len(), |i: int| inline_line(tail[i]))
}

fn flags(entry: &Entry, current: bool) -> (r: String)
    ensures
        forall|c: CurrentView|
            #![trigger flags_text(entry@, c)]
            current == entry_is_current(entry@, c) ==> r@ == flags_text(entry@, c),
{
    let mut names: Vec<String> = Vec::new();
    let ghost mut all: Seq<Seq<char>> = Seq::empty();
    assert(names.deep_view() =~= all);
    if current {
        names.push("here".to_owned());
        proof {
            all = all.push("here"@);
        }
        assert(names.deep_view() =~= all);
    }
    if entry.activity == Activity::Active {
        names.push("running".to_owned());
        proof {
            all = all.push("running"@);
        }
        assert(names.deep_view() =~= all);
    }
    if entry.window_active {
        names.push("focused".to_owned());
        proof {
            all = all.push("focused"@);
        }
        assert(names.deep_view() =~= all);
    }
    assert forall|c: CurrentView| current == entry_is_current(entry@, c) implies all
        == #[trigger] flags_of(entry@, c) by {
        assert(all =~= flags_of(entry@, c));
    }
    assert(forall|c: CurrentView| #[trigger]
        flags_text(entry@, c) == if flags_of(entry@, c).len() == 0 {
            Seq::empty()
        } else {
            "  "@ + join(flags_of(entry@, c), ","@)
        });
    if names.len() == 0 {
        String::new()
    } else {
        let mut text = "  ".to_owned();
        text.append(joined(&names, ",").as_str());
        text
    }
}

fn render_window(entry: &Entry, app: &App) -> (r: Line)
    ensures
        r@ == window_line(entry@, app@.current),
{
    let current = is_current(entry, &app.current);
    let running = entry.activity == Activity::Active;
    let mut line = Line::new();
    if current {
        line.add_text("●".to_owned(), bold_color_style(Color::Green));
    } else {
        line.add_text(" ".to_owned(), plain_style());
    }
    line.add_text(" ".to_owned(), plain_style());
    if running {
        line.add_text("▸".to_owned(), bold_color_style(Color::Cyan));
    } else {
        line.add_text(" ".to_owned(), plain_style());
    }
    line.add_text(" ".to_owned(), plain_style());
    let mut index = padded_left(entry.window_index.as_str(), 3);
    index.append(": ");
    line.add_text(index, color_style(Color::DarkGray));
    let name_style = if current {
        bold_color_style(Color::Green)
    } else if running {
        bold_color_style(Color::Cyan)
    } else {
        bold_style()
    };
    line.add_text(entry.window_name.clone(), name_style);
    let mut path = "  ".to_owned();
    path.append(entry.pane_current_path.as_str());
    line.add_text(path, plain_style());
    line.add_text(flags(entry, current), color_style(Color::Yellow));
    assert(line@ =~= window_line(entry@, app@.current));
    line
}

/// Makes the lines of a window in the list.
pub fn window_item_lines(entry: &Entry, app: &App) -> (r: Vec<Line>)
    ensures
        r.deep_view() == window_item(entry@, app@.current, app@.inline_lines),
{
    let ghost all = window_item(entry@, app@.current, app@.inline_lines);
    let mut lines: Vec<Line> = Vec::new();
    push_line(&mut lines, render_window(entry, app));
    assert(lines.deep_view() =~= all.take(1));
    let tail = tail_non_empty(&entry.preview, app.inline_lines);
    let mut i: usize = 0;
    while i < tail.len()
        invariant
            all == window_item(entry@, app@.current, app@.inline_lines),
            tail.deep_view() == last_of(non_blank(entry@.preview), app@.inline_lines as nat),
            i <= tail@.len(),
            lines.deep_view() == all.take(i + 1),
        decreases tail@.len() - i,
    {
        let mut text = "    ".to_owned();
        text.append(tail[i].as_str());
        let mut line = Line::new();
        line.add_text(text, color_style(Color::DarkGray));
        assert(tail.deep_view()[i as int] == tail[i as int]@);
        assert(line@ =~= inline_line(tail.deep_view()[i as int]));
        assert(all[i + 1] == line@);
        push_line(&mut lines, line);
        assert(lines.deep_view() =~= all.take(i + 2));
        i += 1;
    }
    assert(all.take(i + 1) =~= all);
    lines
}

/// The list of windows.
#[derive(Debug)]
pub struct ListScreen {
    pub title: String,
    pub items: Vec<Vec<Line>>,
    pub selected: Option<usize>,
}

/// The title of the list.
pub open spec fn list_title(app: AppView) -> Seq<char> {
    match app.session() {
        Some(session) => session.name + " · "@ + decimal(session.window_indices.len())
            + " window"@ + (if session.window_indices.len() == 1 {
            ""@
        } else {
            "s"@
        }) + (if session.attached {
            " · attached"@
        } else {
            ""@
        }),
        None => "Windows"@,
    }
}

/// The windows in the list.
pub open spec fn list_items(app: AppView) -> Seq<Seq<Seq<SpanView>>> {
    Seq::new(
        app.windows().len(),
        |i: int|
            window_item(app.entries[app.windows()[i] as int], app.current, app.inline_lines),
    )
}

/// The window in the list that is selected.
pub open spec fn list_selected(app: AppView) -> Option<usize> {
    if app.windows().len() == 0 {
        None
    } else {
        Some(app.selected_window)
    }
}

fn render_list_title(app: &App) -> (r: String)
    ensures
        r@ == list_title(app@),
{
    match app.current_session() {
        Some(session) => {
            let len: usize = session.window_indices.len();
            let mut text = session.name.clone();
            text.append(" · ");
            text.append(decimal_text(len as u128).as_str());
            text.append(" window");
            text.append(
                if len == 1 {
                    ""
                } else {
                    "s"
                },
            );
            text.append(
                if session.attached {
                    " · attached"
                } else {
                    ""
                },
            );
            text
        },
        None => "Windows".to_owned(),
    }
}

/// Makes the list of windows.
pub fn render_list(app: &App) -> (r: ListScreen)
    requires
        app@.in_bounds(),
    ensures
        r.title@ == list_title(app@),
        r.items.deep_view() == list_items(app@),
        r.selected == list_selected(app@),
{
    let title = render_list_title(app);
    let ghost all = list_items(app@);
    let mut items: Vec<Vec<Line>> = Vec::new();
    assert(items.deep_view() =~= all.take(0));
    match app.current_session() {
        Some(session) => {
            let windows = &session.window_indices;
            assert(app@.windows() == windows@);
            let mut k: usize = 0;
            while k < windows.len()
                invariant
                    app@.in_bounds(),
                    app.selected_session < app@.sessions.len(),
                    app@.sessions[app.selected_session as int].window_indices == windows@,
                    app@.windows() == windows@,
                    all == list_items(app@),
                    k <= windows@.len(),
                    items.deep_view() == all.take(k as int),
                decreases windows@.len() - k,
            {
                assert(app@.sessions[app.selected_session as int].window_indices[k as int]
                    < app@.entries.len());
                let i: usize = windows[k];
                assert(app@.entries[i as int] == app.entries[i as int]@);
                let ghost before = items.deep_view();
                let item = window_item_lines(&app.entries[i], app);
                let ghost shown = item.deep_view();
                assert(shown == all[k as int]);
                items.push(item);
                assert(items.deep_view() =~= before.push(shown));
                assert(all.take(k + 1) =~= before.push(shown));
                k += 1;
            }
        },
        None => {},
    }
    assert(items.deep_view() =~= all);
    let selected: Option<usize> = if items.len() == 0 {
        None
    } else {
        Some(app.selected_window)
    };
    ListScreen { title, items, selected }
}

// ---------------------------------------------------------------------------
// The preview
// ---------------------------------------------------------------------------

/// The lines that say which pane is shown.
pub open spec fn preview_head(entry: EntryView) -> Seq<Seq<SpanView>> {
    seq![
        seq![
            styled(entry.session_name, bold()),
            raw("  window "@ + entry.window_index + ":"@ + entry.window_name),
        ],
        seq![
            styled("pane "@, colored(Color::DarkGray)),
            raw(entry.pane_id),
            styled("  path "@, colored(Color::DarkGray)),
            raw(entry.pane_current_path),
        ],
        seq![raw(""@)],
    ]
}

/// The preview of an entry: which pane it is, and what it shows.
pub open spec fn preview_lines(entry: EntryView) -> Seq<Seq<SpanView>> {
    preview_head(entry) + Seq::new(entry.preview.len(), |i: int| seq![raw(entry.preview[i])])
}

/// The preview of the selected entry.
pub open spec fn preview(app: AppView) -> Seq<Seq<SpanView>> {
    match app.entry() {
        Some(entry) => preview_lines(entry),
        None => seq![seq![raw("No RMUX targets found."@)]],
    }
}

fn raw_line(text: String) -> (r: Line)
    ensures
        r@ == seq![raw(text@)],
{
    let mut line = Line::new();
    line.add_text(text, plain_style());
    assert(line@ =~= seq![raw(text@)]);
    line
}

fn render_entry(entry: &Entry) -> (r: Vec<Line>)
    ensures
        r.deep_view() == preview_lines(entry@),
{
    let ghost all = preview_lines(entry@);
    let mut lines: Vec<Line> = Vec::new();
    let mut window = "  window ".to_owned();
    window.append(entry.window_index.as_str());
    window.append(":");
    window.append(entry.window_name.as_str());
    let mut first = Line::new();
    first.add_text(entry.session_name.clone(), bold_style());
    first.add_text(window, plain_style());
    assert(first@ =~= preview_head(entry@)[0]);
    let mut second = Line::new();
    second.add_text("pane ".to_owned(), color_style(Color::DarkGray));
    second.add_text(entry.pane_id.clone(), plain_style());
    second.add_text("  path ".to_owned(), color_style(Color::DarkGray));
    second.add_text(entry.pane_current_path.clone(), plain_style());
    assert(second@ =~= preview_head(entry@)[1]);
    push_line(&mut lines, first);
    push_line(&mut lines, second);
    push_line(&mut lines, raw_line("".to_owned()));
    assert(lines.deep_view() =~= all.take(3));
    let mut i: usize = 0;
    while i < entry.preview.len()
        invariant
            all == preview_lines(entry@),
            i <= entry.preview@.len(),
            lines.deep_view() == all.take(i + 3),
        decreases entry.preview@.len() - i,
    {
        assert(entry@.preview[i as int] == entry.preview[i as int]@);
        push_line(&mut lines, raw_line(entry.preview[i].clone()));
        assert(lines.deep_view() =~= all.take(i + 4));
        i += 1;
    }
    assert(all.take(i + 3) =~= all);
    lines
}

/// Makes the preview of the selected entry.
pub fn render_preview(app: &App) -> (r: Vec<Line>)
    ensures
        r.deep_view() == preview(app@),
{
    match app.selected_entry() {
        Some(entry) => render_entry(entry),
        None => {
            let mut lines: Vec<Line> = Vec::new();
            push_line(&mut lines, raw_line("No RMUX targets found.".to_owned()));
            assert(lines.deep_view() =~= preview(app@));
            lines
        },
    }
}

// ---------------------------------------------------------------------------
// The footer
// ---------------------------------------------------------------------------

/// The last line of the screen.
#[derive(Debug)]
pub enum Footer {
    /// A question, or a name that is typed.
    Prompt(Line),
    /// The status.
    Text(String),
}

/// The contents of a [`Footer`].
#[verifier::ext_equal]
pub enum FooterView {
    Prompt(Seq<SpanView>),
    Text(Seq<char>),
}

impl View for Footer {
    type V = FooterView;

    open spec fn view(&self) -> FooterView {
        match *self {
            Footer::Prompt(line) => FooterView::Prompt(line@),
            Footer::Text(text) => FooterView::Text(text@),
        }
    }
}

/// The question whether to kill.
pub open spec fn kill_prompt(kill: KillView) -> Seq<SpanView> {
    seq![
        styled("kill "@ + killed_word(kill.kind) + " "@, bold_colored(Color::Red)),
        styled("\""@ + kill.label + "\"?"@, bold_colored(Color::Yellow)),
        styled("   y confirm · n cancel"@, colored(Color::DarkGray)),
    ]
}

/// The name that is typed.
pub open spec fn rename_prompt(rename: RenameView) -> Seq<SpanView> {
    seq![
        styled("rename "@ + renamed_word(rename.kind) + " "@, bold_colored(Color::Yellow)),
        styled("\""@ + rename.original + "\" → "@, colored(Color::DarkGray)),
        styled(rename.buffer, bold_colored(Color::Yellow)),
        styled("▏"@, colored(Color::Yellow)),
        styled("   enter save · esc cancel"@, colored(Color::DarkGray)),
    ]
}

/// The footer: a question comes before a name that is typed, and that before
/// the status.
pub open spec fn footer(app: AppView) -> FooterView {
    match app.confirm_kill {
        Some(kill) => FooterView::Prompt(kill_prompt(kill)),
        None => match app.rename {
            Some(rename) => FooterView::Prompt(rename_prompt(rename)),
            None => FooterView::Text(
                match app.status {
                    Some(status) => status,
                    None => "Run inside RMUX to switch clients."@,
                },
            ),
        },
    }
}

/// Makes the footer.
pub fn render_footer(app: &App) -> (r: Footer)
    ensures
        r@ == footer(app@),
{
    if let Some(kill) = &app.confirm_kill {
        let mut what = "kill ".to_owned();
        what.append(kill.kind.word());
        what.append(" ");
        let mut label = "\"".to_owned();
        label.append(kill.label.as_str());
        label.append("\"?");
        let mut line = Line::new();
        line.add_text(what, bold_color_style(Color::Red));
        line.add_text(label, bold_color_style(Color::Yellow));
        line.add_text("   y confirm · n cancel".to_owned(), color_style(Color::DarkGray));
        assert(line@ =~= kill_prompt(kill@));
        return Footer::Prompt(line);
    }
    if let Some(rename) = &app.rename {
        let mut what = "rename ".to_owned();
        what.append(rename.kind.word());
        what.append(" ");
        let mut original = "\"".to_owned();
        original.append(rename.original.as_str());
        original.append("\" → ");
        let mut line = Line::new();
        line.add_text(what, bold_color_style(Color::Yellow));
        line.add_text(original, color_style(Color::DarkGray));
        line.add_text(rename.buffer.clone(), bold_color_style(Color::Yellow));
        line.add_text("▏".to_owned(), color_style(Color::Yellow));
        line.add_text("   enter save · esc cancel".to_owned(), color_style(Color::DarkGray));
        assert(line@ =~= rename_prompt(rename@));
        return Footer::Prompt(line);
    }
    match &app.status {
        Some(status) => Footer::Text(status.clone()),
        None => Footer::Text("Run inside RMUX to switch clients.".to_owned()),
    }
}

// ---------------------------------------------------------------------------
// Laws
// ---------------------------------------------------------------------------

/// The entries that the first `k` sessions show, one after the other.
spec fn shown_by(sessions: Seq<GroupView>, k: int) -> Seq<int>
    decreases k,
{
    if k <= 0 {
        Seq::empty()
    } else {
        let windows = sessions[k - 1].window_indices;
        shown_by(sessions, k - 1) + Seq::new(windows.len(), |j: int| windows[j] as int)
    }
}

/// Whether an entry is of one of the first `k` sessions.
spec fn is_of_first(sessions: Seq<GroupView>, k: int, entry: EntryView) -> bool {
    exists|m: int| 0 <= m < k && (#[trigger] sessions[m]).id == entry.session_id
}

proof fn lemma_shown_by(sessions: Seq<GroupView>, entries: Seq<EntryView>, k: int)
    requires
        is_grouping(sessions, entries),
        0 <= k <= sessions.len(),
    ensures
        shown_by(sessions, k).len() == windows_in(sessions, k),
        shown_by(sessions, k).no_duplicates(),
        forall|p: int|
            0 <= p < shown_by(sessions, k).len() ==> {
                let i = #[trigger] shown_by(sessions, k)[p];
                0 <= i < entries.len() && is_of_first(sessions, k, entries[i])
            },
        forall|i: int|
            0 <= i < entries.len() && is_of_first(sessions, k, #[trigger] entries[i]) ==> shown_by(
                sessions,
                k,
            ).contains(i),
    decreases k,
{
    if k > 0 {
        lemma_shown_by(sessions, entries, k - 1);
        let group = sessions[k - 1];
        let windows = group.window_indices;
        let front = shown_by(sessions, k - 1);
        let back = Seq::new(windows.len(), |j: int| windows[j] as int);
        let both = shown_by(sessions, k);
        assert(is_group_of(group, entries));
        assert(back.no_duplicates()) by {
            assert forall|a: int, b: int| 0 <= a < b < back.len() implies back[a] != back[b] by {
                assert(window_before(entries, windows[a] as int, windows[b] as int));
            }
        }
        assert forall|a: int, b: int| 0 <= a < front.len() && 0 <= b < back.len() implies front[a]
            != back[b] by {
            assert(entries[windows[b] as int].session_id == group.id);
            let m = choose|m: int|
                0 <= m < k - 1 && (#[trigger] sessions[m]).id == entries[front[a]].session_id;
            lemma_groups_differ(sessions, entries, m, k - 1);
        }
        lemma_no_dup_in_concat(front, back);
        assert forall|p: int| 0 <= p < both.len() implies {
            let i = #[trigger] both[p];
            0 <= i < entries.len() && is_of_first(sessions, k, entries[i])
        } by {
            if p < front.len() {
                assert(both[p] == front[p]);
                let m = choose|m: int|
                    0 <= m < k - 1 && (#[trigger] sessions[m]).id == entries[front[p]].session_id;
                assert(sessions[m].id == entries[both[p]].session_id);
            } else {
                assert(both[p] == windows[p - front.len()]);
                assert(sessions[k - 1].id == entries[both[p]].session_id);
            }
        }
        assert forall|i: int|
            0 <= i < entries.len() && is_of_first(
                sessions,
                k,
                #[trigger] entries[i],
            ) implies both.contains(i) by {
            let m = choose|m: int|
                0 <= m < k && (#[trigger] sessions[m]).id == entries[i].session_id;
            if m < k - 1 {
                assert(is_of_first(sessions, k - 1, entries[i]));
                let p = choose|p: int| 0 <= p < front.len() && front[p] == i;
                assert(both[p] == i);
            } else {
                assert(holds_place(windows, i));
                let j = choose|j: int| 0 <= j < windows.len() && #[trigger] windows[j] == i;
                assert(both[front.len() + j] == i);
            }
        }
    }
}

/// The windows that the header counts are all entries, each once.
pub proof fn law_the_header_counts_every_window(app: AppView)
    requires
        is_grouping(app.sessions, app.entries),
    ensures
        windows_in(app.sessions, app.sessions.len() as int) == app.entries.len(),
{
    let n = app.sessions.len() as int;
    let shown = shown_by(app.sessions, n);
    lemma_shown_by(app.sessions, app.entries, n);
    assert forall|i: int| 0 <= i < app.entries.len() implies #[trigger] shown.contains(i) by {
        assert(has_group(app.sessions, app.entries[i].session_id));
        assert(is_of_first(app.sessions, n, app.entries[i]));
    }
    assert(shown.to_set() =~= set_int_range(0, app.entries.len() as int));
    shown.unique_seq_to_set();
    lemma_int_range(0, app.entries.len() as int);
}

/// Without inline lines every window takes one line of the list.
pub proof fn law_one_line_per_window_without_inline_lines(entry: EntryView, current: CurrentView)
    ensures
        window_item(entry, current, 0) == seq![window_line(entry, current)],
{
    let tail = last_of(non_blank(entry.preview), 0);
    assert(tail.len() == 0);
    assert(window_item(entry, current, 0) =~= seq![window_line(entry, current)]);
}

/// The window that the list marks is one of its items, and the preview shows
/// the same one.
pub proof fn law_list_and_preview_agree(app: AppView)
    requires
        app.entry() is Some,
    ensures
        list_selected(app) == Some(app.selected_window),
        app.selected_window < list_items(app).len(),
        list_items(app)[app.selected_window as int] == window_item(
            app.entry()->0,
            app.current,
            app.inline_lines,
        ),
        preview(app) == preview_lines(app.entry()->0),
{
}

/// Producing output.
pub open spec fn is_running() -> spec_fn(EntryView) -> bool {
    |entry: EntryView| entry.activity == Activity::Active
}

proof fn lemma_running(entries: Seq<EntryView>, n: int)
    requires
        0 <= n <= entries.len(),
    ensures
        running_in(entries, n) == entries.take(n).filter(is_running()).len(),
    decreases n,
{
    reveal(Seq::filter);
    if n > 0 {
        lemma_running(entries, n - 1);
        assert(entries.take(n).drop_last() =~= entries.take(n - 1));
        assert(is_running()(entries[n - 1]) == (entries[n - 1].activity == Activity::Active));
    }
}

/// The header says how many sessions and windows there are and how many
/// windows are producing output, which session is selected and how many
/// windows it has, which keys there are, and how often the picker refreshes.
pub proof fn law_what_the_header_says(app: AppView)
    requires
        is_grouping(app.sessions, app.entries),
    ensures
        ({
            let gray = Style { fg: Some(Color::DarkGray), bg: None, bold: false };
            let title = header(app)[0];
            let help = header(app)[2];
            &&& header(app).len() == 3
            &&& title.len() == 4
            &&& title[0].text == "rmux-jump"@
            &&& title[0].style == Style { fg: None, bg: None, bold: true }
            &&& title[1].text == "  "@
            &&& title[1].style == Style { fg: None, bg: None, bold: false }
            &&& title[2].text == decimal(app.sessions.len()) + " sessions · "@ + decimal(
                app.entries.len(),
            ) + " windows · "@ + decimal(app.entries.filter(is_running()).len())
                + " running"@
            &&& title[2].style == Style { fg: Some(Color::Cyan), bg: None, bold: false }
            &&& app.selected_session < app.sessions.len() ==> {
                let session = app.sessions[app.selected_session as int];
                title[3].text == "  → "@ + session.name + " ("@ + decimal(
                    session.window_indices.len(),
                ) + ")"@
            }
            &&& app.selected_session >= app.sessions.len() ==> title[3].text.len() == 0
            &&& title[3].style == gray
            &&& help.len() == 1
            &&& help[0].style == gray
            &&& app.refresh_seconds == 0 ==> help[0].text
                == "h/l session  j/k window  enter switch  $/, rename ses/win  X/x kill ses/win  r refresh  q/esc quit  ·  "@
                + "auto off"@
            &&& app.refresh_seconds > 0 ==> help[0].text
                == "h/l session  j/k window  enter switch  $/, rename ses/win  X/x kill ses/win  r refresh  q/esc quit  ·  "@
                + ("auto "@ + decimal(app.refresh_seconds as nat) + "s"@)
        }),
{
    law_the_header_counts_every_window(app);
    lemma_running(app.entries, app.entries.len() as int);
    assert(app.entries.take(app.entries.len() as int) =~= app.entries);
}

proof fn lemma_strip(app: AppView, n: int, k: int)
    requires
        0 <= n <= app.sessions.len(),
    ensures
        strip_line(app, n).len() == 1 + 2 * n,
        strip_line(app, n)[0] == styled("Sessions "@, colored(Color::DarkGray)),
        0 <= k < n ==> {
            &&& strip_line(app, n)[1 + 2 * k] == styled(tab_text(app, k), tab_style(app, k))
            &&& strip_line(app, n)[2 + 2 * k] == raw(" "@)
        },
    decreases n,
{
    if n > 0 {
        lemma_strip(app, n - 1, k);
    }
}

/// The strip shows every session by its name, in order: the selected one
/// highlighted; the one that the picker was opened from with a star, and green
/// and bold where it is not selected; and of the others those that are
/// attached green.
pub proof fn law_the_strip_shows_every_session(app: AppView, k: int)
    requires
        0 <= k < app.sessions.len(),
    ensures
        ({
            let strip = header(app)[1];
            let session = app.sessions[k];
            let here = app.current.session_id == Some(session.id);
            let tab = strip[1 + 2 * k];
            &&& strip.len() == 1 + 2 * app.sessions.len()
            &&& strip[0].text == "Sessions "@
            &&& strip[0].style == Style { fg: Some(Color::DarkGray), bg: None, bold: false }
            &&& here ==> tab.text == " "@ + session.name + "*"@ + " "@
            &&& !here ==> tab.text == " "@ + session.name + ""@ + " "@
            &&& k == app.selected_session ==> tab.style == Style {
                fg: Some(Color::Black),
                bg: Some(Color::Cyan),
                bold: true,
            }
            &&& k != app.selected_session && here ==> tab.style == Style {
                fg: Some(Color::Green),
                bg: None,
                bold: true,
            }
            &&& k != app.selected_session && !here && session.attached ==> tab.style == Style {
                fg: Some(Color::Green),
                bg: None,
                bold: false,
            }
            &&& k != app.selected_session && !here && !session.attached ==> tab.style == Style {
                fg: None,
                bg: None,
                bold: false,
            }
            &&& strip[2 + 2 * k].text == " "@
            &&& strip[2 + 2 * k].style == Style { fg: None, bg: None, bold: false }
        }),
{
    lemma_strip(app, app.sessions.len() as int, k);
}

/// Without any session the strip is empty but for its caption.
pub proof fn law_an_empty_strip_has_its_caption(app: AppView)
    requires
        app.sessions.len() == 0,
    ensures
        header(app)[1].len() == 1,
        header(app)[1][0].text == "Sessions "@,
{
    lemma_strip(app, 0, 0);
}

/// The flags of a window tell whether the picker was opened from it, whether
/// it is producing output and whether it is the active one of its session, in
/// that order, each exactly where it is so.
pub proof fn law_the_flags_tell_what_is_so(entry: EntryView, current: CurrentView)
    ensures
        ({
            let here = current.session_id == Some(entry.session_id) && current.window_id == Some(
                entry.window_id,
            );
            let running = entry.activity == Activity::Active;
            let focused = entry.window_active;
            let text = flags_text(entry, current);
            &&& !here && !running && !focused ==> text.len() == 0
            &&& here && !running && !focused ==> text == "  "@ + "here"@
            &&& !here && running && !focused ==> text == "  "@ + "running"@
            &&& !here && !running && focused ==> text == "  "@ + "focused"@
            &&& here && running && !focused ==> text == "  "@ + ("here"@ + ","@ + "running"@)
            &&& here && !running && focused ==> text == "  "@ + ("here"@ + ","@ + "focused"@)
            &&& !here && running && focused ==> text == "  "@ + ("running"@ + ","@ + "focused"@)
            &&& here && running && focused ==> text == "  "@ + ("here"@ + ","@ + "running"@ + ","@
                + "focused"@)
        }),
{
    reveal_with_fuel(join, 4);
    let flags = flags_of(entry, current);
    let here = current.session_id == Some(entry.session_id) && current.window_id == Some(
        entry.window_id,
    );
    let running = entry.activity == Activity::Active;
    let focused = entry.window_active;
    if here && running {
        let two = seq!["here"@, "running"@];
        assert(two.drop_last() =~= seq!["here"@]);
        if focused {
            assert(flags =~= seq!["here"@, "running"@, "focused"@]);
            assert(flags.drop_last() =~= two);
        } else {
            assert(flags =~= two);
        }
    } else if here && focused {
        assert(flags =~= seq!["here"@, "focused"@]);
        assert(flags.drop_last() =~= seq!["here"@]);
    } else if running && focused {
        assert(flags =~= seq!["running"@, "focused"@]);
        assert(flags.drop_last() =~= seq!["running"@]);
    } else if here {
        assert(flags =~= seq!["here"@]);
    } else if running {
        assert(flags =~= seq!["running"@]);
    } else if focused {
        assert(flags =~= seq!["focused"@]);
    }
}

/// A window is shown by its index, name, directory and flags, with a mark where
/// the picker was opened from it and another where it is producing output;
/// each mark has its color, and so has the name, the first of the two before
/// the second.
pub proof fn law_what_the_list_says_of_a_window(entry: EntryView, current: CurrentView)
    ensures
        ({
            let here = current.session_id == Some(entry.session_id) && current.window_id == Some(
                entry.window_id,
            );
            let running = entry.activity == Activity::Active;
            let line = window_line(entry, current);
            let plain = Style { fg: None, bg: None, bold: false };
            let green = Style { fg: Some(Color::Green), bg: None, bold: true };
            let cyan = Style { fg: Some(Color::Cyan), bg: None, bold: true };
            &&& line.len() == 8
            &&& here ==> line[0].text == "●"@ && line[0].style == green
            &&& !here ==> line[0].text == " "@ && line[0].style == plain
            &&& line[1].text == " "@ && line[1].style == plain
            &&& running ==> line[2].text == "▸"@ && line[2].style == cyan
            &&& !running ==> line[2].text == " "@ && line[2].style == plain
            &&& line[3].text == " "@ && line[3].style == plain
            &&& line[4].text == pad_left(entry.window_index, 3) + ": "@
            &&& line[4].style == Style { fg: Some(Color::DarkGray), bg: None, bold: false }
            &&& line[5].text == entry.window_name
            &&& here ==> line[5].style == green
            &&& !here && running ==> line[5].style == cyan
            &&& !here && !running ==> line[5].style == Style { fg: None, bg: None, bold: true }
            &&& line[6].text == "  "@ + entry.pane_current_path && line[6].style == plain
            &&& line[7].text == flags_text(entry, current)
            &&& line[7].style == Style { fg: Some(Color::Yellow), bg: None, bold: false }
        }),
{
}

/// Below a window stand the last lines of its preview that are not blank, as
/// many as are asked for and as there are.
pub proof fn law_what_stands_below_a_window(
    entry: EntryView,
    current: CurrentView,
    inline_lines: usize,
    k: int,
)
    ensures
        ({
            let item = window_item(entry, current, inline_lines);
            let kept = entry.preview.filter(holds_text());
            let below = item.len() - 1;
            &&& item[0] == window_line(entry, current)
            &&& 0 <= below <= kept.len()
            &&& below <= inline_lines
            &&& below == kept.len() || below == inline_lines
            &&& 0 <= k < below ==> {
                &&& item[1 + k].len() == 1
                &&& item[1 + k][0].text == "    "@ + kept[kept.len() - below + k]
                &&& item[1 + k][0].style == Style {
                    fg: Some(Color::DarkGray),
                    bg: None,
                    bold: false,
                }
            }
        }),
{
    law_blank_lines_alone_are_left_out(entry.preview);
}

/// The list has the windows of the selected session, in order, under the name
/// of the session, the number of its windows, and whether it is attached.
pub proof fn law_the_list_shows_the_session(app: AppView, k: int)
    ensures
        app.selected_session >= app.sessions.len() ==> list_items(app).len() == 0 && list_title(app)
            == "Windows"@ && list_selected(app) is None,
        app.selected_session < app.sessions.len() ==> {
            let session = app.sessions[app.selected_session as int];
            let windows = session.window_indices;
            &&& list_items(app).len() == windows.len()
            &&& 0 <= k < windows.len() ==> list_items(app)[k] == window_item(
                app.entries[windows[k] as int],
                app.current,
                app.inline_lines,
            )
            &&& windows.len() == 0 ==> list_selected(app) is None
            &&& windows.len() > 0 ==> list_selected(app) == Some(app.selected_window)
            &&& windows.len() == 1 && session.attached ==> list_title(app) == session.name
                + " · "@ + decimal(windows.len()) + " window"@ + ""@ + " · attached"@
            &&& windows.len() == 1 && !session.attached ==> list_title(app) == session.name
                + " · "@ + decimal(windows.len()) + " window"@ + ""@ + ""@
            &&& windows.len() != 1 && session.attached ==> list_title(app) == session.name
                + " · "@ + decimal(windows.len()) + " window"@ + "s"@ + " · attached"@
            &&& windows.len() != 1 && !session.attached ==> list_title(app) == session.name
                + " · "@ + decimal(windows.len()) + " window"@ + "s"@ + ""@
        },
{
}

/// The preview says which window and pane it is of, and then shows every line
/// that there is of it, unchanged; where nothing is selected it says so.
pub proof fn law_what_the_preview_shows(app: AppView, k: int)
    ensures
        app.entry() is None ==> preview(app).len() == 1 && preview(app)[0].len() == 1
            && preview(app)[0][0].text == "No RMUX targets found."@,
        app.entry() is Some ==> {
            let entry = app.entry()->0;
            let shown = preview(app);
            let plain = Style { fg: None, bg: None, bold: false };
            let gray = Style { fg: Some(Color::DarkGray), bg: None, bold: false };
            &&& shown.len() == 3 + entry.preview.len()
            &&& shown[0].len() == 2
            &&& shown[0][0].text == entry.session_name
            &&& shown[0][0].style == Style { fg: None, bg: None, bold: true }
            &&& shown[0][1].text == "  window "@ + entry.window_index + ":"@ + entry.window_name
            &&& shown[0][1].style == plain
            &&& shown[1].len() == 4
            &&& shown[1][0].text == "pane "@ && shown[1][0].style == gray
            &&& shown[1][1].text == entry.pane_id && shown[1][1].style == plain
            &&& shown[1][2].text == "  path "@ && shown[1][2].style == gray
            &&& shown[1][3].text == entry.pane_current_path && shown[1][3].style == plain
            &&& shown[2].len() == 1 && shown[2][0].text == ""@
            &&& 0 <= k < entry.preview.len() ==> {
                &&& shown[3 + k].len() == 1
                &&& shown[3 + k][0].text == entry.preview[k]
                &&& shown[3 + k][0].style == plain
            }
        },
{
}

/// The footer asks about a kill that waits, or else shows the name that is
/// typed, or else the status, or else how to switch.
pub proof fn law_what_the_footer_says(app: AppView)
    ensures
        app.confirm_kill is Some ==> {
            let kill = app.confirm_kill->0;
            let line = footer(app)->Prompt_0;
            &&& footer(app) is Prompt
            &&& line.len() == 3
            &&& kill.kind == KillKind::Session ==> line[0].text == "kill "@ + "session"@ + " "@
            &&& kill.kind == KillKind::Window ==> line[0].text == "kill "@ + "window"@ + " "@
            &&& line[0].style == Style { fg: Some(Color::Red), bg: None, bold: true }
            &&& line[1].text == "\""@ + kill.label + "\"?"@
            &&& line[1].style == Style { fg: Some(Color::Yellow), bg: None, bold: true }
            &&& line[2].text == "   y confirm · n cancel"@
            &&& line[2].style == Style { fg: Some(Color::DarkGray), bg: None, bold: false }
        },
        app.confirm_kill is None && app.rename is Some ==> {
            let rename = app.rename->0;
            let line = footer(app)->Prompt_0;
            &&& footer(app) is Prompt
            &&& line.len() == 5
            &&& rename.kind == RenameKind::Session ==> line[0].text == "rename "@ + "session"@
                + " "@
            &&& rename.kind == RenameKind::Window ==> line[0].text == "rename "@ + "window"@
                + " "@
            &&& line[0].style == Style { fg: Some(Color::Yellow), bg: None, bold: true }
            &&& line[1].text == "\""@ + rename.original + "\" → "@
            &&& line[1].style == Style { fg: Some(Color::DarkGray), bg: None, bold: false }
            &&& line[2].text == rename.buffer
            &&& line[2].style == Style { fg: Some(Color::Yellow), bg: None, bold: true }
            &&& line[3].text == "▏"@
            &&& line[3].style == Style { fg: Some(Color::Yellow), bg: None, bold: false }
            &&& line[4].text == "   enter save · esc cancel"@
            &&& line[4].style == Style { fg: Some(Color::DarkGray), bg: None, bold: false }
        },
        app.confirm_kill is None && app.rename is None && app.status is Some ==> footer(app)
            == FooterView::Text(app.status->0),
        app.confirm_kill is None && app.rename is None && app.status is None ==> footer(app)
            == FooterView::Text("Run inside RMUX to switch clients."@),
{
}

} // verus!
