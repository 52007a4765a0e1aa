//! What the keys do.

use vstd::prelude::*;

use crate::model::{Entry, EntryView};
use crate::picker::{
    maybe_kill, maybe_rename, App, AppView, KillState, KillView, RenameRequest, RenameRequestView,
    RenameView,
};
use crate::picker_laws::{law_navigation_keeps_consistency, same_selection};

verus! {

/// The keys that mean something to the picker.
#[derive(Debug, Clone, Copy, PartialEq, Eq, Structural)]
pub enum KeyCode {
    Char(char),
    Enter,
    Esc,
    Backspace,
    Tab,
    BackTab,
    Left,
    Right,
    Up,
    Down,
    PageUp,
    PageDown,
    /// Any other key.
    Other,
}

/// What is held down with a key.
#[derive(Debug, Clone, Copy, PartialEq, Eq, Structural)]
pub struct Modifiers {
    pub control: bool,
    pub alt: bool,
    /// Anything else, such as shift.
    pub other: bool,
}

/// A key that was pressed.
#[derive(Debug, Clone, Copy, PartialEq, Eq, Structural)]
pub struct KeyEvent {
    pub code: KeyCode,
    pub modifiers: Modifiers,
}

/// What is to be done after a key.
#[derive(Debug)]
pub enum Action {
    /// Nothing but to draw the picker again.
    Stay,
    /// Leave the picker, for the given entry if there is one.
    Exit(Option<Entry>),
    /// Load all windows and refresh.
    Refresh,
    /// Rename a session or a window.
    Rename(RenameRequest),
    /// Kill a session or a window.
    Kill(KillState),
}

/// The contents of an [`Action`].
#[verifier::ext_equal]
pub enum ActionView {
    Stay,
    Exit(Option<EntryView>),
    Refresh,
    Rename(RenameRequestView),
    Kill(KillView),
}

impl View for Action {
    type V = ActionView;

    open spec fn view(&self) -> ActionView {
        match *self {
            Action::Stay => ActionView::Stay,
            Action::Exit(entry) => ActionView::Exit(entry.deep_view()),
            Action::Refresh => ActionView::Refresh,
            Action::Rename(request) => ActionView::Rename(request@),
            Action::Kill(kill) => ActionView::Kill(kill@),
        }
    }
}

// ---------------------------------------------------------------------------
// What the keys mean
// ---------------------------------------------------------------------------

impl KeyEvent {
    /// Whether the key is the given character, or its capital.
    pub open spec fn is_letter(self, small: char, capital: char) -> bool {
        self.code == KeyCode::Char(small) || self.code == KeyCode::Char(capital)
    }

    /// Whether the key is `c` with the control key, whatever else is held.
    pub open spec fn is_interrupt(self) -> bool {
        self.code == KeyCode::Char('c') && self.modifiers.control
    }

    /// Whether the key quits the picker: escape, `q`, or `c` with the control
    /// key alone.
    pub open spec fn quits(self) -> bool {
        ||| self.code == KeyCode::Esc
        ||| self.is_letter('q', 'Q')
        ||| self.is_interrupt() && !self.modifiers.alt && !self.modifiers.other
    }

    /// Whether the key goes to the window below.
    pub open spec fn goes_down(self) -> bool {
        self.is_letter('j', 'J') || self.code == KeyCode::Down
    }

    /// Whether the key goes to the window above.
    pub open spec fn goes_up(self) -> bool {
        self.is_letter('k', 'K') || self.code == KeyCode::Up
    }

    /// Whether the key goes to the session on the right.
    pub open spec fn goes_right(self) -> bool {
        ||| self.is_letter('l', 'L')
        ||| self.code == KeyCode::Right
        ||| self.code == KeyCode::Tab
        ||| self.code == KeyCode::PageDown
    }

    /// Whether the key goes to the session on the left.
    pub open spec fn goes_left(self) -> bool {
        ||| self.is_letter('h', 'H')
        ||| self.code == KeyCode::Left
        ||| self.code == KeyCode::BackTab
        ||| self.code == KeyCode::PageUp
    }

    /// Whether the key confirms a kill: `y` alone, not with the control or alt
    /// key.
    pub open spec fn confirms(self) -> bool {
        self.is_letter('y', 'Y') && !self.modifiers.control && !self.modifiers.alt
    }

    /// Whether the key gives a kill up.
    pub open spec fn declines(self) -> bool {
        ||| self.is_letter('n', 'N')
        ||| self.is_letter('q', 'Q')
        ||| self.code == KeyCode::Esc
        ||| self.is_interrupt()
    }

    /// Whether the key is a character that is typed.
    pub open spec fn types(self) -> bool {
        self.code is Char && !self.modifiers.control && !self.modifiers.alt
    }
}

/// The picker after a key while a name is typed.
pub open spec fn rename_key(app: AppView, key: KeyEvent) -> AppView {
    if key.code == KeyCode::Enter {
        app.rename_committed()
    } else if key.code == KeyCode::Esc || key.is_interrupt() {
        app.rename_cancelled()
    } else if key.code == KeyCode::Backspace {
        app.untyped()
    } else if key.types() {
        app.typed(key.code->Char_0)
    } else {
        app
    }
}

/// The renaming that a key asks for while a name is typed.
pub open spec fn renamed_by(app: AppView, key: KeyEvent) -> Option<RenameRequestView> {
    if key.code == KeyCode::Enter {
        app.rename_request()
    } else {
        None
    }
}

/// The picker after a key while a kill waits to be confirmed.
pub open spec fn kill_key(app: AppView, key: KeyEvent) -> AppView {
    if key.confirms() {
        AppView { confirm_kill: None, ..app }
    } else if key.declines() {
        app.kill_cancelled()
    } else {
        app
    }
}

/// The kill that a key asks for while one waits to be confirmed.
pub open spec fn killed_by(app: AppView, key: KeyEvent) -> Option<KillView> {
    if key.confirms() {
        app.confirm_kill
    } else {
        None
    }
}

/// The picker after a key.
pub open spec fn after_key(app: AppView, key: KeyEvent) -> AppView {
    if app.rename is Some {
        rename_key(app, key)
    } else if app.confirm_kill is Some {
        kill_key(app, key)
    } else if key.quits() || key.code == KeyCode::Enter {
        app
    } else if key.goes_down() {
        app.next_window()
    } else if key.goes_up() {
        app.previous_window()
    } else if key.goes_right() {
        app.next_session()
    } else if key.goes_left() {
        app.previous_session()
    } else if key.code == KeyCode::Char('$') {
        app.renaming_session()
    } else if key.code == KeyCode::Char(',') {
        app.renaming_window()
    } else if key.code == KeyCode::Char('x') {
        app.killing_window()
    } else if key.code == KeyCode::Char('X') {
        app.killing_session()
    } else {
        app
    }
}

/// What is to be done after a key.
pub open spec fn action_of(app: AppView, key: KeyEvent) -> ActionView {
    if app.rename is Some {
        match renamed_by(app, key) {
            Some(request) => ActionView::Rename(request),
            None => ActionView::Stay,
        }
    } else if app.confirm_kill is Some {
        match killed_by(app, key) {
            Some(kill) => ActionView::Kill(kill),
            None => ActionView::Stay,
        }
    } else if key.quits() {
        ActionView::Exit(None)
    } else if key.code == KeyCode::Enter {
        ActionView::Exit(app.entry())
    } else if key.is_letter('r', 'R') {
        ActionView::Refresh
    } else {
        ActionView::Stay
    }
}

// ---------------------------------------------------------------------------
// Handling keys
// ---------------------------------------------------------------------------

/// Decides [`KeyEvent::quits`].
pub fn should_quit(key: KeyEvent) -> (r: bool)
    ensures
        r == key.quits(),
{
    match key.code {
        KeyCode::Esc => true,
        KeyCode::Char('q') => true,
        KeyCode::Char('Q') => true,
        KeyCode::Char('c') => key.modifiers.control && !key.modifiers.alt && !key.modifiers.other,
        _ => false,
    }
}

/// Decides whether the key picks the selected entry.
pub fn should_submit(key: KeyEvent) -> (r: bool)
    ensures
        r == (key.code == KeyCode::Enter),
{
    match key.code {
        KeyCode::Enter => true,
        _ => false,
    }
}

/// Handles a key while a name is typed: enter commits, escape and `c` with
/// the control key cancel, backspace deletes, and printable characters extend
/// the name.
pub fn handle_rename_key(app: &mut App, key: KeyEvent) -> (r: Option<RenameRequest>)
    ensures
        final(app)@ == rename_key(old(app)@, key),
        maybe_rename(r) == renamed_by(old(app)@, key),
{
    match key.code {
        KeyCode::Enter => app.commit_rename(),
        KeyCode::Esc => {
            app.cancel_rename();
            None
        },
        KeyCode::Backspace => {
            app.rename_backspace();
            None
        },
        KeyCode::Char(c) => {
            if c == 'c' && key.modifiers.control {
                app.cancel_rename();
            } else if !key.modifiers.control && !key.modifiers.alt {
                app.rename_input(c);
            }
            None
        },
        _ => None,
    }
}

/// Handles a key while a kill waits to be confirmed: only `y` goes through;
/// `n`, `q`, escape, and `c` with the control key back out. Anything else is
/// ignored, so that a stray key cannot destroy a window or a session.
pub fn handle_kill_key(app: &mut App, key: KeyEvent) -> (r: Option<KillState>)
    ensures
        final(app)@ == kill_key(old(app)@, key),
        maybe_kill(r) == killed_by(old(app)@, key),
{
    match key.code {
        KeyCode::Esc => {
            app.cancel_kill();
            None
        },
        KeyCode::Char(c) => {
            if (c == 'y' || c == 'Y') && !key.modifiers.control && !key.modifiers.alt {
                return app.commit_kill();
            }
            if c == 'n' || c == 'N' || c == 'q' || c == 'Q' || (c == 'c'
                && key.modifiers.control) {
                app.cancel_kill();
            }
            None
        },
        _ => None,
    }
}

/// Handles a key, and says what is to be done.
pub fn handle_key(app: &mut App, key: KeyEvent) -> (r: Action)
    requires
        old(app)@.in_bounds(),
    ensures
        final(app)@ == after_key(old(app)@, key),
        r@ == action_of(old(app)@, key),
{
    if app.rename.is_some() {
        return match handle_rename_key(app, key) {
            Some(request) => Action::Rename(request),
            None => Action::Stay,
        };
    }
    if app.confirm_kill.is_some() {
        return match handle_kill_key(app, key) {
            Some(kill) => Action::Kill(kill),
            None => Action::Stay,
        };
    }
    if should_quit(key) {
        return Action::Exit(None);
    }
    if should_submit(key) {
        return match app.selected_entry() {
            Some(entry) => Action::Exit(Some(entry.clone())),
            None => Action::Exit(None),
        };
    }
    match key.code {
        KeyCode::Char(c) => {
            if c == 'j' || c == 'J' {
                app.next_window();
            } else if c == 'k' || c == 'K' {
                app.previous_window();
            } else if c == 'l' || c == 'L' {
                app.next_session();
            } else if c == 'h' || c == 'H' {
                app.previous_session();
            } else if c == 'r' || c == 'R' {
                return Action::Refresh;
            } else if c == '$' {
                app.begin_rename_session();
            } else if c == ',' {
                app.begin_rename_window();
            } else if c == 'x' {
                app.begin_kill_window();
            } else if c == 'X' {
                app.begin_kill_session();
            }
        },
        KeyCode::Down => app.next_window(),
        KeyCode::Up => app.previous_window(),
        KeyCode::Right => app.next_session(),
        KeyCode::Tab => app.next_session(),
        KeyCode::PageDown => app.next_session(),
        KeyCode::Left => app.previous_session(),
        KeyCode::BackTab => app.previous_session(),
        KeyCode::PageUp => app.previous_session(),
        _ => {},
    }
    Action::Stay
}

// ---------------------------------------------------------------------------
// Laws
// ---------------------------------------------------------------------------

/// Nothing is killed but what was asked for, and that by `y` alone, without
/// the control and alt keys, and not while a name is typed.
pub proof fn law_only_a_confirmed_kill_goes_through(app: AppView, key: KeyEvent)
    ensures
        action_of(app, key) matches ActionView::Kill(kill) ==> {
            &&& key.confirms()
            &&& app.rename is None
            &&& app.confirm_kill == Some(kill)
        },
{
}

/// A kill comes to wait by `x` or `X` alone, and is then of the selected
/// window or session.
pub proof fn law_only_x_asks_to_kill(app: AppView, key: KeyEvent)
    requires
        app.confirm_kill is None,
        after_key(app, key).confirm_kill is Some,
    ensures
        key.is_letter('x', 'X'),
        key.code == KeyCode::Char('x') ==> after_key(app, key) == app.killing_window(),
        key.code == KeyCode::Char('X') ==> after_key(app, key) == app.killing_session(),
{
}

/// A stray key does nothing while a kill waits to be confirmed.
pub proof fn law_stray_keys_are_ignored(app: AppView, key: KeyEvent)
    requires
        app.rename is None,
        app.confirm_kill is Some,
        !key.confirms(),
        !key.declines(),
    ensures
        after_key(app, key) == app,
        action_of(app, key) == ActionView::Stay,
{
}

/// While a name is typed, no key quits, moves, refreshes or kills: every
/// character that is not typed with the control or alt key goes into the name.
pub proof fn law_typing_takes_the_keys(app: AppView, key: KeyEvent)
    requires
        app.rename is Some,
    ensures
        same_selection(app, after_key(app, key)),
        after_key(app, key).confirm_kill == app.confirm_kill,
        action_of(app, key) is Stay || action_of(app, key) is Rename,
        action_of(app, key) is Rename ==> key.code == KeyCode::Enter,
        key.types() ==> after_key(app, key).rename == Some(
            RenameView {
                buffer: app.rename->0.buffer.push(key.code->Char_0),
                ..app.rename->0
            },
        ),
{
}

/// The picker is left for the selected entry by enter alone, and for none by
/// the keys that quit; neither while a name is typed or a kill waits.
pub proof fn law_how_the_picker_is_left(app: AppView, key: KeyEvent)
    ensures
        action_of(app, key) matches ActionView::Exit(entry) ==> {
            &&& app.rename is None
            &&& app.confirm_kill is None
            &&& key.code == KeyCode::Enter && entry == app.entry() || key.quits() && entry is None
        },
        app.rename is None && app.confirm_kill is None && key.quits() ==> action_of(app, key)
            == ActionView::Exit(None),
        app.rename is None && app.confirm_kill is None && key.code == KeyCode::Enter
            ==> action_of(app, key) == ActionView::Exit(app.entry()),
{
}

/// No key makes the picker inconsistent.
pub proof fn law_keys_keep_consistency(app: AppView, key: KeyEvent)
    requires
        app.consistent(),
        app.countable(),
    ensures
        after_key(app, key).consistent(),
{
    law_navigation_keeps_consistency(app);
}

/// Whether a key is the given character.
pub open spec fn is_char(key: KeyEvent, c: char) -> bool {
    key.code == KeyCode::Char(c)
}

/// Whether a key is one that the picker acts on while nothing is asked and
/// nothing is typed.
pub open spec fn has_meaning(key: KeyEvent) -> bool {
    ||| is_char(key, 'j') || is_char(key, 'J') || key.code == KeyCode::Down
    ||| is_char(key, 'k') || is_char(key, 'K') || key.code == KeyCode::Up
    ||| is_char(key, 'l') || is_char(key, 'L') || key.code == KeyCode::Right
    ||| key.code == KeyCode::Tab || key.code == KeyCode::PageDown
    ||| is_char(key, 'h') || is_char(key, 'H') || key.code == KeyCode::Left
    ||| key.code == KeyCode::BackTab || key.code == KeyCode::PageUp
    ||| is_char(key, 'r') || is_char(key, 'R')
    ||| is_char(key, '$') || is_char(key, ',') || is_char(key, 'x') || is_char(key, 'X')
    ||| is_char(key, 'q') || is_char(key, 'Q')
    ||| key.code == KeyCode::Esc || key.code == KeyCode::Enter
    ||| is_char(key, 'c') && key.modifiers.control && !key.modifiers.alt && !key.modifiers.other
}

/// While nothing is asked and nothing is typed, each key does what it is for,
/// whatever is held with it, and any other key does nothing.
pub proof fn law_each_key_does_its_part(app: AppView, key: KeyEvent)
    requires
        app.rename is None,
        app.confirm_kill is None,
    ensures
        is_char(key, 'j') || is_char(key, 'J') || key.code == KeyCode::Down ==> after_key(app, key)
            == app.next_window() && action_of(app, key) == ActionView::Stay,
        is_char(key, 'k') || is_char(key, 'K') || key.code == KeyCode::Up ==> after_key(app, key)
            == app.previous_window() && action_of(app, key) == ActionView::Stay,
        is_char(key, 'l') || is_char(key, 'L') || key.code == KeyCode::Right || key.code
            == KeyCode::Tab || key.code == KeyCode::PageDown ==> after_key(app, key)
            == app.next_session() && action_of(app, key) == ActionView::Stay,
        is_char(key, 'h') || is_char(key, 'H') || key.code == KeyCode::Left || key.code
            == KeyCode::BackTab || key.code == KeyCode::PageUp ==> after_key(app, key)
            == app.previous_session() && action_of(app, key) == ActionView::Stay,
        is_char(key, '$') ==> after_key(app, key) == app.renaming_session() && action_of(app, key)
            == ActionView::Stay,
        is_char(key, ',') ==> after_key(app, key) == app.renaming_window() && action_of(app, key)
            == ActionView::Stay,
        is_char(key, 'x') ==> after_key(app, key) == app.killing_window() && action_of(app, key)
            == ActionView::Stay,
        is_char(key, 'X') ==> after_key(app, key) == app.killing_session() && action_of(app, key)
            == ActionView::Stay,
        is_char(key, 'r') || is_char(key, 'R') ==> after_key(app, key) == app && action_of(app, key)
            == ActionView::Refresh,
        is_char(key, 'q') || is_char(key, 'Q') || key.code == KeyCode::Esc ==> after_key(app, key)
            == app && action_of(app, key) == ActionView::Exit(None),
        is_char(key, 'c') && key.modifiers.control && !key.modifiers.alt && !key.modifiers.other
            ==> after_key(app, key) == app && action_of(app, key) == ActionView::Exit(None),
        key.code == KeyCode::Enter ==> after_key(app, key) == app && action_of(app, key)
            == ActionView::Exit(app.entry()),
        !has_meaning(key) ==> after_key(app, key) == app && action_of(app, key)
            == ActionView::Stay,
{
}

/// While a kill waits, `y` without the control and alt keys goes through with
/// it, and `n`, `q`, escape and `c` with the control key give it up; any other
/// key does nothing.
pub proof fn law_a_kill_is_confirmed_or_declined(app: AppView, key: KeyEvent)
    requires
        app.rename is None,
        app.confirm_kill is Some,
    ensures
        ({
            let yes = (is_char(key, 'y') || is_char(key, 'Y')) && !key.modifiers.control
                && !key.modifiers.alt;
            let no = is_char(key, 'n') || is_char(key, 'N') || is_char(key, 'q') || is_char(
                key,
                'Q',
            ) || key.code == KeyCode::Esc || is_char(key, 'c') && key.modifiers.control;
            &&& yes ==> after_key(app, key) == AppView { confirm_kill: None, ..app } && action_of(
                app,
                key,
            ) == ActionView::Kill(app.confirm_kill->0)
            &&& no ==> after_key(app, key) == app.kill_cancelled() && action_of(app, key)
                == ActionView::Stay
            &&& !yes && !no ==> after_key(app, key) == app && action_of(app, key)
                == ActionView::Stay
        }),
{
}

/// While a name is typed, enter commits it, escape and `c` with the control
/// key give it up, backspace takes its last character, and a character without
/// the control and alt keys goes into it; any other key does nothing.
pub proof fn law_each_key_goes_to_the_name(app: AppView, key: KeyEvent, c: char)
    requires
        app.rename is Some,
    ensures
        key.code == KeyCode::Enter ==> {
            &&& after_key(app, key) == app.rename_committed()
            &&& app.rename_request() is Some ==> action_of(app, key) == ActionView::Rename(
                app.rename_request()->0,
            )
            &&& app.rename_request() is None ==> action_of(app, key) == ActionView::Stay
        },
        key.code != KeyCode::Enter ==> action_of(app, key) == ActionView::Stay,
        key.code == KeyCode::Esc || is_char(key, 'c') && key.modifiers.control ==> after_key(
            app,
            key,
        ) == app.rename_cancelled(),
        key.code == KeyCode::Backspace ==> after_key(app, key) == app.untyped(),
        is_char(key, c) && !key.modifiers.control && !key.modifiers.alt ==> after_key(app, key)
            == app.typed(c),
        key.code is Char && (key.modifiers.control || key.modifiers.alt) && !(is_char(key, 'c')
            && key.modifiers.control) ==> after_key(app, key) == app,
        !(key.code is Char) && key.code != KeyCode::Enter && key.code != KeyCode::Esc && key.code
            != KeyCode::Backspace ==> after_key(app, key) == app,
{
}

} // verus!
