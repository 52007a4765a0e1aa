//! How the entries follow from what the daemon says of its sessions, windows
//! and panes.

use vstd::prelude::*;

use crate::model::{Activity, Entry, EntryView, GroupView};
use crate::options::LoadRequest;
use crate::preview::{activity_fingerprint_of, fingerprint, preview_from_text, preview_of};
use crate::rmux::{ListedView, ListedWindow};
use crate::search::{lemma_place_from, lemma_place_from_is, place, place_from};
use crate::sessions::{is_grouping, law_windows_ascend, lemma_grouping_in_bounds};
use crate::table::{Key, Table};
use crate::text::{decimal, decimal_text};

verus! {

// ---------------------------------------------------------------------------
// What the daemon says
// ---------------------------------------------------------------------------

/// A pane, as it is discovered.
#[derive(Debug)]
pub struct DiscoveredPane {
    pub session_name: String,
    pub session_id: u32,
    pub window_index: u32,
    pub pane_id: u32,
    pub working_directory: Option<String>,
}

/// The contents of a [`DiscoveredPane`].
#[verifier::ext_equal]
pub struct DiscoveredView {
    pub session_name: Seq<char>,
    pub session_id: u32,
    pub window_index: u32,
    pub pane_id: u32,
    pub working_directory: Option<Seq<char>>,
}

impl View for DiscoveredPane {
    type V = DiscoveredView;

    open spec fn view(&self) -> DiscoveredView {
        DiscoveredView {
            session_name: self.session_name@,
            session_id: self.session_id,
            window_index: self.window_index,
            pane_id: self.pane_id,
            working_directory: self.working_directory.deep_view(),
        }
    }
}

impl DeepView for DiscoveredPane {
    type V = DiscoveredView;

    open spec fn deep_view(&self) -> DiscoveredView {
        self@
    }
}

/// A pane of a window, as it is listed.
#[derive(Debug, Clone, Copy, PartialEq, Eq, Structural)]
pub struct ListedPane {
    pub id: u32,
    pub active: bool,
}

/// A window of a session with its panes, as they are listed.
#[derive(Debug)]
pub struct WindowListing {
    pub window: ListedWindow,
    pub panes: Vec<ListedPane>,
}

/// The contents of a [`WindowListing`].
#[verifier::ext_equal]
pub struct WindowListingView {
    pub window: ListedView,
    pub panes: Seq<ListedPane>,
}

impl View for WindowListing {
    type V = WindowListingView;

    open spec fn view(&self) -> WindowListingView {
        WindowListingView { window: self.window@, panes: self.panes@ }
    }
}

impl DeepView for WindowListing {
    type V = WindowListingView;

    open spec fn deep_view(&self) -> WindowListingView {
        self@
    }
}

/// A session with its windows, as they are listed.
#[derive(Debug)]
pub struct SessionListing {
    pub name: String,
    pub windows: Vec<WindowListing>,
}

/// The contents of a [`SessionListing`].
#[verifier::ext_equal]
pub struct SessionListingView {
    pub name: Seq<char>,
    pub windows: Seq<WindowListingView>,
}

impl View for SessionListing {
    type V = SessionListingView;

    open spec fn view(&self) -> SessionListingView {
        SessionListingView { name: self.name@, windows: self.windows.deep_view() }
    }
}

impl DeepView for SessionListing {
    type V = SessionListingView;

    open spec fn deep_view(&self) -> SessionListingView {
        self@
    }
}

/// What is known of the session of a pane.
#[derive(Debug, Clone, Copy, PartialEq, Eq, Structural)]
pub struct SessionInfo {
    pub attached_clients: u32,
    pub generation: u64,
}

/// What is asked for each pane that is shown: its session, and what is on its
/// screen, or why that cannot be said.
#[derive(Debug)]
pub struct PaneDetail {
    pub session: Option<SessionInfo>,
    pub screen: Result<String, String>,
}

/// The contents of a [`PaneDetail`].
#[verifier::ext_equal]
pub struct DetailView {
    pub session: Option<SessionInfo>,
    pub screen: Result<Seq<char>, Seq<char>>,
}

impl View for PaneDetail {
    type V = DetailView;

    open spec fn view(&self) -> DetailView {
        DetailView {
            session: self.session,
            screen: match self.screen {
                Ok(text) => Ok(text@),
                Err(err) => Err(err@),
            },
        }
    }
}

impl DeepView for PaneDetail {
    type V = DetailView;

    open spec fn deep_view(&self) -> DetailView {
        self@
    }
}

// ---------------------------------------------------------------------------
// The sessions to ask for
// ---------------------------------------------------------------------------

/// The names of the sessions of some panes, each once, in the order in which
/// they first occur.
pub open spec fn distinct_names(panes: Seq<DiscoveredView>) -> Seq<Seq<char>>
    decreases panes.len(),
{
    if panes.len() == 0 {
        Seq::empty()
    } else {
        let front = distinct_names(panes.drop_last());
        if front.contains(panes.last().session_name) {
            front
        } else {
            front.push(panes.last().session_name)
        }
    }
}

fn has_name(names: &Vec<String>, name: &String) -> (r: bool)
    ensures
        r == names.deep_view().contains(name@),
{
    let ghost all = names.deep_view();
    let mut k: usize = 0;
    while k < names.len()
        invariant
            all == names.deep_view(),
            k <= names@.len(),
            forall|i: int| 0 <= i < k ==> (#[trigger] all[i]) != name@,
        decreases names@.len() - k,
    {
        assert(all[k as int] == names[k as int]@);
        if names[k] == *name {
            return true;
        }
        k += 1;
    }
    false
}

/// Gives the names of the sessions of some panes, each once.
pub fn session_names(panes: &Vec<DiscoveredPane>) -> (r: Vec<String>)
    ensures
        r.deep_view() == distinct_names(panes.deep_view()),
{
    let ghost all = panes.deep_view();
    let mut names: Vec<String> = Vec::new();
    assert(names.deep_view() =~= distinct_names(all.take(0)));
    let mut k: usize = 0;
    while k < panes.len()
        invariant
            all == panes.deep_view(),
            k <= panes@.len(),
            names.deep_view() == distinct_names(all.take(k as int)),
        decreases panes@.len() - k,
    {
        let ghost before = names.deep_view();
        assert(all.take(k + 1).drop_last() =~= all.take(k as int));
        assert(all.take(k + 1).last() == panes[k as int]@);
        if !has_name(&names, &panes[k].session_name) {
            names.push(panes[k].session_name.clone());
            assert(names.deep_view() =~= before.push(panes[k as int]@.session_name));
        }
        k += 1;
    }
    assert(all.take(k as int) =~= all);
    names
}

// ---------------------------------------------------------------------------
// The windows
// ---------------------------------------------------------------------------

/// A window, by the name of its session and its place there.
#[derive(Debug)]
pub struct WindowKey {
    pub session_name: String,
    pub window_index: u32,
}

impl Key for WindowKey {
    type Id = (Seq<char>, u32);

    open spec fn id(&self) -> (Seq<char>, u32) {
        (self.session_name@, self.window_index)
    }

    fn is(&self, other: &WindowKey) -> bool {
        self.session_name == other.session_name && self.window_index == other.window_index
    }
}

/// What is known of a window.
#[derive(Debug)]
pub struct WindowRuntimeInfo {
    pub id: String,
    pub name: String,
    pub active: bool,
    pub active_pane_id: Option<u32>,
}

/// The contents of a [`WindowRuntimeInfo`].
#[verifier::ext_equal]
pub struct InfoView {
    pub id: Seq<char>,
    pub name: Seq<char>,
    pub active: bool,
    pub active_pane_id: Option<u32>,
}

impl View for WindowRuntimeInfo {
    type V = InfoView;

    open spec fn view(&self) -> InfoView {
        InfoView {
            id: self.id@,
            name: self.name@,
            active: self.active,
            active_pane_id: self.active_pane_id,
        }
    }
}

impl DeepView for WindowRuntimeInfo {
    type V = InfoView;

    open spec fn deep_view(&self) -> InfoView {
        self@
    }
}

/// What is known of each window.
pub type WindowTable = Table<WindowKey, WindowRuntimeInfo>;

/// What is known of each window, by contents.
pub type WindowMap = Map<(Seq<char>, u32), InfoView>;

/// Being active.
pub open spec fn pane_is_active() -> spec_fn(ListedPane) -> bool {
    |pane: ListedPane| pane.active
}

/// The first active pane of a window, if there is one.
pub open spec fn active_pane_of(panes: Seq<ListedPane>) -> Option<u32> {
    match place(panes, pane_is_active()) {
        Some(k) => Some(panes[k].id),
        None => None,
    }
}

/// Finds the first active pane of a window.
pub fn active_pane(panes: &Vec<ListedPane>) -> (r: Option<u32>)
    ensures
        r == active_pane_of(panes@),
{
    let ghost pred = pane_is_active();
    let mut k: usize = 0;
    while k < panes.len() && !panes[k].active
        invariant
            pred == pane_is_active(),
            k <= panes@.len(),
            place_from(panes@, pred, 0) == place_from(panes@, pred, k as int),
        decreases panes@.len() - k,
    {
        k += 1;
    }
    if k < panes.len() {
        Some(panes[k].id)
    } else {
        None
    }
}

/// What is known of a listed window; one without a name is called a window.
pub open spec fn info_of(listing: WindowListingView) -> InfoView {
    InfoView {
        id: listing.window.window_id,
        name: match listing.window.name {
            Some(name) => name,
            None => "window"@,
        },
        active: listing.window.active,
        active_pane_id: active_pane_of(listing.panes),
    }
}

/// Gathers what is known of a listed window.
pub fn window_info(listing: &WindowListing) -> (r: WindowRuntimeInfo)
    ensures
        r@ == info_of(listing@),
{
    WindowRuntimeInfo {
        id: listing.window.window_id.clone(),
        name: match &listing.window.name {
            Some(name) => name.clone(),
            None => "window".to_owned(),
        },
        active: listing.window.active,
        active_pane_id: active_pane(&listing.panes),
    }
}

/// What is known of windows, with those of one session more.
pub open spec fn with_windows(
    known: WindowMap,
    name: Seq<char>,
    windows: Seq<WindowListingView>,
) -> WindowMap
    decreases windows.len(),
{
    if windows.len() == 0 {
        known
    } else {
        with_windows(known, name, windows.drop_last()).insert(
            (name, windows.last().window.window_index),
            info_of(windows.last()),
        )
    }
}

/// What is known of the windows of some sessions.
pub open spec fn windows_of(sessions: Seq<SessionListingView>) -> WindowMap
    decreases sessions.len(),
{
    if sessions.len() == 0 {
        Map::empty()
    } else {
        with_windows(
            windows_of(sessions.drop_last()),
            sessions.last().name,
            sessions.last().windows,
        )
    }
}

fn add_windows(table: &mut WindowTable, session: &SessionListing)
    ensures
        final(table).deep_view() == with_windows(
            old(table).deep_view(),
            session@.name,
            session@.windows,
        ),
{
    let ghost known = table.deep_view();
    let ghost all = session@.windows;
    assert(with_windows(known, session@.name, all.take(0)) == known);
    let mut k: usize = 0;
    while k < session.windows.len()
        invariant
            all == session@.windows,
            k <= session.windows@.len(),
            table.deep_view() == with_windows(known, session@.name, all.take(k as int)),
        decreases session.windows@.len() - k,
    {
        let ghost before = table.deep_view();
        let listing = &session.windows[k];
        assert(all[k as int] == listing@);
        assert(all.take(k + 1).drop_last() =~= all.take(k as int));
        let info = window_info(listing);
        let ghost shown = info@;
        let key = WindowKey {
            session_name: session.name.clone(),
            window_index: listing.window.window_index,
        };
        let ghost id = key.id();
        table.insert(key, info);
        assert(table.deep_view() =~= before.insert(id, shown));
        k += 1;
    }
    assert(all.take(k as int) =~= all);
}

/// Gathers what is known of the windows of some sessions. A window that is
/// listed twice is known by its last listing.
pub fn load_window_runtime_info(sessions: &Vec<SessionListing>) -> (r: WindowTable)
    ensures
        r.deep_view() == windows_of(sessions.deep_view()),
{
    let ghost all = sessions.deep_view();
    let mut table: WindowTable = Table::new();
    assert(table.deep_view() =~= windows_of(all.take(0)));
    let mut k: usize = 0;
    while k < sessions.len()
        invariant
            all == sessions.deep_view(),
            k <= sessions@.len(),
            table.deep_view() == windows_of(all.take(k as int)),
        decreases sessions@.len() - k,
    {
        assert(all[k as int] == sessions[k as int]@);
        assert(all.take(k + 1).drop_last() =~= all.take(k as int));
        add_windows(&mut table, &sessions[k]);
        k += 1;
    }
    assert(all.take(k as int) =~= all);
    table
}

// ---------------------------------------------------------------------------
// The panes to show
// ---------------------------------------------------------------------------

/// By what the window of a pane is known.
pub open spec fn key_of(pane: DiscoveredView) -> (Seq<char>, u32) {
    (pane.session_name, pane.window_index)
}

/// Whether a pane is shown: it is the active one of its window, and that is
/// the active one of its session unless all windows are shown.
pub open spec fn is_wanted(pane: DiscoveredView, windows: WindowMap, all_windows: bool) -> bool {
    &&& windows.contains_key(key_of(pane))
    &&& windows[key_of(pane)].active_pane_id == Some(pane.pane_id)
    &&& all_windows || windows[key_of(pane)].active
}

/// The places of the panes that are shown, among the first `n`.
pub open spec fn wanted_in(
    panes: Seq<DiscoveredView>,
    windows: WindowMap,
    all_windows: bool,
    n: int,
) -> Seq<usize>
    decreases n,
{
    if n <= 0 {
        Seq::empty()
    } else if is_wanted(panes[n - 1], windows, all_windows) {
        wanted_in(panes, windows, all_windows, n - 1).push((n - 1) as usize)
    } else {
        wanted_in(panes, windows, all_windows, n - 1)
    }
}

/// The places of the panes that are shown.
pub open spec fn wanted(
    panes: Seq<DiscoveredView>,
    windows: WindowMap,
    all_windows: bool,
) -> Seq<usize> {
    wanted_in(panes, windows, all_windows, panes.len() as int)
}

fn pane_key(pane: &DiscoveredPane) -> (r: WindowKey)
    ensures
        r.id() == key_of(pane@),
{
    WindowKey { session_name: pane.session_name.clone(), window_index: pane.window_index }
}

/// Decides [`is_wanted`].
pub fn pane_is_wanted(pane: &DiscoveredPane, windows: &WindowTable, all_windows: bool) -> (r: bool)
    ensures
        r == is_wanted(pane@, windows.deep_view(), all_windows),
{
    match windows.get(&pane_key(pane)) {
        Some(window) => {
            let shown = match window.active_pane_id {
                Some(id) => id == pane.pane_id,
                None => false,
            };
            shown && (all_windows || window.active)
        },
        None => false,
    }
}

/// Finds the panes that are shown, in the order in which they were
/// discovered.
pub fn wanted_panes(
    panes: &Vec<DiscoveredPane>,
    windows: &WindowTable,
    all_windows: bool,
) -> (r: Vec<usize>)
    ensures
        r@ == wanted(panes.deep_view(), windows.deep_view(), all_windows),
{
    let ghost all = panes.deep_view();
    let mut r: Vec<usize> = Vec::new();
    let mut k: usize = 0;
    while k < panes.len()
        invariant
            all == panes.deep_view(),
            k <= panes@.len(),
            r@ == wanted_in(all, windows.deep_view(), all_windows, k as int),
        decreases panes@.len() - k,
    {
        assert(all[k as int] == panes[k as int]@);
        if pane_is_wanted(&panes[k], windows, all_windows) {
            r.push(k);
        }
        k += 1;
    }
    r
}

// ---------------------------------------------------------------------------
// The entries
// ---------------------------------------------------------------------------

/// `rmux_proto::SessionId`, written as text: a dollar sign and the number.
#[verifier::external_body]
fn session_id_text(id: u32) -> (r: String)
    ensures
        r@ == seq!['$'] + decimal(id as nat),
{
    rmux_proto::SessionId::new(id).to_string()
}

/// `rmux_proto::PaneId`, written as text: a percent sign and the number.
#[verifier::external_body]
fn pane_id_text(id: u32) -> (r: String)
    ensures
        r@ == seq!['%'] + decimal(id as nat),
{
    rmux_proto::PaneId::new(id).to_string()
}

/// What is shown of a screen, or of the failure to capture it.
pub open spec fn shown_screen(screen: Result<Seq<char>, Seq<char>>, lines: nat) -> Seq<Seq<char>> {
    match screen {
        Ok(text) => preview_of(text, lines),
        Err(err) => seq!["failed to capture pane: "@ + err],
    }
}

/// Makes what is shown of a screen.
pub fn screen_preview(screen: &Result<String, String>, lines: usize) -> (r: Vec<String>)
    ensures
        r.deep_view() == shown_screen(
            match *screen {
                Ok(text) => Ok(text@),
                Err(err) => Err(err@),
            },
            lines as nat,
        ),
{
    match screen {
        Ok(text) => preview_from_text(text.as_str(), lines),
        Err(err) => {
            let mut text = "failed to capture pane: ".to_owned();
            text.append(err.as_str());
            let ghost shown = text@;
            let mut r: Vec<String> = Vec::new();
            r.push(text);
            assert(r.deep_view() =~= seq![shown]);
            r
        },
    }
}

/// The entry of a pane.
pub open spec fn entry_of(
    pane: DiscoveredView,
    window: InfoView,
    detail: DetailView,
    lines: nat,
) -> EntryView {
    let preview = shown_screen(detail.screen, lines);
    EntryView {
        session_id: seq!['$'] + decimal(pane.session_id as nat),
        session_name: pane.session_name,
        session_attached: detail.session is Some && detail.session->0.attached_clients > 0,
        session_activity: match detail.session {
            Some(session) => session.generation,
            None => 0,
        },
        window_id: window.id,
        window_index: decimal(pane.window_index as nat),
        window_index_num: pane.window_index,
        window_name: window.name,
        window_active: window.active,
        pane_id: seq!['%'] + decimal(pane.pane_id as nat),
        pane_id_num: pane.pane_id,
        pane_current_path: match pane.working_directory {
            Some(path) => path,
            None => "-"@,
        },
        preview,
        activity: Activity::Unknown,
        activity_fingerprint: fingerprint(preview),
    }
}

/// Makes the entry of a pane.
pub fn build_entry(
    pane: &DiscoveredPane,
    window: &WindowRuntimeInfo,
    detail: &PaneDetail,
    lines: usize,
) -> (r: Entry)
    ensures
        r@ == entry_of(pane@, window@, detail@, lines as nat),
{
    let preview = screen_preview(&detail.screen, lines);
    let activity_fingerprint = activity_fingerprint_of(&preview);
    Entry {
        session_id: session_id_text(pane.session_id),
        session_name: pane.session_name.clone(),
        session_attached: match detail.session {
            Some(session) => session.attached_clients > 0,
            None => false,
        },
        session_activity: match detail.session {
            Some(session) => session.generation,
            None => 0,
        },
        window_id: window.id.clone(),
        window_index: decimal_text(pane.window_index as u128),
        window_index_num: pane.window_index,
        window_name: window.name.clone(),
        window_active: window.active,
        pane_id: pane_id_text(pane.pane_id),
        pane_id_num: pane.pane_id,
        pane_current_path: match &pane.working_directory {
            Some(path) => path.clone(),
            None => "-".to_owned(),
        },
        preview,
        activity: Activity::Unknown,
        activity_fingerprint,
    }
}

/// The entries of the panes that are shown, given what was asked for each of
/// them.
pub open spec fn entries_of(
    panes: Seq<DiscoveredView>,
    windows: WindowMap,
    request: LoadRequest,
    details: Seq<DetailView>,
) -> Seq<EntryView> {
    let shown = wanted(panes, windows, request.all_windows);
    Seq::new(
        shown.len(),
        |i: int|
            entry_of(
                panes[shown[i] as int],
                windows[key_of(panes[shown[i] as int])],
                details[i],
                request.preview_lines as nat,
            ),
    )
}

/// Makes the entries of the panes that are shown. It is an error when there
/// are none.
pub fn load_entries(
    panes: &Vec<DiscoveredPane>,
    windows: &WindowTable,
    request: LoadRequest,
    details: &Vec<PaneDetail>,
) -> (r: Result<Vec<Entry>, String>)
    requires
        details@.len() == wanted(
            panes.deep_view(),
            windows.deep_view(),
            request.all_windows,
        ).len(),
    ensures
        r is Ok <==> details@.len() > 0,
        match r {
            Ok(entries) => entries.deep_view() == entries_of(
                panes.deep_view(),
                windows.deep_view(),
                request,
                details.deep_view(),
            ),
            Err(err) => err@ == "no RMUX sessions/windows found"@,
        },
{
    let shown = wanted_panes(panes, windows, request.all_windows);
    let ghost all = entries_of(
        panes.deep_view(),
        windows.deep_view(),
        request,
        details.deep_view(),
    );
    let mut entries: Vec<Entry> = Vec::new();
    assert(entries.deep_view() =~= all.take(0));
    let mut k: usize = 0;
    while k < shown.len()
        invariant
            shown@ == wanted(panes.deep_view(), windows.deep_view(), request.all_windows),
            details@.len() == shown@.len(),
            all == entries_of(
                panes.deep_view(),
                windows.deep_view(),
                request,
                details.deep_view(),
            ),
            k <= shown@.len(),
            entries.deep_view() == all.take(k as int),
        decreases shown@.len() - k,
    {
        proof {
            assert(panes.len() <= usize::MAX);
            lemma_wanted(
                panes.deep_view(),
                windows.deep_view(),
                request.all_windows,
                panes@.len() as int,
            );
        }
        let i: usize = shown[k];
        let pane = &panes[i];
        assert(panes.deep_view()[i as int] == pane@);
        assert(details.deep_view()[k as int] == details[k as int]@);
        if let Some(window) = windows.get(&pane_key(pane)) {
            let ghost before = entries.deep_view();
            let entry = build_entry(pane, window, &details[k], request.preview_lines);
            let ghost made = entry@;
            assert(made == all[k as int]);
            entries.push(entry);
            assert(entries.deep_view() =~= before.push(made));
            assert(all.take(k + 1) =~= before.push(made));
        }
        k += 1;
    }
    assert(all.take(k as int) =~= all);
    if entries.len() == 0 {
        Err("no RMUX sessions/windows found".to_owned())
    } else {
        Ok(entries)
    }
}

proof fn lemma_wanted(
    panes: Seq<DiscoveredView>,
    windows: WindowMap,
    all_windows: bool,
    n: int,
)
    requires
        0 <= n <= panes.len() <= usize::MAX,
    ensures
        forall|k: int|
            0 <= k < wanted_in(panes, windows, all_windows, n).len() ==> {
                let i = #[trigger] wanted_in(panes, windows, all_windows, n)[k];
                i < n && is_wanted(panes[i as int], windows, all_windows)
            },
        forall|i: int|
            0 <= i < n && is_wanted(#[trigger] panes[i], windows, all_windows) ==> wanted_in(
                panes,
                windows,
                all_windows,
                n,
            ).contains(i as usize),
        forall|j: int, k: int|
            0 <= j < k < wanted_in(panes, windows, all_windows, n).len()
                ==> #[trigger] wanted_in(panes, windows, all_windows, n)[j]
                < #[trigger] wanted_in(panes, windows, all_windows, n)[k],
    decreases n,
{
    if n > 0 {
        lemma_wanted(panes, windows, all_windows, n - 1);
        let front = wanted_in(panes, windows, all_windows, n - 1);
        let now = wanted_in(panes, windows, all_windows, n);
        assert forall|i: int|
            0 <= i < n && is_wanted(#[trigger] panes[i], windows, all_windows) implies now.contains(
            i as usize,
        ) by {
            if i < n - 1 {
                assert(front.contains(i as usize));
                let k = choose|k: int| 0 <= k < front.len() && front[k] == i as usize;
                assert(now[k] == i as usize);
            } else {
                assert(now[now.len() - 1] == i as usize);
            }
        }
    }
}

// ---------------------------------------------------------------------------
// Laws
// ---------------------------------------------------------------------------

/// The sessions that are asked for are those of the panes, each once.
pub proof fn law_each_session_is_asked_once(panes: Seq<DiscoveredView>)
    ensures
        distinct_names(panes).no_duplicates(),
        forall|i: int|
            0 <= i < panes.len() ==> distinct_names(panes).contains(
                (#[trigger] panes[i]).session_name,
            ),
        forall|k: int|
            0 <= k < distinct_names(panes).len() ==> exists|i: int|
                0 <= i < panes.len() && (#[trigger] panes[i]).session_name
                    == #[trigger] distinct_names(panes)[k],
    decreases panes.len(),
{
    if panes.len() > 0 {
        let front = panes.drop_last();
        law_each_session_is_asked_once(front);
        let before = distinct_names(front);
        let names = distinct_names(panes);
        assert forall|i: int| 0 <= i < panes.len() implies names.contains(
            (#[trigger] panes[i]).session_name,
        ) by {
            if i < front.len() {
                assert(front[i] == panes[i]);
                assert(before.contains(front[i].session_name));
                let k = choose|k: int| 0 <= k < before.len() && before[k] == panes[i].session_name;
                assert(names[k] == panes[i].session_name);
            } else if !before.contains(panes[i].session_name) {
                assert(names[names.len() - 1] == panes[i].session_name);
            }
        }
        assert forall|k: int| 0 <= k < names.len() implies exists|i: int|
            0 <= i < panes.len() && (#[trigger] panes[i]).session_name == #[trigger] names[k] by {
            if k < before.len() {
                assert(names[k] == before[k]);
                let i = choose|i: int|
                    0 <= i < front.len() && (#[trigger] front[i]).session_name == before[k];
                assert(panes[i] == front[i]);
            } else {
                assert(panes[panes.len() - 1].session_name == names[k]);
            }
        }
    }
}

/// A pane is shown exactly where it is wanted, and once: the entries are
/// those of the wanted panes, in the order in which the panes were
/// discovered.
pub proof fn law_wanted_panes_are_shown_once(
    panes: Seq<DiscoveredView>,
    windows: WindowMap,
    all_windows: bool,
)
    requires
        panes.len() <= usize::MAX,
    ensures
        ({
            let shown = wanted(panes, windows, all_windows);
            &&& forall|k: int|
                0 <= k < shown.len() ==> {
                    let i = #[trigger] shown[k];
                    i < panes.len() && is_wanted(panes[i as int], windows, all_windows)
                }
            &&& forall|i: int|
                0 <= i < panes.len() && is_wanted(#[trigger] panes[i], windows, all_windows)
                    ==> shown.contains(i as usize)
            &&& forall|j: int, k: int|
                0 <= j < k < shown.len() ==> #[trigger] shown[j] < #[trigger] shown[k]
        }),
{
    lemma_wanted(panes, windows, all_windows, panes.len() as int);
}

/// Being the active window of a session.
pub open spec fn entry_is_active() -> spec_fn(EntryView) -> bool {
    |entry: EntryView| entry.window_active
}

/// Without all windows, the entries are the active windows among those that
/// are shown with all windows, in the same order and with the same contents,
/// where the same is said of each pane.
pub proof fn law_the_short_list_is_the_active_windows(
    panes: Seq<DiscoveredView>,
    windows: WindowMap,
    lines: usize,
    few: Seq<DetailView>,
    all: Seq<DetailView>,
)
    requires
        panes.len() <= usize::MAX,
        forall|i: int, j: int|
            0 <= i < wanted(panes, windows, false).len() && 0 <= j < wanted(
                panes,
                windows,
                true,
            ).len() && #[trigger] wanted(panes, windows, false)[i] == #[trigger] wanted(
                panes,
                windows,
                true,
            )[j] ==> few[i] == all[j],
    ensures
        entries_of(
            panes,
            windows,
            LoadRequest { all_windows: false, preview_lines: lines },
            few,
        ) == entries_of(
            panes,
            windows,
            LoadRequest { all_windows: true, preview_lines: lines },
            all,
        ).filter(entry_is_active()),
{
    lemma_short_entries(panes, windows, lines, few, all, panes.len() as int);
    assert(entries_of(
        panes,
        windows,
        LoadRequest { all_windows: false, preview_lines: lines },
        few,
    ) =~= entries_in(panes, windows, false, lines, few, panes.len() as int));
    assert(entries_of(
        panes,
        windows,
        LoadRequest { all_windows: true, preview_lines: lines },
        all,
    ) =~= entries_in(panes, windows, true, lines, all, panes.len() as int));
}

/// The entries of the panes that are shown, among the first `n` panes.
spec fn entries_in(
    panes: Seq<DiscoveredView>,
    windows: WindowMap,
    all_windows: bool,
    lines: usize,
    details: Seq<DetailView>,
    n: int,
) -> Seq<EntryView> {
    let shown = wanted_in(panes, windows, all_windows, n);
    Seq::new(
        shown.len(),
        |i: int|
            entry_of(
                panes[shown[i] as int],
                windows[key_of(panes[shown[i] as int])],
                details[i],
                lines as nat,
            ),
    )
}

proof fn lemma_wanted_prefix(
    panes: Seq<DiscoveredView>,
    windows: WindowMap,
    all_windows: bool,
    m: int,
    n: int,
)
    requires
        0 <= m <= n,
    ensures
        wanted_in(panes, windows, all_windows, m).len() <= wanted_in(
            panes,
            windows,
            all_windows,
            n,
        ).len(),
        forall|k: int|
            0 <= k < wanted_in(panes, windows, all_windows, m).len() ==> wanted_in(
                panes,
                windows,
                all_windows,
                m,
            )[k] == #[trigger] wanted_in(panes, windows, all_windows, n)[k],
    decreases n - m,
{
    if m < n {
        lemma_wanted_prefix(panes, windows, all_windows, m, n - 1);
    }
}

proof fn lemma_short_entries(
    panes: Seq<DiscoveredView>,
    windows: WindowMap,
    lines: usize,
    few: Seq<DetailView>,
    all: Seq<DetailView>,
    n: int,
)
    requires
        0 <= n <= panes.len() <= usize::MAX,
        forall|i: int, j: int|
            0 <= i < wanted(panes, windows, false).len() && 0 <= j < wanted(
                panes,
                windows,
                true,
            ).len() && #[trigger] wanted(panes, windows, false)[i] == #[trigger] wanted(
                panes,
                windows,
                true,
            )[j] ==> few[i] == all[j],
    ensures
        entries_in(panes, windows, false, lines, few, n) == entries_in(
            panes,
            windows,
            true,
            lines,
            all,
            n,
        ).filter(entry_is_active()),
    decreases n,
{
    reveal(Seq::filter);
    let short = entries_in(panes, windows, false, lines, few, n);
    let long = entries_in(panes, windows, true, lines, all, n);
    if n == 0 {
        assert(short =~= long.filter(entry_is_active()));
    } else {
        lemma_short_entries(panes, windows, lines, few, all, n - 1);
        let short_front = entries_in(panes, windows, false, lines, few, n - 1);
        let long_front = entries_in(panes, windows, true, lines, all, n - 1);
        let pane = panes[n - 1];
        if is_wanted(pane, windows, true) {
            assert(long.drop_last() =~= long_front);
            assert(long.last().window_active == windows[key_of(pane)].active);
            if is_wanted(pane, windows, false) {
                let i = short.len() - 1;
                let j = long.len() - 1;
                lemma_wanted_prefix(panes, windows, false, n, panes.len() as int);
                lemma_wanted_prefix(panes, windows, true, n, panes.len() as int);
                assert(wanted(panes, windows, false)[i] == wanted(panes, windows, true)[j]);
                assert(short =~= short_front.push(long.last()));
            } else {
                assert(short =~= short_front);
            }
        } else {
            assert(long =~= long_front);
            assert(short =~= short_front);
        }
    }
}

/// The windows of each session are shown by ascending index, whatever the
/// order in which their panes were discovered.
pub proof fn law_loaded_windows_ascend(
    panes: Seq<DiscoveredView>,
    windows: WindowMap,
    request: LoadRequest,
    details: Seq<DetailView>,
    groups: Seq<GroupView>,
    k: int,
    a: int,
    b: int,
)
    requires
        is_grouping(groups, entries_of(panes, windows, request, details)),
        0 <= k < groups.len(),
        0 <= a < b < groups[k].window_indices.len(),
    ensures
        ({
            let entries = entries_of(panes, windows, request, details);
            entries[groups[k].window_indices[a] as int].window_index_num
                <= entries[groups[k].window_indices[b] as int].window_index_num
        }),
{
    let entries = entries_of(panes, windows, request, details);
    lemma_grouping_in_bounds(groups, entries);
    assert(groups[k].window_indices[a] < entries.len());
    assert(groups[k].window_indices[b] < entries.len());
    law_windows_ascend(groups, entries, k, a, b);
}

/// An active pane is found wherever a window has one.
pub proof fn law_an_active_pane_is_found(panes: Seq<ListedPane>)
    ensures
        active_pane_of(panes) is Some <==> exists|i: int|
            0 <= i < panes.len() && (#[trigger] panes[i]).active,
        active_pane_of(panes) is Some ==> exists|i: int|
            0 <= i < panes.len() && (#[trigger] panes[i]).active && panes[i].id == active_pane_of(
                panes,
            )->0,
{
    lemma_place_from(panes, pane_is_active(), 0);
    let k = place_from(panes, pane_is_active(), 0);
    if k < panes.len() {
        assert(pane_is_active()(panes[k]));
        assert(panes[k].active);
    }
    if exists|i: int| 0 <= i < panes.len() && (#[trigger] panes[i]).active {
        let i = choose|i: int| 0 <= i < panes.len() && (#[trigger] panes[i]).active;
        assert(pane_is_active()(panes[i]));
    }
}

/// The active pane of a window is the first that is active.
pub proof fn law_the_first_active_pane_counts(panes: Seq<ListedPane>, k: int)
    requires
        0 <= k < panes.len(),
        panes[k].active,
        forall|i: int| 0 <= i < k ==> !(#[trigger] panes[i]).active,
    ensures
        active_pane_of(panes) == Some(panes[k].id),
{
    lemma_place_from_is(panes, pane_is_active(), 0, k);
}

/// Whether a listing is of the window in place `index` of the session `name`.
pub open spec fn is_listing_of(
    session: SessionListingView,
    w: int,
    name: Seq<char>,
    index: u32,
) -> bool {
    &&& 0 <= w < session.windows.len()
    &&& session.name == name
    &&& session.windows[w].window.window_index == index
}

proof fn lemma_other_windows(
    known: WindowMap,
    session: SessionListingView,
    n: int,
    name: Seq<char>,
    index: u32,
)
    requires
        0 <= n <= session.windows.len(),
        forall|w: int| w < n ==> !#[trigger] is_listing_of(session, w, name, index),
    ensures
        ({
            let now = with_windows(known, session.name, session.windows.take(n));
            &&& now.contains_key((name, index)) <==> known.contains_key((name, index))
            &&& now[(name, index)] == known[(name, index)]
        }),
    decreases n,
{
    if n > 0 {
        assert(session.windows.take(n).drop_last() =~= session.windows.take(n - 1));
        assert(!is_listing_of(session, n - 1, name, index));
        lemma_other_windows(known, session, n - 1, name, index);
    }
}

proof fn lemma_last_window(
    known: WindowMap,
    session: SessionListingView,
    n: int,
    w: int,
    name: Seq<char>,
    index: u32,
)
    requires
        0 <= w < n <= session.windows.len(),
        is_listing_of(session, w, name, index),
        forall|v: int| w < v < n ==> !#[trigger] is_listing_of(session, v, name, index),
    ensures
        ({
            let now = with_windows(known, session.name, session.windows.take(n));
            &&& now.contains_key((name, index))
            &&& now[(name, index)] == info_of(session.windows[w])
        }),
    decreases n,
{
    assert(session.windows.take(n).drop_last() =~= session.windows.take(n - 1));
    if w < n - 1 {
        assert(!is_listing_of(session, n - 1, name, index));
        lemma_last_window(known, session, n - 1, w, name, index);
    }
}

proof fn lemma_later_sessions(
    sessions: Seq<SessionListingView>,
    n: int,
    s: int,
    w: int,
    name: Seq<char>,
    index: u32,
)
    requires
        0 <= s < n <= sessions.len(),
        is_listing_of(sessions[s], w, name, index),
        forall|v: int| w < v ==> !#[trigger] is_listing_of(sessions[s], v, name, index),
        forall|t: int, v: int|
            s < t < n ==> !#[trigger] is_listing_of(sessions[t], v, name, index),
    ensures
        windows_of(sessions.take(n)).contains_key((name, index)),
        windows_of(sessions.take(n))[(name, index)] == info_of(sessions[s].windows[w]),
    decreases n,
{
    let last = sessions[n - 1];
    let len = last.windows.len() as int;
    assert(sessions.take(n).drop_last() =~= sessions.take(n - 1));
    assert(last.windows.take(len) =~= last.windows);
    let known = windows_of(sessions.take(n - 1));
    if s == n - 1 {
        lemma_last_window(known, last, len, w, name, index);
    } else {
        lemma_later_sessions(sessions, n - 1, s, w, name, index);
        lemma_other_windows(known, last, len, name, index);
    }
}

/// A window is known as it was last listed: by its own id and name, or as a
/// window where it has no name, with its active pane, and as active where it
/// is.
pub proof fn law_a_window_is_known_as_listed(
    sessions: Seq<SessionListingView>,
    s: int,
    w: int,
    name: Seq<char>,
    index: u32,
)
    requires
        0 <= s < sessions.len(),
        is_listing_of(sessions[s], w, name, index),
        forall|v: int| w < v ==> !#[trigger] is_listing_of(sessions[s], v, name, index),
        forall|t: int, v: int|
            s < t < sessions.len() ==> !#[trigger] is_listing_of(sessions[t], v, name, index),
    ensures
        ({
            let known = windows_of(sessions);
            let listing = sessions[s].windows[w];
            let info = known[(name, index)];
            &&& known.contains_key((name, index))
            &&& info.id == listing.window.window_id
            &&& info.active == listing.window.active
            &&& info.active_pane_id == active_pane_of(listing.panes)
            &&& listing.window.name is Some ==> info.name == listing.window.name->0
            &&& listing.window.name is None ==> info.name == "window"@
        }),
{
    assert(sessions.take(sessions.len() as int) =~= sessions);
    lemma_later_sessions(sessions, sessions.len() as int, s, w, name, index);
}

/// Nothing is known of a window that was not listed.
pub proof fn law_no_other_window_is_known(
    sessions: Seq<SessionListingView>,
    name: Seq<char>,
    index: u32,
)
    requires
        forall|s: int, w: int|
            0 <= s < sessions.len() ==> !#[trigger] is_listing_of(sessions[s], w, name, index),
    ensures
        !windows_of(sessions).contains_key((name, index)),
    decreases sessions.len(),
{
    if sessions.len() > 0 {
        let front = sessions.drop_last();
        let last = sessions[sessions.len() - 1];
        let len = last.windows.len() as int;
        assert forall|s: int, w: int| 0 <= s < front.len() implies !#[trigger] is_listing_of(
            front[s],
            w,
            name,
            index,
        ) by {
            assert(front[s] == sessions[s]);
        }
        law_no_other_window_is_known(front, name, index);
        assert(last.windows.take(len) =~= last.windows);
        lemma_other_windows(windows_of(front), last, len, name, index);
    }
}

/// A pane has an entry exactly when its window is known with it as the active
/// pane, and all windows are shown or that one is the active one of its
/// session.
pub proof fn law_which_panes_are_shown(
    panes: Seq<DiscoveredView>,
    windows: WindowMap,
    all_windows: bool,
    i: usize,
)
    requires
        panes.len() <= usize::MAX,
    ensures
        wanted(panes, windows, all_windows).contains(i) <==> {
            &&& i < panes.len()
            &&& windows.contains_key((panes[i as int].session_name, panes[i as int].window_index))
            &&& windows[(panes[i as int].session_name, panes[i as int].window_index)].active_pane_id
                == Some(panes[i as int].pane_id)
            &&& all_windows || windows[(
                panes[i as int].session_name,
                panes[i as int].window_index,
            )].active
        },
{
    let shown = wanted(panes, windows, all_windows);
    lemma_wanted(panes, windows, all_windows, panes.len() as int);
    if shown.contains(i) {
        let k = choose|k: int| 0 <= k < shown.len() && shown[k] == i;
        assert(is_wanted(panes[shown[k] as int], windows, all_windows));
    }
    if i < panes.len() && is_wanted(panes[i as int], windows, all_windows) {
        assert(shown.contains(i));
    }
}

/// An entry tells of its own pane: the ids, names and place of the pane, what
/// is known of its window, and what was asked of it in particular.
pub proof fn law_an_entry_tells_of_its_pane(
    panes: Seq<DiscoveredView>,
    windows: WindowMap,
    request: LoadRequest,
    details: Seq<DetailView>,
    k: int,
)
    requires
        0 <= k < wanted(panes, windows, request.all_windows).len(),
    ensures
        ({
            let pane = panes[wanted(panes, windows, request.all_windows)[k] as int];
            let window = windows[(pane.session_name, pane.window_index)];
            let detail = details[k];
            let entries = entries_of(panes, windows, request, details);
            let entry = entries[k];
            &&& entries.len() == wanted(panes, windows, request.all_windows).len()
            &&& entry.session_id == seq!['$'] + decimal(pane.session_id as nat)
            &&& entry.session_name == pane.session_name
            &&& entry.window_index_num == pane.window_index
            &&& entry.window_index == decimal(pane.window_index as nat)
            &&& entry.pane_id_num == pane.pane_id
            &&& entry.pane_id == seq!['%'] + decimal(pane.pane_id as nat)
            &&& pane.working_directory is Some ==> entry.pane_current_path
                == pane.working_directory->0
            &&& pane.working_directory is None ==> entry.pane_current_path == "-"@
            &&& entry.window_id == window.id
            &&& entry.window_name == window.name
            &&& entry.window_active == window.active
            &&& entry.session_attached <==> detail.session is Some
                && detail.session->0.attached_clients != 0
            &&& detail.session is Some ==> entry.session_activity == detail.session->0.generation
            &&& detail.session is None ==> entry.session_activity == 0
            &&& detail.screen is Ok ==> entry.preview == preview_of(
                detail.screen->Ok_0,
                request.preview_lines as nat,
            )
            &&& detail.screen is Err ==> entry.preview == seq![
                "failed to capture pane: "@ + detail.screen->Err_0,
            ]
            &&& entry.activity == Activity::Unknown
            &&& entry.activity_fingerprint == fingerprint(entry.preview)
        }),
{
}

} // verus!
