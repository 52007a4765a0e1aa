//! The state of the picker: what it shows, what is selected, and what is being
//! renamed or killed.

use vstd::arithmetic::div_mod::{lemma_add_mod_noop_right, lemma_mod_add_multiples_vanish};
use vstd::prelude::*;

use crate::activity::{
    all_judged, all_merged, apply_activity, fingerprints, fingerprints_of, merge_probe, probe_start,
    spawn_activity_probe, ActivityProbe, ActivityProbeResult,
};
use crate::model::{CurrentTarget, CurrentView, Entry, EntryView, GroupView, SessionGroup};
use crate::options::{LoadRequest, Options};
use crate::rmux::{
    command_told, kill_session, kill_window, killing_session, killing_window, rename_session,
    rename_window, renaming_session, renaming_window, target_text, window_target_string, Command,
    CommandView,
};
use crate::sessions::{
    active_place, group_sessions, initial_position, is_grouping, lemma_grouping_in_bounds,
    opening_position, or_first, place_of_active, place_of_session, place_of_window, session_place,
    window_place, windows_in_bounds,
};
use crate::text::{trim, trimmed};

verus! {

// ---------------------------------------------------------------------------
// State
// ---------------------------------------------------------------------------

/// What is renamed.
#[derive(Debug, Clone, Copy, PartialEq, Eq, Structural)]
pub enum RenameKind {
    Session,
    Window,
}

/// What is killed.
#[derive(Debug, Clone, Copy, PartialEq, Eq, Structural)]
pub enum KillKind {
    Session,
    Window,
}

/// A renaming that is being typed.
#[derive(Debug)]
pub struct RenameState {
    pub kind: RenameKind,
    /// The name of a session, or the address of a window.
    pub target_id: String,
    pub original: String,
    pub buffer: String,
}

/// The contents of a [`RenameState`].
#[verifier::ext_equal]
pub struct RenameView {
    pub kind: RenameKind,
    pub target_id: Seq<char>,
    pub original: Seq<char>,
    pub buffer: Seq<char>,
}

impl View for RenameState {
    type V = RenameView;

    open spec fn view(&self) -> RenameView {
        RenameView {
            kind: self.kind,
            target_id: self.target_id@,
            original: self.original@,
            buffer: self.buffer@,
        }
    }
}

/// A renaming that has been asked for.
#[derive(Debug)]
pub struct RenameRequest {
    pub kind: RenameKind,
    /// The name of a session, or the address of a window.
    pub target_id: String,
    pub new_name: String,
}

/// The contents of a [`RenameRequest`].
#[verifier::ext_equal]
pub struct RenameRequestView {
    pub kind: RenameKind,
    pub target_id: Seq<char>,
    pub new_name: Seq<char>,
}

impl View for RenameRequest {
    type V = RenameRequestView;

    open spec fn view(&self) -> RenameRequestView {
        RenameRequestView {
            kind: self.kind,
            target_id: self.target_id@,
            new_name: self.new_name@,
        }
    }
}

/// A kill that waits to be confirmed, or that has been.
#[derive(Debug)]
pub struct KillState {
    pub kind: KillKind,
    /// The name of a session, or the address of a window.
    pub target_id: String,
    pub label: String,
}

/// The contents of a [`KillState`].
#[verifier::ext_equal]
pub struct KillView {
    pub kind: KillKind,
    pub target_id: Seq<char>,
    pub label: Seq<char>,
}

impl View for KillState {
    type V = KillView;

    open spec fn view(&self) -> KillView {
        KillView { kind: self.kind, target_id: self.target_id@, label: self.label@ }
    }
}

/// The picker.
#[derive(Debug)]
pub struct App {
    pub entries: Vec<Entry>,
    pub sessions: Vec<SessionGroup>,
    pub selected_session: usize,
    pub selected_window: usize,
    pub preview_lines: usize,
    pub inline_lines: usize,
    pub refresh_seconds: u64,
    pub current: CurrentTarget,
    pub status: Option<String>,
    /// Whether the result of the startup probe is still waited for.
    pub probing: bool,
    pub rename: Option<RenameState>,
    pub confirm_kill: Option<KillState>,
}

/// The contents of an [`App`].
#[verifier::ext_equal]
pub struct AppView {
    pub entries: Seq<EntryView>,
    pub sessions: Seq<GroupView>,
    pub selected_session: usize,
    pub selected_window: usize,
    pub preview_lines: usize,
    pub inline_lines: usize,
    pub refresh_seconds: u64,
    pub current: CurrentView,
    pub status: Option<Seq<char>>,
    pub probing: bool,
    pub rename: Option<RenameView>,
    pub confirm_kill: Option<KillView>,
}

impl View for App {
    type V = AppView;

    open spec fn view(&self) -> AppView {
        AppView {
            entries: self.entries.deep_view(),
            sessions: self.sessions.deep_view(),
            selected_session: self.selected_session,
            selected_window: self.selected_window,
            preview_lines: self.preview_lines,
            inline_lines: self.inline_lines,
            refresh_seconds: self.refresh_seconds,
            current: self.current@,
            status: self.status.deep_view(),
            probing: self.probing,
            rename: match self.rename {
                Some(rename) => Some(rename@),
                None => None,
            },
            confirm_kill: match self.confirm_kill {
                Some(kill) => Some(kill@),
                None => None,
            },
        }
    }
}

/// What a look at the startup probe gives.
#[derive(Debug)]
pub enum ProbePoll {
    /// It has finished, with this result.
    Ready(ActivityProbeResult),
    /// It is still running.
    Empty,
    /// It has ended without a result.
    Disconnected,
}

// ---------------------------------------------------------------------------
// What the operations do
// ---------------------------------------------------------------------------

impl AppView {
    /// Whether every window that is shown is one of the entries.
    pub open spec fn in_bounds(self) -> bool {
        windows_in_bounds(self.sessions, self.entries.len())
    }

    /// Whether the sessions are those of the entries, and a window that there
    /// is is selected.
    pub open spec fn consistent(self) -> bool {
        &&& is_grouping(self.sessions, self.entries)
        &&& self.sessions.len() > 0 ==> {
            &&& self.selected_session < self.sessions.len()
            &&& self.selected_window < self.sessions[self.selected_session as int]
                .window_indices.len()
        }
    }

    /// The selected session, if there is one.
    pub open spec fn session(self) -> Option<GroupView> {
        if self.selected_session < self.sessions.len() {
            Some(self.sessions[self.selected_session as int])
        } else {
            None
        }
    }

    /// The windows of the selected session; none where there is no session.
    pub open spec fn windows(self) -> Seq<usize> {
        match self.session() {
            Some(session) => session.window_indices,
            None => Seq::empty(),
        }
    }

    /// The selected entry, if there is one.
    pub open spec fn entry(self) -> Option<EntryView> {
        if self.selected_window < self.windows().len() && self.windows()[self.selected_window as int]
            < self.entries.len() {
            Some(self.entries[self.windows()[self.selected_window as int] as int])
        } else {
            None
        }
    }

    /// The first active window of the selected session, or its first window.
    pub open spec fn preferred_window(self) -> usize {
        or_first(place_of_active(self.windows(), self.entries))
    }

    /// The next window of the selected session, or the first behind the last.
    pub open spec fn next_window(self) -> AppView {
        if self.windows().len() == 0 {
            self
        } else {
            AppView {
                selected_window: ((self.selected_window + 1) % self.windows().len() as int) as usize,
                ..self
            }
        }
    }

    /// The previous window of the selected session, or the last before the
    /// first.
    pub open spec fn previous_window(self) -> AppView {
        if self.windows().len() == 0 {
            self
        } else {
            AppView {
                selected_window: ((self.selected_window + self.windows().len() - 1)
                    % self.windows().len() as int) as usize,
                ..self
            }
        }
    }

    /// Another session, on the window that is preferred there.
    pub open spec fn on_session(self, k: int) -> AppView {
        let moved = AppView { selected_session: k as usize, ..self };
        AppView { selected_window: moved.preferred_window(), ..moved }
    }

    /// The next session, where there is one.
    pub open spec fn next_session(self) -> AppView {
        if self.sessions.len() == 0 {
            self
        } else if self.selected_session + 1 < self.sessions.len() {
            self.on_session(self.selected_session + 1)
        } else {
            self.on_session(self.sessions.len() - 1)
        }
    }

    /// The previous session, where there is one.
    pub open spec fn previous_session(self) -> AppView {
        if self.sessions.len() == 0 {
            self
        } else if self.selected_session > 0 {
            self.on_session(self.selected_session - 1)
        } else {
            self.on_session(0)
        }
    }

    /// The picker with another status.
    pub open spec fn with_status(self, status: Seq<char>) -> AppView {
        AppView { status: Some(status), ..self }
    }

    /// What is loaded for a refresh: every window.
    pub open spec fn for_refresh(self) -> LoadRequest {
        LoadRequest { all_windows: true, preview_lines: self.preview_lines }
    }

    /// The picker with newly loaded entries, in the given sessions: what was
    /// selected stays selected where it is still there, and the activity of
    /// each entry is held against what was shown before. A probe that has not
    /// finished is given up.
    pub open spec fn refreshed(
        self,
        status: Seq<char>,
        loaded: Seq<EntryView>,
        sessions: Seq<GroupView>,
        current: CurrentView,
    ) -> AppView {
        let entries = all_judged(loaded, fingerprints(self.entries));
        let session_id = match self.session() {
            Some(session) => Some(session.id),
            None => None,
        };
        let window_id = match self.entry() {
            Some(entry) => Some(entry.window_id),
            None => None,
        };
        let selected_session = or_first(place_of_session(sessions, session_id));
        let selected_window = if selected_session < sessions.len() {
            or_first(
                place_of_window(
                    sessions[selected_session as int].window_indices,
                    entries,
                    window_id,
                ),
            )
        } else {
            0
        };
        AppView {
            entries,
            sessions,
            selected_session,
            selected_window,
            current,
            status: Some(status),
            probing: false,
            ..self
        }
    }

    /// The picker after a refresh that failed.
    pub open spec fn not_refreshed(self, err: Seq<char>) -> AppView {
        AppView { probing: false, status: Some("refresh failed: "@ + err), ..self }
    }

    /// The picker after a look at the probe.
    pub open spec fn after_poll(self, poll: ProbePoll) -> AppView {
        if !self.probing {
            self
        } else {
            match poll {
                ProbePoll::Ready(result) => AppView {
                    entries: all_merged(
                        self.entries,
                        result.activity@,
                        result.fingerprints.deep_view(),
                    ),
                    probing: false,
                    ..self
                },
                ProbePoll::Empty => self,
                ProbePoll::Disconnected => AppView { probing: false, ..self },
            }
        }
    }

    /// The picker when the renaming of the selected session begins.
    pub open spec fn renaming_session(self) -> AppView {
        match self.session() {
            Some(session) => AppView {
                rename: Some(
                    RenameView {
                        kind: RenameKind::Session,
                        target_id: session.name,
                        original: session.name,
                        buffer: session.name,
                    },
                ),
                ..self
            },
            None => self,
        }
    }

    /// The picker when the renaming of the selected window begins.
    pub open spec fn renaming_window(self) -> AppView {
        match self.entry() {
            Some(entry) => AppView {
                rename: Some(
                    RenameView {
                        kind: RenameKind::Window,
                        target_id: target_text(entry),
                        original: entry.window_name,
                        buffer: entry.window_name,
                    },
                ),
                ..self
            },
            None => self,
        }
    }

    /// The picker with another text in the place of the one that is typed.
    pub open spec fn with_buffer(self, buffer: Seq<char>) -> AppView {
        match self.rename {
            Some(rename) => AppView { rename: Some(RenameView { buffer, ..rename }), ..self },
            None => self,
        }
    }

    /// The picker with a character more in the text that is typed.
    pub open spec fn typed(self, c: char) -> AppView {
        match self.rename {
            Some(rename) => self.with_buffer(rename.buffer.push(c)),
            None => self,
        }
    }

    /// The picker with the last character of the text that is typed gone.
    pub open spec fn untyped(self) -> AppView {
        match self.rename {
            Some(rename) => if rename.buffer.len() > 0 {
                self.with_buffer(rename.buffer.drop_last())
            } else {
                self
            },
            None => self,
        }
    }

    /// The picker when a renaming is given up.
    pub open spec fn rename_cancelled(self) -> AppView {
        match self.rename {
            Some(_) => (AppView { rename: None, ..self }).with_status("rename cancelled"@),
            None => self,
        }
    }

    /// The renaming that the typed text asks for: none where it is blank or
    /// the name that there was.
    pub open spec fn rename_request(self) -> Option<RenameRequestView> {
        match self.rename {
            Some(rename) => if trim(rename.buffer).len() == 0 || trim(rename.buffer)
                == rename.original {
                None
            } else {
                Some(
                    RenameRequestView {
                        kind: rename.kind,
                        target_id: rename.target_id,
                        new_name: trim(rename.buffer),
                    },
                )
            },
            None => None,
        }
    }

    /// The picker when the typed text is committed.
    pub open spec fn rename_committed(self) -> AppView {
        if self.rename_request() is None {
            self.rename_cancelled()
        } else {
            AppView { rename: None, ..self }
        }
    }

    /// The picker when the kill of the selected session is asked for.
    pub open spec fn killing_session(self) -> AppView {
        match self.session() {
            Some(session) => AppView {
                confirm_kill: Some(
                    KillView {
                        kind: KillKind::Session,
                        target_id: session.name,
                        label: session.name,
                    },
                ),
                ..self
            },
            None => self,
        }
    }

    /// The picker when the kill of the selected window is asked for.
    pub open spec fn killing_window(self) -> AppView {
        match self.entry() {
            Some(entry) => AppView {
                confirm_kill: Some(
                    KillView {
                        kind: KillKind::Window,
                        target_id: target_text(entry),
                        label: entry.window_index + ": "@ + entry.window_name,
                    },
                ),
                ..self
            },
            None => self,
        }
    }

    /// The picker when a kill is given up.
    pub open spec fn kill_cancelled(self) -> AppView {
        match self.confirm_kill {
            Some(_) => (AppView { confirm_kill: None, ..self }).with_status("kill cancelled"@),
            None => self,
        }
    }
}

/// The picker when it opens, in the given sessions.
pub open spec fn opened(
    options: Options,
    entries: Seq<EntryView>,
    sessions: Seq<GroupView>,
    current: CurrentView,
) -> AppView {
    AppView {
        entries,
        sessions,
        selected_session: opening_position(sessions, entries, current).0,
        selected_window: opening_position(sessions, entries, current).1,
        preview_lines: options.preview_lines,
        inline_lines: options.inline_lines,
        refresh_seconds: options.refresh_seconds,
        current,
        status: None,
        probing: entries.len() > 0 && options.activity_samples >= 2,
        rename: None,
        confirm_kill: None,
    }
}

/// What is renamed, in a word.
pub open spec fn renamed_word(kind: RenameKind) -> Seq<char> {
    match kind {
        RenameKind::Session => "session"@,
        RenameKind::Window => "window"@,
    }
}

/// What is killed, in a word.
pub open spec fn killed_word(kind: KillKind) -> Seq<char> {
    match kind {
        KillKind::Session => "session"@,
        KillKind::Window => "window"@,
    }
}

impl RenameKind {
    /// Says in a word what is renamed.
    pub fn word(&self) -> (r: &'static str)
        ensures
            r@ == renamed_word(*self),
    {
        match self {
            RenameKind::Session => "session",
            RenameKind::Window => "window",
        }
    }
}

impl KillKind {
    /// Says in a word what is killed.
    pub fn word(&self) -> (r: &'static str)
        ensures
            r@ == killed_word(*self),
    {
        match self {
            KillKind::Session => "session",
            KillKind::Window => "window",
        }
    }
}

impl RenameRequestView {
    /// The command that a renaming sends.
    pub open spec fn sends(self) -> Result<CommandView, Seq<char>> {
        match self.kind {
            RenameKind::Session => renaming_session(self.target_id, self.new_name),
            RenameKind::Window => renaming_window(self.target_id, self.new_name),
        }
    }
}

impl RenameRequest {
    /// Makes the command that the renaming sends.
    pub fn command(&self) -> (r: Result<Command, String>)
        ensures
            command_told(r) == self@.sends(),
    {
        match self.kind {
            RenameKind::Session => rename_session(self.target_id.as_str(), self.new_name.as_str()),
            RenameKind::Window => rename_window(self.target_id.as_str(), self.new_name.as_str()),
        }
    }
}

impl KillView {
    /// The command that a kill sends.
    pub open spec fn sends(self) -> Result<CommandView, Seq<char>> {
        match self.kind {
            KillKind::Session => killing_session(self.target_id),
            KillKind::Window => killing_window(self.target_id),
        }
    }
}

impl KillState {
    /// Makes the command that the kill sends.
    pub fn command(&self) -> (r: Result<Command, String>)
        ensures
            command_told(r) == self@.sends(),
    {
        match self.kind {
            KillKind::Session => kill_session(self.target_id.as_str()),
            KillKind::Window => kill_window(self.target_id.as_str()),
        }
    }
}

/// The contents of an optional renaming that has been asked for.
pub open spec fn maybe_rename(r: Option<RenameRequest>) -> Option<RenameRequestView> {
    match r {
        Some(request) => Some(request@),
        None => None,
    }
}

/// The contents of an optional kill.
pub open spec fn maybe_kill(r: Option<KillState>) -> Option<KillView> {
    match r {
        Some(kill) => Some(kill@),
        None => None,
    }
}

// ---------------------------------------------------------------------------
// The operations
// ---------------------------------------------------------------------------

impl App {
    /// Opens the picker on loaded entries, and begins the startup probe.
    pub fn load(
        options: &Options,
        entries: Vec<Entry>,
        current: CurrentTarget,
    ) -> (r: (App, Option<ActivityProbe>))
        ensures
            r.0@ == opened(*options, entries.deep_view(), r.0@.sessions, current@),
            is_grouping(r.0@.sessions, entries.deep_view()),
            r.1 is Some <==> r.0@.probing,
            r.1 is Some ==> r.1->0@ == probe_start(entries.deep_view(), *options),
    {
        let probe = spawn_activity_probe(&entries, options);
        let sessions = group_sessions(&entries);
        proof {
            lemma_grouping_in_bounds(sessions.deep_view(), entries.deep_view());
        }
        let (selected_session, selected_window) = initial_position(&sessions, &entries, &current);
        let probing = probe.is_some();
        (
            App {
                entries,
                sessions,
                selected_session,
                selected_window,
                preview_lines: options.preview_lines,
                inline_lines: options.inline_lines,
                refresh_seconds: options.refresh_seconds,
                current,
                status: None,
                probing,
                rename: None,
                confirm_kill: None,
            },
            probe,
        )
    }

    /// Takes in the result of the startup probe, if it is there; says whether
    /// it was.
    pub fn poll_probe(&mut self, poll: ProbePoll) -> (r: bool)
        ensures
            final(self)@ == old(self)@.after_poll(poll),
            r == (old(self)@.probing && poll is Ready),
    {
        if !self.probing {
            return false;
        }
        match poll {
            ProbePoll::Ready(result) => {
                merge_probe(&mut self.entries, &result);
                self.probing = false;
                true
            },
            ProbePoll::Empty => false,
            ProbePoll::Disconnected => {
                self.probing = false;
                false
            },
        }
    }

    /// Says what is to be loaded for a refresh.
    pub fn refresh_request(&self) -> (r: LoadRequest)
        ensures
            r == self@.for_refresh(),
    {
        LoadRequest { all_windows: true, preview_lines: self.preview_lines }
    }

    /// Whether every window that is shown is one of the entries, as is so of
    /// a picker that was opened and refreshed.
    pub fn windows_are_entries(&self) -> (r: bool)
        ensures
            r == self@.in_bounds(),
    {
        let ghost groups = self.sessions.deep_view();
        let mut k: usize = 0;
        while k < self.sessions.len()
            invariant
                groups == self.sessions.deep_view(),
                k <= self.sessions@.len(),
                windows_in_bounds(groups.take(k as int), self.entries@.len()),
            decreases self.sessions@.len() - k,
        {
            let windows = &self.sessions[k].window_indices;
            assert(groups[k as int].window_indices == windows@);
            let mut j: usize = 0;
            while j < windows.len()
                invariant
                    groups == self.sessions.deep_view(),
                    k < self.sessions@.len(),
                    windows@ == groups[k as int].window_indices,
                    j <= windows@.len(),
                    forall|i: int| 0 <= i < j ==> (#[trigger] windows@[i]) < self.entries@.len(),
                decreases windows@.len() - j,
            {
                if windows[j] >= self.entries.len() {
                    assert(groups[k as int].window_indices[j as int] >= self.entries@.len());
                    return false;
                }
                j += 1;
            }
            assert forall|a: int, b: int|
                #![trigger groups.take(k + 1)[a].window_indices[b]]
                0 <= a < k + 1 && 0 <= b < groups.take(k + 1)[a].window_indices.len() implies (
            groups.take(k + 1)[a].window_indices[b] as int) < self.entries@.len() by {
                if a < k {
                    assert(groups.take(k as int)[a].window_indices[b] < self.entries@.len());
                } else {
                    assert(windows@[b] < self.entries@.len());
                }
            }
            k += 1;
        }
        assert(groups.take(k as int) =~= groups);
        true
    }

    /// The selected session.
    pub fn current_session(&self) -> (r: Option<&SessionGroup>)
        ensures
            r.deep_view() == self@.session(),
    {
        if self.selected_session < self.sessions.len() {
            let session = &self.sessions[self.selected_session];
            assert(self@.sessions[self.selected_session as int] == session@);
            Some(session)
        } else {
            None
        }
    }

    /// The selected entry.
    pub fn selected_entry(&self) -> (r: Option<&Entry>)
        ensures
            r.deep_view() == self@.entry(),
    {
        match self.current_session() {
            Some(session) => {
                if self.selected_window < session.window_indices.len() {
                    let i: usize = session.window_indices[self.selected_window];
                    if i < self.entries.len() {
                        assert(self@.entries[i as int] == self.entries[i as int]@);
                        return Some(&self.entries[i]);
                    }
                }
                None
            },
            None => None,
        }
    }

    /// Takes in what a refresh has loaded, and sets the status; keeps what is
    /// shown where the load failed.
    pub fn refresh_with_status(
        &mut self,
        status: &str,
        loaded: Result<(Vec<Entry>, CurrentTarget), String>,
    )
        ensures
            match loaded {
                Ok((entries, current)) => {
                    &&& final(self)@ == old(self)@.refreshed(
                        status@,
                        entries.deep_view(),
                        final(self)@.sessions,
                        current@,
                    )
                    &&& is_grouping(final(self)@.sessions, final(self)@.entries)
                },
                Err(err) => final(self)@ == old(self)@.not_refreshed(err@),
            },
    {
        let ghost before = self@;
        self.probing = false;
        let session_id: Option<String> = match self.current_session() {
            Some(session) => Some(session.id.clone()),
            None => None,
        };
        let window_id: Option<String> = match self.selected_entry() {
            Some(entry) => Some(entry.window_id.clone()),
            None => None,
        };
        let prev_fingerprints = fingerprints_of(&self.entries);
        match loaded {
            Ok((entries, current)) => {
                let mut entries = entries;
                apply_activity(&mut entries, &prev_fingerprints);
                let sessions = group_sessions(&entries);
                proof {
                    lemma_grouping_in_bounds(sessions.deep_view(), entries.deep_view());
                }
                let selected_session: usize = match &session_id {
                    Some(id) => match session_place(&sessions, id) {
                        Some(k) => k,
                        None => 0,
                    },
                    None => 0,
                };
                let selected_window: usize = if selected_session < sessions.len() {
                    let windows = &sessions[selected_session].window_indices;
                    assert(sessions.deep_view()[selected_session as int]
                        == sessions[selected_session as int]@);
                    assert forall|k: int| 0 <= k < windows@.len() implies (#[trigger] windows@[k])
                        < entries@.len() by {
                        assert(sessions.deep_view()[selected_session as int].window_indices[k]
                            == windows@[k]);
                    }
                    match &window_id {
                        Some(id) => match window_place(windows, &entries, id) {
                            Some(k) => k,
                            None => 0,
                        },
                        None => 0,
                    }
                } else {
                    0
                };
                self.entries = entries;
                self.sessions = sessions;
                self.selected_session = selected_session;
                self.selected_window = selected_window;
                self.current = current;
                self.status = Some(status.to_owned());
            },
            Err(err) => {
                let mut text = "refresh failed: ".to_owned();
                text.append(err.as_str());
                self.status = Some(text);
            },
        }
    }

    /// Takes in what was loaded for a refresh that was asked for.
    pub fn refresh(&mut self, loaded: Result<(Vec<Entry>, CurrentTarget), String>)
        ensures
            match loaded {
                Ok((entries, current)) => {
                    &&& final(self)@ == old(self)@.refreshed(
                        "refreshed"@,
                        entries.deep_view(),
                        final(self)@.sessions,
                        current@,
                    )
                    &&& is_grouping(final(self)@.sessions, final(self)@.entries)
                },
                Err(err) => final(self)@ == old(self)@.not_refreshed(err@),
            },
    {
        self.refresh_with_status("refreshed", loaded);
    }

    /// Takes in what was loaded for an automatic refresh.
    pub fn auto_refresh(&mut self, loaded: Result<(Vec<Entry>, CurrentTarget), String>)
        ensures
            match loaded {
                Ok((entries, current)) => {
                    &&& final(self)@ == old(self)@.refreshed(
                        "auto refreshed"@,
                        entries.deep_view(),
                        final(self)@.sessions,
                        current@,
                    )
                    &&& is_grouping(final(self)@.sessions, final(self)@.entries)
                },
                Err(err) => final(self)@ == old(self)@.not_refreshed(err@),
            },
    {
        self.refresh_with_status("auto refreshed", loaded);
    }

    /// Selects the next window.
    pub fn next_window(&mut self)
        ensures
            final(self)@ == old(self)@.next_window(),
    {
        let len: usize = match self.current_session() {
            Some(session) => session.window_indices.len(),
            None => 0,
        };
        if len == 0 {
            return;
        }
        proof {
            lemma_add_mod_noop_right(1, self.selected_window as int, len as int);
        }
        self.selected_window = (1 + self.selected_window % len) % len;
    }

    /// Selects the previous window.
    pub fn previous_window(&mut self)
        ensures
            final(self)@ == old(self)@.previous_window(),
    {
        let len: usize = match self.current_session() {
            Some(session) => session.window_indices.len(),
            None => 0,
        };
        if len == 0 {
            return;
        }
        if self.selected_window == 0 {
            proof {
                vstd::arithmetic::div_mod::lemma_small_mod((len - 1) as nat, len as nat);
            }
            self.selected_window = len - 1;
        } else {
            proof {
                lemma_mod_add_multiples_vanish(self.selected_window - 1, len as int);
            }
            self.selected_window = (self.selected_window - 1) % len;
        }
    }

    fn preferred_window_in_current_session(&self) -> (r: usize)
        requires
            self@.in_bounds(),
        ensures
            r == self@.preferred_window(),
    {
        match self.current_session() {
            Some(session) => {
                assert(self@.sessions[self.selected_session as int] == session@);
                assert forall|k: int| 0 <= k < session.window_indices@.len() implies (
                #[trigger] session.window_indices@[k]) < self.entries@.len() by {
                    assert(self@.sessions[self.selected_session as int].window_indices[k]
                        == session.window_indices@[k]);
                }
                match active_place(&session.window_indices, &self.entries) {
                    Some(k) => k,
                    None => 0,
                }
            },
            None => 0,
        }
    }

    /// Selects the next session.
    pub fn next_session(&mut self)
        requires
            old(self)@.in_bounds(),
        ensures
            final(self)@ == old(self)@.next_session(),
    {
        let len: usize = self.sessions.len();
        if len == 0 {
            return;
        }
        self.selected_session = if self.selected_session < len - 1 {
            self.selected_session + 1
        } else {
            len - 1
        };
        self.selected_window = self.preferred_window_in_current_session();
    }

    /// Selects the previous session.
    pub fn previous_session(&mut self)
        requires
            old(self)@.in_bounds(),
        ensures
            final(self)@ == old(self)@.previous_session(),
    {
        if self.sessions.len() == 0 {
            return;
        }
        if self.selected_session > 0 {
            self.selected_session = self.selected_session - 1;
        }
        self.selected_window = self.preferred_window_in_current_session();
    }

    /// Begins to rename the selected session.
    pub fn begin_rename_session(&mut self)
        ensures
            final(self)@ == old(self)@.renaming_session(),
    {
        let rename: Option<RenameState> = match self.current_session() {
            Some(session) => Some(
                RenameState {
                    kind: RenameKind::Session,
                    target_id: session.name.clone(),
                    original: session.name.clone(),
                    buffer: session.name.clone(),
                },
            ),
            None => None,
        };
        if rename.is_some() {
            self.rename = rename;
        }
    }

    /// Begins to rename the selected window.
    pub fn begin_rename_window(&mut self)
        ensures
            final(self)@ == old(self)@.renaming_window(),
    {
        let rename: Option<RenameState> = match self.selected_entry() {
            Some(entry) => Some(
                RenameState {
                    kind: RenameKind::Window,
                    target_id: window_target_string(entry),
                    original: entry.window_name.clone(),
                    buffer: entry.window_name.clone(),
                },
            ),
            None => None,
        };
        if rename.is_some() {
            self.rename = rename;
        }
    }

    /// Adds a character to the name that is typed.
    pub fn rename_input(&mut self, c: char)
        ensures
            final(self)@ == old(self)@.typed(c),
    {
        if let Some(rename) = &mut self.rename {
            rename.buffer.push(c);
        }
    }

    /// Takes the last character of the name that is typed away.
    pub fn rename_backspace(&mut self)
        ensures
            final(self)@ == old(self)@.untyped(),
    {
        if let Some(rename) = &mut self.rename {
            rename.buffer.pop();
        }
    }

    /// Gives a renaming up.
    pub fn cancel_rename(&mut self)
        ensures
            final(self)@ == old(self)@.rename_cancelled(),
    {
        if self.rename.is_some() {
            self.rename = None;
            self.status = Some("rename cancelled".to_owned());
        }
    }

    /// Ends the typing of a name, and gives the renaming that it asks for.
    pub fn commit_rename(&mut self) -> (r: Option<RenameRequest>)
        ensures
            final(self)@ == old(self)@.rename_committed(),
            maybe_rename(r) == old(self)@.rename_request(),
    {
        match self.rename.take() {
            Some(rename) => {
                let new_name = trimmed(rename.buffer.as_str());
                if new_name.as_str().is_empty() || new_name == rename.original {
                    self.status = Some("rename cancelled".to_owned());
                    return None;
                }
                Some(
                    RenameRequest { kind: rename.kind, target_id: rename.target_id, new_name },
                )
            },
            None => None,
        }
    }

    /// Takes in how a renaming went: gives the status of the refresh that is
    /// due where it was done, and sets the status where it was not.
    pub fn finish_rename(
        &mut self,
        request: &RenameRequest,
        outcome: Result<(), String>,
    ) -> (r: Option<String>)
        ensures
            match outcome {
                Ok(_) => {
                    &&& final(self)@ == old(self)@
                    &&& r.deep_view() == Some(
                        "renamed "@ + renamed_word(request.kind) + " to "@ + request.new_name@,
                    )
                },
                Err(err) => {
                    &&& final(self)@ == old(self)@.with_status("rename failed: "@ + err@)
                    &&& r is None
                },
            },
    {
        match outcome {
            Ok(_) => {
                let mut text = "renamed ".to_owned();
                text.append(request.kind.word());
                text.append(" to ");
                text.append(request.new_name.as_str());
                Some(text)
            },
            Err(err) => {
                let mut text = "rename failed: ".to_owned();
                text.append(err.as_str());
                self.status = Some(text);
                None
            },
        }
    }

    /// Asks whether the selected window is to be killed.
    pub fn begin_kill_window(&mut self)
        ensures
            final(self)@ == old(self)@.killing_window(),
    {
        let kill: Option<KillState> = match self.selected_entry() {
            Some(entry) => {
                let mut label = entry.window_index.clone();
                label.append(": ");
                label.append(entry.window_name.as_str());
                Some(
                    KillState {
                        kind: KillKind::Window,
                        target_id: window_target_string(entry),
                        label,
                    },
                )
            },
            None => None,
        };
        if kill.is_some() {
            self.confirm_kill = kill;
        }
    }

    /// Asks whether the selected session is to be killed.
    pub fn begin_kill_session(&mut self)
        ensures
            final(self)@ == old(self)@.killing_session(),
    {
        let kill: Option<KillState> = match self.current_session() {
            Some(session) => Some(
                KillState {
                    kind: KillKind::Session,
                    target_id: session.name.clone(),
                    label: session.name.clone(),
                },
            ),
            None => None,
        };
        if kill.is_some() {
            self.confirm_kill = kill;
        }
    }

    /// Gives a kill up.
    pub fn cancel_kill(&mut self)
        ensures
            final(self)@ == old(self)@.kill_cancelled(),
    {
        if self.confirm_kill.is_some() {
            self.confirm_kill = None;
            self.status = Some("kill cancelled".to_owned());
        }
    }

    /// Confirms a kill, and gives it.
    pub fn commit_kill(&mut self) -> (r: Option<KillState>)
        ensures
            final(self)@ == (AppView { confirm_kill: None, ..old(self)@ }),
            maybe_kill(r) == old(self)@.confirm_kill,
    {
        self.confirm_kill.take()
    }

    /// Takes in how a kill went: gives the status of the refresh that is due
    /// where it was done, and sets the status where it was not.
    pub fn finish_kill(&mut self, kill: &KillState, outcome: Result<(), String>) -> (r: Option<
        String,
    >)
        ensures
            match outcome {
                Ok(_) => {
                    &&& final(self)@ == old(self)@
                    &&& r.deep_view() == Some(
                        "killed "@ + killed_word(kill.kind) + " "@ + kill.label@,
                    )
                },
                Err(err) => {
                    &&& final(self)@ == old(self)@.with_status("kill failed: "@ + err@)
                    &&& r is None
                },
            },
    {
        match outcome {
            Ok(_) => {
                let mut text = "killed ".to_owned();
                text.append(kill.kind.word());
                text.append(" ");
                text.append(kill.label.as_str());
                Some(text)
            },
            Err(err) => {
                let mut text = "kill failed: ".to_owned();
                text.append(err.as_str());
                self.status = Some(text);
                None
            },
        }
    }
}

} // verus!
