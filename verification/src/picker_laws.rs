//! What holds of the picker whatever is done with it.

use vstd::arithmetic::div_mod::{
    lemma_add_mod_noop_right, lemma_mod_add_multiples_vanish, lemma_mod_self_0, lemma_small_mod,
};
use vstd::prelude::*;

use crate::activity::{
    all_judged, all_merged, fingerprints, is_last_of_pane, law_the_last_fingerprint_is_kept,
};
use crate::model::{Activity, CurrentView, EntryView, GroupView};
use crate::options::Options;
use crate::picker::{
    killed_word, opened, renamed_word, AppView, KillKind, KillView, ProbePoll, RenameKind,
    RenameRequestView, RenameView,
};
use crate::rmux::{
    killing_session, killing_window, law_commands_reach_their_window, renaming_session,
    renaming_window, session_name_of, CommandView, WindowTarget,
};
use crate::search::{lemma_place_from, place_from};
use crate::sessions::{
    has_group, has_id, holds_place, is_group_of, is_grouping, law_a_session_is_found_by_its_id,
    law_a_window_is_found_by_its_id, law_entries_have_sessions,
    law_no_session_is_empty, law_opens_on_a_window, lemma_grouping_in_bounds,
    lemma_grouping_of_alike, opening_position, placed_alike, shows_active, shows_window,
};
use crate::text::{decimal, is_space, trim};
use crate::text_laws::{all_space, law_trimming_takes_white_space_at_the_ends};

verus! {

impl AppView {
    /// Whether there are no more sessions and windows than a machine can
    /// count, as is so of everything that it holds.
    pub open spec fn countable(self) -> bool {
        countable(self.sessions)
    }
}

/// Whether there are no more sessions and windows than a machine can count.
pub open spec fn countable(sessions: Seq<GroupView>) -> bool {
    &&& sessions.len() <= usize::MAX
    &&& forall|k: int|
        0 <= k < sessions.len() ==> (#[trigger] sessions[k]).window_indices.len() <= usize::MAX
}

// ---------------------------------------------------------------------------
// The selection is always a window that there is
// ---------------------------------------------------------------------------

/// The picker opens with a window that there is selected.
pub proof fn law_opening_is_consistent(
    options: Options,
    entries: Seq<EntryView>,
    sessions: Seq<GroupView>,
    current: CurrentView,
)
    requires
        is_grouping(sessions, entries),
        countable(sessions),
    ensures
        opened(options, entries, sessions, current).consistent(),
{
    if sessions.len() > 0 {
        law_opens_on_a_window(sessions, entries, current);
    }
}

/// A consistent picker has an entry to show wherever it has entries, and its
/// windows are among them.
pub proof fn law_a_consistent_picker_shows_an_entry(app: AppView)
    requires
        app.consistent(),
    ensures
        app.in_bounds(),
        app.entry() is Some <==> app.entries.len() > 0,
        app.entry() is Some ==> app.session() is Some && app.entry()->0.session_id
            == app.session()->0.id,
{
    lemma_grouping_in_bounds(app.sessions, app.entries);
    law_entries_have_sessions(app.sessions, app.entries);
    if app.sessions.len() > 0 {
        let group = app.sessions[app.selected_session as int];
        assert(is_group_of(group, app.entries));
        assert(group.window_indices[app.selected_window as int] < app.entries.len());
    }
}

/// Moving about keeps the picker consistent.
pub proof fn law_navigation_keeps_consistency(app: AppView)
    requires
        app.consistent(),
        app.countable(),
    ensures
        app.next_window().consistent(),
        app.previous_window().consistent(),
        app.next_session().consistent(),
        app.previous_session().consistent(),
{
    let len = app.windows().len() as int;
    if app.sessions.len() > 0 {
        law_no_session_is_empty(app.sessions, app.entries, app.selected_session as int);
        assert(0 <= (app.selected_window + 1) % len < len);
        assert(0 <= (app.selected_window + len - 1) % len < len);
        let up = if app.selected_session + 1 < app.sessions.len() {
            app.selected_session + 1
        } else {
            app.sessions.len() - 1
        };
        let down = if app.selected_session > 0 {
            app.selected_session - 1
        } else {
            0
        };
        lemma_on_session(app, up);
        lemma_on_session(app, down);
    }
}

proof fn lemma_on_session(app: AppView, k: int)
    requires
        is_grouping(app.sessions, app.entries),
        app.countable(),
        0 <= k < app.sessions.len(),
    ensures
        app.on_session(k).consistent(),
        app.on_session(k).selected_session == k,
{
    let windows = app.sessions[k].window_indices;
    law_no_session_is_empty(app.sessions, app.entries, k);
    lemma_place_from(windows, shows_active(app.entries), 0);
}

/// A refresh leaves the picker consistent, whatever it was before.
pub proof fn law_refresh_is_consistent(
    app: AppView,
    status: Seq<char>,
    loaded: Seq<EntryView>,
    sessions: Seq<GroupView>,
    current: CurrentView,
)
    requires
        is_grouping(sessions, all_judged(loaded, fingerprints(app.entries))),
        countable(sessions),
    ensures
        app.refreshed(status, loaded, sessions, current).consistent(),
{
    let entries = all_judged(loaded, fingerprints(app.entries));
    let after = app.refreshed(status, loaded, sessions, current);
    if sessions.len() > 0 {
        if let Some(session) = app.session() {
            lemma_place_from(sessions, has_id(session.id), 0);
        }
        law_no_session_is_empty(sessions, entries, after.selected_session as int);
        if let Some(entry) = app.entry() {
            lemma_place_from(
                sessions[after.selected_session as int].window_indices,
                shows_window(entries, entry.window_id),
                0,
            );
        }
    }
}

/// What a probe finds out keeps the picker consistent.
pub proof fn law_the_probe_keeps_consistency(app: AppView, poll: ProbePoll)
    requires
        app.consistent(),
    ensures
        app.after_poll(poll).consistent(),
        app.after_poll(poll).entries.len() == app.entries.len(),
        app.after_poll(poll).sessions == app.sessions,
        app.after_poll(poll).selected_session == app.selected_session,
        app.after_poll(poll).selected_window == app.selected_window,
{
    if let ProbePoll::Ready(result) = poll {
        if app.probing {
            let entries = all_merged(
                app.entries,
                result.activity@,
                result.fingerprints.deep_view(),
            );
            assert forall|i: int| 0 <= i < app.entries.len() implies placed_alike(
                #[trigger] app.entries[i],
                entries[i],
            ) by {}
            lemma_grouping_of_alike(app.sessions, app.entries, entries);
        }
    }
}

/// Neither renaming nor killing, as far as the picker itself goes, nor a
/// refresh that failed, changes what is shown and selected.
pub proof fn law_prompts_leave_the_selection(app: AppView, c: char, err: Seq<char>)
    ensures
        same_selection(app, app.renaming_session()),
        same_selection(app, app.renaming_window()),
        same_selection(app, app.typed(c)),
        same_selection(app, app.untyped()),
        same_selection(app, app.rename_cancelled()),
        same_selection(app, app.rename_committed()),
        same_selection(app, app.killing_session()),
        same_selection(app, app.killing_window()),
        same_selection(app, app.kill_cancelled()),
        same_selection(app, app.with_status(err)),
        same_selection(app, app.not_refreshed(err)),
{
}

/// Whether two states of the picker show the same with the same selected.
pub open spec fn same_selection(a: AppView, b: AppView) -> bool {
    &&& a.entries == b.entries
    &&& a.sessions == b.sessions
    &&& a.selected_session == b.selected_session
    &&& a.selected_window == b.selected_window
    &&& a.consistent() <==> b.consistent()
}

// ---------------------------------------------------------------------------
// Moving about
// ---------------------------------------------------------------------------

/// The windows of a session are a ring: behind the last one comes the first,
/// and before the first one the last; elsewhere the neighbour comes.
pub proof fn law_windows_wrap_around(app: AppView)
    requires
        app.selected_window < app.windows().len() <= usize::MAX,
    ensures
        app.next_window().selected_window == if app.selected_window + 1 == app.windows().len() {
            0
        } else {
            app.selected_window + 1
        },
        app.previous_window().selected_window == if app.selected_window == 0 {
            app.windows().len() - 1
        } else {
            app.selected_window - 1
        },
{
    let len = app.windows().len() as int;
    let w = app.selected_window as int;
    if w + 1 == len {
        lemma_mod_self_0(len);
    } else {
        lemma_small_mod((w + 1) as nat, len as nat);
    }
    if w == 0 {
        lemma_small_mod((len - 1) as nat, len as nat);
    } else {
        lemma_mod_add_multiples_vanish(w - 1, len);
        lemma_small_mod((w - 1) as nat, len as nat);
    }
}

/// The next window and the previous one undo each other, wherever a window
/// that there is is selected, and where there is none.
pub proof fn law_next_and_previous_window_undo_each_other(app: AppView)
    requires
        app.windows().len() > 0 ==> app.selected_window < app.windows().len() <= usize::MAX,
    ensures
        app.next_window().previous_window() == app,
        app.previous_window().next_window() == app,
{
    if app.windows().len() > 0 {
        law_windows_wrap_around(app);
        law_windows_wrap_around(app.next_window());
        law_windows_wrap_around(app.previous_window());
    }
}

/// Moving to the window below takes one window after the other, round and
/// round; as many moves as there are windows come back to where they began.
pub proof fn law_moves_down_go_round(app: AppView, steps: nat)
    requires
        app.selected_window < app.windows().len() <= usize::MAX,
    ensures
        windows_down(app, steps) == (AppView {
            selected_window: ((app.selected_window + steps) % app.windows().len() as int) as usize,
            ..app
        }),
        steps == app.windows().len() ==> windows_down(app, steps) == app,
    decreases steps,
{
    let len = app.windows().len() as int;
    if steps == 0 {
        lemma_small_mod(app.selected_window as nat, len as nat);
    } else {
        let before = (steps - 1) as nat;
        law_moves_down_go_round(app, before);
        assert(0 <= (app.selected_window + before) % len < len);
        lemma_add_mod_noop_right(1, app.selected_window + before, len);
    }
    if steps == len {
        lemma_mod_add_multiples_vanish(app.selected_window as int, len);
        lemma_small_mod(app.selected_window as nat, len as nat);
    }
}

/// Every window of the session is reached by moving to the window below, in
/// fewer moves than there are windows.
pub proof fn law_every_window_is_reached(app: AppView, j: int)
    requires
        app.selected_window < app.windows().len() <= usize::MAX,
        0 <= j < app.windows().len(),
    ensures
        exists|steps: nat|
            steps < app.windows().len() && (#[trigger] windows_down(app, steps)).selected_window
                == j,
{
    let len = app.windows().len() as int;
    let w = app.selected_window as int;
    let steps = if j >= w {
        (j - w) as nat
    } else {
        (j - w + len) as nat
    };
    law_moves_down_go_round(app, steps);
    if j < w {
        lemma_mod_add_multiples_vanish(j, len);
    }
    lemma_small_mod(j as nat, len as nat);
    assert(windows_down(app, steps).selected_window == j);
}

/// The picker after the given number of moves to the next window.
pub open spec fn windows_down(app: AppView, steps: nat) -> AppView
    decreases steps,
{
    if steps == 0 {
        app
    } else {
        windows_down(app, (steps - 1) as nat).next_window()
    }
}

/// Moving to another session stops at the first and the last one, and goes to
/// the neighbour elsewhere.
pub proof fn law_sessions_stop_at_the_ends(app: AppView)
    requires
        app.selected_session < app.sessions.len() <= usize::MAX,
    ensures
        app.next_session().selected_session == if app.selected_session + 1 == app.sessions.len() {
            app.selected_session as int
        } else {
            app.selected_session + 1
        },
        app.previous_session().selected_session == if app.selected_session == 0 {
            0
        } else {
            app.selected_session - 1
        },
{
}

/// Moving to another session selects an active window there, if there is
/// one, and the first window where there is none.
pub proof fn law_sessions_open_on_their_active_window(app: AppView)
    requires
        is_grouping(app.sessions, app.entries),
        app.countable(),
        app.selected_session < app.sessions.len(),
    ensures
        on_active_window(app.next_session()),
        on_active_window(app.previous_session()),
{
    let up = if app.selected_session + 1 < app.sessions.len() {
        app.selected_session + 1
    } else {
        app.sessions.len() - 1
    };
    let down = if app.selected_session > 0 {
        app.selected_session - 1
    } else {
        0
    };
    lemma_on_session_is_active(app, up);
    lemma_on_session_is_active(app, down);
}

/// Whether the selected window is the first active one, or, where none of its
/// session is active, the first.
pub open spec fn on_active_window(app: AppView) -> bool {
    &&& app.entry() is Some
    &&& (exists|j: int| is_active_at(app, j)) ==> app.entry()->0.window_active
    &&& forall|j: int| j < app.selected_window ==> !#[trigger] is_active_at(app, j)
    &&& !(exists|j: int| is_active_at(app, j)) ==> app.selected_window == 0
}

/// Whether the window `j` of the selected session is active.
pub open spec fn is_active_at(app: AppView, j: int) -> bool {
    0 <= j < app.windows().len() && app.entries[app.windows()[j] as int].window_active
}

proof fn lemma_on_session_is_active(app: AppView, k: int)
    requires
        is_grouping(app.sessions, app.entries),
        app.countable(),
        0 <= k < app.sessions.len(),
    ensures
        on_active_window(app.on_session(k)),
{
    let after = app.on_session(k);
    let windows = app.sessions[k].window_indices;
    let pred = shows_active(app.entries);
    lemma_on_session(app, k);
    law_a_consistent_picker_shows_an_entry(after);
    lemma_place_from(windows, pred, 0);
    let found = place_from(windows, pred, 0);
    assert(after.windows() == windows);
    assert forall|j: int| j < after.selected_window implies !#[trigger] is_active_at(after, j) by {
        if 0 <= j < windows.len() {
            assert(!pred(windows[j]));
        }
    }
    if exists|j: int| is_active_at(after, j) {
        let j = choose|j: int| is_active_at(after, j);
        assert(pred(windows[j]));
        assert(found < windows.len());
        assert(pred(windows[found]));
    } else if found < windows.len() {
        assert(pred(windows[found]));
        assert(is_active_at(after, found));
    }
}

// ---------------------------------------------------------------------------
// Refreshing
// ---------------------------------------------------------------------------

/// A refresh keeps the selection: where the selected window is among the
/// loaded entries, it is selected again, wherever it is shown now.
pub proof fn law_refresh_keeps_the_selection(
    app: AppView,
    status: Seq<char>,
    loaded: Seq<EntryView>,
    sessions: Seq<GroupView>,
    current: CurrentView,
    i: int,
)
    requires
        is_grouping(app.sessions, app.entries),
        app.entry() is Some,
        is_grouping(sessions, all_judged(loaded, fingerprints(app.entries))),
        countable(sessions),
        0 <= i < loaded.len(),
        loaded[i].session_id == app.entry()->0.session_id,
        loaded[i].window_id == app.entry()->0.window_id,
    ensures
        ({
            let after = app.refreshed(status, loaded, sessions, current);
            &&& after.entry() is Some
            &&& after.entry()->0.session_id == app.entry()->0.session_id
            &&& after.entry()->0.window_id == app.entry()->0.window_id
        }),
{
    let entries = all_judged(loaded, fingerprints(app.entries));
    let after = app.refreshed(status, loaded, sessions, current);
    let sid = loaded[i].session_id;
    let wid = loaded[i].window_id;
    let group = app.session()->0;
    assert(is_group_of(app.sessions[app.selected_session as int], app.entries));
    assert(group.window_indices[app.selected_window as int] < app.entries.len());
    law_refresh_is_consistent(app, status, loaded, sessions, current);
    law_a_consistent_picker_shows_an_entry(after);
    assert(entries[i].session_id == sid);
    lemma_place_from(sessions, has_id(sid), 0);
    assert(has_group(sessions, sid));
    let k = choose|k: int| 0 <= k < sessions.len() && (#[trigger] sessions[k]).id == sid;
    assert(has_id(sid)(sessions[k]));
    let s = after.selected_session as int;
    assert(sessions[s].id == sid);
    assert(is_group_of(sessions[s], entries));
    let windows = sessions[s].window_indices;
    let pred = shows_window(entries, wid);
    lemma_place_from(windows, pred, 0);
    assert(holds_place(windows, i));
    let j = choose|j: int| 0 <= j < windows.len() && #[trigger] windows[j] == i;
    assert(pred(windows[j]));
}

/// A refresh keeps the session where it is still there, though the selected
/// window has gone.
pub proof fn law_refresh_keeps_the_session(
    app: AppView,
    status: Seq<char>,
    loaded: Seq<EntryView>,
    sessions: Seq<GroupView>,
    current: CurrentView,
    i: int,
)
    requires
        app.session() is Some,
        is_grouping(sessions, all_judged(loaded, fingerprints(app.entries))),
        countable(sessions),
        0 <= i < loaded.len(),
        loaded[i].session_id == app.session()->0.id,
    ensures
        ({
            let after = app.refreshed(status, loaded, sessions, current);
            after.session() is Some && after.session()->0.id == app.session()->0.id
        }),
{
    let entries = all_judged(loaded, fingerprints(app.entries));
    let sid = loaded[i].session_id;
    assert(entries[i].session_id == sid);
    lemma_place_from(sessions, has_id(sid), 0);
    assert(has_group(sessions, sid));
    let k = choose|k: int| 0 <= k < sessions.len() && (#[trigger] sessions[k]).id == sid;
    assert(has_id(sid)(sessions[k]));
}

/// A refresh gives up a probe that has not finished: what it finds out later
/// is not taken in.
pub proof fn law_refresh_gives_up_the_probe(
    app: AppView,
    status: Seq<char>,
    loaded: Seq<EntryView>,
    sessions: Seq<GroupView>,
    current: CurrentView,
    err: Seq<char>,
    poll: ProbePoll,
)
    ensures
        ({
            let after = app.refreshed(status, loaded, sessions, current);
            after.after_poll(poll) == after
        }),
        app.not_refreshed(err).after_poll(poll) == app.not_refreshed(err),
{
}

// ---------------------------------------------------------------------------
// Renaming and killing
// ---------------------------------------------------------------------------

/// A character that is typed and taken away again leaves all as it was.
pub proof fn law_backspace_undoes_typing(app: AppView, c: char)
    ensures
        app.typed(c).untyped() == app,
{
    if let Some(rename) = app.rename {
        assert(rename.buffer.push(c).drop_last() =~= rename.buffer);
    }
}

/// The picker after some characters were typed.
pub open spec fn typed_all(app: AppView, s: Seq<char>) -> AppView
    decreases s.len(),
{
    if s.len() == 0 {
        app
    } else {
        typed_all(app, s.drop_last()).typed(s.last())
    }
}

/// What is typed stands behind the name that there was, character by
/// character.
pub proof fn law_typing_extends_the_name(app: AppView, s: Seq<char>)
    requires
        app.rename is Some,
    ensures
        typed_all(app, s) == app.with_buffer(app.rename->0.buffer + s),
    decreases s.len(),
{
    let buffer = app.rename->0.buffer;
    if s.len() == 0 {
        assert(buffer + s =~= buffer);
    } else {
        law_typing_extends_the_name(app, s.drop_last());
        assert((buffer + s.drop_last()).push(s.last()) =~= buffer + s);
    }
}

/// A name that is not changed is not sent: what begins and is committed at
/// once is given up, unless white space stands at the ends of a name that is
/// not blank.
pub proof fn law_an_untouched_name_is_not_sent(app: AppView)
    ensures
        app.session() is Some ==> (app.renaming_session().rename_request() is None <==> trim(
            app.session()->0.name,
        ) == app.session()->0.name || trim(app.session()->0.name).len() == 0),
        app.entry() is Some ==> (app.renaming_window().rename_request() is None <==> trim(
            app.entry()->0.window_name,
        ) == app.entry()->0.window_name || trim(app.entry()->0.window_name).len() == 0),
{
}

/// A renaming that is given up or committed is over.
pub proof fn law_a_renaming_ends(app: AppView)
    ensures
        app.rename_cancelled().rename is None,
        app.rename_committed().rename is None,
        app.rename_cancelled().rename_request() is None,
{
}

/// A kill that is given up cannot be confirmed any more.
pub proof fn law_a_cancelled_kill_is_gone(app: AppView)
    ensures
        app.kill_cancelled().confirm_kill is None,
{
}

/// The window that is renamed or killed is the selected one, and no other.
pub proof fn law_the_selected_window_is_meant(app: AppView, name: Seq<char>)
    requires
        app.entry() is Some,
        app.entry()->0.session_name.len() > 0,
        forall|i: int|
            0 <= i < app.entry()->0.session_name.len() ==> (
            #[trigger] app.entry()->0.session_name[i]) != ':',
    ensures
        ({
            let target = WindowTarget {
                session_name: session_name_of(app.entry()->0.session_name),
                window_index: app.entry()->0.window_index_num,
            };
            let asked = app.renaming_window().with_buffer(name).rename_request();
            &&& asked is Some ==> asked->0.sends() == Ok::<CommandView, Seq<char>>(
                CommandView::RenameWindow { window: target, name: trim(name) },
            )
            &&& app.killing_window().confirm_kill is Some
            &&& app.killing_window().confirm_kill->0.sends() == Ok::<CommandView, Seq<char>>(
                CommandView::KillWindow { window: target, kill_all_others: false },
            )
        }),
{
    law_commands_reach_their_window(app.entry()->0, trim(name));
}

/// The session that is renamed or killed is the selected one, and no other.
pub proof fn law_the_selected_session_is_meant(app: AppView, name: Seq<char>)
    requires
        app.session() is Some,
        app.session()->0.name.len() > 0,
    ensures
        ({
            let target = session_name_of(app.session()->0.name);
            let asked = app.renaming_session().with_buffer(name).rename_request();
            &&& asked is Some ==> asked->0.sends() == Ok::<CommandView, Seq<char>>(
                CommandView::RenameSession {
                    session: target,
                    new_name: session_name_of(trim(name)),
                },
            )
            &&& app.killing_session().confirm_kill is Some
            &&& app.killing_session().confirm_kill->0.sends() == Ok::<CommandView, Seq<char>>(
                CommandView::KillSession {
                    session: target,
                    kill_all_except_target: false,
                    clear_alerts: false,
                },
            )
        }),
{
}

// ---------------------------------------------------------------------------
// What each operation does, and what it leaves
// ---------------------------------------------------------------------------

/// What is selected is the window in the selected place of the session in the
/// selected place, and nothing where there is none.
pub proof fn law_what_is_selected(app: AppView)
    ensures
        app.selected_session >= app.sessions.len() ==> app.session() is None && app.entry() is None
            && app.windows().len() == 0,
        app.selected_session < app.sessions.len() ==> {
            let session = app.sessions[app.selected_session as int];
            let windows = session.window_indices;
            let w = app.selected_window as int;
            &&& app.session() == Some(session)
            &&& app.windows() == windows
            &&& w < windows.len() && windows[w] < app.entries.len() ==> app.entry() == Some(
                app.entries[windows[w] as int],
            )
            &&& w >= windows.len() || windows[w] >= app.entries.len() ==> app.entry() is None
        },
{
}

/// Moving about changes the selection and nothing else, and moving to another
/// window stays in the session.
pub proof fn law_moving_changes_the_selection_alone(app: AppView)
    ensures
        app.next_window() == (AppView {
            selected_window: app.next_window().selected_window,
            ..app
        }),
        app.previous_window() == (AppView {
            selected_window: app.previous_window().selected_window,
            ..app
        }),
        app.next_session() == (AppView {
            selected_session: app.next_session().selected_session,
            selected_window: app.next_session().selected_window,
            ..app
        }),
        app.previous_session() == (AppView {
            selected_session: app.previous_session().selected_session,
            selected_window: app.previous_session().selected_window,
            ..app
        }),
{
}

/// Whatever is selected, moving selects a window of the ring, the one that
/// many places on, and a session no further than the ends.
pub proof fn law_moving_from_anywhere(app: AppView)
    requires
        app.countable(),
    ensures
        app.windows().len() > 0 ==> {
            let len = app.windows().len() as int;
            &&& app.next_window().selected_window == (app.selected_window + 1) % len
            &&& app.previous_window().selected_window == (app.selected_window + len - 1) % len
        },
        app.sessions.len() > 0 && app.selected_session + 1 >= app.sessions.len()
            ==> app.next_session().selected_session == app.sessions.len() - 1,
        app.sessions.len() > 0 && app.selected_session > 0
            ==> app.previous_session().selected_session == app.selected_session - 1,
        app.sessions.len() == 0 ==> app.next_session() == app && app.previous_session() == app,
{
    let len = app.windows().len() as int;
    if len > 0 {
        assert(0 <= (app.selected_window + 1) % len < len);
        assert(0 <= (app.selected_window + len - 1) % len < len);
    }
}

/// The picker opens with the entries that were loaded and in the way that was
/// asked for, with no prompt and no status, and waits for a probe where there
/// is one.
pub proof fn law_the_picker_opens_as_asked(
    options: Options,
    entries: Seq<EntryView>,
    sessions: Seq<GroupView>,
    current: CurrentView,
)
    ensures
        ({
            let app = opened(options, entries, sessions, current);
            &&& app.entries == entries
            &&& app.sessions == sessions
            &&& (app.selected_session, app.selected_window) == opening_position(
                sessions,
                entries,
                current,
            )
            &&& app.preview_lines == options.preview_lines
            &&& app.inline_lines == options.inline_lines
            &&& app.refresh_seconds == options.refresh_seconds
            &&& app.current == current
            &&& app.status is None
            &&& app.rename is None
            &&& app.confirm_kill is None
            &&& app.probing <==> entries.len() > 0 && options.activity_samples > 1
        }),
{
}

/// Asking for all windows changes nothing of the picker.
pub proof fn law_all_windows_leaves_the_picker(
    options: Options,
    all_windows: bool,
    entries: Seq<EntryView>,
    sessions: Seq<GroupView>,
    current: CurrentView,
)
    ensures
        opened(Options { all_windows, ..options }, entries, sessions, current) == opened(
            options,
            entries,
            sessions,
            current,
        ),
{
}

/// A refresh shows the loaded entries, each as it was loaded but for its
/// activity. Whatever else it holds, an entry whose pane was shown before is
/// active exactly when its fingerprint differs from the last one of that pane,
/// and idle otherwise; one whose pane was not is neither.
pub proof fn law_a_refresh_judges_every_entry(
    app: AppView,
    status: Seq<char>,
    loaded: Seq<EntryView>,
    sessions: Seq<GroupView>,
    current: CurrentView,
    i: int,
    k: int,
)
    requires
        0 <= i < loaded.len(),
    ensures
        ({
            let after = app.refreshed(status, loaded, sessions, current);
            let now = after.entries[i];
            &&& after.entries.len() == loaded.len()
            &&& now == EntryView { activity: now.activity, ..loaded[i] }
            &&& is_last_of_pane(app.entries, loaded[i].pane_id, k) ==> {
                &&& now.activity == Activity::Active <==> loaded[i].activity_fingerprint
                    != app.entries[k].activity_fingerprint
                &&& now.activity == Activity::Idle <==> loaded[i].activity_fingerprint
                    == app.entries[k].activity_fingerprint
            }
            &&& (forall|j: int|
                0 <= j < app.entries.len() ==> (#[trigger] app.entries[j]).pane_id
                    != loaded[i].pane_id) ==> now.activity == Activity::Unknown
        }),
{
    law_the_last_fingerprint_is_kept(app.entries, loaded[i].pane_id, k);
}

/// A refresh takes in what was loaded, says so in the status, and gives up the
/// probe; how the picker shows things, and any prompt, stays.
pub proof fn law_a_refresh_leaves_the_rest(
    app: AppView,
    status: Seq<char>,
    loaded: Seq<EntryView>,
    sessions: Seq<GroupView>,
    current: CurrentView,
)
    ensures
        ({
            let after = app.refreshed(status, loaded, sessions, current);
            &&& after.sessions == sessions
            &&& after.current == current
            &&& after.status == Some(status)
            &&& !after.probing
            &&& after.preview_lines == app.preview_lines
            &&& after.inline_lines == app.inline_lines
            &&& after.refresh_seconds == app.refresh_seconds
            &&& after.rename == app.rename
            &&& after.confirm_kill == app.confirm_kill
        }),
        app.for_refresh().all_windows,
        app.for_refresh().preview_lines == app.preview_lines,
{
}

/// Where the selected session has gone, a refresh selects the first; where the
/// selected window is not among those of the session that is now selected, it
/// selects the first of them.
pub proof fn law_a_refresh_falls_back_to_the_first(
    app: AppView,
    status: Seq<char>,
    loaded: Seq<EntryView>,
    sessions: Seq<GroupView>,
    current: CurrentView,
)
    requires
        countable(sessions),
    ensures
        ({
            let after = app.refreshed(status, loaded, sessions, current);
            let windows = after.windows();
            &&& (forall|k: int|
                0 <= k < sessions.len() ==> app.session() is None || (#[trigger] sessions[k]).id
                    != app.session()->0.id) ==> after.selected_session == 0
            &&& (forall|j: int|
                0 <= j < windows.len() ==> app.entry() is None || after.entries[(
                #[trigger] windows[j]) as int].window_id != app.entry()->0.window_id)
                ==> after.selected_window == 0
        }),
{
    let after = app.refreshed(status, loaded, sessions, current);
    let windows = after.windows();
    if let Some(session) = app.session() {
        law_a_session_is_found_by_its_id(sessions, session.id);
    }
    if let Some(entry) = app.entry() {
        if after.selected_session < sessions.len() {
            law_a_window_is_found_by_its_id(windows, after.entries, entry.window_id);
        }
    }
}

/// A refresh selects the session that was selected, by its id, and in the
/// session that is then selected the window that was, by its id: wherever
/// either is found, in the first place where it is.
pub proof fn law_a_refresh_finds_the_selection_again(
    app: AppView,
    status: Seq<char>,
    loaded: Seq<EntryView>,
    sessions: Seq<GroupView>,
    current: CurrentView,
    k: int,
    j: int,
)
    requires
        countable(sessions),
    ensures
        ({
            let after = app.refreshed(status, loaded, sessions, current);
            let windows = after.windows();
            let s = after.selected_session as int;
            let w = after.selected_window as int;
            &&& app.session() is Some && 0 <= k < sessions.len() && sessions[k].id
                == app.session()->0.id ==> s <= k && sessions[s].id == app.session()->0.id
            &&& app.entry() is Some && 0 <= j < windows.len() && after.entries[windows[j] as int]
                .window_id == app.entry()->0.window_id ==> w <= j && after.entries[windows[w] as int]
                .window_id == app.entry()->0.window_id
        }),
{
    let after = app.refreshed(status, loaded, sessions, current);
    if let Some(session) = app.session() {
        law_a_session_is_found_by_its_id(sessions, session.id);
    }
    if let Some(entry) = app.entry() {
        if after.selected_session < sessions.len() {
            law_a_window_is_found_by_its_id(after.windows(), after.entries, entry.window_id);
        }
    }
}

/// A refresh that failed says why, gives up the probe, and leaves all else.
pub proof fn law_a_failed_refresh_says_why(app: AppView, err: Seq<char>)
    ensures
        app.not_refreshed(err).status == Some("refresh failed: "@ + err),
        !app.not_refreshed(err).probing,
        app.not_refreshed(err) == (AppView {
            status: app.not_refreshed(err).status,
            probing: app.not_refreshed(err).probing,
            ..app
        }),
{
}

/// A finished probe tells of the entries of its panes, and is then over; one
/// that has ended without a result is over too; and one that still runs, or
/// that is not waited for, changes nothing.
pub proof fn law_a_probe_is_taken_in(app: AppView, poll: ProbePoll, i: int)
    ensures
        !app.probing || poll is Empty ==> app.after_poll(poll) == app,
        app.probing && poll is Disconnected ==> app.after_poll(poll) == (AppView {
            probing: false,
            ..app
        }),
        app.probing && poll is Ready ==> {
            let after = app.after_poll(poll);
            let activity = poll->Ready_0.activity@;
            let latest = poll->Ready_0.fingerprints.deep_view();
            &&& after == AppView { entries: after.entries, probing: false, ..app }
            &&& after.entries.len() == app.entries.len()
            &&& 0 <= i < app.entries.len() ==> {
                let before = app.entries[i];
                let now = after.entries[i];
                &&& now == EntryView {
                    activity: now.activity,
                    activity_fingerprint: now.activity_fingerprint,
                    ..before
                }
                &&& activity.contains_key(before.pane_id) ==> now.activity
                    == activity[before.pane_id]
                &&& !activity.contains_key(before.pane_id) ==> now.activity == before.activity
                &&& latest.contains_key(before.pane_id) ==> now.activity_fingerprint
                    == latest[before.pane_id]
                &&& !latest.contains_key(before.pane_id) ==> now.activity_fingerprint
                    == before.activity_fingerprint
            }
        },
{
}

/// A renaming begins with the name that there is, of the selected session or
/// window, and with nothing else changed; where nothing is selected none
/// begins.
pub proof fn law_a_renaming_begins_with_the_name(app: AppView)
    ensures
        app.renaming_session() == (AppView { rename: app.renaming_session().rename, ..app }),
        app.renaming_window() == (AppView { rename: app.renaming_window().rename, ..app }),
        match app.session() {
            Some(session) => {
                &&& app.renaming_session().rename is Some
                &&& app.renaming_session().rename->0.kind == RenameKind::Session
                &&& app.renaming_session().rename->0.target_id == session.name
                &&& app.renaming_session().rename->0.original == session.name
                &&& app.renaming_session().rename->0.buffer == session.name
            },
            None => app.renaming_session() == app,
        },
        match app.entry() {
            Some(entry) => {
                &&& app.renaming_window().rename is Some
                &&& app.renaming_window().rename->0.kind == RenameKind::Window
                &&& app.renaming_window().rename->0.target_id == entry.session_name + seq![':']
                    + decimal(entry.window_index_num as nat)
                &&& app.renaming_window().rename->0.original == entry.window_name
                &&& app.renaming_window().rename->0.buffer == entry.window_name
            },
            None => app.renaming_window() == app,
        },
{
}

/// Typing changes the typed text alone: a character goes behind it, and
/// backspace takes its last one, if there is any. Without a renaming nothing
/// is typed.
pub proof fn law_typing_changes_the_text_alone(app: AppView, c: char)
    ensures
        app.rename is None ==> app.typed(c) == app && app.untyped() == app,
        app.rename is Some ==> {
            let buffer = app.rename->0.buffer;
            &&& app.typed(c) == AppView {
                rename: Some(RenameView { buffer: buffer.push(c), ..app.rename->0 }),
                ..app
            }
            &&& buffer.len() == 0 ==> app.untyped() == app
            &&& buffer.len() > 0 ==> app.untyped() == AppView {
                rename: Some(RenameView { buffer: buffer.drop_last(), ..app.rename->0 }),
                ..app
            }
        },
{
}

/// A typed name is asked for, without the white space at its ends, whenever it
/// is not blank and not the name that there was, however long or short either
/// is; and in no other case.
pub proof fn law_every_new_name_is_asked_for(
    app: AppView,
    before: Seq<char>,
    name: Seq<char>,
    behind: Seq<char>,
)
    requires
        app.rename is Some,
        app.rename->0.buffer == before + name + behind,
        all_space(before),
        all_space(behind),
        name.len() > 0 ==> !is_space(name.first()) && !is_space(name.last()),
    ensures
        app.rename_request() is Some <==> name.len() > 0 && name != app.rename->0.original,
        app.rename_request() is Some ==> {
            &&& app.rename_request()->0.new_name == name
            &&& app.rename_request()->0.kind == app.rename->0.kind
            &&& app.rename_request()->0.target_id == app.rename->0.target_id
        },
        app.rename_committed() == (AppView {
            rename: None,
            status: if name.len() > 0 && name != app.rename->0.original {
                app.status
            } else {
                Some("rename cancelled"@)
            },
            ..app
        }),
{
    law_trimming_takes_white_space_at_the_ends(before, name, behind);
}

/// Without a renaming, none can be committed or given up.
pub proof fn law_nothing_is_renamed_unasked(app: AppView)
    requires
        app.rename is None,
    ensures
        app.rename_request() is None,
        app.rename_committed() == app,
        app.rename_cancelled() == app,
{
}

/// Giving up a renaming or a kill ends it, says so, and leaves all else.
pub proof fn law_giving_up_says_so(app: AppView)
    ensures
        app.rename is Some ==> app.rename_cancelled() == (AppView {
            rename: None,
            status: Some("rename cancelled"@),
            ..app
        }),
        app.confirm_kill is Some ==> app.kill_cancelled() == (AppView {
            confirm_kill: None,
            status: Some("kill cancelled"@),
            ..app
        }),
        app.confirm_kill is None ==> app.kill_cancelled() == app,
{
}

/// What is asked for is the kill of the selected session or window, under the
/// label that tells which it is, with nothing else changed; where nothing is
/// selected none is.
pub proof fn law_a_kill_is_of_the_selection(app: AppView)
    ensures
        app.killing_session() == (AppView {
            confirm_kill: app.killing_session().confirm_kill,
            ..app
        }),
        app.killing_window() == (AppView {
            confirm_kill: app.killing_window().confirm_kill,
            ..app
        }),
        match app.session() {
            Some(session) => {
                &&& app.killing_session().confirm_kill is Some
                &&& app.killing_session().confirm_kill->0.kind == KillKind::Session
                &&& app.killing_session().confirm_kill->0.target_id == session.name
                &&& app.killing_session().confirm_kill->0.label == session.name
            },
            None => app.killing_session() == app,
        },
        match app.entry() {
            Some(entry) => {
                &&& app.killing_window().confirm_kill is Some
                &&& app.killing_window().confirm_kill->0.kind == KillKind::Window
                &&& app.killing_window().confirm_kill->0.target_id == entry.session_name
                    + seq![':'] + decimal(entry.window_index_num as nat)
                &&& app.killing_window().confirm_kill->0.label == entry.window_index + ": "@
                    + entry.window_name
            },
            None => app.killing_window() == app,
        },
{
}

/// A renaming and a kill send the command for what they are of: a session by
/// its name, a window by its address.
pub proof fn law_requests_send_their_command(request: RenameRequestView, kill: KillView)
    ensures
        request.kind == RenameKind::Session ==> request.sends() == renaming_session(
            request.target_id,
            request.new_name,
        ),
        request.kind == RenameKind::Window ==> request.sends() == renaming_window(
            request.target_id,
            request.new_name,
        ),
        kill.kind == KillKind::Session ==> kill.sends() == killing_session(kill.target_id),
        kill.kind == KillKind::Window ==> kill.sends() == killing_window(kill.target_id),
        request.kind == RenameKind::Session ==> renamed_word(request.kind) == "session"@,
        request.kind == RenameKind::Window ==> renamed_word(request.kind) == "window"@,
        kill.kind == KillKind::Session ==> killed_word(kill.kind) == "session"@,
        kill.kind == KillKind::Window ==> killed_word(kill.kind) == "window"@,
{
}

} // verus!
