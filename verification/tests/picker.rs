use rmux_jump::activity::{apply_activity, ActivityProbeResult};
use rmux_jump::keys::{
    handle_key, handle_kill_key, handle_rename_key, should_quit, should_submit, Action, KeyCode,
    KeyEvent, Modifiers,
};
use rmux_jump::model::{is_current, Activity, CurrentTarget, Entry};
use rmux_jump::options::{refresh_due, refresh_interval, Cli, Options};
use rmux_jump::picker::{App, KillKind, ProbePoll, RenameKind, RenameRequest};
use rmux_jump::preview::{activity_fingerprint_of, tail_non_empty};
use rmux_jump::rmux::Command;
use rmux_jump::run::{Cause, Picker};
use rmux_jump::screen::window_item_lines;
use rmux_jump::sessions::{group_sessions, initial_position};
use rmux_jump::table::{PaneMap, Table};

use std::time::Duration;

fn default_options() -> Options {
    Cli { window_lines: Some(10), ..Cli::default() }.options()
}

fn test_app_with_entries(options: &Options, entries: Vec<Entry>) -> App {
    let sessions = group_sessions(&entries);
    App {
        entries,
        sessions,
        selected_session: 0,
        selected_window: 0,
        preview_lines: options.preview_lines,
        inline_lines: options.inline_lines,
        refresh_seconds: options.refresh_seconds,
        current: CurrentTarget::default(),
        status: None,
        probing: false,
        rename: None,
        confirm_kill: None,
    }
}

fn test_entry(session_id: &str, window_index: &str, window_active: bool) -> Entry {
    let session_num = session_id.trim_start_matches('$');
    let window_index_num: u32 = window_index.parse().unwrap();
    Entry {
        session_id: session_id.to_string(),
        session_name: session_num.to_string(),
        session_attached: true,
        session_activity: 0,
        window_id: format!("@{}-{}", session_num, window_index),
        window_index: window_index.to_string(),
        window_index_num,
        window_name: "window".to_string(),
        window_active,
        pane_id: format!("%{}{}", session_num, window_index),
        pane_id_num: window_index_num,
        pane_current_path: "/tmp".to_string(),
        preview: Vec::new(),
        activity: Activity::Unknown,
        activity_fingerprint: String::new(),
    }
}

fn test_entry_with_fingerprint(session_id: &str, window_index: &str, fp: &str) -> Entry {
    let mut entry = test_entry(session_id, window_index, false);
    entry.activity_fingerprint = fp.to_string();
    entry
}

#[test]
fn window_lines_enables_all_windows_and_sets_line_counts() {
    let cli = Cli { window_lines: Some(10), ..Cli::default() };
    let options = cli.options();

    assert!(options.all_windows);
    assert_eq!(options.preview_lines, 10);
    assert_eq!(options.inline_lines, 0);
    assert_eq!(options.refresh_seconds, 5);
}

#[test]
fn explicit_window_options_stay_independent_without_preset() {
    let cli = Cli { all_windows: true, preview_lines: 12, inline_lines: 3, ..Cli::default() };
    let options = cli.options();

    assert!(options.all_windows);
    assert_eq!(options.preview_lines, 12);
    assert_eq!(options.inline_lines, 3);
    assert_eq!(options.refresh_seconds, 5);
}

#[test]
fn refresh_seconds_can_disable_auto_refresh() {
    let cli = Cli { window_lines: Some(10), refresh_seconds: 0, ..Cli::default() };
    let options = cli.options();

    assert_eq!(options.refresh_seconds, 0);
    assert_eq!(refresh_interval(options.refresh_seconds), None);
}

#[test]
fn refresh_due_respects_interval() {
    assert!(refresh_due(
        Some(Duration::from_secs(1).as_nanos()),
        Duration::from_secs(2).as_nanos()
    ));
    assert!(!refresh_due(Some(Duration::from_secs(5).as_nanos()), 0));
    assert!(!refresh_due(None, Duration::from_secs(10).as_nanos()));
}

#[test]
fn window_lines_keeps_left_list_to_one_line_per_target() {
    let cli = Cli { window_lines: Some(10), ..Cli::default() };
    let options = cli.options();
    let app = test_app_with_entries(&options, vec![test_entry("$0", "0", false)]);
    let entry = app.selected_entry().unwrap();

    assert_eq!(window_item_lines(entry, &app).len(), 1);
}

#[test]
fn tail_non_empty_returns_last_non_empty_lines() {
    let lines = vec![
        "first".to_string(),
        "".to_string(),
        "second".to_string(),
        "  ".to_string(),
        "third".to_string(),
    ];

    assert_eq!(
        tail_non_empty(&lines, 2),
        vec!["second".to_string(), "third".to_string()]
    );
}

#[test]
fn window_navigation_wraps_at_first_and_last_window() {
    let options = default_options();
    let mut app = test_app_with_entries(
        &options,
        vec![test_entry("$0", "0", true), test_entry("$0", "1", false)],
    );

    // Starting at the first window, `k` wraps to the last.
    assert_eq!(app.selected_window, 0);
    app.previous_window();
    assert_eq!(app.selected_window, 1);

    // From the last window, `j` wraps back to the first.
    app.next_window();
    assert_eq!(app.selected_window, 0);
}

#[test]
fn initial_position_lands_on_current_session_and_window() {
    let entries = vec![
        test_entry("$0", "0", false),
        test_entry("$0", "1", true),
        test_entry("$1", "0", false),
        test_entry("$1", "1", true),
    ];
    let sessions = group_sessions(&entries);

    // Pretend the user opened the picker from session $1, window with id of entry[2].
    let current = CurrentTarget {
        session_id: Some("$1".to_string()),
        window_id: Some(entries[2].window_id.clone()),
    };
    let (s, w) = initial_position(&sessions, &entries, &current);
    let landed = &entries[sessions[s].window_indices[w]];
    assert_eq!(landed.session_id, "$1");
    assert_eq!(landed.window_id, entries[2].window_id);
}

#[test]
fn initial_position_falls_back_to_active_window_when_id_missing() {
    let entries = vec![test_entry("$0", "0", false), test_entry("$0", "1", true)];
    let sessions = group_sessions(&entries);
    let current = CurrentTarget {
        session_id: Some("$0".to_string()),
        window_id: Some("@does-not-exist".to_string()),
    };
    let (s, w) = initial_position(&sessions, &entries, &current);
    let landed = &entries[sessions[s].window_indices[w]];
    assert!(landed.window_active);
}

#[test]
fn session_navigation_jumps_to_active_window_of_target_session() {
    let options = default_options();
    let mut app = test_app_with_entries(
        &options,
        vec![
            test_entry("$0", "0", false),
            test_entry("$0", "1", false),
            test_entry("$1", "0", false),
            test_entry("$1", "1", true),
        ],
    );

    assert_eq!(app.selected_session, 0);
    assert_eq!(app.selected_window, 0);

    app.next_session();
    assert_eq!(app.selected_session, 1);
    // session $1's active window is index 1
    assert_eq!(app.selected_window, 1);

    app.previous_session();
    assert_eq!(app.selected_session, 0);
}

#[test]
fn rename_session_starts_from_current_name_and_edits_buffer() {
    let options = default_options();
    let mut app = test_app_with_entries(
        &options,
        vec![test_entry("$0", "0", true), test_entry("$0", "1", false)],
    );

    app.begin_rename_session();
    let rename = app.rename.as_ref().expect("rename started");
    assert_eq!(rename.kind, RenameKind::Session);
    assert_eq!(rename.target_id, "0");
    // session name for "$0" is "0", so buffer seeds with the current name.
    assert_eq!(rename.buffer, "0");

    app.rename_input('x');
    app.rename_input('y');
    assert_eq!(app.rename.as_ref().unwrap().buffer, "0xy");

    app.rename_backspace();
    assert_eq!(app.rename.as_ref().unwrap().buffer, "0x");

    app.cancel_rename();
    assert!(app.rename.is_none());
}

#[test]
fn rename_window_targets_selected_window_id() {
    let options = default_options();
    let mut app = test_app_with_entries(
        &options,
        vec![test_entry("$0", "0", true), test_entry("$0", "1", false)],
    );
    app.selected_window = 1;

    app.begin_rename_window();
    let rename = app.rename.as_ref().expect("rename started");
    assert_eq!(rename.kind, RenameKind::Window);
    assert_eq!(rename.target_id, "0:1");
    assert_eq!(rename.buffer, "window");
}

#[test]
fn kill_window_targets_selected_window_and_cancels() {
    let options = default_options();
    let mut app = test_app_with_entries(
        &options,
        vec![test_entry("$0", "0", true), test_entry("$0", "1", false)],
    );
    app.selected_window = 1;

    app.begin_kill_window();
    let kill = app.confirm_kill.as_ref().expect("kill pending");
    assert_eq!(kill.kind, KillKind::Window);
    assert_eq!(kill.target_id, "0:1");
    assert_eq!(kill.label, "1: window");

    app.cancel_kill();
    assert!(app.confirm_kill.is_none());
}

#[test]
fn kill_session_targets_current_session() {
    let options = default_options();
    let mut app = test_app_with_entries(
        &options,
        vec![test_entry("$0", "0", true), test_entry("$1", "0", false)],
    );
    app.selected_session = 1;

    app.begin_kill_session();
    let kill = app.confirm_kill.as_ref().expect("kill pending");
    assert_eq!(kill.kind, KillKind::Session);
    assert_eq!(kill.target_id, "1");
    assert_eq!(kill.label, "1");
}

#[test]
fn activity_fingerprint_joins_preview_and_strips_trailing_whitespace() {
    let preview = vec![
        "abc".to_string(),
        "def".to_string(),
        "tail content here  ".to_string(),
    ];
    let fp = activity_fingerprint_of(&preview);
    assert_eq!(fp, "abc\ndef\ntail content here");
}

#[test]
fn apply_activity_marks_changed_panes_as_active_and_stable_panes_as_idle() {
    let mut entries = vec![
        test_entry_with_fingerprint("$0", "0", "same"),
        test_entry_with_fingerprint("$0", "1", "new output"),
        test_entry_with_fingerprint("$1", "0", "no baseline"),
    ];

    let mut baseline: PaneMap<String> = Table::new();
    baseline.insert(entries[0].pane_id.clone(), "same".to_string());
    baseline.insert(entries[1].pane_id.clone(), "old output".to_string());

    apply_activity(&mut entries, &baseline);

    assert_eq!(entries[0].activity, Activity::Idle);
    assert_eq!(entries[1].activity, Activity::Active);
    assert_eq!(entries[2].activity, Activity::Unknown);
}

// ---------------------------------------------------------------------------

fn key(code: KeyCode) -> KeyEvent {
    KeyEvent { code, modifiers: Modifiers { control: false, alt: false, other: false } }
}

fn control(c: char) -> KeyEvent {
    KeyEvent {
        code: KeyCode::Char(c),
        modifiers: Modifiers { control: true, alt: false, other: false },
    }
}

fn two_sessions() -> App {
    test_app_with_entries(
        &default_options(),
        vec![
            test_entry("$0", "0", false),
            test_entry("$0", "1", true),
            test_entry("$1", "0", false),
            test_entry("$1", "1", false),
            test_entry("$1", "2", false),
        ],
    )
}

#[test]
fn loading_opens_on_the_current_window_and_begins_a_probe() {
    let options = default_options();
    let current = CurrentTarget {
        session_id: Some("$1".to_string()),
        window_id: Some("@1-1".to_string()),
    };
    let entries = vec![
        test_entry("$0", "0", true),
        test_entry("$1", "0", true),
        test_entry("$1", "1", false),
    ];
    let (app, probe) = App::load(&options, entries, current);
    assert_eq!(app.selected_session, 1);
    assert_eq!(app.selected_window, 1);
    assert!(app.probing);
    assert!(probe.is_some());
    assert!(app.status.is_none());
    assert!(app.windows_are_entries());
    assert!(is_current(app.selected_entry().unwrap(), &app.current));
    assert_eq!(app.refresh_request().preview_lines, 10);
    assert!(app.refresh_request().all_windows);

    let one = Cli { activity_samples: 1, ..Cli::default() }.options();
    let (app, probe) = App::load(&one, vec![test_entry("$0", "0", true)], CurrentTarget::default());
    assert!(!app.probing);
    assert!(probe.is_none());
    let (app, probe) = App::load(&options, Vec::new(), CurrentTarget::default());
    assert!(!app.probing);
    assert!(probe.is_none());
    assert!(app.selected_entry().is_none());
    assert!(app.current_session().is_none());
}

#[test]
fn windows_out_of_bounds_are_noticed() {
    let mut app = two_sessions();
    assert!(app.windows_are_entries());
    app.entries.pop();
    assert!(!app.windows_are_entries());
    assert!(test_app_with_entries(&default_options(), Vec::new()).windows_are_entries());
}

#[test]
fn windows_form_a_ring() {
    let mut app = two_sessions();
    app.next_session();
    assert_eq!((app.selected_session, app.selected_window), (1, 0));
    for expected in [1, 2, 0, 1] {
        app.next_window();
        assert_eq!(app.selected_window, expected);
    }
    for expected in [0, 2, 1, 0] {
        app.previous_window();
        assert_eq!(app.selected_window, expected);
    }
    app.selected_window = usize::MAX;
    app.next_window();
    assert_eq!(app.selected_window, ((usize::MAX as u128 + 1) % 3) as usize);
}

#[test]
fn navigation_without_sessions_does_nothing() {
    let mut app = test_app_with_entries(&default_options(), Vec::new());
    app.next_window();
    app.previous_window();
    app.next_session();
    app.previous_session();
    app.begin_rename_session();
    app.begin_rename_window();
    app.begin_kill_session();
    app.begin_kill_window();
    assert_eq!((app.selected_session, app.selected_window), (0, 0));
    assert!(app.rename.is_none());
    assert!(app.confirm_kill.is_none());
}

#[test]
fn sessions_stop_at_the_ends() {
    let mut app = two_sessions();
    app.previous_session();
    assert_eq!((app.selected_session, app.selected_window), (0, 1));
    app.next_session();
    app.next_window();
    app.next_session();
    assert_eq!((app.selected_session, app.selected_window), (1, 0));
}

#[test]
fn refresh_keeps_the_selected_window() {
    let mut app = two_sessions();
    app.selected_session = 1;
    app.selected_window = 2;
    app.probing = true;
    app.entries[4].activity_fingerprint = "before".to_string();
    let loaded = vec![
        test_entry_with_fingerprint("$1", "2", "after"),
        test_entry_with_fingerprint("$1", "0", ""),
        test_entry_with_fingerprint("$2", "0", "new"),
    ];
    let current =
        CurrentTarget { session_id: Some("$2".to_string()), window_id: None };
    app.refresh(Ok((loaded, current)));
    let entry = app.selected_entry().unwrap();
    assert_eq!(entry.window_id, "@1-2");
    assert_eq!(entry.activity, Activity::Active);
    assert_eq!(app.entries[1].activity, Activity::Idle);
    assert_eq!(app.entries[2].activity, Activity::Unknown);
    assert_eq!(app.status.as_deref(), Some("refreshed"));
    assert_eq!(app.current.session_id.as_deref(), Some("$2"));
    assert!(!app.probing);

    // The selected window has gone, its session has not.
    app.auto_refresh(Ok((
        vec![test_entry("$2", "0", false), test_entry("$1", "0", false)],
        CurrentTarget::default(),
    )));
    assert_eq!(app.selected_entry().unwrap().window_id, "@1-0");
    assert_eq!(app.status.as_deref(), Some("auto refreshed"));

    // The session has gone too.
    app.refresh(Ok((vec![test_entry("$7", "0", false)], CurrentTarget::default())));
    assert_eq!((app.selected_session, app.selected_window), (0, 0));
    assert_eq!(app.selected_entry().unwrap().window_id, "@7-0");
}

#[test]
fn failed_refresh_keeps_what_is_shown() {
    let mut app = two_sessions();
    app.selected_session = 1;
    app.probing = true;
    app.refresh(Err("no daemon".to_string()));
    assert_eq!(app.status.as_deref(), Some("refresh failed: no daemon"));
    assert_eq!(app.selected_session, 1);
    assert_eq!(app.entries.len(), 5);
    assert!(!app.probing);
}

fn probe_result() -> ActivityProbeResult {
    let mut activity: PaneMap<Activity> = Table::new();
    activity.insert("%00".to_string(), Activity::Active);
    let mut fingerprints: PaneMap<String> = Table::new();
    fingerprints.insert("%01".to_string(), "latest".to_string());
    ActivityProbeResult { activity, fingerprints }
}

#[test]
fn probe_results_are_taken_in_once() {
    let mut app = two_sessions();
    assert!(!app.poll_probe(ProbePoll::Ready(probe_result())));
    assert_eq!(app.entries[0].activity, Activity::Unknown);
    app.probing = true;
    assert!(!app.poll_probe(ProbePoll::Empty));
    assert!(app.probing);
    assert!(app.poll_probe(ProbePoll::Ready(probe_result())));
    assert!(!app.probing);
    assert_eq!(app.entries[0].activity, Activity::Active);
    assert_eq!(app.entries[0].activity_fingerprint, "");
    assert_eq!(app.entries[1].activity, Activity::Unknown);
    assert_eq!(app.entries[1].activity_fingerprint, "latest");
    app.probing = true;
    assert!(!app.poll_probe(ProbePoll::Disconnected));
    assert!(!app.probing);
}

#[test]
fn committing_a_blank_or_unchanged_name_cancels() {
    let mut app = two_sessions();
    assert!(app.commit_rename().is_none());
    assert!(app.status.is_none());
    app.begin_rename_session();
    app.rename_input(' ');
    assert!(app.commit_rename().is_none());
    assert_eq!(app.status.as_deref(), Some("rename cancelled"));
    assert!(app.rename.is_none());

    app.begin_rename_session();
    app.rename_backspace();
    app.rename_backspace();
    app.rename_input('\u{3000}');
    assert!(app.commit_rename().is_none());
    app.status = None;
    app.cancel_rename();
    assert!(app.status.is_none());
}

#[test]
fn committing_a_new_name_asks_for_the_renaming() {
    let mut app = two_sessions();
    app.begin_rename_window();
    for c in " new ".chars() {
        app.rename_input(c);
    }
    let request = app.commit_rename().unwrap();
    assert_eq!(request.kind, RenameKind::Window);
    assert_eq!(request.target_id, "0:0");
    assert_eq!(request.new_name, "window new");
    assert_eq!(request.command().unwrap().name(), "rename-window");
    match request.command() {
        Ok(Command::RenameWindow { window, name }) => {
            assert_eq!(window.session_name.as_str(), "0");
            assert_eq!(window.window_index, 0);
            assert_eq!(name, "window new");
        }
        other => panic!("{other:?}"),
    }
    assert_eq!(app.finish_rename(&request, Ok(())).unwrap(), "renamed window to window new");
    assert!(app.status.is_none());
    assert!(app.finish_rename(&request, Err("busy".to_string())).is_none());
    assert_eq!(app.status.as_deref(), Some("rename failed: busy"));
}

#[test]
fn renaming_a_session_sends_both_names() {
    let request = RenameRequest {
        kind: RenameKind::Session,
        target_id: "old".to_string(),
        new_name: "a.b".to_string(),
    };
    assert_eq!(request.command().unwrap().name(), "rename-session");
    match request.command() {
        Ok(Command::RenameSession { session, new_name }) => {
            assert_eq!(session.as_str(), "old");
            assert_eq!(new_name.as_str(), "a_b");
        }
        other => panic!("{other:?}"),
    }
    let mut app = two_sessions();
    assert_eq!(app.finish_rename(&request, Ok(())).unwrap(), "renamed session to a.b");
}

#[test]
fn confirmed_kills_are_sent() {
    let mut app = two_sessions();
    assert!(app.commit_kill().is_none());
    app.begin_kill_window();
    let kill = app.commit_kill().unwrap();
    assert!(app.confirm_kill.is_none());
    assert_eq!(kill.command().unwrap().name(), "kill-window");
    match kill.command() {
        Ok(Command::KillWindow { window, kill_all_others }) => {
            assert_eq!(window.session_name.as_str(), "0");
            assert_eq!(window.window_index, 0);
            assert!(!kill_all_others);
        }
        other => panic!("{other:?}"),
    }
    assert_eq!(app.finish_kill(&kill, Ok(())).unwrap(), "killed window 0: window");
    assert!(app.finish_kill(&kill, Err("gone".to_string())).is_none());
    assert_eq!(app.status.as_deref(), Some("kill failed: gone"));

    app.begin_kill_session();
    let kill = app.commit_kill().unwrap();
    assert_eq!(kill.command().unwrap().name(), "kill-session");
    match kill.command() {
        Ok(Command::KillSession { session, kill_all_except_target, clear_alerts }) => {
            assert_eq!(session.as_str(), "0");
            assert!(!kill_all_except_target);
            assert!(!clear_alerts);
        }
        other => panic!("{other:?}"),
    }
    assert_eq!(app.finish_kill(&kill, Ok(())).unwrap(), "killed session 0");
    app.status = None;
    app.cancel_kill();
    assert!(app.status.is_none());
}

#[test]
fn keys_move_about() {
    let mut app = two_sessions();
    for (code, place) in [
        (KeyCode::Char('l'), (1, 0)),
        (KeyCode::Char('j'), (1, 1)),
        (KeyCode::Down, (1, 2)),
        (KeyCode::Char('J'), (1, 0)),
        (KeyCode::Up, (1, 2)),
        (KeyCode::Char('k'), (1, 1)),
        (KeyCode::Char('K'), (1, 0)),
        (KeyCode::Char('h'), (0, 1)),
        (KeyCode::Right, (1, 0)),
        (KeyCode::Left, (0, 1)),
        (KeyCode::Tab, (1, 0)),
        (KeyCode::BackTab, (0, 1)),
        (KeyCode::PageDown, (1, 0)),
        (KeyCode::PageUp, (0, 1)),
        (KeyCode::Char('L'), (1, 0)),
        (KeyCode::Char('H'), (0, 1)),
        (KeyCode::Other, (0, 1)),
        (KeyCode::Char('z'), (0, 1)),
    ] {
        assert!(matches!(handle_key(&mut app, key(code)), Action::Stay));
        assert_eq!((app.selected_session, app.selected_window), place, "{code:?}");
    }
}

#[test]
fn keys_leave_the_picker() {
    let mut app = two_sessions();
    for quit in [
        key(KeyCode::Esc),
        key(KeyCode::Char('q')),
        key(KeyCode::Char('Q')),
        control('c'),
        control('q'),
    ] {
        assert!(should_quit(quit));
        assert!(matches!(handle_key(&mut app, quit), Action::Exit(None)));
    }
    let mut with_shift = control('c');
    with_shift.modifiers.other = true;
    assert!(!should_quit(with_shift));
    let mut with_alt = control('c');
    with_alt.modifiers.alt = true;
    assert!(!should_quit(with_alt));
    assert!(!should_quit(key(KeyCode::Char('c'))));
    assert!(should_submit(key(KeyCode::Enter)));
    assert!(!should_submit(key(KeyCode::Tab)));
    match handle_key(&mut app, key(KeyCode::Enter)) {
        Action::Exit(Some(entry)) => assert_eq!(entry.window_id, "@0-0"),
        other => panic!("{other:?}"),
    }
    assert!(matches!(handle_key(&mut app, key(KeyCode::Char('r'))), Action::Refresh));
    assert!(matches!(handle_key(&mut app, key(KeyCode::Char('R'))), Action::Refresh));
}

#[test]
fn typed_keys_go_into_the_name() {
    let mut app = two_sessions();
    handle_key(&mut app, key(KeyCode::Char('$')));
    for c in "qxr".chars() {
        assert!(matches!(handle_key(&mut app, key(KeyCode::Char(c))), Action::Stay));
    }
    assert_eq!(app.rename.as_ref().unwrap().buffer, "0qxr");
    assert!(handle_rename_key(&mut app, control('x')).is_none());
    let mut alt = key(KeyCode::Char('y'));
    alt.modifiers.alt = true;
    assert!(handle_rename_key(&mut app, alt).is_none());
    assert!(handle_rename_key(&mut app, key(KeyCode::Down)).is_none());
    assert_eq!(app.rename.as_ref().unwrap().buffer, "0qxr");
    assert!(handle_rename_key(&mut app, key(KeyCode::Backspace)).is_none());
    let mut shift = key(KeyCode::Char('A'));
    shift.modifiers.other = true;
    assert!(handle_rename_key(&mut app, shift).is_none());
    match handle_key(&mut app, key(KeyCode::Enter)) {
        Action::Rename(request) => assert_eq!(request.new_name, "0qxA"),
        other => panic!("{other:?}"),
    }
    for cancel in [key(KeyCode::Esc), control('c')] {
        handle_key(&mut app, key(KeyCode::Char(',')));
        assert_eq!(app.rename.as_ref().unwrap().kind, RenameKind::Window);
        app.status = None;
        assert!(matches!(handle_key(&mut app, cancel), Action::Stay));
        assert!(app.rename.is_none());
        assert_eq!(app.status.as_deref(), Some("rename cancelled"));
    }
}

#[test]
fn only_y_kills() {
    let mut app = two_sessions();
    let mut alt = key(KeyCode::Char('y'));
    alt.modifiers.alt = true;
    for stray in [
        key(KeyCode::Enter),
        key(KeyCode::Char('x')),
        key(KeyCode::Char('X')),
        key(KeyCode::Char('c')),
        key(KeyCode::Char('j')),
        key(KeyCode::Backspace),
        control('y'),
        control('Y'),
        alt,
    ] {
        handle_key(&mut app, key(KeyCode::Char('x')));
        assert!(matches!(handle_key(&mut app, stray), Action::Stay));
        assert_eq!(app.confirm_kill.as_ref().unwrap().kind, KillKind::Window);
        assert_eq!((app.selected_session, app.selected_window), (0, 0));
    }
    for decline in [
        key(KeyCode::Esc),
        key(KeyCode::Char('n')),
        key(KeyCode::Char('N')),
        key(KeyCode::Char('q')),
        key(KeyCode::Char('Q')),
        control('c'),
    ] {
        app.begin_kill_session();
        app.status = None;
        assert!(handle_kill_key(&mut app, decline).is_none());
        assert!(app.confirm_kill.is_none());
        assert_eq!(app.status.as_deref(), Some("kill cancelled"));
    }
    let mut shift = key(KeyCode::Char('Y'));
    shift.modifiers.other = true;
    for confirm in [key(KeyCode::Char('y')), key(KeyCode::Char('Y')), shift] {
        handle_key(&mut app, key(KeyCode::Char('X')));
        match handle_key(&mut app, confirm) {
            Action::Kill(kill) => assert_eq!(kill.kind, KillKind::Session),
            other => panic!("{other:?}"),
        }
        assert!(app.confirm_kill.is_none());
    }
}

#[test]
fn refreshes_keep_their_distance() {
    let second: u128 = 1_000_000_000;
    let mut picker = Picker::new(two_sessions(), 7);
    assert_eq!(picker.timeout(7), 250_000_000);
    assert_eq!(picker.timeout(0), 250_000_000);
    assert_eq!(picker.timeout(7 + 5 * second - 1), 1);
    assert!(!picker.is_due(7 + 5 * second - 1));
    assert!(picker.is_due(7 + 5 * second));
    assert_eq!(picker.timeout(7 + 5 * second), 0);

    let loaded = || Ok((vec![test_entry("$0", "0", false)], CurrentTarget::default()));
    picker.refresh(Cause::Done("renamed".to_string()), loaded(), 3 * second);
    assert_eq!(picker.app.status.as_deref(), Some("renamed"));
    assert!(picker.is_due(7 + 5 * second));
    picker.refresh(Cause::Timer, Err("down".to_string()), 6 * second);
    assert_eq!(picker.app.status.as_deref(), Some("refresh failed: down"));
    assert!(!picker.is_due(11 * second - 1));
    assert!(picker.is_due(11 * second));
    picker.refresh(Cause::Asked, loaded(), 8 * second);
    assert_eq!(picker.app.status.as_deref(), Some("refreshed"));
    assert!(!picker.is_due(11 * second));
    picker.refresh(Cause::Timer, loaded(), 9 * second);
    assert_eq!(picker.app.status.as_deref(), Some("auto refreshed"));

    assert!(matches!(picker.press(key(KeyCode::Char('r'))), Action::Refresh));
    let mut app = two_sessions();
    app.refresh_seconds = 0;
    let picker = Picker::new(app, 0);
    assert!(!picker.is_due(u128::MAX));
    assert_eq!(picker.timeout(u128::MAX), 250_000_000);
}
