use rmux_jump::model::{Activity, CurrentTarget, Entry};
use rmux_jump::rmux::{
    after_select, current_target, display_message, display_output, expect_response, kill_session,
    kill_window, list_windows_for_session, listed_windows, parse_window_target, rename_session,
    rename_window, rmux_session_name, switch_to, target_from_output, unexpected_response,
    window_target_for_entry, window_target_string, Command, ListedWindow, Reply, CURRENT_FORMAT,
    EMPTY_NAME, SEP,
};

fn entry(session_name: &str, window_index_num: u32) -> Entry {
    Entry {
        session_id: "$4".to_string(),
        session_name: session_name.to_string(),
        session_attached: false,
        session_activity: 0,
        window_id: "@9".to_string(),
        window_index: window_index_num.to_string(),
        window_index_num,
        window_name: "shell".to_string(),
        window_active: false,
        pane_id: "%2".to_string(),
        pane_id_num: 2,
        pane_current_path: "-".to_string(),
        preview: Vec::new(),
        activity: Activity::Unknown,
        activity_fingerprint: String::new(),
    }
}

fn window(name: &str) -> ListedWindow {
    ListedWindow {
        window_index: 3,
        window_id: "@3".to_string(),
        name: Some(name.to_string()),
        active: true,
    }
}

#[test]
fn session_names_are_made_by_the_protocol() {
    assert_eq!(rmux_session_name("work").unwrap().as_str(), "work");
    assert_eq!(rmux_session_name("a:b.c").unwrap().as_str(), "a_b_c");
    assert_eq!(rmux_session_name("a\nb").unwrap().as_str(), "a\\nb");
    assert_eq!(
        rmux_session_name("").unwrap_err(),
        "invalid RMUX session name ``: invalid session name: session names must be non-empty"
    );
    assert_eq!(EMPTY_NAME, "invalid session name: session names must be non-empty");
}

#[test]
fn window_targets_are_read() {
    for (value, name, index) in [
        ("work:0", "work", 0),
        ("a.b:17", "a_b", 17),
        ("x:4294967295", "x", u32::MAX),
        ("x:007", "x", 7),
    ] {
        let target = parse_window_target(value).unwrap();
        assert_eq!(target.session_name.as_str(), name);
        assert_eq!(target.window_index, index);
    }
}

#[test]
fn other_targets_are_refused() {
    for (value, error) in [
        (
            "",
            "invalid RMUX window target ``: invalid session name: session names must be non-empty",
        ),
        (
            ":1",
            "invalid RMUX window target `:1`: invalid session name: session names must be non-empty",
        ),
        (
            ":x",
            "invalid RMUX window target `:x`: invalid session name: session names must be non-empty",
        ),
        ("work", "RMUX target `work` is not a window target"),
        ("work:1.2", "RMUX target `work:1.2` is not a window target"),
        ("work:+1.+2", "RMUX target `work:+1.+2` is not a window target"),
        (
            "work:4294967296",
            "invalid RMUX window target `work:4294967296`: invalid target 'work:4294967296': window index must be an unsigned integer",
        ),
        (
            "work:x.1",
            "invalid RMUX window target `work:x.1`: invalid target 'work:x.1': window index must be an unsigned integer",
        ),
        (
            "work:.1",
            "invalid RMUX window target `work:.1`: invalid target 'work:.1': window index must be an unsigned integer",
        ),
        (
            "work:1.x",
            "invalid RMUX window target `work:1.x`: invalid target 'work:1.x': pane index must be an unsigned integer",
        ),
        (
            "work:1.",
            "invalid RMUX window target `work:1.`: invalid target 'work:1.': pane index must be an unsigned integer",
        ),
        (
            "work:1.2.3",
            "invalid RMUX window target `work:1.2.3`: invalid target 'work:1.2.3': pane index must be an unsigned integer",
        ),
        (
            "work:",
            "invalid RMUX window target `work:`: invalid target 'work:': targets must match 'session', 'session:window', or 'session:window.pane'",
        ),
        (
            "work:+1",
            "invalid RMUX window target `work:+1`: invalid target 'work:+1': targets must match 'session', 'session:window', or 'session:window.pane'",
        ),
        (
            "a:b:1",
            "invalid RMUX window target `a:b:1`: invalid target 'a:b:1': targets must match 'session', 'session:window', or 'session:window.pane'",
        ),
    ] {
        assert_eq!(parse_window_target(value).unwrap_err(), error);
    }
}

#[test]
fn window_addresses_read_back() {
    for (name, index) in [("work", 0), ("with space", 42), ("a.b", u32::MAX)] {
        let entry = entry(name, index);
        let address = window_target_string(&entry);
        assert_eq!(address, format!("{name}:{index}"));
        let read = parse_window_target(&address).unwrap();
        let meant = window_target_for_entry(&entry).unwrap();
        assert_eq!(read.session_name, meant.session_name);
        assert_eq!(read.window_index, meant.window_index);
    }
    // A colon in the name of a session stands in the way.
    assert!(parse_window_target(&window_target_string(&entry("a:b", 1))).is_err());
    assert!(window_target_for_entry(&entry("", 1)).is_err());
}

#[test]
fn commands_name_their_targets() {
    match rename_session("old", "new").unwrap() {
        Command::RenameSession { session, new_name } => {
            assert_eq!((session.as_str(), new_name.as_str()), ("old", "new"));
        }
        other => panic!("{other:?}"),
    }
    assert!(rename_session("", "new").unwrap_err().starts_with("invalid RMUX session name ``"));
    assert!(rename_session("old", "").unwrap_err().starts_with("invalid RMUX session name ``"));
    match rename_window("s:2", "").unwrap() {
        Command::RenameWindow { window, name } => {
            assert_eq!((window.session_name.as_str(), window.window_index), ("s", 2));
            assert_eq!(name, "");
        }
        other => panic!("{other:?}"),
    }
    assert_eq!(rename_window("s", "x").unwrap_err(), "RMUX target `s` is not a window target");
    match kill_session("s").unwrap() {
        Command::KillSession { session, kill_all_except_target, clear_alerts } => {
            assert_eq!(session.as_str(), "s");
            assert!(!kill_all_except_target && !clear_alerts);
        }
        other => panic!("{other:?}"),
    }
    assert!(kill_session("").is_err());
    match kill_window("s:2").unwrap() {
        Command::KillWindow { window, kill_all_others } => {
            assert_eq!((window.session_name.as_str(), window.window_index), ("s", 2));
            assert!(!kill_all_others);
        }
        other => panic!("{other:?}"),
    }
    assert!(kill_window("s").is_err());
    match display_message(CURRENT_FORMAT) {
        Command::DisplayMessage { message, print } => {
            assert_eq!(message, "#{session_id}\u{241F}#{window_id}");
            assert!(print);
        }
        other => panic!("{other:?}"),
    }
    match list_windows_for_session(rmux_session_name("s").unwrap()) {
        Command::ListWindows { session } => assert_eq!(session.as_str(), "s"),
        other => panic!("{other:?}"),
    }
}

#[test]
fn commands_have_the_names_of_their_replies() {
    let entry = entry("work", 5);
    let away = CurrentTarget::default();
    for (command, name) in [
        (switch_to(&entry).unwrap(), "select-window"),
        (after_select(&entry, &away, true).unwrap().unwrap(), "switch-client"),
        (rename_session("a", "b").unwrap(), "rename-session"),
        (rename_window("a:1", "b").unwrap(), "rename-window"),
        (kill_session("a").unwrap(), "kill-session"),
        (kill_window("a:1").unwrap(), "kill-window"),
        (display_message("x"), "display-message"),
        (list_windows_for_session(rmux_session_name("a").unwrap()), "list-windows"),
    ] {
        assert_eq!(command.name(), name);
    }
}

#[test]
fn replies_are_held_against_what_is_expected() {
    assert!(expect_response(Reply::Other("kill-window".to_string()), "kill-window").is_ok());
    assert_eq!(
        expect_response(Reply::Other("kill-pane".to_string()), "kill-window").unwrap_err(),
        "RMUX daemon sent `kill-pane` response for `kill-window` request"
    );
    assert_eq!(
        expect_response(Reply::Rejected("session not found: x".to_string()), "kill-window")
            .unwrap_err(),
        "session not found: x"
    );
    assert!(expect_response(Reply::DisplayMessage(None), "display-message").is_ok());
    assert_eq!(
        unexpected_response("list-windows", &Reply::Rejected("x".to_string())),
        "RMUX daemon sent `error` response for `list-windows` request"
    );
}

#[test]
fn windows_are_read_from_their_listing() {
    let windows = listed_windows(Reply::ListWindows(vec![window("a"), window("b")])).unwrap();
    assert_eq!(windows.len(), 2);
    assert_eq!(windows[1].name.as_deref(), Some("b"));
    assert_eq!(
        listed_windows(Reply::DisplayMessage(None)).unwrap_err(),
        "RMUX daemon sent `display-message` response for `list-windows` request"
    );
    assert_eq!(listed_windows(Reply::Rejected("no".to_string())).unwrap_err(), "no");
}

#[test]
fn printed_messages_are_decoded() {
    let bytes = "$1\u{241F}@2\n".as_bytes().to_vec();
    assert_eq!(display_output(Reply::DisplayMessage(Some(bytes))).unwrap(), "$1\u{241F}@2\n");
    assert_eq!(
        display_output(Reply::DisplayMessage(Some(vec![b'a', 0xff, b'b']))).unwrap(),
        "a\u{fffd}b"
    );
    assert_eq!(
        display_output(Reply::DisplayMessage(None)).unwrap_err(),
        "RMUX display-message returned no output"
    );
    assert_eq!(
        display_output(Reply::ListWindows(Vec::new())).unwrap_err(),
        "RMUX daemon sent `list-windows` response for `display-message` request"
    );
    assert_eq!(display_output(Reply::Rejected("no".to_string())).unwrap_err(), "no");
}

fn ids(target: &CurrentTarget) -> (Option<&str>, Option<&str>) {
    (target.session_id.as_deref(), target.window_id.as_deref())
}

#[test]
fn the_current_target_is_read() {
    assert_eq!(SEP, '\u{241F}');
    let bytes = "  $1\u{241F}@2\n".as_bytes().to_vec();
    assert_eq!(
        ids(&current_target(true, Some(Reply::DisplayMessage(Some(bytes.clone()))))),
        (Some("$1"), Some("@2"))
    );
    assert_eq!(
        ids(&current_target(false, Some(Reply::DisplayMessage(Some(bytes))))),
        (None, None)
    );
    assert_eq!(ids(&current_target(true, None)), (None, None));
    assert_eq!(ids(&current_target(true, Some(Reply::DisplayMessage(None)))), (None, None));
    assert_eq!(ids(&target_from_output("$1")), (Some("$1"), None));
    assert_eq!(ids(&target_from_output("")), (Some(""), None));
    assert_eq!(ids(&target_from_output("a\u{241F}b\u{241F}c")), (Some("a"), Some("b")));
    for (session, window) in [("$1", "@2"), ("a b ", " c d"), ("", "@2"), ("$1", ""), ("", "")] {
        for end in ["", "\n", " \r\n"] {
            let output = format!("{session}\u{241F}{window}{end}");
            assert_eq!(ids(&target_from_output(&output)), (Some(session), Some(window)));
        }
    }
}

#[test]
fn switching_selects_and_goes_on() {
    let entry = entry("work", 5);
    match switch_to(&entry).unwrap() {
        Command::SelectWindow { window } => {
            assert_eq!((window.session_name.as_str(), window.window_index), ("work", 5));
        }
        other => panic!("{other:?}"),
    }
    let here = CurrentTarget { session_id: Some("$4".to_string()), window_id: None };
    let there = CurrentTarget { session_id: Some("$5".to_string()), window_id: None };
    assert!(after_select(&entry, &here, true).unwrap().is_none());
    assert!(after_select(&entry, &here, false).unwrap().is_none());
    match after_select(&entry, &there, true).unwrap() {
        Some(Command::SwitchClient { target }) => assert_eq!(target, "work:5"),
        other => panic!("{other:?}"),
    }
    for current in [there, CurrentTarget::default()] {
        assert_eq!(
            after_select(&entry, &current, false).unwrap_err(),
            "run inside RMUX to switch clients"
        );
    }
}

#[test]
fn switching_refuses_an_entry_without_a_session_name() {
    assert_eq!(
        switch_to(&entry("", 0)).unwrap_err(),
        "invalid RMUX session name ``: invalid session name: session names must be non-empty"
    );
}
