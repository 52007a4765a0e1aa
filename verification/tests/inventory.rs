use rmux_jump::inventory::{
    active_pane, build_entry, load_entries, load_window_runtime_info, pane_is_wanted,
    screen_preview, session_names, wanted_panes, window_info, DiscoveredPane, ListedPane,
    PaneDetail, SessionInfo, SessionListing, WindowKey, WindowListing, WindowRuntimeInfo,
};
use rmux_jump::listing::print_targets;
use rmux_jump::model::{Activity, Entry};
use rmux_jump::options::LoadRequest;
use rmux_jump::rmux::ListedWindow;
use rmux_jump::table::Table;

fn pane(session: &str, session_id: u32, window_index: u32, pane_id: u32) -> DiscoveredPane {
    DiscoveredPane {
        session_name: session.to_string(),
        session_id,
        window_index,
        pane_id,
        working_directory: None,
    }
}

fn listing(index: u32, name: Option<&str>, active: bool, panes: Vec<(u32, bool)>) -> WindowListing {
    WindowListing {
        window: ListedWindow {
            window_index: index,
            window_id: format!("@{index}"),
            name: name.map(str::to_string),
            active,
        },
        panes: panes.into_iter().map(|(id, active)| ListedPane { id, active }).collect(),
    }
}

fn sessions() -> Vec<SessionListing> {
    vec![
        SessionListing {
            name: "a".to_string(),
            windows: vec![
                listing(0, Some("vim"), true, vec![(1, false), (2, true), (3, true)]),
                listing(1, None, false, vec![(4, true)]),
                listing(2, Some("none"), false, vec![(5, false)]),
            ],
        },
        SessionListing {
            name: "b".to_string(),
            windows: vec![listing(0, Some("top"), true, vec![(6, true)])],
        },
    ]
}

fn panes() -> Vec<DiscoveredPane> {
    vec![
        pane("a", 7, 0, 1),
        pane("a", 7, 0, 2),
        pane("b", 8, 0, 6),
        pane("a", 7, 1, 4),
        pane("a", 7, 2, 5),
        pane("c", 9, 0, 1),
    ]
}

fn detail(screen: Result<&str, &str>) -> PaneDetail {
    PaneDetail {
        session: None,
        screen: screen.map(str::to_string).map_err(str::to_string),
    }
}

#[test]
fn each_session_is_asked_for_once() {
    assert_eq!(session_names(&panes()), vec!["a", "b", "c"]);
    assert!(session_names(&Vec::new()).is_empty());
}

#[test]
fn the_first_active_pane_counts() {
    let pane = |id, active| ListedPane { id, active };
    assert_eq!(active_pane(&vec![pane(1, false), pane(2, true), pane(3, true)]), Some(2));
    assert_eq!(active_pane(&vec![pane(1, false)]), None);
    assert_eq!(active_pane(&Vec::new()), None);
}

#[test]
fn windows_without_a_name_are_called_windows() {
    let info = window_info(&listing(1, None, false, vec![(4, true)]));
    assert_eq!(info.id, "@1");
    assert_eq!(info.name, "window");
    assert!(!info.active);
    assert_eq!(info.active_pane_id, Some(4));
    assert_eq!(window_info(&listing(1, Some(""), true, Vec::new())).name, "");
}

#[test]
fn windows_are_known_by_session_and_place() {
    let table = load_window_runtime_info(&sessions());
    let get = |session: &str, window_index: u32| {
        table.get(&WindowKey { session_name: session.to_string(), window_index })
    };
    assert_eq!(get("a", 0).unwrap().name, "vim");
    assert_eq!(get("b", 0).unwrap().name, "top");
    assert!(get("b", 1).is_none());
    assert!(get("c", 0).is_none());

    let twice = vec![SessionListing {
        name: "a".to_string(),
        windows: vec![
            listing(0, Some("first"), true, Vec::new()),
            listing(0, Some("second"), true, Vec::new()),
        ],
    }];
    let table = load_window_runtime_info(&twice);
    let key = WindowKey { session_name: "a".to_string(), window_index: 0 };
    assert_eq!(table.get(&key).unwrap().name, "second");
}

#[test]
fn active_panes_are_wanted() {
    let table = load_window_runtime_info(&sessions());
    let panes = panes();
    assert_eq!(wanted_panes(&panes, &table, true), vec![1, 2, 3]);
    assert_eq!(wanted_panes(&panes, &table, false), vec![1, 2]);
    assert!(pane_is_wanted(&panes[3], &table, true));
    assert!(!pane_is_wanted(&panes[3], &table, false));
    assert!(!pane_is_wanted(&panes[5], &table, true));
}

#[test]
fn entries_are_built_from_what_is_known() {
    let window = WindowRuntimeInfo {
        id: "@12".to_string(),
        name: "logs".to_string(),
        active: true,
        active_pane_id: Some(30),
    };
    let mut pane = pane("work", 3, 12, 30);
    pane.working_directory = Some("/srv".to_string());
    let detail = PaneDetail {
        session: Some(SessionInfo { attached_clients: 2, generation: 99 }),
        screen: Ok("one\ntw\u{7}o\nthree  \n".to_string()),
    };
    let entry = build_entry(&pane, &window, &detail, 2);
    assert_eq!(entry.session_id, "$3");
    assert_eq!(entry.session_name, "work");
    assert!(entry.session_attached);
    assert_eq!(entry.session_activity, 99);
    assert_eq!(entry.window_id, "@12");
    assert_eq!(entry.window_index, "12");
    assert_eq!(entry.window_index_num, 12);
    assert_eq!(entry.window_name, "logs");
    assert!(entry.window_active);
    assert_eq!(entry.pane_id, "%30");
    assert_eq!(entry.pane_id_num, 30);
    assert_eq!(entry.pane_current_path, "/srv");
    assert_eq!(entry.preview, vec!["tw o", "three  "]);
    assert_eq!(entry.activity, Activity::Unknown);
    assert_eq!(entry.activity_fingerprint, "tw o\nthree");

    let unknown = PaneDetail { session: None, screen: Err("gone".to_string()) };
    pane.working_directory = None;
    pane.session_id = u32::MAX;
    let entry = build_entry(&pane, &window, &unknown, 2);
    assert_eq!(entry.session_id, format!("${}", u32::MAX));
    assert!(!entry.session_attached);
    assert_eq!(entry.session_activity, 0);
    assert_eq!(entry.pane_current_path, "-");
    assert_eq!(entry.preview, vec!["failed to capture pane: gone"]);

    let detached = PaneDetail {
        session: Some(SessionInfo { attached_clients: 0, generation: 1 }),
        screen: Ok(String::new()),
    };
    let entry = build_entry(&pane, &window, &detached, 0);
    assert!(!entry.session_attached);
    assert!(entry.preview.is_empty());
}

#[test]
fn a_preview_has_one_line_at_least() {
    assert_eq!(screen_preview(&Ok("a\nb".to_string()), 0), vec!["b"]);
    assert_eq!(screen_preview(&Ok("a\nb".to_string()), 5), vec!["a", "b"]);
}

#[test]
fn entries_are_loaded_for_the_wanted_panes() {
    let table = load_window_runtime_info(&sessions());
    let panes = panes();
    let request = LoadRequest { all_windows: true, preview_lines: 10 };
    let details = vec![detail(Ok("x")), detail(Ok("y")), detail(Err("no"))];
    let entries = load_entries(&panes, &table, request, &details).unwrap();
    let ids: Vec<&str> = entries.iter().map(|entry| entry.pane_id.as_str()).collect();
    assert_eq!(ids, vec!["%2", "%6", "%4"]);
    assert_eq!(entries[1].preview, vec!["y"]);
    assert_eq!(entries[2].window_name, "window");
    assert_eq!(entries[2].preview, vec!["failed to capture pane: no"]);
    let empty = load_entries(&Vec::new(), &table, request, &Vec::new());
    assert_eq!(empty.unwrap_err(), "no RMUX sessions/windows found");
    let nothing = load_entries(&panes, &Table::new(), request, &Vec::new());
    assert_eq!(nothing.unwrap_err(), "no RMUX sessions/windows found");
}

#[test]
fn the_short_list_is_the_active_windows() {
    let table = load_window_runtime_info(&sessions());
    let few = LoadRequest { all_windows: false, preview_lines: 10 };
    let all = LoadRequest { all_windows: true, preview_lines: 10 };
    let short = load_entries(&panes(), &table, few, &vec![detail(Ok("x")), detail(Ok("y"))]);
    let details = vec![detail(Ok("x")), detail(Ok("y")), detail(Ok("z"))];
    let mut active = load_entries(&panes(), &table, all, &details).unwrap();
    active.retain(|entry| entry.window_active);
    assert_eq!(format!("{:?}", short.unwrap()), format!("{active:?}"));
    assert_eq!(active.len(), 2);
}

fn listed_entries() -> Vec<Entry> {
    let table = load_window_runtime_info(&sessions());
    let request = LoadRequest { all_windows: true, preview_lines: 10 };
    let details = vec![detail(Ok("one\n \ntwo\n")), detail(Ok("")), detail(Ok("z\ny\nx"))];
    load_entries(&panes(), &table, request, &details).unwrap()
}

#[test]
fn the_short_list_has_a_line_per_window() {
    let expected = vec!["a\t0:vim\t-\ttwo", "b\t0:top\t-\t<no output>", "a\t1:window\t-\tx"];
    assert_eq!(print_targets(&listed_entries(), 0), expected);
    assert_eq!(print_targets(&listed_entries(), 1), expected);
}

#[test]
fn the_long_list_shows_more_lines() {
    assert_eq!(
        print_targets(&listed_entries(), 2),
        vec![
            "a\t0:vim\t-",
            "  one",
            "  two",
            "b\t0:top\t-",
            "  <no output>",
            "a\t1:window\t-",
            "  y",
            "  x",
        ]
    );
    assert!(print_targets(&Vec::new(), 2).is_empty());
}
