use rmux_jump::model::{Activity, CurrentTarget, Entry};
use rmux_jump::options::{
    poll_timeout, refresh_due, refresh_interval, Cli, DEFAULT_ACTIVITY_INTERVAL_MS,
    DEFAULT_ACTIVITY_SAMPLES,
};
use rmux_jump::picker::App;
use rmux_jump::screen::{
    highlight_style, render_footer, render_header, render_list, render_preview, window_item_lines,
    Color, Footer, Line, Style, HIGHLIGHT_SYMBOL,
};
use rmux_jump::sessions::{active_place, group_sessions, session_place, window_place};

fn entry(session: &str, attached: bool, activity: u64, index: &str) -> Entry {
    Entry {
        session_id: format!("${session}"),
        session_name: session.to_string(),
        session_attached: attached,
        session_activity: activity,
        window_id: format!("@{session}{index}"),
        window_index: index.to_string(),
        window_index_num: index.parse().unwrap_or(0),
        window_name: "shell".to_string(),
        window_active: false,
        pane_id: "%5".to_string(),
        pane_id_num: 5,
        pane_current_path: "/home".to_string(),
        preview: vec!["first".to_string(), " ".to_string(), "last".to_string()],
        activity: Activity::Unknown,
        activity_fingerprint: String::new(),
    }
}

fn app(entries: Vec<Entry>) -> App {
    let options = Cli { inline_lines: 2, refresh_seconds: 12, ..Cli::default() }.options();
    App::load(&options, entries, CurrentTarget::default()).0
}

fn text(line: &Line) -> String {
    line.spans.iter().map(|span| span.text.as_str()).collect()
}

const PLAIN: Style = Style { fg: None, bg: None, bold: false };

#[test]
fn sessions_are_ordered() {
    let entries = vec![
        entry("zeta", false, 9, "0"),
        entry("beta", true, 1, "2"),
        entry("alpha", true, 1, "0"),
        entry("beta", true, 1, "10"),
        entry("busy", true, 5, "0"),
        entry("beta", true, 1, "x"),
        entry("beta", true, 1, "1"),
    ];
    let sessions = group_sessions(&entries);
    let names: Vec<&str> = sessions.iter().map(|session| session.name.as_str()).collect();
    assert_eq!(names, vec!["busy", "alpha", "beta", "zeta"]);
    assert_eq!(sessions[2].window_indices, vec![6, 1, 3, 5]);
    assert_eq!(session_place(&sessions, &"$beta".to_string()), Some(2));
    assert_eq!(session_place(&sessions, &"$none".to_string()), None);
    let windows = &sessions[2].window_indices;
    assert_eq!(window_place(windows, &entries, &"@beta10".to_string()), Some(2));
    assert_eq!(window_place(windows, &entries, &"@alpha0".to_string()), None);
    assert_eq!(active_place(windows, &entries), None);
    assert!(group_sessions(&Vec::new()).is_empty());
}

#[test]
fn the_header_tells_what_there_is() {
    let mut entries = vec![
        entry("one", true, 0, "0"),
        entry("one", true, 0, "1"),
        entry("two", true, 0, "0"),
        entry("xtra", false, 0, "0"),
        entry("yet", true, 0, "0"),
    ];
    entries[1].activity = Activity::Active;
    let mut app = app(entries);
    app.current.session_id = Some("$two".to_string());
    let lines = render_header(&app);
    assert_eq!(lines.len(), 3);
    assert_eq!(
        text(&lines[0]),
        "rmux-jump  4 sessions · 5 windows · 1 running  → one (2)"
    );
    assert!(lines[0].spans[0].style.bold);
    assert_eq!(lines[0].spans[2].style.fg, Some(Color::Cyan));
    assert_eq!(text(&lines[1]), "Sessions  one   two*   yet   xtra  ");
    assert_eq!(lines[1].spans[1].style, highlight_style());
    let green = Style { fg: Some(Color::Green), ..PLAIN };
    assert_eq!(lines[1].spans[3].style, Style { bold: true, ..green });
    assert_eq!(lines[1].spans[5].style, green);
    assert_eq!(lines[1].spans[7].style, PLAIN);
    assert_eq!(
        text(&lines[2]),
        "h/l session  j/k window  enter switch  $/, rename ses/win  X/x kill ses/win  r refresh  q/esc quit  ·  auto 12s"
    );
    app.refresh_seconds = 0;
    assert!(text(&render_header(&app)[2]).ends_with("·  auto off"));
}

#[test]
fn an_empty_picker_is_drawn() {
    let app = app(Vec::new());
    let lines = render_header(&app);
    assert_eq!(text(&lines[0]), "rmux-jump  0 sessions · 0 windows · 0 running");
    assert_eq!(text(&lines[1]), "Sessions ");
    let list = render_list(&app);
    assert_eq!(list.title, "Windows");
    assert!(list.items.is_empty());
    assert_eq!(list.selected, None);
    let preview = render_preview(&app);
    assert_eq!(preview.len(), 1);
    assert_eq!(text(&preview[0]), "No RMUX targets found.");
}

#[test]
fn a_window_is_drawn_with_its_flags() {
    let mut app = app(vec![entry("one", true, 0, "7")]);
    let lines = window_item_lines(&app.entries[0], &app);
    assert_eq!(lines.len(), 3);
    assert_eq!(text(&lines[0]), "      7: shell  /home");
    assert_eq!(lines[0].spans[5].style, Style { bold: true, ..PLAIN });
    assert_eq!(text(&lines[1]), "    first");
    assert_eq!(text(&lines[2]), "    last");
    assert_eq!(lines[2].spans[0].style.fg, Some(Color::DarkGray));

    app.entries[0].activity = Activity::Active;
    app.entries[0].window_active = true;
    app.inline_lines = 0;
    let lines = window_item_lines(&app.entries[0], &app);
    assert_eq!(lines.len(), 1);
    assert_eq!(text(&lines[0]), "  ▸   7: shell  /home  running,focused");
    assert_eq!(lines[0].spans[5].style.fg, Some(Color::Cyan));

    app.current = CurrentTarget {
        session_id: Some("$one".to_string()),
        window_id: Some("@one7".to_string()),
    };
    let lines = window_item_lines(&app.entries[0], &app);
    assert_eq!(text(&lines[0]), "● ▸   7: shell  /home  here,running,focused");
    assert_eq!(lines[0].spans[5].style.fg, Some(Color::Green));
    assert_eq!(lines[0].spans[7].style.fg, Some(Color::Yellow));
}

#[test]
fn the_list_shows_the_selected_session() {
    let mut app = app(vec![entry("one", true, 0, "0"), entry("two", false, 0, "0")]);
    let list = render_list(&app);
    assert_eq!(list.title, "one · 1 window · attached");
    assert_eq!(list.items.len(), 1);
    assert_eq!(list.selected, Some(0));
    assert_eq!(HIGHLIGHT_SYMBOL, "> ");
    app.refresh(Ok((
        vec![
            entry("two", false, 0, "1"),
            entry("two", false, 0, "0"),
            entry("three", true, 0, "0"),
        ],
        CurrentTarget::default(),
    )));
    app.next_session();
    app.next_window();
    let list = render_list(&app);
    assert_eq!(list.title, "two · 2 windows");
    assert_eq!(list.selected, Some(1));
    assert!(text(&list.items[1][0]).starts_with("      1: "));
}

#[test]
fn the_preview_shows_the_selected_entry() {
    let app = app(vec![entry("one", true, 0, "3")]);
    let lines = render_preview(&app);
    let texts: Vec<String> = lines.iter().map(text).collect();
    assert_eq!(
        texts,
        vec!["one  window 3:shell", "pane %5  path /home", "", "first", " ", "last"]
    );
    assert!(lines[0].spans[0].style.bold);
    assert_eq!(lines[1].spans[0].style.fg, Some(Color::DarkGray));
    assert_eq!(lines[4].spans[0].style, PLAIN);
}

fn prompt(footer: Footer) -> Line {
    match footer {
        Footer::Prompt(line) => line,
        Footer::Text(text) => panic!("{text}"),
    }
}

#[test]
fn the_footer_asks_and_tells() {
    let mut app = app(vec![entry("one", true, 0, "3")]);
    match render_footer(&app) {
        Footer::Text(text) => assert_eq!(text, "Run inside RMUX to switch clients."),
        other => panic!("{other:?}"),
    }
    app.status = Some("refreshed".to_string());
    match render_footer(&app) {
        Footer::Text(text) => assert_eq!(text, "refreshed"),
        other => panic!("{other:?}"),
    }
    app.begin_rename_window();
    app.rename_input('s');
    let line = prompt(render_footer(&app));
    assert_eq!(text(&line), "rename window \"shell\" → shells▏   enter save · esc cancel");
    assert_eq!(line.spans[2].style, Style { fg: Some(Color::Yellow), bg: None, bold: true });
    app.begin_rename_session();
    assert!(text(&prompt(render_footer(&app))).starts_with("rename session \"one\" → one"));
    app.begin_kill_window();
    let line = prompt(render_footer(&app));
    assert_eq!(text(&line), "kill window \"3: shell\"?   y confirm · n cancel");
    assert_eq!(line.spans[0].style.fg, Some(Color::Red));
    app.begin_kill_session();
    assert!(text(&prompt(render_footer(&app))).starts_with("kill session \"one\"?"));
}

#[test]
fn defaults_of_the_command_line() {
    let cli = Cli::default();
    assert_eq!(cli.preview_lines, 10);
    assert_eq!(cli.inline_lines, 0);
    assert_eq!(cli.refresh_seconds, 5);
    assert_eq!(cli.activity_samples, DEFAULT_ACTIVITY_SAMPLES);
    assert_eq!(cli.activity_interval_ms, DEFAULT_ACTIVITY_INTERVAL_MS);
    assert_eq!((DEFAULT_ACTIVITY_SAMPLES, DEFAULT_ACTIVITY_INTERVAL_MS), (4, 300));
    assert!(!cli.all_windows && !cli.list && cli.window_lines.is_none());
    let preset = Cli { window_lines: Some(3), inline_lines: 9, preview_lines: 8, ..cli }.options();
    assert_eq!((preset.preview_lines, preset.inline_lines, preset.all_windows), (3, 0, true));
}

#[test]
fn all_windows_only_affects_the_list() {
    let few = Cli::default().options();
    let all = Cli { all_windows: true, ..Cli::default() }.options();
    assert_eq!(few.picker_request(), all.picker_request());
    assert!(few.picker_request().all_windows);
    assert!(!few.list_request().all_windows);
    assert!(all.list_request().all_windows);
    assert_eq!(few.list_request().preview_lines, 10);
}

#[test]
fn the_picker_wakes_for_its_refreshes() {
    assert_eq!(refresh_interval(5), Some(5_000_000_000));
    assert_eq!(refresh_interval(u64::MAX), Some(u64::MAX as u128 * 1_000_000_000));
    assert_eq!(poll_timeout(None, 7), 250_000_000);
    assert_eq!(poll_timeout(Some(5_000_000_000), 0), 250_000_000);
    assert_eq!(poll_timeout(Some(5_000_000_000), 4_900_000_000), 100_000_000);
    assert_eq!(poll_timeout(Some(5_000_000_000), 5_000_000_000), 0);
    assert_eq!(poll_timeout(Some(5_000_000_000), u128::MAX), 0);
    assert!(refresh_due(Some(5_000_000_000), 5_000_000_000));
    assert!(!refresh_due(Some(5_000_000_000), 4_999_999_999));
}
