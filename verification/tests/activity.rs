use rmux_jump::activity::{
    fingerprints_of, merge_probe, spawn_activity_probe, ActivityProbe, ProbeStep,
};
use rmux_jump::model::{Activity, Entry};
use rmux_jump::options::{Cli, Options};
use rmux_jump::preview::{
    activity_fingerprint_of, clean_line, last_lines, preview_from_text, tail_non_empty,
};
use rmux_jump::table::{PaneMap, Table};

fn entry(pane: u32, fingerprint: &str) -> Entry {
    Entry {
        session_id: "$0".to_string(),
        session_name: "work".to_string(),
        session_attached: false,
        session_activity: 0,
        window_id: format!("@{pane}"),
        window_index: pane.to_string(),
        window_index_num: pane,
        window_name: "shell".to_string(),
        window_active: false,
        pane_id: format!("%{pane}"),
        pane_id_num: pane,
        pane_current_path: "-".to_string(),
        preview: Vec::new(),
        activity: Activity::Unknown,
        activity_fingerprint: fingerprint.to_string(),
    }
}

fn options(samples: usize) -> Options {
    Cli { activity_samples: samples, activity_interval_ms: 40, ..Cli::default() }.options()
}

/// Runs a probe on the given captures, and counts what it asked for.
fn run(mut probe: ActivityProbe, captures: &[&[Option<&str>]]) -> (ActivityProbe, usize, usize) {
    let mut sleeps = 0;
    let mut taken = 0;
    loop {
        match probe.step() {
            ProbeStep::Sleep(ms) => {
                assert_eq!(ms, 40);
                sleeps += 1;
                probe.slept();
            }
            ProbeStep::Capture(k, lines) => {
                assert_eq!(lines, 10);
                assert_eq!(probe.pane(k).session_name, "work");
                let screen = captures[sleeps - 1][k];
                probe.observe(&screen.map(|text| vec![text.to_string()]));
                taken += 1;
            }
            ProbeStep::Finish => return (probe, sleeps, taken),
        }
    }
}

#[test]
fn probes_need_entries_and_samples() {
    let entries = vec![entry(1, "")];
    assert!(spawn_activity_probe(&entries, &options(0)).is_none());
    assert!(spawn_activity_probe(&entries, &options(1)).is_none());
    assert!(spawn_activity_probe(&entries, &options(2)).is_some());
    assert!(spawn_activity_probe(&Vec::new(), &options(4)).is_none());
}

#[test]
fn a_change_between_captures_is_activity() {
    let entries = vec![entry(1, "same"), entry(2, "start"), entry(3, "back"), entry(4, "lost")];
    let probe = spawn_activity_probe(&entries, &options(3)).unwrap();
    assert_eq!(probe.pane(2).pane_id, "%3");
    assert_eq!(probe.pane(2).pane_id_num, 3);
    let (probe, sleeps, taken) = run(
        probe,
        &[
            &[Some("same"), Some("start"), Some("forth"), None],
            &[Some("same  "), Some("end"), Some("back"), None],
        ],
    );
    assert_eq!((sleeps, taken), (2, 8));
    let result = probe.finish();
    let activity: Vec<Activity> = entries
        .iter()
        .map(|entry| *result.activity.get(&entry.pane_id).unwrap())
        .collect();
    assert_eq!(
        activity,
        vec![Activity::Idle, Activity::Active, Activity::Active, Activity::Active]
    );
    let latest: Vec<&String> = entries
        .iter()
        .map(|entry| result.fingerprints.get(&entry.pane_id).unwrap())
        .collect();
    assert_eq!(latest, vec!["same", "end", "back", ""]);

    let mut merged = vec![entry(2, "start"), entry(9, "kept")];
    merge_probe(&mut merged, &result);
    assert_eq!(merged[0].activity, Activity::Active);
    assert_eq!(merged[0].activity_fingerprint, "end");
    assert_eq!(merged[1].activity, Activity::Unknown);
    assert_eq!(merged[1].activity_fingerprint, "kept");
}

#[test]
fn a_pane_that_is_shown_twice_has_one_history() {
    let entries = vec![entry(1, "old"), entry(1, "new")];
    let probe = spawn_activity_probe(&entries, &options(2)).unwrap();
    let (probe, _, taken) = run(probe, &[&[Some("new"), Some("new")]]);
    assert_eq!(taken, 2);
    assert_eq!(probe.finish().activity.get(&"%1".to_string()), Some(&Activity::Idle));
}

#[test]
fn the_last_fingerprint_of_a_pane_counts() {
    let map = fingerprints_of(&vec![entry(1, "a"), entry(2, "b"), entry(1, "c")]);
    assert_eq!(map.get(&"%1".to_string()), Some(&"c".to_string()));
    assert_eq!(map.get(&"%2".to_string()), Some(&"b".to_string()));
    assert_eq!(map.get(&"%3".to_string()), None);
}

#[test]
fn tables_keep_the_last_value() {
    let mut map: PaneMap<u32> = Table::new();
    assert_eq!(map.get(&"x".to_string()), None);
    map.insert("x".to_string(), 1);
    map.insert("y".to_string(), 2);
    map.insert("x".to_string(), 3);
    assert_eq!(map.get(&"x".to_string()), Some(&3));
    assert_eq!(map.get(&"y".to_string()), Some(&2));
}

fn lines(texts: &[&str]) -> Vec<String> {
    texts.iter().map(|text| text.to_string()).collect()
}

#[test]
fn a_change_anywhere_changes_the_fingerprint() {
    let preview = lines(&["", "one", "", "two", ""]);
    let fingerprint = activity_fingerprint_of(&preview);
    assert_eq!(fingerprint, "\none\n\ntwo");
    for k in 0..preview.len() {
        let mut changed = preview.clone();
        changed[k] = "other".to_string();
        assert_ne!(activity_fingerprint_of(&changed), fingerprint);
        changed[k] = format!("{}  ", preview[k]);
        if k == preview.len() - 1 {
            assert_eq!(activity_fingerprint_of(&changed), fingerprint);
        }
    }
    let mut longer = preview;
    longer.push(" \t".to_string());
    assert_eq!(activity_fingerprint_of(&longer), fingerprint);
}

#[test]
fn text_that_moves_below_blank_lines_is_noticed() {
    assert_eq!(activity_fingerprint_of(&lines(&["a"])), "a");
    assert_eq!(activity_fingerprint_of(&lines(&["", "a"])), "\na");
    assert_eq!(activity_fingerprint_of(&lines(&["", "", "a"])), "\n\na");
    assert_eq!(activity_fingerprint_of(&lines(&["", ""])), "");
    assert_eq!(activity_fingerprint_of(&Vec::new()), "");
}

#[test]
fn control_characters_are_blanked() {
    assert_eq!(clean_line("a\tb\u{1b}[0m\u{85}\r"), "a\tb [0m  ");
    assert_eq!(clean_line(""), "");
}

#[test]
fn the_last_lines_are_kept() {
    assert_eq!(last_lines(lines(&["a", "b", "c"]), 2), vec!["b", "c"]);
    assert_eq!(last_lines(lines(&["a", "b", "c"]), 3), vec!["a", "b", "c"]);
    assert!(last_lines(lines(&["a"]), 0).is_empty());
    assert_eq!(preview_from_text("a\r\nb\u{0}\nc", 2), vec!["b ", "c"]);
    assert!(tail_non_empty(&lines(&["a"]), 0).is_empty());
    assert_eq!(tail_non_empty(&lines(&[" ", "a", "\t"]), 9), vec!["a"]);
}
