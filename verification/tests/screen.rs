use window_buttons::screen::{
    select_display_filter, DisplayFilter, OutputCandidate, OutputInfo, OutputMatcher,
};

fn output(name: &str, model: &str, make: &str, has_logical: bool) -> OutputInfo {
    OutputInfo {
        name: name.to_string(),
        model: model.to_string(),
        make: make.to_string(),
        has_logical,
    }
}

#[test]
fn should_display_rules() {
    let all = DisplayFilter::ShowAll;
    assert!(all.should_display("DP-1"));
    assert!(all.should_display(""));
    let only = DisplayFilter::Only("DP-1".to_string());
    assert!(only.should_display("DP-1"));
    assert!(!only.should_display("DP-2"));
}

#[test]
fn compare_matches_model_and_manufacturer() {
    let out = output("DP-1", "U2720Q", "DEL", true);
    let r = OutputMatcher::compare(
        &Some("U2720Q".to_string()),
        &Some("DEL".to_string()),
        &out,
        true,
    );
    assert!(r.is_full());
    assert_eq!(r, OutputMatcher { geometry: true, model: true, manufacturer: true });
}

#[test]
fn compare_without_logical_configuration_matches_nothing() {
    let out = output("DP-1", "U2720Q", "DEL", false);
    let r = OutputMatcher::compare(
        &Some("U2720Q".to_string()),
        &Some("DEL".to_string()),
        &out,
        true,
    );
    assert_eq!(r, OutputMatcher { geometry: false, model: false, manufacturer: false });
}

#[test]
fn absent_monitor_string_matches_only_empty() {
    let empty_strings = output("DP-1", "", "", true);
    let r = OutputMatcher::compare(&None, &None, &empty_strings, false);
    assert!(r.model && r.manufacturer && !r.geometry);
    let named = output("DP-1", "U2720Q", "DEL", true);
    let r = OutputMatcher::compare(&None, &None, &named, true);
    assert!(!r.model && !r.manufacturer && r.geometry);
}

#[test]
fn single_output_shows_all() {
    let candidates = vec![OutputCandidate {
        name: "DP-1".to_string(),
        flags: OutputMatcher { geometry: true, model: true, manufacturer: true },
    }];
    assert!(matches!(
        select_display_filter(false, &candidates),
        DisplayFilter::ShowAll
    ));
}

#[test]
fn first_full_match_wins() {
    let candidates = vec![
        OutputCandidate {
            name: "DP-1".to_string(),
            flags: OutputMatcher { geometry: true, model: false, manufacturer: true },
        },
        OutputCandidate {
            name: "DP-2".to_string(),
            flags: OutputMatcher { geometry: true, model: true, manufacturer: true },
        },
    ];
    assert!(matches!(
        select_display_filter(false, &candidates),
        DisplayFilter::Only(name) if name == "DP-2"
    ));
}

#[test]
fn no_full_match_shows_all() {
    let candidates = vec![
        OutputCandidate {
            name: "DP-1".to_string(),
            flags: OutputMatcher { geometry: false, model: true, manufacturer: true },
        },
        OutputCandidate {
            name: "DP-2".to_string(),
            flags: OutputMatcher { geometry: true, model: false, manufacturer: true },
        },
    ];
    assert!(matches!(
        select_display_filter(false, &candidates),
        DisplayFilter::ShowAll
    ));
}

#[test]
fn configured_show_all_wins() {
    let candidates = vec![
        OutputCandidate {
            name: "DP-1".to_string(),
            flags: OutputMatcher { geometry: true, model: true, manufacturer: true },
        },
        OutputCandidate {
            name: "DP-2".to_string(),
            flags: OutputMatcher { geometry: true, model: true, manufacturer: true },
        },
    ];
    assert!(matches!(
        select_display_filter(true, &candidates),
        DisplayFilter::ShowAll
    ));
}
