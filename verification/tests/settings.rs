use std::time::Duration;

use repo_scan::settings::{FetchSettings, LaunchSpec, OpenInSettings, WatchSettings};

#[test]
fn the_fetch_defaults_are_the_documented_ones() {
    let settings = FetchSettings::default();

    assert_eq!(settings.concurrency(), 4);
    assert_eq!(settings.timeout(), Duration::from_secs(60));
    assert_eq!(settings.min_interval(), Some(Duration::from_secs(300)));
    assert!(settings.prune, "a dead tracking ref must not survive");
    assert!(settings.all_remotes);
}

#[test]
fn a_hand_edited_concurrency_is_clamped_at_both_ends() {
    let low = FetchSettings {
        concurrency: 0,
        ..FetchSettings::default()
    };
    let high = FetchSettings {
        concurrency: 1_000,
        ..FetchSettings::default()
    };

    assert_eq!(low.concurrency(), 1, "zero would fetch nothing at all");
    assert_eq!(high.concurrency(), 16);
}

#[test]
fn a_hand_edited_timeout_is_clamped_at_both_ends() {
    let zero = FetchSettings {
        timeout_seconds: 0,
        ..FetchSettings::default()
    };
    let forever = FetchSettings {
        timeout_seconds: 86_400,
        ..FetchSettings::default()
    };

    assert_eq!(zero.timeout(), Duration::from_secs(5));
    assert_eq!(forever.timeout(), Duration::from_secs(600));
}

#[test]
fn a_zero_repeat_guard_means_no_guard_rather_than_a_floor() {
    let off = FetchSettings {
        min_interval_seconds: 0,
        ..FetchSettings::default()
    };

    assert_eq!(off.min_interval(), None);
}

#[test]
fn the_defaults_name_an_editor_everywhere_and_a_terminal_on_windows() {
    let defaults = OpenInSettings::default();

    assert_eq!(defaults.editor.program, "code");
    let windows = std::path::MAIN_SEPARATOR == '\\';
    assert_eq!(defaults.terminal.program.is_empty(), !windows);
}

#[test]
fn the_platform_defaults_are_exactly_these() {
    let windows = OpenInSettings::for_platform(true);
    assert_eq!(windows.editor, LaunchSpec { program: "code".into(), args: vec!["{path}".into()] });
    assert_eq!(
        windows.terminal,
        LaunchSpec { program: "wt.exe".into(), args: vec!["-d".into(), "{path}".into()] }
    );

    let elsewhere = OpenInSettings::for_platform(false);
    assert_eq!(elsewhere.editor, windows.editor);
    assert_eq!(elsewhere.terminal, LaunchSpec::none());
}

#[test]
fn a_launch_spec_copies_its_arguments_in_order() {
    let spec = LaunchSpec::new("wt.exe", &["-d", "{path}"]);

    assert_eq!(spec.program, "wt.exe");
    assert_eq!(spec.args, vec!["-d".to_string(), "{path}".to_string()]);
}

#[test]
fn the_watch_values_are_floored_and_not_capped() {
    let defaults = WatchSettings::default();
    assert!(defaults.enabled);
    assert_eq!(defaults.debounce(), Duration::from_millis(400));
    assert_eq!(defaults.poll_interval(), Duration::from_secs(60));

    let zero = WatchSettings {
        enabled: true,
        debounce_ms: 0,
        poll_seconds: 0,
    };
    assert_eq!(zero.debounce(), Duration::from_millis(100));
    assert_eq!(zero.poll_interval(), Duration::from_secs(5));

    let long = WatchSettings {
        enabled: false,
        debounce_ms: 10_000,
        poll_seconds: 3_600,
    };
    assert_eq!(long.debounce(), Duration::from_millis(10_000));
    assert_eq!(long.poll_interval(), Duration::from_secs(3_600));
}

#[test]
fn a_concurrency_inside_the_range_is_kept() {
    let two = FetchSettings {
        concurrency: 2,
        ..FetchSettings::default()
    };
    assert_eq!(two.concurrency(), 2);
    let sixteen = FetchSettings {
        concurrency: 16,
        ..FetchSettings::default()
    };
    assert_eq!(sixteen.concurrency(), 16);
}
