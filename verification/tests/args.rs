use moreland::daemon::args::{classify, parse_args, Args, Flag, Outcome};
use moreland::daemon::input::TouchMode;
use moreland::daemon::session::Config;

fn words(line: &str) -> Vec<String> {
    line.split(' ').filter(|w| !w.is_empty()).map(String::from).collect()
}

fn run(line: &str) -> Args {
    match parse_args(&words(line)) {
        Outcome::Run(args) => args,
        other => panic!("expected a run, got {other:?}"),
    }
}

#[test]
fn defaults() {
    let config = Config::default();
    assert_eq!(config.resolution, None);
    assert_eq!(config.max_width, 1920);
    assert_eq!(config.fps, 90);
    assert_eq!(config.bitrate_kbps, 20_000);
    assert_eq!((config.position_x, config.position_y), (0, 1080));
    assert_eq!(config.output_name, "moreland");
    assert_eq!(config.port, 27183);
    assert_eq!(config.brightness, None);
    assert_eq!(config.rotation, 0);
    assert!(config.enable_touch && !config.paint_cursor && !config.stats && !config.json_output);
    assert_eq!(config.touch_mode, TouchMode::Screen);

    let args = run("");
    assert_eq!(args.config.fps, 90);
    assert!(!args.once && !args.explicit_output_name && !args.half_resolution);
    assert_eq!(args.seconds, None);
    assert!(args.pointer_sensitivity.is_none());
}

#[test]
fn plain_flags() {
    let args = run(
        "--once --stats --json --show-cursor --no-touch --native --touch-mode mouse --fps 120 \
         --bitrate 8000 --position -200 --position-y 40 --output-name desk --seconds 15",
    );
    assert!(args.once && args.explicit_output_name);
    assert_eq!(args.seconds, Some(15));
    let c = args.config;
    assert!(c.stats && c.json_output && c.paint_cursor && !c.enable_touch);
    assert_eq!(c.max_width, u32::MAX);
    assert_eq!(c.touch_mode, TouchMode::Pointer);
    assert_eq!((c.fps, c.bitrate_kbps), (120, 8000));
    assert_eq!((c.position_x, c.position_y), (-200, 40));
    assert_eq!(c.output_name, "desk");
}

#[test]
fn malformed_numbers_fall_back() {
    let args = run("--fps fast --bitrate -1 --max-width 99999999999 --position x --seconds soon");
    assert_eq!(args.config.fps, 60);
    assert_eq!(args.config.bitrate_kbps, 20_000);
    assert_eq!(args.config.max_width, 1920);
    assert_eq!(args.config.position_x, 0);
    assert_eq!(args.seconds, None);
    assert!(args.config.stats);
    // A flag at the very end has no value.
    assert_eq!(run("--fps").config.fps, 60);
    assert!(!run("--output-name").explicit_output_name);
}

#[test]
fn resolution_needs_both_sides() {
    assert_eq!(run("--width 1280 --height 800").config.resolution, Some((1280, 800)));
    let half = run("--width 1280");
    assert_eq!(half.config.resolution, None);
    assert!(half.half_resolution);
    assert!(run("--height 5").half_resolution);
    assert_eq!(run("--height x --width y").config.resolution, Some((1920, 1200)));
}

#[test]
fn brightness_for_all_and_for_one() {
    let args = run("-b 40 --brightness RF8N50QRDNV=20 --brightness emulator=500 -b 70");
    assert_eq!(args.config.brightness, Some(70));
    assert_eq!(args.brightness_overrides.get("rf8n50qrdnv"), Some(&20));
    assert_eq!(args.brightness_overrides.get("emulator"), Some(&100));
    assert_eq!(args.brightness_overrides.get("RF8N50QRDNV"), None);

    let clamped = run("--brightness 500");
    assert_eq!(clamped.config.brightness, Some(100));

    let ignored = run("-b bright -b =30 -b S= --brightness");
    assert_eq!(ignored.config.brightness, None);
    assert_eq!(ignored.ignored_brightness, ["bright", "=30", "S=", ""]);
}

#[test]
fn rotation_for_all_and_for_one() {
    let args = run("--rotation 90 --rotation ABC=270 --rotation abc=180");
    assert_eq!(args.config.rotation, 90);
    assert_eq!(args.rotation_overrides.get("abc"), Some(&180));
    assert_eq!(args.rotation_overrides.entries.len(), 1);

    for bad in ["45", "ABC=45", "=90", "", "360", "-90"] {
        let mut line = vec!["--rotation".to_string()];
        line.push(bad.to_string());
        match parse_args(&line) {
            Outcome::BadRotation { raw, ignored } => {
                assert_eq!(raw, bad);
                assert!(ignored.is_empty());
            }
            other => panic!("{bad:?} gave {other:?}"),
        }
    }
}

#[test]
fn touch_modes() {
    assert_eq!(run("--touch-mode touchscreen").config.touch_mode, TouchMode::Screen);
    assert_eq!(run("--touch-mode pointer").config.touch_mode, TouchMode::Pointer);
    match parse_args(&words("--touch-mode stylus --once")) {
        Outcome::BadTouchMode { raw, .. } => assert_eq!(raw, "stylus"),
        other => panic!("got {other:?}"),
    }
}

#[test]
fn pointer_sensitivity_is_kept_as_given() {
    assert_eq!(
        run("--pointer-sensitivity 0.12").pointer_sensitivity.as_deref(),
        Some("0.12")
    );
}

#[test]
fn help_and_unknown_words() {
    assert!(matches!(parse_args(&words("--fps 30 -h --rotation 45")), Outcome::Help { .. }));
    assert!(matches!(parse_args(&words("--help")), Outcome::Help { .. }));
    let args = run("whatever --fps 30 --what");
    assert_eq!(args.config.fps, 30);
    assert_eq!(classify("--what"), Flag::Unknown);
    assert_eq!(classify("-b"), Flag::Brightness);
}

#[test]
fn values_are_taken_even_when_they_look_like_flags() {
    let args = run("--fps --once");
    assert_eq!(args.config.fps, 60);
    assert!(!args.once);
}

#[test]
fn passed_over_brightness_is_told_of_in_any_case() {
    match parse_args(&words("--brightness x -b 10 -b A=y --help -b z")) {
        Outcome::Help { ignored } => assert_eq!(ignored, ["x", "A=y"]),
        other => panic!("got {other:?}"),
    }
    match parse_args(&words("-b x --rotation 45")) {
        Outcome::BadRotation { raw, ignored } => {
            assert_eq!((raw.as_str(), ignored), ("45", vec!["x".to_string()]))
        }
        other => panic!("got {other:?}"),
    }
    match parse_args(&words("-b x --touch-mode pen")) {
        Outcome::BadTouchMode { raw, ignored } => {
            assert_eq!((raw.as_str(), ignored), ("pen", vec!["x".to_string()]))
        }
        other => panic!("got {other:?}"),
    }
}
