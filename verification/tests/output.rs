use moreland::daemon::hyprland::{
    hyprland_monitor_state, lua_string, monitors_from_list, monitors_from_rows, restore_hyprland_monitor_state,
    MonitorError, MonitorRow,
};
use moreland::daemon::kwin::{kcminputrc_path, kwin_associate_touchscreen, trigger_kwin_reconfigure};
use moreland::daemon::output::{
    labwc_output_exists, Action, Compositor, CreateError, Creation, Environment, OutputRequest,
    SupportError, VirtualOutput,
};
use std::cell::RefCell;

fn env(desktop: Option<&str>) -> Environment {
    Environment {
        desktop: desktop.map(String::from),
        hyprland_signature: false,
        swaysock: false,
        kde_full_session: false,
    }
}

fn request() -> OutputRequest {
    OutputRequest {
        name: "moreland".to_string(),
        width: 1920,
        height: 1200,
        refresh: 90,
        x: 0,
        y: -1080,
    }
}

fn run_of(action: Action) -> Vec<String> {
    match action {
        Action::Run(run) => {
            let mut words = vec![run.program];
            words.extend(run.args);
            words
        }
        other => panic!("expected a program, got {other:?}"),
    }
}

const MONITORS: &str = r#"[
  {"name": "DP-1", "x": 0, "y": -5, "width": 2560, "height": 1440,
   "refreshRate": 143.998, "scale": 1.25, "transform": 0},
  {"name": "we\"ird", "x": 2560, "y": 0, "width": 1920, "height": 1080,
   "refreshRate": 60, "scale": 1.0, "transform": 1}
]"#;

#[test]
fn detection_confirms_markers() {
    let live = |c: Compositor| move |x: Compositor| x == c;
    assert_eq!(
        Compositor::detect(&env(Some("hyprland")), live(Compositor::Hyprland)),
        Compositor::Hyprland
    );
    assert_eq!(
        Compositor::detect(&env(Some("SWAY")), live(Compositor::Sway)),
        Compositor::Sway
    );
    assert_eq!(
        Compositor::detect(&env(Some("wlroots")), live(Compositor::Labwc)),
        Compositor::Labwc
    );
    assert_eq!(
        Compositor::detect(&env(Some("X-Cinnamon:kde")), live(Compositor::Kwin)),
        Compositor::Kwin
    );
    assert_eq!(
        Compositor::detect(&env(None), |_: Compositor| true),
        Compositor::Unsupported
    );
}

#[test]
fn stale_markers_are_not_believed() {
    let stale = Environment {
        desktop: Some("KDE".to_string()),
        hyprland_signature: true,
        swaysock: true,
        kde_full_session: false,
    };
    let asked = RefCell::new(Vec::new());
    let found = Compositor::detect(&stale, |c: Compositor| {
        asked.borrow_mut().push(c);
        c == Compositor::Kwin
    });
    assert_eq!(found, Compositor::Kwin);
    assert_eq!(
        asked.into_inner(),
        [Compositor::Hyprland, Compositor::Sway, Compositor::Kwin]
    );
    assert_eq!(
        Compositor::detect(&stale, |_: Compositor| false),
        Compositor::Unsupported
    );
}

#[test]
fn names_probes_and_support() {
    let names: Vec<&str> = [
        Compositor::Hyprland,
        Compositor::Sway,
        Compositor::Labwc,
        Compositor::Kwin,
        Compositor::Unsupported,
    ]
    .iter()
    .map(|c| c.name())
    .collect();
    assert_eq!(names, ["Hyprland", "Sway", "labwc", "KWin", "unsupported"]);
    let probe = Compositor::Sway.probe().unwrap();
    assert_eq!((probe.program.as_str(), probe.args), ("swaymsg", vec!["-t".to_string(), "get_version".to_string()]));
    assert!(Compositor::Unsupported.probe().is_none());
    let none = None;
    assert!(Compositor::Hyprland.ensure_supported(&none).is_ok());
    assert!(Compositor::Labwc.ensure_supported(&none).is_ok());
    assert!(Compositor::Kwin.ensure_supported(&none).is_ok());
    assert!(matches!(
        Compositor::Sway.ensure_supported(&none),
        Err(SupportError::SwayNotImplemented)
    ));
    match Compositor::Unsupported.ensure_supported(&none) {
        Err(SupportError::UnsupportedCompositor(d)) => assert_eq!(d, "unset"),
        other => panic!("got {other:?}"),
    }
    match Compositor::Unsupported.ensure_supported(&Some("GNOME".to_string())) {
        Err(SupportError::UnsupportedCompositor(d)) => assert_eq!(d, "GNOME"),
        other => panic!("got {other:?}"),
    }
}

#[test]
fn labwc_outputs_match_whole_names() {
    let listing = "HEADLESS-10 \"x\"\n  Modes:\n    1920x1080\neDP-1 \"y\"\n";
    assert!(labwc_output_exists("HEADLESS-10", listing));
    assert!(labwc_output_exists("eDP-1", listing));
    assert!(!labwc_output_exists("HEADLESS-1", listing));
    assert!(!labwc_output_exists("HEADLESS-1", ""));
}

#[test]
fn monitor_lists() {
    let states = hyprland_monitor_state(MONITORS).unwrap();
    assert_eq!(states.len(), 2);
    assert_eq!(states[0].name, "DP-1");
    assert_eq!((states[0].x, states[0].y), (0, -5));
    assert_eq!((states[0].width, states[0].height), (2560, 1440));
    assert_eq!(states[0].refresh_rate, "143.998000");
    assert_eq!(states[0].scale, "1.25");
    assert_eq!(states[1].refresh_rate, "60.000000");
    assert_eq!(states[1].scale, "1");
    assert_eq!(states[1].transform, 1);
    assert!(hyprland_monitor_state("[]").unwrap().is_empty());
    assert!(matches!(hyprland_monitor_state("{"), Err(MonitorError::NotJson)));
    assert!(matches!(hyprland_monitor_state("{}"), Err(MonitorError::NotAnArray)));
    assert!(matches!(hyprland_monitor_state("[3]"), Err(MonitorError::NoName)));
    assert!(matches!(
        hyprland_monitor_state(r#"[{"name": 7}]"#),
        Err(MonitorError::NoName)
    ));
    assert!(matches!(
        hyprland_monitor_state(r#"[{"name": "a", "x": 1.5}]"#),
        Err(MonitorError::NoX)
    ));
}

fn full_row() -> MonitorRow {
    MonitorRow {
        name: Some("m".to_string()),
        x: Some(1),
        y: Some(2),
        width: Some(3),
        height: Some(4),
        refresh_rate: Some("60.000000".to_string()),
        scale: Some("1".to_string()),
        transform: Some(5),
    }
}

#[test]
fn every_entry_of_a_monitor_is_checked() {
    let first = |row: MonitorRow| monitors_from_rows(&vec![full_row(), row]).unwrap_err();
    let cases = vec![
        (MonitorRow { name: None, x: None, ..full_row() }, MonitorError::NoName),
        (MonitorRow { x: None, ..full_row() }, MonitorError::NoX),
        (MonitorRow { y: None, x: Some(i64::MAX), ..full_row() }, MonitorError::NoY),
        (MonitorRow { width: None, ..full_row() }, MonitorError::NoWidth),
        (MonitorRow { height: None, ..full_row() }, MonitorError::NoHeight),
        (MonitorRow { refresh_rate: None, ..full_row() }, MonitorError::NoRefreshRate),
        (MonitorRow { scale: None, ..full_row() }, MonitorError::NoScale),
        (MonitorRow { transform: None, ..full_row() }, MonitorError::NoTransform),
        (MonitorRow { x: Some(1 << 31), ..full_row() }, MonitorError::XOutOfRange),
        (MonitorRow { y: Some(-(1 << 31) - 1), ..full_row() }, MonitorError::YOutOfRange),
        (MonitorRow { width: Some(1 << 32), ..full_row() }, MonitorError::WidthOutOfRange),
        (MonitorRow { height: Some(1 << 32), ..full_row() }, MonitorError::HeightOutOfRange),
        (
            MonitorRow { transform: Some(1 << 40), ..full_row() },
            MonitorError::TransformOutOfRange,
        ),
    ];
    for (row, want) in cases {
        assert_eq!(first(row), want);
    }
    assert!(matches!(monitors_from_list(None), Err(MonitorError::NotJson)));
    assert!(matches!(monitors_from_list(Some(None)), Err(MonitorError::NotAnArray)));
    assert_eq!(monitors_from_list(Some(Some(vec![full_row()]))).unwrap().len(), 1);
    let states = monitors_from_rows(&vec![full_row()]).unwrap();
    assert_eq!((states[0].x, states[0].y, states[0].transform), (1, 2, 5));
}

#[test]
fn layouts_are_restored_by_script() {
    let states = hyprland_monitor_state(MONITORS).unwrap();
    assert_eq!(
        restore_hyprland_monitor_state(&states, "moreland"),
        "hl.monitor({ output = \"DP-1\", mode = \"2560x1440@143.998\", position = \"0x-5\", \
         scale = 1.25, transform = 0 }); \
         hl.monitor({ output = \"we\\\"ird\", mode = \"1920x1080@60\", position = \"2560x0\", \
         scale = 1, transform = 1 })"
    );
    assert_eq!(
        restore_hyprland_monitor_state(&states, "we\"ird"),
        "hl.monitor({ output = \"DP-1\", mode = \"2560x1440@143.998\", position = \"0x-5\", \
         scale = 1.25, transform = 0 })"
    );
    assert_eq!(restore_hyprland_monitor_state(&Vec::new(), "x"), "");
}

#[test]
fn lua_strings() {
    assert_eq!(lua_string("plain"), "\"plain\"");
    assert_eq!(lua_string("a\\b\"c\nd\re\tf\u{e9}"), "\"a\\\\b\\\"c\\nd\\re\\tf\u{e9}\"");
    // A quote behind a backslash is escaped on its own account.
    assert_eq!(lua_string("\\\""), "\"\\\\\\\"\"");
    assert_eq!(lua_string("\\"), "\"\\\\\"");
    assert_eq!(lua_string(""), "\"\"");
}

#[test]
fn hyprland_creates_and_restores() {
    let mut c = Creation::create(Compositor::Hyprland, None, request());
    assert_eq!(run_of(c.go()), ["hyprctl", "monitors", "-j"]);
    assert!(c.needs_reply());
    assert_eq!(
        run_of(c.on_reply(Ok(MONITORS.to_string()))),
        ["hyprctl", "output", "create", "headless", "moreland"]
    );
    assert!(matches!(c.on_reply(Ok("ok".to_string())), Action::Sleep(400)));
    assert!(!c.needs_reply());
    assert_eq!(
        run_of(c.go()),
        ["hyprctl", "keyword", "monitor", "moreland,1920x1200@90,0x-1080,1"]
    );
    let restore = run_of(c.on_reply(Ok("ok".to_string())));
    assert_eq!(&restore[..2], ["hyprctl", "eval"]);
    assert!(restore[2].starts_with("hl.monitor({ output = \"DP-1\""));
    assert!(matches!(c.on_reply(Ok(String::new())), Action::Sleep(400)));
    match c.go() {
        Action::Done(output) => {
            assert_eq!(output.name(), "moreland");
            assert!(output.applied_mode());
            let removal = output.removal().unwrap();
            assert_eq!(removal.program, "hyprctl");
            assert_eq!(removal.args, ["output", "remove", "moreland"]);
        }
        other => panic!("got {other:?}"),
    }
}

#[test]
fn hyprland_reuses_and_scripts() {
    let mut c = Creation::create(Compositor::Hyprland, None, OutputRequest { name: "DP-1".to_string(), ..request() });
    c.go();
    assert_eq!(
        run_of(c.on_reply(Ok(MONITORS.to_string())))[3],
        "DP-1,1920x1200@90,0x-1080,1"
    );
    assert_eq!(
        run_of(c.on_reply(Ok("error: use non-legacy parsers".to_string()))),
        [
            "hyprctl",
            "eval",
            "hl.monitor({ output = \"DP-1\", mode = \"1920x1200@90\", \
             position = \"0x-1080\", scale = 1 })"
        ]
    );
    let restore = run_of(c.on_reply(Ok(String::new())));
    assert!(!restore[2].contains("DP-1"));
}

#[test]
fn creation_failures() {
    let fresh = || {
        let mut c = Creation::create(Compositor::Hyprland, None, request());
        c.go();
        c
    };
    let mut c = fresh();
    assert!(matches!(
        c.on_reply(Err("gone".to_string())),
        Action::Fail(CreateError::ReadingMonitors(e)) if e == "gone"
    ));
    let mut c = fresh();
    assert!(matches!(
        c.on_reply(Ok("{}".to_string())),
        Action::Fail(CreateError::BadMonitors(MonitorError::NotAnArray))
    ));
    let mut c = fresh();
    c.on_reply(Ok("[]".to_string()));
    assert!(matches!(
        c.on_reply(Err("no".to_string())),
        Action::Fail(CreateError::CreatingHeadless(_))
    ));
    let mut c = fresh();
    c.on_reply(Ok("[]".to_string()));
    c.on_reply(Ok(String::new()));
    c.go();
    assert!(matches!(
        c.on_reply(Err("no".to_string())),
        Action::Fail(CreateError::Configuring(rule, _)) if rule.starts_with("moreland,")
    ));
    let mut c = fresh();
    c.on_reply(Ok("[]".to_string()));
    c.on_reply(Ok(String::new()));
    c.go();
    c.on_reply(Ok(String::new()));
    assert!(matches!(
        c.on_reply(Err("no".to_string())),
        Action::Fail(CreateError::Restoring(_))
    ));
    let mut sway = Creation::create(Compositor::Sway, None, request());
    assert!(matches!(
        sway.go(),
        Action::Fail(CreateError::Unsupported(SupportError::SwayNotImplemented))
    ));
}

#[test]
fn labwc_attaches() {
    let mut c = Creation::create(Compositor::Labwc, None, request());
    assert_eq!(run_of(c.go()), ["wlr-randr"]);
    match c.on_reply(Ok("moreland \"x\"\n".to_string())) {
        Action::Done(output) => {
            assert!(!output.applied_mode());
            assert!(output.removal().is_none());
        }
        other => panic!("got {other:?}"),
    }
    for reply in [Ok("other\n".to_string()), Err("not found".to_string())] {
        let mut c = Creation::create(Compositor::Labwc, None, request());
        c.go();
        assert!(matches!(
            c.on_reply(reply),
            Action::Fail(CreateError::NoSuchOutput(name)) if name == "moreland"
        ));
    }
}

#[test]
fn kwin_makes_the_output_itself() {
    let mut c = Creation::create(Compositor::Kwin, None, OutputRequest { width: u32::MAX, ..request() });
    match c.go() {
        Action::CreatePlasma { name, description, width, height } => {
            assert_eq!((name.as_str(), description.as_str()), ("moreland", "Moreland tablet monitor"));
            assert_eq!((width, height), (-1, 1200));
        }
        other => panic!("got {other:?}"),
    }
    let mut output = match c.go() {
        Action::Done(output) => output,
        other => panic!("got {other:?}"),
    };
    assert_eq!(output.name(), "moreland");
    assert!(output.applied_mode() && output.removal().is_none());
    assert_eq!(output.take().as_deref(), Some("moreland"));
    assert_eq!(output.take(), None);
    assert_eq!(output.name(), "<consumed>");
    let sway = VirtualOutput::Owned { compositor: Compositor::Sway, name: "S".to_string() };
    assert_eq!(sway.removal().unwrap().args, ["output", "S", "unplug"]);
}

#[test]
fn touchscreen_association() {
    let fresh = kwin_associate_touchscreen("", "moreland-touch", "moreland").unwrap();
    assert_eq!(
        fresh,
        "\n[Libinput][19794][19524][moreland-touch]\noutput=Virtual-moreland\n"
    );
    let existing = "[Mouse]\r\nx=1\n\n[Other]\ny=2";
    let added = kwin_associate_touchscreen(existing, "moreland-touch", "moreland").unwrap();
    assert_eq!(
        added,
        "[Mouse]\nx=1\n\n[Other]\ny=2\n\
         \n[Libinput][19794][19524][moreland-touch]\noutput=Virtual-moreland\n"
    );
    // A choice that is there stays, whatever it is.
    assert!(kwin_associate_touchscreen(&added, "moreland-touch", "elsewhere").is_none());
    assert!(kwin_associate_touchscreen(&added, "moreland-rdnv-touch", "moreland-rdnv").is_some());
}

#[test]
fn only_a_whole_line_is_a_section() {
    let header = "[Libinput][19794][19524][moreland-touch]";
    let section = "\n[Libinput][19794][19524][moreland-touch]\noutput=Virtual-moreland\n";
    for there in [
        format!("{header}"),
        format!("{header} \t\n"),
        format!("[Mouse]\r\n{header}\r\noutput=HDMI-A-1\r\n"),
    ] {
        assert_eq!(kwin_associate_touchscreen(&there, "moreland-touch", "moreland"), None);
    }
    for absent in [
        format!("# {header}\n"),
        format!(" {header}\n"),
        format!("{header}[Buttons]\n"),
        format!("note={header}\n"),
    ] {
        assert_eq!(
            kwin_associate_touchscreen(&absent, "moreland-touch", "moreland"),
            Some(format!("{absent}{section}"))
        );
    }
}

#[test]
fn kwin_config_path() {
    let s = |t: &str| Some(t.to_string());
    assert_eq!(kcminputrc_path(s("/cfg"), s("/home/u")), s("/cfg/kcminputrc"));
    assert_eq!(kcminputrc_path(s("/cfg/"), None), s("/cfg/kcminputrc"));
    assert_eq!(kcminputrc_path(s(""), s("/home/u")), s("/home/u/.config/kcminputrc"));
    assert_eq!(kcminputrc_path(None, s("/home/u")), s("/home/u/.config/kcminputrc"));
    assert_eq!(kcminputrc_path(None, None), None);
}

#[test]
fn reconfigure_tries_each_sender() {
    let tried = RefCell::new(Vec::new());
    let worked = trigger_kwin_reconfigure(|run: &moreland::command::Invocation| {
        tried.borrow_mut().push(run.program.clone());
        run.program == "qdbus"
    });
    assert!(worked);
    assert_eq!(tried.into_inner(), ["qdbus6", "qdbus"]);
    let count = RefCell::new(0);
    assert!(!trigger_kwin_reconfigure(|run: &moreland::command::Invocation| {
        *count.borrow_mut() += 1;
        if run.program == "dbus-send" {
            assert_eq!(
                run.args,
                ["--session", "--dest=org.kde.KWin", "/KWin", "org.kde.KWin.reconfigure"]
            );
        }
        false
    }));
    assert_eq!(count.into_inner(), 3);
}
