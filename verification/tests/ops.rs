use way_pad::backend::Win;
use way_pad::command::{
    list_settings, open_backend, open_toplevel, probes_driftwm, run, wait, warning, Chosen,
    OpenError, PadCommand,
};
use way_pad::config::{
    BackendKind, Config, ConfigError, ConfigFields, Edge, HideMode, Pad, PadFields, PadSpec,
};
use way_pad::ops::{
    close, close_group, doctor, doctor_with, hide_group, hide_windows, launch_and_wait, list,
    list_with, matching, pad_names, pad_tags, show, show_group, toggle, toggle_group,
    warn_unsupported_geometry, Listed, OpError, Request, Step, LOOK_AGAIN_MS,
};

fn win(key: &str, app_id: &str, title: &str, hidden: bool) -> Win<f64> {
    Win {
        key: key.to_string(),
        app_id: app_id.to_string(),
        title: title.to_string(),
        hidden,
        focused: false,
        position: None,
    }
}

fn pad_of(name: &str, spec: PadSpec) -> Pad {
    Pad::compile(name, &spec).unwrap()
}

fn pad(name: &str, app_id: &str, launch: Option<&str>) -> Pad {
    pad_of(
        name,
        PadSpec {
            app_id: app_id.to_string(),
            launch: launch.map(str::to_string),
            ..PadSpec::default()
        },
    )
}

/// The requests of a step, each with its window, and the report.
fn acts(step: Step<f64>) -> (Vec<String>, String) {
    match step {
        Step::Act { requests, report } => {
            let requests = requests
                .into_iter()
                .map(|r| match r {
                    Request::Hide(w) => format!("hide {}", w.key),
                    Request::Reveal { win, focus } => format!("reveal {} {focus}", win.key),
                    Request::Close(w) => format!("close {}", w.key),
                    Request::Sync => "sync".to_string(),
                })
                .collect();
            (requests, report)
        }
        other => panic!("{other:?}"),
    }
}

#[test]
fn windows_are_matched_in_their_order() {
    let wins = vec![
        win("1", "foot", "a", false),
        win("2", "firefox", "b", false),
        win("3", "footclient", "c", true),
    ];
    let mine = matching(&wins, &pad("term", "^foot", None));
    let keys: Vec<_> = mine.iter().map(|w| w.key.clone()).collect();
    assert_eq!(keys, vec!["1", "3"]);
    assert_eq!(matching(&wins, &pad("term", "^foot$", None)).len(), 1);
}

#[test]
fn toggle_hides_the_whole_group_where_one_is_visible() {
    let wins =
        vec![win("1", "foot", "", true), win("2", "x", "", false), win("3", "foot", "", false)];
    let (requests, report) = acts(toggle(&pad("term", "foot", None), &wins, false).unwrap());
    assert_eq!(requests, vec!["hide 1", "hide 3", "sync"]);
    assert_eq!(report, "已隐藏 'term'（2 个窗口）");
}

#[test]
fn toggle_shows_what_it_hid_and_hides_what_it_showed() {
    let p = pad("term", "foot", None);
    let mut wins = vec![win("1", "foot", "", false), win("2", "x", "", false)];
    let (requests, _) = acts(toggle(&p, &wins, false).unwrap());
    assert_eq!(requests, vec!["hide 1", "sync"]);
    wins[0].hidden = true;
    let (requests, report) = acts(toggle(&p, &wins, false).unwrap());
    assert_eq!(requests, vec!["reveal 1 true", "sync"]);
    assert_eq!(report, "已显示 'term'（1 个窗口）");
    wins[0].hidden = false;
    let (requests, _) = acts(toggle(&p, &wins, true).unwrap());
    assert_eq!(requests, vec!["hide 1", "sync"]);
}

#[test]
fn without_a_window_there_is_a_second_look_and_then_a_launch() {
    let p = pad("term", "foot", Some("foot -a x"));
    let wins = vec![win("2", "x", "", false)];
    for command in [PadCommand::Toggle, PadCommand::Show] {
        match run(command, &p, &wins, false).unwrap() {
            Step::LookAgain { after_ms } => assert_eq!(after_ms, 250),
            other => panic!("{other:?}"),
        }
        match run(command, &p, &wins, true).unwrap() {
            Step::Launch { command } => assert_eq!(command, "foot -a x"),
            other => panic!("{other:?}"),
        }
    }
    assert_eq!(LOOK_AGAIN_MS, 250);
}

#[test]
fn without_a_launch_command_showing_nothing_fails() {
    let p = pad("term", "foot", None);
    let e = toggle::<f64>(&p, &vec![], true).unwrap_err();
    assert!(matches!(e, OpError::NoLaunch { .. }));
    assert_eq!(e.message(), "没有匹配 'term' 的窗口，且配置里也没有为它设置 launch 命令");
    assert!(show::<f64>(&p, &vec![], true).is_err());
}

#[test]
fn show_reveals_visible_windows_too() {
    let p = pad_of(
        "m",
        PadSpec { app_id: "mpv".to_string(), focus_on_show: false, ..PadSpec::default() },
    );
    let wins = vec![win("1", "mpv", "", false), win("2", "mpv", "", true)];
    let (requests, report) = acts(show(&p, &wins, false).unwrap());
    assert_eq!(requests, vec!["reveal 1 false", "reveal 2 false", "sync"]);
    assert_eq!(report, "已显示 'm'（2 个窗口）");
}

#[test]
fn hiding_and_closing_nothing_is_no_failure() {
    let p = pad("term", "foot", Some("foot"));
    let none: Vec<Win<f64>> = vec![];
    let (requests, report) = acts(hide_windows(&p, &none));
    assert!(requests.is_empty());
    assert_eq!(report, "'term' 没有匹配的窗口，无需隐藏");
    let (requests, report) = acts(close(&p, &none));
    assert!(requests.is_empty());
    assert_eq!(report, "'term' 没有匹配的窗口，无需关闭");
}

#[test]
fn hide_and_close_take_the_windows_of_the_pad() {
    let p = pad("term", "foot", None);
    let wins = vec![win("1", "foot", "", true), win("2", "x", "", false)];
    let (requests, report) = acts(hide_windows(&p, &wins));
    assert_eq!(requests, vec!["hide 1", "sync"]);
    assert_eq!(report, "已隐藏 'term'（1 个窗口）");
    let (requests, report) = acts(close(&p, &wins));
    assert_eq!(requests, vec!["close 1"]);
    assert_eq!(report, "已关闭 'term'（1 个窗口）");
}

#[test]
fn groups_are_taken_as_they_are_given() {
    let p = pad("term", "foot", None);
    let mine = vec![win("9", "other", "", true)];
    assert_eq!(acts(toggle_group(&p, &mine, false).unwrap()).0, vec!["reveal 9 true", "sync"]);
    assert_eq!(acts(show_group(&p, &mine, false).unwrap()).0, vec!["reveal 9 true", "sync"]);
    assert_eq!(acts(hide_group(&p, &mine)).0, vec!["hide 9", "sync"]);
    assert_eq!(acts(close_group(&p, &mine)).0, vec!["close 9"]);
}

#[test]
fn commands_touch_only_windows_of_their_pad() {
    let p = pad("term", "foot", None);
    let wins = vec![win("1", "foot", "", false), win("2", "x", "", false)];
    for command in [PadCommand::Toggle, PadCommand::Show, PadCommand::Hide, PadCommand::Close] {
        let (requests, _) = acts(run(command, &p, &wins, false).unwrap());
        assert!(requests.iter().any(|r| r.contains(" 1")));
        assert!(!requests.iter().any(|r| r.contains(" 2")));
    }
}

#[test]
fn a_window_that_does_not_come_in_time_is_a_failure() {
    let p = pad("term", "foot", Some("foot"));
    assert_eq!(launch_and_wait(&p, true, 10).unwrap(), "已启动并显示 'term'");
    let e = launch_and_wait(&p, false, 1500).unwrap_err();
    assert!(matches!(e, OpError::NoWindow { .. }));
    assert_eq!(e.message(), "已启动 'term'，但 1500ms 内未出现匹配窗口");
}

#[test]
fn geometry_is_warned_of_where_it_is_ignored() {
    let plain = pad("a", "x", None);
    let docked = pad_of(
        "b",
        PadSpec { app_id: "x".to_string(), edge: Some(Edge::Left), ..PadSpec::default() },
    );
    assert_eq!(warn_unsupported_geometry("foreign-toplevel", &plain), None);
    assert_eq!(warn_unsupported_geometry("driftwm", &docked), None);
    let expected = "pad 'b' 配置了窗口几何（width/height/edge/margin/fullscreen），\
                    仅 driftwm 后端支持，当前后端 foreign-toplevel 将忽略";
    let w = warn_unsupported_geometry("foreign-toplevel", &docked);
    assert_eq!(w.as_deref(), Some(expected));
    for command in [PadCommand::Toggle, PadCommand::Show] {
        assert_eq!(warning(command, "foreign-toplevel", &docked).as_deref(), Some(expected));
    }
    for command in [PadCommand::Hide, PadCommand::Close] {
        assert_eq!(warning(command, "foreign-toplevel", &docked), None);
    }
}

#[test]
fn pads_and_windows_are_listed() {
    let pads = vec![
        pad("term", "foot", Some("foot")),
        pad_of(
            "music",
            PadSpec {
                app_id: "mpv|foot".to_string(),
                title: "^m".to_string(),
                ..PadSpec::default()
            },
        ),
    ];
    let mut both = win("7", "foot", "music", true);
    both.focused = true;
    let mut focused = win("8", "firefox", "t", false);
    focused.focused = true;
    let wins = vec![
        Listed { win: both, label: "id=7 @(1,2)".to_string() },
        Listed { win: focused, label: "8".to_string() },
        Listed { win: win("9", "foot", "x", true), label: "9".to_string() },
    ];
    let expected = "backend: driftwm\n\n\
        Pads:\n\
        \x20 term             app_id='foot'  launch=foot\n\
        \x20 music            app_id='mpv|foot' title='^m'  launch=-\n\
        \nWindows:\n\
        \x20 id=7 @(1,2)            app_id='foot' title='music' [hidden,focused]  pad:term pad:music\n\
        \x20 8                      app_id='firefox' title='t' [focused] \n\
        \x20 9                      app_id='foot' title='x' [hidden]  pad:term\n";
    assert_eq!(list("driftwm", &pads, &wins), expected);
    assert_eq!(pad_tags(&pads, &wins[0].win), vec!["pad:term", "pad:music"]);
    assert_eq!(pad_names(&pads, &wins[0].win), vec!["term", "music"]);
    assert!(pad_names(&pads, &wins[1].win).is_empty());
}

#[test]
fn an_empty_listing_says_so() {
    let expected = "backend: foreign-toplevel\n\nPads: （配置中没有定义 pad）\n\nWindows:\n  （没有窗口）\n";
    assert_eq!(list::<f64>("foreign-toplevel", &vec![], &vec![]), expected);
    let wins = vec![Listed { win: win("1", "a", "b", false), label: "1".to_string() }];
    let tags = vec![vec!["pad:x".to_string()]];
    let listing = list_with("d", &vec![], &wins, &tags);
    assert!(listing.ends_with("  1                      app_id='a' title='b' pad:x\n"));
}

#[test]
fn the_diagnosis_counts_windows() {
    let pads = vec![pad("term", "foot", None), pad("web", "firefox", None)];
    let wins = vec![win("1", "foot", "", false), win("2", "foot", "", true)];
    let expected = "backend: driftwm\nconfig: /c.toml\nPads:\n\
        \x20 term             2 个窗口\n\
        \x20 web              0 个窗口\n";
    assert_eq!(doctor("driftwm", "/c.toml", &pads, &wins), expected);
    let counted = doctor_with("driftwm", "/c.toml", &pads, &vec![2, 0]);
    assert_eq!(counted, expected);
}

fn config(wait_ms: u64) -> Config<f64> {
    Config::from_fields(&ConfigFields {
        backend: Some(BackendKind::Driftwm),
        hide_mode: Some(HideMode::Opacity),
        viewport: Some((800.0, 600.0)),
        launch_wait_ms: Some(wait_ms),
        pads: vec![(
            "a".to_string(),
            PadFields {
                app_id: "x".to_string(),
                title: None,
                launch: None,
                focus_on_show: None,
                launch_wait_ms: None,
                width: None,
                height: None,
                margin: None,
                edge: None,
                fullscreen: None,
            },
        )],
    })
}

#[test]
fn the_command_line_decides_how_long_to_wait() {
    let cfg = config(100);
    let plain = pad("a", "x", None);
    let slow = pad_of(
        "a",
        PadSpec { app_id: "x".to_string(), launch_wait_ms: Some(200), ..PadSpec::default() },
    );
    assert_eq!(wait(Some(300), &cfg, &slow), 300);
    assert_eq!(wait(None, &cfg, &slow), 200);
    assert_eq!(wait(None, &cfg, &plain), 100);
}

#[test]
fn backends_are_chosen_by_what_answers() {
    let (auto, driftwm) = (BackendKind::Auto, BackendKind::Driftwm);
    let protocol = BackendKind::ForeignToplevel;
    let warning = "hide_mode = \"opacity\" 仅 driftwm 后端支持，将使用 move 方式";
    let open = |kind, answers| open_backend(kind, HideMode::Opacity, answers);
    assert_eq!(open(auto, true), Ok((Chosen::Driftwm, None)));
    assert_eq!(open(driftwm, true), Ok((Chosen::Driftwm, None)));
    assert_eq!(open(driftwm, false), Err(OpenError::NoDriftwm));
    assert_eq!(open(auto, false), Ok((Chosen::ForeignToplevel, Some(warning))));
    assert_eq!(open(protocol, true), Ok((Chosen::ForeignToplevel, Some(warning))));
    assert_eq!(
        open_backend(auto, HideMode::Move, false),
        Ok((Chosen::ForeignToplevel, None))
    );
    assert!(probes_driftwm(auto) && probes_driftwm(driftwm) && !probes_driftwm(protocol));
    assert_eq!(Chosen::Driftwm.backend_name(), "driftwm");
    assert_eq!(Chosen::ForeignToplevel.backend_name(), "foreign-toplevel");
}

#[test]
fn unusable_backends_have_their_words() {
    assert_eq!(open_toplevel(true), Ok(()));
    assert_eq!(open_toplevel(false), Err(OpenError::NoProtocol));
    assert_eq!(
        OpenError::NoDriftwm.message(),
        "driftwm IPC 不可用（driftwm msg state 失败），无法使用 driftwm 后端"
    );
    assert_eq!(
        OpenError::NoProtocol.message(),
        "合成器不支持 zwlr_foreign_toplevel_management_v1，way-pad 无法显示/隐藏窗口；\
         请确认运行于 driftwm 或其他支持该协议的合成器"
    );
}

#[test]
fn windows_are_listed_without_a_configuration() {
    let s = list_settings::<f64>(None).unwrap();
    assert!(s.pads.is_empty());
    assert_eq!((s.backend, s.viewport, s.hide_mode), (BackendKind::Auto, None, HideMode::Move));
    let cfg = config(1);
    let s = list_settings(Some(&cfg)).unwrap();
    assert_eq!(s.pads.len(), 1);
    assert_eq!(s.backend, BackendKind::Driftwm);
    assert_eq!(s.viewport, Some((800.0, 600.0)));
    assert_eq!(s.hide_mode, HideMode::Opacity);
}

#[test]
fn patterns_that_do_not_compile_match_nothing() {
    let spec = PadSpec { app_id: "(".to_string(), ..PadSpec::default() };
    assert!(matches!(Pad::compile("a", &spec), Err(ConfigError::BadAppId { .. })));
    let p = Pad {
        name: "a".to_string(),
        spec: PadSpec::default(),
        app_id: "(".to_string(),
        title: None,
    };
    assert!(!p.matches("(", ""));
}
