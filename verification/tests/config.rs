use way_pad::config::{
    load, BackendKind, Config, ConfigError, ConfigFields, Edge, Extent, HideMode, Pad,
    PadFields, PadSpec, Size, SizeError, DEFAULT_LAUNCH_WAIT_MS,
};
use way_pad::size::{percent_number, Number};

/// Reads a size as a configuration file has it.
fn read_size(v: &toml::Value) -> Result<Size, String> {
    if let Some(n) = v.as_integer() {
        return u32::try_from(n).map(Size::Px).map_err(|e| e.to_string());
    }
    let text = v.as_str().ok_or("neither number nor text")?.to_string();
    let number = match percent_number(&text).map(|n| n.parse::<f64>()) {
        Some(Ok(p)) if (0.0..=100.0).contains(&p) => Number::Within { bits: p.to_bits() },
        Some(Ok(_)) => Number::Outside,
        Some(Err(e)) => Number::Invalid { reason: e.to_string() },
        None => Number::Outside,
    };
    Ok(Size::Percent { text, number })
}

fn read_edge(v: &toml::Value) -> Result<Edge, String> {
    match v.as_str() {
        Some("top") => Ok(Edge::Top),
        Some("bottom") => Ok(Edge::Bottom),
        Some("left") => Ok(Edge::Left),
        Some("right") => Ok(Edge::Right),
        Some("center") => Ok(Edge::Center),
        _ => Err("no edge".to_string()),
    }
}

fn read_pad(table: &toml::Table) -> Result<PadFields, String> {
    let known = [
        "app_id",
        "title",
        "launch",
        "focus_on_show",
        "launch_wait_ms",
        "width",
        "height",
        "margin",
        "edge",
        "fullscreen",
    ];
    if let Some(k) = table.keys().find(|k| !known.contains(&k.as_str())) {
        return Err(format!("unknown field {k}"));
    }
    let text = |k: &str| table.get(k).and_then(|v| v.as_str()).map(str::to_string);
    Ok(PadFields {
        app_id: text("app_id").ok_or("missing app_id")?,
        title: text("title"),
        launch: text("launch"),
        focus_on_show: table.get("focus_on_show").and_then(|v| v.as_bool()),
        launch_wait_ms: table.get("launch_wait_ms").and_then(|v| v.as_integer()).map(|n| n as u64),
        width: table.get("width").map(read_size).transpose()?,
        height: table.get("height").map(read_size).transpose()?,
        margin: table.get("margin").and_then(|v| v.as_integer()).map(|n| n as u32),
        edge: table.get("edge").map(read_edge).transpose()?,
        fullscreen: table.get("fullscreen").and_then(|v| v.as_bool()),
    })
}

/// Takes a configuration file apart. Tables of the parser come in the order of their keys, so the
/// order of the sections is taken from the text.
fn fields(text: &str) -> Result<ConfigFields<f64>, String> {
    let table: toml::Table = text.parse().map_err(|e| format!("{e}"))?;
    let mut pads = Vec::new();
    if let Some(sections) = table.get("pads").and_then(|v| v.as_table()) {
        for line in text.lines() {
            let name = line.strip_prefix("[pads.").and_then(|l| l.strip_suffix(']'));
            if let Some(name) = name {
                let section = sections[name].as_table().ok_or("no section")?;
                pads.push((name.to_string(), read_pad(section)?));
            }
        }
    }
    Ok(ConfigFields {
        backend: None,
        hide_mode: match table.get("hide_mode").and_then(|v| v.as_str()) {
            Some("opacity") => Some(HideMode::Opacity),
            Some("move") => Some(HideMode::Move),
            _ => None,
        },
        viewport: None,
        launch_wait_ms: table.get("launch_wait_ms").and_then(|v| v.as_integer()).map(|n| n as u64),
        pads,
    })
}

fn parse(text: &str) -> Config<f64> {
    load(&fields(text).expect("not a configuration")).expect("not valid")
}

fn refusal(text: &str) -> ConfigError {
    load(&fields(text).expect("not a configuration")).unwrap_err()
}

#[test]
fn parses_pads_and_defaults() {
    let cfg = parse(
        r#"
[pads.term]
app_id = '^foot$'
launch = 'foot'

[pads.music]
app_id = 'mpv'
title = 'mpv —.*'
focus_on_show = false
"#,
    );
    assert_eq!(cfg.launch_wait_ms, DEFAULT_LAUNCH_WAIT_MS);
    assert_eq!(cfg.hide_mode, HideMode::Move);
    assert_eq!(cfg.backend, BackendKind::Auto);
    let term = cfg.resolve(Some("term")).unwrap();
    assert!(term.spec.focus_on_show);
    assert!(term.matches("foot", "任意标题"));
    assert!(!term.matches("footclient", "x"));
    let music = cfg.resolve(Some("music")).unwrap();
    assert!(!music.spec.focus_on_show);
    assert!(music.matches("mpv", "mpv — 视频"));
    assert!(!music.matches("mpv", "其他"));
}

#[test]
fn resolves_single_pad_without_name() {
    let cfg = parse("[pads.only]\napp_id = 'x'\n");
    assert_eq!(cfg.resolve(None).unwrap().name, "only");
}

#[test]
fn rejects_bad_regex_and_unknown_fields() {
    let cfg = Config::from_fields(&fields("[pads.bad]\napp_id = '('\n").unwrap());
    assert!(cfg.validate().is_err());
    let cfg = fields("[pads.a]\napp_id='x'\nwrong_field=1\n");
    assert!(cfg.is_err());
}

#[test]
fn rejects_config_without_pads() {
    let cfg = Config::from_fields(&fields("launch_wait_ms = 10\n").unwrap());
    assert!(cfg.validate().is_err());
    assert_eq!(cfg.launch_wait_ms, 10);
}

#[test]
fn empty_title_pattern_matches_anything() {
    let cfg = parse("[pads.a]\napp_id = 'abc'\ntitle = ''\n");
    let p = cfg.resolve(Some("a")).unwrap();
    assert!(p.title.is_none());
    assert!(p.matches("abc", ""));
}

#[test]
fn map_preserves_order() {
    let cfg = parse("[pads.z]\napp_id='z'\n\n[pads.a]\napp_id='a'\n");
    let keys: Vec<_> = cfg.pads.keys().cloned().collect();
    assert_eq!(keys, vec!["z", "a"]);
}

#[test]
fn pad_not_found_lists_names() {
    let cfg = parse("[pads.a]\napp_id='a'\n");
    let err = cfg.resolve(Some("b")).unwrap_err().message();
    assert!(err.contains("'b'") && err.contains("a"));
    assert_eq!(err, "配置中没有名为 'b' 的 pad（可用: a）");
}

#[test]
fn default_pad_spec() {
    let d = PadSpec::default();
    assert!(d.launch.is_none());
    assert!(d.focus_on_show);
    assert_eq!(indexmap::IndexMap::<String, PadSpec>::new().len(), 0);
}

/// Screen pixels, as they are computed from an extent.
fn pixels(extent: Extent, side: f64) -> f64 {
    match extent {
        Extent::Px(v) => v as f64,
        Extent::Hundredths(bits) => f64::from_bits(bits) / 100.0 * side,
    }
}

#[test]
fn parses_hide_mode_and_sizes() {
    let cfg = parse(
        r#"
hide_mode = "opacity"

[pads.a]
app_id = 'x'
width = 1600
height = "90%"
"#,
    );
    assert_eq!(cfg.hide_mode, HideMode::Opacity);
    let p = cfg.resolve(Some("a")).unwrap();
    assert!(matches!(p.spec.width, Some(Size::Px(1600))));
    assert_eq!(p.spec.width.as_ref().unwrap().resolve_px().unwrap(), Extent::Px(1600));
    assert_eq!(
        pixels(p.spec.height.as_ref().unwrap().resolve_px().unwrap(), 1080.0),
        972.0
    );
}

#[test]
fn rejects_bad_percent() {
    let cfg = Config::from_fields(&fields("[pads.a]\napp_id='x'\nheight = \"120%\"\n").unwrap());
    assert!(cfg.validate().is_err());
    let cfg = Config::from_fields(&fields("[pads.a]\napp_id='x'\nheight = \"abc%\"\n").unwrap());
    assert!(cfg.validate().is_err());
}

#[test]
fn pad_level_wait_overrides_global() {
    let cfg = parse(
        r#"
launch_wait_ms = 1500

[pads.slow]
app_id = 'x'
launch_wait_ms = 9000

[pads.fast]
app_id = 'y'
"#,
    );
    let slow = cfg.resolve(Some("slow")).unwrap();
    let fast = cfg.resolve(Some("fast")).unwrap();
    assert_eq!(slow.launch_wait_ms(cfg.launch_wait_ms), 9000);
    assert_eq!(fast.launch_wait_ms(cfg.launch_wait_ms), 1500);
}

#[test]
fn has_geometry_variants() {
    let cfg = parse(
        r#"
[pads.a]
app_id = 'x'
margin = 5

[pads.b]
app_id = 'y'
fullscreen = true

[pads.c]
app_id = 'z'
"#,
    );
    assert!(cfg.resolve(Some("a")).unwrap().has_geometry());
    assert!(cfg.resolve(Some("b")).unwrap().has_geometry());
    assert!(!cfg.resolve(Some("c")).unwrap().has_geometry());
}

#[test]
fn every_geometry_field_counts() {
    for field in ["width = 10", "height = \"5%\"", "edge = \"left\"", "margin = 1"] {
        let cfg = parse(&format!("[pads.a]\napp_id = 'x'\n{field}\n"));
        assert!(cfg.resolve(None).unwrap().has_geometry(), "{field}");
    }
}

#[test]
fn faults_have_their_words() {
    assert!(matches!(refusal(""), ConfigError::NoPads));
    assert_eq!(refusal("").message(), "配置中没有定义任何 pad（需要 [pads.<名字>] 段）");
    let e = refusal("[pads.a]\napp_id = ''\n");
    assert!(matches!(e, ConfigError::NoAppId { .. }));
    assert_eq!(e.message(), "pad 'a' 缺少 app_id");
    let e = refusal("[pads.a]\napp_id = '('\n");
    assert!(matches!(e, ConfigError::BadAppId { .. }));
    let reason = regex::Regex::new("(").unwrap_err().to_string();
    assert_eq!(e.message(), format!("pad 'a' 的 app_id 不是合法正则表达式: {reason}"));
    let e = refusal("[pads.a]\napp_id = 'x'\ntitle = '['\n");
    assert!(matches!(e, ConfigError::BadTitle { .. }));
    let reason = regex::Regex::new("[").unwrap_err().to_string();
    assert_eq!(e.message(), format!("pad 'a' 的 title 不是合法正则表达式: {reason}"));
    assert_eq!(ConfigError::NoHome.message(), "无法定位配置文件：HOME 未设置");
}

#[test]
fn size_faults_have_their_words() {
    let e = refusal("[pads.a]\napp_id = 'x'\nwidth = \"120%\"\n");
    assert_eq!(e.message(), "百分比尺寸超出 0-100%: \"120%\"");
    let e = refusal("[pads.a]\napp_id = 'x'\nwidth = \"-1%\"\n");
    assert_eq!(e.message(), "百分比尺寸超出 0-100%: \"-1%\"");
    let e = refusal("[pads.a]\napp_id = 'x'\nheight = \"90\"\n");
    assert_eq!(e.message(), "百分比尺寸格式错误: \"90\"（示例 \"90%\"）");
    let e = refusal("[pads.a]\napp_id = 'x'\nheight = \"a\\tb%\"\n");
    assert_eq!(
        e.message(),
        "百分比尺寸格式错误: \"a\\tb%\"（示例 \"90%\"）: invalid float literal"
    );
    let e = SizeError::Range { text: "150%".to_string() };
    assert_eq!(e.message_with("here"), "百分比尺寸超出 0-100%: here");
}

#[test]
fn width_is_checked_before_height_and_patterns_before_sizes() {
    let e = refusal("[pads.a]\napp_id = 'x'\nwidth = \"101%\"\nheight = \"102%\"\n");
    assert_eq!(e.message(), "百分比尺寸超出 0-100%: \"101%\"");
    let e = refusal("[pads.a]\napp_id = '('\nwidth = \"101%\"\n");
    assert!(matches!(e, ConfigError::BadAppId { .. }));
    let e = refusal("[pads.a]\napp_id = 'x'\n[pads.b]\napp_id = '('\n[pads.c]\napp_id = ''\n");
    assert!(matches!(e, ConfigError::BadAppId { pad, .. } if pad == "b"));
}

#[test]
fn percentages_may_have_blanks_before_the_sign() {
    assert_eq!(percent_number("90%").as_deref(), Some("90"));
    assert_eq!(percent_number(" 12.5 %").as_deref(), Some("12.5"));
    assert_eq!(percent_number("\u{3000}7\u{a0}%").as_deref(), Some("7"));
    assert_eq!(percent_number("%").as_deref(), Some(""));
    assert_eq!(percent_number("90%%").as_deref(), Some("90%"));
    assert_eq!(percent_number("90"), None);
    assert_eq!(percent_number(""), None);
    let cfg = parse("[pads.a]\napp_id = 'x'\nwidth = \"100%\"\nheight = \"0 %\"\n");
    let p = cfg.resolve(None).unwrap();
    assert_eq!(pixels(p.spec.width.unwrap().resolve_px().unwrap(), 1920.0), 1920.0);
    assert_eq!(pixels(p.spec.height.unwrap().resolve_px().unwrap(), 1080.0), 0.0);
}

#[test]
fn a_name_is_needed_among_several_pads() {
    let cfg = parse("[pads.z]\napp_id='z'\n\n[pads.a]\napp_id='a'\n");
    let e = cfg.resolve(None).unwrap_err();
    assert!(matches!(e, ConfigError::PadNotGiven { .. }));
    assert_eq!(e.message(), "未指定 pad 名（可用: z, a）");
    assert_eq!(cfg.resolve(Some("z")).unwrap().name, "z");
}

#[test]
fn all_pads_come_in_their_order() {
    let cfg = parse("[pads.z]\napp_id='z'\n\n[pads.a]\napp_id='a'\n\n[pads.m]\napp_id='m'\n");
    let names: Vec<String> = cfg.all_pads().unwrap().into_iter().map(|p| p.name).collect();
    assert_eq!(names, vec!["z", "a", "m"]);
}

#[test]
fn unchecked_patterns_are_refused_when_a_pad_is_asked_for() {
    let cfg = Config::from_fields(
        &fields("[pads.a]\napp_id='x'\n[pads.bad]\napp_id = '('\n").unwrap(),
    );
    assert!(cfg.resolve(Some("a")).is_ok());
    assert!(matches!(cfg.resolve(Some("bad")), Err(ConfigError::BadAppId { .. })));
    assert!(cfg.all_pads().is_err());
}

#[test]
fn a_name_written_twice_keeps_its_first_place_and_its_last_value() {
    let pad = |app_id: &str| PadFields {
        app_id: app_id.to_string(),
        title: None,
        launch: None,
        focus_on_show: None,
        launch_wait_ms: None,
        width: None,
        height: None,
        margin: None,
        edge: None,
        fullscreen: None,
    };
    let cfg: Config<f64> = Config::from_fields(&ConfigFields {
        backend: Some(BackendKind::Driftwm),
        hide_mode: None,
        viewport: Some((2560.0, 1440.0)),
        launch_wait_ms: None,
        pads: vec![
            ("a".to_string(), pad("one")),
            ("b".to_string(), pad("two")),
            ("a".to_string(), pad("three")),
        ],
    });
    let keys: Vec<_> = cfg.pads.keys().cloned().collect();
    assert_eq!(keys, vec!["a", "b"]);
    let all: Vec<String> = cfg.all_pads().unwrap().into_iter().map(|p| p.name).collect();
    assert_eq!(all, vec!["a", "b"]);
    assert_eq!(cfg.resolve(Some("a")).unwrap().spec.app_id, "three");
    assert_eq!(cfg.backend, BackendKind::Driftwm);
    assert_eq!(cfg.viewport, Some((2560.0, 1440.0)));
}

#[test]
fn results_of_patterns_decide() {
    assert!(Pad::admits(true, None));
    assert!(Pad::admits(true, Some(true)));
    assert!(!Pad::admits(true, Some(false)));
    assert!(!Pad::admits(false, None));
    let spec = PadSpec { app_id: "a".to_string(), ..PadSpec::default() };
    assert!(spec.check_given("p", None, Some("unused".to_string())).is_ok());
    assert!(spec.check_given("p", Some("bad".to_string()), None).is_err());
    assert!(Pad::compile_given("p", &spec, Some("bad".to_string()), None).is_err());
    assert_eq!(Pad::compile_given("p", &spec, None, None).unwrap().app_id, "a");
}

#[test]
fn each_pad_of_the_list_is_the_one_under_its_name() {
    let cfg = parse("[pads.z]\napp_id='^z'\ntitle='t'\n\n[pads.a]\napp_id='a'\nmargin=3\n");
    let all = cfg.all_pads().unwrap();
    assert_eq!(all.len(), cfg.pads.len());
    for p in all {
        let found = cfg.resolve(Some(&p.name)).unwrap();
        assert_eq!(format!("{found:?}"), format!("{p:?}"));
        assert_eq!(format!("{:?}", cfg.pads[&p.name]), format!("{:?}", p.spec));
        for (app_id, title) in [("z", "t"), ("z", "x"), ("a", ""), ("za", "t")] {
            assert_eq!(found.matches(app_id, title), p.matches(app_id, title));
        }
    }
}
