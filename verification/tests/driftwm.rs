use way_pad::backend::Win;
use way_pad::config::{Edge, Extent, HideMode, Pad, PadSpec, Size, SizeError};
use way_pad::driftwm::commands;
use way_pad::driftwm::session::{
    edge_position, wanted_sides, DriftSession, DriftStep, Place, Revealing, Screen, Side, Span,
    Stop, HIDE_SPOT, HIDE_SPOT_TOLERANCE,
};
use way_pad::driftwm::waiting::{CameraAction, CameraHold, Look, WaitAction, WaitFor};
use way_pad::driftwm::wire::{
    fetch_state, xy, DriftError, DriftState, DriftWindow, Envelope, OkPayload,
};
use way_pad::positions::{Positions, WinUpdate};
use way_pad::size::Number;

fn in_hide_spot((x, y): (f64, f64)) -> bool {
    let (spot, tolerance) = (HIDE_SPOT as f64, HIDE_SPOT_TOLERANCE as f64);
    (x - spot).abs() <= tolerance && (y - spot).abs() <= tolerance
}

fn numbers(v: &serde_json::Value) -> Vec<f64> {
    v.as_array().map(|a| a.iter().filter_map(|n| n.as_f64()).collect()).unwrap_or_default()
}

fn state_of(v: &serde_json::Value) -> DriftState<f64> {
    let text = |v: &serde_json::Value| v.as_str().unwrap_or_default().to_string();
    let windows = v["windows"].as_array().cloned().unwrap_or_default();
    DriftState {
        camera: numbers(&v["camera"]),
        zoom: v["zoom"].as_f64().unwrap_or(0.0),
        windows: windows
            .iter()
            .map(|w| DriftWindow {
                id: w["id"].as_i64().unwrap(),
                app_id: text(&w["app_id"]),
                title: text(&w["title"]),
                position: numbers(&w["position"]),
                size: numbers(&w["size"]),
                is_focused: w["is_focused"].as_bool().unwrap_or(false),
                is_widget: w["is_widget"].as_bool().unwrap_or(false),
                suspended: w["suspended"].as_bool().unwrap_or(false),
                stashed: in_hide_spot(xy(&numbers(&w["position"]), 0.0)),
            })
            .collect(),
    }
}

fn envelope(raw: &str) -> Envelope<f64> {
    let v: serde_json::Value = serde_json::from_str(raw).unwrap();
    Envelope {
        ok: v.get("Ok").map(|ok| OkPayload { state: ok.get("State").map(state_of) }),
        err: v.get("Err").map(|e| e.to_string()),
    }
}

const STATE_REPLY: &str = r#"{"Ok":{"State":{"camera":[70.0,359.0],"zoom":1.0,
            "windows":[{"id":7,"app_id":"firefox","title":"t","position":[70,344],
            "size":[1920,1050],"is_focused":true,"is_widget":false,"suspended":false,"mode":"Fit"}]}}}"#;

#[test]
fn parses_state_reply() {
    let v = envelope(STATE_REPLY);
    let st = v.ok.unwrap().state.unwrap();
    assert_eq!(st.windows.len(), 1);
    assert_eq!(st.windows[0].id, 7);
    assert!(st.windows[0].is_focused);
    assert_eq!(xy(&st.camera, 0.0), (70.0, 359.0));
    assert_eq!(fetch_state(envelope(STATE_REPLY)).unwrap().windows.len(), 1);
}

#[test]
fn parses_err_reply() {
    let v = envelope(r#"{"Err":"no match"}"#);
    assert!(v.ok.is_none());
    let err: serde_json::Value = serde_json::from_str(&v.err.unwrap()).unwrap();
    assert_eq!(err, "no match");
    let e = fetch_state(envelope(r#"{"Err":"no match"}"#)).unwrap_err();
    assert_eq!(e.message(), "driftwm msg state 失败: \"no match\"");
}

#[test]
fn answers_without_a_state_are_refused() {
    for raw in ["{}", r#"{"Ok":{}}"#] {
        let e = fetch_state(envelope(raw)).unwrap_err();
        assert!(matches!(e, DriftError::NoState));
        assert_eq!(e.message(), "driftwm msg state 返回缺少 State 字段");
    }
    let both = r#"{"Ok":{"State":{}},"Err":3}"#;
    assert!(matches!(fetch_state(envelope(both)), Err(DriftError::Refused { .. })));
}

#[test]
fn hide_spot_detection() {
    let spot = HIDE_SPOT as f64;
    assert!(in_hide_spot((spot, spot)));
    assert!(in_hide_spot((spot + 100.0, spot - 100.0)));
    assert!(!in_hide_spot((1067.0, 1187.0)));
    assert!(!in_hide_spot((0.0, 0.0)));
    assert_eq!(spot, 100_000_000.0);
}

const VP: (f64, f64) = (1920.0, 1080.0);

/// Where a window lies whose stops are given, computed as on the canvas.
fn docked(
    edge: Edge,
    margin: f64,
    w: f64,
    h: f64,
    cam: (f64, f64),
    zoom: f64,
    viewport: (f64, f64),
) -> (f64, f64) {
    let along = |stop, cam: f64, half: f64, extent: f64| match stop {
        Stop::Low => cam - half / zoom + margin / zoom + extent / zoom / 2.0,
        Stop::Middle => cam,
        Stop::High => cam + half / zoom - margin / zoom - extent / zoom / 2.0,
    };
    let (x, y) = edge_position(edge);
    (along(x, cam.0, viewport.0 / 2.0, w), along(y, cam.1, viewport.1 / 2.0, h))
}

#[test]
fn edge_position_top_and_bottom() {
    let cam = (100.0, 200.0);
    let (x, y) = docked(Edge::Top, 40.0, 800.0, 600.0, cam, 1.0, VP);
    assert_eq!((x, y), (100.0, 200.0 + 540.0 - 40.0 - 300.0));
    let (x, y) = docked(Edge::Bottom, 40.0, 800.0, 600.0, cam, 1.0, VP);
    assert_eq!((x, y), (100.0, 200.0 - 540.0 + 40.0 + 300.0));
}

#[test]
fn edge_position_left_right_center() {
    let cam = (0.0, 0.0);
    let (x, y) = docked(Edge::Left, 10.0, 500.0, 500.0, cam, 1.0, VP);
    assert_eq!((x, y), (-960.0 + 10.0 + 250.0, 0.0));
    let (x, y) = docked(Edge::Right, 10.0, 500.0, 500.0, cam, 1.0, VP);
    assert_eq!((x, y), (960.0 - 10.0 - 250.0, 0.0));
    let (x, y) = docked(Edge::Center, 10.0, 500.0, 500.0, cam, 1.0, VP);
    assert_eq!((x, y), (0.0, 0.0));
}

#[test]
fn edge_position_respects_zoom() {
    let cam = (0.0, 0.0);
    let (x, y) = docked(Edge::Top, 40.0, 800.0, 600.0, cam, 0.5, VP);
    assert_eq!((x, y), (0.0, 400.0));
}

#[test]
fn opposite_edges_mirror() {
    let mirrored = |s| match s {
        Stop::Low => Stop::High,
        Stop::Middle => Stop::Middle,
        Stop::High => Stop::Low,
    };
    for (a, b) in [(Edge::Top, Edge::Bottom), (Edge::Left, Edge::Right)] {
        let (x, y) = edge_position(a);
        assert_eq!(edge_position(b), (mirrored(x), mirrored(y)));
    }
    assert_eq!(edge_position(Edge::Center), (Stop::Middle, Stop::Middle));
}

#[test]
fn missing_coordinates_are_zero() {
    assert_eq!(xy(&vec![], 0.0), (0.0, 0.0));
    assert_eq!(xy(&vec![3.0], 0.0), (3.0, 0.0));
    assert_eq!(xy(&vec![3.0, 4.0, 5.0], 0.0), (3.0, 4.0));
}

fn window(id: i64, app_id: &str, position: &[f64]) -> DriftWindow<f64> {
    DriftWindow {
        id,
        app_id: app_id.to_string(),
        title: "t".to_string(),
        position: position.to_vec(),
        size: vec![640.0, 480.0],
        is_focused: false,
        is_widget: false,
        suspended: false,
        stashed: in_hide_spot(xy(&position.to_vec(), 0.0)),
    }
}

fn canvas(windows: Vec<DriftWindow<f64>>) -> DriftState<f64> {
    DriftState { camera: vec![10.0, 20.0], zoom: 1.0, windows }
}

fn session(hide_mode: HideMode) -> DriftSession<f64> {
    DriftSession::new(None, hide_mode, Some("/c"), None).unwrap()
}

fn pad(spec: PadSpec) -> Pad {
    Pad::compile("p", &PadSpec { app_id: "x".to_string(), ..spec }).unwrap()
}

fn win(key: &str, hidden: bool, position: Option<(f64, f64)>) -> Win<f64> {
    Win {
        key: key.to_string(),
        app_id: "x".to_string(),
        title: String::new(),
        hidden,
        focused: false,
        position,
    }
}

#[test]
fn sessions_follow_configuration_and_environment() {
    let s = session(HideMode::Move);
    assert_eq!(s.positions_path, "/c/way-pad/positions.json");
    assert!(matches!(s.viewport, Screen::Standard { width: 1920, height: 1080 }));
    let s = DriftSession::new(Some((800.0, 600.0)), HideMode::Opacity, None, Some("/h")).unwrap();
    assert_eq!(s.positions_path, "/h/.cache/way-pad/positions.json");
    assert!(matches!(s.viewport, Screen::Given(w, h) if (w, h) == (800.0, 600.0)));
    assert_eq!(s.hide_mode, HideMode::Opacity);
    let e = DriftSession::<f64>::new(None, HideMode::Move, Some(""), None).unwrap_err();
    assert!(matches!(e, DriftError::NoCacheDir));
    assert_eq!(e.message(), "无法确定缓存目录（XDG_CACHE_HOME/HOME 未设置）");
}

#[test]
fn snapshots_leave_widgets_and_placeholders_out() {
    let spot = HIDE_SPOT as f64;
    let mut widget = window(1, "osd", &[]);
    widget.is_widget = true;
    let mut suspended = window(2, "x", &[]);
    suspended.suspended = true;
    let stashed = window(3, "x", &[spot, spot]);
    let mut shown = window(-4, "x", &[5.0]);
    shown.is_focused = true;
    let st = canvas(vec![widget, suspended, stashed, shown]);
    let wins = session(HideMode::Move).snapshot(&st, &Positions::new(), 0.0);
    assert_eq!(wins.len(), 2);
    assert_eq!((wins[0].key.as_str(), wins[0].hidden, wins[0].focused), ("3", true, false));
    assert_eq!((wins[1].key.as_str(), wins[1].hidden, wins[1].focused), ("-4", false, true));
    assert_eq!(wins[1].position, Some((5.0, 0.0)));
}

#[test]
fn transparent_windows_are_hidden_until_they_are_shown_again() {
    let st = canvas(vec![window(1, "x", &[]), window(2, "x", &[])]);
    let hidden = |mode, p: &Positions<f64>| -> Vec<bool> {
        session(mode).snapshot(&st, p, 0.0).iter().map(|w| w.hidden).collect()
    };
    let p = Positions::new().update_win_state("p", "2", WinUpdate::Opacity(true));
    assert_eq!(hidden(HideMode::Opacity, &p), vec![false, true]);
    assert_eq!(hidden(HideMode::Move, &p), vec![false, false]);
    let p = p.update_win_state("p", "2", WinUpdate::Opacity(false));
    assert_eq!(hidden(HideMode::Opacity, &p), vec![false, false]);
}

#[test]
fn hiding_remembers_where_the_window_was() {
    let h = session(HideMode::Move).hide_window(&win("1", false, Some((3.0, 4.0)))).unwrap();
    assert!(matches!(h.record, WinUpdate::Stash(Some((x, y))) if (x, y) == (3.0, 4.0)));
    assert!(matches!(h.steps[..], [DriftStep::Move(Place::HideSpot)]));
    let h = session(HideMode::Opacity).hide_window(&win("1", false, None)).unwrap();
    assert!(matches!(h.record, WinUpdate::Opacity(true)));
    assert!(matches!(h.steps[..], [DriftStep::Opacity(0)]));
    assert!(session(HideMode::Move).hide_window(&win("1", true, None)).is_none());
    assert!(session(HideMode::Opacity).hide_window(&win("1", true, None)).is_none());
}

#[test]
fn windows_in_full_screen_leave_it_to_be_hidden() {
    let complaint = "driftwm msg move 失败: window is fullscreen";
    let steps = session(HideMode::Move).hide_after_failure(complaint).unwrap();
    assert!(matches!(
        steps[..],
        [DriftStep::Focus, DriftStep::ToggleFullscreen, DriftStep::Move(Place::HideSpot)]
    ));
    assert!(session(HideMode::Move).hide_after_failure("no such window").is_none());
    assert!(session(HideMode::Opacity).hide_after_failure(complaint).is_none());
}

fn shown_by(
    mode: HideMode,
    spec: PadSpec,
    focus: bool,
    positions: &Positions<f64>,
    sized: bool,
    in_view: bool,
) -> Result<Revealing<f64>, SizeError> {
    let st = canvas(vec![window(1, "x", &[7.0, 8.0])]);
    let w = win("1", true, None);
    session(mode).reveal_window(&pad(spec), &w, focus, &st, positions, sized, in_view, 0.0)
}

#[test]
fn hidden_windows_return_to_where_they_were() {
    let p = Positions::new().update_win_state("p", "1", WinUpdate::Stash(Some((3.0, 4.0))));
    let r = shown_by(HideMode::Move, PadSpec::default(), true, &p, false, true).unwrap();
    assert!(r.record.is_none());
    assert!(matches!(r.target, Place::At((x, y)) if (x, y) == (3.0, 4.0)));
    assert!(matches!(
        r.steps[..],
        [DriftStep::Move(Place::Camera), DriftStep::Focus, DriftStep::Move(Place::At(_))]
    ));
    let s = session(HideMode::Move);
    let saved = s.saved_position(&pad(PadSpec::default()), &win("1", true, None), &p);
    assert_eq!(saved, Some((3.0, 4.0)));
}

#[test]
fn windows_out_of_view_come_to_its_centre() {
    let p = Positions::new().update_win_state("p", "1", WinUpdate::Stash(Some((9e6, 4.0))));
    let r = shown_by(HideMode::Move, PadSpec::default(), false, &p, false, false).unwrap();
    assert!(matches!(r.target, Place::Camera));
    let fresh = Positions::new();
    let r = shown_by(HideMode::Move, PadSpec::default(), false, &fresh, false, true).unwrap();
    assert!(matches!(
        r.steps[..],
        [DriftStep::Move(Place::Camera), DriftStep::Move(Place::Camera)]
    ));
}

#[test]
fn docking_comes_after_resizing_and_focusing() {
    let spec = || PadSpec {
        width: Some(Size::Px(1600)),
        edge: Some(Edge::Center),
        margin: 24,
        ..PadSpec::default()
    };
    let p = Positions::new();
    let r = shown_by(HideMode::Move, spec(), true, &p, true, false).unwrap();
    assert!(matches!(
        r.steps[..],
        [
            DriftStep::Move(Place::Camera),
            DriftStep::Resize(Span::Wanted),
            DriftStep::Focus,
            DriftStep::Move(Place::Docked { edge: Edge::Center, margin: 24 }),
        ]
    ));
    let r = shown_by(HideMode::Move, spec(), true, &p, false, false).unwrap();
    assert!(matches!(r.target, Place::Camera));
    let only_margin = PadSpec { margin: 5, ..PadSpec::default() };
    let r = shown_by(HideMode::Move, only_margin, false, &p, true, false).unwrap();
    assert!(matches!(r.target, Place::Docked { edge: Edge::Top, margin: 5 }));
    assert_eq!(r.steps.len(), 2);
}

#[test]
fn full_screen_ignores_the_rest_of_the_geometry() {
    let spec = PadSpec {
        fullscreen: true,
        width: Some(Size::Percent { text: "x".to_string(), number: Number::Outside }),
        edge: Some(Edge::Left),
        ..PadSpec::default()
    };
    let r = shown_by(HideMode::Move, spec, true, &Positions::new(), true, true).unwrap();
    assert!(matches!(
        r.steps[..],
        [DriftStep::Move(Place::Camera), DriftStep::Resize(Span::View), DriftStep::Focus]
    ));
    assert!(matches!(r.target, Place::Camera));
}

#[test]
fn transparent_windows_become_opaque_where_they_are() {
    let p = Positions::new();
    let r = shown_by(HideMode::Opacity, PadSpec::default(), true, &p, true, true).unwrap();
    assert!(matches!(r.record, Some(WinUpdate::Opacity(false))));
    assert!(matches!(r.steps[..], [DriftStep::Opacity(1), DriftStep::Focus]));
    assert!(matches!(r.target, Place::At((x, y)) if (x, y) == (7.0, 8.0)));
}

#[test]
fn sizes_that_cannot_be_used_keep_windows_from_being_shown() {
    let bad = |text: &str| Some(Size::Percent { text: text.to_string(), number: Number::Outside });
    let spec = PadSpec { width: bad("120%"), height: bad("90"), ..PadSpec::default() };
    let e = shown_by(HideMode::Move, spec, true, &Positions::new(), true, true).unwrap_err();
    assert!(matches!(e, SizeError::Range { .. }));
    let spec = PadSpec { height: bad("90"), ..PadSpec::default() };
    let e = shown_by(HideMode::Move, spec, true, &Positions::new(), true, true).unwrap_err();
    assert!(matches!(e, SizeError::Format { .. }));
}

#[test]
fn sides_are_those_of_the_pad_or_of_the_window() {
    let st = canvas(vec![window(1, "x", &[])]);
    let spec = PadSpec { height: Some(Size::Px(300)), ..PadSpec::default() };
    let (w, h) = wanted_sides(&pad(spec), &st, "1", 0.0).unwrap();
    assert!(matches!(w, Side::Canvas(v) if v == 640.0));
    assert!(matches!(h, Side::Screen(Extent::Px(300))));
    let (w, h) = wanted_sides(&pad(PadSpec::default()), &st, "9", 0.0).unwrap();
    assert!(matches!((w, h), (Side::Canvas(a), Side::Canvas(b)) if (a, b) == (0.0, 0.0)));
}

#[test]
fn keys_find_their_windows() {
    let st = canvas(vec![window(1, "a", &[]), window(-1, "b", &[2.0, 3.0]), window(11, "c", &[])]);
    assert_eq!(st.find("1").unwrap().app_id, "a");
    assert_eq!(st.find("-1").unwrap().app_id, "b");
    assert_eq!(st.find("11").unwrap().app_id, "c");
    assert!(st.find("01").is_none());
    assert_eq!(st.position_of("-1", 0.0), Some((2.0, 3.0)));
    assert_eq!(st.position_of("2", 0.0), None);
}

#[test]
fn commands_are_written_out() {
    assert_eq!(commands::move_to("7", -3, HIDE_SPOT), ["move", "--id", "7", "-3", "100000000"]);
    assert_eq!(commands::resize_to("7", 640, 480), ["resize", "--id", "7", "640", "480"]);
    assert_eq!(commands::set_camera(0, -1), ["camera", "0", "-1"]);
    assert_eq!(commands::set_opacity("7", 0), ["opacity", "--id", "7", "0"]);
    assert_eq!(commands::action("toggle-fullscreen"), ["action", "toggle-fullscreen"]);
    assert_eq!(commands::close("7"), ["close", "--id", "7"]);
    assert_eq!(commands::focus(&win("7", false, None)), ["focus", "x"]);
    let nameless = Win { app_id: String::new(), ..win("7", false, None) };
    assert_eq!(commands::focus(&nameless), ["focus", "--id", "7"]);
    assert_eq!(commands::fmt_i(i64::MIN), i64::MIN.to_string());
}

#[test]
fn failed_commands_are_told_with_their_complaint() {
    let args = commands::close("7");
    assert!(commands::msg(&args, true, "noise").is_ok());
    let e = commands::msg(&args, false, "  no such window\n").unwrap_err();
    assert!(matches!(e, DriftError::Failed { .. }));
    assert_eq!(e.message(), "driftwm msg close --id 7 失败: no such window");
}

#[test]
fn windows_are_described_by_id_and_position() {
    let w = win("7", false, Some((1.0, 2.0)));
    assert_eq!(commands::describe(&w, Some(("1", "-2"))), "id=7 @(1,-2)");
    assert_eq!(commands::describe(&w, None), "7");
}

/// Runs a camera hold; `in_place` answers the looks. Gives what was done.
fn hold(mut in_place: impl FnMut() -> bool) -> Vec<CameraAction> {
    let mut phase = CameraHold::Focusing;
    let mut done = Vec::new();
    while phase.action() != CameraAction::Done {
        done.push(phase.action());
        assert!(done.len() <= 10);
        let seen = matches!(phase.action(), CameraAction::Look { .. }) && in_place();
        phase = phase.next(seen);
    }
    done
}

#[test]
fn a_camera_in_place_is_left_alone() {
    assert_eq!(hold(|| true), vec![CameraAction::Focus, CameraAction::Look { after_ms: 320 }]);
}

#[test]
fn a_camera_that_drifts_is_moved_back_three_times() {
    let again = CameraAction::Look { after_ms: 120 };
    let expected = vec![
        CameraAction::Focus,
        CameraAction::Look { after_ms: 320 },
        CameraAction::SetCamera,
        again,
        CameraAction::SetCamera,
        again,
        CameraAction::SetCamera,
        CameraAction::Rest { ms: 120 },
    ];
    assert_eq!(hold(|| false), expected);
    let mut looks = 0;
    let corrected = hold(|| {
        looks += 1;
        looks == 2
    });
    assert_eq!(corrected, expected[..4].to_vec());
}

fn look(windows: Vec<DriftWindow<f64>>, expired: bool, same: bool, there: bool) -> Look<f64> {
    Look { state: canvas(windows), expired, same_place: same, on_target: there }
}

/// Waits for a window that is there from the look `comes_at` on. Gives what was done.
fn waited(comes_at: usize, expires_at: usize, same: bool, there: bool) -> (Vec<String>, bool) {
    let p = pad(PadSpec::default());
    let mut phase: WaitFor<f64> = WaitFor::start();
    let mut done = Vec::new();
    let mut looks = 0;
    let mut showings = 0.0;
    loop {
        match phase.action(&p) {
            WaitAction::Look { after_ms } => {
                done.push(format!("look {after_ms}"));
                let mut windows = vec![window(1, "other", &[])];
                if looks >= comes_at {
                    windows.push(window(2, "x", &[4.0, 5.0]));
                    windows.push(window(3, "x", &[]));
                }
                phase = phase.looked(&p, &look(windows, looks >= expires_at, same, there), 0.0);
                looks += 1;
            }
            WaitAction::Reveal { win, focus } => {
                assert_eq!(phase.window().unwrap().key, win.key);
                assert_eq!(win.position, Some((4.0, 5.0)));
                done.push(format!("reveal {} {focus}", win.key));
                showings += 1.0;
                phase = phase.revealed((showings, 0.0));
                // Where it was put the first time counts.
                if !matches!(phase.action(&p), WaitAction::Finish { .. }) {
                    assert_eq!(phase.expected(), Some((1.0, 0.0)));
                }
            }
            WaitAction::Finish { found } => return (done, found),
        }
    }
}

#[test]
fn a_window_that_came_is_placed_when_it_stands_still() {
    let (done, found) = waited(1, 100, true, true);
    assert!(found);
    assert_eq!(done, ["look 0", "look 120", "look 150", "reveal 2 true", "look 150"]);
}

#[test]
fn a_restless_window_is_placed_again() {
    let (done, found) = waited(0, 0, false, false);
    assert!(found);
    assert_eq!(done.iter().filter(|d| *d == "reveal 2 true").count(), 1);
    assert_eq!(done.iter().filter(|d| *d == "reveal 2 false").count(), 3);
    // One look finds it, twelve see it move, three see it out of place.
    assert_eq!(done.iter().filter(|d| d.starts_with("look")).count(), 16);
    assert_eq!(done.last().unwrap(), "reveal 2 false");
}

#[test]
fn waiting_gives_up_when_the_time_is_over() {
    let (done, found) = waited(100, 2, true, true);
    assert!(!found);
    assert_eq!(done, ["look 0", "look 120", "look 120"]);
    assert!(WaitFor::<f64>::start().window().is_none());
    let seen = window(9, "x", &[]);
    let next = WaitFor::start().saw(Some(&seen), &look(vec![], true, false, false), 0.0);
    assert_eq!(next.window().unwrap().key, "9");
}

#[test]
fn a_window_is_held_to_where_it_was_at_the_look_before() {
    let p = pad(PadSpec::default());
    let at = |x: f64| vec![window(2, "x", &[x, 5.0])];
    let phase: WaitFor<f64> = WaitFor::start();
    assert_eq!(phase.expected(), None);
    let phase = phase.looked(&p, &look(at(1.0), false, false, false), 0.0);
    assert_eq!(phase.expected(), None);
    let phase = phase.looked(&p, &look(at(2.0), false, false, false), 0.0);
    assert_eq!(phase.expected(), Some((2.0, 5.0)));
    let phase = phase.looked(&p, &look(vec![], false, false, false), 0.0);
    assert_eq!(phase.expected(), None);
}

#[test]
fn widgets_and_placeholders_count_while_waiting() {
    let p = pad(PadSpec::default());
    let mut widget = window(4, "x", &[]);
    widget.is_widget = true;
    let start: WaitFor<f64> = WaitFor::start();
    let phase = start.looked(&p, &look(vec![widget], true, false, false), 0.0);
    assert_eq!(phase.window().unwrap().key, "4");
}
