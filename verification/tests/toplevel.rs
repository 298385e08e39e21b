use wayland_protocols_wlr::foreign_toplevel::v1::client::zwlr_foreign_toplevel_handle_v1::State;
use way_pad::backend::Win;
use way_pad::config::{Pad, PadSpec};
use way_pad::toplevel::{
    Binding, ByteOrder, Collecting, HandleEvent, HandleRequest, Role, Session, Waiting,
    COLLECT_ROUNDS, STATE_ACTIVATED, STATE_MINIMIZED, WAIT_REST_MS,
};

fn session() -> Session {
    let interfaces = ["wl_compositor", "wl_seat", "zwlr_foreign_toplevel_manager_v1"];
    Session::connect(&interfaces.iter().map(|s| s.to_string()).collect()).0
}

fn states(values: &[u32], order: ByteOrder) -> HandleEvent {
    let bytes = values
        .iter()
        .flat_map(|v| match order {
            ByteOrder::Little => v.to_le_bytes(),
            ByteOrder::Big => v.to_be_bytes(),
        })
        .collect();
    HandleEvent::State { bytes, order }
}

fn keyed(key: &str) -> Win<f64> {
    Win {
        key: key.to_string(),
        app_id: String::new(),
        title: String::new(),
        hidden: false,
        focused: false,
        position: None,
    }
}

fn pad(app_id: &str, focus_on_show: bool) -> Pad {
    let spec = PadSpec { app_id: app_id.to_string(), focus_on_show, ..PadSpec::default() };
    Pad::compile("p", &spec).unwrap()
}

#[test]
fn states_are_numbered_as_in_the_protocol() {
    assert_eq!(u32::from(State::Minimized), STATE_MINIMIZED);
    assert_eq!(u32::from(State::Activated), STATE_ACTIVATED);
}

#[test]
fn globals_are_bound_by_their_interfaces() {
    let interfaces = ["wl_seat", "x", "zwlr_foreign_toplevel_manager_v1", "wl_seat"];
    let (s, bindings) = Session::connect(&interfaces.iter().map(|s| s.to_string()).collect());
    assert!(s.supported() && s.has_seat);
    let seat = |index| Binding { index, role: Role::Seat, min_version: 1, max_version: 1 };
    let manager = Binding { index: 2, role: Role::Manager, min_version: 1, max_version: 3 };
    assert_eq!(bindings, vec![seat(0), manager, seat(3)]);
    let (s, bindings) = Session::connect(&vec!["wl_output".to_string()]);
    assert!(!s.supported() && !s.has_seat && bindings.is_empty());
}

#[test]
fn windows_become_what_is_told_of_them() {
    let mut s = session();
    s.toplevel(11);
    s.toplevel(12);
    s.event(11, HandleEvent::Title("标题".to_string()));
    s.event(11, HandleEvent::AppId("foot".to_string()));
    s.event(11, states(&[0, 1, 7], ByteOrder::Little));
    s.event(12, states(&[2], ByteOrder::Big));
    s.event(12, HandleEvent::Other);
    s.event(99, HandleEvent::Closed);
    let wins: Vec<Win<f64>> = s.snapshot();
    assert_eq!(wins.len(), 2);
    assert_eq!(wins[0].key, "11");
    assert_eq!((wins[0].app_id.as_str(), wins[0].title.as_str()), ("foot", "标题"));
    assert_eq!((wins[0].hidden, wins[0].focused), (true, false));
    assert_eq!((wins[1].hidden, wins[1].focused), (false, true));
    assert_eq!(wins[0].position, None);
}

#[test]
fn states_follow_the_order_of_this_machine() {
    let order = if 1u32.to_ne_bytes()[0] == 1 { ByteOrder::Little } else { ByteOrder::Big };
    let mut s = session();
    s.toplevel(1);
    let bytes = [1u32.to_ne_bytes(), 2u32.to_ne_bytes()].concat();
    s.event(1, HandleEvent::State { bytes, order });
    assert!(s.toplevels[0].minimized && s.toplevels[0].activated);
}

#[test]
fn only_the_last_states_count() {
    let mut s = session();
    s.toplevel(1);
    s.event(1, states(&[1, 2], ByteOrder::Little));
    s.event(1, states(&[2], ByteOrder::Little));
    assert!(!s.toplevels[0].minimized && s.toplevels[0].activated);
    s.event(1, states(&[], ByteOrder::Little));
    assert!(!s.toplevels[0].minimized && !s.toplevels[0].activated);
    let bytes = vec![9, 0, 0, 0, 1, 0, 0];
    s.event(1, HandleEvent::State { bytes, order: ByteOrder::Little });
    assert!(!s.toplevels[0].minimized);
    s.event(1, HandleEvent::State { bytes: vec![1, 0, 0, 1], order: ByteOrder::Little });
    assert!(!s.toplevels[0].minimized);
}

#[test]
fn closed_windows_are_gone_for_good() {
    let mut s = session();
    s.toplevel(1);
    s.toplevel(2);
    s.event(1, HandleEvent::Closed);
    s.event(1, HandleEvent::Title("still".to_string()));
    assert!(s.toplevels[0].closed);
    assert_eq!(s.live().len(), 1);
    assert_eq!(s.live()[0].handle, 2);
    assert_eq!(s.snapshot::<f64>().len(), 1);
}

#[test]
fn windows_are_collected_until_all_have_reported() {
    let mut s = session();
    assert_eq!(s.collect(0), Collecting::Roundtrip);
    assert_eq!(s.collect(9), Collecting::Roundtrip);
    assert_eq!(s.collect(COLLECT_ROUNDS), Collecting::Ready);
    s.toplevel(1);
    s.toplevel(2);
    s.event(1, HandleEvent::Done);
    assert_eq!(s.collect(1), Collecting::Roundtrip);
    s.event(2, HandleEvent::Done);
    assert_eq!(s.collect(0), Collecting::Roundtrip);
    assert_eq!(s.collect(1), Collecting::Ready);
}

#[test]
fn keys_lead_back_to_handles() {
    let mut s = session();
    for handle in [7, 70, u32::MAX] {
        s.toplevel(handle);
    }
    for w in s.snapshot::<f64>() {
        assert_eq!(s.find_by_key(&w.key).unwrap().to_string(), w.key);
    }
    assert_eq!(s.find_by_key("8"), None);
    assert_eq!(s.find_by_key("007"), None);
}

#[test]
fn windows_are_asked_by_their_handles() {
    let mut s = session();
    s.toplevel(5);
    assert_eq!(s.hide_window(&keyed("5")), Some((5, HandleRequest::SetMinimized)));
    assert_eq!(s.close_window(&keyed("5")), Some((5, HandleRequest::Close)));
    let unfocused = vec![HandleRequest::UnsetMinimized];
    let focused = vec![HandleRequest::UnsetMinimized, HandleRequest::Activate];
    assert_eq!(s.reveal_window(&keyed("5"), true), Some((5, focused)));
    assert_eq!(s.reveal_window(&keyed("5"), false), Some((5, unfocused)));
    assert_eq!(s.hide_window(&keyed("6")), None);
    assert_eq!(s.close_window(&keyed("6")), None);
    assert_eq!(s.reveal_window(&keyed("6"), true), None);
    let interfaces = vec!["zwlr_foreign_toplevel_manager_v1".to_string()];
    let (without_seat, _) = Session::connect(&interfaces);
    assert_eq!(without_seat.restore(true), vec![HandleRequest::UnsetMinimized]);
}

#[test]
fn the_first_window_that_comes_is_shown() {
    let mut s = session();
    let p = pad("foot", true);
    assert_eq!(WAIT_REST_MS, 30);
    assert_eq!(s.wait_for(&p, false), (Waiting::Roundtrip { rest_ms: 30 }, None));
    assert_eq!(s.wait_for(&p, true), (Waiting::TimedOut, None));
    for handle in [1, 2, 3] {
        s.toplevel(handle);
        s.event(handle, HandleEvent::AppId("foot".to_string()));
    }
    s.event(1, HandleEvent::Closed);
    let shown = Some((2, vec![HandleRequest::UnsetMinimized, HandleRequest::Activate]));
    assert_eq!(s.wait_for(&p, true), (Waiting::Found, shown));
    let unfocused = Some((2, vec![HandleRequest::UnsetMinimized]));
    assert_eq!(s.wait_for(&pad("foot", false), false), (Waiting::Found, unfocused));
    assert_eq!(s.wait_for(&pad("x", true), false).1, None);
    let given = Some((4, vec![HandleRequest::UnsetMinimized]));
    assert_eq!(s.wait_with(Some(4), false, true), (Waiting::Found, given));
    assert_eq!(Session::wait_until(true, true), Waiting::Found);
}
