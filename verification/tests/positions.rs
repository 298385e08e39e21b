use way_pad::positions::{PadWinState, Positions, Table, WinUpdate};

fn state(p: &Positions<f64>, pad: &str, key: &str) -> Option<(Option<(f64, f64)>, bool)> {
    p.memory(pad, key).map(|s| (s.pos, s.opacity_hidden))
}

#[test]
fn nothing_is_remembered_at_first() {
    let p: Positions<f64> = Positions::new();
    assert_eq!(state(&p, "a", "1"), None);
    assert_eq!(p.tables().len(), 0);
    assert!(p.opacity_hidden_keys().is_empty());
}

#[test]
fn the_last_change_counts_and_others_stay() {
    let p: Positions<f64> = Positions::new();
    let p = p.update_win_state("a", "1", WinUpdate::Stash(Some((3.0, 4.0))));
    let p = p.update_win_state("a", "2", WinUpdate::Stash(None));
    let p = p.update_win_state("b", "1", WinUpdate::Opacity(true));
    assert_eq!(state(&p, "a", "1"), Some((Some((3.0, 4.0)), false)));
    assert_eq!(state(&p, "a", "2"), Some((None, false)));
    assert_eq!(state(&p, "b", "1"), Some((None, true)));
    let p = p.update_win_state("a", "1", WinUpdate::Opacity(true));
    assert_eq!(state(&p, "a", "1"), Some((Some((3.0, 4.0)), true)));
    let p = p.update_win_state("a", "1", WinUpdate::Stash(Some((5.0, 6.0))));
    assert_eq!(state(&p, "a", "1"), Some((Some((5.0, 6.0)), false)));
    assert_eq!(state(&p, "b", "1"), Some((None, true)));
}

#[test]
fn a_forgotten_window_leaves_no_trace() {
    let p: Positions<f64> = Positions::new();
    let p = p.update_win_state("a", "1", WinUpdate::Opacity(true));
    let p = p.update_win_state("b", "1", WinUpdate::Opacity(true));
    let p = p.update_win_state("b", "2", WinUpdate::Opacity(true));
    let p = p.forget("1");
    assert_eq!(state(&p, "a", "1"), None);
    assert_eq!(state(&p, "b", "1"), None);
    assert_eq!(state(&p, "b", "2"), Some((None, true)));
    assert_eq!(p.tables().len(), 2);
}

#[test]
fn transparent_windows_are_listed_by_pads() {
    let p: Positions<f64> = Positions::new();
    let p = p.update_win_state("a", "4", WinUpdate::Opacity(true));
    let p = p.update_win_state("a", "2", WinUpdate::Opacity(false));
    let p = p.update_win_state("b", "3", WinUpdate::Stash(None));
    let p = p.update_win_state("a", "1", WinUpdate::Opacity(true));
    let list = p.opacity_hidden_keys();
    assert_eq!(list.len(), 1);
    assert_eq!(list[0].0, "a");
    assert_eq!(list[0].1, vec!["1", "4"]);
}

#[test]
fn names_come_in_the_order_of_a_sorted_map() {
    let names = ["b", "a", "10", "9", "", "终端", "音乐", "ab", "B", "\u{10000}", "\u{ffff}"];
    let mut p: Positions<f64> = Positions::new();
    let mut expected = std::collections::BTreeMap::<String, Vec<String>>::new();
    for name in names {
        for key in ["2", "10", "1"] {
            p = p.update_win_state(name, key, WinUpdate::Opacity(true));
        }
        let keys = ["1", "10", "2"].map(str::to_string).to_vec();
        expected.insert(name.to_string(), keys);
    }
    // A change leaves a name where it stands.
    p = p.update_win_state("b", "10", WinUpdate::Opacity(true));
    assert_eq!(p.opacity_hidden_keys(), expected.clone().into_iter().collect::<Vec<_>>());
    let tables = p.tables();
    let kept: Vec<&String> = (0..tables.len()).map(|i| tables.entry(i).0).collect();
    assert_eq!(kept, expected.keys().collect::<Vec<_>>());
    let p = p.forget("10");
    assert_eq!(p.opacity_hidden_keys()[0].1, vec!["1", "2"]);
}

#[test]
fn memory_can_be_replaced() {
    let p: Positions<f64> = Positions::new();
    let p = p.remember("a", "1", PadWinState { pos: Some((1.0, 2.0)), opacity_hidden: true });
    let p = p.remember("a", "1", PadWinState { pos: None, opacity_hidden: false });
    assert_eq!(state(&p, "a", "1"), Some((None, false)));
    let (pad, wins) = p.tables().entry(0);
    assert_eq!(pad, "a");
    assert_eq!(wins.len(), 1);
    assert_eq!(wins.entry(0).0, "1");
}

#[test]
fn tables_hold_each_name_once() {
    let t: Table<u32> = Table::new();
    let t = t.with("x", 1).with("y", 2).with("x", 3);
    assert_eq!(t.len(), 2);
    assert_eq!(t.get("x"), Some(&3));
    assert_eq!(t.get("z"), None);
    let (t, taken) = t.take("y");
    assert_eq!(taken, Some(2));
    let (t, taken) = t.take("y");
    assert_eq!(taken, None);
    let (t, last) = t.pop();
    assert_eq!(last, Some(("x".to_string(), 3)));
    let (t, last) = t.pop();
    assert_eq!(last, None);
    assert_eq!(t.len(), 0);
}
