use winman::{Config, Window, WindowSet};

fn win(hwnd: usize, title: &str) -> Window {
    Window::new(hwnd, title.to_string())
}

fn handles(set: &mut WindowSet, n: usize) -> Vec<usize> {
    // n cycles, each returning the new front
    let mut out = Vec::new();
    for _ in 0..n {
        out.push(set.cycle().expect("non-empty set").hwnd());
    }
    out
}

/// Front-to-back handles of a set, read by rotating it through one full period.
fn order(set: &mut WindowSet, n: usize) -> Vec<usize> {
    let mut seen = handles(set, n);
    // after n cycles the set is back in its order; the k-th call returned the
    // k-th window from the back, so reversing gives front-to-back
    seen.reverse();
    seen
}

#[test]
fn window_keeps_handle_and_title() {
    let w = win(42, "Editor");
    assert_eq!(w.hwnd(), 42);
    assert_eq!(w.title(), Some("Editor"));
    let c = w.clone();
    assert_eq!(c.hwnd(), 42);
    assert_eq!(c.title(), Some("Editor"));
}

#[test]
fn from_foreground_rejects_null_handle() {
    assert!(Window::from_foreground(0, "x".to_string()).is_none());
    let w = Window::from_foreground(9, "Shell".to_string()).unwrap();
    assert_eq!(w.hwnd(), 9);
    assert_eq!(w.title(), Some("Shell"));
}

#[test]
fn cycle_on_empty_set_returns_none() {
    let mut set = WindowSet::new();
    assert!(set.cycle().is_none());
    assert!(set.cycle().is_none());
}

#[test]
fn cycle_single_window_always_returns_it() {
    let mut set = WindowSet::new();
    set.add(win(1, "a"));
    for _ in 0..4 {
        assert_eq!(set.cycle().unwrap().hwnd(), 1);
    }
}

#[test]
fn cycle_visits_each_window_once_per_period() {
    let mut set = WindowSet::new();
    set.add(win(1, "a"));
    set.add(win(2, "b"));
    set.add(win(3, "c"));
    // front to back: 3, 2, 1; cycle brings the back to the front
    assert_eq!(handles(&mut set, 3), vec![1, 2, 3]);
    assert_eq!(set.cycle().unwrap().hwnd(), 1);
}

#[test]
fn add_moves_existing_handle_to_front() {
    let mut set = WindowSet::new();
    set.add(win(1, "a"));
    set.add(win(2, "b"));
    set.add(win(1, "a again"));
    assert_eq!(order(&mut set, 2), vec![1, 2]);
    // the re-added entry replaced the old one
    let mut titles = Vec::new();
    for _ in 0..2 {
        let w = set.cycle().unwrap();
        titles.push((w.hwnd(), w.title().unwrap().to_string()));
    }
    assert!(titles.contains(&(1, "a again".to_string())));
}

#[test]
fn adds_never_duplicate_handles() {
    let mut set = WindowSet::new();
    for h in [5usize, 6, 5, 7, 6, 5] {
        set.add(win(h, "w"));
    }
    let mut seen = order(&mut set, 3);
    assert_eq!(seen, vec![5, 6, 7]);
    seen.sort();
    seen.dedup();
    assert_eq!(seen.len(), 3);
}

#[test]
fn remove_returns_the_removed_window() {
    let mut set = WindowSet::new();
    set.add(win(1, "a"));
    set.add(win(2, "b"));
    let gone = set.remove(&win(1, "other title")).unwrap();
    assert_eq!(gone.hwnd(), 1);
    assert_eq!(gone.title(), Some("a"));
    assert!(set.remove(&win(1, "a")).is_none());
    assert_eq!(set.cycle().unwrap().hwnd(), 2);
    assert_eq!(set.cycle().unwrap().hwnd(), 2);
}

#[test]
fn remove_absent_window_is_not_an_error() {
    let mut set = WindowSet::new();
    assert!(set.remove(&win(3, "c")).is_none());
    assert!(set.cycle().is_none());
}

#[test]
fn track_then_cycle_returns_window() {
    let mut config = Config::new();
    config.track_window(4, win(11, "only"));
    let w = config.get_windows(4).unwrap().cycle().unwrap();
    assert_eq!(w.hwnd(), 11);
    assert_eq!(w.title(), Some("only"));
}

#[test]
fn clear_then_windows_not_found() {
    let mut config = Config::new();
    config.track_window(3, win(1, "a"));
    config.track_window(3, win(2, "b"));
    config.clear_windows(3);
    assert!(config.get_windows(3).is_none());
    // clearing a slot that was never tracked
    config.clear_windows(8);
    assert!(config.get_windows(8).is_none());
}

#[test]
fn untracked_slot_is_not_found() {
    let mut config = Config::new();
    assert!(config.get_windows(0x35).is_none());
}

#[test]
fn track_window_dedups_and_orders() {
    let mut config = Config::new();
    config.track_window(7, win(1, "W1"));
    config.track_window(7, win(2, "W2"));
    config.track_window(7, win(1, "W1"));
    let set = config.get_windows(7).unwrap();
    assert_eq!(order(set, 2), vec![1, 2]);
}

#[test]
fn slots_are_independent() {
    let mut config = Config::new();
    config.track_window(1, win(10, "a"));
    config.track_window(2, win(20, "b"));
    config.clear_windows(1);
    assert!(config.get_windows(1).is_none());
    assert_eq!(config.get_windows(2).unwrap().cycle().unwrap().hwnd(), 20);
}

/// Runs one switch press on `slot`, where activating a window succeeds
/// unless its handle is in `failing`; returns the handles tried, in order.
fn switch_press(config: &mut Config, slot: u32, failing: &[usize]) -> Vec<usize> {
    let mut tried = Vec::new();
    let mut next = config.begin_switch(slot);
    while let Some(w) = next {
        tried.push(w.hwnd());
        if failing.contains(&w.hwnd()) {
            next = config.skip_failed(slot, &w);
        } else {
            break;
        }
    }
    tried
}

#[test]
fn switch_drops_failed_windows_and_stops_on_success() {
    // A, B, C tracked in that order: front to back C, B, A, so the press
    // tries A first, then B, then C
    let (a, b, c) = (1usize, 2usize, 3usize);
    let mut config = Config::new();
    config.track_window(6, win(a, "A"));
    config.track_window(6, win(b, "B"));
    config.track_window(6, win(c, "C"));
    let tried = switch_press(&mut config, 6, &[a, b]);
    assert_eq!(tried, vec![a, b, c]);
    let set = config.get_windows(6).unwrap();
    // only C is left, and it is at the front
    assert_eq!(order(set, 1), vec![c]);
    assert!(set.remove(&win(a, "A")).is_none());
    assert!(set.remove(&win(b, "B")).is_none());
}

#[test]
fn switch_with_all_failing_leaves_slot_empty() {
    let mut config = Config::new();
    config.track_window(2, win(1, "a"));
    config.track_window(2, win(2, "b"));
    let tried = switch_press(&mut config, 2, &[1, 2]);
    assert_eq!(tried, vec![1, 2]);
    let set = config.get_windows(2).unwrap();
    assert!(set.cycle().is_none());
}

#[test]
fn switch_on_untracked_slot_does_nothing() {
    let mut config = Config::new();
    config.track_window(3, win(1, "a"));
    let tried = switch_press(&mut config, 5, &[]);
    assert!(tried.is_empty());
    assert!(config.begin_switch(5).is_none());
    assert!(config.get_windows(5).is_none());
    assert_eq!(config.get_windows(3).unwrap().cycle().unwrap().hwnd(), 1);
}

#[test]
fn skip_failed_on_untracked_slot_returns_none() {
    let mut config = Config::new();
    assert!(config.skip_failed(9, &win(1, "a")).is_none());
    assert!(config.get_windows(9).is_none());
}

#[test]
fn repeated_switch_tabs_through_slot() {
    let mut config = Config::new();
    config.track_window(1, win(1, "a"));
    config.track_window(1, win(2, "b"));
    assert_eq!(switch_press(&mut config, 1, &[]), vec![1]);
    assert_eq!(switch_press(&mut config, 1, &[]), vec![2]);
    assert_eq!(switch_press(&mut config, 1, &[]), vec![1]);
}
