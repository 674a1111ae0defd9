use sprite_render::{Removed, SwitchError, WindowContexts};

fn promote(n: u32) -> Result<i64, &'static str> {
    Ok(n as i64)
}

fn demote(p: i64) -> Result<u32, &'static str> {
    Ok(p as u32)
}

#[test]
fn multi_window_isolation() {
    let mut w: WindowContexts<u32, i64> = WindowContexts::new();
    w.reset(1, 100, Some(11));
    assert!(w.add_window(2, 200).is_ok());
    assert_eq!(w.current_window_id(), Some(1));
    assert!(w.make_current(2, promote, demote).is_ok());
    assert_eq!(w.current_window_id(), Some(2));
    assert_eq!(w.current(), Some(&200));
    assert_eq!(w.current_vao(), None);
    w.set_current_vao(Some(22));
    let mut promoted = 0;
    let r = w.make_current(
        1,
        |n| {
            promoted += 1;
            promote(n)
        },
        demote,
    );
    assert!(r.is_ok());
    assert_eq!(promoted, 1);
    assert_eq!(w.current(), Some(&100));
    assert_eq!(w.current_vao(), Some(11));
    assert!(w.make_current(2, promote, demote).is_ok());
    assert_eq!(w.current_vao(), Some(22));
    assert_eq!(w.len(), 2);
}

#[test]
fn switching_to_the_current_window_does_nothing() {
    let mut w: WindowContexts<u32, i64> = WindowContexts::new();
    w.reset(1, 100, None);
    let r = w.make_current(
        1,
        |_: u32| -> Result<i64, ()> { panic!("promoted") },
        |_: i64| -> Result<u32, ()> { panic!("demoted") },
    );
    assert!(r.is_ok());
    assert_eq!(w.current(), Some(&100));
}

#[test]
fn switch_errors() {
    let mut w: WindowContexts<u32, i64> = WindowContexts::new();
    w.reset(1, 100, None);
    assert!(matches!(w.make_current(9, promote, demote), Err(SwitchError::UnknownWindow)));
    w.add_window(2, 200).unwrap();
    w.add_window(3, 300).unwrap();
    let r = w.make_current(2, |_| Err("lost"), demote);
    assert!(matches!(r, Err(SwitchError::Promote("lost"))));
    assert!(!w.contains(2));
    assert_eq!(w.current_window_id(), Some(1));
    let r = w.make_current(3, promote, |_| Err("gone"));
    assert!(matches!(r, Err(SwitchError::Demote("gone"))));
    assert!(!w.contains(1));
    assert_eq!(w.current_window_id(), Some(3));
    assert_eq!(w.len(), 1);
}

#[test]
fn add_and_remove_windows() {
    let mut w: WindowContexts<u32, i64> = WindowContexts::new();
    assert!(matches!(w.remove_window(1), Removed::Absent));
    w.reset(1, 100, None);
    assert_eq!(w.add_window(1, 5), Err(5));
    w.add_window(2, 200).unwrap();
    assert!(matches!(w.remove_window(2), Removed::NotCurrent(200)));
    assert!(matches!(w.remove_window(1), Removed::Current(100)));
    assert_eq!(w.current_window_id(), None);
    assert_eq!(w.len(), 0);
    w.add_window(4, 400).unwrap();
    assert!(w.make_current(4, promote, demote).is_ok());
    assert_eq!(w.current(), Some(&400));
    w.clear();
    assert_eq!(w.len(), 0);
    assert_eq!(w.current(), None);
}
