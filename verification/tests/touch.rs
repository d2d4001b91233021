use barmarchy::touch::{TouchState, BTN_TOUCH, EV_ABS, EV_KEY, MT_POS_X, MT_POS_Y, MT_SLOT, MT_TRACKING};

const MS: u64 = 1_000_000;

fn press(t: &mut TouchState, slot: i32, x: i32, y: i32, now: u64) {
    t.feed_at(EV_ABS, MT_SLOT, slot, now);
    t.feed_at(EV_ABS, MT_TRACKING, 7, now);
    t.feed_at(EV_ABS, MT_POS_X, x, now);
    t.feed_at(EV_ABS, MT_POS_Y, y, now);
}

fn lift(t: &mut TouchState, slot: i32, now: u64) {
    t.feed_at(EV_ABS, MT_SLOT, slot, now);
    t.feed_at(EV_ABS, MT_TRACKING, -1, now);
}

#[test]
fn quick_press_is_a_tap() {
    let mut t = TouchState::new(false);
    press(&mut t, 0, 1200, 40, 0);
    assert_eq!(t.active_pos(), Some((1200, 40)));
    lift(&mut t, 0, 100 * MS);
    assert_eq!(t.taps, vec![(1200, 40)]);
    assert_eq!(t.active_pos(), None);
}

#[test]
fn slow_or_moving_press_is_no_tap() {
    let mut t = TouchState::new(false);
    press(&mut t, 0, 100, 40, 0);
    lift(&mut t, 0, 600 * MS);
    assert!(t.taps.is_empty());
    press(&mut t, 0, 100, 40, 1000 * MS);
    t.feed_at(EV_ABS, MT_POS_X, 3200, 1010 * MS);
    lift(&mut t, 0, 1100 * MS);
    assert!(t.taps.is_empty());
    press(&mut t, 0, 100, 40, 2000 * MS);
    t.feed_at(EV_ABS, MT_POS_Y, 340, 2010 * MS);
    lift(&mut t, 0, 2100 * MS);
    assert!(t.taps.is_empty());
    // a small move still taps, at the final position
    press(&mut t, 0, 100, 40, 3000 * MS);
    t.feed_at(EV_ABS, MT_POS_X, 2999 + 100 - 1, 3010 * MS);
    lift(&mut t, 0, 3100 * MS);
    assert_eq!(t.taps, vec![(3098, 40)]);
}

#[test]
fn single_touch_echo_is_dropped() {
    let mut t = TouchState::new(false);
    press(&mut t, 0, 500, 30, 0);
    t.feed_at(EV_KEY, BTN_TOUCH, 1, 0);
    t.feed_at(EV_ABS, 0, 500, 0);
    t.feed_at(EV_ABS, 1, 30, 0);
    lift(&mut t, 0, 50 * MS);
    t.feed_at(EV_KEY, BTN_TOUCH, 0, 60 * MS);
    assert_eq!(t.taps, vec![(500, 30)]);
    // a single-touch contact on its own taps
    t.feed_at(EV_KEY, BTN_TOUCH, 1, 1000 * MS);
    t.feed_at(EV_ABS, 0, 700, 1000 * MS);
    t.feed_at(EV_ABS, 1, 20, 1000 * MS);
    t.feed_at(EV_KEY, BTN_TOUCH, 0, 1100 * MS);
    assert_eq!(t.taps, vec![(500, 30), (700, 20)]);
}

#[test]
fn active_position_is_lowest_down_slot() {
    let mut t = TouchState::new(false);
    press(&mut t, 3, 10, 11, 0);
    press(&mut t, 1, 20, 21, 0);
    assert_eq!(t.active_pos(), Some((20, 21)));
    lift(&mut t, 1, 10 * MS);
    assert_eq!(t.active_pos(), Some((10, 11)));
}

#[test]
fn clock_fed_events() {
    let mut t = TouchState::new(true);
    t.feed(EV_ABS, MT_SLOT, 0);
    t.feed(EV_ABS, MT_TRACKING, 1);
    t.feed(EV_ABS, MT_POS_X, 5);
    t.feed(EV_ABS, MT_POS_Y, 6);
    t.feed(EV_ABS, MT_TRACKING, -1);
    assert_eq!(t.taps, vec![(5, 6)]);
}
