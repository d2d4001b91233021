//! Multitouch parsing: evdev events in, taps out.
//!
//! The strip reports both the single-touch axes (`ABS_X`/`ABS_Y` with
//! `BTN_TOUCH`) and the multitouch protocol (slots, tracking ids). A
//! contact becomes a tap when it lifts within 0.6 s having moved less
//! than 3000 units across and 300 down. A single-touch tap that follows
//! a multitouch tap by less than 0.15 s is the same contact and dropped.
use vstd::prelude::*;
use crate::clock::{elapsed, elapsed_ns, instant_now, nanos_since};

verus! {

pub const EV_SYN: u16 = 0;
pub const EV_KEY: u16 = 1;
pub const EV_ABS: u16 = 3;
pub const BTN_TOUCH: u16 = 330;
pub const KEY_FN: u16 = 464;
pub const KEY_LSHIFT: u16 = 42;
pub const KEY_RSHIFT: u16 = 54;
pub const KEY_LCTRL: u16 = 29;
pub const KEY_RCTRL: u16 = 97;
pub const KEY_CAPSLOCK: u16 = 58;
pub const KEY_LMETA: u16 = 125;
pub const KEY_RMETA: u16 = 126;
pub const MT_SLOT: u16 = 47;
pub const MT_POS_X: u16 = 53;
pub const MT_POS_Y: u16 = 54;
pub const MT_TRACKING: u16 = 57;

/// Longest press that still counts as a tap, in nanoseconds.
pub const TAP_MAX_NS: u64 = 600_000_000;
/// A single-touch tap this soon after a multitouch tap is its echo.
pub const ECHO_NS: u64 = 150_000_000;
pub const TAP_MAX_DX: i32 = 3000;
pub const TAP_MAX_DY: i32 = 300;

/// One multitouch slot: when it went down, where it is, where it started.
#[derive(Clone, Copy)]
pub struct Finger {
    pub down: Option<u64>,
    pub x: Option<i32>,
    pub y: Option<i32>,
    pub ax: Option<i32>,
    pub ay: Option<i32>,
}

impl Finger {
    pub open spec fn empty() -> Finger {
        Finger { down: None, x: None, y: None, ax: None, ay: None }
    }
}

/// The abstract state of a `TouchState`.
pub struct TouchView {
    pub slot: i32,
    pub fingers: Map<i32, Finger>,
    pub taps: Seq<(i32, i32)>,
    pub debug: bool,
    pub st_down: Option<u64>,
    pub st_x: i32,
    pub st_y: i32,
    pub st_ax: i32,
    pub st_ay: i32,
    pub st_seen: bool,
    pub last_mt_tap: Option<u64>,
}

pub open spec fn abs(v: int) -> int {
    if v < 0 {
        -v
    } else {
        v
    }
}

/// A release after `dt` nanoseconds that moved `(dx, dy)` is a tap.
pub open spec fn is_tap(dt: int, dx: int, dy: int) -> bool {
    dt < TAP_MAX_NS && dx < TAP_MAX_DX && dy < TAP_MAX_DY
}

/// Record a tap at `(x, y)`; a single-touch one within `ECHO_NS` of the
/// last multitouch tap is dropped.
pub open spec fn tapped(s: TouchView, x: i32, y: i32, mt: bool, now: u64) -> TouchView {
    if !mt && s.last_mt_tap is Some && elapsed(s.last_mt_tap->0, now) < ECHO_NS {
        s
    } else {
        TouchView {
            taps: s.taps.push((x, y)),
            last_mt_tap: if mt {
                Some(now)
            } else {
                s.last_mt_tap
            },
            ..s
        }
    }
}

/// The finger of the current slot (a fresh one when the slot is new).
pub open spec fn cur_finger(s: TouchView) -> Finger {
    if s.fingers.contains_key(s.slot) {
        s.fingers[s.slot]
    } else {
        Finger::empty()
    }
}

pub open spec fn with_finger(s: TouchView, f: Finger) -> TouchView {
    TouchView { fingers: s.fingers.insert(s.slot, f), ..s }
}

/// Where a lifted finger counts from: its anchor, else its position, else 0.
pub open spec fn anchor(a: Option<i32>, p: Option<i32>) -> i32 {
    match a {
        Some(v) => v,
        None => match p {
            Some(v) => v,
            None => 0,
        },
    }
}

pub open spec fn pos_or(p: Option<i32>, d: i32) -> i32 {
    match p {
        Some(v) => v,
        None => d,
    }
}

/// A multitouch lift of finger `f` at `now`.
pub open spec fn mt_lift(s: TouchView, f: Finger, now: u64) -> TouchView {
    match f.down {
        None => with_finger(s, Finger { ax: None, ay: None, ..f }),
        Some(t0) => {
            let ax = anchor(f.ax, f.x);
            let ay = anchor(f.ay, f.y);
            let x = pos_or(f.x, ax);
            let y = pos_or(f.y, ay);
            let s1 = with_finger(s, Finger { down: None, ax: None, ay: None, ..f });
            if is_tap(elapsed(t0, now), abs(x - ax), abs(y - ay)) {
                tapped(s1, x, y, true, now)
            } else {
                s1
            }
        },
    }
}

/// A single-touch `BTN_TOUCH` release at `now`.
pub open spec fn st_release(s: TouchView, now: u64) -> TouchView {
    match s.st_down {
        None => s,
        Some(t0) => {
            let s1 = TouchView { st_down: None, ..s };
            if !s.st_seen {
                s1
            } else if is_tap(elapsed(t0, now), abs(s.st_x - s.st_ax), abs(s.st_y - s.st_ay)) {
                tapped(s1, s.st_x, s.st_y, false, now)
            } else {
                s1
            }
        },
    }
}

/// The effect of one evdev event `(typ, code, val)` read at `now`.
pub open spec fn step(s: TouchView, typ: u16, code: u16, val: i32, now: u64) -> TouchView {
    if typ == EV_ABS && code == MT_SLOT {
        TouchView { slot: val, ..s }
    } else if typ == EV_KEY && code == BTN_TOUCH {
        if val == 1 {
            TouchView { st_down: Some(now), st_seen: false, st_ax: s.st_x, st_ay: s.st_y, ..s }
        } else {
            st_release(s, now)
        }
    } else if typ != EV_ABS {
        s
    } else if code == 0 {
        TouchView { st_x: val, st_seen: true, ..s }
    } else if code == 1 {
        TouchView { st_y: val, st_seen: true, ..s }
    } else {
        let f = cur_finger(s);
        if code == MT_TRACKING {
            if val == -1 {
                mt_lift(s, f, now)
            } else {
                with_finger(s, Finger { down: Some(now), ax: None, ay: None, ..f })
            }
        } else if code == MT_POS_X {
            with_finger(
                s,
                Finger {
                    x: Some(val),
                    ax: if f.ax is None {
                        Some(val)
                    } else {
                        f.ax
                    },
                    ..f
                },
            )
        } else if code == MT_POS_Y {
            with_finger(
                s,
                Finger {
                    y: Some(val),
                    ay: if f.ay is None {
                        Some(val)
                    } else {
                        f.ay
                    },
                    ..f
                },
            )
        } else {
            with_finger(s, f)
        }
    }
}

/// `a - b` and its absolute value fit in `i32` (else the arithmetic of a
/// lift overflows).
pub open spec fn fits(d: int) -> bool {
    i32::MIN < d <= i32::MAX
}

/// The event can be fed without an arithmetic overflow.
pub open spec fn feed_ok(s: TouchView, typ: u16, code: u16, val: i32) -> bool {
    if typ == EV_KEY && code == BTN_TOUCH && val != 1 && s.st_down is Some && s.st_seen {
        fits(s.st_x - s.st_ax) && fits(s.st_y - s.st_ay)
    } else if typ == EV_ABS && code == MT_TRACKING && val == -1 && cur_finger(s).down is Some {
        let f = cur_finger(s);
        let ax = anchor(f.ax, f.x);
        let ay = anchor(f.ay, f.y);
        fits(pos_or(f.x, ax) - ax) && fits(pos_or(f.y, ay) - ay)
    } else {
        true
    }
}

/// The state right after `TouchState::new(debug)`.
pub open spec fn initial(debug: bool) -> TouchView {
    TouchView {
        slot: 0,
        fingers: Map::empty(),
        taps: Seq::empty(),
        debug,
        st_down: None,
        st_x: 0,
        st_y: 0,
        st_ax: 0,
        st_ay: 0,
        st_seen: false,
        last_mt_tap: None,
    }
}

/// The finger is down and its position is known.
pub open spec fn ready(f: Finger) -> bool {
    f.down is Some && f.x is Some && f.y is Some
}

/// Slots as stored: no slot twice.
pub open spec fn unique_slots(s: Seq<(i32, Finger)>) -> bool {
    forall|i: int, j: int| 0 <= i < s.len() && 0 <= j < s.len() && i != j ==> s[i].0 != s[j].0
}

pub open spec fn has_slot(s: Seq<(i32, Finger)>, k: i32) -> bool {
    exists|i: int| 0 <= i < s.len() && s[i].0 == k
}

/// The stored slots as a map.
pub open spec fn slot_map(s: Seq<(i32, Finger)>) -> Map<i32, Finger> {
    Map::new(
        |k: i32| has_slot(s, k),
        |k: i32| s[choose|i: int| 0 <= i < s.len() && s[i].0 == k].1,
    )
}

proof fn lemma_slot_map_at(s: Seq<(i32, Finger)>, i: int)
    requires
        unique_slots(s),
        0 <= i < s.len(),
    ensures
        slot_map(s).contains_key(s[i].0),
        slot_map(s)[s[i].0] == s[i].1,
{
    let k = s[i].0;
    assert(has_slot(s, k));
    let j = choose|j: int| 0 <= j < s.len() && s[j].0 == k;
    assert(j == i);
}

proof fn lemma_slot_map_update(s: Seq<(i32, Finger)>, i: int, f: Finger)
    requires
        unique_slots(s),
        0 <= i < s.len(),
    ensures
        unique_slots(s.update(i, (s[i].0, f))),
        slot_map(s.update(i, (s[i].0, f))) =~= slot_map(s).insert(s[i].0, f),
{
    let t = s.update(i, (s[i].0, f));
    assert(unique_slots(t));
    assert forall|k: i32| #[trigger] has_slot(t, k) == (has_slot(s, k) || k == s[i].0) by {
        if has_slot(s, k) {
            let j = choose|j: int| 0 <= j < s.len() && s[j].0 == k;
            assert(t[j].0 == k);
        }
        if has_slot(t, k) {
            let j = choose|j: int| 0 <= j < t.len() && t[j].0 == k;
            assert(s[j].0 == k);
        }
    }
    assert forall|k: i32| has_slot(t, k) implies slot_map(t)[k] == slot_map(s).insert(
        s[i].0,
        f,
    )[k] by {
        let j = choose|j: int| 0 <= j < t.len() && t[j].0 == k;
        lemma_slot_map_at(t, j);
        if j != i {
            lemma_slot_map_at(s, j);
        }
    }
}

proof fn lemma_slot_map_push(s: Seq<(i32, Finger)>, k: i32, f: Finger)
    requires
        unique_slots(s),
        !has_slot(s, k),
    ensures
        unique_slots(s.push((k, f))),
        slot_map(s.push((k, f))) =~= slot_map(s).insert(k, f),
{
    let t = s.push((k, f));
    assert(unique_slots(t)) by {
        assert forall|i: int, j: int|
            0 <= i < t.len() && 0 <= j < t.len() && i != j implies t[i].0 != t[j].0 by {
            if i == s.len() {
                assert(s[j].0 == t[j].0);
            } else if j == s.len() {
                assert(s[i].0 == t[i].0);
            }
        }
    }
    assert forall|m: i32| #[trigger] has_slot(t, m) == (has_slot(s, m) || m == k) by {
        if has_slot(s, m) {
            let j = choose|j: int| 0 <= j < s.len() && s[j].0 == m;
            assert(t[j].0 == m);
        }
        if m == k {
            assert(t[s.len() as int].0 == m);
        }
        if has_slot(t, m) && m != k {
            let j = choose|j: int| 0 <= j < t.len() && t[j].0 == m;
            assert(s[j].0 == m);
        }
    }
    assert forall|m: i32| has_slot(t, m) implies slot_map(t)[m] == slot_map(s).insert(k, f)[m] by {
        let j = choose|j: int| 0 <= j < t.len() && t[j].0 == m;
        lemma_slot_map_at(t, j);
        if j < s.len() {
            lemma_slot_map_at(s, j);
        }
    }
}

/// Touch parser state: the finger of every slot seen, the single-touch
/// contact, and the taps recognised so far.
pub struct TouchState {
    slot: i32,
    fingers: Vec<(i32, Finger)>,
    pub taps: Vec<(i32, i32)>,
    debug: bool,
    st_down: Option<u64>,
    st_x: i32,
    st_y: i32,
    st_ax: i32,
    st_ay: i32,
    st_seen: bool,
    last_mt_tap: Option<u64>,
    epoch: std::time::Instant,
}

impl View for TouchState {
    type V = TouchView;

    closed spec fn view(&self) -> TouchView {
        TouchView {
            slot: self.slot,
            fingers: slot_map(self.fingers@),
            taps: self.taps@,
            debug: self.debug,
            st_down: self.st_down,
            st_x: self.st_x,
            st_y: self.st_y,
            st_ax: self.st_ax,
            st_ay: self.st_ay,
            st_seen: self.st_seen,
            last_mt_tap: self.last_mt_tap,
        }
    }
}

impl TouchState {
    /// Internal consistency: each slot is stored once.
    pub closed spec fn wf(&self) -> bool {
        unique_slots(self.fingers@)
    }

    pub fn new(debug: bool) -> (r: TouchState)
        ensures
            r.wf(),
            r@ == initial(debug),
    {
        let r = TouchState {
            slot: 0,
            fingers: Vec::new(),
            taps: Vec::new(),
            debug,
            st_down: None,
            st_x: 0,
            st_y: 0,
            st_ax: 0,
            st_ay: 0,
            st_seen: false,
            last_mt_tap: None,
            epoch: instant_now(),
        };
        assert(r@.fingers =~= Map::<i32, Finger>::empty());
        r
    }

    /// Index of `slot` among the stored fingers.
    fn slot_index(&self, slot: i32) -> (r: Option<usize>)
        requires
            self.wf(),
        ensures
            match r {
                Some(i) => i < self.fingers@.len() && self.fingers@[i as int].0 == slot,
                None => !has_slot(self.fingers@, slot),
            },
    {
        let mut i: usize = 0;
        while i < self.fingers.len()
            invariant
                i <= self.fingers.len(),
                forall|j: int| 0 <= j < i ==> self.fingers@[j].0 != slot,
            decreases self.fingers.len() - i,
        {
            if self.fingers[i].0 == slot {
                return Some(i);
            }
            i += 1;
        }
        None
    }

    /// Current position of an in-progress contact (for slider drags): the
    /// lowest slot that is down with a known position.
    pub fn active_pos(&self) -> (r: Option<(i32, i32)>)
        requires
            self.wf(),
        ensures
            match r {
                None => forall|k: i32| #[trigger]
                    self@.fingers.contains_key(k) ==> !ready(self@.fingers[k]),
                Some(p) => exists|k: i32|
                    {
                        &&& #[trigger] self@.fingers.contains_key(k)
                        &&& ready(self@.fingers[k])
                        &&& self@.fingers[k].x == Some(p.0)
                        &&& self@.fingers[k].y == Some(p.1)
                        &&& forall|k2: i32|
                            self@.fingers.contains_key(k2) && ready(self@.fingers[k2]) ==> k <= k2
                    },
            },
    {
        let mut best: Option<usize> = None;
        let mut i: usize = 0;
        while i < self.fingers.len()
            invariant
                self.wf(),
                i <= self.fingers.len(),
                match best {
                    None => forall|j: int| 0 <= j < i ==> !ready(#[trigger] self.fingers@[j].1),
                    Some(b) => b < i && ready(self.fingers@[b as int].1) && forall|j: int|
                        0 <= j < i && ready(#[trigger] self.fingers@[j].1) ==> self.fingers@[b as int].0
                            <= self.fingers@[j].0,
                },
            decreases self.fingers.len() - i,
        {
            let f = self.fingers[i].1;
            if f.down.is_some() && f.x.is_some() && f.y.is_some() {
                match best {
                    None => {
                        best = Some(i);
                    },
                    Some(b) => {
                        if self.fingers[i].0 < self.fingers[b].0 {
                            best = Some(i);
                        }
                    },
                }
            }
            i += 1;
        }
        match best {
            None => {
                proof {
                    let s = self.fingers@;
                    assert forall|k: i32| #[trigger]
                        slot_map(s).contains_key(k) implies !ready(slot_map(s)[k]) by {
                        assert(has_slot(s, k));
                        let j = choose|j: int| 0 <= j < s.len() && s[j].0 == k;
                        lemma_slot_map_at(s, j);
                        assert(!ready(s[j].1));
                    }
                    assert(self@.fingers == slot_map(s));
                    assert forall|k: i32| #[trigger]
                        self@.fingers.contains_key(k) implies !ready(self@.fingers[k]) by {
                        assert(slot_map(s).contains_key(k));
                    }
                }
                None
            },
            Some(b) => {
                let f = self.fingers[b].1;
                proof {
                    let s = self.fingers@;
                    lemma_slot_map_at(s, b as int);
                    assert forall|k2: i32|
                        self@.fingers.contains_key(k2) && ready(self@.fingers[k2]) implies s[b as int].0
                        <= k2 by {
                        assert(has_slot(s, k2));
                        let j = choose|j: int| 0 <= j < s.len() && s[j].0 == k2;
                        lemma_slot_map_at(s, j);
                    }
                }
                match (f.x, f.y) {
                    (Some(x), Some(y)) => {
                        let ghost k = self.fingers@[b as int].0;
                        assert(self@.fingers.contains_key(k));
                        assert(self@.fingers[k] == f);
                        Some((x, y))
                    },
                    _ => None,
                }
            },
        }
    }

    /// Record a tap (see `tapped`).
    fn tap(&mut self, x: i32, y: i32, mt: bool, now: u64)
        requires
            old(self).wf(),
        ensures
            final(self).wf(),
            final(self)@ == tapped(old(self)@, x, y, mt, now),
    {
        if !mt {
            if let Some(t) = self.last_mt_tap {
                if elapsed_ns(t, now) < ECHO_NS {
                    return;
                }
            }
        }
        if mt {
            self.last_mt_tap = Some(now);
        }
        self.taps.push((x, y));
    }

    /// Store finger `f` at the current slot.
    fn put_finger(&mut self, f: Finger)
        requires
            old(self).wf(),
        ensures
            final(self).wf(),
            final(self)@ == with_finger(old(self)@, f),
    {
        let slot = self.slot;
        match self.slot_index(slot) {
            Some(i) => {
                proof {
                    lemma_slot_map_update(self.fingers@, i as int, f);
                }
                self.fingers.set(i, (slot, f));
            },
            None => {
                proof {
                    lemma_slot_map_push(self.fingers@, slot, f);
                }
                self.fingers.push((slot, f));
            },
        }
    }

    /// The finger of the current slot.
    fn current(&self) -> (f: Finger)
        requires
            self.wf(),
        ensures
            f == cur_finger(self@),
    {
        match self.slot_index(self.slot) {
            Some(i) => {
                proof {
                    lemma_slot_map_at(self.fingers@, i as int);
                }
                self.fingers[i].1
            },
            None => Finger { down: None, x: None, y: None, ax: None, ay: None },
        }
    }

    /// Whether `feed` can take this event without an arithmetic overflow.
    pub fn can_feed(&self, typ: u16, code: u16, val: i32) -> (r: bool)
        requires
            self.wf(),
        ensures
            r == feed_ok(self@, typ, code, val),
    {
        if typ == EV_KEY && code == BTN_TOUCH && val != 1 && self.st_down.is_some() && self.st_seen {
            let dx = self.st_x as i64 - self.st_ax as i64;
            let dy = self.st_y as i64 - self.st_ay as i64;
            -2147483648 < dx && dx <= 2147483647 && -2147483648 < dy && dy <= 2147483647
        } else if typ == EV_ABS && code == MT_TRACKING && val == -1 {
            let f = self.current();
            if f.down.is_none() {
                return true;
            }
            let ax = match f.ax { Some(v) => v, None => match f.x { Some(v) => v, None => 0 } };
            let ay = match f.ay { Some(v) => v, None => match f.y { Some(v) => v, None => 0 } };
            let x = match f.x { Some(v) => v, None => ax };
            let y = match f.y { Some(v) => v, None => ay };
            let dx = x as i64 - ax as i64;
            let dy = y as i64 - ay as i64;
            -2147483648 < dx && dx <= 2147483647 && -2147483648 < dy && dy <= 2147483647
        } else {
            true
        }
    }

    /// Feed one evdev event read at `now` (nanoseconds since this state's
    /// epoch).
    pub fn feed_at(&mut self, typ: u16, code: u16, val: i32, now: u64)
        requires
            old(self).wf(),
            feed_ok(old(self)@, typ, code, val),
        ensures
            final(self).wf(),
            final(self)@ == step(old(self)@, typ, code, val, now),
    {
        if typ == EV_ABS && code == MT_SLOT {
            self.slot = val;
            return ;
        }
        if typ == EV_KEY && code == BTN_TOUCH {
            if val == 1 {
                self.st_down = Some(now);
                self.st_seen = false;
                self.st_ax = self.st_x;
                self.st_ay = self.st_y;
            } else if let Some(t0) = self.st_down {
                self.st_down = None;
                if !self.st_seen {
                    return ;
                }
                let dt = elapsed_ns(t0, now);
                let d1 = self.st_x - self.st_ax;
                let d2 = self.st_y - self.st_ay;
                let dx = if d1 < 0 { -d1 } else { d1 };
                let dy = if d2 < 0 { -d2 } else { d2 };
                if dt < TAP_MAX_NS && dx < TAP_MAX_DX && dy < TAP_MAX_DY {
                    let (x, y) = (self.st_x, self.st_y);
                    self.tap(x, y, false, now);
                }
            }
            return ;
        }
        if typ != EV_ABS {
            return ;
        }
        if code == 0 {
            self.st_x = val;
            self.st_seen = true;
            return ;
        }
        if code == 1 {
            self.st_y = val;
            self.st_seen = true;
            return ;
        }
        let f = self.current();
        if code == MT_TRACKING {
            if val == -1 {
                match f.down {
                    None => {
                        self.put_finger(Finger { ax: None, ay: None, ..f });
                    },
                    Some(t0) => {
                        let ax = match f.ax { Some(v) => v, None => match f.x { Some(v) => v, None => 0 } };
                        let ay = match f.ay { Some(v) => v, None => match f.y { Some(v) => v, None => 0 } };
                        let x = match f.x { Some(v) => v, None => ax };
                        let y = match f.y { Some(v) => v, None => ay };
                        let d1 = x - ax;
                        let d2 = y - ay;
                        let dx = if d1 < 0 { -d1 } else { d1 };
                        let dy = if d2 < 0 { -d2 } else { d2 };
                        let dt = elapsed_ns(t0, now);
                        self.put_finger(Finger { down: None, ax: None, ay: None, ..f });
                        if dt < TAP_MAX_NS && dx < TAP_MAX_DX && dy < TAP_MAX_DY {
                            self.tap(x, y, true, now);
                        }
                    },
                }
            } else {
                self.put_finger(Finger { down: Some(now), ax: None, ay: None, ..f });
            }
        } else if code == MT_POS_X {
            let ax = if f.ax.is_none() { Some(val) } else { f.ax };
            self.put_finger(Finger { x: Some(val), ax, ..f });
        } else if code == MT_POS_Y {
            let ay = if f.ay.is_none() { Some(val) } else { f.ay };
            self.put_finger(Finger { y: Some(val), ay, ..f });
        } else {
            self.put_finger(f);
        }
    }

    /// Feed one evdev event, timed by the monotonic clock.
    pub fn feed(&mut self, typ: u16, code: u16, val: i32)
        requires
            old(self).wf(),
            feed_ok(old(self)@, typ, code, val),
        ensures
            final(self).wf(),
            exists|now: u64| final(self)@ == step(old(self)@, typ, code, val, now),
            old(self)@.taps.len() <= final(self)@.taps.len() <= old(self)@.taps.len() + 1,
            final(self)@.taps.subrange(0, old(self)@.taps.len() as int) == old(self)@.taps,
    {
        let now = nanos_since(&self.epoch);
        let ghost before = self@;
        self.feed_at(typ, code, val, now);
        proof {
            law_taps_append_only(before, typ, code, val, now);
            assert(before.taps.subrange(0, before.taps.len() as int) =~= before.taps);
            if self@.taps != before.taps {
                let p = choose|p: (i32, i32)| step(before, typ, code, val, now).taps == before.taps.push(p);
                assert(self@.taps.subrange(0, before.taps.len() as int) =~= before.taps);
            }
        }
    }
}

/// Taps are only ever appended: an event adds at most one tap at the end
/// and never changes or drops the taps already recognised.
pub proof fn law_taps_append_only(s: TouchView, typ: u16, code: u16, val: i32, now: u64)
    ensures
        step(s, typ, code, val, now).taps == s.taps || exists|p: (i32, i32)|
            step(s, typ, code, val, now).taps == s.taps.push(p),
{
    let t = step(s, typ, code, val, now);
    if t.taps != s.taps {
        assert(t.taps == s.taps.push(t.taps.last()));
    }
}

/// Only a lift makes a tap: a `BTN_TOUCH` release or a multitouch
/// tracking id of -1.
pub proof fn law_tap_needs_lift(s: TouchView, typ: u16, code: u16, val: i32, now: u64)
    requires
        step(s, typ, code, val, now).taps != s.taps,
    ensures
        (typ == EV_KEY && code == BTN_TOUCH && val != 1) || (typ == EV_ABS && code == MT_TRACKING
            && val == -1),
{
}

/// A single-touch release within 0.15 s of the last multitouch tap adds
/// no tap: it is the echo of the same contact.
pub proof fn law_single_touch_echo_dropped(s: TouchView, now: u64)
    requires
        s.last_mt_tap is Some,
        elapsed(s.last_mt_tap->0, now) < ECHO_NS,
    ensures
        step(s, EV_KEY, BTN_TOUCH, 0, now).taps == s.taps,
{
}

/// A quick, still press and lift of one finger is a tap at its position.
pub proof fn law_quick_touch_is_tap(s: TouchView, t0: u64, now: u64, x: i32, y: i32)
    requires
        cur_finger(s).down == Some(t0),
        cur_finger(s).x == Some(x),
        cur_finger(s).y == Some(y),
        cur_finger(s).ax == Some(x),
        cur_finger(s).ay == Some(y),
        elapsed(t0, now) < TAP_MAX_NS,
    ensures
        step(s, EV_ABS, MT_TRACKING, -1i32, now).taps == s.taps.push((x, y)),
        step(s, EV_ABS, MT_TRACKING, -1i32, now).last_mt_tap == Some(now),
{
}

/// A single-touch press held 0.6 s or longer is no tap, whatever it did:
/// its `BTN_TOUCH` release leaves the taps as they were.
pub proof fn law_long_single_press_no_tap(s: TouchView, t0: u64, now: u64, v: i32)
    requires
        v != 1,
        s.st_down == Some(t0),
        elapsed(t0, now) >= 600_000_000,
    ensures
        step(s, 1, 330, v, now).taps == s.taps,
{
}

/// A single-touch press that slid 3000 units or more across, or 300 or
/// more along the short axis, is no tap either.
pub proof fn law_moved_single_press_no_tap(s: TouchView, t0: u64, now: u64, v: i32)
    requires
        v != 1,
        s.st_down == Some(t0),
        abs(s.st_x - s.st_ax) >= 3000 || abs(s.st_y - s.st_ay) >= 300,
    ensures
        step(s, 1, 330, v, now).taps == s.taps,
{
}

/// A quick (under 0.6 s), still (under 3000 by 300 units of travel)
/// single-touch press that reported a position, released at least 0.15 s
/// after the last multitouch tap, adds exactly one tap at its position.
pub proof fn law_quick_single_press_is_tap(s: TouchView, t0: u64, now: u64, v: i32)
    requires
        v != 1,
        s.st_down == Some(t0),
        s.st_seen,
        elapsed(t0, now) < 600_000_000,
        abs(s.st_x - s.st_ax) < 3000,
        abs(s.st_y - s.st_ay) < 300,
        s.last_mt_tap is None || elapsed(s.last_mt_tap->0, now) >= 150_000_000,
    ensures
        step(s, 1, 330, v, now).taps == s.taps.push((s.st_x, s.st_y)),
{
}

/// A multitouch finger held 0.6 s or longer adds no tap when it lifts.
pub proof fn law_long_multitouch_press_no_tap(s: TouchView, t0: u64, now: u64)
    requires
        cur_finger(s).down == Some(t0),
        elapsed(t0, now) >= 600_000_000,
    ensures
        step(s, 3, 57, -1i32, now).taps == s.taps,
{
}

/// A multitouch finger that slid 3000 units or more across, or 300 or
/// more along the short axis, from where it first reported, adds no tap
/// when it lifts.
pub proof fn law_moved_multitouch_press_no_tap(s: TouchView, t0: u64, x: i32, y: i32, ax: i32, ay: i32, now: u64)
    requires
        cur_finger(s).down == Some(t0),
        cur_finger(s).x == Some(x),
        cur_finger(s).y == Some(y),
        cur_finger(s).ax == Some(ax),
        cur_finger(s).ay == Some(ay),
        abs(x - ax) >= 3000 || abs(y - ay) >= 300,
    ensures
        step(s, 3, 57, -1i32, now).taps == s.taps,
{
}

} // verus!
