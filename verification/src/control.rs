//! The live loop's decisions: modifier keys, which overlay a tap goes to,
//! what a tap on the strip does, slider drags and their throttled
//! applies, debounced toggles, overlay timeouts and the pet override.
//!
//! The daemon polls the devices, hit-tests taps against the float layout
//! and performs the returned actions; the state it threads through is a
//! `Live`. Times are nanoseconds of the daemon's monotonic clock.
use vstd::prelude::*;
use crate::clock::{elapsed, elapsed_ns};
use crate::config::{AppEntry, AppView, Button};
use crate::deck::PetMood;
use crate::render::{slider_default, slider_defaults, SliderState};
use crate::text::{opt_view, owned, str_eq};
use crate::touch::{
    EV_KEY, KEY_CAPSLOCK, KEY_FN, KEY_LCTRL, KEY_LMETA, KEY_LSHIFT, KEY_RCTRL, KEY_RMETA,
    KEY_RSHIFT,
};

verus! {

// ---------------------------------------------------------------------------
// keys
// ---------------------------------------------------------------------------

/// Held keys of the internal keyboard that change the bar.
#[derive(Debug, Clone, Copy, PartialEq, Eq, Structural)]
pub struct Keys {
    pub fn_held: bool,
    pub meta_l: bool,
    pub meta_r: bool,
    pub shift_l: bool,
    pub shift_r: bool,
    pub ctrl_l: bool,
    pub ctrl_r: bool,
}

/// What a key event changed.
#[derive(Debug, Clone, Copy, PartialEq, Eq, Structural)]
pub enum KeyChange {
    /// not a key the bar follows, or no change of Fn
    Ignored,
    /// Fn went down (`true`) or up (`false`)
    Fn(bool),
    /// a modifier was set (pressed, repeated or released)
    Modifier,
}

pub open spec fn is_modifier(code: u16) -> bool {
    code == KEY_LMETA || code == KEY_RMETA || code == KEY_LSHIFT || code == KEY_RSHIFT || code
        == KEY_LCTRL || code == KEY_RCTRL || code == KEY_CAPSLOCK
}

/// One `(type, code, value)` event: Fn press/release (value 0 or 1)
/// flips Fn when it differs; a modifier with value 0..=2 is held unless
/// the value is 0. CapsLock counts as left Ctrl.
pub open spec fn key_step(k: Keys, typ: u16, code: u16, val: i32) -> (Keys, KeyChange) {
    if typ == EV_KEY && code == KEY_FN && (val == 0 || val == 1) {
        let held = val == 1;
        if held != k.fn_held {
            (Keys { fn_held: held, ..k }, KeyChange::Fn(held))
        } else {
            (k, KeyChange::Ignored)
        }
    } else if typ == EV_KEY && is_modifier(code) && 0 <= val <= 2 {
        let held = val != 0;
        let k2 = if code == KEY_LMETA {
            Keys { meta_l: held, ..k }
        } else if code == KEY_RMETA {
            Keys { meta_r: held, ..k }
        } else if code == KEY_LSHIFT {
            Keys { shift_l: held, ..k }
        } else if code == KEY_RSHIFT {
            Keys { shift_r: held, ..k }
        } else if code == KEY_CAPSLOCK || code == KEY_LCTRL {
            Keys { ctrl_l: held, ..k }
        } else {
            Keys { ctrl_r: held, ..k }
        };
        (k2, KeyChange::Modifier)
    } else {
        (k, KeyChange::Ignored)
    }
}

impl Keys {
    pub fn new() -> (r: Keys)
        ensures
            !r.fn_held && !r.meta_l && !r.meta_r && !r.shift_l && !r.shift_r && !r.ctrl_l
                && !r.ctrl_r,
    {
        Keys {
            fn_held: false,
            meta_l: false,
            meta_r: false,
            shift_l: false,
            shift_r: false,
            ctrl_l: false,
            ctrl_r: false,
        }
    }

    pub fn step(&mut self, typ: u16, code: u16, val: i32) -> (r: KeyChange)
        ensures
            (*final(self), r) == key_step(*old(self), typ, code, val),
    {
        if typ == EV_KEY && code == KEY_FN && (val == 0 || val == 1) {
            let held = val == 1;
            if held != self.fn_held {
                self.fn_held = held;
                KeyChange::Fn(held)
            } else {
                KeyChange::Ignored
            }
        } else if typ == EV_KEY && (code == KEY_LMETA || code == KEY_RMETA || code == KEY_LSHIFT
            || code == KEY_RSHIFT || code == KEY_LCTRL || code == KEY_RCTRL || code
            == KEY_CAPSLOCK) && 0 <= val && val <= 2 {
            let held = val != 0;
            if code == KEY_LMETA {
                self.meta_l = held;
            } else if code == KEY_RMETA {
                self.meta_r = held;
            } else if code == KEY_LSHIFT {
                self.shift_l = held;
            } else if code == KEY_RSHIFT {
                self.shift_r = held;
            } else if code == KEY_CAPSLOCK || code == KEY_LCTRL {
                self.ctrl_l = held;
            } else {
                self.ctrl_r = held;
            }
            KeyChange::Modifier
        } else {
            KeyChange::Ignored
        }
    }

    /// Super+Ctrl: the theme picker.
    pub open spec fn theme_held(self) -> bool {
        (self.meta_l || self.meta_r) && (self.ctrl_l || self.ctrl_r)
    }

    /// Super+Shift: the app launcher.
    pub open spec fn apps_held(self) -> bool {
        (self.meta_l || self.meta_r) && (self.shift_l || self.shift_r)
    }

    pub fn theme_keys(&self) -> (r: bool)
        ensures
            r == self.theme_held(),
    {
        (self.meta_l || self.meta_r) && (self.ctrl_l || self.ctrl_r)
    }

    pub fn app_keys(&self) -> (r: bool)
        ensures
            r == self.apps_held(),
    {
        (self.meta_l || self.meta_r) && (self.shift_l || self.shift_r)
    }
}

/// Releasing every key the bar follows leaves no overlay held: after
/// key-up events for both metas, the Fn key is the only one that may
/// still count (and its own release clears it).
pub proof fn law_release_clears_overlays(k: Keys)
    ensures
        ({
            let a = key_step(k, EV_KEY, KEY_LMETA, 0).0;
            let b = key_step(a, EV_KEY, KEY_RMETA, 0).0;
            !b.theme_held() && !b.apps_held()
        }),
        !key_step(k, EV_KEY, KEY_FN, 0).0.fn_held,
{
}

/// Each modifier key (Linux key codes: left/right Meta 125/126, left/right
/// Shift 42/54, left/right Ctrl 29/97, CapsLock 58 as left Ctrl) sets its
/// own flag, held unless the value is 0, and no other; Fn (464) sets only
/// Fn.
pub proof fn law_modifier_sets_own_flag(k: Keys, v: i32)
    requires
        0 <= v <= 2,
    ensures
        key_step(k, 1, 125, v) == ((Keys { meta_l: v != 0, ..k }), KeyChange::Modifier),
        key_step(k, 1, 126, v) == ((Keys { meta_r: v != 0, ..k }), KeyChange::Modifier),
        key_step(k, 1, 42, v) == ((Keys { shift_l: v != 0, ..k }), KeyChange::Modifier),
        key_step(k, 1, 54, v) == ((Keys { shift_r: v != 0, ..k }), KeyChange::Modifier),
        key_step(k, 1, 29, v) == ((Keys { ctrl_l: v != 0, ..k }), KeyChange::Modifier),
        key_step(k, 1, 97, v) == ((Keys { ctrl_r: v != 0, ..k }), KeyChange::Modifier),
        key_step(k, 1, 58, v) == ((Keys { ctrl_l: v != 0, ..k }), KeyChange::Modifier),
        v <= 1 ==> key_step(k, 1, 464, v).0 == (Keys { fn_held: v == 1, ..k }),
{
}

/// Super with either Ctrl held (and no Shift) opens the theme picker and
/// not the app launcher; Super with either Shift (and no Ctrl) opens the
/// launcher and not the picker.
pub proof fn law_super_combos(k: Keys, ctrl: u16, shift: u16)
    requires
        !k.shift_l && !k.shift_r && !k.ctrl_l && !k.ctrl_r,
        ctrl == 29 || ctrl == 97 || ctrl == 58,
        shift == 42 || shift == 54,
    ensures
        ({
            let a = key_step(key_step(k, 1, 125, 1).0, 1, ctrl, 1).0;
            (a.meta_l || a.meta_r) && (a.ctrl_l || a.ctrl_r) && !a.shift_l && !a.shift_r
                && a.theme_held() && !a.apps_held()
        }),
        ({
            let b = key_step(key_step(k, 1, 126, 1).0, 1, shift, 1).0;
            (b.meta_l || b.meta_r) && (b.shift_l || b.shift_r) && !b.ctrl_l && !b.ctrl_r
                && b.apps_held() && !b.theme_held()
        }),
{
}

// ---------------------------------------------------------------------------
// the live state
// ---------------------------------------------------------------------------

/// An open slider overlay.
#[derive(Debug, Clone)]
pub struct SliderOpen {
    /// the config button it belongs to
    pub button_idx: usize,
    pub label: String,
    pub icon: String,
    pub value: i32,
    /// last change
    pub at: u64,
}

impl SliderOpen {
    /// The overlay to draw for this slider.
    pub fn state(&self) -> (r: SliderState)
        ensures
            r.button_idx == self.button_idx,
            r.label@ == self.label@,
            r.icon@ == self.icon@,
            r.value == self.value,
    {
        SliderState {
            button_idx: self.button_idx,
            label: self.label.clone(),
            icon: self.icon.clone(),
            value: self.value,
        }
    }
}

/// The state the live loop carries between events.
#[derive(Debug)]
pub struct Live {
    pub keys: Keys,
    pub in_menu: bool,
    pub menu_at: u64,
    pub slider: Option<SliderOpen>,
    /// when and with what value a slider was last applied
    pub last_apply: (u64, i32),
    /// the last toggle fired and when
    pub last_toggle: Option<(String, u64)>,
    /// tap-to-pet: the mood and until when it holds
    pub pet_force: Option<(PetMood, u64)>,
}

/// Which overlay a tap goes to, in the order they take it.
#[derive(Debug, Clone, Copy, PartialEq, Eq, Structural)]
pub enum Route {
    /// outside the button band (`4 <= y <= 56` is inside)
    Ignore,
    /// the F-key row while Fn is held
    FnKeys,
    /// the open slider
    Slider,
    /// the theme picker (open, or Super+Ctrl held)
    ThemeMenu,
    /// the app launcher (Super+Shift held)
    AppMenu,
    /// the normal strip
    Strip,
}

/// What the bar shows.
#[derive(Debug, Clone, Copy, PartialEq, Eq, Structural)]
pub enum ViewKind {
    Fn,
    Slider,
    Menu,
    Apps,
    Normal,
}

/// Where a tap on the normal strip landed (the daemon hit-tests it).
#[derive(Debug, Clone, Copy, PartialEq, Eq, Structural)]
pub enum StripHit {
    Workspace(usize),
    Theme,
    Pet,
    Weather,
    Control(usize),
    Nothing,
}

/// What the daemon does for a tap on the strip.
#[derive(Debug, Clone, PartialEq, Eq)]
pub enum TapAction {
    /// `hyprctl dispatch workspace N`
    FocusWorkspace(i32),
    /// the theme picker opened
    MenuOpened,
    /// the pet is happy for a while
    Petted,
    RefreshWeather,
    /// read the slider's current value, then `open_slider`
    ReadSlider { idx: usize, target: String, label: String, icon: String },
    /// play/pause (when not debounced)
    Media,
    Mic,
    Night,
    /// a repeat tap on a toggle, swallowed
    Debounced,
    /// lock the session (with the button's override command, if any)
    Lock(Option<String>),
    /// run the button's shell command
    Command(String),
    /// a command button without a command
    NoCommand,
    Nothing,
}

/// How long a toggle ignores repeat taps.
pub const TOGGLE_GUARD_NS: u64 = 800_000_000;

/// How long after the last apply a slider change is applied again.
pub const APPLY_SPACING_NS: u64 = 90_000_000;

/// How long a petted cat stays happy.
pub const PET_NS: u64 = 5_000_000_000;

pub open spec fn route_of(l: Live, in_band: bool) -> Route {
    if !in_band {
        Route::Ignore
    } else if l.keys.fn_held {
        Route::FnKeys
    } else if l.slider is Some {
        Route::Slider
    } else if l.in_menu || l.keys.theme_held() {
        Route::ThemeMenu
    } else if l.keys.apps_held() {
        Route::AppMenu
    } else {
        Route::Strip
    }
}

pub open spec fn view_of(l: Live) -> ViewKind {
    if l.keys.fn_held {
        ViewKind::Fn
    } else if l.slider is Some {
        ViewKind::Slider
    } else if l.in_menu || l.keys.theme_held() {
        ViewKind::Menu
    } else if l.keys.apps_held() {
        ViewKind::Apps
    } else {
        ViewKind::Normal
    }
}

/// The target of config button `idx` ("" when it has none).
pub open spec fn target_of(buttons: Seq<Button>, idx: int) -> Seq<char> {
    if 0 <= idx < buttons.len() && buttons[idx].target is Some {
        buttons[idx].target->0@
    } else {
        seq![]
    }
}

pub fn slider_target(buttons: &Vec<Button>, idx: usize) -> (r: String)
    ensures
        r@ == target_of(buttons@, idx as int),
{
    proof {
        reveal_strlit("");
    }
    if idx < buttons.len() {
        match &buttons[idx].target {
            Some(t) => t.clone(),
            None => owned(""),
        }
    } else {
        owned("")
    }
}

/// A slider value from a touch position: 0..=100.
pub open spec fn clamp_pct(raw: int) -> int {
    if raw < 0 {
        0
    } else if raw > 100 {
        100
    } else {
        raw
    }
}

/// The slider after a touch at `raw`: the value changes when it differs;
/// the change is applied when it differs from the last applied value and
/// the last apply is more than `APPLY_SPACING_NS` old.
pub open spec fn slid(l: Live, raw: int, now: u64) -> (Live, bool, bool) {
    let v = clamp_pct(raw);
    match l.slider {
        Some(s) => if v != s.value {
            let s2 = SliderOpen { value: v as i32, at: now, ..s };
            if v != l.last_apply.1 && elapsed(l.last_apply.0, now) > APPLY_SPACING_NS {
                (Live { slider: Some(s2), last_apply: (now, v as i32), ..l }, true, true)
            } else {
                (Live { slider: Some(s2), ..l }, true, false)
            }
        } else {
            (l, false, false)
        },
        None => (l, false, false),
    }
}

/// Milliseconds as nanoseconds; a span too long for `u64` nanoseconds
/// becomes `u64::MAX`, which no elapsed `u64` time exceeds.
fn ms_to_ns(ms: u64) -> (r: u64)
    ensures
        ms * 1_000_000 <= u64::MAX ==> r == ms * 1_000_000,
        ms * 1_000_000 > u64::MAX ==> r == u64::MAX,
{
    match ms.checked_mul(1_000_000) {
        Some(v) => v,
        None => u64::MAX,
    }
}

impl Live {
    pub fn new(now: u64) -> (r: Live)
        ensures
            r.keys == (Keys {
                fn_held: false,
                meta_l: false,
                meta_r: false,
                shift_l: false,
                shift_r: false,
                ctrl_l: false,
                ctrl_r: false,
            }),
            !r.in_menu,
            r.menu_at == now,
            r.slider is None,
            r.last_apply == (now, -1i32),
            r.last_toggle is None,
            r.pet_force is None,
    {
        Live {
            keys: Keys::new(),
            in_menu: false,
            menu_at: now,
            slider: None,
            last_apply: (now, -1),
            last_toggle: None,
            pet_force: None,
        }
    }

    /// Close the slider, recording its value as applied at `now`.
    pub fn flush_slider(&mut self, now: u64)
        ensures
            final(self).slider is None,
            final(self).last_apply == (match old(self).slider {
                Some(s) => (now, s.value),
                None => old(self).last_apply,
            }),
            final(self).keys == old(self).keys,
            final(self).in_menu == old(self).in_menu,
            final(self).menu_at == old(self).menu_at,
            final(self).last_toggle == old(self).last_toggle,
            final(self).pet_force == old(self).pet_force,
    {
        match &self.slider {
            Some(s) => {
                self.last_apply = (now, s.value);
            },
            None => {},
        }
        self.slider = None;
    }

    /// A keyboard event: Fn going down closes the slider and the theme
    /// picker. True when the bar must redraw.
    pub fn key_event(&mut self, typ: u16, code: u16, val: i32, now: u64) -> (dirty: bool)
        ensures
            final(self).keys == key_step(old(self).keys, typ, code, val).0,
            dirty == (key_step(old(self).keys, typ, code, val).1 != KeyChange::Ignored),
            key_step(old(self).keys, typ, code, val).1 == KeyChange::Fn(true) ==> {
                &&& final(self).slider is None
                &&& !final(self).in_menu
                &&& final(self).last_apply == (match old(self).slider {
                    Some(s) => (now, s.value),
                    None => old(self).last_apply,
                })
            },
            key_step(old(self).keys, typ, code, val).1 != KeyChange::Fn(true) ==> {
                &&& final(self).slider == old(self).slider
                &&& final(self).in_menu == old(self).in_menu
                &&& final(self).last_apply == old(self).last_apply
            },
            final(self).menu_at == old(self).menu_at,
            final(self).last_toggle == old(self).last_toggle,
            final(self).pet_force == old(self).pet_force,
    {
        let ch = self.keys.step(typ, code, val);
        match ch {
            KeyChange::Fn(true) => {
                self.flush_slider(now);
                self.in_menu = false;
                true
            },
            KeyChange::Ignored => false,
            _ => true,
        }
    }

    /// Which overlay a tap goes to.
    pub fn route(&self, in_band: bool) -> (r: Route)
        ensures
            r == route_of(*self, in_band),
    {
        if !in_band {
            Route::Ignore
        } else if self.keys.fn_held {
            Route::FnKeys
        } else if self.slider.is_some() {
            Route::Slider
        } else if self.in_menu || self.keys.theme_keys() {
            Route::ThemeMenu
        } else if self.keys.app_keys() {
            Route::AppMenu
        } else {
            Route::Strip
        }
    }

    /// What the bar shows now.
    pub fn view(&self) -> (r: ViewKind)
        ensures
            r == view_of(*self),
    {
        if self.keys.fn_held {
            ViewKind::Fn
        } else if self.slider.is_some() {
            ViewKind::Slider
        } else if self.in_menu || self.keys.theme_keys() {
            ViewKind::Menu
        } else if self.keys.app_keys() {
            ViewKind::Apps
        } else {
            ViewKind::Normal
        }
    }

    /// A touch on the open slider at position value `raw` (the tap or drag
    /// position mapped to 0..100 by the daemon). Gives whether the value
    /// changed and, when it is to be applied now, the target and value.
    pub fn slide(&mut self, buttons: &Vec<Button>, raw: i32, now: u64) -> (r: (bool, Option<(String, i32)>))
        ensures
            ({
                let (l2, changed, apply) = slid(*old(self), raw as int, now);
                &&& *final(self) == l2
                &&& r.0 == changed
                &&& (r.1 is Some) == apply
                &&& apply ==> (r.1->0).0@ == target_of(buttons@, old(self).slider->0.button_idx as int)
                    && (r.1->0).1 == clamp_pct(raw as int)
            }),
    {
        let v: i32 = if raw < 0 {
            0
        } else if raw > 100 {
            100
        } else {
            raw
        };
        let last = self.last_apply;
        match &mut self.slider {
            Some(s) => {
                if v != s.value {
                    s.value = v;
                    s.at = now;
                    let idx = s.button_idx;
                    if v != last.1 && elapsed_ns(last.0, now) > APPLY_SPACING_NS {
                        self.last_apply = (now, v);
                        let target = slider_target(buttons, idx);
                        (true, Some((target, v)))
                    } else {
                        (true, None)
                    }
                } else {
                    (false, None)
                }
            },
            None => (false, None),
        }
    }

    /// A tap left of the slider closes it: the value is applied at once.
    pub fn slider_back(&mut self, buttons: &Vec<Button>, now: u64) -> (r: Option<(String, i32)>)
        ensures
            final(self).slider is None,
            match old(self).slider {
                Some(s) => {
                    &&& r is Some
                    &&& (r->0).0@ == target_of(buttons@, s.button_idx as int)
                    &&& (r->0).1 == s.value
                    &&& final(self).last_apply == (now, s.value)
                },
                None => r is None && final(self).last_apply == old(self).last_apply,
            },
            final(self).keys == old(self).keys,
            final(self).in_menu == old(self).in_menu,
            final(self).menu_at == old(self).menu_at,
            final(self).last_toggle == old(self).last_toggle,
            final(self).pet_force == old(self).pet_force,
    {
        let r = match &self.slider {
            Some(s) => Some((slider_target(buttons, s.button_idx), s.value)),
            None => None,
        };
        self.flush_slider(now);
        r
    }

    /// A tap on the theme picker or the app launcher closes the picker,
    /// whatever it hit.
    pub fn close_menu(&mut self)
        ensures
            *final(self) == (Live { in_menu: false, ..*old(self) }),
    {
        self.in_menu = false;
    }

    /// The slider of button `idx` opens at `value` (read by the daemon).
    pub fn open_slider(&mut self, idx: usize, label: String, icon: String, value: i32, now: u64)
        ensures
            final(self).slider == Some(SliderOpen { button_idx: idx, label, icon, value, at: now }),
            !final(self).in_menu,
            final(self).keys == old(self).keys,
            final(self).menu_at == old(self).menu_at,
            final(self).last_apply == old(self).last_apply,
            final(self).last_toggle == old(self).last_toggle,
            final(self).pet_force == old(self).pet_force,
    {
        self.slider = Some(SliderOpen { button_idx: idx, label, icon, value, at: now });
        self.in_menu = false;
    }

    /// Debounce of toggle `id`: true (swallowed) when the same toggle fired
    /// less than `TOGGLE_GUARD_NS` ago; otherwise it is recorded as fired.
    pub fn toggle_guard(&mut self, id: &str, now: u64) -> (swallowed: bool)
        ensures
            swallowed == (match old(self).last_toggle {
                Some((lid, t)) => lid@ == id@ && elapsed(t, now) < TOGGLE_GUARD_NS,
                None => false,
            }),
            !swallowed ==> final(self).last_toggle is Some && (final(self).last_toggle->0).0@ == id@
                && (final(self).last_toggle->0).1 == now,
            swallowed ==> final(self).last_toggle == old(self).last_toggle,
            final(self).keys == old(self).keys,
            final(self).in_menu == old(self).in_menu,
            final(self).menu_at == old(self).menu_at,
            final(self).slider == old(self).slider,
            final(self).last_apply == old(self).last_apply,
            final(self).pet_force == old(self).pet_force,
    {
        let hit = match &self.last_toggle {
            Some((lid, t)) => str_eq(lid.as_str(), id) && elapsed_ns(*t, now) < TOGGLE_GUARD_NS,
            None => false,
        };
        if hit {
            return true;
        }
        self.last_toggle = Some((owned(id), now));
        false
    }

    /// A tap on the normal strip.
    pub fn strip_tap(&mut self, hit: StripHit, buttons: &Vec<Button>, now: u64) -> (r: TapAction)
        requires
            hit matches StripHit::Workspace(k) ==> k < 9,
        ensures
            hit is Workspace ==> *final(self) == *old(self),
            hit matches StripHit::Workspace(k) ==> r == TapAction::FocusWorkspace((k + 1) as i32),
            hit is Theme ==> r == TapAction::MenuOpened && *final(self) == (Live {
                in_menu: true,
                menu_at: now,
                ..*old(self)
            }),
            hit is Pet ==> r == TapAction::Petted && *final(self) == (Live {
                pet_force: Some(
                    (
                        PetMood::Happy,
                        if now as int + PET_NS <= u64::MAX {
                            (now + PET_NS) as u64
                        } else {
                            u64::MAX
                        },
                    ),
                ),
                ..*old(self)
            }),
            hit is Weather ==> r == TapAction::RefreshWeather && *final(self) == *old(self),
            hit is Nothing ==> r == TapAction::Nothing && *final(self) == *old(self),
            hit matches StripHit::Control(k) ==> k >= buttons.len() ==> r == TapAction::Nothing
                && *final(self) == *old(self),
            hit matches StripHit::Control(k) ==> k < buttons.len() ==> control_tapped(
                *old(self),
                buttons@[k as int],
                k,
                now,
                r,
                *final(self),
            ),
    {
        match hit {
            StripHit::Workspace(k) => TapAction::FocusWorkspace(k as i32 + 1),
            StripHit::Theme => {
                self.in_menu = true;
                self.menu_at = now;
                TapAction::MenuOpened
            },
            StripHit::Pet => {
                let until = now.saturating_add(PET_NS);
                self.pet_force = Some((PetMood::Happy, until));
                TapAction::Petted
            },
            StripHit::Weather => TapAction::RefreshWeather,
            StripHit::Nothing => TapAction::Nothing,
            StripHit::Control(k) => {
                if k >= buttons.len() {
                    return TapAction::Nothing;
                }
                let b = &buttons[k];
                let kind = b.kind.as_str();
                let r = if str_eq(kind, "slider") {
                    let target = match &b.target {
                        Some(t) => t.clone(),
                        None => owned(""),
                    };
                    proof {
                        reveal_strlit("");
                    }
                    assert(target@ == (match buttons@[k as int].target {
                        Some(t) => t@,
                        None => Seq::<char>::empty(),
                    }));
                    let (dl, di) = slider_defaults(target.as_str());
                    let label = match &b.label {
                        Some(l) => l.clone(),
                        None => owned(dl),
                    };
                    let icon = match &b.icon {
                        Some(i) => i.clone(),
                        None => owned(di),
                    };
                    TapAction::ReadSlider { idx: k, target, label, icon }
                } else if str_eq(kind, "media") {
                    if self.toggle_guard("media", now) {
                        TapAction::Debounced
                    } else {
                        TapAction::Media
                    }
                } else if str_eq(kind, "mic") {
                    if self.toggle_guard("mic", now) {
                        TapAction::Debounced
                    } else {
                        TapAction::Mic
                    }
                } else if str_eq(kind, "night") {
                    if self.toggle_guard("night", now) {
                        TapAction::Debounced
                    } else {
                        TapAction::Night
                    }
                } else if str_eq(kind, "lock") {
                    let cmd = match &b.command {
                        Some(c) => Some(c.clone()),
                        None => None,
                    };
                    TapAction::Lock(cmd)
                } else {
                    match &b.command {
                        Some(c) => TapAction::Command(c.clone()),
                        None => TapAction::NoCommand,
                    }
                };
                assert(control_tapped(*old(self), buttons@[k as int], k, now, r, *self));
                r
            },
        }
    }

    /// The overlays time out: the theme picker after `menu_ms`, the slider
    /// after `slider_ms` without change (its value is recorded as
    /// applied). True when the bar must redraw.
    pub fn tick(&mut self, now: u64, menu_ms: u64, slider_ms: u64) -> (dirty: bool)
        ensures
            ({
                let menu_out = old(self).in_menu && elapsed(old(self).menu_at, now) > menu_ms * 1_000_000;
                let slider_out = old(self).slider is Some && elapsed(old(self).slider->0.at, now)
                    > slider_ms * 1_000_000;
                &&& dirty == (menu_out || slider_out)
                &&& final(self).in_menu == (old(self).in_menu && !menu_out)
                &&& slider_out ==> final(self).slider is None && final(self).last_apply == (
                now,
                old(self).slider->0.value,
            )
                &&& !slider_out ==> final(self).slider == old(self).slider && final(self).last_apply
                    == old(self).last_apply
            }),
            final(self).keys == old(self).keys,
            final(self).menu_at == old(self).menu_at,
            final(self).last_toggle == old(self).last_toggle,
            final(self).pet_force == old(self).pet_force,
    {
        let menu_ns = ms_to_ns(menu_ms);
        let slider_ns = ms_to_ns(slider_ms);
        let mut dirty = false;
        if self.in_menu && elapsed_ns(self.menu_at, now) > menu_ns {
            self.in_menu = false;
            dirty = true;
        }
        let slider_out = match &self.slider {
            Some(s) => elapsed_ns(s.at, now) > slider_ns,
            None => false,
        };
        if slider_out {
            self.flush_slider(now);
            dirty = true;
        }
        dirty
    }

    /// The pet's forced mood while it holds; an expired one is dropped.
    pub fn pet_mood_now(&mut self, now: u64) -> (r: Option<PetMood>)
        ensures
            match old(self).pet_force {
                Some((m, until)) => if now < until {
                    r == Some(m) && final(self).pet_force == old(self).pet_force
                } else {
                    r is None && final(self).pet_force is None
                },
                None => r is None && final(self).pet_force is None,
            },
            final(self).keys == old(self).keys,
            final(self).in_menu == old(self).in_menu,
            final(self).menu_at == old(self).menu_at,
            final(self).slider == old(self).slider,
            final(self).last_apply == old(self).last_apply,
            final(self).last_toggle == old(self).last_toggle,
    {
        match self.pet_force {
            Some((m, until)) => {
                if now < until {
                    return Some(m);
                }
            },
            None => {},
        }
        self.pet_force = None;
        None
    }
}

/// A tap on config button `b` (number `k`): a slider asks for its value
/// with its label and icon (the button's own, else the target's
/// defaults); media, mic and night fire unless debounced; lock locks; any
/// other kind runs its command.
pub open spec fn control_tapped(l0: Live, b: Button, k: usize, now: u64, r: TapAction, l1: Live) -> bool {
    let kind = b.kind@;
    if kind == "slider"@ {
        let target = match b.target {
            Some(t) => t@,
            None => seq![],
        };
        let d = slider_default(target);
        &&& r matches TapAction::ReadSlider { idx, target: t, label, icon }
        &&& r->idx == k
        &&& r->target@ == target
        &&& r->label@ == (match b.label {
            Some(x) => x@,
            None => d.0,
        })
        &&& r->icon@ == (match b.icon {
            Some(x) => x@,
            None => d.1,
        })
        &&& l1 == l0
    } else if kind == "media"@ || kind == "mic"@ || kind == "night"@ {
        let swallowed = match l0.last_toggle {
            Some((lid, t)) => lid@ == kind && elapsed(t, now) < TOGGLE_GUARD_NS,
            None => false,
        };
        &&& swallowed ==> r == TapAction::Debounced && l1 == l0
        &&& !swallowed ==> {
            &&& r == (if kind == "media"@ {
                TapAction::Media
            } else if kind == "mic"@ {
                TapAction::Mic
            } else {
                TapAction::Night
            })
            &&& l1.last_toggle is Some && (l1.last_toggle->0).0@ == kind && (l1.last_toggle->0).1 == now
            &&& l1 == (Live { last_toggle: l1.last_toggle, ..l0 })
        }
    } else if kind == "lock"@ {
        &&& r matches TapAction::Lock(c)
        &&& opt_view(r->Lock_0) == opt_view(b.command)
        &&& l1 == l0
    } else {
        &&& match b.command {
            Some(c) => r matches TapAction::Command(x) && x@ == c@,
            None => r == TapAction::NoCommand,
        }
        &&& l1 == l0
    }
}

/// A tap always leaves the slider and picker alone unless it opens or
/// closes them: a workspace, weather or toggle tap changes neither.
pub proof fn law_strip_tap_keeps_overlays(l0: Live, b: Button, k: usize, now: u64, r: TapAction, l1: Live)
    requires
        control_tapped(l0, b, k, now, r, l1),
    ensures
        l1.slider == l0.slider,
        l1.in_menu == l0.in_menu,
        l1.last_apply == l0.last_apply,
{
}

// ---------------------------------------------------------------------------
// periodic checks
// ---------------------------------------------------------------------------

/// More than `period_ns` passed since `last`.
pub fn due(last: u64, now: u64, period_ns: u64) -> (r: bool)
    ensures
        r == (elapsed(last, now) > period_ns),
{
    elapsed_ns(last, now) > period_ns
}

/// The screensaver scan runs every second, twice as often while the
/// saver shows (to leave it fast).
pub fn saver_check_due(saver_on: bool, last: u64, now: u64) -> (r: bool)
    ensures
        r == (elapsed(last, now) > (if saver_on {
            500_000_000int
        } else {
            1_000_000_000int
        })),
{
    let every: u64 = if saver_on {
        500_000_000
    } else {
        1_000_000_000
    };
    elapsed_ns(last, now) > every
}

/// What the scan result does to the bar's saver.
#[derive(Debug, Clone, Copy, PartialEq, Eq, Structural)]
pub enum SaverSwitch {
    Start,
    Stop,
    Keep,
}

pub fn saver_switch(active: bool, saver_on: bool) -> (r: SaverSwitch)
    ensures
        r == (if active && !saver_on {
            SaverSwitch::Start
        } else if !active && saver_on {
            SaverSwitch::Stop
        } else {
            SaverSwitch::Keep
        }),
{
    if active && !saver_on {
        SaverSwitch::Start
    } else if !active && saver_on {
        SaverSwitch::Stop
    } else {
        SaverSwitch::Keep
    }
}

// ---------------------------------------------------------------------------
// the app launcher's buttons
// ---------------------------------------------------------------------------

/// Built-in launcher glyphs by app id, with whether the glyph is set in
/// the sans font (else the nerd font).
pub open spec fn builtin_icon(id: Seq<char>) -> Option<(Seq<char>, bool)> {
    if id == "brave"@ {
        Some(("\u{E639}"@, false))
    } else if id == "chrome"@ || id == "chromium"@ {
        Some(("\u{F268}"@, false))
    } else if id == "terminal"@ || id == "foot"@ {
        Some(("\u{F489}"@, false))
    } else if id == "files"@ || id == "nautilus"@ {
        Some(("\u{F07B}"@, false))
    } else if id == "localsend"@ {
        Some(("\u{F1D8}"@, false))
    } else if id == "youtube"@ {
        Some(("\u{F16A}"@, false))
    } else if id == "x"@ {
        Some(("X"@, true))
    } else if id == "twitter"@ {
        Some(("\u{F099}"@, false))
    } else if id == "whatsapp"@ {
        Some(("\u{F232}"@, false))
    } else if id == "discord"@ {
        Some(("\u{F066F}"@, false))
    } else if id == "obsidian"@ {
        Some(("\u{E63A}"@, false))
    } else if id == "github"@ {
        Some(("\u{F09B}"@, false))
    } else {
        None
    }
}

fn builtin(id: &str) -> (r: Option<(&'static str, bool)>)
    ensures
        match r {
            Some((g, s)) => builtin_icon(id@) == Some((g@, s)),
            None => builtin_icon(id@) is None,
        },
{
    if str_eq(id, "brave") {
        Some(("\u{E639}", false))
    } else if str_eq(id, "chrome") || str_eq(id, "chromium") {
        Some(("\u{F268}", false))
    } else if str_eq(id, "terminal") || str_eq(id, "foot") {
        Some(("\u{F489}", false))
    } else if str_eq(id, "files") || str_eq(id, "nautilus") {
        Some(("\u{F07B}", false))
    } else if str_eq(id, "localsend") {
        Some(("\u{F1D8}", false))
    } else if str_eq(id, "youtube") {
        Some(("\u{F16A}", false))
    } else if str_eq(id, "x") {
        Some(("X", true))
    } else if str_eq(id, "twitter") {
        Some(("\u{F099}", false))
    } else if str_eq(id, "whatsapp") {
        Some(("\u{F232}", false))
    } else if str_eq(id, "discord") {
        Some(("\u{F066F}", false))
    } else if str_eq(id, "obsidian") {
        Some(("\u{E63A}", false))
    } else if str_eq(id, "github") {
        Some(("\u{F09B}", false))
    } else {
        None
    }
}

/// The glyph of a launcher entry and whether it is set in sans: an
/// explicit icon wins (sans when the entry asks for it, or for the `x`
/// app's "X"), then the built-in glyph of its id, else the first
/// character of its name ("?" for an empty name) in sans.
pub open spec fn app_icon_of(a: AppView) -> (Seq<char>, bool) {
    let sans_cfg = a.icon_font == Some("sans"@);
    match a.icon {
        Some(ic) => (ic, sans_cfg || (ic == "X"@ && a.id == "x"@)),
        None => match builtin_icon(a.id) {
            Some(b) => b,
            None => (if a.name.len() > 0 {
                seq![a.name[0]]
            } else {
                "?"@
            }, true),
        },
    }
}

pub fn app_icon(a: &AppEntry) -> (r: (String, bool))
    ensures
        (r.0@, r.1) == app_icon_of(a@),
{
    let sans_cfg = match &a.icon_font {
        Some(f) => str_eq(f.as_str(), "sans"),
        None => false,
    };
    match &a.icon {
        Some(ic) => {
            let is_x = str_eq(ic.as_str(), "X") && str_eq(a.id.as_str(), "x");
            (ic.clone(), sans_cfg || is_x)
        },
        None => match builtin(a.id.as_str()) {
            Some((g, s)) => (owned(g), s),
            None => {
                let v = crate::text::to_chars(a.name.as_str());
                if v.len() > 0 {
                    let mut f: Vec<char> = Vec::new();
                    f.push(v[0]);
                    assert(f@ =~= seq![a.name@[0]]);
                    (crate::text::string_from(&f), true)
                } else {
                    (owned("?"), true)
                }
            },
        },
    }
}

} // verus!
