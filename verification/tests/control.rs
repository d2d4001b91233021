use barmarchy::config::{default_apps, default_buttons, AppEntry};
use barmarchy::control::{
    app_icon, due, saver_check_due, saver_switch, slider_target, KeyChange, Keys, Live, Route,
    SaverSwitch, StripHit, TapAction, ViewKind,
};
use barmarchy::deck::PetMood;
use barmarchy::touch::{EV_KEY, KEY_CAPSLOCK, KEY_FN, KEY_LMETA, KEY_LSHIFT, KEY_RCTRL};

const MS: u64 = 1_000_000;

#[test]
fn keys_follow_fn_and_modifiers() {
    let mut k = Keys::new();
    assert_eq!(k.step(EV_KEY, KEY_FN, 1), KeyChange::Fn(true));
    assert!(k.fn_held);
    assert_eq!(k.step(EV_KEY, KEY_FN, 1), KeyChange::Ignored);
    assert_eq!(k.step(EV_KEY, KEY_FN, 2), KeyChange::Ignored);
    assert_eq!(k.step(EV_KEY, KEY_FN, 0), KeyChange::Fn(false));
    assert_eq!(k.step(EV_KEY, KEY_LMETA, 1), KeyChange::Modifier);
    assert!(!k.theme_keys() && !k.app_keys());
    assert_eq!(k.step(EV_KEY, KEY_CAPSLOCK, 2), KeyChange::Modifier);
    assert!(k.theme_keys());
    assert_eq!(k.step(EV_KEY, KEY_LSHIFT, 1), KeyChange::Modifier);
    assert!(k.app_keys());
    assert_eq!(k.step(EV_KEY, KEY_RCTRL, 3), KeyChange::Ignored);
    assert_eq!(k.step(4, KEY_LMETA, 0), KeyChange::Ignored);
    assert_eq!(k.step(EV_KEY, KEY_LMETA, 0), KeyChange::Modifier);
    assert!(!k.theme_keys() && !k.app_keys());
}

#[test]
fn fn_press_closes_slider_and_menu() {
    let mut l = Live::new(0);
    l.open_slider(1, "Volume".into(), "v".into(), 40, 10);
    l.in_menu = true;
    assert!(l.key_event(EV_KEY, KEY_FN, 1, 99));
    assert!(l.slider.is_none());
    assert!(!l.in_menu);
    assert_eq!(l.last_apply, (99, 40));
    assert_eq!(l.view(), ViewKind::Fn);
    assert!(!l.key_event(EV_KEY, KEY_FN, 1, 100));
}

#[test]
fn routes_in_priority_order() {
    let mut l = Live::new(0);
    assert_eq!(l.route(false), Route::Ignore);
    assert_eq!(l.route(true), Route::Strip);
    l.keys.meta_l = true;
    l.keys.shift_r = true;
    assert_eq!(l.route(true), Route::AppMenu);
    assert_eq!(l.view(), ViewKind::Apps);
    l.in_menu = true;
    assert_eq!(l.route(true), Route::ThemeMenu);
    assert_eq!(l.view(), ViewKind::Menu);
    l.open_slider(0, "Display".into(), "d".into(), 50, 0);
    assert_eq!(l.route(true), Route::Slider);
    assert_eq!(l.view(), ViewKind::Slider);
    l.keys.fn_held = true;
    assert_eq!(l.route(true), Route::FnKeys);
}

#[test]
fn slider_applies_are_spaced() {
    let buttons = default_buttons();
    let mut l = Live::new(0);
    l.open_slider(1, "Volume".into(), "v".into(), 40, 0);
    // first change, long after the last apply: applied
    assert_eq!(l.slide(&buttons, 55, 200 * MS), (true, Some(("volume".to_string(), 55))));
    // another change within 90 ms: value moves, no apply
    assert_eq!(l.slide(&buttons, 60, 250 * MS), (true, None));
    assert_eq!(l.slider.as_ref().unwrap().value, 60);
    // same value: nothing
    assert_eq!(l.slide(&buttons, 60, 400 * MS), (false, None));
    // clamped
    assert_eq!(l.slide(&buttons, 130, 400 * MS), (true, Some(("volume".to_string(), 100))));
    assert_eq!(l.slide(&buttons, -7, 600 * MS), (true, Some(("volume".to_string(), 0))));
    // back applies the current value
    assert_eq!(l.slider_back(&buttons, 700 * MS), Some(("volume".to_string(), 0)));
    assert!(l.slider.is_none());
    assert_eq!(l.last_apply, (700 * MS, 0));
}

#[test]
fn strip_taps() {
    let buttons = default_buttons();
    let mut l = Live::new(0);
    assert_eq!(l.strip_tap(StripHit::Workspace(2), &buttons, 5), TapAction::FocusWorkspace(3));
    assert_eq!(l.strip_tap(StripHit::Theme, &buttons, 5), TapAction::MenuOpened);
    assert!(l.in_menu && l.menu_at == 5);
    assert_eq!(l.strip_tap(StripHit::Pet, &buttons, 7), TapAction::Petted);
    assert_eq!(l.pet_force, Some((PetMood::Happy, 7 + 5_000_000_000)));
    assert_eq!(l.strip_tap(StripHit::Weather, &buttons, 7), TapAction::RefreshWeather);
    assert_eq!(
        l.strip_tap(StripHit::Control(0), &buttons, 7),
        TapAction::ReadSlider {
            idx: 0,
            target: "display".into(),
            label: "Display".into(),
            icon: "\u{F185}".into()
        }
    );
    assert_eq!(l.strip_tap(StripHit::Control(9), &buttons, 7), TapAction::Nothing);
    assert_eq!(l.strip_tap(StripHit::Nothing, &buttons, 7), TapAction::Nothing);
}

#[test]
fn toggles_are_debounced_for_800ms() {
    let buttons = default_buttons();
    let mut l = Live::new(0);
    assert_eq!(l.strip_tap(StripHit::Control(3), &buttons, 1000 * MS), TapAction::Media);
    assert_eq!(l.strip_tap(StripHit::Control(3), &buttons, 1500 * MS), TapAction::Debounced);
    assert_eq!(l.strip_tap(StripHit::Control(4), &buttons, 1600 * MS), TapAction::Mic);
    assert_eq!(l.strip_tap(StripHit::Control(3), &buttons, 1700 * MS), TapAction::Media);
    assert_eq!(l.strip_tap(StripHit::Control(3), &buttons, 2600 * MS), TapAction::Media);
}

#[test]
fn slider_button_defaults_and_commands() {
    let mut buttons = default_buttons();
    buttons[0].label = None;
    buttons[0].icon = None;
    buttons[1].target = Some("weird".into());
    buttons[1].label = None;
    buttons[1].icon = None;
    buttons[2].kind = "command".into();
    buttons[2].command = Some("omarchy screenshot".into());
    buttons[3].kind = "lock".into();
    buttons[4].kind = "bogus".into();
    let mut l = Live::new(0);
    assert_eq!(
        l.strip_tap(StripHit::Control(0), &buttons, 0),
        TapAction::ReadSlider {
            idx: 0,
            target: "display".into(),
            label: "Display".into(),
            icon: "\u{F185}".into()
        }
    );
    assert_eq!(
        l.strip_tap(StripHit::Control(1), &buttons, 0),
        TapAction::ReadSlider { idx: 1, target: "weird".into(), label: "Level".into(), icon: "?".into() }
    );
    assert_eq!(
        l.strip_tap(StripHit::Control(2), &buttons, 0),
        TapAction::Command("omarchy screenshot".into())
    );
    assert_eq!(l.strip_tap(StripHit::Control(3), &buttons, 0), TapAction::Lock(None));
    assert_eq!(l.strip_tap(StripHit::Control(4), &buttons, 0), TapAction::NoCommand);
    assert_eq!(slider_target(&buttons, 1), "weird");
    assert_eq!(slider_target(&buttons, 3), "");
    assert_eq!(slider_target(&buttons, 40), "");
}

#[test]
fn overlays_time_out() {
    let mut l = Live::new(0);
    l.in_menu = true;
    l.menu_at = 0;
    assert!(!l.tick(5000 * MS, 5000, 3000));
    assert!(l.in_menu);
    assert!(l.tick(5001 * MS, 5000, 3000));
    assert!(!l.in_menu);
    l.open_slider(0, "Display".into(), "d".into(), 33, 6000 * MS);
    assert!(!l.tick(9000 * MS, 5000, 3000));
    assert!(l.tick(9001 * MS, 5000, 3000));
    assert!(l.slider.is_none());
    assert_eq!(l.last_apply, (9001 * MS, 33));
    l.in_menu = true;
    l.menu_at = 0;
    assert!(!l.tick(u64::MAX, u64::MAX / 1000, 3000));
    assert!(l.in_menu);
}

#[test]
fn pet_override_expires() {
    let buttons = default_buttons();
    let mut l = Live::new(0);
    l.strip_tap(StripHit::Pet, &buttons, 1000);
    assert_eq!(l.pet_mood_now(1000), Some(PetMood::Happy));
    assert_eq!(l.pet_mood_now(1000 + 5_000_000_000 - 1), Some(PetMood::Happy));
    assert_eq!(l.pet_mood_now(1000 + 5_000_000_000), None);
    assert_eq!(l.pet_force, None);
    assert_eq!(l.pet_mood_now(0), None);
}

#[test]
fn periodic_checks() {
    assert!(!due(0, 2_000_000_000, 2_000_000_000));
    assert!(due(0, 2_000_000_001, 2_000_000_000));
    assert!(!due(10, 5, 0));
    assert!(saver_check_due(true, 0, 600 * MS));
    assert!(!saver_check_due(false, 0, 600 * MS));
    assert!(saver_check_due(false, 0, 1001 * MS));
    assert_eq!(saver_switch(true, false), SaverSwitch::Start);
    assert_eq!(saver_switch(false, true), SaverSwitch::Stop);
    assert_eq!(saver_switch(true, true), SaverSwitch::Keep);
}

#[test]
fn launcher_icons() {
    let apps = default_apps();
    assert_eq!(app_icon(&apps[0]), ("\u{E639}".to_string(), false));
    assert_eq!(app_icon(&apps[8]), ("X".to_string(), true));
    let mut a: AppEntry = apps[0].clone();
    a.icon = None;
    assert_eq!(app_icon(&a), ("\u{E639}".to_string(), false));
    a.id = "calc".into();
    a.name = "Calc".into();
    assert_eq!(app_icon(&a), ("C".to_string(), true));
    a.name = "".into();
    assert_eq!(app_icon(&a), ("?".to_string(), true));
    a.id = "x".into();
    assert_eq!(app_icon(&a), ("X".to_string(), true));
    a.id = "discord".into();
    assert_eq!(app_icon(&a), ("\u{F066F}".to_string(), false));
    a.icon = Some("X".into());
    assert_eq!(app_icon(&a), ("X".to_string(), false));
    a.icon_font = Some("sans".into());
    assert_eq!(app_icon(&a), ("X".to_string(), true));
}
