use barmarchy::saver::{advance_index, effect_index, effect_name, is_saver_cmdline, next_word, Rng};

#[test]
fn saver_detector_ignores_substring_wrappers() {
    // the strict argv matcher must not fire on shells/greps that merely
    // mention the class (regression test for the flip-flop)
    let wrapper = b"bash\x00-lc\x00foot --app-id=org.omarchy.screensaver --config=x\x00";
    let real = b"foot\x00--app-id=org.omarchy.screensaver\x00--config=x\x00";
    assert!(!is_saver_cmdline(wrapper));
    assert!(is_saver_cmdline(real));
}

#[test]
fn saver_detector_other_needles() {
    assert!(is_saver_cmdline(b"alacritty\x00--class=org.omarchy.screensaver"));
    assert!(is_saver_cmdline(b"org.omarchy.screensaver"));
    assert!(!is_saver_cmdline(b"org.omarchy.screensaverX\x00"));
    assert!(!is_saver_cmdline(b""));
}

#[test]
fn effects_by_name() {
    assert_eq!(effect_index("assemble"), Some(0));
    assert_eq!(effect_index("blackhole"), Some(4));
    assert_eq!(effect_index("nope"), None);
    assert_eq!(effect_name(7), "rain");
}

#[test]
fn advance_never_repeats() {
    for idx in 0..5 {
        for r in 0..4 {
            let k = advance_index(idx, r);
            assert!(k < 5 && k != idx);
        }
    }
    assert_eq!(advance_index(4, 0), 0);
}

#[test]
fn rng_xorshift_values() {
    let mut r = Rng::fixed(0xBEEF);
    let a = r.next();
    let x: u64 = 0xBEEF;
    let mut e = x;
    e ^= e << 13;
    e ^= e >> 7;
    e ^= e << 17;
    assert_eq!(a, e);
    assert_ne!(a, 0);
}

#[test]
fn words_alternate() {
    assert_eq!(next_word(0, "12:34"), "OMARCHY");
    assert_eq!(next_word(1, "12:34"), "12:34");
}
