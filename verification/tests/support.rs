use barmarchy::clock::elapsed_ns;
use barmarchy::drm::{
    copy_rows, usable_connector, ioctl_addfb2, ioctl_create_dumb, ioctl_dirtyfb, ioctl_getconnector, ioctl_getresources,
    ioctl_map_dumb, ioctl_setcrtc, iowr,
};
use barmarchy::json::{bool_of, get, int_of, parse_json, str_of, Json};
use barmarchy::order::{sort_strings, sort_unique, str_le};
use barmarchy::probe::{eviocgabs, eviocgname, ev_ioc};
use barmarchy::render::{
    ctl_glyph, current_accent, glyph_for_wmclass, host_glyph, slider_defaults, ws_members, Tint,
    NERD,
};
use barmarchy::toml::{flat_from, flat_table, Toml};
use barmarchy::saver::{lit_pixels, spread_picks, MASK_H, MASK_W};
use barmarchy::text::{first_word_of, join_path, to_chars, to_lower};

fn strs(v: &[&str]) -> Vec<String> {
    v.iter().map(|s| s.to_string()).collect()
}

#[test]
fn drm_ioctl_numbers() {
    // _IOWR('d', nr, size) as the kernel headers compute it
    let ioc = |nr: u64, size: u64| (3u64 << 30) | (size << 16) | ((b'd' as u64) << 8) | nr;
    assert_eq!(iowr(0xA0, 64), ioc(0xA0, 64));
    assert_eq!(ioctl_getresources(), ioc(0xA0, 64));
    assert_eq!(ioctl_setcrtc(), ioc(0xA2, 104));
    assert_eq!(ioctl_getconnector(), ioc(0xA7, 80));
    assert_eq!(ioctl_addfb2(), ioc(0xB8, 100));
    assert_eq!(ioctl_dirtyfb(), ioc(0xB1, 24));
    assert_eq!(ioctl_create_dumb(), ioc(0xB2, 32));
    assert_eq!(ioctl_map_dumb(), ioc(0xB3, 16));
}

#[test]
fn evdev_ioctl_numbers() {
    let ioc = |nr: u64, len: u64| (2u64 << 30) | (len << 16) | ((b'E' as u64) << 8) | nr;
    assert_eq!(ev_ioc(0x06, 256), ioc(0x06, 256));
    assert_eq!(eviocgname(), ioc(0x06, 256));
    assert_eq!(eviocgabs(0), ioc(0x40, 32));
    assert_eq!(eviocgabs(1), ioc(0x41, 32));
}

#[test]
fn json_reading() {
    let v = parse_json("{\"a\": 1, \"b\": true, \"c\": \"x\", \"d\": 1.5}").unwrap();
    assert_eq!(int_of(get(&v, "a")), Some(1));
    assert_eq!(bool_of(get(&v, "b")), Some(true));
    assert_eq!(str_of(get(&v, "c")).map(|s| s.as_str()), Some("x"));
    assert_eq!(int_of(get(&v, "d")), None);
    assert!(get(&v, "zz").is_none());
    assert!(matches!(parse_json("[1, null]"), Some(Json::Array(_))));
    assert!(parse_json("{").is_none());
}

#[test]
fn string_order_matches_std() {
    let words = ["b", "a", "ab", "", "B", "é", "z", "a"];
    for x in words {
        for y in words {
            assert_eq!(str_le(x, y), x <= y, "{x:?} {y:?}");
        }
    }
    let mut expect = strs(&words);
    expect.sort();
    assert_eq!(sort_strings(strs(&words)), expect);
    expect.dedup();
    assert_eq!(sort_unique(strs(&words)), expect);
}

#[test]
fn glyph_tables() {
    assert_eq!(glyph_for_wmclass("org.gnome.Nautilus", ""), Some((NERD, "\u{F07B}")));
    assert_eq!(glyph_for_wmclass("Alacritty", ""), Some((NERD, "\u{F489}")));
    assert_eq!(glyph_for_wmclass("org.omarchy.agent", ""), Some(("Sans", "\u{25B2}")));
    assert_eq!(glyph_for_wmclass("chromium", "YouTube"), Some((NERD, "\u{F16A}")));
    assert_eq!(glyph_for_wmclass("chromium", "Omarchy"), Some((NERD, "\u{F268}")));
    assert_eq!(glyph_for_wmclass("brave-browser", "GitHub - home"), Some((NERD, "\u{F09B}")));
    assert_eq!(glyph_for_wmclass("Brave", ""), Some((NERD, "\u{E639}")));
    assert_eq!(glyph_for_wmclass("google-chrome", "YouTube - Music"), Some((NERD, "\u{F16A}")));
    assert_eq!(glyph_for_wmclass("google-chrome", " Home / X "), Some(("Sans", "X")));
    assert_eq!(
        glyph_for_wmclass("chrome-www.youtube.com__-Default", ""),
        Some((NERD, "\u{F16A}"))
    );
    assert_eq!(glyph_for_wmclass("chrome-x.com__-Default", ""), Some(("Sans", "X")));
    assert_eq!(glyph_for_wmclass("zenity", ""), None);
    assert_eq!(glyph_for_wmclass("unknown-app", ""), None);
    assert_eq!(host_glyph("web.whatsapp.com:443"), Some((NERD, "\u{F232}")));
    assert_eq!(host_glyph("example.org"), None);
    assert_eq!(slider_defaults("display"), ("Display", "\u{F185}"));
    assert_eq!(slider_defaults("other"), ("Level", "?"));
}

#[test]
fn word_mask_pixels() {
    let stride = MASK_W + 8;
    let mut mask = vec![0u8; (MASK_H - 1) * stride + MASK_W];
    mask[5] = 111;
    mask[6] = 110;
    mask[2 * stride + 7] = 255;
    mask[2 * stride + MASK_W] = 255; // padding byte, not a pixel
    assert_eq!(lit_pixels(&mask, stride), vec![(5, 0), (7, 2)]);
    let p = spread_picks(4, 6);
    assert_eq!(p, vec![0, 0, 1, 2, 2, 3]);
}

#[test]
fn text_helpers() {
    assert_eq!(
        first_word_of(&to_chars("  org.mpris.x  12 ")).map(|v| v.into_iter().collect::<String>()),
        Some("org.mpris.x".to_string())
    );
    assert_eq!(first_word_of(&to_chars(" \t ")), None);
    assert_eq!(join_path("/a", "b"), "/a/b");
    assert_eq!(join_path("/a/", "b"), "/a/b");
    assert_eq!(join_path("", "b"), "b");
    assert_eq!(join_path("/a", "/abs"), "/abs");
    assert_eq!(elapsed_ns(5, 3), 0);
    assert_eq!(elapsed_ns(3, 5), 2);
}

#[test]
fn toml_tables_flatten() {
    let t = flat_table("accent = \"#89b4fa\"\nsize = 3\n[colors.normal]\nblue = \"#0000ff\"\n[colors.bright]\nblue = \"#1111ff\"\n");
    let has = |k: &str, v: &str| t.iter().any(|(a, b)| a == k && b == v);
    assert!(has("accent", "#89b4fa"));
    assert!(has("colors.normal.blue", "#0000ff"));
    assert!(has("colors.bright.blue", "#1111ff"));
    assert_eq!(t.len(), 3);
    assert!(flat_table("this is = not toml [").is_empty());
}

#[test]
fn control_button_faces() {
    assert_eq!(ctl_glyph("media", &None, true, false, false), ("\u{F04C}".to_string(), Tint::Accent));
    assert_eq!(ctl_glyph("media", &None, false, false, false), ("\u{F04B}".to_string(), Tint::Accent));
    assert_eq!(ctl_glyph("mic", &Some("x".into()), false, true, false), ("\u{F131}".to_string(), Tint::Red));
    assert_eq!(ctl_glyph("mic", &None, false, false, false), ("\u{F130}".to_string(), Tint::Accent));
    assert_eq!(ctl_glyph("night", &None, false, false, false), ("\u{F186}".to_string(), Tint::Dim));
    assert_eq!(ctl_glyph("night", &Some("n".into()), false, false, true), ("n".to_string(), Tint::Accent));
    assert_eq!(ctl_glyph("lock", &None, false, false, false), ("\u{F033E}".to_string(), Tint::Accent));
    assert_eq!(ctl_glyph("slider", &None, false, false, false), ("?".to_string(), Tint::Accent));
    assert_eq!(
        ws_members(&vec![2, 1, 2, 7, 0], 3),
        vec![vec![1], vec![0, 2], vec![]]
    );
    let favs = vec![("A".to_string(), "#1".to_string()), ("B".to_string(), "#2".to_string())];
    assert_eq!(current_accent(&favs, "B", "#9"), "#2");
    assert_eq!(current_accent(&favs, "C", "#9"), "#9");
}

#[test]
fn frame_rows_copy_into_wider_pitch() {
    let src: Vec<u8> = (1..=9).collect();
    let mut dst = vec![0xEEu8; 12];
    copy_rows(&mut dst, 4, &src, 3, 3);
    assert_eq!(dst, vec![1, 2, 3, 0xEE, 4, 5, 6, 0xEE, 7, 8, 9, 0xEE]);
}

#[test]
fn frame_rows_copy_into_narrower_pitch() {
    let src: Vec<u8> = (0..10).collect();
    let mut dst = vec![0u8; 7];
    copy_rows(&mut dst, 3, &src, 5, 2);
    assert_eq!(dst, vec![0, 1, 2, 5, 6, 7, 0]);
    let mut untouched = vec![9u8; 4];
    copy_rows(&mut untouched, 4, &src, 5, 0);
    assert_eq!(untouched, vec![9, 9, 9, 9]);
}

#[test]
fn connector_must_be_connected_with_modes() {
    assert!(usable_connector(1, 3));
    assert!(!usable_connector(2, 3));
    assert!(!usable_connector(1, 0));
}

#[test]
fn parsed_toml_flattens() {
    let doc = Some(Toml::Table(vec![
        ("accent".to_string(), Toml::Str("#ff0000".to_string())),
        ("size".to_string(), Toml::Other),
        (
            "colors".to_string(),
            Toml::Table(vec![("blue".to_string(), Toml::Str("#0000ff".to_string()))]),
        ),
    ]));
    assert_eq!(
        flat_from(&doc),
        vec![
            ("accent".to_string(), "#ff0000".to_string()),
            ("colors.blue".to_string(), "#0000ff".to_string()),
        ]
    );
    assert!(flat_from(&None).is_empty());
}

#[test]
fn ascii_lowercasing() {
    assert_eq!(to_lower("Org.Gnome.NAUTILUS-1"), to_chars("org.gnome.nautilus-1"));
}
