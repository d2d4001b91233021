use barmarchy::theme::{
    colors_for, current_theme, fallback, fallback_colors, fav_names, favs_file, hex, is_light,
    keep_dark, load_theme, lookup, menu_items, parse_favs, theme_accent, theme_color, theme_key,
    theme_list, Throttle,
};

fn pairs(v: &[(&str, &str)]) -> Vec<(String, String)> {
    v.iter().map(|(a, b)| (a.to_string(), b.to_string())).collect()
}

fn strs(v: &[&str]) -> Vec<String> {
    v.iter().map(|s| s.to_string()).collect()
}

#[test]
fn fallback_colors_table() {
    assert_eq!(fallback("accent"), "#89b4fa");
    assert_eq!(fallback("darker_background"), "#101019");
    assert_eq!(fallback("nope"), "#ffffff");
    assert_eq!(fallback_colors().len(), 7);
}

#[test]
fn theme_dir_keys() {
    assert_eq!(theme_key("Tokyo Night"), "tokyo-night");
    assert_eq!(theme_key("Catppuccin Latte"), "catppuccin-latte");
}

#[test]
fn color_maps() {
    let none = colors_for(None, &vec![]);
    assert_eq!(none, fallback_colors());
    let flat = pairs(&[("accent", "#123456"), ("colors.normal.blue", "#000000"), ("mode", "light")]);
    let c = colors_for(Some(&flat), &vec![]);
    assert_eq!(lookup(&c, "accent"), Some("#123456".to_string()));
    assert_eq!(lookup(&c, "colors.normal.blue"), None);
    assert_eq!(lookup(&c, "mode"), Some("light".to_string()));
    let ala = pairs(&[("colors.bright.blue", "#abcdef"), ("blue", "#010101")]);
    let c = colors_for(Some(&vec![]), &ala);
    assert_eq!(lookup(&c, "accent"), Some("#abcdef".to_string()));
    assert_eq!(lookup(&c, "blue"), Some("#abcdef".to_string()));
    assert_eq!(theme_accent(&c), "#abcdef");
    let c = colors_for(Some(&vec![]), &vec![]);
    assert_eq!(c, fallback_colors());
}

#[test]
fn theme_roles() {
    let c = colors_for(Some(&pairs(&[("selection", "#222222"), ("muted", "#333333")])), &vec![]);
    let t = load_theme("Nord".to_string(), &c);
    assert_eq!(t.name, "Nord");
    assert_eq!(t.bg, "#1e1e2e");
    assert_eq!(t.pill, "#313244");
    assert_eq!(t.dim, "#333333");
    assert_eq!(theme_color(&c, "dark_foreground", "muted"), "#333333");
    assert_eq!(theme_color(&c, "nothing", "none"), "#ffffff");
}

#[test]
fn hex_bytes() {
    assert_eq!(hex("#1e1e2e"), Some((0x1e, 0x1e, 0x2e)));
    assert_eq!(hex("  ##FFfFff "), Some((255, 255, 255)));
    assert_eq!(hex("#12"), Some((255, 255, 255)));
    assert_eq!(hex("#zz0000"), Some((255, 0, 0)));
    assert_eq!(hex("+f+f+f"), Some((15, 15, 15)));
    assert_eq!(hex("-1ff00"), Some((255, 255, 0)));
    assert_eq!(hex("ééé"), Some((255, 255, 255)));
    // a pair boundary inside 'é' (slicing there panics)
    assert_eq!(hex("aé12345"), None);
}

fn float_light(bg: &str) -> bool {
    let (r, g, b) = hex(bg).unwrap();
    let (r, g, b) = (r as f64 / 255.0, g as f64 / 255.0, b as f64 / 255.0);
    0.2126 * r + 0.7152 * g + 0.0722 * b > 0.55
}

#[test]
fn lightness() {
    let with = |v: &[(&str, &str)]| colors_for(Some(&pairs(v)), &vec![]);
    assert_eq!(is_light(&with(&[("mode", "Light")])), Some(true));
    assert_eq!(is_light(&with(&[("background", "#ffffff")])), Some(true));
    assert_eq!(is_light(&with(&[("background", "#1e1e2e")])), Some(false));
    assert_eq!(is_light(&fallback_colors()), Some(false));
    assert_eq!(is_light(&with(&[("background", "aé1")])), Some(true)); // short: white
    assert_eq!(is_light(&with(&[("background", "aé12345")])), None);
    for bg in ["#8c8c8c", "#8d8d8d", "#a0a0a0", "#00ff00", "#ff0000", "#bcbcbc", "#f0c0a0"] {
        assert_eq!(is_light(&with(&[("background", bg)])), Some(float_light(bg)), "{bg}");
    }
}

#[test]
fn current_and_listed_themes() {
    assert_eq!(current_theme(Some("  Nord\n")), "Nord");
    assert_eq!(current_theme(Some(" \n")), "Catppuccin");
    assert_eq!(current_theme(None), "Catppuccin");
    assert_eq!(theme_list(Some("A\n\n  B  \n")), strs(&["A", "B"]));
    assert!(theme_list(Some("")).is_empty());
    assert_eq!(theme_list(None), strs(&["Catppuccin"]));
}

#[test]
fn favorites_file_parsing() {
    let (names, excl) = parse_favs("# c\n!Light One \n Nord\n\n! x \nTokyo\n#Nope\n");
    assert_eq!(names, strs(&["Nord", "Tokyo"]));
    assert_eq!(excl, strs(&["Light One", "x"]));
    let (n, e) = parse_favs("");
    assert!(n.is_empty() && e.is_empty());
}

#[test]
fn favorites_drop_light_and_top_up() {
    assert_eq!(
        keep_dark(&strs(&["a", "b", "c"]), &vec![false, true, false]),
        strs(&["a", "c"])
    );
    let all = strs(&["x", "a", "b", "c", "d"]);
    let light = vec![false, false, false, true, false];
    let (favs, rewrite) = fav_names(&strs(&["a"]), &strs(&["b"]), &all, &light, "c");
    assert_eq!(favs, strs(&["a", "d", "x"]));
    assert!(rewrite);
    let (favs, _) = fav_names(&strs(&["a"]), &vec![], &all, &light, "unknown");
    assert_eq!(favs, strs(&["a", "x", "b", "d"]));
    let many: Vec<String> = (0..12).map(|i| format!("t{i}")).collect();
    let (favs, rewrite) = fav_names(&many, &vec![], &all, &light, "x");
    assert_eq!(favs, many[..10].to_vec());
    assert!(!rewrite);
    let nine: Vec<String> = (0..9).map(|i| format!("t{i}")).collect();
    let (favs, rewrite) = fav_names(&nine, &vec![], &all, &light, "x");
    assert_eq!(favs.len(), 10);
    assert_eq!(favs[9], "x");
    assert!(rewrite);
    let (favs, _) = fav_names(&vec![], &vec![], &vec![], &vec![], "x");
    assert!(favs.is_empty());
}

#[test]
fn favorites_file_body() {
    assert_eq!(
        favs_file(&strs(&["a", "b"]), &strs(&["z", "m"])),
        "# preferred touchbar themes (one per line, shown in the theme menu;\n# prefix with ! to exclude one forever)\n!m\n!z\na\nb\n"
    );
    assert!(favs_file(&vec![], &vec![]).ends_with("forever)\n\n"));
}

#[test]
fn menu_shows_all_themes_when_few() {
    let all = pairs(&[("A", "#1"), ("B", "#2")]);
    let favs = pairs(&[("F", "#3")]);
    assert_eq!(menu_items(all.clone(), favs.clone()), all);
    assert_eq!(menu_items(vec![], favs.clone()), favs);
    let eleven: Vec<(String, String)> = (0..11).map(|i| (format!("T{i}"), "#0".to_string())).collect();
    assert_eq!(menu_items(eleven, favs.clone()), favs);
}

#[test]
fn throttle_spacing() {
    let mut t = Throttle::new(60);
    assert!(t.ready_at(5));
    assert!(!t.ready_at(5 + 59_999_999_999));
    assert!(t.ready_at(5 + 60_000_000_000));
    assert!(!t.ready_at(5 + 60_000_000_001));
    let mut u = Throttle::new(0);
    assert!(u.ready());
    assert!(u.ready());
}
