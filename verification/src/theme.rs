//! Omarchy theme resolution: color tables, the theme menu's favorites,
//! and a rescan throttle.
//!
//! Themes live in directories of TOML files and the `omarchy` command
//! lists them; the daemon reads those and hands their contents here.
//! Colors stay hex strings in this module (the daemon turns them into
//! cairo's floating-point RGB).
use vstd::prelude::*;
use crate::clock::{elapsed, elapsed_ns, instant_now, nanos_since};
use crate::config::join_lines;
use crate::order::{sort_strings, sorted, strings_view};
use crate::text::{
    drop_start_in, skip_in, chars_eq, includes, lines, lines_of, lowercase, opt_view, owned, replace_char, replaced,
    push_str, slice_of, starts_with, str_eq, string_from, to_chars, to_lower, trim, trim_chars, trimmed,
    views,
};

verus! {

/// Colors used when a theme does not define them.
pub open spec fn fallback_table() -> Seq<(Seq<char>, Seq<char>)> {
    seq![
        ("background"@, "#1e1e2e"@),
        ("lighter_background"@, "#313244"@),
        ("accent"@, "#89b4fa"@),
        ("foreground"@, "#cdd6f4"@),
        ("darker_background"@, "#101019"@),
        ("red"@, "#f38ba8"@),
        ("green"@, "#a6e3a1"@),
    ]
}

/// Views of a list of `(key, value)` string pairs.
pub open spec fn pairs_view(s: Seq<(String, String)>) -> Seq<(Seq<char>, Seq<char>)> {
    s.map_values(|p: (String, String)| (p.0@, p.1@))
}

/// A list of pairs read as a map: a later pair wins over an earlier one.
pub open spec fn pairs_map(s: Seq<(Seq<char>, Seq<char>)>) -> Map<Seq<char>, Seq<char>>
    decreases s.len(),
{
    if s.len() == 0 {
        Map::empty()
    } else {
        pairs_map(s.drop_last()).insert(s.last().0, s.last().1)
    }
}

/// The fallback table's value for `key` (white when it has none).
pub open spec fn fallback_of(key: Seq<char>) -> Seq<char> {
    if pairs_map(fallback_table()).contains_key(key) {
        pairs_map(fallback_table())[key]
    } else {
        "#ffffff"@
    }
}

fn pair(k: &str, v: &str) -> (r: (String, String))
    ensures
        r.0@ == k@,
        r.1@ == v@,
{
    (owned(k), owned(v))
}

/// The fallback colors, in table order.
pub fn fallback_colors() -> (r: Vec<(String, String)>)
    ensures
        pairs_view(r@) == fallback_table(),
{
    let mut r: Vec<(String, String)> = Vec::new();
    r.push(pair("background", "#1e1e2e"));
    r.push(pair("lighter_background", "#313244"));
    r.push(pair("accent", "#89b4fa"));
    r.push(pair("foreground", "#cdd6f4"));
    r.push(pair("darker_background", "#101019"));
    r.push(pair("red", "#f38ba8"));
    r.push(pair("green", "#a6e3a1"));
    assert(pairs_view(r@) =~= fallback_table());
    r
}

/// The value of the last pair named `key`.
pub fn lookup(pairs: &Vec<(String, String)>, key: &str) -> (r: Option<String>)
    ensures
        opt_view(r) == (if pairs_map(pairs_view(pairs@)).contains_key(key@) {
            Some(pairs_map(pairs_view(pairs@))[key@])
        } else {
            None
        }),
{
    let k = to_chars(key);
    let ghost all = pairs_view(pairs@);
    let mut i = pairs.len();
    assert(all.subrange(0, i as int) =~= all);
    while i > 0
        invariant
            i <= pairs.len(),
            k@ == key@,
            all == pairs_view(pairs@),
            forall|j: int| i <= j < pairs.len() ==> all[j].0 != key@,
            pairs_map(all).contains_key(key@) == pairs_map(all.subrange(0, i as int)).contains_key(
                key@,
            ),
            pairs_map(all).contains_key(key@) ==> pairs_map(all)[key@] == pairs_map(
                all.subrange(0, i as int),
            )[key@],
        decreases i,
    {
        let name = to_chars(pairs[i - 1].0.as_str());
        let ghost pre = all.subrange(0, i as int);
        assert(pre.drop_last() =~= all.subrange(0, i - 1));
        assert(pre.last() == all[i - 1]);
        if chars_eq(&name, &k) {
            return Some(pairs[i - 1].1.clone());
        }
        i -= 1;
    }
    assert(all.subrange(0, 0) =~= Seq::<(Seq<char>, Seq<char>)>::empty());
    None
}

/// The fallback value of a color key.
pub fn fallback(key: &str) -> (r: String)
    ensures
        r@ == fallback_of(key@),
{
    let t = fallback_colors();
    match lookup(&t, key) {
        Some(v) => v,
        None => owned("#ffffff"),
    }
}

/// Directory key of a theme display name: lowercase, spaces as dashes.
pub open spec fn theme_key_of(name: Seq<char>) -> Seq<char> {
    replace_char(lowercase(name), ' ', '-')
}

pub fn theme_key(name: &str) -> (r: String)
    ensures
        r@ == theme_key_of(name@),
{
    let l = to_lower(name);
    let k = replaced(&l, ' ', '-');
    string_from(&k)
}

/// Flat `colors.toml` entries kept in the color map: top-level keys only.
pub open spec fn top_level(s: Seq<(Seq<char>, Seq<char>)>) -> Seq<(Seq<char>, Seq<char>)> {
    s.filter(|p: (Seq<char>, Seq<char>)| !p.0.contains('.'))
}

/// The blue of an alacritty theme: the first of `colors.normal.blue`,
/// `colors.bright.blue`, `blue` that it sets.
pub open spec fn alacritty_blue(a: Map<Seq<char>, Seq<char>>) -> Option<Seq<char>> {
    if a.contains_key("colors.normal.blue"@) {
        Some(a["colors.normal.blue"@])
    } else if a.contains_key("colors.bright.blue"@) {
        Some(a["colors.bright.blue"@])
    } else if a.contains_key("blue"@) {
        Some(a["blue"@])
    } else {
        None
    }
}

/// The color pairs of a theme: the fallbacks, overridden by the theme's
/// `colors.toml` (top-level keys), or, when it has none, by the blue of
/// its `alacritty.toml` as `accent` and `blue`. `flat` is `None` when the
/// theme has no directory.
pub open spec fn theme_colors(
    flat: Option<Seq<(Seq<char>, Seq<char>)>>,
    alacritty: Seq<(Seq<char>, Seq<char>)>,
) -> Seq<(Seq<char>, Seq<char>)> {
    match flat {
        None => fallback_table(),
        Some(f) => if f.len() > 0 {
            fallback_table() + top_level(f)
        } else {
            match alacritty_blue(pairs_map(alacritty)) {
                Some(b) => fallback_table() + seq![("accent"@, b), ("blue"@, b)],
                None => fallback_table(),
            }
        },
    }
}

/// The map of the fallbacks followed by `accent` and `blue` set to `b`.
proof fn lemma_blue_override(b: Seq<char>)
    ensures
        pairs_map(fallback_table() + seq![("accent"@, b), ("blue"@, b)]) == pairs_map(
            fallback_table(),
        ).insert("accent"@, b).insert("blue"@, b),
{
    let s = fallback_table() + seq![("accent"@, b), ("blue"@, b)];
    let s1 = fallback_table() + seq![("accent"@, b)];
    assert(s.drop_last() =~= s1);
    assert(s.last() == ("blue"@, b));
    assert(pairs_map(s) == pairs_map(s1).insert("blue"@, b));
    assert(s1.drop_last() =~= fallback_table());
    assert(s1.last() == ("accent"@, b));
    assert(pairs_map(s1) == pairs_map(fallback_table()).insert("accent"@, b));
}

/// A theme without `colors.toml` entries takes its accent and blue from
/// its alacritty table: `colors.normal.blue` when set (whatever the other
/// blues hold), else `colors.bright.blue`, else `blue`; with none of them
/// the colors are the fallbacks alone.
pub proof fn law_alacritty_blue_order(al: Seq<(Seq<char>, Seq<char>)>)
    ensures
        ({
            let a = pairs_map(al);
            let m = pairs_map(theme_colors(Some(seq![]), al));
            &&& a.contains_key("colors.normal.blue"@) ==> m.contains_key("accent"@) && m["accent"@]
                == a["colors.normal.blue"@] && m.contains_key("blue"@) && m["blue"@]
                == a["colors.normal.blue"@]
            &&& !a.contains_key("colors.normal.blue"@) && a.contains_key("colors.bright.blue"@)
                ==> m.contains_key("accent"@) && m["accent"@] == a["colors.bright.blue"@]
                && m.contains_key("blue"@) && m["blue"@] == a["colors.bright.blue"@]
            &&& !a.contains_key("colors.normal.blue"@) && !a.contains_key("colors.bright.blue"@)
                && a.contains_key("blue"@) ==> m.contains_key("accent"@) && m["accent"@]
                == a["blue"@] && m.contains_key("blue"@) && m["blue"@] == a["blue"@]
            &&& !a.contains_key("colors.normal.blue"@) && !a.contains_key("colors.bright.blue"@)
                && !a.contains_key("blue"@) ==> m == pairs_map(fallback_table())
        }),
{
    reveal_strlit("accent");
    reveal_strlit("blue");
    let a = pairs_map(al);
    assert(Seq::<(Seq<char>, Seq<char>)>::empty().len() == 0);
    match alacritty_blue(a) {
        Some(b) => {
            lemma_blue_override(b);
        },
        None => {},
    }
}

fn has_dot(s: &String) -> (r: bool)
    ensures
        r == s@.contains('.'),
{
    let v = to_chars(s.as_str());
    let mut i: usize = 0;
    while i < v.len()
        invariant
            i <= v.len(),
            v@ == s@,
            forall|j: int| 0 <= j < i ==> v@[j] != '.',
        decreases v.len() - i,
    {
        if v[i] == '.' {
            assert(v@[i as int] == '.');
            return true;
        }
        i += 1;
    }
    false
}

/// Flat color map of a theme (see `theme_colors`).
pub fn colors_for(flat: Option<&Vec<(String, String)>>, alacritty: &Vec<(String, String)>) -> (r: Vec<
    (String, String),
>)
    ensures
        pairs_view(r@) == theme_colors(
            match flat {
                Some(f) => Some(pairs_view(f@)),
                None => None,
            },
            pairs_view(alacritty@),
        ),
{
    let mut colors = fallback_colors();
    match flat {
        None => colors,
        Some(f) => {
            if f.len() > 0 {
                let ghost fv = pairs_view(f@);
                let mut i: usize = 0;
                assert(top_level(fv.subrange(0, 0)) =~= Seq::<(Seq<char>, Seq<char>)>::empty());
                assert(pairs_view(colors@) =~= fallback_table() + top_level(fv.subrange(0, 0)));
                while i < f.len()
                    invariant
                        i <= f.len(),
                        fv == pairs_view(f@),
                        pairs_view(colors@) == fallback_table() + top_level(
                            fv.subrange(0, i as int),
                        ),
                    decreases f.len() - i,
                {
                    let ghost before = pairs_view(colors@);
                    let (k, v) = (&f[i].0, &f[i].1);
                    assert(fv.subrange(0, i + 1).drop_last() =~= fv.subrange(0, i as int));
                    assert(fv.subrange(0, i + 1).last() == (k@, v@));
                    proof {
                        fv.subrange(0, i as int).lemma_filter_push(
                            (k@, v@),
                            |p: (Seq<char>, Seq<char>)| !p.0.contains('.'),
                        );
                        assert(fv.subrange(0, i as int).push((k@, v@)) =~= fv.subrange(0, i + 1));
                    }
                    if !has_dot(k) {
                        colors.push((k.clone(), v.clone()));
                        assert(pairs_view(colors@) =~= before.push((k@, v@)));
                    }
                    i += 1;
                }
                assert(fv.subrange(0, f.len() as int) =~= fv);
                colors
            } else {
                let mut b = lookup(alacritty, "colors.normal.blue");
                if b.is_none() {
                    b = lookup(alacritty, "colors.bright.blue");
                }
                if b.is_none() {
                    b = lookup(alacritty, "blue");
                }
                match b {
                    Some(blue) => {
                        let ghost before = pairs_view(colors@);
                        colors.push((owned("accent"), blue.clone()));
                        colors.push((owned("blue"), blue));
                        assert(pairs_view(colors@) =~= before + seq![
                            ("accent"@, blue@),
                            ("blue"@, blue@),
                        ]);
                        colors
                    },
                    None => colors,
                }
            }
        },
    }
}

/// The first of `keys` that the colors define, else the fallback of the
/// first key.
pub open spec fn pick_color(colors: Map<Seq<char>, Seq<char>>, k1: Seq<char>, k2: Seq<char>) -> Seq<
    char,
> {
    if colors.contains_key(k1) {
        colors[k1]
    } else if colors.contains_key(k2) {
        colors[k2]
    } else {
        fallback_of(k1)
    }
}

pub fn theme_color(colors: &Vec<(String, String)>, k1: &str, k2: &str) -> (r: String)
    ensures
        r@ == pick_color(pairs_map(pairs_view(colors@)), k1@, k2@),
{
    match lookup(colors, k1) {
        Some(v) => v,
        None => match lookup(colors, k2) {
            Some(v) => v,
            None => fallback(k1),
        },
    }
}

/// Hex colors of the current theme, by role.
#[derive(Debug, Clone)]
pub struct ThemeHex {
    pub name: String,
    pub bg: String,
    pub pill: String,
    pub accent: String,
    pub fg: String,
    pub dark: String,
    pub red: String,
    pub green: String,
    pub dim: String,
}

/// The roles of a theme from its color pairs.
pub fn load_theme(name: String, colors: &Vec<(String, String)>) -> (r: ThemeHex)
    ensures
        ({
            let m = pairs_map(pairs_view(colors@));
            &&& r.name@ == name@
            &&& r.bg@ == pick_color(m, "background"@, "dark_background"@)
            &&& r.pill@ == pick_color(m, "lighter_background"@, "selection"@)
            &&& r.accent@ == pick_color(m, "accent"@, "blue"@)
            &&& r.fg@ == pick_color(m, "foreground"@, "light_foreground"@)
            &&& r.dark@ == pick_color(m, "darker_background"@, "dark_background"@)
            &&& r.red@ == pick_color(m, "red"@, "bright_red"@)
            &&& r.green@ == pick_color(m, "green"@, "bright_green"@)
            &&& r.dim@ == pick_color(m, "dark_foreground"@, "muted"@)
        }),
{
    ThemeHex {
        name,
        bg: theme_color(colors, "background", "dark_background"),
        pill: theme_color(colors, "lighter_background", "selection"),
        accent: theme_color(colors, "accent", "blue"),
        fg: theme_color(colors, "foreground", "light_foreground"),
        dark: theme_color(colors, "darker_background", "dark_background"),
        red: theme_color(colors, "red", "bright_red"),
        green: theme_color(colors, "green", "bright_green"),
        dim: theme_color(colors, "dark_foreground", "muted"),
    }
}

/// The accent shown for a theme in menus: `accent`, else `blue`, else the
/// fallback accent.
pub open spec fn accent_of(colors: Map<Seq<char>, Seq<char>>) -> Seq<char> {
    if colors.contains_key("accent"@) {
        colors["accent"@]
    } else if colors.contains_key("blue"@) {
        colors["blue"@]
    } else {
        fallback_of("accent"@)
    }
}

pub fn theme_accent(colors: &Vec<(String, String)>) -> (r: String)
    ensures
        r@ == accent_of(pairs_map(pairs_view(colors@))),
{
    theme_color(colors, "accent", "blue")
}

/// The theme declares itself light (`mode = "light"`, any case).
pub open spec fn light_mode(colors: Map<Seq<char>, Seq<char>>) -> bool {
    colors.contains_key("mode"@) && lowercase(colors["mode"@]) == "light"@
}

pub fn is_light_mode(colors: &Vec<(String, String)>) -> (r: bool)
    ensures
        r == light_mode(pairs_map(pairs_view(colors@))),
{
    match lookup(colors, "mode") {
        Some(m) => {
            let l = to_lower(m.as_str());
            let light = to_chars("light");
            chars_eq(&l, &light)
        },
        None => false,
    }
}

/// The background whose luminance decides lightness (black when unset).
pub fn background_hex(colors: &Vec<(String, String)>) -> (r: String)
    ensures
        r@ == (if pairs_map(pairs_view(colors@)).contains_key("background"@) {
            pairs_map(pairs_view(colors@))["background"@]
        } else {
            "#000000"@
        }),
{
    match lookup(colors, "background") {
        Some(v) => v,
        None => owned("#000000"),
    }
}

// ---------------------------------------------------------------------------
// hex colors and lightness
// ---------------------------------------------------------------------------

/// Bytes of the UTF-8 encoding of `c`.
pub open spec fn utf8_len(c: char) -> nat {
    let u = c as u32;
    if u < 0x80 {
        1
    } else if u < 0x800 {
        2
    } else if u < 0x10000 {
        3
    } else {
        4
    }
}

/// The UTF-8 bytes of one character as the hex reader sees them: an ASCII
/// character is its own byte; every byte of a longer character is
/// `0x80` (no such byte is a digit or a sign). The flag marks the byte
/// where a character starts.
pub open spec fn char_units(c: char) -> Seq<(u8, bool)> {
    if (c as u32) < 0x80 {
        seq![((c as u32) as u8, true)]
    } else {
        seq![(0x80u8, true)] + Seq::new((utf8_len(c) - 1) as nat, |i: int| (0x80u8, false))
    }
}

pub open spec fn utf8_units(s: Seq<char>) -> Seq<(u8, bool)>
    decreases s.len(),
{
    if s.len() == 0 {
        seq![]
    } else {
        utf8_units(s.drop_last()) + char_units(s.last())
    }
}

/// Byte offset `b` falls between characters (slicing there is allowed).
pub open spec fn at_boundary(u: Seq<(u8, bool)>, b: int) -> bool {
    b == u.len() || (0 <= b < u.len() && u[b].1)
}

/// Value of a hexadecimal digit byte.
pub open spec fn hex_val(b: u8) -> Option<u8> {
    if 48 <= b <= 57 {
        Some((b - 48) as u8)
    } else if 97 <= b <= 102 {
        Some((b - 87) as u8)
    } else if 65 <= b <= 70 {
        Some((b - 55) as u8)
    } else {
        None
    }
}

/// `u8::from_str_radix` of two bytes in base 16 (a leading `+` is allowed).
pub open spec fn hex_pair(a: u8, b: u8) -> Option<u8> {
    if a == 43 {
        hex_val(b)
    } else {
        match (hex_val(a), hex_val(b)) {
            (Some(x), Some(y)) => Some((16 * x + y) as u8),
            _ => None,
        }
    }
}

/// Channel at byte `i`: the pair's value, `0xff` when it does not parse.
pub open spec fn channel(u: Seq<(u8, bool)>, i: int) -> u8 {
    match hex_pair(u[i].0, u[i + 1].0) {
        Some(v) => v,
        None => 0xff,
    }
}

/// The RGB bytes of a `#rrggbb` color: trimmed, leading `#`s dropped;
/// white when fewer than 6 bytes remain; a pair that does not parse is
/// `0xff`. `None` when a pair boundary falls inside a character, where
/// slicing the string panics.
pub open spec fn rgb_of(s: Seq<char>) -> Option<(u8, u8, u8)> {
    let u = utf8_units(drop_start_in(trim(s), seq!['#']));
    if u.len() < 6 {
        Some((255u8, 255u8, 255u8))
    } else if at_boundary(u, 2) && at_boundary(u, 4) && at_boundary(u, 6) {
        Some((channel(u, 0), channel(u, 2), channel(u, 4)))
    } else {
        None
    }
}

fn units_of(v: &Vec<char>, a: usize) -> (r: Vec<(u8, bool)>)
    requires
        a <= v.len(),
    ensures
        r@ == utf8_units(v@.subrange(a as int, v.len() as int)),
{
    let mut r: Vec<(u8, bool)> = Vec::new();
    let mut i = a;
    assert(v@.subrange(a as int, a as int) =~= Seq::<char>::empty());
    while i < v.len()
        invariant
            a <= i <= v.len(),
            r@ == utf8_units(v@.subrange(a as int, i as int)),
        decreases v.len() - i,
    {
        let c = v[i];
        let u = c as u32;
        let ghost before = r@;
        assert(v@.subrange(a as int, i + 1).drop_last() =~= v@.subrange(a as int, i as int));
        assert(v@.subrange(a as int, i + 1).last() == c);
        if u < 0x80 {
            r.push((u as u8, true));
        } else {
            let n: usize = if u < 0x800 {
                2
            } else if u < 0x10000 {
                3
            } else {
                4
            };
            assert(n == utf8_len(c));
            r.push((0x80u8, true));
            let mut k: usize = 1;
            while k < n
                invariant
                    1 <= k <= n,
                    n == utf8_len(c),
                    r@ == before + seq![(0x80u8, true)] + Seq::new((k - 1) as nat, |j: int| (0x80u8, false)),
                decreases n - k,
            {
                r.push((0x80u8, false));
                assert(r@ =~= before + seq![(0x80u8, true)] + Seq::new(k as nat, |j: int| (0x80u8, false)));
                k += 1;
            }
        }
        assert(r@ =~= before + char_units(c));
        i += 1;
    }
    r
}

fn hex_digit(b: u8) -> (r: Option<u8>)
    ensures
        r == hex_val(b),
{
    if 48 <= b && b <= 57 {
        Some(b - 48)
    } else if 97 <= b && b <= 102 {
        Some(b - 87)
    } else if 65 <= b && b <= 70 {
        Some(b - 55)
    } else {
        None
    }
}

fn channel_at(u: &Vec<(u8, bool)>, i: usize) -> (r: u8)
    requires
        i + 1 < u.len(),
    ensures
        r == channel(u@, i as int),
{
    let a = u[i].0;
    let b = u[i + 1].0;
    let p = if a == 43 {
        hex_digit(b)
    } else {
        match (hex_digit(a), hex_digit(b)) {
            (Some(x), Some(y)) => Some(16 * x + y),
            _ => None,
        }
    };
    match p {
        Some(v) => v,
        None => 0xff,
    }
}

/// The RGB bytes of a hex color (see `rgb_of`); the daemon divides each
/// by 255 for cairo.
pub fn hex(s: &str) -> (r: Option<(u8, u8, u8)>)
    ensures
        r == rgb_of(s@),
{
    let t = trimmed(s);
    let hash = vec!['#'];
    assert(hash@ =~= seq!['#']);
    let a = skip_in(&t, 0, t.len(), &hash);
    assert(t@.subrange(0, t.len() as int) =~= t@);
    let u = units_of(&t, a);
    if u.len() < 6 {
        return Some((255, 255, 255));
    }
    if (u.len() == 2 || u[2].1) && (u.len() == 4 || u[4].1) && (u.len() == 6 || u[6].1) {
        Some((channel_at(&u, 0), channel_at(&u, 2), channel_at(&u, 4)))
    } else {
        None
    }
}

/// Relative luminance above 0.55, in integers: the weights 0.2126,
/// 0.7152, 0.0722 scaled by 10000 and the 0..=255 channels by 255.
pub open spec fn bright(c: (u8, u8, u8)) -> bool {
    2126 * c.0 + 7152 * c.1 + 722 * c.2 > 1402500
}

/// A theme is light when it says `mode = "light"`, else when its
/// background is bright. `None` when the background color cannot be
/// sliced (see `rgb_of`).
pub open spec fn light_of(colors: Map<Seq<char>, Seq<char>>) -> Option<bool> {
    if light_mode(colors) {
        Some(true)
    } else {
        let bg = if colors.contains_key("background"@) {
            colors["background"@]
        } else {
            "#000000"@
        };
        match rgb_of(bg) {
            Some(c) => Some(bright(c)),
            None => None,
        }
    }
}

/// Whether a theme, given its color pairs, is light.
pub fn is_light(colors: &Vec<(String, String)>) -> (r: Option<bool>)
    ensures
        r == light_of(pairs_map(pairs_view(colors@))),
{
    if is_light_mode(colors) {
        return Some(true);
    }
    let bg = background_hex(colors);
    match hex(bg.as_str()) {
        Some(c) => {
            let (x, y, z) = c;
            Some(2126 * (x as u32) + 7152 * (y as u32) + 722 * (z as u32) > 1402500)
        },
        None => None,
    }
}

/// `omarchy theme current`: its trimmed output, "Catppuccin" when it
/// failed or printed nothing.
pub open spec fn current_of(out: Option<Seq<char>>) -> Seq<char> {
    match out {
        Some(o) => if trim(o).len() > 0 {
            trim(o)
        } else {
            "Catppuccin"@
        },
        None => "Catppuccin"@,
    }
}

pub fn current_theme(out: Option<&str>) -> (r: String)
    ensures
        r@ == current_of(
            match out {
                Some(o) => Some(o@),
                None => None,
            },
        ),
{
    match out {
        Some(o) => {
            let t = trimmed(o);
            if t.len() > 0 {
                string_from(&t)
            } else {
                owned("Catppuccin")
            }
        },
        None => owned("Catppuccin"),
    }
}

/// The non-blank trimmed lines of a listing.
pub open spec fn listed(ls: Seq<Seq<char>>) -> Seq<Seq<char>>
    decreases ls.len(),
{
    if ls.len() == 0 {
        seq![]
    } else {
        let rest = listed(ls.drop_last());
        if trim(ls.last()).len() > 0 {
            rest.push(trim(ls.last()))
        } else {
            rest
        }
    }
}

/// `omarchy theme list`: one theme per non-blank line; just "Catppuccin"
/// when the command failed.
pub fn theme_list(out: Option<&str>) -> (r: Vec<String>)
    ensures
        strings_view(r@) == (match out {
            Some(o) => listed(lines(o@)),
            None => seq!["Catppuccin"@],
        }),
{
    match out {
        Some(o) => {
            let ls = lines_of(o);
            let ghost all = views(ls@);
            let mut r: Vec<String> = Vec::new();
            let mut i: usize = 0;
            while i < ls.len()
                invariant
                    i <= ls.len(),
                    all == views(ls@),
                    strings_view(r@) == listed(all.subrange(0, i as int)),
                decreases ls.len() - i,
            {
                let t = trim_chars(&ls[i]);
                let ghost before = strings_view(r@);
                assert(all.subrange(0, i + 1).drop_last() =~= all.subrange(0, i as int));
                assert(all.subrange(0, i + 1).last() == ls@[i as int]@);
                if t.len() > 0 {
                    r.push(string_from(&t));
                    assert(strings_view(r@) =~= before.push(t@));
                }
                i += 1;
            }
            assert(all.subrange(0, ls.len() as int) =~= all);
            r
        },
        None => {
            let mut r: Vec<String> = Vec::new();
            r.push(owned("Catppuccin"));
            assert(strings_view(r@) =~= seq!["Catppuccin"@]);
            r
        },
    }
}

// ---------------------------------------------------------------------------
// favorite themes
// ---------------------------------------------------------------------------

/// At most this many themes appear in the theme menu.
pub const MENU_CAP: usize = 10;

/// The favorites file read line by line: trimmed lines, blank ones and
/// `#` comments skipped; `!name` excludes `name` (trimmed), any other line
/// names a preferred theme. Gives `(names, excluded)`.
pub open spec fn fav_entries(ls: Seq<Seq<char>>) -> (Seq<Seq<char>>, Seq<Seq<char>>)
    decreases ls.len(),
{
    if ls.len() == 0 {
        (seq![], seq![])
    } else {
        let prev = fav_entries(ls.drop_last());
        let l = trim(ls.last());
        if l.len() == 0 || l[0] == '#' {
            prev
        } else if l[0] == '!' {
            (prev.0, prev.1.push(trim(l.drop_first())))
        } else {
            (prev.0.push(l), prev.1)
        }
    }
}

/// Read the favorites file (`""` when it cannot be read).
pub fn parse_favs(text: &str) -> (r: (Vec<String>, Vec<String>))
    ensures
        (strings_view(r.0@), strings_view(r.1@)) == fav_entries(lines(text@)),
{
    let ls = lines_of(text);
    let ghost all = views(ls@);
    let mut names: Vec<String> = Vec::new();
    let mut excluded: Vec<String> = Vec::new();
    let mut i: usize = 0;
    while i < ls.len()
        invariant
            i <= ls.len(),
            all == views(ls@),
            (strings_view(names@), strings_view(excluded@)) == fav_entries(
                all.subrange(0, i as int),
            ),
        decreases ls.len() - i,
    {
        let l = trim_chars(&ls[i]);
        let ghost n0 = strings_view(names@);
        let ghost e0 = strings_view(excluded@);
        assert(all.subrange(0, i + 1).drop_last() =~= all.subrange(0, i as int));
        assert(all.subrange(0, i + 1).last() == ls@[i as int]@);
        if l.len() == 0 || l[0] == '#' {
        } else if l[0] == '!' {
            let rest = slice_of(&l, 1, l.len());
            assert(rest@ =~= l@.drop_first());
            let t = trim_chars(&rest);
            excluded.push(string_from(&t));
            assert(strings_view(excluded@) =~= e0.push(t@));
        } else {
            names.push(string_from(&l));
            assert(strings_view(names@) =~= n0.push(l@));
        }
        i += 1;
    }
    assert(all.subrange(0, ls.len() as int) =~= all);
    (names, excluded)
}

/// The names whose theme is not light (`light[i]` tells of `names[i]`).
pub open spec fn dark_only(names: Seq<Seq<char>>, light: Seq<bool>) -> Seq<Seq<char>>
    decreases names.len(),
{
    if names.len() == 0 {
        seq![]
    } else {
        let rest = dark_only(names.drop_last(), light.subrange(0, names.len() - 1));
        if light[names.len() - 1] {
            rest
        } else {
            rest.push(names.last())
        }
    }
}

/// Drop the light themes from the preferred names.
pub fn keep_dark(names: &Vec<String>, light: &Vec<bool>) -> (r: Vec<String>)
    requires
        light.len() == names.len(),
    ensures
        strings_view(r@) == dark_only(strings_view(names@), light@),
{
    let ghost nv = strings_view(names@);
    let mut r: Vec<String> = Vec::new();
    let mut i: usize = 0;
    while i < names.len()
        invariant
            i <= names.len(),
            light.len() == names.len(),
            nv == strings_view(names@),
            strings_view(r@) == dark_only(nv.subrange(0, i as int), light@.subrange(0, i as int)),
        decreases names.len() - i,
    {
        let ghost r0 = strings_view(r@);
        assert(nv.subrange(0, i + 1).drop_last() =~= nv.subrange(0, i as int));
        assert(light@.subrange(0, i + 1).subrange(0, i as int) =~= light@.subrange(0, i as int));
        if !light[i] {
            r.push(names[i].clone());
            assert(strings_view(r@) =~= r0.push(nv[i as int]));
        }
        i += 1;
    }
    assert(nv.subrange(0, names.len() as int) =~= nv);
    assert(light@.subrange(0, names.len() as int) =~= light@);
    r
}

/// Index of the first `x` in `s`, 0 when it is absent.
pub open spec fn position_or_zero(s: Seq<Seq<char>>, x: Seq<char>) -> int
    decreases s.len(),
{
    if s.len() == 0 {
        0
    } else if s[0] == x {
        0
    } else if s.drop_first().contains(x) {
        1 + position_or_zero(s.drop_first(), x)
    } else {
        0
    }
}

/// The listed themes from position `start` on, wrapping around.
pub open spec fn rotated(s: Seq<(Seq<char>, bool)>, start: int) -> Seq<(Seq<char>, bool)> {
    Seq::new(s.len(), |k: int| s[(start + k) % (s.len() as int)])
}

/// Top the names up from `cands` in order: a candidate is added when it is
/// not named yet, not excluded and not light, until there are
/// `MENU_CAP` names.
pub open spec fn topped_up(
    names: Seq<Seq<char>>,
    excluded: Seq<Seq<char>>,
    cands: Seq<(Seq<char>, bool)>,
) -> Seq<Seq<char>>
    decreases cands.len(),
{
    if cands.len() == 0 || names.len() >= MENU_CAP {
        names
    } else {
        let c = cands[0];
        let next = if !names.contains(c.0) && !excluded.contains(c.0) && !c.1 {
            names.push(c.0)
        } else {
            names
        };
        topped_up(next, excluded, cands.drop_first())
    }
}

/// The theme list zipped with whether each theme is light.
pub open spec fn zipped(all: Seq<Seq<char>>, light: Seq<bool>) -> Seq<(Seq<char>, bool)> {
    Seq::new(all.len(), |i: int| (all[i], light[i]))
}

/// The menu's favorites: the (dark) preferred names, topped up when fewer
/// than `MENU_CAP` from the theme list starting at the current theme, and
/// cut to `MENU_CAP`.
pub open spec fn favs_of(
    names: Seq<Seq<char>>,
    excluded: Seq<Seq<char>>,
    all: Seq<Seq<char>>,
    light: Seq<bool>,
    cur: Seq<char>,
) -> Seq<Seq<char>> {
    let full = if names.len() < MENU_CAP {
        topped_up(names, excluded, rotated(zipped(all, light), position_or_zero(all, cur)))
    } else {
        names
    };
    if full.len() <= MENU_CAP {
        full
    } else {
        full.subrange(0, MENU_CAP as int)
    }
}

fn has_name(v: &Vec<String>, x: &str) -> (r: bool)
    ensures
        r == strings_view(v@).contains(x@),
{
    let mut i: usize = 0;
    while i < v.len()
        invariant
            i <= v.len(),
            forall|j: int| 0 <= j < i ==> v@[j]@ != x@,
        decreases v.len() - i,
    {
        if str_eq(v[i].as_str(), x) {
            assert(strings_view(v@)[i as int] == x@);
            return true;
        }
        i += 1;
    }
    assert forall|j: int| 0 <= j < strings_view(v@).len() implies strings_view(v@)[j] != x@ by {
        assert(v@[j]@ != x@);
    }
    false
}

proof fn lemma_position_absent(s: Seq<Seq<char>>, x: Seq<char>)
    requires
        !s.contains(x),
    ensures
        position_or_zero(s, x) == 0,
{
    if s.len() > 0 {
        assert(s[0] != x);
        if s.drop_first().contains(x) {
            let k = choose|k: int| 0 <= k < s.drop_first().len() && s.drop_first()[k] == x;
            assert(s[k + 1] == x);
        }
    }
}

fn position_of(all: &Vec<String>, cur: &str) -> (r: usize)
    ensures
        r == position_or_zero(strings_view(all@), cur@),
        all.len() > 0 ==> r < all.len(),
{
    let ghost av = strings_view(all@);
    let mut i: usize = 0;
    assert(av.subrange(0, av.len() as int) =~= av);
    proof {
        if !av.contains(cur@) {
            lemma_position_absent(av, cur@);
        }
    }
    while i < all.len()
        invariant
            i <= all.len(),
            av == strings_view(all@),
            forall|j: int| 0 <= j < i ==> av[j] != cur@,
            position_or_zero(av, cur@) == (if av.subrange(i as int, av.len() as int).contains(
                cur@,
            ) {
                i + position_or_zero(av.subrange(i as int, av.len() as int), cur@)
            } else {
                0
            }),
        decreases all.len() - i,
    {
        let ghost t = av.subrange(i as int, av.len() as int);
        assert(t.drop_first() =~= av.subrange(i + 1, av.len() as int));
        assert(t[0] == av[i as int]);
        if str_eq(all[i].as_str(), cur) {
            assert(t.contains(cur@)) by {
                assert(t[0] == cur@);
            }
            return i;
        }
        assert(t.contains(cur@) == t.drop_first().contains(cur@)) by {
            if t.contains(cur@) {
                let k = choose|k: int| 0 <= k < t.len() && t[k] == cur@;
                assert(k != 0);
                assert(t.drop_first()[k - 1] == cur@);
            }
            if t.drop_first().contains(cur@) {
                let k = choose|k: int| 0 <= k < t.drop_first().len() && t.drop_first()[k] == cur@;
                assert(t[k + 1] == cur@);
            }
        }
        i += 1;
    }
    assert(av.subrange(all.len() as int, av.len() as int) =~= Seq::<Seq<char>>::empty());
    0
}

/// The menu's favorite theme names (see `favs_of`), and whether the
/// favorites file gets rewritten (it does when they were topped up).
/// `light[i]` tells whether `all[i]` is a light theme.
pub fn fav_names(
    names: &Vec<String>,
    excluded: &Vec<String>,
    all: &Vec<String>,
    light: &Vec<bool>,
    cur: &str,
) -> (r: (Vec<String>, bool))
    requires
        light.len() == all.len(),
    ensures
        strings_view(r.0@) == favs_of(
            strings_view(names@),
            strings_view(excluded@),
            strings_view(all@),
            light@,
            cur@,
        ),
        r.1 == (names.len() < MENU_CAP),
{
    let ghost ex = strings_view(excluded@);
    let mut out: Vec<String> = Vec::new();
    let mut i: usize = 0;
    while i < names.len()
        invariant
            i <= names.len(),
            strings_view(out@) == strings_view(names@).subrange(0, i as int),
        decreases names.len() - i,
    {
        let ghost o0 = strings_view(out@);
        out.push(names[i].clone());
        assert(strings_view(out@) =~= o0.push(names@[i as int]@));
        assert(strings_view(out@) =~= strings_view(names@).subrange(0, i + 1));
        i += 1;
    }
    assert(strings_view(names@).subrange(0, names.len() as int) =~= strings_view(names@));
    let rewrite = names.len() < MENU_CAP;
    if rewrite {
        let start = position_of(all, cur);
        let ghost cands = rotated(zipped(strings_view(all@), light@), start as int);
        let mut k: usize = 0;
        assert(cands.subrange(0, cands.len() as int) =~= cands);
        while k < all.len() && out.len() < MENU_CAP
            invariant
                k <= all.len(),
                light.len() == all.len(),
                start == position_or_zero(strings_view(all@), cur@),
                all.len() > 0 ==> start < all.len(),
                cands == rotated(zipped(strings_view(all@), light@), start as int),
                ex == strings_view(excluded@),
                topped_up(strings_view(names@), ex, cands) == topped_up(
                    strings_view(out@),
                    ex,
                    cands.subrange(k as int, cands.len() as int),
                ),
            decreases all.len() - k,
        {
            let len = all.len();
            let j = if k < len - start {
                start + k
            } else {
                k - (len - start)
            };
            assert(j == (start + k) % (len as int)) by (nonlinear_arith)
                requires
                    start < len,
                    k < len,
                    j == (if k < len - start {
                        start + k
                    } else {
                        k - (len - start)
                    }),
            ;
            let ghost rest = cands.subrange(k as int, cands.len() as int);
            assert(rest[0] == (strings_view(all@)[j as int], light@[j as int]));
            assert(rest.drop_first() =~= cands.subrange(k + 1, cands.len() as int));
            let n = &all[j];
            let ghost o0 = strings_view(out@);
            if !has_name(&out, n.as_str()) && !has_name(excluded, n.as_str()) && !light[j] {
                out.push(n.clone());
                assert(strings_view(out@) =~= o0.push(n@));
            }
            k += 1;
        }
        proof {
            let rest = cands.subrange(k as int, cands.len() as int);
            if k == all.len() {
                assert(rest.len() == 0);
            }
        }
    }
    let ghost full = strings_view(out@);
    if out.len() > MENU_CAP {
        out.truncate(MENU_CAP);
        assert(strings_view(out@) =~= full.subrange(0, MENU_CAP as int));
    }
    (out, rewrite)
}

/// The `!name` lines of the excluded themes.
pub open spec fn excluded_lines(e: Seq<Seq<char>>) -> Seq<char>
    decreases e.len(),
{
    if e.len() == 0 {
        seq![]
    } else {
        excluded_lines(e.drop_last()) + seq!['!'] + e.last() + seq!['\n']
    }
}

/// The favorites file: a comment header, the excluded themes as `!name`
/// lines (in the order given), then one favorite per line.
pub open spec fn favs_body(excluded: Seq<Seq<char>>, names: Seq<Seq<char>>) -> Seq<char> {
    "# preferred touchbar themes (one per line, shown in the theme menu;\n# prefix with ! to exclude one forever)\n"@
        + excluded_lines(excluded) + join_lines(names) + seq!['\n']
}

/// The rewritten favorites file: excluded themes sorted, favorites in
/// menu order.
pub fn favs_file(names: &Vec<String>, excluded: &Vec<String>) -> (r: String)
    ensures
        exists|e: Seq<Seq<char>>|
            sorted(e) && e.to_multiset() == strings_view(excluded@).to_multiset() && r@
                == favs_body(e, strings_view(names@)),
{
    let mut ex: Vec<String> = Vec::new();
    let mut i: usize = 0;
    while i < excluded.len()
        invariant
            i <= excluded.len(),
            strings_view(ex@) == strings_view(excluded@).subrange(0, i as int),
        decreases excluded.len() - i,
    {
        let ghost e0 = strings_view(ex@);
        ex.push(excluded[i].clone());
        assert(strings_view(ex@) =~= e0.push(excluded@[i as int]@));
        assert(strings_view(ex@) =~= strings_view(excluded@).subrange(0, i + 1));
        i += 1;
    }
    assert(strings_view(excluded@).subrange(0, excluded.len() as int) =~= strings_view(excluded@));
    let sorted_ex = sort_strings(ex);
    let ghost e = strings_view(sorted_ex@);
    let mut body: Vec<char> = Vec::new();
    push_str(
        &mut body,
        "# preferred touchbar themes (one per line, shown in the theme menu;\n# prefix with ! to exclude one forever)\n",
    );
    let ghost head = body@;
    let mut k: usize = 0;
    assert(e.subrange(0, 0) =~= Seq::<Seq<char>>::empty());
    while k < sorted_ex.len()
        invariant
            k <= sorted_ex.len(),
            e == strings_view(sorted_ex@),
            body@ == head + excluded_lines(e.subrange(0, k as int)),
        decreases sorted_ex.len() - k,
    {
        let ghost b0 = body@;
        body.push('!');
        push_str(&mut body, sorted_ex[k].as_str());
        body.push('\n');
        assert(e.subrange(0, k + 1).drop_last() =~= e.subrange(0, k as int));
        assert(body@ =~= b0 + seq!['!'] + e[k as int] + seq!['\n']);
        k += 1;
    }
    assert(e.subrange(0, sorted_ex.len() as int) =~= e);
    let ghost nv = strings_view(names@);
    let ghost mid = body@;
    let mut j: usize = 0;
    assert(nv.subrange(0, 0) =~= Seq::<Seq<char>>::empty());
    while j < names.len()
        invariant
            j <= names.len(),
            nv == strings_view(names@),
            body@ == mid + join_lines(nv.subrange(0, j as int)),
        decreases names.len() - j,
    {
        let ghost b0 = body@;
        if j > 0 {
            body.push('\n');
        }
        push_str(&mut body, names[j].as_str());
        assert(nv.subrange(0, j + 1).drop_last() =~= nv.subrange(0, j as int));
        if j == 0 {
            assert(join_lines(nv.subrange(0, 1)) == nv[0]);
        }
        assert(body@ =~= mid + join_lines(nv.subrange(0, j + 1)));
        j += 1;
    }
    assert(nv.subrange(0, names.len() as int) =~= nv);
    body.push('\n');
    string_from(&body)
}


/// The theme menu: every listed theme when there are at most `MENU_CAP`
/// (and at least one), else the favorites.
pub fn menu_items<T>(all: Vec<T>, favs: Vec<T>) -> (r: Vec<T>)
    ensures
        r@ == (if 0 < all.len() <= MENU_CAP {
            all@
        } else {
            favs@
        }),
{
    if all.len() > 0 && all.len() <= MENU_CAP {
        all
    } else {
        favs
    }
}

/// Throttle for theme-dir rescans: ready at most once per interval.
pub struct Throttle {
    last: Option<u64>,
    interval_ns: u64,
    epoch: std::time::Instant,
}

pub struct ThrottleView {
    pub last: Option<u64>,
    pub interval_ns: u64,
}

impl View for Throttle {
    type V = ThrottleView;

    closed spec fn view(&self) -> ThrottleView {
        ThrottleView { last: self.last, interval_ns: self.interval_ns }
    }
}

/// Ready at `now`: never fired, or a full interval since it last fired.
pub open spec fn throttle_ready(t: ThrottleView, now: u64) -> bool {
    t.last is None || elapsed(t.last->0, now) >= t.interval_ns
}

impl Throttle {
    pub fn new(secs: u64) -> (r: Throttle)
        requires
            secs <= u64::MAX / 1_000_000_000,
        ensures
            r@.last is None,
            r@.interval_ns == secs * 1_000_000_000,
    {
        Throttle { last: None, interval_ns: secs * 1_000_000_000, epoch: instant_now() }
    }

    /// Ready at `now`? If so, the interval restarts at `now`.
    pub fn ready_at(&mut self, now: u64) -> (r: bool)
        ensures
            r == throttle_ready(old(self)@, now),
            final(self)@ == (if r {
                ThrottleView { last: Some(now), ..old(self)@ }
            } else {
                old(self)@
            }),
    {
        let go = match self.last {
            None => true,
            Some(t) => elapsed_ns(t, now) >= self.interval_ns,
        };
        if go {
            self.last = Some(now);
        }
        go
    }

    /// `ready_at` on the monotonic clock.
    pub fn ready(&mut self) -> (r: bool)
        ensures
            exists|now: u64|
                r == throttle_ready(old(self)@, now) && final(self)@ == (if r {
                    ThrottleView { last: Some(now), ..old(self)@ }
                } else {
                    old(self)@
                }),
    {
        let now = nanos_since(&self.epoch);
        self.ready_at(now)
    }
}

/// A throttle fires once, then stays quiet until its interval has passed.
pub proof fn law_throttle_spacing(t: ThrottleView, now: u64, later: u64)
    requires
        throttle_ready(t, now),
        now <= later,
        later - now < t.interval_ns,
    ensures
        !throttle_ready(ThrottleView { last: Some(now), ..t }, later),
{
}

} // verus!
