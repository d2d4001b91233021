//! Glyph choices of the bar: which icon a window or a webapp gets, and the
//! defaults of the slider targets.
//!
//! Drawing (cairo) lives in the daemon; this module decides *what* is
//! drawn where the decision is a rule over names.
use vstd::prelude::*;
use crate::text::{
    before_first, contains, includes, has_prefix, lemma_split_nonempty, lowercase, piece_before,
    replace_char, replaced, slice_of, split_char, split_on, starts_with, str_eq, string_from,
    to_chars, to_lower, trim, trim_chars, views,
};

verus! {

pub const NERD: &'static str = "JetBrainsMono Nerd Font";

/// Views of a keyword table `(keyword, font, glyph)`.
pub open spec fn table_view(t: Seq<(&'static str, &'static str, &'static str)>) -> Seq<
    (Seq<char>, Seq<char>, Seq<char>),
> {
    t.map_values(|e: (&'static str, &'static str, &'static str)| (e.0@, e.1@, e.2@))
}

/// Views of a `(font, glyph)` answer.
pub open spec fn glyph_view(g: Option<(&'static str, &'static str)>) -> Option<(Seq<char>, Seq<char>)> {
    match g {
        Some(p) => Some((p.0@, p.1@)),
        None => None,
    }
}

/// `(font, glyph)` of the first table row whose keyword occurs in `s`.
pub open spec fn first_match(t: Seq<(Seq<char>, Seq<char>, Seq<char>)>, s: Seq<char>) -> Option<
    (Seq<char>, Seq<char>),
>
    decreases t.len(),
{
    if t.len() == 0 {
        None
    } else if contains(s, t[0].0) {
        Some((t[0].1, t[0].2))
    } else {
        first_match(t.drop_first(), s)
    }
}

// Keyword tables, specific keywords before generic ones.

pub open spec fn host_table() -> Seq<(Seq<char>, Seq<char>, Seq<char>)> {
    seq![
        ("youtube"@, NERD@, "\u{F16A}"@),
        ("twitter"@, NERD@, ""@),
        ("whatsapp"@, NERD@, ""@),
        ("discord"@, NERD@, "󰙯"@),
        ("calendar"@, NERD@, ""@),
        ("contacts"@, NERD@, ""@),
        ("maps"@, NERD@, ""@),
        ("settings"@, NERD@, ""@),
        ("github"@, NERD@, ""@),
        ("zoom"@, NERD@, ""@),
        ("gmail"@, NERD@, ""@),
        ("mail"@, NERD@, ""@),
        ("drive"@, NERD@, ""@),
        ("meet"@, NERD@, ""@),
        ("docs"@, NERD@, ""@),
        ("google"@, NERD@, ""@),
        ("photos"@, NERD@, ""@),
        ("messages"@, NERD@, ""@),
    ]
}

fn host_keys() -> (t: Vec<(&'static str, &'static str, &'static str)>)
    ensures
        table_view(t@) == host_table(),
{
    let mut t: Vec<(&'static str, &'static str, &'static str)> = Vec::new();
    t.push(("youtube", NERD, "\u{F16A}"));
    t.push(("twitter", NERD, ""));
    t.push(("whatsapp", NERD, ""));
    t.push(("discord", NERD, "󰙯"));
    t.push(("calendar", NERD, ""));
    t.push(("contacts", NERD, ""));
    t.push(("maps", NERD, ""));
    t.push(("settings", NERD, ""));
    t.push(("github", NERD, ""));
    t.push(("zoom", NERD, ""));
    t.push(("gmail", NERD, ""));
    t.push(("mail", NERD, ""));
    t.push(("drive", NERD, ""));
    t.push(("meet", NERD, ""));
    t.push(("docs", NERD, ""));
    t.push(("google", NERD, ""));
    t.push(("photos", NERD, ""));
    t.push(("messages", NERD, ""));
    assert(table_view(t@) =~= host_table());
    t
}

pub open spec fn class_table() -> Seq<(Seq<char>, Seq<char>, Seq<char>)> {
    seq![
        ("nautilus"@, NERD@, "\u{F07B}"@),
        ("thunar"@, NERD@, "\u{F07B}"@),
        ("dolphin"@, NERD@, "\u{F07B}"@),
        ("nemo"@, NERD@, "\u{F07B}"@),
        ("alacritty"@, NERD@, "\u{F489}"@),
        ("kitty"@, NERD@, "\u{F489}"@),
        ("ghostty"@, NERD@, "\u{F489}"@),
        ("wezterm"@, NERD@, "\u{F489}"@),
        ("gnome-terminal"@, NERD@, "\u{F489}"@),
        ("ptyxis"@, NERD@, "\u{F489}"@),
        ("konsole"@, NERD@, "\u{F489}"@),
        ("xterm"@, NERD@, "\u{F489}"@),
        ("vscodium"@, NERD@, "\u{E70C}"@),
        ("code"@, NERD@, "\u{E70C}"@),
        ("neovim"@, NERD@, "\u{E62B}"@),
        ("nvim"@, NERD@, "\u{E62B}"@),
        ("vim"@, NERD@, "\u{E62B}"@),
        ("emacs"@, NERD@, "\u{E632}"@),
        ("firefox"@, NERD@, "\u{F269}"@),
        ("brave"@, NERD@, "\u{E639}"@),
        ("chromium"@, NERD@, "\u{F268}"@),
        ("obsidian"@, NERD@, "\u{E63A}"@),
        ("spotify"@, NERD@, "\u{F1BC}"@),
        ("discord"@, NERD@, "\u{F066F}"@),
        ("telegram"@, NERD@, "\u{F2C6}"@),
        ("slack"@, NERD@, "\u{F198}"@),
        ("whatsapp"@, NERD@, "\u{F232}"@),
        ("zoom"@, NERD@, "\u{F03D}"@),
        ("vlc"@, NERD@, "\u{F07C4}"@),
        ("gimp"@, NERD@, "\u{F1C5}"@),
        ("steam"@, NERD@, "\u{F1B6}"@),
        ("calendar"@, NERD@, ""@),
        ("contacts"@, NERD@, ""@),
        ("maps"@, NERD@, ""@),
        ("settings"@, NERD@, ""@),
        ("localsend"@, NERD@, ""@),
        ("github"@, NERD@, "\u{F09B}"@),
    ]
}

fn class_keys() -> (t: Vec<(&'static str, &'static str, &'static str)>)
    ensures
        table_view(t@) == class_table(),
{
    let mut t: Vec<(&'static str, &'static str, &'static str)> = Vec::new();
    t.push(("nautilus", NERD, "\u{F07B}"));
    t.push(("thunar", NERD, "\u{F07B}"));
    t.push(("dolphin", NERD, "\u{F07B}"));
    t.push(("nemo", NERD, "\u{F07B}"));
    t.push(("alacritty", NERD, "\u{F489}"));
    t.push(("kitty", NERD, "\u{F489}"));
    t.push(("ghostty", NERD, "\u{F489}"));
    t.push(("wezterm", NERD, "\u{F489}"));
    t.push(("gnome-terminal", NERD, "\u{F489}"));
    t.push(("ptyxis", NERD, "\u{F489}"));
    t.push(("konsole", NERD, "\u{F489}"));
    t.push(("xterm", NERD, "\u{F489}"));
    t.push(("vscodium", NERD, "\u{E70C}"));
    t.push(("code", NERD, "\u{E70C}"));
    t.push(("neovim", NERD, "\u{E62B}"));
    t.push(("nvim", NERD, "\u{E62B}"));
    t.push(("vim", NERD, "\u{E62B}"));
    t.push(("emacs", NERD, "\u{E632}"));
    t.push(("firefox", NERD, "\u{F269}"));
    t.push(("brave", NERD, "\u{E639}"));
    t.push(("chromium", NERD, "\u{F268}"));
    t.push(("obsidian", NERD, "\u{E63A}"));
    t.push(("spotify", NERD, "\u{F1BC}"));
    t.push(("discord", NERD, "\u{F066F}"));
    t.push(("telegram", NERD, "\u{F2C6}"));
    t.push(("slack", NERD, "\u{F198}"));
    t.push(("whatsapp", NERD, "\u{F232}"));
    t.push(("zoom", NERD, "\u{F03D}"));
    t.push(("vlc", NERD, "\u{F07C4}"));
    t.push(("gimp", NERD, "\u{F1C5}"));
    t.push(("steam", NERD, "\u{F1B6}"));
    t.push(("calendar", NERD, ""));
    t.push(("contacts", NERD, ""));
    t.push(("maps", NERD, ""));
    t.push(("settings", NERD, ""));
    t.push(("localsend", NERD, ""));
    t.push(("github", NERD, "\u{F09B}"));
    assert(table_view(t@) =~= class_table());
    t
}

pub open spec fn title_table() -> Seq<(Seq<char>, Seq<char>, Seq<char>)> {
    seq![
        ("youtube"@, NERD@, "\u{F16A}"@),
        ("twitter"@, NERD@, ""@),
        ("whatsapp"@, NERD@, ""@),
        ("discord"@, NERD@, "󰙯"@),
        ("calendar"@, NERD@, ""@),
        ("contacts"@, NERD@, ""@),
        ("maps"@, NERD@, ""@),
        ("settings"@, NERD@, ""@),
        ("github"@, NERD@, ""@),
        ("zoom"@, NERD@, ""@),
        ("photos"@, NERD@, ""@),
        ("messages"@, NERD@, ""@),
        ("gmail"@, NERD@, ""@),
        ("mail"@, NERD@, ""@),
        ("drive"@, NERD@, ""@),
        ("meet"@, NERD@, ""@),
        ("docs"@, NERD@, ""@),
        ("google"@, NERD@, ""@),
    ]
}

fn title_keys() -> (t: Vec<(&'static str, &'static str, &'static str)>)
    ensures
        table_view(t@) == title_table(),
{
    let mut t: Vec<(&'static str, &'static str, &'static str)> = Vec::new();
    t.push(("youtube", NERD, "\u{F16A}"));
    t.push(("twitter", NERD, ""));
    t.push(("whatsapp", NERD, ""));
    t.push(("discord", NERD, "󰙯"));
    t.push(("calendar", NERD, ""));
    t.push(("contacts", NERD, ""));
    t.push(("maps", NERD, ""));
    t.push(("settings", NERD, ""));
    t.push(("github", NERD, ""));
    t.push(("zoom", NERD, ""));
    t.push(("photos", NERD, ""));
    t.push(("messages", NERD, ""));
    t.push(("gmail", NERD, ""));
    t.push(("mail", NERD, ""));
    t.push(("drive", NERD, ""));
    t.push(("meet", NERD, ""));
    t.push(("docs", NERD, ""));
    t.push(("google", NERD, ""));
    assert(table_view(t@) =~= title_table());
    t
}


fn lookup(t: &Vec<(&'static str, &'static str, &'static str)>, s: &Vec<char>) -> (r: Option<
    (&'static str, &'static str),
>)
    ensures
        glyph_view(r) == first_match(table_view(t@), s@),
{
    let ghost tv = table_view(t@);
    assert(tv.subrange(0, t.len() as int) =~= tv);
    let mut i: usize = 0;
    while i < t.len()
        invariant
            i <= t.len(),
            tv == table_view(t@),
            first_match(tv, s@) == first_match(tv.subrange(i as int, t.len() as int), s@),
        decreases t.len() - i,
    {
        let (k, f, g) = t[i];
        let kv = to_chars(k);
        let ghost rest = tv.subrange(i as int, t.len() as int);
        assert(rest[0] == (k@, f@, g@));
        if includes(s, &kv) {
            return Some((f, g));
        }
        assert(rest.drop_first() =~= tv.subrange(i + 1, t.len() as int));
        i += 1;
    }
    None
}

/// The host of a webapp, lowercased, without a port.
pub open spec fn host_part(host: Seq<char>) -> Seq<char> {
    split_char(lowercase(host), ':')[0]
}

/// Webapp icon by host keyword, then `x.com`.
pub open spec fn host_glyph_of(host: Seq<char>) -> Option<(Seq<char>, Seq<char>)> {
    let h = host_part(host);
    match first_match(host_table(), h) {
        Some(g) => Some(g),
        None => if contains(h, "x.com"@) {
            Some(("Sans"@, "X"@))
        } else {
            None
        },
    }
}

/// Webapp icons (Omarchy webapps run as `chromium --app=<url>`): the
/// host decides.
pub fn host_glyph(host: &str) -> (r: Option<(&'static str, &'static str)>)
    ensures
        glyph_view(r) == host_glyph_of(host@),
{
    let l = to_lower(host);
    let parts = split_on(&l, ':');
    proof {
        lemma_split_nonempty(l@, ':');
    }
    assert(parts@[0]@ == views(parts@)[0]);
    let h = &parts[0];
    let t = host_keys();
    match lookup(&t, h) {
        Some(g) => Some(g),
        None => {
            let xcom = to_chars("x.com");
            if includes(h, &xcom) {
                Some(("Sans", "X"))
            } else {
                None
            }
        },
    }
}

/// Class names of browsers whose windows carry no app identity.
pub open spec fn generic_browser(low: Seq<char>) -> bool {
    low == "chromium"@ || low == "chrome"@ || low == "google-chrome"@ || low == "brave-browser"@
        || low == "microsoft-edge"@ || low == "vivaldi"@ || low == "helium"@ || starts_with(
        low,
        "chrome-"@,
    )
}

fn is_generic_browser(low: &str) -> (r: bool)
    ensures
        r == generic_browser(low@),
{
    let v = to_chars(low);
    let pre = to_chars("chrome-");
    str_eq(low, "chromium") || str_eq(low, "chrome") || str_eq(low, "google-chrome") || str_eq(
        low,
        "brave-browser",
    ) || str_eq(low, "microsoft-edge") || str_eq(low, "vivaldi") || str_eq(low, "helium")
        || has_prefix(&v, &pre)
}

/// The site of a PWA class `chrome-<host>__...`, with `_` read as `.`.
pub open spec fn pwa_host(low: Seq<char>) -> Seq<char> {
    replace_char(before_first(low.subrange("chrome-"@.len() as int, low.len() as int), "__"@), '_', '.')
}

/// Icon for a generic browser window, by its title.
pub open spec fn browser_glyph(title: Seq<char>) -> (Seq<char>, Seq<char>) {
    let t = trim(lowercase(title));
    if t == "x"@ || t == "home / x"@ || contains(t, "x.com"@) {
        ("Sans"@, "X"@)
    } else {
        match first_match(title_table(), t) {
            Some(g) => g,
            None => (NERD@, ""@),
        }
    }
}

/// The nerd-font glyph for a window: exact classes; a plain generic
/// browser class (not a `chrome-<host>` PWA class) by its title, falling
/// back to the chrome icon; then class keywords, zen, the site of a PWA
/// class, and a PWA class with an unknown site by its title.
pub open spec fn wm_glyph(class: Seq<char>, title: Seq<char>) -> Option<(Seq<char>, Seq<char>)> {
    if class == "foot"@ {
        Some((NERD@, ""@))
    } else if class == "org.omarchy.agent"@ {
        Some(("Sans"@, "\u{25b2}"@))
    } else if generic_browser(lowercase(class)) && !starts_with(lowercase(class), "chrome-"@) {
        Some(browser_glyph(title))
    } else {
        let low = lowercase(class);
        match first_match(class_table(), low) {
            Some(g) => Some(g),
            None => if low == "zen"@ || contains(low, "zen-browser"@) {
                Some((NERD@, ""@))
            } else if starts_with(low, "chrome-"@) && host_glyph_of(pwa_host(low)) is Some {
                host_glyph_of(pwa_host(low))
            } else if generic_browser(low) {
                Some(browser_glyph(title))
            } else {
                None
            },
        }
    }
}

fn browser_title_glyph(title: &str) -> (r: (&'static str, &'static str))
    ensures
        (r.0@, r.1@) == browser_glyph(title@),
{
    let l = to_lower(title);
    let t = trim_chars(&l);
    let x = to_chars("x");
    let home = to_chars("home / x");
    let xcom = to_chars("x.com");
    if crate::text::chars_eq(&t, &x) || crate::text::chars_eq(&t, &home) || includes(&t, &xcom) {
        return ("Sans", "X");
    }
    let keys = title_keys();
    match lookup(&keys, &t) {
        Some(g) => g,
        None => (NERD, ""),
    }
}

/// Nerd-font fallback glyph `(font, glyph)` for a window class and title.
pub fn glyph_for_wmclass(class: &str, title: &str) -> (r: Option<(&'static str, &'static str)>)
    ensures
        glyph_view(r) == wm_glyph(class@, title@),
{
    if str_eq(class, "foot") {
        return Some((NERD, ""));
    }
    if str_eq(class, "org.omarchy.agent") {
        return Some(("Sans", "\u{25b2}"));
    }
    let low = to_lower(class);
    let pre = to_chars("chrome-");
    let ls = string_from(&low);
    if is_generic_browser(ls.as_str()) && !has_prefix(&low, &pre) {
        return Some(browser_title_glyph(title));
    }
    let keys = class_keys();
    if let Some(g) = lookup(&keys, &low) {
        return Some(g);
    }
    let zen = to_chars("zen");
    let zen_browser = to_chars("zen-browser");
    if crate::text::chars_eq(&low, &zen) || includes(&low, &zen_browser) {
        return Some((NERD, ""));
    }
    if has_prefix(&low, &pre) {
        let rest = slice_of(&low, pre.len(), low.len());
        let sep = to_chars("__");
        let host = piece_before(&rest, &sep);
        let host = replaced(&host, '_', '.');
        let hs = string_from(&host);
        if let Some(g) = host_glyph(hs.as_str()) {
            return Some(g);
        }
    }
    if is_generic_browser(ls.as_str()) {
        return Some(browser_title_glyph(title));
    }
    None
}

/// Label and icon of the builtin slider targets (when config omits them).
pub open spec fn slider_default(target: Seq<char>) -> (Seq<char>, Seq<char>) {
    if target == "display"@ {
        ("Display"@, "\u{F185}"@)
    } else if target == "volume"@ {
        ("Volume"@, ""@)
    } else if target == "kbd"@ {
        ("Keys"@, ""@)
    } else {
        ("Level"@, "?"@)
    }
}

pub fn slider_defaults(target: &str) -> (r: (&'static str, &'static str))
    ensures
        (r.0@, r.1@) == slider_default(target@),
{
    if str_eq(target, "display") {
        ("Display", "\u{F185}")
    } else if str_eq(target, "volume") {
        ("Volume", "")
    } else if str_eq(target, "kbd") {
        ("Keys", "")
    } else {
        ("Level", "?")
    }
}

/// What the slider overlay draws.
#[derive(Debug, Clone)]
pub struct SliderState {
    pub button_idx: usize,
    pub label: String,
    pub icon: String,
    pub value: i32,
}

/// Which theme color a control button's glyph takes.
#[derive(Debug, Clone, Copy, PartialEq, Eq, Structural)]
pub enum Tint {
    Accent,
    Red,
    Dim,
}

/// A control button's glyph and tint from its kind, its configured icon
/// and the live state: media shows what a tap does (pause while playing),
/// mic shows its mute state in red, night light is dim while off.
pub open spec fn ctl_face(kind: Seq<char>, icon: Option<Seq<char>>, playing: bool, muted: bool, night: bool) -> (
    Seq<char>,
    Tint,
) {
    let or_else = |d: Seq<char>|
        match icon {
            Some(i) => i,
            None => d,
        };
    if kind == "media"@ {
        (if playing {
            "\u{F04C}"@
        } else {
            "\u{F04B}"@
        }, Tint::Accent)
    } else if kind == "mic"@ {
        if muted {
            ("\u{F131}"@, Tint::Red)
        } else {
            ("\u{F130}"@, Tint::Accent)
        }
    } else if kind == "night"@ {
        (or_else("\u{F186}"@), if night {
            Tint::Accent
        } else {
            Tint::Dim
        })
    } else if kind == "lock"@ {
        (or_else("\u{F033E}"@), Tint::Accent)
    } else {
        (or_else("?"@), Tint::Accent)
    }
}

fn icon_or(icon: &Option<String>, d: &str) -> (r: String)
    ensures
        r@ == (match icon {
            Some(i) => i@,
            None => d@,
        }),
{
    match icon {
        Some(i) => i.clone(),
        None => crate::text::owned(d),
    }
}

pub fn ctl_glyph(kind: &str, icon: &Option<String>, playing: bool, muted: bool, night: bool) -> (r: (
    String,
    Tint,
))
    ensures
        (r.0@, r.1) == ctl_face(kind@, crate::text::opt_view(*icon), playing, muted, night),
{
    if str_eq(kind, "media") {
        (crate::text::owned(if playing {
            "\u{F04C}"
        } else {
            "\u{F04B}"
        }), Tint::Accent)
    } else if str_eq(kind, "mic") {
        if muted {
            (crate::text::owned("\u{F131}"), Tint::Red)
        } else {
            (crate::text::owned("\u{F130}"), Tint::Accent)
        }
    } else if str_eq(kind, "night") {
        (icon_or(icon, "\u{F186}"), if night {
            Tint::Accent
        } else {
            Tint::Dim
        })
    } else if str_eq(kind, "lock") {
        (icon_or(icon, "\u{F033E}"), Tint::Accent)
    } else {
        (icon_or(icon, "?"), Tint::Accent)
    }
}

/// The windows of workspace `ws` (1-based), by index into `ws_ids`, in
/// order; workspaces past `ws_n` show none.
pub open spec fn members(ws_ids: Seq<i32>, ws: int) -> Seq<usize>
    decreases ws_ids.len(),
{
    if ws_ids.len() == 0 {
        seq![]
    } else {
        let rest = members(ws_ids.drop_last(), ws);
        if ws_ids.last() == ws {
            rest.push((ws_ids.len() - 1) as usize)
        } else {
            rest
        }
    }
}

/// For each workspace button `1..=ws_n`, the windows it shows.
pub fn ws_members(ws_ids: &Vec<i32>, ws_n: usize) -> (r: Vec<Vec<usize>>)
    requires
        ws_n <= 9,
    ensures
        r.len() == ws_n,
        forall|k: int| 0 <= k < ws_n ==> (#[trigger] r@[k])@ == members(ws_ids@, k + 1),
{
    let mut r: Vec<Vec<usize>> = Vec::new();
    let mut k: usize = 0;
    while k < ws_n
        invariant
            k <= ws_n,
            ws_n <= 9,
            r.len() == k,
            forall|j: int| 0 <= j < k ==> (#[trigger] r@[j])@ == members(ws_ids@, j + 1),
        decreases ws_n - k,
    {
        let ws = (k + 1) as i32;
        let mut m: Vec<usize> = Vec::new();
        let mut i: usize = 0;
        assert(ws_ids@.subrange(0, 0) =~= Seq::<i32>::empty());
        while i < ws_ids.len()
            invariant
                i <= ws_ids.len(),
                ws == k + 1,
                m@ == members(ws_ids@.subrange(0, i as int), ws as int),
            decreases ws_ids.len() - i,
        {
            assert(ws_ids@.subrange(0, i + 1).drop_last() =~= ws_ids@.subrange(0, i as int));
            if ws_ids[i] == ws {
                m.push(i);
            }
            i += 1;
        }
        assert(ws_ids@.subrange(0, ws_ids.len() as int) =~= ws_ids@);
        r.push(m);
        k += 1;
    }
    r
}

/// The accent of the current theme's button: its favorite entry's accent
/// when listed, else the theme's own.
pub fn current_accent(favs: &Vec<(String, String)>, name: &str, own: &str) -> (r: String)
    ensures
        r@ == (if exists|i: int| 0 <= i < favs.len() && favs@[i].0@ == name@ {
            favs@[choose|i: int| 0 <= i < favs.len() && favs@[i].0@ == name@ && forall|j: int|
                0 <= j < i ==> favs@[j].0@ != name@].1@
        } else {
            own@
        }),
{
    let mut i: usize = 0;
    while i < favs.len()
        invariant
            i <= favs.len(),
            forall|j: int| 0 <= j < i ==> favs@[j].0@ != name@,
        decreases favs.len() - i,
    {
        if str_eq(favs[i].0.as_str(), name) {
            proof {
                let w = choose|k: int| 0 <= k < favs.len() && favs@[k].0@ == name@ && forall|j: int|
                    0 <= j < k ==> favs@[j].0@ != name@;
                assert(favs@[i as int].0@ == name@);
                if w < i {
                    assert(favs@[w].0@ != name@);
                } else if w > i {
                    assert(favs@[i as int].0@ != name@);
                }
            }
            return favs[i].1.clone();
        }
        i += 1;
    }
    crate::text::owned(own)
}

/// The first row whose keyword occurs decides the match.
proof fn lemma_first_match_at(t: Seq<(Seq<char>, Seq<char>, Seq<char>)>, s: Seq<char>, i: int)
    requires
        0 <= i < t.len(),
        contains(s, t[i].0),
        forall|j: int| 0 <= j < i ==> !contains(s, #[trigger] t[j].0),
    ensures
        first_match(t, s) == Some((t[i].1, t[i].2)),
    decreases i,
{
    if i > 0 {
        let u = t.drop_first();
        assert(!contains(s, t[0].0));
        assert forall|j: int| 0 <= j < i - 1 implies !contains(s, #[trigger] u[j].0) by {
            assert(u[j] == t[j + 1]);
        }
        assert(u[i - 1] == t[i]);
        lemma_first_match_at(u, s, i - 1);
    }
}

/// A window whose lowercased class holds exactly one of the class-table
/// keywords, `key`, at row `i`, gets that row's glyph (unless it is `foot`,
/// the agent, or a plain generic browser class).
proof fn lemma_class_row(c: Seq<char>, t: Seq<char>, i: int)
    requires
        0 <= i < class_table().len(),
        c != "foot"@,
        c != "org.omarchy.agent"@,
        !generic_browser(lowercase(c)) || starts_with(lowercase(c), "chrome-"@),
        contains(lowercase(c), class_table()[i].0),
        forall|j: int|
            0 <= j < class_table().len() && #[trigger] class_table()[j].0 != class_table()[i].0
                ==> !contains(lowercase(c), class_table()[j].0),
        forall|j: int| 0 <= j < i ==> #[trigger] class_table()[j].0 != class_table()[i].0,
    ensures
        wm_glyph(c, t) == Some((class_table()[i].1, class_table()[i].2)),
{
    lemma_first_match_at(class_table(), lowercase(c), i);
}

proof fn lemma_browser_keys_distinct()
    ensures
        forall|j: int| 0 <= j < 18 ==> #[trigger] class_table()[j].0 != "firefox"@,
        forall|j: int| 0 <= j < 19 ==> #[trigger] class_table()[j].0 != "brave"@,
        forall|j: int| 0 <= j < 20 ==> #[trigger] class_table()[j].0 != "chromium"@,
{
    reveal_strlit("nautilus");
    reveal_strlit("thunar");
    reveal_strlit("dolphin");
    reveal_strlit("nemo");
    reveal_strlit("alacritty");
    reveal_strlit("kitty");
    reveal_strlit("ghostty");
    reveal_strlit("wezterm");
    reveal_strlit("gnome-terminal");
    reveal_strlit("ptyxis");
    reveal_strlit("konsole");
    reveal_strlit("xterm");
    reveal_strlit("vscodium");
    reveal_strlit("code");
    reveal_strlit("neovim");
    reveal_strlit("nvim");
    reveal_strlit("vim");
    reveal_strlit("emacs");
    reveal_strlit("firefox");
    reveal_strlit("brave");
    reveal_strlit("chromium");
    assert forall|j: int| 0 <= j < 18 implies #[trigger] class_table()[j].0 != "firefox"@ by {
        assert(class_table()[j].0.len() != 7 || class_table()[j].0[0] != 'f' || class_table()[j].0
            != "firefox"@);
    }
    assert forall|j: int| 0 <= j < 19 implies #[trigger] class_table()[j].0 != "brave"@ by {
        assert(class_table()[j].0.len() != 5 || class_table()[j].0[0] != 'b' || class_table()[j].0
            != "brave"@);
    }
    assert forall|j: int| 0 <= j < 20 implies #[trigger] class_table()[j].0 != "chromium"@ by {
        assert(class_table()[j].0.len() != 8 || class_table()[j].0[0] != 'c' || class_table()[j].0
            != "chromium"@);
    }
}

/// Browser windows keep their own logos: a window whose class names
/// Firefox, Brave or Chromium (and no other app of the class table, and
/// is not a plain generic browser class, which goes by its title) shows
/// the Firefox logo U+F269, the Brave logo U+E639 or the Chrome logo
/// U+F268 respectively, whatever its title; the three differ.
pub proof fn law_browser_class_glyphs(c: Seq<char>, t: Seq<char>, key: Seq<char>)
    requires
        key == "firefox"@ || key == "brave"@ || key == "chromium"@,
        c != "foot"@,
        c != "org.omarchy.agent"@,
        !generic_browser(lowercase(c)) || starts_with(lowercase(c), "chrome-"@),
        contains(lowercase(c), key),
        forall|j: int|
            0 <= j < class_table().len() && #[trigger] class_table()[j].0 != key ==> !contains(
                lowercase(c),
                class_table()[j].0,
            ),
    ensures
        key == "firefox"@ ==> wm_glyph(c, t) == Some((NERD@, "\u{F269}"@)),
        key == "brave"@ ==> wm_glyph(c, t) == Some((NERD@, "\u{E639}"@)),
        key == "chromium"@ ==> wm_glyph(c, t) == Some((NERD@, "\u{F268}"@)),
        "\u{F269}"@ != "\u{E639}"@ && "\u{F269}"@ != "\u{F268}"@ && "\u{E639}"@ != "\u{F268}"@,
{
    reveal_strlit("\u{F269}");
    reveal_strlit("\u{E639}");
    reveal_strlit("\u{F268}");
    reveal_strlit("firefox");
    reveal_strlit("brave");
    reveal_strlit("chromium");
    assert("\u{F269}"@[0] != "\u{E639}"@[0]);
    assert("\u{F269}"@[0] != "\u{F268}"@[0]);
    assert("\u{E639}"@[0] != "\u{F268}"@[0]);
    lemma_browser_keys_distinct();
    if key == "firefox"@ {
        lemma_class_row(c, t, 18);
    } else if key == "brave"@ {
        lemma_class_row(c, t, 19);
    } else {
        lemma_class_row(c, t, 20);
    }
}

} // verus!
