//! User config (`~/.config/omarchy-touchbar/config.toml`): the types the
//! bar reads, their defaults, and the repairs applied after parsing.
//!
//! Reading, writing and TOML (de)serialisation happen in the daemon, which
//! keeps serde copies of these types.
use vstd::prelude::*;
use crate::text::{
    contains, includes, lines, lines_of, opt_view, owned, push_all, push_str, starts_with, has_prefix,
    string_from, to_chars, views,
};

verus! {

/// `[bar]` options. Timeouts are in milliseconds.
#[derive(Debug, Clone, Copy, PartialEq, Eq, Structural)]
pub struct Bar {
    pub workspaces: usize,
    pub show_clock: bool,
    /// pixel-style temperature next to the clock (tap = refresh now)
    pub show_weather: bool,
    pub show_theme: bool,
    /// Theme-picker and app-launcher buttons stretch to fill the bar (true)
    /// or keep the strip-button width, centered (false).
    pub menu_expand: bool,
    pub menu_timeout_ms: u64,
    pub slider_timeout_ms: u64,
}

/// The defaults of `[bar]`.
pub open spec fn bar_default() -> Bar {
    Bar {
        workspaces: 5,
        show_clock: true,
        show_weather: true,
        show_theme: true,
        menu_expand: true,
        menu_timeout_ms: 5000,
        slider_timeout_ms: 3000,
    }
}

impl Bar {
    pub fn new() -> (r: Bar)
        ensures
            r == bar_default(),
    {
        Bar {
            workspaces: 5,
            show_clock: true,
            show_weather: true,
            show_theme: true,
            menu_expand: true,
            menu_timeout_ms: 5000,
            slider_timeout_ms: 3000,
        }
    }
}

/// A single control button in the middle of the strip.
#[derive(Debug, Clone)]
pub struct Button {
    /// unique id, e.g. "display", "lock", "vpn"
    pub id: String,
    /// slider | media | mic | night | lock | command
    pub kind: String,
    /// for slider: display | volume | kbd
    pub target: Option<String>,
    /// nerd-font glyph rendered on the button
    pub icon: Option<String>,
    /// for command: shell command to run; for lock: override lock command
    pub command: Option<String>,
    /// human label (used in slider view / logs)
    pub label: Option<String>,
}

pub struct ButtonView {
    pub id: Seq<char>,
    pub kind: Seq<char>,
    pub target: Option<Seq<char>>,
    pub icon: Option<Seq<char>>,
    pub command: Option<Seq<char>>,
    pub label: Option<Seq<char>>,
}

impl View for Button {
    type V = ButtonView;

    open spec fn view(&self) -> ButtonView {
        ButtonView {
            id: self.id@,
            kind: self.kind@,
            target: opt_view(self.target),
            icon: opt_view(self.icon),
            command: opt_view(self.command),
            label: opt_view(self.label),
        }
    }
}

/// One entry in the app launcher menu (Super+Shift overlay).
#[derive(Debug, Clone)]
pub struct AppEntry {
    pub id: String,
    pub name: String,
    pub command: Option<String>,
    pub url: Option<String>,
    /// nerd-font glyph shown on the button (default per known id, else
    /// the first letter of the name).
    pub icon: Option<String>,
    /// font for the icon: "nerd" (default) or "sans".
    pub icon_font: Option<String>,
}

pub struct AppView {
    pub id: Seq<char>,
    pub name: Seq<char>,
    pub command: Option<Seq<char>>,
    pub url: Option<Seq<char>>,
    pub icon: Option<Seq<char>>,
    pub icon_font: Option<Seq<char>>,
}

impl View for AppEntry {
    type V = AppView;

    open spec fn view(&self) -> AppView {
        AppView {
            id: self.id@,
            name: self.name@,
            command: opt_view(self.command),
            url: opt_view(self.url),
            icon: opt_view(self.icon),
            icon_font: opt_view(self.icon_font),
        }
    }
}

pub struct Config {
    pub bar: Bar,
    pub button: Vec<Button>,
    /// App launcher menu (Super+Shift overlay).
    pub app: Vec<AppEntry>,
}

pub open spec fn buttons_view(b: Seq<Button>) -> Seq<ButtonView> {
    b.map_values(|x: Button| x@)
}

pub open spec fn apps_view(a: Seq<AppEntry>) -> Seq<AppView> {
    a.map_values(|x: AppEntry| x@)
}

fn opt_owned(s: Option<&str>) -> (r: Option<String>)
    ensures
        opt_view(r) == (match s {
            Some(v) => Some(v@),
            None => None,
        }),
{
    match s {
        Some(v) => Some(owned(v)),
        None => None,
    }
}

pub open spec fn opt_lit(s: Option<&str>) -> Option<Seq<char>> {
    match s {
        Some(v) => Some(v@),
        None => None,
    }
}

pub open spec fn button_spec(
    id: &str,
    kind: &str,
    target: Option<&str>,
    icon: Option<&str>,
    label: &str,
) -> ButtonView {
    ButtonView {
        id: id@,
        kind: kind@,
        target: opt_lit(target),
        icon: opt_lit(icon),
        command: None,
        label: Some(label@),
    }
}

fn button(id: &str, kind: &str, target: Option<&str>, icon: Option<&str>, label: &str) -> (r: Button)
    ensures
        r@ == button_spec(id, kind, target, icon, label),
{
    Button {
        id: owned(id),
        kind: owned(kind),
        target: opt_owned(target),
        icon: opt_owned(icon),
        command: None,
        label: Some(owned(label)),
    }
}

/// The strip buttons of a fresh config: three sliders, media and mic.
pub open spec fn default_buttons_spec() -> Seq<ButtonView> {
    seq![
        button_spec("display", "slider", Some("display"), Some("\u{F185}"), "Display"),
        button_spec("volume", "slider", Some("volume"), Some("\u{F028}"), "Volume"),
        button_spec("kbd", "slider", Some("kbd"), Some("\u{F11C}"), "Keys"),
        button_spec("media", "media", None, None, "Media"),
        button_spec("mic", "mic", None, None, "Mic"),
    ]
}

pub fn default_buttons() -> (r: Vec<Button>)
    ensures
        buttons_view(r@) == default_buttons_spec(),
{
    let mut r: Vec<Button> = Vec::new();
    r.push(button("display", "slider", Some("display"), Some("\u{F185}"), "Display"));
    r.push(button("volume", "slider", Some("volume"), Some("\u{F028}"), "Volume"));
    r.push(button("kbd", "slider", Some("kbd"), Some("\u{F11C}"), "Keys"));
    r.push(button("media", "media", None, None, "Media"));
    r.push(button("mic", "mic", None, None, "Mic"));
    assert(buttons_view(r@) =~= default_buttons_spec());
    r
}

pub open spec fn app_spec(
    id: &str,
    name: &str,
    command: Option<&str>,
    url: Option<&str>,
    icon: &str,
    icon_font: Option<&str>,
) -> AppView {
    AppView {
        id: id@,
        name: name@,
        command: opt_lit(command),
        url: opt_lit(url),
        icon: Some(icon@),
        icon_font: opt_lit(icon_font),
    }
}

fn app(
    id: &str,
    name: &str,
    command: Option<&str>,
    url: Option<&str>,
    icon: &str,
    icon_font: Option<&str>,
) -> (r: AppEntry)
    ensures
        r@ == app_spec(id, name, command, url, icon, icon_font),
{
    AppEntry {
        id: owned(id),
        name: owned(name),
        command: opt_owned(command),
        url: opt_owned(url),
        icon: Some(owned(icon)),
        icon_font: opt_owned(icon_font),
    }
}

/// The launcher entries of a fresh config.
pub open spec fn default_apps_spec() -> Seq<AppView> {
    seq![
        app_spec("brave", "Brave", Some("brave"), None, "\u{E639}", None),
        app_spec("chrome", "Chrome", Some("chromium"), None, "\u{F268}", None),
        app_spec("terminal", "Terminal", Some("xdg-terminal-exec"), None, "\u{F489}", None),
        app_spec("files", "Files", Some("nautilus"), None, "\u{F07B}", None),
        app_spec("localsend", "LocalSend", Some("localsend"), None, "\u{F1D8}", None),
        app_spec("youtube", "YouTube", None, Some("https://youtube.com/"), "\u{F16A}", None),
        app_spec("whatsapp", "WhatsApp", None, Some("https://web.whatsapp.com/"), "\u{F232}", None),
        app_spec("obsidian", "Obsidian", Some("obsidian"), None, "\u{E63A}", None),
        app_spec("x", "X", None, Some("https://x.com/"), "X", Some("sans")),
    ]
}

pub fn default_apps() -> (r: Vec<AppEntry>)
    ensures
        apps_view(r@) == default_apps_spec(),
{
    let mut r: Vec<AppEntry> = Vec::new();
    r.push(app("brave", "Brave", Some("brave"), None, "\u{E639}", None));
    r.push(app("chrome", "Chrome", Some("chromium"), None, "\u{F268}", None));
    r.push(app("terminal", "Terminal", Some("xdg-terminal-exec"), None, "\u{F489}", None));
    r.push(app("files", "Files", Some("nautilus"), None, "\u{F07B}", None));
    r.push(app("localsend", "LocalSend", Some("localsend"), None, "\u{F1D8}", None));
    r.push(app("youtube", "YouTube", None, Some("https://youtube.com/"), "\u{F16A}", None));
    r.push(app("whatsapp", "WhatsApp", None, Some("https://web.whatsapp.com/"), "\u{F232}", None));
    r.push(app("obsidian", "Obsidian", Some("obsidian"), None, "\u{E63A}", None));
    r.push(app("x", "X", None, Some("https://x.com/"), "X", Some("sans")));
    assert(apps_view(r@) =~= default_apps_spec());
    r
}

/// A fresh config: default bar, buttons and apps.
pub fn default_config() -> (r: Config)
    ensures
        r.bar == bar_default(),
        buttons_view(r.button@) == default_buttons_spec(),
        apps_view(r.app@) == default_apps_spec(),
{
    Config { bar: Bar::new(), button: default_buttons(), app: default_apps() }
}

/// A parsed config, repaired: workspaces outside 1..=9 become 5, and an
/// empty button list gets the default buttons back.
pub fn normalize(cfg: Config) -> (r: Config)
    ensures
        r.bar == (if cfg.bar.workspaces == 0 || cfg.bar.workspaces > 9 {
            Bar { workspaces: 5, ..cfg.bar }
        } else {
            cfg.bar
        }),
        buttons_view(r.button@) == (if cfg.button@.len() == 0 {
            default_buttons_spec()
        } else {
            buttons_view(cfg.button@)
        }),
        r.app@ == cfg.app@,
{
    let mut bar = cfg.bar;
    if bar.workspaces == 0 || bar.workspaces > 9 {
        bar.workspaces = 5;
    }
    let button = if cfg.button.len() == 0 {
        default_buttons()
    } else {
        cfg.button
    };
    Config { bar, button, app: cfg.app }
}

/// Configs written before the launcher existed have no `[[app]]` table.
pub open spec fn lacks_apps(text: Seq<char>) -> bool {
    !contains(text, "[[app]]"@)
}

pub fn needs_app_migration(text: &str) -> (r: bool)
    ensures
        r == lacks_apps(text@),
{
    let t = to_chars(text);
    let k = to_chars("[[app]]");
    !includes(&t, &k)
}

/// The lines from the first one that starts with `[[app]]` on.
pub open spec fn from_app_table(ls: Seq<Seq<char>>) -> Seq<Seq<char>>
    decreases ls.len(),
{
    if ls.len() == 0 || starts_with(ls[0], "[[app]]"@) {
        ls
    } else {
        from_app_table(ls.drop_first())
    }
}

/// Lines joined with `'\n'` (no trailing one).
pub open spec fn join_lines(ls: Seq<Seq<char>>) -> Seq<char>
    decreases ls.len(),
{
    if ls.len() == 0 {
        seq![]
    } else if ls.len() == 1 {
        ls[0]
    } else {
        join_lines(ls.drop_last()) + seq!['\n'] + ls.last()
    }
}

/// The `[[app]]` part of a serialised config, appended once to configs
/// that lack it (`lines().skip_while(..).join("\n")`).
pub fn app_section(serialized: &str) -> (r: String)
    ensures
        r@ == join_lines(from_app_table(lines(serialized@))),
{
    let ls = lines_of(serialized);
    let key = to_chars("[[app]]");
    let ghost all = views(ls@);
    let mut i: usize = 0;
    assert(all.subrange(0, all.len() as int) =~= all);
    while i < ls.len() && !has_prefix(&ls[i], &key)
        invariant
            i <= ls.len(),
            all == views(ls@),
            key@ == "[[app]]"@,
            from_app_table(all) == from_app_table(all.subrange(i as int, all.len() as int)),
        decreases ls.len() - i,
    {
        assert(all.subrange(i as int, all.len() as int).drop_first() =~= all.subrange(
            i + 1,
            all.len() as int,
        ));
        i += 1;
    }
    let ghost tail = all.subrange(i as int, all.len() as int);
    assert(from_app_table(all) == tail);
    let mut out: Vec<char> = Vec::new();
    let mut j = i;
    while j < ls.len()
        invariant
            i <= j <= ls.len(),
            all == views(ls@),
            tail == all.subrange(i as int, all.len() as int),
            out@ == join_lines(tail.subrange(0, j - i)),
        decreases ls.len() - j,
    {
        if j > i {
            out.push('\n');
        }
        push_all(&mut out, &ls[j]);
        proof {
            let pre = tail.subrange(0, j - i);
            let nxt = tail.subrange(0, j - i + 1);
            assert(nxt.drop_last() =~= pre);
            assert(nxt.last() == ls@[j as int]@);
            if j == i {
                assert(out@ =~= join_lines(nxt));
            } else {
                assert(out@ =~= join_lines(nxt));
            }
        }
        j += 1;
    }
    assert(tail.subrange(0, tail.len() as int) =~= tail);
    string_from(&out)
}

/// `<home>/.config/omarchy-touchbar/config.toml`.
pub fn config_path(home: &str) -> (r: String)
    ensures
        r@ == crate::text::path_join(home@, ".config/omarchy-touchbar/config.toml"@),
{
    crate::text::join_path(home, ".config/omarchy-touchbar/config.toml")
}

/// The config text after the launcher migration: the old text, a line
/// break, the `[[app]]` section and a final line break; `None` (no
/// rewrite) when the section is empty.
pub fn migrated(text: &str, section: &str) -> (r: Option<String>)
    ensures
        match r {
            Some(t) => section@.len() > 0 && t@ == text@ + seq!['\n'] + section@ + seq!['\n'],
            None => section@.len() == 0,
        },
{
    let s = to_chars(section);
    if s.len() == 0 {
        return None;
    }
    let mut out = to_chars(text);
    out.push('\n');
    push_all(&mut out, &s);
    out.push('\n');
    Some(string_from(&out))
}

} // verus!
