//! Hardware and desktop actions: the commands the bar runs and how it
//! reads their answers.
//!
//! Running a command is the daemon's job; these functions build the argv
//! (or shell script) it runs and interpret the captured output (the
//! daemon hands over stdout trimmed, `""` when the command failed).
use vstd::prelude::*;
use crate::order::{sort_unique, sorted_unique, strings_view};
use crate::json::{as_bool, bool_of, get, json_of, member, parse_json, Json};
use crate::text::{
    contains, dec, digit_char, first_word, first_word_of, lines, lines_of, views, includes, int_chars, int_dec, lowercase, opt_view, owned, parse_i32,
    parse_i32_chars, path_join, push_all, push_dec, push_str, string_from, to_chars, to_lower,
    trim, trim_range, trimmed,
};

verus! {

pub open spec fn clamp(n: int, lo: int, hi: int) -> int {
    if n < lo {
        lo
    } else if n > hi {
        hi
    } else {
        n
    }
}

fn clamp_i32(n: i32, lo: i32, hi: i32) -> (r: i32)
    requires
        lo <= hi,
    ensures
        r == clamp(n as int, lo as int, hi as int),
{
    if n < lo {
        lo
    } else if n > hi {
        hi
    } else {
        n
    }
}

fn str_of(v: &Vec<char>) -> (r: String)
    ensures
        r@ == v@,
{
    string_from(v)
}

// --- sliders ---------------------------------------------------------------

/// Set the display brightness: `omarchy brightness display --no-osd N%`
/// with `N` clamped to 1..=100.
pub fn set_display(n: i32) -> (argv: Vec<String>)
    ensures
        strings_view(argv@) == seq![
            "omarchy"@,
            "brightness"@,
            "display"@,
            "--no-osd"@,
            int_dec(clamp(n as int, 1, 100)) + "%"@,
        ],
{
    let n = clamp_i32(n, 1, 100);
    let mut pct = int_chars(n as i64);
    push_str(&mut pct, "%");
    let mut argv: Vec<String> = Vec::new();
    argv.push(owned("omarchy"));
    argv.push(owned("brightness"));
    argv.push(owned("display"));
    argv.push(owned("--no-osd"));
    argv.push(str_of(&pct));
    assert(strings_view(argv@) =~= seq![
        "omarchy"@,
        "brightness"@,
        "display"@,
        "--no-osd"@,
        int_dec(clamp(n as int, 1, 100)) + "%"@,
    ]);
    argv
}

/// A volume percentage as the fraction wpctl takes, two decimals
/// (`45` is `0.45`, `100` is `1.00`).
pub open spec fn volume_text(k: nat) -> Seq<char> {
    dec(k / 100) + seq!['.', digit_char(((k % 100) / 10) as int), digit_char((k % 10) as int)]
}

/// Set the volume: `wpctl set-volume @DEFAULT_AUDIO_SINK@ 0.NN` with the
/// percentage clamped to 0..=100.
pub fn set_volume(n: i32) -> (argv: Vec<String>)
    ensures
        strings_view(argv@) == seq![
            "wpctl"@,
            "set-volume"@,
            "@DEFAULT_AUDIO_SINK@"@,
            volume_text(clamp(n as int, 0, 100) as nat),
        ],
{
    let k = clamp_i32(n, 0, 100) as u64;
    let mut frac: Vec<char> = Vec::new();
    push_dec(&mut frac, k / 100);
    frac.push('.');
    push_dec(&mut frac, (k % 100) / 10);
    push_dec(&mut frac, k % 10);
    assert(frac@ =~= volume_text(k as nat));
    let mut argv: Vec<String> = Vec::new();
    argv.push(owned("wpctl"));
    argv.push(owned("set-volume"));
    argv.push(owned("@DEFAULT_AUDIO_SINK@"));
    argv.push(str_of(&frac));
    assert(strings_view(argv@) =~= seq![
        "wpctl"@,
        "set-volume"@,
        "@DEFAULT_AUDIO_SINK@"@,
        volume_text(clamp(n as int, 0, 100) as nat),
    ]);
    argv
}

/// Rust's `/` on integers: rounds toward zero.
pub open spec fn div_trunc(a: int, b: int) -> int {
    if a >= 0 {
        a / b
    } else {
        -((-a) / b)
    }
}

/// Keyboard backlight percentage from `brightnessctl get` and `max`
/// outputs: unparsable readings count as 51 of 255; a non-positive
/// maximum gives 20.
pub open spec fn kbd_percent(get_out: Seq<char>, max_out: Seq<char>) -> int {
    let v = match parse_i32(get_out) {
        Some(x) => x as int,
        None => 51,
    };
    let m = match parse_i32(max_out) {
        Some(x) => x as int,
        None => 255,
    };
    if m <= 0 {
        20
    } else {
        clamp(div_trunc(v * 100, m), 0, 100)
    }
}

/// The reading times 100 fits in `i32` (else the percentage overflows).
pub open spec fn kbd_reading_ok(get_out: Seq<char>) -> bool {
    match parse_i32(get_out) {
        Some(x) => i32::MIN <= x * 100 <= i32::MAX,
        None => true,
    }
}

pub fn get_kbd(get_out: &str, max_out: &str) -> (r: i32)
    requires
        kbd_reading_ok(get_out@),
    ensures
        r == kbd_percent(get_out@, max_out@),
{
    let gv = to_chars(get_out);
    let mv = to_chars(max_out);
    let v: i32 = match parse_i32_chars(&gv) {
        Some(x) => x,
        None => 51,
    };
    let m: i32 = match parse_i32_chars(&mv) {
        Some(x) => x,
        None => 255,
    };
    if m <= 0 {
        return 20;
    }
    let p = v * 100;
    let q = p / m;
    assert(q == div_trunc(p as int, m as int)) by {
        if p >= 0 {
        } else {
        }
    }
    clamp_i32(q, 0, 100)
}

/// Set the keyboard backlight: `brightnessctl -d kbd_backlight set V` with
/// `V = N * 255 / 100` for `N` clamped to 0..=100.
pub fn set_kbd(n: i32) -> (argv: Vec<String>)
    ensures
        strings_view(argv@) == seq![
            "brightnessctl"@,
            "-d"@,
            "kbd_backlight"@,
            "set"@,
            dec((clamp(n as int, 0, 100) * 255 / 100) as nat),
        ],
{
    let k = clamp_i32(n, 0, 100) as u64;
    let mut val: Vec<char> = Vec::new();
    push_dec(&mut val, k * 255 / 100);
    let mut argv: Vec<String> = Vec::new();
    argv.push(owned("brightnessctl"));
    argv.push(owned("-d"));
    argv.push(owned("kbd_backlight"));
    argv.push(owned("set"));
    argv.push(str_of(&val));
    assert(strings_view(argv@) =~= seq![
        "brightnessctl"@,
        "-d"@,
        "kbd_backlight"@,
        "set"@,
        dec((clamp(n as int, 0, 100) * 255 / 100) as nat),
    ]);
    argv
}

// --- mic and night light ---------------------------------------------------

/// `pactl get-source-mute` says "yes" (in any case).
pub fn get_mic_muted(out: &str) -> (r: bool)
    ensures
        r == contains(lowercase(out@), "yes"@),
{
    let l = to_lower(out);
    let y = to_chars("yes");
    includes(&l, &y)
}

/// Toggle the microphone mute: `omarchy audio input mute`.
pub fn toggle_mic() -> (argv: Vec<String>)
    ensures
        strings_view(argv@) == seq!["omarchy"@, "audio"@, "input"@, "mute"@],
{
    let mut argv: Vec<String> = Vec::new();
    argv.push(owned("omarchy"));
    argv.push(owned("audio"));
    argv.push(owned("input"));
    argv.push(owned("mute"));
    assert(strings_view(argv@) =~= seq!["omarchy"@, "audio"@, "input"@, "mute"@]);
    argv
}

/// The night light is on: the parsed status has `"enabled": true`.
pub open spec fn night_on_in(parsed: Option<Json>) -> bool {
    match parsed {
        Some(v) => as_bool(member(v, "enabled"@)) == Some(true),
        None => false,
    }
}

/// The night light is on: the status JSON has `"enabled": true`.
pub open spec fn night_on(out: Seq<char>) -> bool {
    night_on_in(json_of(out))
}

/// Read the parsed status of `omarchy toggle nightlight --status`.
pub fn night_from(parsed: &Option<Json>) -> (r: bool)
    ensures
        r == night_on_in(*parsed),
{
    match parsed {
        Some(v) => match bool_of(get(v, "enabled")) {
            Some(b) => b,
            None => false,
        },
        None => false,
    }
}

/// Read `omarchy toggle nightlight --status`.
pub fn get_night(out: &str) -> (r: bool)
    ensures
        r == night_on(out@),
{
    night_from(&parse_json(out))
}

/// Toggle the night light: `omarchy toggle nightlight`.
pub fn toggle_night() -> (argv: Vec<String>)
    ensures
        strings_view(argv@) == seq!["omarchy"@, "toggle"@, "nightlight"@],
{
    let mut argv: Vec<String> = Vec::new();
    argv.push(owned("omarchy"));
    argv.push(owned("toggle"));
    argv.push(owned("nightlight"));
    assert(strings_view(argv@) =~= seq!["omarchy"@, "toggle"@, "nightlight"@]);
    argv
}

// --- media (MPRIS) ---------------------------------------------------------

/// The MPRIS bus name prefix.
pub open spec fn mpris_prefix() -> Seq<char> {
    "org.mpris.MediaPlayer2."@
}

/// The first word of each line that names an MPRIS bus, in line order.
pub open spec fn player_words(ls: Seq<Seq<char>>) -> Seq<Seq<char>>
    decreases ls.len(),
{
    if ls.len() == 0 {
        seq![]
    } else {
        let rest = player_words(ls.drop_last());
        match first_word(ls.last()) {
            Some(w) => if contains(w, mpris_prefix()) {
                rest.push(w)
            } else {
                rest
            },
            None => rest,
        }
    }
}

/// MPRIS players from `busctl --user list`: the first word of each line
/// that contains `org.mpris.MediaPlayer2.`, sorted, without repeats.
pub fn mpris_players(out: &str) -> (r: Vec<String>)
    ensures
        sorted_unique(strings_view(r@)),
        strings_view(r@).to_set() == player_words(lines(out@)).to_set(),
{
    let ls = lines_of(out);
    let prefix = to_chars("org.mpris.MediaPlayer2.");
    let mut words: Vec<String> = Vec::new();
    let mut i: usize = 0;
    while i < ls.len()
        invariant
            i <= ls.len(),
            views(ls@) == lines(out@),
            prefix@ == mpris_prefix(),
            strings_view(words@) == player_words(views(ls@).subrange(0, i as int)),
        decreases ls.len() - i,
    {
        let ghost pre = views(ls@).subrange(0, i as int);
        assert(views(ls@).subrange(0, i + 1).drop_last() =~= pre);
        assert(views(ls@).subrange(0, i + 1).last() == ls@[i as int]@);
        match first_word_of(&ls[i]) {
            Some(w) => {
                if includes(&w, &prefix) {
                    words.push(str_of(&w));
                    assert(strings_view(words@) =~= player_words(pre).push(w@));
                }
            },
            None => {},
        }
        i += 1;
    }
    assert(views(ls@).subrange(0, ls.len() as int) =~= views(ls@));
    sort_unique(words)
}

/// A `PlaybackStatus` reply reports playing.
pub open spec fn reply_playing(reply: Seq<char>) -> bool {
    contains(reply, "\"Playing\""@)
}

/// "Playing" when some player's status reply says so, "Paused" when there
/// are players but none plays, `None` without players.
pub open spec fn status_of(replies: Seq<Seq<char>>) -> Option<Seq<char>> {
    if exists|i: int| 0 <= i < replies.len() && reply_playing(#[trigger] replies[i]) {
        Some("Playing"@)
    } else if replies.len() > 0 {
        Some("Paused"@)
    } else {
        None
    }
}

/// Player state from the `PlaybackStatus` reply of each player, in order.
pub fn mpris_status(replies: &Vec<String>) -> (r: Option<String>)
    ensures
        opt_view(r) == status_of(strings_view(replies@)),
{
    let ghost rs = strings_view(replies@);
    let needle = to_chars("\"Playing\"");
    let mut i: usize = 0;
    while i < replies.len()
        invariant
            i <= replies.len(),
            rs == strings_view(replies@),
            needle@ == "\"Playing\""@,
            forall|j: int| 0 <= j < i ==> !reply_playing(#[trigger] rs[j]),
        decreases replies.len() - i,
    {
        let v = to_chars(replies[i].as_str());
        if includes(&v, &needle) {
            assert(reply_playing(rs[i as int]));
            return Some(owned("Playing"));
        }
        i += 1;
    }
    if replies.len() > 0 {
        Some(owned("Paused"))
    } else {
        None
    }
}

/// The `PlayPause` call for one player bus.
pub open spec fn play_pause_argv(bus: Seq<char>) -> Seq<Seq<char>> {
    seq![
        "busctl"@,
        "--user"@,
        "call"@,
        bus,
        "/org/mpris/MediaPlayer2"@,
        "org.mpris.MediaPlayer2.Player"@,
        "PlayPause"@,
    ]
}

/// Play/pause every player: one `busctl --user call` per bus, in order.
pub fn mpris_toggle(players: &Vec<String>) -> (cmds: Vec<Vec<String>>)
    ensures
        cmds.len() == players.len(),
        forall|i: int|
            0 <= i < players.len() ==> strings_view(#[trigger] cmds@[i]@) == play_pause_argv(
                players@[i]@,
            ),
{
    let mut cmds: Vec<Vec<String>> = Vec::new();
    let mut i: usize = 0;
    while i < players.len()
        invariant
            i <= players.len(),
            cmds.len() == i,
            forall|j: int|
                0 <= j < i ==> strings_view(#[trigger] cmds@[j]@) == play_pause_argv(
                    players@[j]@,
                ),
        decreases players.len() - i,
    {
        let mut argv: Vec<String> = Vec::new();
        argv.push(owned("busctl"));
        argv.push(owned("--user"));
        argv.push(owned("call"));
        argv.push(players[i].clone());
        argv.push(owned("/org/mpris/MediaPlayer2"));
        argv.push(owned("org.mpris.MediaPlayer2.Player"));
        argv.push(owned("PlayPause"));
        assert(strings_view(argv@) =~= play_pause_argv(players@[i as int]@));
        cmds.push(argv);
        i += 1;
    }
    cmds
}

// --- weather ---------------------------------------------------------------

/// Characters a temperature reading keeps.
pub open spec fn weather_char(c: char) -> bool {
    ('0' <= c <= '9') || c == '-' || c == '\u{b0}' || c == 'C' || c == 'F'
}

/// The kept characters of `s`, in order.
pub open spec fn weather_chars(s: Seq<char>) -> Seq<char>
    decreases s.len(),
{
    if s.len() == 0 {
        seq![]
    } else if weather_char(s.last()) {
        weather_chars(s.drop_last()).push(s.last())
    } else {
        weather_chars(s.drop_last())
    }
}

/// Cached temperature like "21°C": the reading's digits, `-`, `°`, `C`
/// and `F`, at most 5 of them; "" when never fetched.
pub fn weather_read(raw: &str) -> (r: String)
    ensures
        r@ == (if weather_chars(raw@).len() <= 5 {
            weather_chars(raw@)
        } else {
            weather_chars(raw@).subrange(0, 5)
        }),
{
    let v = to_chars(raw);
    let mut out: Vec<char> = Vec::new();
    let mut i: usize = 0;
    while i < v.len() && out.len() < 5
        invariant
            i <= v.len(),
            out@ == weather_chars(v@.subrange(0, i as int)),
            out.len() <= 5,
        decreases v.len() - i,
    {
        let c = v[i];
        assert(v@.subrange(0, i + 1).drop_last() =~= v@.subrange(0, i as int));
        if ('0' <= c && c <= '9') || c == '-' || c == '\u{b0}' || c == 'C' || c == 'F' {
            out.push(c);
        }
        i += 1;
    }
    proof {
        lemma_weather_prefix(v@, i as int);
        if i < v.len() {
            assert(out.len() == 5);
        } else {
            assert(v@.subrange(0, i as int) =~= v@);
        }
    }
    str_of(&out)
}

/// Keeping characters of a prefix gives a prefix of the kept characters.
proof fn lemma_weather_prefix(s: Seq<char>, k: int)
    requires
        0 <= k <= s.len(),
    ensures
        weather_chars(s.subrange(0, k)).len() <= weather_chars(s).len(),
        weather_chars(s).subrange(0, weather_chars(s.subrange(0, k)).len() as int)
            == weather_chars(s.subrange(0, k)),
    decreases s.len() - k,
{
    if k == s.len() {
        assert(s.subrange(0, k) =~= s);
    } else {
        let t = s.drop_last();
        lemma_weather_prefix(t, k);
        assert(t.subrange(0, k) =~= s.subrange(0, k));
        let a = weather_chars(t);
        let b = weather_chars(s.subrange(0, k));
        if weather_char(s.last()) {
            assert(weather_chars(s) =~= a.push(s.last()));
            assert(a.push(s.last()).subrange(0, b.len() as int) =~= a.subrange(0, b.len() as int));
        }
    }
}

/// `<home>/.cache/omarchy-touchbar/weather`.
pub fn weather_cache_path(home: &str) -> (r: String)
    ensures
        r@ == path_join(home@, ".cache/omarchy-touchbar/weather"@),
{
    crate::text::join_path(home, ".cache/omarchy-touchbar/weather")
}

/// The shell script of a background wttr.in refresh: query the stored
/// location (else let wttr.in locate by IP) and atomically write a
/// `°C`/`°F` reading to `file` in `dir`.
pub open spec fn weather_script(dir: Seq<char>, file: Seq<char>) -> Seq<char> {
    "loc=$(omarchy-weather-location 2>/dev/null); if [ -n \"$loc\" ]; then q=$(jq -rn --arg p \"$loc\" '$p|@uri'); else q=\"\"; fi; t=$(curl -fsS --max-time 4 \"https://wttr.in/${q}?format=%t\" 2>/dev/null | tr -d '+ \\n'); case \"$t\" in *\u{b0}C|*\u{b0}F) mkdir -p \""@
        + dir + "\" && printf '%s' \"$t\" > \""@ + file + ".tmp\" && mv \""@ + file + ".tmp\" \""@
        + file + "\" && echo \"weather: $t\" >&2;; *) echo \"weather: fetch failed\" >&2;; esac"@
}

/// Fire-and-forget refresh of the weather cache under `home`.
pub fn refresh_weather(home: &str) -> (script: String)
    ensures
        script@ == weather_script(
            path_join(home@, ".cache/omarchy-touchbar"@),
            path_join(home@, ".cache/omarchy-touchbar/weather"@),
        ),
{
    let dir = crate::text::join_path(home, ".cache/omarchy-touchbar");
    let file = crate::text::join_path(home, ".cache/omarchy-touchbar/weather");
    let mut s: Vec<char> = Vec::new();
    push_str(
        &mut s,
        "loc=$(omarchy-weather-location 2>/dev/null); if [ -n \"$loc\" ]; then q=$(jq -rn --arg p \"$loc\" '$p|@uri'); else q=\"\"; fi; t=$(curl -fsS --max-time 4 \"https://wttr.in/${q}?format=%t\" 2>/dev/null | tr -d '+ \\n'); case \"$t\" in *\u{b0}C|*\u{b0}F) mkdir -p \"",
    );
    push_str(&mut s, dir.as_str());
    push_str(&mut s, "\" && printf '%s' \"$t\" > \"");
    push_str(&mut s, file.as_str());
    push_str(&mut s, ".tmp\" && mv \"");
    push_str(&mut s, file.as_str());
    push_str(&mut s, ".tmp\" \"");
    push_str(&mut s, file.as_str());
    push_str(&mut s, "\" && echo \"weather: $t\" >&2;; *) echo \"weather: fetch failed\" >&2;; esac");
    str_of(&s)
}

// --- app launcher ----------------------------------------------------------

/// What tapping a launcher entry does.
#[derive(Debug, Clone, PartialEq, Eq)]
pub enum Launch {
    /// open the (trimmed) url with omarchy-launch-webapp
    Web(String),
    /// run the (trimmed) shell command detached
    Shell(String),
    /// neither command nor url: report it
    Nothing,
}

/// A configured app: a non-blank url opens as a webapp, else a non-blank
/// command runs, else nothing.
pub fn launch_app(command: Option<&str>, url: Option<&str>) -> (r: Launch)
    ensures
        match r {
            Launch::Web(u) => url is Some && u@ == trim(url->0@) && u@.len() > 0,
            Launch::Shell(c) => !(url is Some && trim(url->0@).len() > 0) && command is Some
                && c@ == trim(command->0@) && c@.len() > 0,
            Launch::Nothing => !(url is Some && trim(url->0@).len() > 0) && !(command is Some
                && trim(command->0@).len() > 0),
        },
{
    if let Some(u) = url {
        let t = trimmed(u);
        if t.len() > 0 {
            return Launch::Web(str_of(&t));
        }
    }
    if let Some(c) = command {
        let t = trimmed(c);
        if t.len() > 0 {
            return Launch::Shell(str_of(&t));
        }
    }
    Launch::Nothing
}

/// A lock override from config counts when it is not blank.
pub fn lock_override(override_cmd: Option<&str>) -> (r: Option<String>)
    ensures
        match r {
            Some(c) => override_cmd is Some && c@ == override_cmd->0@ && trim(c@).len() > 0,
            None => !(override_cmd is Some && trim(override_cmd->0@).len() > 0),
        },
{
    match override_cmd {
        Some(c) => {
            let t = trimmed(c);
            if t.len() > 0 {
                Some(owned(c))
            } else {
                None
            }
        },
        None => None,
    }
}

} // verus!
