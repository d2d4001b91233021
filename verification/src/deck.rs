//! Center deck: clock + center slot + weather.
//!
//! The bar only grants bounds to the middle zone; which center plugin is
//! available, which one wins the slot and what a tap means live here.
//!
//! ```text
//! [clock] [center: pet | levels | pomodoro] [weather]
//! ```
//!
//! Tap = the visible plugin's action (pet the cat, cycle the visualizer
//! style, start/pause the timer); a double tap pins the next available
//! plugin.
use vstd::prelude::*;
use crate::clock::{elapsed, elapsed_ns, instant_now, nanos_since};
use crate::json::{as_bool, as_str, bool_of, get, json_of, member, parse_json, str_of, Json};
use crate::text::{opt_view, owned, push_all, push_str, string_from, str_eq, to_chars, trim, trimmed};

verus! {

/// Center-slot plugin ids in priority order (highest first).
#[derive(Debug, Clone, Copy, PartialEq, Eq, Structural)]
pub enum Center {
    Levels,
    Pomodoro,
    Pet,
}

pub open spec fn center_id(c: Center) -> Seq<char> {
    match c {
        Center::Levels => "levels"@,
        Center::Pomodoro => "pomodoro"@,
        Center::Pet => "pet"@,
    }
}

impl Center {
    pub fn id(self) -> (r: &'static str)
        ensures
            r@ == center_id(self),
    {
        match self {
            Center::Levels => "levels",
            Center::Pomodoro => "pomodoro",
            Center::Pet => "pet",
        }
    }
}

pub open spec fn center_named(id: Seq<char>) -> Option<Center> {
    if id == "levels"@ {
        Some(Center::Levels)
    } else if id == "pomodoro"@ {
        Some(Center::Pomodoro)
    } else if id == "pet"@ {
        Some(Center::Pet)
    } else {
        None
    }
}

/// Preview lookup: `--view <id>` resolves without the bar naming a plugin.
pub fn center_by_id(id: &str) -> (r: Option<Center>)
    ensures
        r == center_named(id@),
{
    if str_eq(id, "levels") {
        Some(Center::Levels)
    } else if str_eq(id, "pomodoro") {
        Some(Center::Pomodoro)
    } else if str_eq(id, "pet") {
        Some(Center::Pet)
    } else {
        None
    }
}

/// Every plugin id names its plugin.
pub proof fn law_center_id_roundtrip(c: Center)
    ensures
        center_named(center_id(c)) == Some(c),
{
    reveal_strlit("levels");
    reveal_strlit("pomodoro");
    reveal_strlit("pet");
    assert("levels"@[0] != "pomodoro"@[0]);
    assert("levels"@[0] != "pet"@[0]);
    assert("pomodoro"@[1] != "pet"@[1]);
}

/// Generic tap outcomes. The bar executes these; it never learns which
/// plugin produced them.
#[derive(Debug, Clone, Copy, PartialEq, Eq, Structural)]
pub enum TapEffect {
    TogglePlayback,
    PomodoroTap,
    RefreshWeather,
}

/// Visualizer look; a single tap on the visualizer cycles it.
#[derive(Debug, Clone, Copy, PartialEq, Eq, Structural)]
pub enum VizStyle {
    Bars,
    Segments,
    Wave,
}

pub open spec fn viz_next(v: VizStyle) -> VizStyle {
    match v {
        VizStyle::Bars => VizStyle::Segments,
        VizStyle::Segments => VizStyle::Wave,
        VizStyle::Wave => VizStyle::Bars,
    }
}

pub open spec fn viz_name(v: VizStyle) -> Seq<char> {
    match v {
        VizStyle::Bars => "bars"@,
        VizStyle::Segments => "segments"@,
        VizStyle::Wave => "wave"@,
    }
}

pub open spec fn viz_named(s: Seq<char>) -> Option<VizStyle> {
    if s == "bars"@ {
        Some(VizStyle::Bars)
    } else if s == "segments"@ || s == "seg"@ {
        Some(VizStyle::Segments)
    } else if s == "wave"@ {
        Some(VizStyle::Wave)
    } else {
        None
    }
}

impl VizStyle {
    pub fn next(self) -> (r: VizStyle)
        ensures
            r == viz_next(self),
    {
        match self {
            VizStyle::Bars => VizStyle::Segments,
            VizStyle::Segments => VizStyle::Wave,
            VizStyle::Wave => VizStyle::Bars,
        }
    }

    pub fn name(self) -> (r: &'static str)
        ensures
            r@ == viz_name(self),
    {
        match self {
            VizStyle::Bars => "bars",
            VizStyle::Segments => "segments",
            VizStyle::Wave => "wave",
        }
    }

    pub fn from_name(s: &str) -> (r: Option<VizStyle>)
        ensures
            r == viz_named(s@),
    {
        if str_eq(s, "bars") {
            Some(VizStyle::Bars)
        } else if str_eq(s, "segments") || str_eq(s, "seg") {
            Some(VizStyle::Segments)
        } else if str_eq(s, "wave") {
            Some(VizStyle::Wave)
        } else {
            None
        }
    }
}

/// Three taps on the visualizer bring back the style it started with.
pub proof fn law_viz_cycle_period(v: VizStyle)
    ensures
        viz_next(viz_next(viz_next(v))) == v,
        viz_next(v) != v,
{
}

/// Every style name reads back as its style.
pub proof fn law_viz_name_roundtrip(v: VizStyle)
    ensures
        viz_named(viz_name(v)) == Some(v),
{
    reveal_strlit("bars");
    reveal_strlit("segments");
    reveal_strlit("seg");
    reveal_strlit("wave");
    assert("bars"@[0] != "segments"@[0]);
    assert("bars"@[0] != "wave"@[0]);
    assert("bars"@[0] != "seg"@[0]);
    assert("segments"@[0] != "wave"@[0]);
    assert("seg"@[0] != "wave"@[0]);
}

/// Pomodoro state pushed by an external timer app.
#[derive(Debug, Clone)]
pub struct PomodoroFeed {
    pub label: String,
}

/// The timer state of a parsed `pomodoro.json`: shown only while
/// `"active": true`, labelled by `"label"` (`25:00` when missing).
pub open spec fn pomodoro_label_in(parsed: Option<Json>) -> Option<Seq<char>> {
    match parsed {
        Some(v) => if as_bool(member(v, "active"@)) == Some(true) {
            match as_str(member(v, "label"@)) {
                Some(l) => Some(l),
                None => Some("25:00"@),
            }
        } else {
            None
        },
        None => None,
    }
}

/// The timer state of `pomodoro.json`'s text.
pub open spec fn pomodoro_label(text: Seq<char>) -> Option<Seq<char>> {
    pomodoro_label_in(json_of(text))
}

/// Pomodoro state from the parsed feed file. `None` = no active timer.
pub fn pomodoro_from(parsed: &Option<Json>) -> (r: Option<PomodoroFeed>)
    ensures
        match r {
            Some(f) => pomodoro_label_in(*parsed) == Some(f.label@),
            None => pomodoro_label_in(*parsed) is None,
        },
{
    match parsed {
        Some(v) => {
            if bool_of(get(v, "active")) != Some(true) {
                return None;
            }
            let label = match str_of(get(&v, "label")) {
                Some(l) => l.clone(),
                None => owned("25:00"),
            };
            Some(PomodoroFeed { label })
        },
        None => None,
    }
}

/// Pomodoro state from the feed file's text. `None` = no active timer.
pub fn read_pomodoro(text: &str) -> (r: Option<PomodoroFeed>)
    ensures
        match r {
            Some(f) => pomodoro_label(text@) == Some(f.label@),
            None => pomodoro_label(text@) is None,
        },
{
    pomodoro_from(&parse_json(text))
}

/// Pixel pet moods on a 54 s loop: idle, dance, play, eat, sleep. Happy is
/// never scheduled: it only shows after a tap (pet) on the cat.
#[derive(Debug, Clone, Copy, PartialEq, Eq, Structural)]
pub enum PetMood {
    Idle,
    Dance,
    Play,
    Eat,
    Sleep,
    Happy,
}

/// The center plugins available, in priority order: the visualizer while
/// music plays, the timer while one is active, and always the pet.
pub open spec fn avail_spec(playing: bool, pomodoro: bool) -> Seq<Center> {
    (if playing {
        seq![Center::Levels]
    } else {
        seq![]
    }) + (if pomodoro {
        seq![Center::Pomodoro]
    } else {
        seq![]
    }) + seq![Center::Pet]
}

/// Center plugins currently available, in priority order.
pub fn available(playing: bool, pomodoro_active: bool) -> (r: Vec<Center>)
    ensures
        r@ == avail_spec(playing, pomodoro_active),
{
    let mut r: Vec<Center> = Vec::new();
    if playing {
        r.push(Center::Levels);
    }
    if pomodoro_active {
        r.push(Center::Pomodoro);
    }
    r.push(Center::Pet);
    assert(r@ =~= avail_spec(playing, pomodoro_active));
    r
}

/// A double-tap pin wins while still available; otherwise the first
/// (highest-priority) available plugin; the pet when nothing is.
pub open spec fn selected(pinned: Option<Center>, avail: Seq<Center>) -> Center {
    if pinned is Some && avail.contains(pinned->0) {
        pinned->0
    } else if avail.len() > 0 {
        avail[0]
    } else {
        Center::Pet
    }
}

fn position(avail: &Vec<Center>, c: Center) -> (r: Option<usize>)
    ensures
        match r {
            Some(i) => i < avail.len() && avail@[i as int] == c && forall|j: int|
                0 <= j < i ==> avail@[j] != c,
            None => !avail@.contains(c),
        },
{
    let mut i: usize = 0;
    while i < avail.len()
        invariant
            i <= avail.len(),
            forall|j: int| 0 <= j < i ==> avail@[j] != c,
        decreases avail.len() - i,
    {
        if avail[i] == c {
            return Some(i);
        }
        i += 1;
    }
    None
}

/// Which center plugin to show.
pub fn select(pinned: Option<Center>, avail: &Vec<Center>) -> (r: Center)
    ensures
        r == selected(pinned, avail@),
{
    if let Some(p) = pinned {
        if position(avail, p).is_some() {
            return p;
        }
    }
    if avail.len() > 0 {
        avail[0]
    } else {
        Center::Pet
    }
}

/// A second tap within this many nanoseconds is a double tap.
pub const DOUBLE_TAP_NS: u64 = 350_000_000;
/// How long a petted cat stays happy, in nanoseconds.
pub const PET_HAPPY_NS: u64 = 5_000_000_000;

/// The abstract middle-zone state.
pub struct ZoneView {
    pub pinned: Option<Center>,
    pub viz: VizStyle,
    pub viz_ms: u64,
    pub marquee_ms: u64,
    pub last_tap: Option<u64>,
    pub pet_until: Option<u64>,
}

/// Middle-zone interaction state: double-tap pin/cycle, tap-to-pet mood,
/// visualizer style and rotation timing (`viz_ms` of visualizer, then
/// `marquee_ms` of now-playing title per cycle; `0` disables the title).
pub struct ZoneState {
    pub pinned: Option<Center>,
    pub viz: VizStyle,
    pub viz_ms: u64,
    pub marquee_ms: u64,
    last_tap: Option<u64>,
    pet_until: Option<u64>,
    epoch: std::time::Instant,
}

impl View for ZoneState {
    type V = ZoneView;

    closed spec fn view(&self) -> ZoneView {
        ZoneView {
            pinned: self.pinned,
            viz: self.viz,
            viz_ms: self.viz_ms,
            marquee_ms: self.marquee_ms,
            last_tap: self.last_tap,
            pet_until: self.pet_until,
        }
    }
}

/// Index of the first `c` in `s` (`s.len()` when absent).
pub open spec fn first_index(s: Seq<Center>, c: Center) -> int
    decreases s.len(),
{
    if s.len() == 0 {
        0
    } else if s[0] == c {
        0
    } else {
        1 + first_index(s.drop_first(), c)
    }
}

proof fn lemma_first_index(s: Seq<Center>, c: Center, k: int)
    requires
        0 <= k < s.len(),
        s[k] == c,
        forall|m: int| 0 <= m < k ==> s[m] != c,
    ensures
        first_index(s, c) == k,
    decreases k,
{
    if k > 0 {
        lemma_first_index(s.drop_first(), c, k - 1);
    }
}

/// Position after `i` in a cycle of `n`.
pub open spec fn wrap_next(i: int, n: int) -> int {
    if i + 1 < n {
        i + 1
    } else {
        0
    }
}

/// The next pin after `showing` in the available cycle (no change with
/// fewer than two plugins).
pub open spec fn cycled(z: ZoneView, showing: Center, avail: Seq<Center>) -> ZoneView {
    if avail.len() < 2 {
        z
    } else {
        let i = if avail.contains(showing) {
            first_index(avail, showing)
        } else {
            0
        };
        ZoneView { pinned: Some(avail[wrap_next(i, avail.len() as int)]), ..z }
    }
}

/// A tap at `now` answered `r` and left the zone `z1`.
pub open spec fn double_tap_step(z0: ZoneView, now: u64, r: bool, z1: ZoneView) -> bool {
    &&& r == (z0.last_tap is Some && elapsed(z0.last_tap->0, now) < DOUBLE_TAP_NS)
    &&& z1 == (ZoneView { last_tap: Some(now), ..z0 })
}

impl ZoneState {
    /// Fresh zone: nothing pinned, bars, 8 s of visualizer and 4 s of title.
    pub fn new() -> (r: ZoneState)
        ensures
            r@ == (ZoneView {
                pinned: None,
                viz: VizStyle::Bars,
                viz_ms: 8000,
                marquee_ms: 4000,
                last_tap: None,
                pet_until: None,
            }),
    {
        ZoneState {
            pinned: None,
            viz: VizStyle::Bars,
            viz_ms: 8000,
            marquee_ms: 4000,
            last_tap: None,
            pet_until: None,
            epoch: instant_now(),
        }
    }

    /// Nanoseconds since this zone was made.
    pub fn now(&self) -> u64 {
        nanos_since(&self.epoch)
    }

    /// A tap at `now`: true when it follows the previous one within
    /// `DOUBLE_TAP_NS` (the caller cycles instead of firing the action).
    pub fn is_double_tap_at(&mut self, now: u64) -> (r: bool)
        ensures
            r == (old(self)@.last_tap is Some && elapsed(old(self)@.last_tap->0, now)
                < DOUBLE_TAP_NS),
            final(self)@ == (ZoneView { last_tap: Some(now), ..old(self)@ }),
    {
        let dbl = match self.last_tap {
            Some(t) => elapsed_ns(t, now) < DOUBLE_TAP_NS,
            None => false,
        };
        self.last_tap = Some(now);
        dbl
    }

    /// `is_double_tap_at` on the monotonic clock.
    pub fn is_double_tap(&mut self) -> (r: bool)
        ensures
            exists|now: u64| double_tap_step(old(self)@, now, r, final(self)@),
    {
        let now = self.now();
        let ghost z0 = self@;
        let r = self.is_double_tap_at(now);
        assert(double_tap_step(z0, now, r, self@));
        r
    }

    /// Pin the next available center plugin after the one showing now.
    pub fn cycle(&mut self, showing: Center, avail: &Vec<Center>)
        ensures
            final(self)@ == cycled(old(self)@, showing, avail@),
    {
        if avail.len() < 2 {
            return ;
        }
        let i = match position(avail, showing) {
            Some(i) => {
                proof {
                    lemma_first_index(avail@, showing, i as int);
                }
                i
            },
            None => 0,
        };
        let j = if i + 1 < avail.len() {
            i + 1
        } else {
            0
        };
        self.pinned = Some(avail[j]);
    }

    /// Advance the visualizer style; returns the new style's name.
    pub fn cycle_viz(&mut self) -> (r: &'static str)
        ensures
            final(self)@ == (ZoneView { viz: viz_next(old(self)@.viz), ..old(self)@ }),
            r@ == viz_name(viz_next(old(self)@.viz)),
    {
        self.viz = self.viz.next();
        self.viz.name()
    }

    /// Tap on the clock side: no action.
    pub fn tap_clock(&mut self) -> (r: Option<TapEffect>)
        ensures
            r is None,
            final(self)@ == old(self)@,
    {
        None
    }

    /// Tap on the weather side: refresh now.
    pub fn tap_weather(&mut self) -> (r: Option<TapEffect>)
        ensures
            r == Some(TapEffect::RefreshWeather),
            final(self)@ == old(self)@,
    {
        Some(TapEffect::RefreshWeather)
    }

    /// Pet the cat at `now`: happy for the next five seconds.
    pub fn poke_at(&mut self, now: u64)
        requires
            now <= u64::MAX - PET_HAPPY_NS,
        ensures
            final(self)@ == (ZoneView { pet_until: Some((now + PET_HAPPY_NS) as u64), ..old(self)@ }),
    {
        self.pet_until = Some(now + PET_HAPPY_NS);
    }

    /// The mood a tap forces on the pet at `now`, if any.
    pub fn pet_override_at(&self, now: u64) -> (r: Option<PetMood>)
        ensures
            r == (if self@.pet_until is Some && now < self@.pet_until->0 {
                Some(PetMood::Happy)
            } else {
                None
            }),
    {
        match self.pet_until {
            Some(t) => if now < t {
                Some(PetMood::Happy)
            } else {
                None
            },
            None => None,
        }
    }

    /// Tap on the center slot at `now`: the visible plugin decides. The
    /// visualizer cycles its style, the pet is petted (both fully handled,
    /// `None`), the timer asks the bar for `PomodoroTap`.
    pub fn tap_center_at(&mut self, avail: &Vec<Center>, now: u64) -> (r: Option<TapEffect>)
        requires
            now <= u64::MAX - PET_HAPPY_NS,
        ensures
            ({
                let showing = selected(old(self)@.pinned, avail@);
                match showing {
                    Center::Levels => r is None && final(self)@ == (ZoneView {
                        viz: viz_next(old(self)@.viz),
                        ..old(self)@
                    }),
                    Center::Pomodoro => r == Some(TapEffect::PomodoroTap) && final(self)@ == old(
                        self,
                    )@,
                    Center::Pet => r is None && final(self)@ == (ZoneView {
                        pet_until: Some((now + PET_HAPPY_NS) as u64),
                        ..old(self)@
                    }),
                }
            }),
    {
        let showing = select(self.pinned, avail);
        match showing {
            Center::Levels => {
                self.cycle_viz();
                None
            },
            Center::Pomodoro => Some(TapEffect::PomodoroTap),
            Center::Pet => {
                self.poke_at(now);
                None
            },
        }
    }
}

/// A double tap cycles the slot: with two or more distinct plugins
/// available, the pin moves to a plugin other than the one showing, and
/// that plugin is what shows next.
pub proof fn law_cycle_moves_on(z: ZoneView, showing: Center, avail: Seq<Center>)
    requires
        avail.len() >= 2,
        avail.no_duplicates(),
        avail.contains(showing),
    ensures
        cycled(z, showing, avail).pinned is Some,
        cycled(z, showing, avail).pinned->0 != showing,
        selected(cycled(z, showing, avail).pinned, avail) == cycled(z, showing, avail).pinned->0,
{
    let k = choose|k: int| 0 <= k < avail.len() && avail[k] == showing;
    let i = first_index(avail, showing);
    assert(i == k) by {
        lemma_first_index(avail, showing, k);
    }
    let j = wrap_next(i, avail.len() as int);
    assert(0 <= j < avail.len());
    assert(j != i);
    assert(avail[j] != showing);
    assert(avail.contains(avail[j]));
}

/// Two taps within 350 ms: the second is a double tap.
pub proof fn law_double_tap(z: ZoneView, t1: u64, t2: u64)
    requires
        t1 <= t2,
        t2 - t1 < DOUBLE_TAP_NS,
    ensures
        ({
            let z1 = ZoneView { last_tap: Some(t1), ..z };
            z1.last_tap is Some && elapsed(z1.last_tap->0, t2) < DOUBLE_TAP_NS
        }),
{
}

/// The weather string drawn: the cached reading, `--°` until the first
/// fetch lands.
pub open spec fn weather_text(w: Seq<char>) -> Seq<char> {
    if w.len() == 0 {
        "--°"@
    } else {
        w
    }
}

pub fn weather_shown(w: &str) -> (r: String)
    ensures
        r@ == weather_text(w@),
{
    let v = to_chars(w);
    if v.len() == 0 {
        owned("--°")
    } else {
        string_from(&v)
    }
}

/// MPRIS status says music is playing.
pub fn is_playing(status: &Option<String>) -> (r: bool)
    ensures
        r == (status is Some && status->0@ == "Playing"@),
{
    match status {
        Some(s) => str_eq(s.as_str(), "Playing"),
        None => false,
    }
}

/// A value remembered with the time (nanoseconds) it was fetched, good
/// for `ttl_ns`.
pub struct TtlCache<T> {
    pub entry: Option<(T, u64)>,
    pub ttl_ns: u64,
}

/// The cached value when it was fetched less than `ttl_ns` before `now`.
pub open spec fn cache_fresh<T>(c: TtlCache<T>, now: u64) -> Option<T> {
    match c.entry {
        Some((v, t)) => if elapsed(t, now) < c.ttl_ns {
            Some(v)
        } else {
            None
        },
        None => None,
    }
}

impl<T> TtlCache<T> {
    /// An empty cache.
    pub fn new(ttl_ns: u64) -> (r: TtlCache<T>)
        ensures
            r.entry is None,
            r.ttl_ns == ttl_ns,
    {
        TtlCache { entry: None, ttl_ns }
    }

    /// The value, while it is fresh at `now`.
    pub fn lookup(&self, now: u64) -> (r: Option<&T>)
        ensures
            match r {
                Some(v) => cache_fresh(*self, now) == Some(*v),
                None => cache_fresh(*self, now) is None,
            },
    {
        match &self.entry {
            Some((v, t)) => if elapsed_ns(*t, now) < self.ttl_ns {
                Some(v)
            } else {
                None
            },
            None => None,
        }
    }

    /// Remember `v` as fetched at `now`.
    pub fn store(&mut self, v: T, now: u64)
        ensures
            final(self).entry == Some((v, now)),
            final(self).ttl_ns == old(self).ttl_ns,
    {
        self.entry = Some((v, now));
    }
}

/// A stored value is read back, unchanged, until its time to live runs
/// out, and not after.
pub proof fn law_cache_reads_back<T>(c: TtlCache<T>, v: T, t: u64, now: u64)
    requires
        now >= t,
    ensures
        cache_fresh(TtlCache { entry: Some((v, t)), ttl_ns: c.ttl_ns }, now) == (if now - t
            < c.ttl_ns {
            Some(v)
        } else {
            None
        }),
{
}

/// How long a play state stays cached (1 s) and a track (2 s).
pub const PLAYING_TTL_NS: u64 = 1_000_000_000;
pub const TRACK_TTL_NS: u64 = 2_000_000_000;

/// Now-playing `(title, artist)` from the cache while it is fresh (2 s);
/// `None` when it has to be fetched again.
pub fn track_info(cache: &TtlCache<Option<(String, String)>>, now: u64) -> (r: Option<
    &Option<(String, String)>,
>)
    ensures
        match r {
            Some(v) => cache_fresh(*cache, now) == Some(*v),
            None => cache_fresh(*cache, now) is None,
        },
{
    cache.lookup(now)
}

/// The marquee line: "Title — Artist", the title or artist alone (each
/// trimmed), else the trimmed feed label; `None` when all are blank.
pub open spec fn marquee_of(track: Option<(Seq<char>, Seq<char>)>, label: Option<Seq<char>>) -> Option<
    Seq<char>,
> {
    let from_label = match label {
        Some(l) => if trim(l).len() > 0 {
            Some(trim(l))
        } else {
            None
        },
        None => None,
    };
    match track {
        Some((t0, a0)) => {
            let t = trim(t0);
            let a = trim(a0);
            if t.len() > 0 && a.len() > 0 {
                Some(t + " \u{2014} "@ + a)
            } else if t.len() > 0 {
                Some(t)
            } else if a.len() > 0 {
                Some(a)
            } else {
                from_label
            }
        },
        None => from_label,
    }
}

pub fn marquee_text(track: &Option<(String, String)>, label: Option<&str>) -> (r: Option<String>)
    ensures
        opt_view(r) == marquee_of(
            match track {
                Some(p) => Some((p.0@, p.1@)),
                None => None,
            },
            match label {
                Some(l) => Some(l@),
                None => None,
            },
        ),
{
    if let Some((title, artist)) = track {
        let t = trimmed(title.as_str());
        let a = trimmed(artist.as_str());
        if t.len() > 0 && a.len() > 0 {
            let mut s = t.clone();
            push_str(&mut s, " \u{2014} ");
            push_all(&mut s, &a);
            return Some(string_from(&s));
        } else if t.len() > 0 {
            return Some(string_from(&t));
        } else if a.len() > 0 {
            return Some(string_from(&a));
        }
    }
    match label {
        Some(l) => {
            let t = trimmed(l);
            if t.len() > 0 {
                Some(string_from(&t))
            } else {
                None
            }
        },
        None => None,
    }
}

/// The 3x5 pixel glyph of a clock or weather character, row by row
/// (`1` = lit); `None` for characters without one.
pub open spec fn glyph_cells(ch: char) -> Option<Seq<u8>> {
    if ch == '0' {
        Some(seq![1u8, 1, 1, 1, 0, 1, 1, 0, 1, 1, 0, 1, 1, 1, 1])
    } else if ch == '1' {
        Some(seq![0u8, 1, 0, 1, 1, 0, 0, 1, 0, 0, 1, 0, 1, 1, 1])
    } else if ch == '2' {
        Some(seq![1u8, 1, 1, 0, 0, 1, 1, 1, 1, 1, 0, 0, 1, 1, 1])
    } else if ch == '3' {
        Some(seq![1u8, 1, 1, 0, 0, 1, 1, 1, 1, 0, 0, 1, 1, 1, 1])
    } else if ch == '4' {
        Some(seq![1u8, 0, 1, 1, 0, 1, 1, 1, 1, 0, 0, 1, 0, 0, 1])
    } else if ch == '5' {
        Some(seq![1u8, 1, 1, 1, 0, 0, 1, 1, 1, 0, 0, 1, 1, 1, 1])
    } else if ch == '6' {
        Some(seq![1u8, 1, 1, 1, 0, 0, 1, 1, 1, 1, 0, 1, 1, 1, 1])
    } else if ch == '7' {
        Some(seq![1u8, 1, 1, 0, 0, 1, 0, 0, 1, 0, 1, 0, 0, 1, 0])
    } else if ch == '8' {
        Some(seq![1u8, 1, 1, 1, 0, 1, 1, 1, 1, 1, 0, 1, 1, 1, 1])
    } else if ch == '9' {
        Some(seq![1u8, 1, 1, 1, 0, 1, 1, 1, 1, 0, 0, 1, 1, 1, 1])
    } else if ch == ':' {
        Some(seq![0u8, 0, 0, 0, 1, 0, 0, 0, 0, 0, 1, 0, 0, 0, 0])
    } else if ch == '-' {
        Some(seq![0u8, 0, 0, 0, 0, 0, 1, 1, 1, 0, 0, 0, 0, 0, 0])
    } else if ch == '\u{b0}' {
        Some(seq![1u8, 1, 0, 1, 1, 0, 0, 0, 0, 0, 0, 0, 0, 0, 0])
    } else if ch == 'C' {
        Some(seq![1u8, 1, 1, 1, 0, 0, 1, 0, 0, 1, 0, 0, 1, 1, 1])
    } else if ch == 'F' {
        Some(seq![1u8, 1, 1, 1, 0, 0, 1, 1, 0, 1, 0, 0, 1, 0, 0])
    } else {
        None
    }
}

/// The pixel glyph of `ch` (see `glyph_cells`).
pub fn digit(ch: char) -> (r: Option<[u8; 15]>)
    ensures
        match r {
            Some(a) => glyph_cells(ch) == Some(a@),
            None => glyph_cells(ch) is None,
        },
{
    let d: [u8; 15] = match ch {
        '0' => [1, 1, 1, 1, 0, 1, 1, 0, 1, 1, 0, 1, 1, 1, 1],
        '1' => [0, 1, 0, 1, 1, 0, 0, 1, 0, 0, 1, 0, 1, 1, 1],
        '2' => [1, 1, 1, 0, 0, 1, 1, 1, 1, 1, 0, 0, 1, 1, 1],
        '3' => [1, 1, 1, 0, 0, 1, 1, 1, 1, 0, 0, 1, 1, 1, 1],
        '4' => [1, 0, 1, 1, 0, 1, 1, 1, 1, 0, 0, 1, 0, 0, 1],
        '5' => [1, 1, 1, 1, 0, 0, 1, 1, 1, 0, 0, 1, 1, 1, 1],
        '6' => [1, 1, 1, 1, 0, 0, 1, 1, 1, 1, 0, 1, 1, 1, 1],
        '7' => [1, 1, 1, 0, 0, 1, 0, 0, 1, 0, 1, 0, 0, 1, 0],
        '8' => [1, 1, 1, 1, 0, 1, 1, 1, 1, 1, 0, 1, 1, 1, 1],
        '9' => [1, 1, 1, 1, 0, 1, 1, 1, 1, 0, 0, 1, 1, 1, 1],
        ':' => [0, 0, 0, 0, 1, 0, 0, 0, 0, 0, 1, 0, 0, 0, 0],
        '-' => [0, 0, 0, 0, 0, 0, 1, 1, 1, 0, 0, 0, 0, 0, 0],
        '\u{b0}' => [1, 1, 0, 1, 1, 0, 0, 0, 0, 0, 0, 0, 0, 0, 0],
        'C' => [1, 1, 1, 1, 0, 0, 1, 0, 0, 1, 0, 0, 1, 1, 1],
        'F' => [1, 1, 1, 1, 0, 0, 1, 1, 0, 1, 0, 0, 1, 0, 0],
        _ => return None,
    };
    proof {
        if ch == '0' {
            assert(d@ =~= seq![1u8, 1, 1, 1, 0, 1, 1, 0, 1, 1, 0, 1, 1, 1, 1]);
        } else if ch == '1' {
            assert(d@ =~= seq![0u8, 1, 0, 1, 1, 0, 0, 1, 0, 0, 1, 0, 1, 1, 1]);
        } else if ch == '2' {
            assert(d@ =~= seq![1u8, 1, 1, 0, 0, 1, 1, 1, 1, 1, 0, 0, 1, 1, 1]);
        } else if ch == '3' {
            assert(d@ =~= seq![1u8, 1, 1, 0, 0, 1, 1, 1, 1, 0, 0, 1, 1, 1, 1]);
        } else if ch == '4' {
            assert(d@ =~= seq![1u8, 0, 1, 1, 0, 1, 1, 1, 1, 0, 0, 1, 0, 0, 1]);
        } else if ch == '5' {
            assert(d@ =~= seq![1u8, 1, 1, 1, 0, 0, 1, 1, 1, 0, 0, 1, 1, 1, 1]);
        } else if ch == '6' {
            assert(d@ =~= seq![1u8, 1, 1, 1, 0, 0, 1, 1, 1, 1, 0, 1, 1, 1, 1]);
        } else if ch == '7' {
            assert(d@ =~= seq![1u8, 1, 1, 0, 0, 1, 0, 0, 1, 0, 1, 0, 0, 1, 0]);
        } else if ch == '8' {
            assert(d@ =~= seq![1u8, 1, 1, 1, 0, 1, 1, 1, 1, 1, 0, 1, 1, 1, 1]);
        } else if ch == '9' {
            assert(d@ =~= seq![1u8, 1, 1, 1, 0, 1, 1, 1, 1, 0, 0, 1, 1, 1, 1]);
        } else if ch == ':' {
            assert(d@ =~= seq![0u8, 0, 0, 0, 1, 0, 0, 0, 0, 0, 1, 0, 0, 0, 0]);
        } else if ch == '-' {
            assert(d@ =~= seq![0u8, 0, 0, 0, 0, 0, 1, 1, 1, 0, 0, 0, 0, 0, 0]);
        } else if ch == '\u{b0}' {
            assert(d@ =~= seq![1u8, 1, 0, 1, 1, 0, 0, 0, 0, 0, 0, 0, 0, 0, 0]);
        } else if ch == 'C' {
            assert(d@ =~= seq![1u8, 1, 1, 1, 0, 0, 1, 0, 0, 1, 0, 0, 1, 1, 1]);
        } else if ch == 'F' {
            assert(d@ =~= seq![1u8, 1, 1, 1, 0, 0, 1, 1, 0, 1, 0, 0, 1, 0, 0]);
        }
    }
    Some(d)
}

// ---------------------------------------------------------------------------
// pixel pet schedule
// ---------------------------------------------------------------------------

/// The 54 s loop: (mood, seconds into its slot) at `t` seconds into it.
pub open spec fn mood_slot(t: int) -> (PetMood, int) {
    if t < 8 {
        (PetMood::Idle, t)
    } else if t < 14 {
        (PetMood::Dance, t - 8)
    } else if t < 20 {
        (PetMood::Idle, t - 14)
    } else if t < 26 {
        (PetMood::Play, t - 20)
    } else if t < 32 {
        (PetMood::Eat, t - 26)
    } else if t < 38 {
        (PetMood::Idle, t - 32)
    } else if t < 48 {
        (PetMood::Sleep, t - 38)
    } else {
        (PetMood::Idle, t - 48)
    }
}

/// Mood at wall-clock second `wall`, from wall time alone (no state).
pub fn pet_mood_at(wall: u64) -> (r: (PetMood, u64))
    ensures
        r.0 == mood_slot((wall % 54) as int).0,
        r.1 == mood_slot((wall % 54) as int).1,
        r.0 != PetMood::Happy,
{
    let t = wall % 54;
    if t < 8 {
        (PetMood::Idle, t)
    } else if t < 14 {
        (PetMood::Dance, t - 8)
    } else if t < 20 {
        (PetMood::Idle, t - 14)
    } else if t < 26 {
        (PetMood::Play, t - 20)
    } else if t < 32 {
        (PetMood::Eat, t - 26)
    } else if t < 38 {
        (PetMood::Idle, t - 32)
    } else if t < 48 {
        (PetMood::Sleep, t - 38)
    } else {
        (PetMood::Idle, t - 48)
    }
}

pub open spec fn mood_named(s: Seq<char>) -> PetMood {
    if s == "dance"@ {
        PetMood::Dance
    } else if s == "play"@ {
        PetMood::Play
    } else if s == "eat"@ {
        PetMood::Eat
    } else if s == "sleep"@ {
        PetMood::Sleep
    } else if s == "happy"@ {
        PetMood::Happy
    } else {
        PetMood::Idle
    }
}

/// The mood a preview pins (`PET_DEBUG="mood:secs"`); unknown names idle.
pub fn mood_by_name(s: &str) -> (r: PetMood)
    ensures
        r == mood_named(s@),
{
    if str_eq(s, "dance") {
        PetMood::Dance
    } else if str_eq(s, "play") {
        PetMood::Play
    } else if str_eq(s, "eat") {
        PetMood::Eat
    } else if str_eq(s, "sleep") {
        PetMood::Sleep
    } else if str_eq(s, "happy") {
        PetMood::Happy
    } else {
        PetMood::Idle
    }
}

} // verus!
