use barmarchy::json::Json;
use barmarchy::deck::{
    pomodoro_from, available, center_by_id, digit, is_playing, marquee_text, mood_by_name, pet_mood_at,
    read_pomodoro, select, track_info, weather_shown, Center, PetMood, TapEffect, TtlCache,
    VizStyle, ZoneState, DOUBLE_TAP_NS,
};

#[test]
fn center_ids_round_trip() {
    for c in [Center::Levels, Center::Pomodoro, Center::Pet] {
        assert_eq!(center_by_id(c.id()), Some(c));
    }
    assert_eq!(Center::Pomodoro.id(), "pomodoro");
    assert_eq!(center_by_id("clock"), None);
}

#[test]
fn viz_styles_cycle_and_parse() {
    assert_eq!(VizStyle::Bars.next(), VizStyle::Segments);
    assert_eq!(VizStyle::Bars.next().next().next(), VizStyle::Bars);
    assert_eq!(VizStyle::Wave.name(), "wave");
    assert_eq!(VizStyle::from_name("seg"), Some(VizStyle::Segments));
    assert_eq!(VizStyle::from_name("segments"), Some(VizStyle::Segments));
    assert_eq!(VizStyle::from_name("nope"), None);
}

#[test]
fn availability_and_selection() {
    assert_eq!(available(false, false), vec![Center::Pet]);
    assert_eq!(
        available(true, true),
        vec![Center::Levels, Center::Pomodoro, Center::Pet]
    );
    let avail = available(true, false);
    assert_eq!(select(None, &avail), Center::Levels);
    assert_eq!(select(Some(Center::Pet), &avail), Center::Pet);
    assert_eq!(select(Some(Center::Pomodoro), &avail), Center::Levels);
    assert_eq!(select(Some(Center::Levels), &vec![]), Center::Pet);
}

#[test]
fn pomodoro_feed() {
    let f = read_pomodoro("{\"active\": true, \"label\": \"12:34\"}").unwrap();
    assert_eq!(f.label, "12:34");
    assert_eq!(read_pomodoro("{\"active\": true}").unwrap().label, "25:00");
    assert!(read_pomodoro("{\"active\": false, \"label\": \"x\"}").is_none());
    assert!(read_pomodoro("{\"active\": 1}").is_none());
    assert!(read_pomodoro("nope").is_none());
}

#[test]
fn double_tap_and_cycle() {
    let mut z = ZoneState::new();
    assert!(!z.is_double_tap_at(1_000));
    assert!(z.is_double_tap_at(1_000 + DOUBLE_TAP_NS - 1));
    assert!(!z.is_double_tap_at(1_000 + 3 * DOUBLE_TAP_NS));
    let avail = available(true, true);
    z.cycle(Center::Levels, &avail);
    assert_eq!(z.pinned, Some(Center::Pomodoro));
    z.cycle(Center::Pet, &avail);
    assert_eq!(z.pinned, Some(Center::Levels));
    let only = available(false, false);
    z.cycle(Center::Pet, &only);
    assert_eq!(z.pinned, Some(Center::Levels));
}

#[test]
fn center_taps() {
    let mut z = ZoneState::new();
    assert_eq!(z.cycle_viz(), "segments");
    assert_eq!(z.viz, VizStyle::Segments);
    assert_eq!(z.tap_clock(), None);
    assert_eq!(z.tap_weather(), Some(TapEffect::RefreshWeather));
    let avail = available(false, true);
    assert_eq!(z.tap_center_at(&avail, 10), Some(TapEffect::PomodoroTap));
    z.pinned = Some(Center::Pet);
    assert_eq!(z.tap_center_at(&avail, 10), None);
    assert_eq!(z.pet_override_at(11), Some(PetMood::Happy));
    assert_eq!(z.pet_override_at(10 + 5_000_000_000), None);
    let playing = available(true, false);
    z.pinned = None;
    assert_eq!(z.tap_center_at(&playing, 10), None);
    assert_eq!(z.viz, VizStyle::Wave);
}

#[test]
fn weather_placeholder() {
    assert_eq!(weather_shown(""), "--°");
    assert_eq!(weather_shown("21°C"), "21°C");
}

#[test]
fn playing_status() {
    assert!(is_playing(&Some("Playing".to_string())));
    assert!(!is_playing(&Some("Paused".to_string())));
    assert!(!is_playing(&None));
}

#[test]
fn caches_read_back_until_stale() {
    let mut c: TtlCache<Option<(String, String)>> = TtlCache::new(2_000_000_000);
    assert!(track_info(&c, 0).is_none());
    c.store(Some(("Song".into(), "Band".into())), 100);
    assert_eq!(
        track_info(&c, 100 + 1_999_999_999),
        Some(&Some(("Song".to_string(), "Band".to_string())))
    );
    assert!(track_info(&c, 100 + 2_000_000_000).is_none());
    let mut p: TtlCache<bool> = TtlCache::new(1_000_000_000);
    p.store(true, 5);
    assert_eq!(p.lookup(6), Some(&true));
    assert_eq!(p.lookup(4), Some(&true));
}

#[test]
fn marquee_lines() {
    let t = Some((" Song ".to_string(), " Band".to_string()));
    assert_eq!(marquee_text(&t, None), Some("Song \u{2014} Band".to_string()));
    let t = Some(("Song".to_string(), "  ".to_string()));
    assert_eq!(marquee_text(&t, Some("music")), Some("Song".to_string()));
    let t = Some(("".to_string(), "Band".to_string()));
    assert_eq!(marquee_text(&t, None), Some("Band".to_string()));
    let t = Some(("".to_string(), "".to_string()));
    assert_eq!(marquee_text(&t, Some(" music ")), Some("music".to_string()));
    assert_eq!(marquee_text(&None, Some("  ")), None);
    assert_eq!(marquee_text(&None, None), None);
}

#[test]
fn pixel_glyphs() {
    assert_eq!(
        digit('0'),
        Some([1, 1, 1, 1, 0, 1, 1, 0, 1, 1, 0, 1, 1, 1, 1])
    );
    assert_eq!(digit('°'), Some([1, 1, 0, 1, 1, 0, 0, 0, 0, 0, 0, 0, 0, 0, 0]));
    assert_eq!(digit('F'), Some([1, 1, 1, 1, 0, 0, 1, 1, 0, 1, 0, 0, 1, 0, 0]));
    assert_eq!(digit('x'), None);
    for c in "0123456789:-°CF".chars() {
        assert!(digit(c).is_some());
    }
}

#[test]
fn pet_schedule() {
    assert_eq!(pet_mood_at(0), (PetMood::Idle, 0));
    assert_eq!(pet_mood_at(9), (PetMood::Dance, 1));
    assert_eq!(pet_mood_at(25), (PetMood::Play, 5));
    assert_eq!(pet_mood_at(26), (PetMood::Eat, 0));
    assert_eq!(pet_mood_at(40), (PetMood::Sleep, 2));
    assert_eq!(pet_mood_at(53), (PetMood::Idle, 5));
    assert_eq!(pet_mood_at(54 + 9), (PetMood::Dance, 1));
    assert_eq!(mood_by_name("eat"), PetMood::Eat);
    assert_eq!(mood_by_name("happy"), PetMood::Happy);
    assert_eq!(mood_by_name("zzz"), PetMood::Idle);
}

#[test]
fn parsed_pomodoro_feed() {
    let on = |label: Option<&str>| {
        let mut m = vec![("active".to_string(), Json::Bool(true))];
        if let Some(l) = label {
            m.push(("label".to_string(), Json::Str(l.to_string())));
        }
        Some(Json::Object(m))
    };
    assert_eq!(pomodoro_from(&on(Some("12:34"))).map(|f| f.label), Some("12:34".to_string()));
    assert_eq!(pomodoro_from(&on(None)).map(|f| f.label), Some("25:00".to_string()));
    let off = Some(Json::Object(vec![("active".to_string(), Json::Bool(false))]));
    assert!(pomodoro_from(&off).is_none());
    assert!(pomodoro_from(&None).is_none());
}
