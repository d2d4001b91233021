use barmarchy::json::Json;
use barmarchy::actions::{
    night_from, get_kbd, get_mic_muted, get_night, launch_app, lock_override, mpris_players, mpris_status,
    mpris_toggle, refresh_weather, set_display, set_kbd, set_volume, toggle_mic, toggle_night,
    weather_cache_path, weather_read, Launch,
};

fn argv(v: &[&str]) -> Vec<String> {
    v.iter().map(|s| s.to_string()).collect()
}

#[test]
fn display_is_clamped_to_one_through_hundred() {
    assert_eq!(
        set_display(55),
        argv(&["omarchy", "brightness", "display", "--no-osd", "55%"])
    );
    assert_eq!(set_display(150)[4], "100%");
    assert_eq!(set_display(-3)[4], "1%");
    assert_eq!(set_display(0)[4], "1%");
}

#[test]
fn volume_is_a_two_decimal_fraction() {
    assert_eq!(
        set_volume(45),
        argv(&["wpctl", "set-volume", "@DEFAULT_AUDIO_SINK@", "0.45"])
    );
    assert_eq!(set_volume(7)[3], "0.07");
    assert_eq!(set_volume(100)[3], "1.00");
    assert_eq!(set_volume(250)[3], "1.00");
    assert_eq!(set_volume(-5)[3], "0.00");
    assert_eq!(set_volume(50)[3], format!("{:.2}", 50f64 / 100.0));
}

#[test]
fn keyboard_percent_from_readings() {
    assert_eq!(get_kbd("128", "255"), 50);
    assert_eq!(get_kbd("255", "255"), 100);
    assert_eq!(get_kbd("garbage", ""), 20); // 51 of 255
    assert_eq!(get_kbd("10", "0"), 20);
    assert_eq!(get_kbd("10", "-4"), 20);
    assert_eq!(get_kbd("300", "255"), 100);
    assert_eq!(get_kbd("-10", "255"), 0);
    assert_eq!(get_kbd(" 12 ", "100"), 51); // unparsable (spaces): 51 of 100
    assert_eq!(get_kbd("+12", "100"), 12);
}

#[test]
fn keyboard_set_scales_to_255() {
    assert_eq!(
        set_kbd(50),
        argv(&["brightnessctl", "-d", "kbd_backlight", "set", "127"])
    );
    for n in [0, 1, 33, 50, 67, 99, 100] {
        let expect = (n as f64 / 100.0 * 255.0) as i32;
        assert_eq!(set_kbd(n)[4], expect.to_string());
    }
    assert_eq!(set_kbd(400)[4], "255");
    assert_eq!(set_kbd(-1)[4], "0");
}

#[test]
fn mic_mute_reading() {
    assert!(get_mic_muted("Mute: yes"));
    assert!(get_mic_muted("Mute: YES"));
    assert!(!get_mic_muted("Mute: no"));
    assert!(!get_mic_muted(""));
}

#[test]
fn night_light_status() {
    assert!(get_night("{\"enabled\": true, \"temp\": 4000}"));
    assert!(!get_night("{\"enabled\": false}"));
    assert!(!get_night("{\"enabled\": \"yes\"}"));
    assert!(!get_night("not json"));
    assert!(!get_night(""));
}

#[test]
fn toggles_are_fixed_commands() {
    assert_eq!(toggle_mic(), argv(&["omarchy", "audio", "input", "mute"]));
    assert_eq!(toggle_night(), argv(&["omarchy", "toggle", "nightlight"]));
}

#[test]
fn players_are_sorted_and_unique() {
    let out = "NAME PID PROCESS\n\
               org.mpris.MediaPlayer2.spotify 1234 spotify user\n\
               :1.55 88 foo\n\
               org.mpris.MediaPlayer2.firefox.instance_1_9 77 firefox\n\
               \n\
               org.mpris.MediaPlayer2.spotify 1234 spotify user\n\
               org.freedesktop.DBus 1 dbus\n";
    assert_eq!(
        mpris_players(out),
        argv(&[
            "org.mpris.MediaPlayer2.firefox.instance_1_9",
            "org.mpris.MediaPlayer2.spotify"
        ])
    );
    assert!(mpris_players("").is_empty());
}

#[test]
fn player_state_from_replies() {
    assert_eq!(mpris_status(&vec![]), None);
    assert_eq!(
        mpris_status(&argv(&["s \"Paused\""])),
        Some("Paused".to_string())
    );
    assert_eq!(
        mpris_status(&argv(&["s \"Stopped\"", "s \"Playing\""])),
        Some("Playing".to_string())
    );
}

#[test]
fn play_pause_goes_to_every_player() {
    let cmds = mpris_toggle(&argv(&["org.mpris.MediaPlayer2.a", "org.mpris.MediaPlayer2.b"]));
    assert_eq!(cmds.len(), 2);
    assert_eq!(
        cmds[1],
        argv(&[
            "busctl",
            "--user",
            "call",
            "org.mpris.MediaPlayer2.b",
            "/org/mpris/MediaPlayer2",
            "org.mpris.MediaPlayer2.Player",
            "PlayPause"
        ])
    );
}

#[test]
fn weather_reading_keeps_five_temperature_chars() {
    assert_eq!(weather_read("+21°C\n"), "21°C");
    assert_eq!(weather_read(""), "");
    assert_eq!(weather_read("-12345°C"), "-1234");
    assert_eq!(weather_read("abc 7°F"), "7°F");
}

#[test]
fn weather_paths_and_script() {
    assert_eq!(
        weather_cache_path("/home/u"),
        "/home/u/.cache/omarchy-touchbar/weather"
    );
    let s = refresh_weather("/home/u");
    assert!(s.starts_with("loc=$(omarchy-weather-location 2>/dev/null); if [ -n \"$loc\" ]"));
    assert!(s.contains("mkdir -p \"/home/u/.cache/omarchy-touchbar\""));
    assert!(s.contains(
        "printf '%s' \"$t\" > \"/home/u/.cache/omarchy-touchbar/weather.tmp\" && mv \"/home/u/.cache/omarchy-touchbar/weather.tmp\" \"/home/u/.cache/omarchy-touchbar/weather\""
    ));
    assert!(s.contains("tr -d '+ \\n'"));
    assert!(s.ends_with("*) echo \"weather: fetch failed\" >&2;; esac"));
}

#[test]
fn launcher_prefers_url_then_command() {
    assert_eq!(
        launch_app(Some("gnome-calculator"), Some(" https://x.com ")),
        Launch::Web("https://x.com".to_string())
    );
    assert_eq!(
        launch_app(Some("  foot  "), Some("   ")),
        Launch::Shell("foot".to_string())
    );
    assert_eq!(launch_app(None, None), Launch::Nothing);
    assert_eq!(launch_app(Some(" "), None), Launch::Nothing);
}

#[test]
fn lock_override_needs_text() {
    assert_eq!(lock_override(Some("hyprlock --now")), Some("hyprlock --now".to_string()));
    assert_eq!(lock_override(Some("   ")), None);
    assert_eq!(lock_override(None), None);
}

#[test]
fn parsed_night_status() {
    let st = |v: Json| Some(Json::Object(vec![("enabled".to_string(), v)]));
    assert!(night_from(&st(Json::Bool(true))));
    assert!(!night_from(&st(Json::Bool(false))));
    assert!(!night_from(&st(Json::Str("true".into()))));
    assert!(!night_from(&None));
}
