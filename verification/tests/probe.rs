use barmarchy::probe::{abs_max, event_nodes, input_events, pick_kbd, pick_touch, TouchFound};

fn strs(v: &[&str]) -> Vec<String> {
    v.iter().map(|s| s.to_string()).collect()
}

fn record(typ: u16, code: u16, val: i32) -> Vec<u8> {
    let mut r = vec![0u8; 16];
    r.extend_from_slice(&typ.to_le_bytes());
    r.extend_from_slice(&code.to_le_bytes());
    r.extend_from_slice(&val.to_le_bytes());
    r
}

#[test]
fn raw_events_split_into_records() {
    let mut buf = record(3, 53, 1200);
    buf.extend(record(1, 330, -1));
    buf.extend(vec![7u8; 10]);
    let n = buf.len();
    assert_eq!(input_events(&buf, n), vec![(3, 53, 1200), (1, 330, -1)]);
    assert_eq!(input_events(&buf, 47), vec![(3, 53, 1200)]);
    assert!(input_events(&buf, 0).is_empty());
}

#[test]
fn absinfo_maximum() {
    let mut info = [0u8; 24];
    info[8..12].copy_from_slice(&23044i32.to_le_bytes());
    assert_eq!(abs_max(&info), Some(23044));
    info[8..12].copy_from_slice(&0i32.to_le_bytes());
    assert_eq!(abs_max(&info), None);
    info[8..12].copy_from_slice(&(-5i32).to_le_bytes());
    assert_eq!(abs_max(&info), None);
}

#[test]
fn event_nodes_by_number() {
    let names = strs(&["event10", "mouse0", "event2", "event", "event02", "eventx", "event99999999999"]);
    assert_eq!(
        event_nodes(&names),
        strs(&[
            "/dev/input/event2",
            "/dev/input/event02",
            "/dev/input/event10",
            "/dev/input/event",
            "/dev/input/event99999999999",
        ])
    );
}

#[test]
fn touch_and_keyboard_choice() {
    let nodes = |v: &[(&str, Option<&str>)]| -> Vec<(String, Option<String>)> {
        v.iter().map(|(a, b)| (a.to_string(), b.map(|s| s.to_string()))).collect()
    };
    let list = nodes(&[
        ("/dev/input/event0", Some("Power Button")),
        ("/dev/input/event1", None),
        ("/dev/input/event2", Some("MacBookPro17,1 Touch Bar")),
        ("/dev/input/event3", Some("Apple Internal Keyboard")),
        ("/dev/input/event4", Some("Apple SPI Keyboard")),
    ]);
    assert_eq!(pick_touch(&list), TouchFound::Node("/dev/input/event2".to_string()));
    assert_eq!(pick_kbd(&list), "/dev/input/event4");
    let list = nodes(&[("/dev/input/event0", Some("USB Keyboard")), ("/dev/input/event1", None)]);
    assert_eq!(pick_touch(&list), TouchFound::Missing);
    assert_eq!(pick_kbd(&list), "/dev/input/event0");
    let list = nodes(&[("/dev/input/event0", None)]);
    assert_eq!(pick_touch(&list), TouchFound::Unreadable);
    assert_eq!(pick_kbd(&list), "/dev/input/event1");
    assert_eq!(pick_touch(&vec![]), TouchFound::Unreadable);
}
