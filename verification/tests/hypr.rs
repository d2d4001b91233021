use barmarchy::json::Json;
use barmarchy::hypr::{
    active_from, active_workspace, clients_from, workspaces_from, clients, first_line, focus_workspace, parse_event, pick_signature, workspaces,
    EventBuffer, HyprEvent, WsInfo,
};

#[test]
fn active_workspace_reply() {
    assert_eq!(active_workspace("{\"id\": 3, \"name\": \"3\"}"), 3);
    assert_eq!(active_workspace(""), 1);
    assert_eq!(active_workspace("{\"id\": \"x\"}"), 1);
    assert_eq!(active_workspace("{\"id\": 4294967298}"), 4294967298i64 as i32);
}

#[test]
fn workspaces_reply() {
    assert_eq!(
        workspaces("[{\"id\":1,\"windows\":2},{\"id\":3}]"),
        vec![WsInfo { id: 1, windows: 2 }, WsInfo { id: 3, windows: 0 }]
    );
    assert_eq!(workspaces("[]"), vec![WsInfo { id: 1, windows: 1 }]);
    assert_eq!(workspaces("{}"), vec![WsInfo { id: 1, windows: 1 }]);
    assert_eq!(workspaces("oops"), vec![WsInfo { id: 1, windows: 1 }]);
}

#[test]
fn clients_reply() {
    let c = clients(
        "[{\"workspace\":{\"id\":2,\"name\":\"2\"},\"class\":\"foot\",\"title\":\"t\"},{\"class\":\"x\"}]",
    );
    assert_eq!(c.len(), 2);
    assert_eq!((c[0].ws_id, c[0].class.as_str(), c[0].title.as_str()), (2, "foot", "t"));
    assert_eq!((c[1].ws_id, c[1].class.as_str(), c[1].title.as_str()), (0, "x", ""));
    assert!(clients("{}").is_empty());
}

#[test]
fn focus_command_and_reply() {
    assert_eq!(focus_workspace(3), "dispatch hl.dsp.focus({ workspace = \"3\" })");
    assert_eq!(focus_workspace(-2), "dispatch hl.dsp.focus({ workspace = \"-2\" })");
    assert_eq!(first_line("ok\nmore"), "ok");
    assert_eq!(first_line("  ok  "), "ok");
    assert_eq!(first_line(""), "");
}

#[test]
fn events() {
    assert_eq!(parse_event("workspace>>3\n"), HyprEvent::Workspace(Some(3)));
    assert_eq!(parse_event("workspace>>x"), HyprEvent::Workspace(None));
    assert_eq!(parse_event("openwindow>>abc,1,foot,t"), HyprEvent::Redraw);
    assert_eq!(parse_event("activewindow"), HyprEvent::Redraw);
    assert_eq!(parse_event("changefloatingmode>>a,1"), HyprEvent::Redraw);
    assert_eq!(parse_event("focusedmon>>x"), HyprEvent::Other);
    assert_eq!(parse_event("workspacev2>>3,3"), HyprEvent::Other);
}

#[test]
fn event_lines_split_across_reads() {
    let mut b = EventBuffer::new();
    b.push("work");
    assert_eq!(b.next_line(), None);
    b.push("space>>2\nopen");
    assert_eq!(b.next_line(), Some("workspace>>2\n".to_string()));
    assert_eq!(b.next_line(), None);
    b.push("window>>x\n\n");
    assert_eq!(b.next_line(), Some("openwindow>>x\n".to_string()));
    assert_eq!(b.next_line(), Some("\n".to_string()));
    assert_eq!(b.next_line(), None);
}

#[test]
fn signature_prefers_environment_then_newest_dir() {
    let cands = vec![(5i128, "a".to_string()), (9, "b".to_string()), (9, "c".to_string()), (-3, "d".to_string())];
    assert_eq!(pick_signature(Some("env".into()), &cands), Some("env".to_string()));
    assert_eq!(pick_signature(Some(String::new()), &cands), Some("b".to_string()));
    assert_eq!(pick_signature(None, &cands), Some("b".to_string()));
    assert_eq!(pick_signature(None, &vec![]), None);
    assert_eq!(pick_signature(None, &vec![(-7, "old".to_string())]), Some("old".to_string()));
}

fn obj(v: Vec<(&str, Json)>) -> Json {
    Json::Object(v.into_iter().map(|(k, x)| (k.to_string(), x)).collect())
}

#[test]
fn parsed_replies_are_read() {
    assert_eq!(active_from(&Some(obj(vec![("id", Json::Number(Some(4)))]))), 4);
    assert_eq!(active_from(&Some(obj(vec![("id", Json::Str("4".into()))]))), 1);
    assert_eq!(active_from(&None), 1);
    let ws = Some(Json::Array(vec![
        obj(vec![("id", Json::Number(Some(2))), ("windows", Json::Number(Some(3)))]),
        obj(vec![]),
    ]));
    assert_eq!(workspaces_from(&ws), vec![WsInfo { id: 2, windows: 3 }, WsInfo { id: 1, windows: 0 }]);
    assert_eq!(workspaces_from(&Some(Json::Null)), vec![WsInfo { id: 1, windows: 1 }]);
    let cl = Some(Json::Array(vec![obj(vec![
        ("workspace", obj(vec![("id", Json::Number(Some(5)))])),
        ("class", Json::Str("foot".into())),
    ])]));
    let c = clients_from(&cl);
    assert_eq!(c.len(), 1);
    assert_eq!((c[0].ws_id, c[0].class.as_str(), c[0].title.as_str()), (5, "foot", ""));
    assert!(clients_from(&None).is_empty());
}
