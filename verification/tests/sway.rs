use agent_shell::json::{parse, Json};
use agent_shell::sway::compositor::{
    cache_answers, collect_windows, parse_monitor, version_of, SwayCompositor, SwayReport,
    WindowCommand,
};
use agent_shell::sway::event::{parse_window_info, pump_frame};
use agent_shell::sway::ipc::{
    check_command, check_subscription, decode_header, decode_payload, encode_message, read_reply,
    IpcCommand, SwayIpc, EVENT_WINDOW, EVENT_WORKSPACE, HEADER_LEN,
};
use agent_shell::types::{
    AgentShellError, ComponentHealth, DesktopEvent, Rect, WindowInfo, WindowState,
};

const WINDOW_CONTAINER: &str = r#"{
    "id": 42,
    "name": "Editor — main.rs",
    "app_id": "org.gnome.TextEditor",
    "pid": 1234,
    "focused": false,
    "visible": true,
    "fullscreen_mode": 0,
    "layout": "con",
    "workspace": "2",
    "output": "HEADLESS-1",
    "rect": {"x": 10, "y": 20, "width": 800, "height": 600},
    "geometry": {"x": 12, "y": 22, "width": 796, "height": 596}
}"#;

fn json(text: &str) -> Json {
    parse(text).expect("valid JSON")
}

#[test]
fn parses_real_window_container() {
    let c = json(WINDOW_CONTAINER);
    let w = parse_window_info(&c).expect("window");
    assert_eq!(w.id.native_id, "42");
    assert_eq!(w.app_id, "org.gnome.TextEditor");
    assert_eq!(w.frame_geometry.width, 800);
    assert_eq!(w.geometry.width, 796);
    assert_eq!(w.pid, 1234);
    assert_eq!(w.workspace_id.as_ref().unwrap().native_id, "2");
}

#[test]
fn skips_pure_container_nodes() {
    let split = json(r#"{"id": 1, "layout": "splith"}"#);
    assert!(parse_window_info(&split).is_none());
}

#[test]
fn fullscreen_state_parsed_from_numeric_field() {
    let c = json(&WINDOW_CONTAINER.replace("\"fullscreen_mode\": 0", "\"fullscreen_mode\": 1"));
    let w = parse_window_info(&c).unwrap();
    assert!(w.states.contains(&WindowState::FullScreen));
}

#[test]
fn window_close_event_removes_from_cache() {
    let mut cache: Vec<WindowInfo> = vec![];
    let c = json(WINDOW_CONTAINER);
    cache.push(parse_window_info(&c).unwrap());
    let frame = json(r#"{"change": "close", "container": {"id": 42}}"#);
    pump_frame(EVENT_WINDOW, &frame, &mut cache);
    assert!(cache.is_empty());
}

#[test]
fn window_new_event_appends_to_cache_and_emits() {
    let mut cache: Vec<WindowInfo> = vec![];
    let frame = json(&format!(
        r#"{{"change": "new", "container": {WINDOW_CONTAINER}}}"#
    ));
    let e = pump_frame(EVENT_WINDOW, &frame, &mut cache);
    assert_eq!(cache.len(), 1);
    assert!(matches!(e.unwrap(), DesktopEvent::WindowOpened { .. }));
}

#[test]
fn non_event_frame_is_ignored() {
    let mut cache: Vec<WindowInfo> = vec![];
    let frame = json(r#"{"success": true}"#);
    assert!(pump_frame(0, &frame, &mut cache).is_none());
}

#[test]
fn workspace_init_event_emits_workspace_changed() {
    let mut cache: Vec<WindowInfo> = vec![];
    let frame = json(r#"{"change": "init", "current": {"name": "3", "num": 3, "focused": true}}"#);
    let e = pump_frame(EVENT_WORKSPACE, &frame, &mut cache);
    assert!(matches!(e.unwrap(), DesktopEvent::WorkspaceChanged { .. }));
}

#[test]
fn request_type_values_match_i3_spec() {
    assert_eq!(IpcCommand::GetVersion.as_u32(), 0);
    assert_eq!(IpcCommand::GetWorkspaces.as_u32(), 1);
    assert_eq!(IpcCommand::GetOutputs.as_u32(), 3);
    assert_eq!(IpcCommand::GetTree.as_u32(), 4);
    assert_eq!(IpcCommand::RunCommand.as_u32(), 0);
    assert_eq!(IpcCommand::Subscribe.as_u32(), 100);
}

#[test]
fn message_roundtrip_over_socketpair() {
    let sent = encode_message(IpcCommand::GetVersion, "{\"\":1}");
    assert_eq!(&sent[..6], b"i3-ipc");
    let len = u32::from_le_bytes(sent[6..10].try_into().unwrap()) as usize;
    assert_eq!(&sent[HEADER_LEN..HEADER_LEN + len], b"{\"\":1}");

    let body = br#"{"major":1}"#;
    let mut reply: Vec<u8> = Vec::new();
    reply.extend_from_slice(b"i3-ipc");
    reply.extend_from_slice(&(body.len() as u32).to_le_bytes());
    reply.extend_from_slice(&0u32.to_le_bytes());
    reply.extend_from_slice(body);
    let (len, rtype) = decode_header(&reply[..HEADER_LEN]).expect("header");
    let text = decode_payload(reply[HEADER_LEN..HEADER_LEN + len as usize].to_vec()).expect("text");
    assert_eq!(rtype, 0);
    assert_eq!(text, "{\"major\":1}");
}

#[test]
fn bad_magic_is_rejected() {
    let err = decode_header(b"XXXXXX\0\0\0\0\0\0\0\0").expect_err("must fail");
    assert!(err.message().contains("bad magic"));
}

#[test]
fn oversized_payload_rejected() {
    let huge = (16 * 1024 * 1024 + 1u32).to_le_bytes();
    let mut msg = Vec::new();
    msg.extend_from_slice(b"i3-ipc");
    msg.extend_from_slice(&huge);
    msg.extend_from_slice(&0u32.to_le_bytes());
    let err = decode_header(&msg).expect_err("must fail");
    assert!(err.message().contains("sanity limit"));
}

#[test]
fn payload_that_is_no_text_is_rejected() {
    let err = decode_payload(vec![0xff, 0xfe]).expect_err("must fail");
    assert!(err.message().starts_with("sway ipc: non-utf8 payload: "));
    assert_eq!(decode_payload("é✓".as_bytes().to_vec()).unwrap(), "é✓");
}

#[test]
fn missing_swaysock_maps_to_backend_unavailable() {
    let err = SwayIpc::from_env(None).expect_err("must fail");
    assert!(matches!(err, AgentShellError::BackendUnavailable(_)));
}

#[test]
fn missing_swaysock_fails_with_backend_unavailable() {
    let err = SwayIpc::from_env(None).expect_err("must fail without SWAYSOCK");
    assert!(matches!(err, AgentShellError::BackendUnavailable(_)));
    let ipc = SwayIpc::from_env(Some("/run/sway.sock".into())).unwrap();
    assert_eq!(ipc.socket_path(), "/run/sway.sock");
    assert_eq!(SwayIpc::with_socket_path("/x").socket_path(), "/x");
    assert!(ipc.connect_error("refused").message().contains("refused"));
}

#[test]
fn replies_are_checked() {
    assert!(read_reply("{}").is_ok());
    assert!(matches!(read_reply("nope"), Err(AgentShellError::Other(_))));
    assert!(check_command("focus", &json(r#"[{"success": true}]"#)).is_ok());
    let e = check_command("focus", &json(r#"[{"success": false, "error": "no window"}]"#));
    assert_eq!(
        e.unwrap_err().message(),
        "sway ipc: `focus` failed: no window"
    );
    assert!(check_subscription(r#"{"success": true}"#).is_ok());
    assert!(check_subscription(r#"{"success": false}"#).is_err());
    assert!(check_subscription("nope").is_err());
}

const TREE: &str = r#"{
    "id": 1, "layout": "splith", "type": "root", "name": "root",
    "nodes": [{
        "id": 2, "layout": "output", "type": "output", "name": "HEADLESS-1",
        "nodes": [{
            "id": 3, "layout": "splith", "type": "con",
            "nodes": [
                {"id": 10, "app_id": "foot", "pid": 100, "name": "term",
                 "rect": {"x": 0, "y": 0, "width": 960, "height": 1080},
                 "geometry": {"x": 2, "y": 2, "width": 956, "height": 1076},
                 "workspace": "1"},
                {"id": 11, "app_id": null, "window": 4194305, "pid": 200,
                 "name": "xeyes",
                 "window_properties": {"class": "XEye"},
                 "rect": {"x": 960, "y": 0, "width": 960, "height": 1080},
                 "geometry": {"x": 960, "y": 0, "width": 960, "height": 1080}}
            ],
            "floating_nodes": [
                {"id": 12, "app_id": "calc", "pid": 300, "name": "calc",
                 "fullscreen_mode": 0,
                 "rect": {"x": 100, "y": 100, "width": 400, "height": 300},
                 "geometry": {"x": 100, "y": 100, "width": 400, "height": 300}}
            ]
        }]
    }],
    "floating_nodes": []
}"#;

#[test]
fn tree_flattens_real_windows_only() {
    let tree = json(TREE);
    let mut out = Vec::new();
    collect_windows(&tree, 0, &mut out);
    assert_eq!(out.len(), 3);
    let ids: Vec<&str> = out.iter().map(|w| w.id.native_id.as_str()).collect();
    assert_eq!(ids, ["10", "11", "12"]);
    assert_eq!(out[0].app_id, "foot");
    assert_eq!(out[1].app_id, "XEye");
    assert_eq!(out[2].app_id, "calc");
    assert_eq!(SwayCompositor::query_windows(&tree).len(), 3);
    assert!(cache_answers(&out));
    assert!(!cache_answers(&vec![]));
    let _ = SwayCompositor::get_active_window(&out);
}

#[test]
fn monitor_parse_maps_mode_and_workspace() {
    let m = json(
        r#"{"name": "HEADLESS-1", "primary": true, "scale": 1.5,
            "active": true,
            "rect": {"x": 0, "y": 0, "width": 1920, "height": 1080},
            "current_mode": {"width": 1920, "height": 1080, "refresh": 60000},
            "current_workspace": "1"}"#,
    );
    let info = parse_monitor(&m).unwrap();
    assert_eq!(info.scale.as_ref().unwrap().parse::<f64>().unwrap(), 1.5);
    assert!(info.is_primary);
    assert_eq!(info.physical_geometry.width, 1920);
    assert_eq!(info.workspace_id.unwrap().native_id, "1");
}

#[test]
fn inactive_output_is_skipped_by_caller_contract() {
    let m = json(r#"{"name": null}"#);
    assert!(parse_monitor(&m).is_none());
    assert!(SwayCompositor::query_monitors(&json(r#"[{"name": null}]"#)).is_empty());
    let reply = json(r#"[{"name": "3", "num": 3, "focused": true}]"#);
    let ws = SwayCompositor::query_workspaces(&reply);
    assert_eq!(ws.len(), 1);
    assert_eq!(ws[0].name, "3");
}

#[test]
fn commands_select_the_container() {
    assert_eq!(SwayCompositor::dispatch("5", "kill"), "[con_id=\"5\"] kill");
    assert_eq!(SwayCompositor::command_for("5", &WindowCommand::Close), "[con_id=\"5\"] kill");
    assert_eq!(
        SwayCompositor::command_for("5", &WindowCommand::Move { x: -1, y: 2 }),
        "[con_id=\"5\"] move position -1 2"
    );
    assert_eq!(
        SwayCompositor::command_for(
            "5",
            &WindowCommand::SetGeometry(Rect {
                x: 1,
                y: 2,
                width: 3,
                height: 4
            })
        ),
        "[con_id=\"5\"] floating enable, resize set 3 4, move position 1 2"
    );
}

#[test]
fn quotes_in_workspace_names_are_escaped() {
    assert_eq!(SwayCompositor::activate_workspace("a\"b\\c"), "workspace \"a\\\"b\\\\c\"");
    assert!(SwayCompositor::move_window_to_workspace("5", "a\"b").contains("a\\\"b"));
}

#[test]
fn sway_report_and_health() {
    assert_eq!(version_of(&json(r#"{"full_version": "1.9"}"#)), "1.9");
    assert_eq!(version_of(&json("{}")), "unknown");
    let lines = SwayCompositor::doctor_lines(&SwayReport {
        bound: 7,
        failures: vec![],
        version: "1.9".into(),
        millis: "0.5".into(),
        windows: 3,
        workspaces: 2,
    });
    assert_eq!(lines[0], "✓ Wayland 协议 : 7/7 globals bound (all ok)");
    assert_eq!(lines[1], "✓ Sway IPC     : 1.9 (SWAYSOCK, roundtrip 0.5ms)");
    assert_eq!(lines[2], "✓ 桌面状态     : 3 窗口 / 2 工作区");
    assert_eq!(SwayCompositor::health(7, 0), ComponentHealth::Healthy);
    assert!(matches!(SwayCompositor::health(0, 7), ComponentHealth::Degraded(_)));
    assert!(matches!(SwayCompositor::health(3, 4), ComponentHealth::Degraded(_)));
    assert!(SwayCompositor::capabilities(true, false).native_input);
    assert!(!SwayCompositor::capabilities(true, false).native_capture);
}

fn known(id: u64) -> WindowInfo {
    let text = WINDOW_CONTAINER.replace("\"id\": 42", &format!("\"id\": {id}"));
    parse_window_info(&json(&text)).expect("window")
}

#[test]
fn only_the_focused_window_counts_as_normal() {
    let mut cache = vec![known(1), known(2)];
    cache[0].states = vec![WindowState::Normal];
    cache[1].states = vec![WindowState::Hidden, WindowState::FullScreen];
    let frame = json(r#"{"change": "focus", "container": {"id": 2}}"#);
    pump_frame(EVENT_WINDOW, &frame, &mut cache);
    assert!(cache[0].states.is_empty());
    assert_eq!(
        cache[1].states,
        [WindowState::FullScreen, WindowState::Normal]
    );
    assert_eq!(
        SwayCompositor::get_active_window(&cache).unwrap().id.native_id,
        "2"
    );
}

#[test]
fn reported_container_refreshes_its_window() {
    let mut cache = vec![known(42), known(7)];
    let frame = json(
        r#"{"change": "move", "container": {"id": 42, "name": "renamed",
            "rect": {"x": 5, "y": 6, "width": 70, "height": 80},
            "geometry": {"x": 0, "y": 0, "width": 60, "height": 75}}}"#,
    );
    pump_frame(EVENT_WINDOW, &frame, &mut cache);
    assert_eq!(cache[0].title, "renamed");
    assert_eq!(
        cache[0].frame_geometry,
        Rect { x: 5, y: 6, width: 70, height: 80 }
    );
    assert_eq!(cache[0].geometry.width, 60);
    assert_eq!(cache[1].geometry.width, 796);
}

#[test]
fn windows_are_stacked_as_the_tree_is_walked() {
    let orders: Vec<u32> = SwayCompositor::query_windows(&json(TREE))
        .iter()
        .map(|w| w.stacking_order)
        .collect();
    assert_eq!(orders, [0, 1, 2]);
}
