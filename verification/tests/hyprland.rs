use agent_shell::hyprland::cache::{window_id, WindowCache};
use agent_shell::hyprland::compositor::{
    entry_count, parse_clients, unsupported, workspace_to_activate, HyprlandCompositor,
    SocketReport, Unsupported, WlrReport,
};
use agent_shell::hyprland::event_socket::{parse_line, EventTaskHandle};
use agent_shell::hyprland::hyprctl::{expect_ok, read_json, try_again, Hyprctl};
use agent_shell::hyprland::wayland::{
    HyprlandBindings, FOCUS_GRAB, GLOBAL_SHORTCUTS, TOPLEVEL_EXPORT, TOPLEVEL_MAPPING,
};
use agent_shell::json::{parse, Json};
use agent_shell::types::{
    AgentShellError, ComponentHealth, DesktopEnvironment, DesktopEvent, Rect, WindowInfo,
    WindowState, WindowType, WorkspaceId,
};

const ADDR: &str = "abc123";

fn json(text: &str) -> Json {
    parse(text).expect("valid JSON")
}

#[test]
fn upsert_then_remove_lifecycle() {
    let mut cache = WindowCache::default();
    assert!(cache.is_empty());
    cache.upsert_minimal(ADDR, 2, "foot", "terminal", 1);
    assert_eq!(cache.len(), 1);
    cache.upsert_minimal(ADDR, 2, "foot", "vim", 2);
    assert_eq!(cache.len(), 1);
    let w = cache.get(&window_id(ADDR)).expect("present");
    assert_eq!(w.title, "vim");
    assert_eq!(w.workspace_id.unwrap().native_id, "2");
    cache.remove(ADDR);
    assert!(cache.is_empty());
    assert_eq!(window_id("0xabc123"), window_id(ADDR));
}

#[test]
fn fullscreen_toggle_and_focus_pick() {
    let mut cache = WindowCache::default();
    cache.upsert_minimal("aa01", 1, "a", "A", 1);
    cache.upsert_minimal("bb02", 1, "b", "B", 5);
    assert_eq!(cache.focused().unwrap().id.native_id, "bb02");
    cache.set_fullscreen("aa01", true);
    let a = cache.get(&window_id("aa01")).unwrap();
    assert!(a.states.contains(&WindowState::FullScreen));
    cache.set_fullscreen("aa01", false);
    let a = cache.get(&window_id("aa01")).unwrap();
    assert!(!a.states.contains(&WindowState::FullScreen));
}

#[test]
fn replace_all_reconciles_stale_entries() {
    let mut cache = WindowCache::default();
    cache.upsert_minimal("dead", 1, "x", "gone", 1);
    cache.upsert_minimal(ADDR, 1, "live", "Live", 2);
    let live = WindowInfo {
        id: window_id(ADDR),
        title: "Live".into(),
        app_id: "live".into(),
        pid: 42,
        geometry: Rect {
            x: 10,
            y: 20,
            width: 800,
            height: 600,
        },
        frame_geometry: Rect::default(),
        states: vec![],
        workspace_id: None,
        monitor_id: None,
        stacking_order: 7,
        desktop_file: None,
        window_type: WindowType::Normal,
        icon_geometry: None,
        keep_above: false,
    };
    cache.replace_all(vec![live.clone()]);
    assert_eq!(cache.len(), 1);
    assert_eq!(cache.get(&window_id(ADDR)).unwrap().pid, 42);
}

#[test]
fn upsert_updates_the_workspace() {
    let mut cache = WindowCache::default();
    cache.upsert_minimal(ADDR, 2, "foot", "terminal", 1);
    cache.upsert_minimal(ADDR, 5, "foot", "", 1);
    let w = cache.get(&window_id(ADDR)).unwrap();
    assert_eq!(w.workspace_id.unwrap().native_id, "5");
    assert_eq!(w.title, "terminal");
}

#[test]
fn prefix_of_an_address_makes_no_difference() {
    assert_eq!(window_id("0x0xff").native_id, "ff");
    assert_eq!(window_id("ff").native_id, "ff");
    assert_eq!(window_id("ff").de_type, DesktopEnvironment::Hyprland);
}

#[test]
fn parse_clients_extracts_geometry_and_states() {
    let v = json(
        r#"[{
            "address": "0xabc123",
            "title": "terminal",
            "class": "foot",
            "initialClass": "foot",
            "pid": 1234,
            "at": [100, 200],
            "size": [800, 600],
            "workspace": {"id": 2, "name": "web"},
            "monitor": 0,
            "fullscreen": 2,
            "floating": false,
            "mapped": true,
            "pinned": false
        }]"#,
    );
    let windows = parse_clients(&v);
    assert_eq!(windows.len(), 1);
    let w = &windows[0];
    assert_eq!(w.id.native_id, "abc123");
    assert_eq!(w.title, "terminal");
    assert_eq!(w.app_id, "foot");
    assert_eq!(w.pid, 1234);
    assert_eq!(w.geometry.x, 100);
    assert_eq!(w.geometry.y, 200);
    assert_eq!(w.geometry.width, 800);
    assert_eq!(w.geometry.height, 600);
    assert!(w.states.contains(&WindowState::FullScreen));
    assert!(!w.states.contains(&WindowState::Hidden));
    assert_eq!(w.workspace_id.as_ref().unwrap().native_id, "2");
}

#[test]
fn parse_clients_maximized_not_fullscreen() {
    let v = json(
        r#"[{
            "address": "0x1",
            "at": [0, 0],
            "size": [1920, 1080],
            "fullscreen": 1,
            "mapped": true
        }]"#,
    );
    let w = &parse_clients(&v)[0];
    assert!(!w.states.contains(&WindowState::FullScreen));
}

#[test]
fn parse_clients_missing_fields_default_zero() {
    let v = json(r#"[{"address": "0x2", "mapped": true}]"#);
    let w = &parse_clients(&v)[0];
    assert_eq!(w.geometry, Rect::default());
    assert_eq!(w.pid, 0);
    assert!(w.states.is_empty());
}

#[test]
fn parse_clients_unmapped_is_hidden() {
    let v = json(
        r#"[{
            "address": "0x3",
            "at": [10, 20],
            "size": [100, 100],
            "mapped": false,
            "fullscreen": 0
        }]"#,
    );
    let w = &parse_clients(&v)[0];
    assert!(w.states.contains(&WindowState::Hidden));
}

#[test]
fn parse_clients_stacking_order_increments() {
    let v = json(
        r#"[
            {"address": "0xa", "at": [0, 0], "size": [10, 10], "mapped": true},
            {"address": "0xb", "at": [0, 0], "size": [10, 10], "mapped": true},
            {"address": "0xc", "at": [0, 0], "size": [10, 10], "mapped": true}
        ]"#,
    );
    let windows = parse_clients(&v);
    assert_eq!(windows[0].stacking_order, 0);
    assert_eq!(windows[1].stacking_order, 1);
    assert_eq!(windows[2].stacking_order, 2);
}

#[test]
fn refreshed_cache_holds_the_clients_once() {
    let mut cache = WindowCache::default();
    cache.upsert_minimal("dead", 1, "x", "gone", 1);
    let answer = r#"[{"address": "0xa", "mapped": true}, {"address": "0xb"}, {"address": "a"}]"#;
    let ws = HyprlandCompositor::refresh_cache_from_clients(&mut cache, answer)
        .expect("valid answer");
    assert_eq!(ws.len(), 2);
    assert_eq!(cache.len(), 2);
    assert!(cache.get(&window_id("dead")).is_none());
    let e = HyprlandCompositor::refresh_cache_from_clients(&mut cache, "not json").unwrap_err();
    assert!(matches!(
        e,
        AgentShellError::BackendUnavailable(m) if m.starts_with("hyprctl bad json: ")
    ));
    assert_eq!(cache.len(), 2);
}

#[test]
fn known_windows_stand_in_for_a_failed_request() {
    let mut cache = WindowCache::default();
    let failed = || Err(AgentShellError::BackendUnavailable("down".into()));
    assert!(HyprlandCompositor::list_windows(failed(), &cache).is_err());
    cache.upsert_minimal(ADDR, 1, "foot", "t", 1);
    assert_eq!(HyprlandCompositor::list_windows(failed(), &cache).unwrap().len(), 1);
    assert_eq!(HyprlandCompositor::list_windows(Ok(vec![]), &cache).unwrap().len(), 0);
}

#[test]
fn active_window_needs_an_object() {
    assert!(HyprlandCompositor::get_active_window(json("[]")).is_none());
    let answer = json(r#"{"address": "0xff", "title": "t"}"#);
    let w = HyprlandCompositor::get_active_window(answer).unwrap();
    assert_eq!(w.id.native_id, "ff");
    assert_eq!(w.title, "t");
}

#[test]
fn workspaces_and_monitors_are_read() {
    let all = json(r#"[{"id": 1, "name": "one"}, {"id": 2, "name": "two"}]"#);
    let active = json(r#"{"id": 2}"#);
    let ws = HyprlandCompositor::list_workspaces(&all, Some(&active));
    assert_eq!(ws.len(), 2);
    assert!(!ws[0].is_active);
    assert!(ws[1].is_active);
    assert_eq!(ws[1].name, "two");
    let ms = HyprlandCompositor::list_monitors(&json(
        r#"[{"id": 0, "name": "DP-1", "x": 5, "y": 6, "width": 1920, "height": 1080,
             "scale": 1.5}]"#,
    ));
    assert_eq!(ms.len(), 1);
    assert_eq!(ms[0].name, "DP-1");
    assert_eq!(ms[0].scale.as_deref(), Some("1.5"));
    assert_eq!(entry_count(&all), 2);
    assert_eq!(entry_count(&json("{}")), 0);
}

#[test]
fn workspace_numbers_that_are_none_stand_for_the_first() {
    let id = |s: &str| WorkspaceId {
        native_id: s.into(),
        de_type: DesktopEnvironment::Hyprland,
    };
    assert_eq!(workspace_to_activate(&id("7")), 7);
    assert_eq!(workspace_to_activate(&id("web")), 1);
}

#[test]
fn parses_core_event_lines_and_updates_cache() {
    let mut cache = WindowCache::default();
    let mut focus = String::new();

    let e = parse_line("openwindow>>abc123,2,foot,my terminal", &mut cache, &mut focus)
        .expect("openwindow");
    assert!(matches!(e, DesktopEvent::WindowOpened { .. }));
    assert_eq!(cache.get(&window_id("abc123")).unwrap().title, "my terminal");

    let e = parse_line("activewindowv2>>abc123", &mut cache, &mut focus).unwrap();
    assert!(matches!(e, DesktopEvent::WindowFocused { .. }));
    assert_eq!(focus, "abc123");

    let e = parse_line("workspacev2>>3,web", &mut cache, &mut focus).unwrap();
    match e {
        DesktopEvent::WorkspaceChanged { info, .. } => {
            assert_eq!(info.id.native_id, "3");
            assert_eq!(info.name, "web");
        }
        other => panic!("unexpected {other:?}"),
    }

    let e = parse_line("fullscreen>>1", &mut cache, &mut focus).unwrap();
    assert!(matches!(
        e,
        DesktopEvent::FullscreenChanged { enabled: true, .. }
    ));
    assert!(cache
        .get(&window_id("abc123"))
        .unwrap()
        .states
        .contains(&WindowState::FullScreen));

    let e = parse_line("closewindow>>abc123", &mut cache, &mut focus).unwrap();
    assert!(matches!(e, DesktopEvent::WindowClosed { .. }));
    assert!(cache.get(&window_id("abc123")).is_none());
}

#[test]
fn closing_a_window_undoes_opening_it() {
    let mut cache = WindowCache::default();
    let mut focus = String::new();
    parse_line("openwindow>>ff01,1,foot,one", &mut cache, &mut focus).unwrap();
    parse_line("activewindowv2>>ff01", &mut cache, &mut focus).unwrap();
    let before = cache.snapshot();
    parse_line("openwindow>>abc123,2,foot,my terminal", &mut cache, &mut focus).unwrap();
    assert_eq!(cache.len(), 2);
    let closed = parse_line("closewindow>>abc123", &mut cache, &mut focus).unwrap();
    assert!(matches!(closed, DesktopEvent::WindowClosed { id, .. } if id == window_id("abc123")));
    assert_eq!(cache.snapshot(), before);
    assert_eq!(focus, "ff01");
}

#[test]
fn title_with_comma_survives() {
    let mut cache = WindowCache::default();
    let mut focus = String::new();
    parse_line(
        "openwindow>>ff01,1,cargo,build, test, lint",
        &mut cache,
        &mut focus,
    )
    .unwrap();
    assert_eq!(
        cache.get(&window_id("ff01")).unwrap().title,
        "build, test, lint"
    );
}

#[test]
fn unknown_and_empty_events_skipped() {
    let mut cache = WindowCache::default();
    let mut focus = String::new();
    assert!(parse_line("configreloaded>>", &mut cache, &mut focus).is_none());
    assert!(parse_line("activewindowv2>>", &mut cache, &mut focus).is_none());
    assert!(parse_line("garbage-line", &mut cache, &mut focus).is_none());
}

#[test]
fn stopped_task_stays_stopped() {
    let mut h = EventTaskHandle::new();
    assert!(!h.is_stopped());
    h.stop();
    h.stop();
    assert!(h.is_stopped());
}

#[test]
fn missing_his_is_backend_unavailable() {
    let r = Hyprctl::new(None, Some("/run/user/1000".into()));
    assert!(matches!(
        &r,
        Err(AgentShellError::BackendUnavailable(m)) if m.contains("Hyprland")
    ));
}

#[test]
fn socket_paths_follow_instance_layout() {
    let ctl = Hyprctl::with_paths(
        "/tmp/x/hypr/t1/.socket.sock".into(),
        "/tmp/x/hypr/t1/.socket2.sock".into(),
        "t1".into(),
    );
    assert!(ctl.socket_path().ends_with("hypr/t1/.socket.sock"));
    assert!(ctl.event_socket_path().ends_with("hypr/t1/.socket2.sock"));
    assert_eq!(ctl.instance_signature(), "t1");
    let ctl = Hyprctl::new(Some("t1".into()), Some("/run/user/1000".into())).unwrap();
    assert_eq!(ctl.socket_path(), "/run/user/1000/hypr/t1/.socket.sock");
    assert_eq!(ctl.event_socket_path(), "/run/user/1000/hypr/t1/.socket2.sock");
}

#[test]
fn non_ok_dispatch_text_is_rejected() {
    assert!(expect_ok("ok\n", "workspace 2").is_ok());
    assert!(expect_ok("invalid dispatcher\n", "nope").is_err());
    assert_eq!(
        expect_ok("invalid dispatcher\n", "nope").unwrap_err().message(),
        "hyprctl `nope` rejected: invalid dispatcher"
    );
}

#[test]
fn answers_are_read_as_json() {
    let v = read_json("[{\"address\":\"0x1\"}]").unwrap();
    assert_eq!(v.as_array().unwrap()[0].get_str("address"), Some("0x1"));
    assert!(read_json("nope").is_err());
}

#[test]
fn requests_are_repeated_a_limited_number_of_times() {
    assert!(try_again(0));
    assert!(try_again(1));
    assert!(try_again(2));
    assert!(!try_again(3));
}

#[test]
fn commands_name_the_window_by_its_address() {
    assert_eq!(Hyprctl::dispatch("workspace 2"), "dispatch workspace 2");
    assert_eq!(Hyprctl::set_keyword("misc:x 1"), "/keyword misc:x 1");
    assert_eq!(Hyprctl::focus_window("ff"), "focuswindow address:0xff");
    assert_eq!(Hyprctl::close_window("ff"), "closewindow address:0xff");
    assert_eq!(Hyprctl::activate_workspace(-3), "workspace -3");
    assert_eq!(
        Hyprctl::move_window("ff", 1, -2),
        vec![
            "setfloating address:0xff".to_string(),
            "movewindowpixel exact 1 -2,address:0xff".to_string()
        ]
    );
    assert_eq!(
        Hyprctl::resize_window("ff", 3, 4),
        vec![
            "setfloating address:0xff".to_string(),
            "resizewindowpixel exact 3 4,address:0xff".to_string()
        ]
    );
    assert!(Hyprctl::maximize_window("ff").contains("address:0xff"));
    assert!(Hyprctl::move_window_to_workspace("ff", "2").contains("address:0xff"));
    let all = Hyprctl::set_window_geometry(
        "ff",
        Rect {
            x: 1,
            y: 2,
            width: 3,
            height: 4,
        },
    );
    assert!(all.contains(&"movewindowpixel exact 1 2,address:0xff".to_string()));
    assert!(all.contains(&"resizewindowpixel exact 3 4,address:0xff".to_string()));
}

#[test]
fn default_bindings_report_zero_bound() {
    let b = HyprlandBindings::default();
    assert_eq!(b.bound_count(), 0);
    assert!(b.bind_failures.is_empty());
}

#[test]
fn every_binding_is_bound_or_failed() {
    let b = HyprlandBindings::from_bindings(None, Some("too old".into()), None, None);
    assert_eq!(b.bound_count(), 3);
    assert_eq!(
        b.bind_failures,
        vec![("hyprland_focus_grab_manager_v1".to_string(), "too old".to_string())]
    );
}

#[test]
fn version_ranges_are_those_of_the_protocols() {
    assert_eq!(TOPLEVEL_EXPORT, (1, 2));
    assert_eq!(FOCUS_GRAB, (1, 1));
    assert_eq!(GLOBAL_SHORTCUTS, (1, 1));
    assert_eq!(TOPLEVEL_MAPPING, (1, 1));
}

#[test]
fn hyprland_report_counts_protocols() {
    let ctl = Hyprctl::with_paths("a".into(), "b".into(), "sig".into());
    let wlr = WlrReport {
        bound: 6,
        foreign_toplevel: true,
        virtual_pointer: false,
    };
    let b = Some(HyprlandBindings::from_bindings(None, None, None, None));
    let lines = HyprlandCompositor::doctor_lines(&ctl, wlr, &b);
    assert_eq!(lines[0], "✓ Hyprland 会话  : HYPRLAND_INSTANCE_SIGNATURE=sig");
    assert_eq!(
        lines[1],
        "✓ Wayland 协议   : 10/11 globals bound (foreign-toplevel v3, hyprland-export v2)"
    );
    let report = Ok(SocketReport {
        millis: "1.5".into(),
        windows: None,
        monitors: 1,
        workspaces: 2,
    });
    let lines = HyprlandCompositor::doctor_lines_async(&report, true);
    assert_eq!(
        lines[0],
        "✓ hyprctl socket : OK (<1.5ms, ? windows, 1 monitors, 2 workspaces)"
    );
    let lines = HyprlandCompositor::doctor_lines_async(&Err("down".into()), false);
    assert_eq!(lines[0], "⚠ hyprctl socket : down");
    assert!(lines[1].starts_with("⚠ 事件流"));
}

#[test]
fn hyprland_health_and_capabilities() {
    let b = Some(HyprlandBindings::from_bindings(None, None, None, None));
    assert_eq!(HyprlandCompositor::health(1, &b), ComponentHealth::Healthy);
    assert_eq!(
        HyprlandCompositor::health(0, &b),
        ComponentHealth::Degraded("wlr protocols partial; hyprland private OK".into())
    );
    assert_eq!(
        HyprlandCompositor::health(0, &None),
        ComponentHealth::Degraded("no wayland protocols; full portal fallback".into())
    );
    assert_eq!(
        HyprlandCompositor::health(1, &None),
        ComponentHealth::Degraded("private protocols unbound; hyprctl fallback".into())
    );
    let wlr = WlrReport {
        bound: 1,
        foreign_toplevel: false,
        virtual_pointer: true,
    };
    let c = HyprlandCompositor::capabilities(wlr);
    assert!(c.native_input && c.window_management && !c.window_events);
    assert!(matches!(
        unsupported(Unsupported::Minimize),
        AgentShellError::NotImplemented(_)
    ));
}
