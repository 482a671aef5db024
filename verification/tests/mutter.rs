use agent_shell::json::{parse as parse_json, Json};
use agent_shell::mutter::compositor::{
    degrade_wayland_failure, degraded_wayland_protocol_line, select_path, unsupported,
    wayland_display_name, wayland_protocol_line, x11_protocol_line, Channel, GnomePath, Missing,
    MutterCompositor, OpKind, PathStep, SessionKind, WindowRequest,
};
use agent_shell::mutter::display_config::{
    list_monitors, physical_sizes, ApplyMethod, BusValue, DisplayConfig, LogicalMonitor,
    MonitorLayout, MonitorMode, PhysicalMonitor, StateReply,
};
use agent_shell::mutter::error::{
    eval_disabled_hint, MutterError, AGENTSHELL_IFACE, EVAL_DISABLED_HINT_47PLUS,
    EVAL_DISABLED_HINT_PRE47, EXTENSION_ID,
};
use agent_shell::mutter::eval::{js_number, EvalReply, GnomeEvalBridge, LIST_WINDOWS_JS};
use agent_shell::mutter::extension::{
    empty_focus_placeholder, next_event, parse_u32, BusMessage, ExtensionRunner, IntrospectReply,
    SignalBody,
};
use agent_shell::mutter::install::{
    current_shell_major, data_home, dconf_set_enabled, enable, extension_dir, install_dirs,
    install_target, installed_dir, is_enabled, is_installed, is_installed_at,
    metadata_shell_versions, parse_dconf_list, parse_major, run, shell_version_covers,
    shell_version_mismatch, tool_enabled, DirState, EnableWay, RunOutcome,
};
use agent_shell::mutter::parse;
use agent_shell::mutter::version::{
    detect_version, parse_shell_version, resolve_version, GnomeMajor, GnomeVersion, VersionReading,
};
use agent_shell::types::{
    AgentShellError, ComponentHealth, DesktopEnvironment, DesktopEvent, EventSource, Rect,
    WindowId, WindowState,
};
use agent_shell::wayland_core::{WaylandCompositor, WaylandDisplayServer};

fn json(text: &str) -> Json {
    parse_json(text).expect("valid JSON")
}

fn version(raw: &str) -> GnomeVersion {
    parse_shell_version(raw).expect("a version")
}

fn window_id(native_id: &str) -> WindowId {
    WindowId {
        native_id: native_id.to_string(),
        de_type: DesktopEnvironment::GNOME,
    }
}

// --- version ---------------------------------------------------------------

#[test]
fn parses_pre47_version() {
    let v = parse_shell_version("45.2").unwrap();
    assert_eq!(v.full, "45.2");
    assert!(!v.is_47_plus());
    assert!(matches!(v.preferred_path(), GnomeMajor::Pre47));
}

#[test]
fn parses_47plus_version() {
    let v = parse_shell_version("47.0").unwrap();
    assert_eq!(v.full, "47.0");
    assert!(v.is_47_plus());
}

#[test]
fn boundary_is_forty_seven() {
    assert!(!parse_shell_version("46.5").unwrap().is_47_plus());
    assert!(parse_shell_version("47").unwrap().is_47_plus());
    assert!(parse_shell_version("48.beta").unwrap().is_47_plus());
}

#[test]
fn rejects_non_numeric() {
    assert!(parse_shell_version("alpha").is_none());
    assert!(parse_shell_version("").is_none());
}

#[test]
fn version_detection_prefers_the_bus() {
    let v = detect_version(&VersionReading::Text("46.1".to_string()), Some("49".to_string()));
    assert_eq!(v.unwrap().full, "46.1");
    assert!(matches!(
        detect_version(&VersionReading::Unreachable("no bus".to_string()), None),
        Err(MutterError::Version(_))
    ));
    assert!(matches!(
        detect_version(&VersionReading::Text("odd".to_string()), None),
        Err(MutterError::Version(_))
    ));
    let v = resolve_version(Err(MutterError::Version("x".to_string())));
    assert_eq!(v.full, "unknown");
    assert!(v.is_47_plus());
}

// --- errors ----------------------------------------------------------------

#[test]
fn eval_error_maps_to_dbus_with_hint_context() {
    let e = AgentShellError::from(MutterError::Eval("success=false".into()));
    assert!(matches!(e, AgentShellError::DBus(_)));
    let s = e.message();
    assert!(s.contains("eval"), "missing context in {s}");
}

#[test]
fn extension_error_maps_to_backend_unavailable() {
    let e = AgentShellError::from(MutterError::Extension("interface not on bus".into()));
    assert!(matches!(e, AgentShellError::BackendUnavailable(_)));
    assert!(e.message().contains(EXTENSION_ID));
}

#[test]
fn display_config_error_maps_to_dbus() {
    let e = AgentShellError::from(MutterError::DisplayConfig("stale serial".into()));
    assert!(matches!(e, AgentShellError::DBus(_)));
    assert!(e.message().contains("stale serial"));
}

#[test]
fn version_error_maps_to_backend_unavailable() {
    let e = AgentShellError::from(MutterError::Version("no ShellVersion".into()));
    assert!(matches!(e, AgentShellError::BackendUnavailable(_)));
}

#[test]
fn wayland_error_maps_to_backend_unavailable() {
    let e = AgentShellError::from(MutterError::Wayland("NoCompositor".into()));
    assert!(matches!(e, AgentShellError::BackendUnavailable(_)));
    assert!(e.message().contains("mutter wayland"));
}

#[test]
fn eval_disabled_hint_branches_by_version() {
    let pre47 = parse_shell_version("45.2").unwrap();
    let v47 = parse_shell_version("47.0").unwrap();
    assert_eq!(eval_disabled_hint(&pre47), EVAL_DISABLED_HINT_PRE47);
    assert_eq!(eval_disabled_hint(&v47), EVAL_DISABLED_HINT_47PLUS);
}

#[test]
fn eval_disabled_hint_47plus_points_to_extension() {
    assert!(EVAL_DISABLED_HINT_47PLUS.contains(EXTENSION_ID));
    assert!(!EVAL_DISABLED_HINT_47PLUS.contains("developer-tools true"));
    assert!(EVAL_DISABLED_HINT_PRE47.contains("developer-tools true"));
}

// --- evaluated scripts -----------------------------------------------------

#[test]
fn parses_eval_window_payload() {
    let w = json(
        r#"{
            "id": 42, "title": "Editor", "appId": "org.gnome.TextEditor",
            "pid": 1234, "minimized": false, "maximized": true, "fullscreen": false,
            "geometry": {"x": 10, "y": 20, "width": 800, "height": 600},
            "hasFocus": true
        }"#,
    );
    let info = parse::window(&w, 3).expect("window parses");
    assert_eq!(info.id.native_id, "42");
    assert_eq!(info.title, "Editor");
    assert_eq!(info.app_id, "org.gnome.TextEditor");
    assert_eq!(info.pid, 1234);
    assert_eq!(info.stacking_order, 3);
    assert!(matches!(info.states.as_slice(), [WindowState::Maximized]));
    assert_eq!(
        info.geometry,
        Rect {
            x: 10,
            y: 20,
            width: 800,
            height: 600
        }
    );
}

#[test]
fn string_ids_accepted_for_extension_compat() {
    let w = json(r#"{"id": "win-7", "title": "", "appId": "", "pid": 0}"#);
    let info = parse::window(&w, 0).expect("string id parses");
    assert_eq!(info.id.native_id, "win-7");
}

#[test]
fn missing_id_is_rejected() {
    assert!(parse::window(&json(r#"{"title": "x"}"#), 0).is_none());
}

#[test]
fn missing_frame_geometry_falls_back_to_content() {
    let w = json(r#"{"id": 2, "geometry": {"x": 5, "y": 5, "width": 300, "height": 200}}"#);
    let info = parse::window(&w, 0).unwrap();
    assert_eq!(info.frame_geometry.width, 300);
}

#[test]
fn explicit_frame_geometry_wins_over_content() {
    let w = json(
        r#"{
            "id": 1,
            "geometry": {"x": 5, "y": 5, "width": 300, "height": 200},
            "frameGeometry": {"x": 0, "y": 0, "width": 320, "height": 240}
        }"#,
    );
    let info = parse::window(&w, 0).unwrap();
    assert_eq!(info.geometry.width, 300);
    assert_eq!(info.frame_geometry.width, 320);
}

#[test]
fn numeric_ids_only_reach_eval_js() {
    assert_eq!(js_number("12345").unwrap(), "12345");
    assert!(js_number("").is_err());
    assert!(js_number("12; rm -rf /").is_err());
    assert!(js_number("abc").is_err());
    assert!(js_number("-1").is_err());
}

#[test]
fn list_windows_js_mentions_required_api_surface() {
    for needle in ["get_window_actors", "get_frame_rect", "has_focus"] {
        assert!(
            LIST_WINDOWS_JS.contains(needle),
            "LIST_WINDOWS_JS missing `{needle}`"
        );
    }
}

fn done(result: &str) -> EvalReply {
    EvalReply::Done {
        success: true,
        result: result.to_string(),
    }
}

#[test]
fn eval_replies_are_told_apart() {
    let b = GnomeEvalBridge::new(version("45.2"));
    assert!(matches!(
        b.eval_js(&EvalReply::Unreachable("x".to_string())),
        Err(MutterError::Eval(_))
    ));
    assert!(matches!(
        b.eval_js(&EvalReply::Failed("x".to_string())),
        Err(MutterError::Eval(_))
    ));
    assert!(matches!(
        b.eval_js(&EvalReply::Done { success: false, result: "".to_string() }),
        Err(MutterError::Eval(m)) if m.contains("developer-tools true")
    ));
    assert_eq!(b.eval_js(&done("[1]")).unwrap(), json("[1]"));
    assert!(b.probe(&done("1")).is_ok());
    let list = b
        .list_windows(&done(r#"[{"id":1},{"title":"none"},{"id":3,"hasFocus":true}]"#))
        .unwrap();
    assert_eq!(list.len(), 2);
    let active = b
        .get_active_window(&done(r#"[{"id":1},{"id":3,"hasFocus":true}]"#))
        .unwrap();
    assert_eq!(active.unwrap().id.native_id, "3");
}

#[test]
fn eval_scripts_hold_the_number_only() {
    let b = GnomeEvalBridge::new(version("45.2"));
    assert!(b.focus_script("17").unwrap().contains("17"));
    assert!(b.close_script("17").unwrap().contains("17"));
    assert!(b.minimize_script("17", true).is_ok());
    assert!(b.maximize_script("17", false).is_ok());
    assert!(b.focus_script("1)").is_err());
    assert!(b.close_script("x").is_err());
    assert!(b.focus_window("17", &done("\"true\"")).is_ok());
    assert!(b.focus_window("17", &done("\"false\"")).is_err());
}

// --- monitors --------------------------------------------------------------

fn mode(id: &str, width: i32, height: i32, refresh: &str) -> MonitorMode {
    MonitorMode {
        id: id.into(),
        width,
        height,
        refresh: Some(refresh.into()),
    }
}

fn monitor(connector: &str, modes: Vec<MonitorMode>, current: Option<&str>) -> PhysicalMonitor {
    PhysicalMonitor {
        connector: connector.into(),
        vendor: "V".into(),
        product: "P".into(),
        serial: "S".into(),
        modes,
        current_mode: current.map(|c| c.to_string()),
    }
}

#[test]
fn active_mode_size_resolves_current_mode() {
    let pm = monitor(
        "DP-1",
        vec![
            mode("1920x1080@60", 1920, 1080, "60.0"),
            mode("2560x1440@144", 2560, 1440, "144.0"),
        ],
        Some("2560x1440@144"),
    );
    assert_eq!(pm.active_mode_size(), Some((2560, 1440)));
}

#[test]
fn active_mode_size_none_when_id_unknown() {
    let pm = monitor("DP-1", vec![mode("a", 100, 200, "60.0")], Some("missing"));
    assert_eq!(pm.active_mode_size(), None);
}

#[test]
fn physical_monitor_defaults_current_mode_to_first() {
    let pm = monitor("eDP-1", vec![mode("only", 800, 600, "60.0")], None);
    assert_eq!(pm.active_mode_size(), None);
}

#[test]
fn apply_method_values_match_mutter_contract() {
    assert_eq!(ApplyMethod::Verify.as_u32(), 0);
    assert_eq!(ApplyMethod::Temporary.as_u32(), 1);
    assert_eq!(ApplyMethod::Persistent.as_u32(), 2);
}

#[test]
fn layout_defaults_are_empty() {
    let l = MonitorLayout::default();
    assert_eq!(l.serial, 0);
    assert!(l.monitors.is_empty());
    assert!(l.logical_monitors.is_empty());
}

#[test]
fn monitors_take_their_size_from_the_first_connector() {
    let l = MonitorLayout {
        serial: 7,
        monitors: vec![monitor("DP-1", vec![mode("m", 3840, 2160, "60.0")], Some("m"))],
        logical_monitors: vec![
            LogicalMonitor {
                x: 1920,
                y: 0,
                scale: Some("2".into()),
                transform: 0,
                primary: true,
                connectors: vec!["DP-1".into()],
            },
            LogicalMonitor {
                x: 0,
                y: 0,
                scale: Some("1".into()),
                transform: 0,
                primary: false,
                connectors: vec!["HDMI-9".into()],
            },
        ],
    };
    let sizes = physical_sizes(&l);
    assert_eq!(sizes, vec![(3840, 2160), (0, 0)]);
    let list = list_monitors(&l, &vec![(1920, 1080), (0, 0)]);
    assert_eq!(list.len(), 2);
    assert_eq!(list[0].geometry, Rect { x: 1920, y: 0, width: 1920, height: 1080 });
    assert!(list[0].is_primary);
    assert_eq!(list[0].scale.as_deref(), Some("2"));
    assert!(!list[1].is_primary);
}

fn text(s: &str) -> BusValue {
    BusValue::Text(s.to_string())
}

#[test]
fn current_state_is_read_from_the_bus() {
    let c = DisplayConfig::new();
    assert!(matches!(
        c.get_current_state(&StateReply::Unreachable("x".to_string())),
        Err(MutterError::DisplayConfig(m)) if m == "org.gnome.Mutter.DisplayConfig unreachable: x"
    ));
    assert!(c.probe(&StateReply::Failed("x".to_string())).is_err());
    let mode = |id: &str, width: i32, current: bool| {
        BusValue::Struct(vec![
            text(id),
            BusValue::Int(width),
            BusValue::Int(1080),
            BusValue::Fraction("60".to_string()),
            BusValue::Fraction("1".to_string()),
            BusValue::Array(vec![]),
            BusValue::Dict(vec![(text("is-current"), BusValue::Bool(current))]),
        ])
    };
    let modes = || BusValue::Array(vec![mode("a", 1280, false), mode("b", 1920, true)]);
    let nested = BusValue::Struct(vec![
        BusValue::Struct(vec![text("DP-1"), text("V"), text("P"), text("S")]),
        modes(),
        BusValue::Dict(vec![]),
    ]);
    let flat = BusValue::Struct(vec![
        text("DP-2"),
        text("V"),
        text("P"),
        text("S"),
        modes(),
        BusValue::Dict(vec![]),
    ]);
    let region = BusValue::Struct(vec![
        BusValue::Int(0),
        BusValue::Int(0),
        BusValue::Fraction("1.5".to_string()),
        BusValue::Uint(0),
        BusValue::Bool(true),
        BusValue::Array(vec![BusValue::Struct(vec![text("DP-2")])]),
        BusValue::Dict(vec![]),
    ]);
    let monitors = vec![nested, BusValue::Other, flat];
    let reply = StateReply::State(3, monitors, vec![region, BusValue::Other]);
    let l = c.get_current_state(&reply).unwrap();
    assert_eq!(l.serial, 3);
    assert_eq!(l.monitors[0].connector, "DP-1");
    assert_eq!(l.monitors.len(), 2);
    assert_eq!(l.monitors[0].active_mode_size(), Some((1920, 1080)));
    assert_eq!(l.monitors[1].connector, "DP-2");
    assert_eq!(l.monitors[1].current_mode.as_deref(), Some("b"));
    assert_eq!(l.logical_monitors.len(), 1);
    assert_eq!(l.logical_monitors[0].scale.as_deref(), Some("1.5"));
    assert_eq!(l.logical_monitors[0].connectors, vec!["DP-2".to_string()]);
    assert!(c.probe(&reply).is_ok());
    assert!(c.apply_monitors_config(Ok(())).is_ok());
    assert!(matches!(
        c.apply_monitors_config(Err("stale".to_string())),
        Err(MutterError::DisplayConfig(m)) if m == "ApplyMonitorsConfig failed: stale"
    ));
}

// --- extension -------------------------------------------------------------

#[test]
fn parses_numeric_ids_only() {
    assert_eq!(parse_u32("42").unwrap(), 42);
    assert!(parse_u32("-1").is_err());
    assert!(parse_u32("0x10").is_err());
    assert!(parse_u32("").is_err());
}

#[test]
fn extension_answers_are_read() {
    let e = ExtensionRunner::new();
    assert!(e
        .probe(&IntrospectReply::Description(format!(
            "<interface name=\"{AGENTSHELL_IFACE}\">"
        )))
        .is_ok());
    assert!(e.probe(&IntrospectReply::Description("<node/>".to_string())).is_err());
    assert!(e.probe(&IntrospectReply::Failed("x".to_string())).is_err());
    let list = e.list_windows(&Ok(r#"[{"id":"1"},{"id":"2"}]"#.to_string())).unwrap();
    assert_eq!(list[1].stacking_order, 1);
    assert!(e.list_windows(&Ok("[".to_string())).is_err());
    assert!(e.list_windows(&Err("gone".to_string())).is_err());
    assert!(e.get_active_window(&Ok(String::new())).unwrap().is_none());
    assert!(e.get_active_window(&Ok("null".to_string())).is_err());
    assert!(e.call_done(Ok(())).is_ok());
    assert!(matches!(
        e.call_done(Err("gone".to_string())),
        Err(MutterError::Extension(m)) if m.contains("gone")
    ));
}

fn signal(member: &str, body: SignalBody) -> BusMessage {
    BusMessage {
        is_signal: true,
        interface: Some(AGENTSHELL_IFACE.to_string()),
        member: member.to_string(),
        body,
    }
}

#[test]
fn extension_signals_become_events() {
    assert!(matches!(
        next_event(&signal("WindowOpened", SignalBody::Text(r#"{"id":5}"#.to_string()))),
        Some(DesktopEvent::WindowOpened { info, source: EventSource::MutterExtension })
            if info.id.native_id == "5"
    ));
    assert!(matches!(
        next_event(&signal("WindowClosed", SignalBody::Number(5))),
        Some(DesktopEvent::WindowClosed { id, .. }) if id.native_id == "5"
    ));
    assert!(matches!(
        next_event(&signal("ActiveWindowChanged", SignalBody::Text(String::new()))),
        Some(DesktopEvent::WindowFocused { info, .. }) if info == empty_focus_placeholder()
    ));
    assert!(next_event(&signal("WindowClosed", SignalBody::Other)).is_none());
    assert!(next_event(&signal("Other", SignalBody::Number(1))).is_none());
    let mut foreign = signal("WindowClosed", SignalBody::Number(5));
    foreign.interface = Some("org.example".to_string());
    assert!(next_event(&foreign).is_none());
    let mut call = signal("WindowClosed", SignalBody::Number(5));
    call.is_signal = false;
    assert!(next_event(&call).is_none());
}

// --- installation ----------------------------------------------------------

#[test]
fn data_home_prefers_xdg_over_home() {
    assert_eq!(
        data_home(Some("/xdg/data"), Some("/home/u")),
        Some("/xdg/data".to_string())
    );
}

#[test]
fn data_home_falls_back_to_home_local_share() {
    assert_eq!(
        data_home(None, Some("/home/u")),
        Some("/home/u/.local/share".to_string())
    );
}

#[test]
fn data_home_none_when_both_unset() {
    assert_eq!(data_home(None, None), None);
    assert_eq!(data_home(Some(""), Some("")), None);
}

#[test]
fn shell_version_covers_current_major() {
    let versions = vec!["45".to_string(), "49".to_string(), "50".to_string()];
    assert!(shell_version_covers(&versions, Some(50)));
    assert!(shell_version_covers(&versions, Some(45)));
    assert!(shell_version_covers(&versions, None));
    assert!(!shell_version_covers(&versions, Some(51)));
    assert!(!shell_version_covers(&versions, Some(46)));
}

#[test]
fn metadata_shell_versions_parses_array() {
    assert_eq!(
        metadata_shell_versions(r#"{"shell-version":["45","50"]}"#),
        Some(vec!["45".to_string(), "50".to_string()])
    );
    assert_eq!(
        metadata_shell_versions(r#"{"shell-version":[]}"#),
        Some(Vec::new())
    );
    assert_eq!(metadata_shell_versions(r#"{}"#), None);
    assert_eq!(metadata_shell_versions("not json"), None);
}

#[test]
fn parse_major_extracts_leading_number() {
    assert_eq!(parse_major("50.4"), Some(50));
    assert_eq!(parse_major("50"), Some(50));
    assert_eq!(parse_major("abc"), None);
    assert_eq!(parse_major(""), None);
}

#[test]
fn parse_dconf_list_roundtrips_quoted_elements() {
    assert_eq!(
        parse_dconf_list("['a@x', 'b@y']"),
        Some(vec!["a@x".to_string(), "b@y".to_string()])
    );
    assert_eq!(parse_dconf_list("[]"), Some(Vec::new()));
    assert_eq!(parse_dconf_list(""), None);
    assert_eq!(parse_dconf_list("not-a-list"), None);
}

#[test]
fn install_places_are_ordered() {
    let dirs = install_dirs(None, Some("/home/u"));
    let own = extension_dir(None, Some("/home/u")).unwrap();
    assert!(own.starts_with("/home/u/.local/share/"));
    assert!(own.ends_with(EXTENSION_ID));
    assert_eq!(dirs[0], own);
    assert_eq!(install_target(None, Some("/home/u")), Ok(own));
    assert!(install_target(None, None).is_err());
    assert_eq!(current_shell_major(Some("49.1"), Some("GNOME Shell 50.2")), Some(49));
    assert_eq!(current_shell_major(None, Some("GNOME Shell 50.2")), Some(50));
}

#[test]
fn installed_means_present_and_loadable() {
    let place = |versions: &str| DirState {
        dir: "/d".to_string(),
        files_present: true,
        metadata: Some(format!("{{\"shell-version\":[{versions}]}}")),
    };
    assert!(is_installed_at(&place("\"50\""), Some(50)));
    assert!(!is_installed_at(&place("\"49\""), Some(50)));
    let dirs = vec![place("\"49\"")];
    assert!(!is_installed(&dirs, Some(50)));
    assert!(shell_version_mismatch(&dirs, Some(50)));
    assert!(!shell_version_mismatch(&dirs, Some(49)));
    assert_eq!(installed_dir(&dirs), Some("/d".to_string()));
    let absent = vec![DirState { dir: "/d".to_string(), files_present: false, metadata: None }];
    assert_eq!(installed_dir(&absent), None);
    assert!(!shell_version_mismatch(&absent, Some(50)));
}

#[test]
fn enabling_goes_through_the_tool_or_the_list() {
    assert!(enable(false, true).is_err());
    assert_eq!(enable(true, true), Ok(EnableWay::Tool));
    assert_eq!(enable(true, false), Ok(EnableWay::List));
    assert!(tool_enabled(Ok("".to_string())).is_ok());
    assert!(tool_enabled(Err("x".to_string())).is_err());
    let on = dconf_set_enabled(Some("['a@x']"), true);
    assert_eq!(on, format!("['a@x', '{EXTENSION_ID}']"));
    assert!(is_enabled(true, Some(on.as_str()), None));
    assert_eq!(dconf_set_enabled(Some(on.as_str()), true), on);
    assert_eq!(dconf_set_enabled(Some(on.as_str()), false), "['a@x']");
    assert!(!is_enabled(false, Some(on.as_str()), None));
}

#[test]
fn tool_outcomes_are_reported() {
    assert_eq!(run("dconf", RunOutcome::Output(b"ok\n".to_vec())), Ok("ok".to_string()));
    assert!(matches!(
        run("dconf", RunOutcome::Output(vec![0x61, 0xff])),
        Err(m) if m.starts_with("dconf non-utf8 output: ")
    ));
    assert!(matches!(
        run("dconf", RunOutcome::NotStarted("no file".to_string())),
        Err(m) if m.contains("dconf") && m.contains("no file")
    ));
    assert!(matches!(
        run("dconf", RunOutcome::Exited("exit status: 1".to_string())),
        Err(m) if m.contains("dconf") && m.contains("exit status: 1")
    ));
}

// --- the component ---------------------------------------------------------

#[test]
fn session_kind_is_debug_visible() {
    assert_eq!(format!("{:?}", SessionKind::Wayland), "Wayland");
    assert_eq!(format!("{:?}", SessionKind::X11), "X11");
}

#[test]
fn wayland_protocol_line_uses_captured_display_name() {
    let line = wayland_protocol_line("wayland-1", 42);
    assert_eq!(
        line,
        "✓ Wayland 显示  : wayland-1 (wl_display connected, 42 globals)"
    );
}

#[test]
fn degraded_wayland_line_reports_session_display_and_failure() {
    let line = degraded_wayland_protocol_line("wayland-2");
    assert!(line.starts_with("⚠ 协议通道"));
    assert!(line.contains("Wayland 会话 wayland-2 连接失败"));
    assert!(line.contains("仅 D-Bus 可用"));
}

#[test]
fn x11_protocol_line_reports_dbus_only() {
    let line = x11_protocol_line();
    assert!(line.starts_with("⚠ 协议通道"));
    assert!(line.contains("X11 会话无 Wayland 绑定"));
}

#[test]
fn degrade_wayland_failure_maps_error_and_returns_none() {
    let err = AgentShellError::BackendUnavailable("no compositor".into());
    let result = degrade_wayland_failure(Err(err));
    assert!(result.is_none());
}

#[test]
fn display_name_resolution_prefers_wayland_display_then_socket() {
    assert_eq!(
        wayland_display_name(Some("wayland-7".into()), Some("3".into())),
        "wayland-7"
    );
    assert_eq!(wayland_display_name(None, Some("3".into())), "fd:3");
    assert_eq!(wayland_display_name(None, None), "wayland");
    assert_eq!(
        wayland_display_name(Some("".into()), Some("3".into())),
        "fd:3"
    );
}

fn eval_path() -> GnomePath {
    GnomePath::Eval(GnomeEvalBridge::new(version("45.2")))
}

fn extension_path() -> GnomePath {
    GnomePath::Extension(ExtensionRunner::new())
}

#[test]
fn the_preferred_channel_is_tried_first() {
    let broken = || Some(Err(MutterError::Eval("off".to_string())));
    let absent = || Some(Err(MutterError::Extension("absent".to_string())));
    assert!(matches!(
        select_path(GnomeMajor::Pre47, None, None),
        PathStep::Probe(Channel::Eval)
    ));
    assert!(matches!(
        select_path(GnomeMajor::V47Plus, None, None),
        PathStep::Probe(Channel::Extension)
    ));
    assert!(matches!(
        select_path(GnomeMajor::Pre47, Some(Ok(())), None),
        PathStep::Use(Channel::Eval)
    ));
    assert!(matches!(
        select_path(GnomeMajor::Pre47, broken(), None),
        PathStep::Probe(Channel::Extension)
    ));
    assert!(matches!(
        select_path(GnomeMajor::Pre47, broken(), Some(Ok(()))),
        PathStep::Use(Channel::Extension)
    ));
    assert!(matches!(
        select_path(GnomeMajor::Pre47, broken(), absent()),
        PathStep::Fail(MutterError::Extension(_))
    ));
}

#[test]
fn the_session_hands_out_its_connection() {
    let server = WaylandDisplayServer { globals: 12 };
    let c = MutterCompositor::new_wayland(
        Ok(server),
        Some("wayland-3".to_string()),
        None,
        version("45.2"),
        eval_path(),
    );
    assert_eq!(c.session_kind(), SessionKind::Wayland);
    assert_eq!(c.wayland_display_server(), Some(&server));
    assert_eq!(c.display_server().global_count(), 12);
    assert!(c
        .doctor_lines()
        .iter()
        .any(|l| l.contains("wayland-3 (wl_display connected, 12 globals)")));
    assert!(c
        .doctor_lines()
        .iter()
        .any(|l| l.starts_with("✓ 后端路径") && l.ends_with(" (agent-shell-bridge@tsic.top)")));
    let lost = MutterCompositor::new_wayland(
        Err(AgentShellError::BackendUnavailable("no".to_string())),
        None,
        None,
        version("45.2"),
        eval_path(),
    );
    assert!(lost.wayland_display_server().is_none());
    let x11 = MutterCompositor::new_x11(version("45.2"), eval_path());
    assert_eq!(x11.session_kind(), SessionKind::X11);
    assert!(x11.wayland_display_server().is_none());
}

#[test]
fn window_operations_follow_the_channel() {
    let c = MutterCompositor::new_x11(version("45.2"), eval_path());
    assert!(matches!(
        c.window_op(&window_id("9"), OpKind::Close),
        Ok(WindowRequest::Script(s)) if s.contains('9')
    ));
    assert!(c.window_op(&window_id("x"), OpKind::Focus).is_err());
    assert!(c.move_window(&window_id("9"), 1, 2).is_err());
    assert!(c.subscribe().is_err());
    let c = MutterCompositor::new_x11(version("48"), extension_path());
    assert!(matches!(
        c.window_op(&window_id("9"), OpKind::Minimize(true)),
        Ok(WindowRequest::Call(9, OpKind::Minimize(true)))
    ));
    assert!(matches!(
        c.move_window(&window_id("9"), 1, 2),
        Ok(WindowRequest::Move(9, 1, 2))
    ));
    assert!(c.subscribe().is_ok());
    assert!(matches!(unsupported(Missing::Resize), AgentShellError::NotImplemented(_)));
    assert_eq!(c.health(Ok(())), ComponentHealth::Healthy);
    assert!(!matches!(
        c.health(Err(MutterError::Extension("x".to_string()))),
        ComponentHealth::Healthy
    ));
    assert!(c.capabilities().window_management);
}

#[test]
fn the_screensaver_probe_is_remembered() {
    let mut c = MutterCompositor::new_x11(version("48"), extension_path());
    assert!(c.screensaver_wanted());
    assert!(c.ensure_screensaver_probe(Some(true)));
    assert!(!c.screensaver_wanted());
    assert!(c.ensure_screensaver_probe(None));
}
