use agent_shell::json::{int_json, parse, text_json, Json};
use agent_shell::kwin::compositor::{
    EventChannel, KWinCompositor, Operation, Plan, RegistrationOutcome, ScriptCall,
    ScriptingProbe, SessionKind, PROBE_FAIL_PERMANENT, PROBE_FAIL_TRANSIENT, PROBE_OK, PROBE_UNSET,
};
use agent_shell::kwin::dbus_bridge::{
    approximate_event, classify_payload, probe_scripting, read_answer, read_result,
    scripting_interface_advertised, with_request_id, Incoming, ProbeReply, ResponseRouter,
    RunAction, RunEvent, ScriptRun,
};
use agent_shell::kwin::error::KWinError;
use agent_shell::kwin::event_ewmh::{diff_window_sets, initial_client_list, EwmhState, RootChange};
use agent_shell::kwin::event_native::{NativeWindows, WM_MAX, WM_MIN};
use agent_shell::kwin::event_script::{
    after_probe, event_script, probe_deadline, EventScriptHandle, ProbeStep,
};
use agent_shell::kwin::event_source::{map_raw, RawEvent};
use agent_shell::kwin::native::{
    parse_window, parse_windows, KWinNative, Variant, VariantMap, VirtualDesktop,
};
use agent_shell::kwin::scripts::{js_string, push_event, send_result, ScriptTemplate, REQ_ID_TOKEN};
use agent_shell::kwin::version::{
    parse_support_information, resolve_version, version_from_support, KWinMajor, KWinVersion,
};
use agent_shell::kwin::wayland::{
    state_request, Binding, FakeInput, KWinProtocols, StackingOrderReader,
};
use agent_shell::kwin::x11::{EwmhAtoms, X11Window};
use agent_shell::kwin::{event_ewmh, event_native};
use agent_shell::types::{
    AgentShellError, ComponentHealth, DesktopEnvironment, DesktopEvent, EventSource, Rect,
    WindowId, WindowState, WindowType, WorkspaceId,
};

const SCRIPTING_XML: &str = r#"<node>
  <interface name="org.kde.kwin.Scripting">
    <method name="loadScript"/>
  </interface>
</node>"#;

fn json(text: &str) -> Json {
    parse(text).expect("valid JSON")
}

fn window_id(native_id: &str) -> WindowId {
    WindowId {
        native_id: native_id.to_string(),
        de_type: DesktopEnvironment::KDE,
    }
}

fn kwin_6() -> KWinVersion {
    KWinVersion {
        full: "6.0.0".to_string(),
        major: KWinMajor::V6,
    }
}

fn compositor(code: u8) -> KWinCompositor {
    let mut comp = KWinCompositor::for_test(None);
    comp.wayland = true;
    comp.version = kwin_6();
    comp.scripting_probe = code;
    comp
}

fn unreachable_kwin() -> ProbeReply {
    ProbeReply::Unreachable("ServiceUnknown".to_string())
}

fn kwin_without_scripting() -> ProbeReply {
    ProbeReply::NoObject("UnknownObject".to_string())
}

fn kwin_with_scripting() -> ProbeReply {
    ProbeReply::Xml(SCRIPTING_XML.to_string())
}

/// Makes sure of scripting, with a probe where nothing is known of it.
fn observe(comp: &mut KWinCompositor, reply: ProbeReply) -> Result<(), KWinError> {
    match comp.known_probe() {
        Some(answer) => answer,
        None => comp.ensure_scripting_probe(probe_scripting(reply)),
    }
}

fn has_ready_bridge(lines: &[String]) -> bool {
    lines.iter().any(|l| l.contains("✓ D-Bus 桥接"))
}

fn has_not_ready_bridge(lines: &[String]) -> bool {
    lines.iter().any(|l| l.contains("未就绪"))
}

// --- bridge ----------------------------------------------------------------

#[test]
fn event_monitor_payload_routes_to_event_queue_not_router() {
    let router = ResponseRouter::new();
    let script = ScriptTemplate::EventMonitor.render(true, &[]).expect("render");
    assert!(script.contains("JSON.stringify(payload)"), "script: {script}");
    match classify_payload(r#"{"event":"windowOpened","id":"abc-1"}"#) {
        Incoming::Event(v) => assert_eq!(v.get_str("event"), Some("windowOpened")),
        other => panic!("expected an event, got {other:?}"),
    }
    assert!(router.is_empty());
}

#[test]
fn query_payload_with_req_id_routes_to_waiter() {
    let mut router = ResponseRouter::new();
    router.register("req-42".to_string(), 7);
    let reply = "{\"req\": \"req-42\", \"result\": [{\"id\":\"w1\"}]}";
    match classify_payload(reply) {
        Incoming::Result(req) => assert_eq!(router.dispatch(&req), Some(7)),
        other => panic!("expected a result, got {other:?}"),
    }
    assert!(router.is_empty());
}

#[test]
fn probe_matches_full_interface_declaration() {
    let xml = r#"<node>
  <interface name="org.freedesktop.DBus.Introspectable">
    <method name="Introspect"/>
  </interface>
  <interface name="org.kde.kwin.Scripting">
    <method name="loadScript"/>
  </interface>
</node>"#;
    assert!(scripting_interface_advertised(xml));
}

#[test]
fn probe_rejects_xml_without_scripting_interface() {
    let xml = r#"<node>
  <interface name="org.freedesktop.DBus.Introspectable">
    <method name="Introspect"/>
  </interface>
  <interface name="org.kde.KWin.VirtualDesktopManager"/>
</node>"#;
    assert!(!scripting_interface_advertised(xml));
}

#[test]
fn probe_rejects_near_miss_interface_references() {
    let xml = r#"<node>
  <interface name="org.kde.kwin.Scripting.Client">
    <method name="ping"/>
  </interface>
  <annotation name="org.kde.kwin.Scripting.Debug" value="1"/>
</node>"#;
    assert!(!scripting_interface_advertised(xml));
}

#[test]
fn push_event_output_has_no_req_field() {
    let stmt = push_event("{ event: \"x\" }");
    assert!(!stmt.contains("req:"));
    assert!(!stmt.contains(REQ_ID_TOKEN));
}

#[test]
fn probe_replies_map_to_their_errors() {
    assert!(probe_scripting(kwin_with_scripting()).is_ok());
    assert!(matches!(
        probe_scripting(ProbeReply::NoProxy("x".to_string())),
        Err(KWinError::Scripting(m)) if m == "scripting probe build: x"
    ));
    assert!(matches!(
        probe_scripting(unreachable_kwin()),
        Err(KWinError::Scripting(m)) if m.contains("ServiceUnknown") && m.contains("retry later")
    ));
    assert!(matches!(
        probe_scripting(kwin_without_scripting()),
        Err(KWinError::ScriptingUnavailable(_))
    ));
    assert!(matches!(
        probe_scripting(ProbeReply::Xml("<node/>".to_string())),
        Err(KWinError::ScriptingUnavailable(m)) if m.contains("not advertised at /Scripting")
    ));
}

#[test]
fn router_replaces_dispatches_and_abandons() {
    let mut router = ResponseRouter::new();
    router.register("a".to_string(), 1);
    router.register("b".to_string(), 2);
    router.register("a".to_string(), 3);
    assert_eq!(router.dispatch("a"), Some(3));
    assert_eq!(router.dispatch("a"), None);
    router.abandon("b");
    assert_eq!(router.dispatch("b"), None);
    assert!(router.is_empty());
}

#[test]
fn payload_that_is_no_json_is_dropped() {
    assert!(matches!(classify_payload("nope"), Incoming::NotJson(m) if !m.is_empty()));
    // A request id that is no text makes it an event.
    assert!(matches!(classify_payload("{\"req\":1}"), Incoming::Event(_)));
}

#[test]
fn request_id_replaces_every_token() {
    let js = send_result("result");
    let ready = with_request_id(&js, "req-1");
    assert!(ready.contains("req-1"));
    assert!(!ready.contains(REQ_ID_TOKEN));
}

#[test]
fn answers_are_unwrapped_and_checked() {
    assert_eq!(
        read_answer("s.js", "r1", "{\"req\":\"r1\",\"result\":[1,2]}").unwrap(),
        "[1,2]"
    );
    assert!(read_answer("s.js", "r1", "not json").is_err());
    assert!(read_answer("s.js", "r1", "{\"req\":\"r2\",\"result\":1}").is_err());
    assert_eq!(read_answer("s.js", "r1", "{\"req\":\"r1\"}").unwrap(), "null");
    assert_eq!(read_result("s.js", "{\"a\":1}").unwrap(), json("{\"a\":1}"));
    assert!(matches!(
        read_result("s.js", "{"),
        Err(KWinError::InvalidScriptOutput(m)) if m.starts_with("s.js: ")
    ));
}

#[test]
fn script_run_that_answers() {
    let mut run = ScriptRun::new("list_windows.js", "r1");
    assert!(run.step(RunEvent::Started).is_none());
    assert!(matches!(run.step(RunEvent::Loaded), Some(RunAction::Open)));
    assert!(matches!(run.step(RunEvent::Opened), Some(RunAction::Start)));
    assert!(matches!(run.step(RunEvent::Started), Some(RunAction::Wait)));
    assert!(matches!(
        run.step(RunEvent::Reply("{\"req\":\"r1\",\"result\":7}".to_string())),
        Some(RunAction::Stop { abandon: false })
    ));
    assert!(matches!(
        run.step(RunEvent::Stopped),
        Some(RunAction::Finish { abandon: false, result: Ok(r) }) if r == "7"
    ));
    assert!(run.step(RunEvent::Stopped).is_none());
}

#[test]
fn script_run_that_times_out_is_unloaded_and_forgotten() {
    let mut run = ScriptRun::new("list_windows.js", "r1");
    run.step(RunEvent::Loaded);
    run.step(RunEvent::Opened);
    run.step(RunEvent::Started);
    assert!(matches!(
        run.step(RunEvent::Timeout),
        Some(RunAction::Stop { abandon: false })
    ));
    assert!(matches!(
        run.step(RunEvent::Stopped),
        Some(RunAction::Finish {
            abandon: true,
            result: Err(KWinError::ResponseTimeout { script, timeout_secs: 5 }),
        }) if script == "list_windows.js"
    ));
}

#[test]
fn script_run_failures_before_the_reply() {
    let mut run = ScriptRun::new("a.js", "r");
    assert!(matches!(
        run.step(RunEvent::ProxyFailed("p".to_string())),
        Some(RunAction::Finish { abandon: false, result: Err(KWinError::Scripting(m)) })
            if m == "scripting proxy: p"
    ));
    let mut run = ScriptRun::new("a.js", "r");
    assert!(matches!(
        run.step(RunEvent::LoadFailed("l".to_string())),
        Some(RunAction::Finish { abandon: true, result: Err(KWinError::Scripting(m)) })
            if m == "loadScript(a.js): l"
    ));
    let mut run = ScriptRun::new("a.js", "r");
    run.step(RunEvent::Loaded);
    run.step(RunEvent::Opened);
    assert!(matches!(
        run.step(RunEvent::StartFailed("s".to_string())),
        Some(RunAction::Stop { abandon: true })
    ));
    assert!(matches!(
        run.step(RunEvent::Stopped),
        Some(RunAction::Finish { abandon: false, result: Err(KWinError::Scripting(m)) })
            if m == "run(a.js): s"
    ));
}

// --- errors ----------------------------------------------------------------

#[test]
fn protocol_bind_maps_to_backend_unavailable() {
    let e = AgentShellError::from(KWinError::ProtocolBind {
        interface: "org_kde_plasma_window_management",
        reason: "already bound by another client".into(),
    });
    assert!(matches!(e, AgentShellError::BackendUnavailable(_)));
    assert!(e.message().contains("org_kde_plasma_window_management"));
}

#[test]
fn response_timeout_carries_script_and_limit() {
    let e: AgentShellError = KWinError::ResponseTimeout {
        script: "list_windows.js".into(),
        timeout_secs: 5,
    }
    .into();
    assert!(matches!(e, AgentShellError::Timeout(_)));
    assert!(e.message().contains("list_windows.js"));
    assert!(e.message().contains('5'));
}

#[test]
fn fake_input_auth_error_is_permission() {
    let e: AgentShellError = KWinError::FakeInputNotAuthenticated.into();
    assert!(matches!(e, AgentShellError::Permission(_)));
}

// --- events from window manager hints --------------------------------------

#[test]
fn diff_window_sets_detects_added_and_removed() {
    let (added, removed) = diff_window_sets(&[1, 2, 3], &[2, 3, 4]);
    assert_eq!(added, vec![4]);
    assert_eq!(removed, vec![1]);
}

#[test]
fn diff_window_sets_no_change_is_empty() {
    let (added, removed) = diff_window_sets(&[1, 2, 3], &[1, 2, 3]);
    assert!(added.is_empty());
    assert!(removed.is_empty());
}

#[test]
fn diff_window_sets_full_replacement() {
    let (added, removed) = diff_window_sets(&[1], &[2, 3]);
    assert_eq!(added, vec![2, 3]);
    assert_eq!(removed, vec![1]);
}

#[test]
fn map_raw_to_core_maps_open_focus_to_closed_and_skips_others() {
    let opened = event_ewmh::map_raw_to_core(RawEvent::KWinWindowAdded { id: "42".into() });
    let DesktopEvent::WindowClosed { id, source, .. } = opened.unwrap() else {
        panic!("expected WindowClosed for windowOpened");
    };
    assert_eq!(id.native_id, "42");
    assert_eq!(id.de_type, DesktopEnvironment::KDE);
    assert_eq!(source, EventSource::KWinX11);

    let focused = event_ewmh::map_raw_to_core(RawEvent::KWinActiveWindowChanged {
        id: Some("7".into()),
    });
    assert!(matches!(focused, Some(DesktopEvent::WindowClosed { .. })));

    assert!(
        event_ewmh::map_raw_to_core(RawEvent::KWinWindowRemoved { id: "42".into() }).is_none()
    );
    assert!(
        event_ewmh::map_raw_to_core(RawEvent::KWinActiveWindowChanged { id: None }).is_none()
    );
}

#[test]
fn ewmh_state_reports_changes_once() {
    let mut state = EwmhState {
        clients: vec![1, 2],
        active: None,
    };
    let events = state.apply(RootChange::Clients(vec![2, 3]));
    assert_eq!(events.len(), 2);
    assert!(matches!(&events[0], RawEvent::KWinWindowAdded { id } if id == "3"));
    assert!(matches!(&events[1], RawEvent::KWinWindowRemoved { id } if id == "1"));
    assert!(state.apply(RootChange::Clients(vec![2, 3])).is_empty());

    let events = state.apply(RootChange::Active(Some(3)));
    assert!(
        matches!(&events[..], [RawEvent::KWinActiveWindowChanged { id: Some(id) }] if id == "3")
    );
    assert!(state.apply(RootChange::Active(Some(3))).is_empty());
    assert!(state.apply(RootChange::Active(None)).is_empty());
    assert_eq!(state.active, None);
}

#[test]
fn initial_clients_prefer_the_stacking_list() {
    assert_eq!(
        initial_client_list(Some(vec![1]), Some(vec![2])),
        Some(vec![1])
    );
    assert_eq!(initial_client_list(None, Some(vec![2])), Some(vec![2]));
    assert_eq!(initial_client_list(None, None), None);
}

// --- events from the window protocol ---------------------------------------

#[test]
fn wm_version_range_covers_v12_through_v18() {
    assert_eq!(WM_MIN, 12, "get_window_by_uuid requires v12");
    assert_eq!(WM_MAX, 18, "generated interface upper bound is v18");
    assert!((WM_MIN..=WM_MAX).contains(&16));
}

#[test]
fn map_window_added_carries_kde_wayland_source() {
    let evt = event_native::map_raw_to_core(RawEvent::KWinWindowAdded {
        id: "uuid-1".to_string(),
    })
    .expect("KWinWindowAdded must map");
    match evt {
        DesktopEvent::WindowClosed { id, source, .. } => {
            assert_eq!(id.native_id, "uuid-1");
            assert_eq!(id.de_type, DesktopEnvironment::KDE);
            assert_eq!(source, EventSource::KWinWayland);
        }
        _ => panic!("expected WindowClosed"),
    }
}

#[test]
fn map_window_removed_is_skipped() {
    assert!(event_native::map_raw_to_core(RawEvent::KWinWindowRemoved {
        id: "uuid-1".to_string()
    })
    .is_none());
}

#[test]
fn native_windows_remember_what_an_object_stands_for() {
    let mut windows = NativeWindows::new();
    assert!(matches!(
        windows.mapped(5, "u5".to_string()),
        RawEvent::KWinWindowAdded { id } if id == "u5"
    ));
    windows.mapped(6, "u6".to_string());
    assert!(matches!(
        windows.unmapped(5),
        Some(RawEvent::KWinWindowRemoved { id }) if id == "u5"
    ));
    assert!(windows.unmapped(5).is_none());
    assert!(windows.unmapped(6).is_some());
}

// --- events from the resident script ---------------------------------------

#[test]
fn maps_script_pushes_to_raw_events() {
    assert!(matches!(
        map_raw(&json(r#"{"event": "windowOpened", "id": "7"}"#)),
        Some(RawEvent::KWinWindowAdded { id }) if id == "7"
    ));
    assert!(matches!(
        map_raw(&json(r#"{"event": "windowClosed", "id": "7"}"#)),
        Some(RawEvent::KWinWindowRemoved { id }) if id == "7"
    ));
    assert!(matches!(
        map_raw(&json(r#"{"event": "windowFocused", "id": "7"}"#)),
        Some(RawEvent::KWinActiveWindowChanged { id: Some(id) }) if id == "7"
    ));
    assert!(map_raw(&json(r#"{"event": "windowMoved", "id": "7"}"#)).is_none());
    assert!(map_raw(&json(r#"{"event": "windowOpened"}"#)).is_none());
}

#[test]
fn script_pushes_become_desktop_events() {
    let e = approximate_event(&json(r#"{"event": "windowOpened", "id": "7"}"#));
    assert!(matches!(
        e,
        Some(DesktopEvent::WindowClosed { id, source: EventSource::KWinWayland })
            if id.native_id == "7"
    ));
    assert!(approximate_event(&json(r#"{"event": "windowClosed", "id": "7"}"#)).is_none());
    assert!(approximate_event(&json("{}")).is_none());
}

#[test]
fn event_script_probe_gives_up_at_the_deadline() {
    let deadline = probe_deadline(1_000);
    assert!(deadline > 1_000);
    assert_eq!(after_probe(true, deadline, deadline), ProbeStep::Load);
    assert_eq!(after_probe(false, 1_000, deadline), ProbeStep::Retry);
    assert_eq!(after_probe(false, deadline, deadline), ProbeStep::GiveUp);
    assert!(event_script(true).unwrap().contains("workspace.windowAdded.connect"));
}

#[test]
fn event_script_handle_stops_once() {
    let mut h = EventScriptHandle::from_parts("/Scripting/Script3".to_string(), true);
    assert_eq!(h.object_path(), "/Scripting/Script3");
    assert!(h.is_running());
    assert!(h.stop());
    assert!(!h.is_running());
    assert!(!h.stop());
}

// --- the component ---------------------------------------------------------

#[test]
fn session_kind_names() {
    assert_ne!(
        format!("{:?}", SessionKind::Wayland),
        format!("{:?}", SessionKind::X11)
    );
}

fn test_ewmh_atoms() -> EwmhAtoms {
    EwmhAtoms {
        _NET_CLIENT_LIST: 1,
        _NET_CLIENT_LIST_STACKING: 2,
        _NET_ACTIVE_WINDOW: 3,
        _NET_CURRENT_DESKTOP: 4,
        _NET_NUMBER_OF_DESKTOPS: 5,
        _NET_DESKTOP_NAMES: 6,
        _NET_DESKTOP_GEOMETRY: 7,
        _NET_DESKTOP_VIEWPORT: 8,
        _NET_WORKAREA: 9,
        _NET_SUPPORTED: 10,
        _NET_SUPPORTING_WM_CHECK: 11,
        _NET_CLOSE_WINDOW: 12,
        _NET_MOVERESIZE_WINDOW: 13,
        _NET_WM_NAME: 14,
        _NET_WM_STATE: 15,
        _NET_WM_STATE_MAXIMIZED_VERT: 16,
        _NET_WM_STATE_MAXIMIZED_HORZ: 17,
        _NET_WM_STATE_HIDDEN: 18,
        _NET_WM_STATE_FULLSCREEN: 19,
        _NET_WM_STATE_ABOVE: 20,
        _NET_WM_DESKTOP: 21,
        _NET_WM_WINDOW_TYPE: 22,
        _NET_WM_WINDOW_TYPE_NORMAL: 23,
        _NET_WM_WINDOW_TYPE_DIALOG: 24,
        _NET_WM_WINDOW_TYPE_DOCK: 25,
        _NET_WM_WINDOW_TYPE_DESKTOP: 26,
        _NET_WM_WINDOW_TYPE_MENU: 27,
        _NET_WM_WINDOW_TYPE_TOOLTIP: 28,
        _NET_WM_WINDOW_TYPE_SPLASH: 29,
        _NET_WM_WINDOW_TYPE_UTILITY: 30,
        _NET_WM_WINDOW_TYPE_NOTIFICATION: 31,
        _NET_WM_PID: 32,
        UTF8_STRING: 33,
        WM_CLASS: 100,
    }
}

#[test]
fn x11_states_from_atoms_maps_ewmh_states() {
    let atoms = test_ewmh_atoms();
    assert_eq!(
        KWinCompositor::x11_states_from_atoms(&[18], &atoms),
        vec![WindowState::Minimized]
    );
    assert_eq!(
        KWinCompositor::x11_states_from_atoms(&[17], &atoms),
        vec![WindowState::Maximized]
    );
    assert_eq!(
        KWinCompositor::x11_states_from_atoms(&[19], &atoms),
        vec![WindowState::FullScreen]
    );
    assert_eq!(
        KWinCompositor::x11_states_from_atoms(&[], &atoms),
        vec![WindowState::Normal]
    );
    let multi = KWinCompositor::x11_states_from_atoms(&[18, 16], &atoms);
    assert!(multi.contains(&WindowState::Minimized));
    assert!(multi.contains(&WindowState::Maximized));
}

#[test]
fn x11_window_type_from_atoms_maps_known_and_unknown() {
    let atoms = test_ewmh_atoms();
    let of = |list: &[u32]| KWinCompositor::x11_window_type_from_atoms(list, &atoms);
    assert_eq!(of(&[23]), WindowType::Normal);
    assert_eq!(of(&[24]), WindowType::Dialog);
    assert_eq!(of(&[25]), WindowType::Dock);
    assert_eq!(of(&[26]), WindowType::Desktop);
    assert_eq!(of(&[27]), WindowType::DropdownMenu);
    assert_eq!(of(&[28]), WindowType::Tooltip);
    assert_eq!(of(&[29]), WindowType::Splash);
    assert_eq!(of(&[30]), WindowType::Utility);
    assert_eq!(of(&[31]), WindowType::Notification);
    assert_eq!(of(&[]), WindowType::Normal);
    assert_eq!(of(&[999]), WindowType::Unknown);
}

#[test]
fn x11_window_id_parses_decimal_and_rejects_non_numeric() {
    assert_eq!(KWinCompositor::x11_window_id(&window_id("1234")).unwrap(), 1234);
    assert_eq!(KWinCompositor::x11_window_id(&window_id("0")).unwrap(), 0);
    assert!(matches!(
        KWinCompositor::x11_window_id(&window_id("0x1a0")),
        Err(AgentShellError::WindowNotFound(_))
    ));
    assert!(matches!(
        KWinCompositor::x11_window_id(&window_id("")),
        Err(AgentShellError::WindowNotFound(_))
    ));
}

#[test]
fn x11_workspace_id_parses_decimal_and_rejects_non_numeric() {
    let ws = |native_id: &str| WorkspaceId {
        native_id: native_id.to_string(),
        de_type: DesktopEnvironment::KDE,
    };
    assert_eq!(KWinCompositor::x11_workspace_id(&ws("2")).unwrap(), 2);
    assert_eq!(KWinCompositor::x11_workspace_id(&ws("0")).unwrap(), 0);
    assert!(matches!(
        KWinCompositor::x11_workspace_id(&ws("0x1a0")),
        Err(AgentShellError::Other(_))
    ));
    assert!(matches!(
        KWinCompositor::x11_workspace_id(&ws("")),
        Err(AgentShellError::Other(_))
    ));
}

#[test]
fn x11_workspaces_builds_indexed_workspaces() {
    let names = vec!["Web".to_string(), "Code".to_string()];
    let ws = KWinCompositor::x11_workspaces(3, 1, &names);
    assert_eq!(ws.len(), 3);
    assert_eq!(ws[0].id.native_id, "0");
    assert_eq!(ws[0].number, 1);
    assert_eq!(ws[0].name, "Web");
    assert!(!ws[0].is_active);
    assert_eq!(ws[1].id.native_id, "1");
    assert_eq!(ws[1].number, 2);
    assert_eq!(ws[1].name, "Code");
    assert!(ws[1].is_active);
    assert_eq!(ws[2].id.native_id, "2");
    assert_eq!(ws[2].number, 3);
    assert_eq!(ws[2].name, "Desktop 3");
    assert!(!ws[2].is_active);
}

#[test]
fn x11_workspaces_missing_names_fall_back_to_synthetic() {
    let ws = KWinCompositor::x11_workspaces(2, 0, &[]);
    assert_eq!(ws.len(), 2);
    assert_eq!(ws[0].name, "Desktop 1");
    assert_eq!(ws[1].name, "Desktop 2");
    assert!(ws[0].is_active);
}

#[test]
fn x11_windows_keep_their_place_in_the_stack() {
    let atoms = test_ewmh_atoms();
    let window = |n: u32| X11Window {
        window: n,
        title: "t".to_string(),
        class: None,
        pid: Some(9),
        geometry: Rect { x: 1, y: 2, width: 3, height: 4 },
        desktop: Some(1),
        states: vec![20],
        types: None,
    };
    let known = vec![Some(window(10)), None, Some(window(30))];
    let list = KWinCompositor::x11_list_windows(&known, &atoms);
    assert_eq!(list.len(), 2);
    assert_eq!(list[0].id.native_id, "10");
    assert_eq!(list[0].app_id, "t");
    assert!(list[0].keep_above);
    assert_eq!(list[1].id.native_id, "30");
    assert_eq!(list[1].stacking_order, 2);
    assert_eq!(list[1].workspace_id.as_ref().unwrap().native_id, "1");

    assert_eq!(KWinCompositor::x11_stacking_list(vec![], vec![4]), vec![4]);
    assert_eq!(KWinCompositor::x11_stacking_list(vec![5], vec![4]), vec![5]);
    assert_eq!(KWinCompositor::x11_active_order(&[7, 8, 9], 9), 2);
    assert_eq!(
        KWinCompositor::x11_desktop_names(Some("a\0b\0")),
        vec!["a".to_string(), "b".to_string()]
    );
}

#[test]
fn lazy_capabilities_lists_event_streams() {
    let comp = compositor(PROBE_UNSET);
    assert_eq!(
        comp.lazy_capabilities(),
        &["window_events", "workspace_events"]
    );
}

#[test]
fn unset_probe_triggers_probe_and_becomes_ok() {
    let mut comp = compositor(PROBE_UNSET);
    assert_eq!(comp.scripting_probe_state(), ScriptingProbe::Unset);
    assert!(observe(&mut comp, kwin_with_scripting()).is_ok());
    assert_eq!(comp.scripting_probe_state(), ScriptingProbe::Found);
    assert!(has_ready_bridge(&comp.doctor_lines()));
}

#[test]
fn failed_probe_is_retried_and_becomes_ok() {
    let mut comp = compositor(PROBE_UNSET);
    assert!(observe(&mut comp, unreachable_kwin()).is_err());
    assert_eq!(
        comp.scripting_probe_state(),
        ScriptingProbe::FailTransient
    );
    assert!(observe(&mut comp, kwin_with_scripting()).is_ok());
    assert_eq!(comp.scripting_probe_state(), ScriptingProbe::Found);
    assert!(has_ready_bridge(&comp.doctor_lines()));
}

#[test]
fn ok_probe_short_circuits_without_probing() {
    let mut comp = compositor(PROBE_OK);
    assert!(matches!(comp.known_probe(), Some(Ok(()))));
    assert!(observe(&mut comp, unreachable_kwin()).is_ok());
    assert_eq!(comp.scripting_probe_state(), ScriptingProbe::Found);
    assert!(has_ready_bridge(&comp.doctor_lines()));
    // A late failure does not undo it either.
    let late = comp.ensure_scripting_probe(Err(KWinError::Scripting("late".to_string())));
    assert!(matches!(late, Err(KWinError::Scripting(m)) if m == "late"));
    assert_eq!(comp.scripting_probe, PROBE_OK);
}

#[test]
fn failed_probe_remains_failed_when_still_unreachable() {
    let mut comp = compositor(PROBE_FAIL_TRANSIENT);
    assert!(observe(&mut comp, unreachable_kwin()).is_err());
    assert_eq!(
        comp.scripting_probe_state(),
        ScriptingProbe::FailTransient
    );
    let lines = comp.doctor_lines();
    assert!(has_not_ready_bridge(&lines));
    assert!(!has_ready_bridge(&lines));
}

#[test]
fn permanent_probe_failure_self_heals_when_scripting_registers() {
    let mut comp = compositor(PROBE_UNSET);
    assert!(observe(&mut comp, kwin_without_scripting()).is_err());
    assert_eq!(comp.scripting_probe, PROBE_FAIL_PERMANENT);
    assert_eq!(
        comp.scripting_probe_state(),
        ScriptingProbe::FailPermanent
    );
    assert!(observe(&mut comp, kwin_with_scripting()).is_ok());
    assert_eq!(comp.scripting_probe_state(), ScriptingProbe::Found);
    // From now on every call succeeds without a probe.
    for reply in [unreachable_kwin(), kwin_without_scripting()] {
        assert!(observe(&mut comp, reply).is_ok());
        assert_eq!(comp.scripting_probe_state(), ScriptingProbe::Found);
    }
}

fn planned(op: Operation, reply: ProbeReply) -> Result<Plan, AgentShellError> {
    let comp = compositor(PROBE_UNSET);
    assert!(matches!(comp.plan(op, "some-uuid", None), Ok(Plan::Probe)));
    comp.plan(op, "some-uuid", Some(probe_scripting(reply)))
}

#[test]
fn move_window_without_scripting_reports_not_implemented() {
    let err = planned(Operation::MoveWindow, kwin_without_scripting())
        .expect_err("move without /Scripting must fail");
    assert!(
        matches!(err, AgentShellError::NotImplemented(_)),
        "expected NotImplemented, got {err:?}"
    );
    let msg = err.message();
    assert!(msg.contains("Scripting"), "message must name Scripting: {msg}");
    assert!(msg.contains("wayland"), "message must name wayland: {msg}");
}

#[test]
fn move_window_transient_probe_failure_propagates_retry_hint() {
    let err = planned(Operation::MoveWindow, unreachable_kwin())
        .expect_err("move with unreachable KWin must fail");
    assert!(
        !matches!(err, AgentShellError::NotImplemented(_)),
        "transient failure must not be NotImplemented, got {err:?}"
    );
    assert!(err.message().contains("retry"));
}

#[test]
fn resize_window_without_scripting_reports_not_implemented() {
    let err = planned(Operation::ResizeWindow, kwin_without_scripting())
        .expect_err("resize without /Scripting must fail");
    assert!(
        matches!(err, AgentShellError::NotImplemented(_)),
        "expected NotImplemented, got {err:?}"
    );
    assert!(err.message().contains("Scripting"));
}

#[test]
fn resize_window_transient_probe_failure_propagates_retry_hint() {
    let err = planned(Operation::ResizeWindow, unreachable_kwin())
        .expect_err("resize with unreachable KWin must fail");
    assert!(
        !matches!(err, AgentShellError::NotImplemented(_)),
        "transient failure must not be NotImplemented, got {err:?}"
    );
    assert!(err.message().contains("retry"));
}

#[test]
fn focus_window_without_scripting_reports_not_implemented() {
    let err = planned(Operation::FocusWindow, kwin_without_scripting())
        .expect_err("focus without /Scripting and window_mgmt must fail");
    assert!(
        matches!(err, AgentShellError::NotImplemented(_)),
        "expected NotImplemented, got {err:?}"
    );
    assert!(err.message().contains("Scripting"));
}

#[test]
fn list_windows_permanent_missing_uses_native_only() {
    assert_eq!(
        planned(Operation::ListWindows, kwin_without_scripting()),
        Ok(Plan::Native)
    );
}

#[test]
fn list_windows_transient_unreachable_retries_scripting() {
    assert_eq!(
        planned(Operation::ListWindows, unreachable_kwin()),
        Ok(Plan::NativeThenScript)
    );
    let mut run = ScriptRun::new("list_windows.js", "r");
    match run.step(RunEvent::LoadFailed("ServiceUnknown".to_string())) {
        Some(RunAction::Finish { result: Err(e), .. }) => {
            assert!(e.to_shell_error().message().contains("loadScript"))
        }
        other => panic!("expected a failure, got {other:?}"),
    }
}

#[test]
fn list_workspaces_permanent_missing_uses_native_only() {
    assert_eq!(
        planned(Operation::ListWorkspaces, kwin_without_scripting()),
        Ok(Plan::Native)
    );
}

#[test]
fn list_workspaces_transient_unreachable_retries_scripting() {
    assert_eq!(
        planned(Operation::ListWorkspaces, unreachable_kwin()),
        Ok(Plan::NativeThenScript)
    );
    let mut run = ScriptRun::new("list_workspaces.js", "r");
    match run.step(RunEvent::LoadFailed("ServiceUnknown".to_string())) {
        Some(RunAction::Finish { result: Err(e), .. }) => {
            assert!(e.to_shell_error().message().contains("loadScript"))
        }
        other => panic!("expected a failure, got {other:?}"),
    }
}

#[test]
fn plans_with_channels_at_hand() {
    assert_eq!(
        planned(Operation::ListWindows, kwin_with_scripting()),
        Ok(Plan::Script)
    );
    assert_eq!(
        planned(Operation::Subscribe, unreachable_kwin()),
        Ok(Plan::Native)
    );
    let mut comp = compositor(PROBE_UNSET);
    comp.protocols = Some(KWinProtocols::from_bindings(
        Binding::Bound(16),
        Binding::Failed("no".to_string()),
        Binding::Bound(2),
    ));
    assert_eq!(comp.plan(Operation::FocusWindow, "u", None), Ok(Plan::Protocol));
    assert_eq!(comp.plan(Operation::CloseWindow, "u", None), Ok(Plan::Protocol));
    let mut comp = compositor(PROBE_UNSET);
    comp.x11 = true;
    comp.wayland = false;
    assert_eq!(comp.session_kind(), SessionKind::X11);
    assert_eq!(comp.plan(Operation::ListWindows, "", None), Ok(Plan::Ewmh));
    assert_eq!(
        comp.plan(Operation::MoveWindow, "77", None),
        Ok(Plan::EwmhTarget(77))
    );
    assert!(matches!(
        comp.plan(Operation::MoveWindow, "x", None),
        Err(AgentShellError::WindowNotFound(_))
    ));
    assert!(matches!(
        comp.plan(Operation::ActivateWorkspace, "x", None),
        Err(AgentShellError::Other(_))
    ));
}

#[test]
fn doctor_event_script_line_marks_unloaded() {
    let comp = compositor(PROBE_UNSET);
    let lines = comp.doctor_lines();
    assert!(
        lines
            .iter()
            .any(|l| l.contains("⚠ 事件脚本") && l.contains("未加载")),
        "event script line must mark unloaded: {lines:#?}"
    );
    assert!(
        !lines.iter().any(|l| l.contains("T3b")),
        "event script line must not mention T3b: {lines:#?}"
    );
}

#[test]
fn doctor_event_script_line_reports_external_instance() {
    let mut comp = compositor(PROBE_UNSET);
    comp.late_registration = Some(RegistrationOutcome::Ready);
    let lines = comp.doctor_lines();
    assert!(
        lines
            .iter()
            .any(|l| l.contains("⚠ 事件脚本") && l.contains("外部实例已注册")),
        "doctor must report external instance registration: {lines:#?}"
    );
}

#[test]
fn doctor_event_script_line_reports_external_failure() {
    let mut comp = compositor(PROBE_UNSET);
    comp.late_registration = Some(RegistrationOutcome::Failed("boom".to_string()));
    let lines = comp.doctor_lines();
    assert!(
        lines
            .iter()
            .any(|l| l.contains("✗ 事件脚本") && l.contains("外部实例信号注册失败: boom")),
        "doctor must report external instance failure: {lines:#?}"
    );
}

#[test]
fn health_and_capabilities_follow_the_protocols() {
    let comp = compositor(PROBE_UNSET);
    let caps = comp.capabilities();
    assert!(caps.window_management);
    assert!(!caps.native_input);
    assert_eq!(comp.kwin_version().full, "6.0.0");
    assert!(matches!(comp.health(), ComponentHealth::Degraded(_)));
    let mut bound = compositor(PROBE_UNSET);
    bound.protocols = Some(KWinProtocols::from_bindings(
        Binding::Bound(16),
        Binding::Bound(5),
        Binding::Bound(2),
    ));
    assert_eq!(bound.health(), ComponentHealth::Healthy);
}

// --- window descriptions over D-Bus ----------------------------------------

fn s(v: &str) -> Variant {
    Variant::Text(v.to_string())
}

fn map_of(entries: Vec<(&str, Variant)>) -> VariantMap {
    VariantMap {
        entries: entries.into_iter().map(|(k, v)| (k.to_string(), v)).collect(),
    }
}

#[test]
fn parse_window_maps_kwin_native_fields() {
    let map = map_of(vec![
        ("uuid", s("{f8b1-..}")),
        ("caption", s("Terminal")),
        ("resourceClass", s("konsole")),
        ("x", Variant::Int(10)),
        ("y", Variant::Int(20)),
        ("width", Variant::Int(800)),
        ("height", Variant::Int(600)),
        ("minimized", Variant::Bool(false)),
        ("maximizeHorizontal", Variant::Bool(false)),
        ("maximizeVertical", Variant::Bool(false)),
        ("fullscreen", Variant::Bool(true)),
        ("keepAbove", Variant::Bool(true)),
        ("desktopFile", s("org.kde.konsole.desktop")),
        ("type", Variant::Int(0)),
        ("desktops", Variant::Texts(vec![Some("vd-uuid-1".to_string())])),
    ]);
    let w = parse_window(&map, 3).expect("window must parse");
    assert_eq!(w.id.native_id, "{f8b1-..}");
    assert_eq!(w.title, "Terminal");
    assert_eq!(w.app_id, "konsole");
    assert_eq!(w.pid, 0);
    assert_eq!(w.geometry.x, 10);
    assert_eq!(w.geometry.y, 20);
    assert_eq!(w.geometry.width, 800);
    assert_eq!(w.geometry.height, 600);
    assert_eq!(w.stacking_order, 3);
    assert!(w.states.contains(&WindowState::FullScreen));
    assert!(!w.states.contains(&WindowState::Minimized));
    assert!(w.keep_above);
    assert_eq!(
        w.workspace_id.as_ref().map(|w| w.native_id.as_str()),
        Some("vd-uuid-1")
    );
    assert_eq!(w.window_type, WindowType::Normal);
}

#[test]
fn window_type_maps_integer_enum() {
    let map = map_of(vec![("uuid", s("u-1")), ("type", Variant::Int(13))]);
    assert_eq!(
        parse_window(&map, 0).unwrap().window_type,
        WindowType::Notification
    );
    let map = map_of(vec![("uuid", s("u-1")), ("type", s("normal"))]);
    assert_eq!(
        parse_window(&map, 0).unwrap().window_type,
        WindowType::Unknown
    );
}

#[test]
fn parse_window_without_uuid_is_none() {
    let map = map_of(vec![("caption", s("orphan"))]);
    assert!(parse_window(&map, 0).is_none());
}

#[test]
fn parse_window_defaults_missing_fields() {
    let map = map_of(vec![("uuid", s("u-1"))]);
    let w = parse_window(&map, 0).expect("minimal window");
    assert_eq!(w.geometry, Rect::default());
    assert_eq!(w.states, vec![WindowState::Normal]);
    assert_eq!(w.title, "");
    assert_eq!(w.pid, 0);
    assert_eq!(w.window_type, WindowType::Unknown);
}

#[test]
fn native_lists_skip_what_is_gone() {
    let maps = vec![
        map_of(vec![("uuid", s("a"))]),
        map_of(vec![("caption", s("orphan"))]),
        map_of(vec![("uuid", s("c"))]),
    ];
    let list = parse_windows(&maps);
    assert_eq!(list.len(), 2);
    assert_eq!(list[1].id.native_id, "c");

    let desktops = vec![
        VirtualDesktop { position: 0, id: "d0".to_string(), name: "One".to_string() },
        VirtualDesktop { position: 1, id: "d1".to_string(), name: "Two".to_string() },
    ];
    let ws = KWinNative::workspaces(&desktops, "d1");
    assert_eq!(ws[0].number, 1);
    assert!(!ws[0].is_active);
    assert_eq!(ws[1].name, "Two");
    assert!(ws[1].is_active);
}

// --- scripts ---------------------------------------------------------------

fn render_v6(tpl: ScriptTemplate, args: &[(&str, Json)]) -> String {
    tpl.render(true, args).expect("render should succeed")
}

#[test]
fn all_templates_render_without_args_or_with_expected_args() {
    for tpl in [
        ScriptTemplate::ListWindows,
        ScriptTemplate::GetActiveWindow,
        ScriptTemplate::ListWorkspaces,
        ScriptTemplate::ListMonitors,
        ScriptTemplate::EventMonitor,
    ] {
        let _ = tpl
            .render(true, &[])
            .unwrap_or_else(|_| panic!("{}", tpl.file_name()));
        let _ = tpl
            .render(false, &[])
            .unwrap_or_else(|_| panic!("{}", tpl.file_name()));
    }
    assert!(ScriptTemplate::FocusWindow.render(true, &[]).is_err());
}

#[test]
fn list_windows_uses_desktops_array_on_v6_and_int_on_v5() {
    let v6 = render_v6(ScriptTemplate::ListWindows, &[]);
    assert!(v6.contains("w.desktops && w.desktops.length"));
    let v5 = ScriptTemplate::ListWindows.render(false, &[]).unwrap();
    assert!(v5.contains("typeof w.desktop === \"number\""));
}

#[test]
fn move_window_substitutes_geometry() {
    let script = render_v6(
        ScriptTemplate::MoveWindow,
        &[("ID", text_json("abcd")), ("X", int_json(100)), ("Y", int_json(50))],
    );
    assert!(script.contains("\"abcd\""));
    assert!(script.contains("x: 100, y: 50"));
    assert!(!script.contains("%ID%"));
}

#[test]
fn window_id_is_injection_safe() {
    let payload = "x\"); malicious(); (\"";
    let script = render_v6(ScriptTemplate::FocusWindow, &[("ID", text_json(payload))]);
    let mut needle = String::from("\"");
    for c in payload.chars() {
        if c == '"' {
            needle.push_str("\\\"");
        } else {
            needle.push(c);
        }
    }
    needle.push('"');
    assert!(
        script.contains(&needle),
        "escaped payload not found verbatim; script: {script}"
    );
}

#[test]
fn event_monitor_never_sends_final_result_but_registers_signals() {
    let script = render_v6(ScriptTemplate::EventMonitor, &[]);
    assert!(script.contains("workspace.windowAdded.connect"));
    assert!(script.contains("workspace.windowRemoved.connect"));
    assert!(script.contains("workspace.activeWindowChanged.connect"));
    assert!(!script.contains("JSON.stringify(result)"));
}

#[test]
fn event_monitor_pushes_bare_json_without_req_field() {
    let script = render_v6(ScriptTemplate::EventMonitor, &[]);
    assert!(!script.contains(REQ_ID_TOKEN));
    assert!(!script.contains("req:"));
    assert!(script.contains("JSON.stringify(payload)"));

    let query = render_v6(ScriptTemplate::ListWindows, &[]);
    assert!(query.contains("req:"));
    assert!(query.contains(REQ_ID_TOKEN));
}

#[test]
fn maximize_uses_setmaximize_when_available() {
    let script = render_v6(
        ScriptTemplate::MaximizeWindow,
        &[("ID", text_json("u1")), ("NUM", int_json(1))],
    );
    assert!(script.contains("setMaximize(true, true)"));
    assert!(script.contains("maximizeMode = 3"));
}

#[test]
fn unknown_arg_key_errors() {
    assert!(ScriptTemplate::ListWindows
        .render(true, &[("NOPE", text_json("x"))])
        .is_err());
}

#[test]
fn string_arg_not_double_quoted() {
    let script = render_v6(ScriptTemplate::FocusWindow, &[("ID", text_json("abc-123"))]);
    assert!(
        script.contains("=== \"abc-123\""),
        "single-quoted string literal not found; script: {script}"
    );
    assert!(
        !script.contains("\"\"abc-123\"\""),
        "double-quoted string literal leaked through; script: {script}"
    );
}

#[test]
fn workspace_arg_not_double_quoted_v6() {
    let script = render_v6(ScriptTemplate::SwitchWorkspace, &[("WS", text_json("desk-42"))]);
    assert!(
        script.contains("=== \"desk-42\""),
        "single-quoted workspace id not found; script: {script}"
    );
    assert!(
        !script.contains("\"\"desk-42\"\""),
        "double-quoted workspace id leaked through; script: {script}"
    );
}

#[test]
fn workspace_arg_not_double_quoted_v5() {
    let script = ScriptTemplate::SwitchWorkspace
        .render(false, &[("WS", text_json("3"))])
        .unwrap();
    assert!(
        script.contains("parseInt(\"3\", 10)"),
        "single-quoted parseInt arg not found; script: {script}"
    );
    assert!(
        !script.contains("parseInt(\"\"3\"\", 10)"),
        "double-quoted parseInt arg leaked through; script: {script}"
    );
}

#[test]
fn geometry_templates_use_plain_object_not_qt_rect() {
    let move_script = render_v6(
        ScriptTemplate::MoveWindow,
        &[("ID", text_json("w1")), ("X", int_json(10)), ("Y", int_json(20))],
    );
    assert!(
        move_script.contains("frameGeometry = { x: 10, y: 20"),
        "move must use plain JS object; script: {move_script}"
    );
    assert!(
        !move_script.contains("Qt.rect"),
        "move must not use Qt.rect; script: {move_script}"
    );

    let resize_script = render_v6(
        ScriptTemplate::ResizeWindow,
        &[("ID", text_json("w1")), ("W", int_json(800)), ("H", int_json(600))],
    );
    assert!(
        resize_script.contains("frameGeometry = { x: g.x, y: g.y, width: 800, height: 600 }"),
        "resize must use plain JS object; script: {resize_script}"
    );
    assert!(
        !resize_script.contains("Qt.rect"),
        "resize must not use Qt.rect; script: {resize_script}"
    );

    let set_geom = render_v6(
        ScriptTemplate::SetWindowGeometry,
        &[
            ("ID", text_json("w1")),
            ("X", int_json(0)),
            ("Y", int_json(0)),
            ("W", int_json(1920)),
            ("H", int_json(1080)),
        ],
    );
    assert!(
        set_geom.contains("frameGeometry = { x: 0, y: 0, width: 1920, height: 1080 }"),
        "set_geometry must use plain JS object; script: {set_geom}"
    );
    assert!(
        !set_geom.contains("Qt.rect"),
        "set_geometry must not use Qt.rect; script: {set_geom}"
    );
}

#[test]
fn close_template_uses_closewindow_not_close() {
    let script = render_v6(ScriptTemplate::CloseWindow, &[("ID", text_json("w1"))]);
    assert!(
        script.contains("w.closeWindow()"),
        "close must use closeWindow(); script: {script}"
    );
    assert!(
        !script.contains("w.close()"),
        "close must not use w.close(); script: {script}"
    );
}

#[test]
fn js_strings_escape_what_would_end_them() {
    assert_eq!(js_string("a\"b\\c"), "\"a\\\"b\\\\c\"");
    assert_eq!(js_string(""), "\"\"");
}

#[test]
fn script_calls_render_with_their_arguments() {
    let call = ScriptCall::SetGeometry {
        id: "w".to_string(),
        geo: Rect { x: 1, y: -2, width: 3, height: 4 },
    };
    let (tpl, args) = call.arguments();
    let script = tpl.render(true, &args).unwrap();
    assert!(script.contains("frameGeometry = { x: 1, y: -2, width: 3, height: 4 }"));
    for call in [
        ScriptCall::Focus { id: "w".to_string() },
        ScriptCall::Move { id: "w".to_string(), x: 1, y: 2 },
        ScriptCall::Resize { id: "w".to_string(), w: 1, h: 2 },
        ScriptCall::Minimize { id: "w".to_string(), on: false },
        ScriptCall::Maximize { id: "w".to_string() },
        ScriptCall::Close { id: "w".to_string() },
        ScriptCall::SwitchWorkspace { ws: "d".to_string() },
        ScriptCall::MoveToWorkspace { id: "w".to_string(), ws: "d".to_string() },
    ] {
        let (tpl, args) = call.arguments();
        for v6 in [true, false] {
            let script = tpl.render(v6, &args).expect("complete arguments");
            assert!(!script.contains("%ID%"), "{}", tpl.file_name());
        }
    }
}

#[test]
fn a_percent_sign_in_an_identifier_is_refused() {
    let call = ScriptCall::Focus { id: "50% done".to_string() };
    let (tpl, args) = call.arguments();
    let refused = tpl.render(true, &args);
    assert!(matches!(refused, Err(KWinError::Scripting(m)) if m.starts_with(
        "unresolved placeholder in rendered script:  done\"; });"
    )));
}

#[test]
fn script_output_becomes_windows_and_workspaces() {
    let v = json(
        r#"[{"id":"a","caption":"A","frameGeometry":{"x":1,"y":2,"width":3,"height":4}},
            {"caption":"none"},{"id":"c"}]"#,
    );
    let ws = KWinCompositor::windows_from_script(&v);
    assert_eq!(ws.len(), 2);
    assert_eq!(ws[0].id.native_id, "a");
    assert!(KWinCompositor::active_from_script(&Json::Null).is_none());
    assert_eq!(
        KWinCompositor::active_from_script(&json(r#"{"id":"z"}"#)).unwrap().id.native_id,
        "z"
    );
    assert!(KWinCompositor::check_op(&json(r#"{"success":true}"#)).is_ok());
    assert!(KWinCompositor::check_op(&json(r#"{"success":false,"error":"gone"}"#)).is_err());
}

// --- version ---------------------------------------------------------------

#[test]
fn parses_kwin_version_prefix() {
    let v = parse_support_information(
        "Qt version: 5.15.2\nKWin version: 5.27.10\nBuild flags: ...",
    )
    .unwrap();
    assert_eq!(v.full, "5.27.10");
    assert!(!v.is_v6());
}

#[test]
fn parses_plain_version_line() {
    let v = parse_support_information("Version: 6.1.4\n...").unwrap();
    assert_eq!(v.full, "6.1.4");
    assert!(v.is_v6());
}

#[test]
fn returns_none_without_version_line() {
    assert!(parse_support_information("no useful lines here").is_none());
}

#[test]
fn v5_v6_boundary_is_six() {
    let v5 = parse_support_information("KWin version: 5.27").unwrap();
    let v6 = parse_support_information("KWin version: 6.0").unwrap();
    assert!(!v5.is_v6());
    assert!(v6.is_v6());
}

#[test]
fn parses_realistic_support_information_blob() {
    let blob = "\
KWin version: 6.7.4
Qt Version: 6.7.2
Qt Platform: wayland
Build type: Release
Build options: ...
 ";
    let v = parse_support_information(blob).unwrap();
    assert_eq!(v.full, "6.7.4");
    assert!(v.is_v6());
}

#[test]
fn parses_support_information_with_trailing_whitespace() {
    let v = parse_support_information("KWin version:   5.27.11  \n").unwrap();
    assert_eq!(v.full, "5.27.11");
    assert!(!v.is_v6());
}

#[test]
fn parses_lowercase_version_prefix() {
    let v = parse_support_information("version: 6.2.0\n").unwrap();
    assert_eq!(v.full, "6.2.0");
    assert!(v.is_v6());
}

#[test]
fn returns_none_for_non_numeric_version_token() {
    assert!(parse_support_information("KWin version: unknown\n").is_none());
}

#[test]
fn version_falls_back_to_the_environment() {
    assert!(version_from_support("nothing").is_err());
    let v = resolve_version(version_from_support("nothing"), Some("5".to_string()));
    assert_eq!(v.major, KWinMajor::V5);
    let v = resolve_version(version_from_support("KWin version: 5.27"), Some("6".to_string()));
    assert_eq!(v.major, KWinMajor::V5);
}

// --- protocols -------------------------------------------------------------

#[test]
fn refused_bindings_report_zero_bound() {
    let p = KWinProtocols::from_bindings(
        Binding::Failed("a".to_string()),
        Binding::Failed("b".to_string()),
        Binding::Failed("c".to_string()),
    );
    assert_eq!(p.bound_count(), 0);
    assert!(!p.can_inject());
    assert_eq!(p.bind_failures().len(), 3);
    assert_eq!(p.bind_failures()[1].1, "b");
}

#[test]
fn fake_input_needs_its_purpose_declared() {
    let mut f = FakeInput::new();
    assert!(matches!(f.ensure_authenticated(), Err(AgentShellError::Permission(_))));
    f.authenticate();
    assert!(f.is_authenticated());
    assert!(f.ensure_authenticated().is_ok());
    assert_eq!(state_request(4, true), (4, 4));
    assert_eq!(state_request(4, false), (4, 0));
}

#[test]
fn stacking_order_keeps_order_until_done() {
    let mut r = StackingOrderReader::new();
    r.window("a".to_string());
    r.window("b".to_string());
    assert!(!r.done());
    r.finish();
    assert!(r.done());
    assert_eq!(r.uuids(), &vec!["a".to_string(), "b".to_string()]);
}

// --- assembly and events ----------------------------------------------------

fn no_display() -> AgentShellError {
    AgentShellError::Other("no display".to_string())
}

fn no_bridge() -> KWinError {
    KWinError::Scripting("session bus connect: refused".to_string())
}

fn bound_protocols() -> KWinProtocols {
    KWinProtocols::from_bindings(Binding::Bound(18), Binding::Bound(5), Binding::Bound(2))
}

#[test]
fn wayland_session_works_with_either_channel() {
    let both = KWinCompositor::new_wayland(Ok(bound_protocols()), Ok(()), kwin_6()).unwrap();
    assert_eq!(both.session_kind(), SessionKind::Wayland);
    assert!(both.protocols.is_some());
    let display_only =
        KWinCompositor::new_wayland(Ok(bound_protocols()), Err(no_bridge()), kwin_6()).unwrap();
    assert!(display_only.wayland);
    let bridge_only =
        KWinCompositor::new_wayland(Err(no_display()), Ok(()), kwin_6()).unwrap();
    assert!(!bridge_only.wayland && bridge_only.protocols.is_none());
    let neither = KWinCompositor::new_wayland(Err(no_display()), Err(no_bridge()), kwin_6());
    assert!(matches!(
        neither,
        Err(KWinError::Scripting(m)) if m == no_display().message()
    ));
}

#[test]
fn x11_session_needs_both_channels() {
    let x11 = KWinCompositor::new_x11(Ok(()), Ok(()), kwin_6()).unwrap();
    assert_eq!(x11.session_kind(), SessionKind::X11);
    assert!(x11.x11);
    assert!(matches!(
        KWinCompositor::new_x11(Ok(()), Err(no_bridge()), kwin_6()),
        Err(KWinError::Scripting(m)) if m == "session bus connect: refused"
    ));
    assert!(matches!(
        KWinCompositor::new_x11(Err(no_display()), Ok(()), kwin_6()),
        Err(KWinError::Scripting(m)) if m == no_display().message()
    ));
}

#[test]
fn injected_probe_states() {
    assert_eq!(
        KWinCompositor::for_test(None).scripting_probe_state(),
        ScriptingProbe::Unset
    );
    assert_eq!(
        KWinCompositor::for_test(Some(false)).scripting_probe_state(),
        ScriptingProbe::FailTransient
    );
    assert!(KWinCompositor::for_test(Some(true)).known_probe().is_some());
}

#[test]
fn events_of_a_channel_are_handed_out_once() {
    let mut comp = compositor(PROBE_OK);
    assert!(comp.claim_events(EventChannel::Script).is_ok());
    assert!(matches!(
        comp.claim_events(EventChannel::Script),
        Err(AgentShellError::BackendUnavailable(m)) if m == "kwin event stream already subscribed"
    ));
    assert!(comp.claim_events(EventChannel::Native).is_ok());
    assert!(matches!(
        comp.claim_events(EventChannel::Native),
        Err(AgentShellError::BackendUnavailable(m))
            if m == "kwin native event stream already subscribed"
    ));
    let mut x11 = KWinCompositor::new_x11(Ok(()), Ok(()), kwin_6()).unwrap();
    assert!(matches!(
        x11.claim_events(EventChannel::Native),
        Err(AgentShellError::BackendUnavailable(m)) if m == "no wayland display (X11 session)"
    ));
    assert!(x11.claim_events(EventChannel::Ewmh).is_ok());
    assert!(matches!(
        x11.claim_events(EventChannel::Ewmh),
        Err(AgentShellError::BackendUnavailable(m))
            if m == "kwin ewmh event stream already subscribed"
    ));
}

#[test]
fn event_sources_are_named_and_placed() {
    let wayland = compositor(PROBE_OK);
    let x11 = KWinCompositor::new_x11(Ok(()), Ok(()), kwin_6()).unwrap();
    assert_eq!(EventChannel::Script.source_name(), "kwin-scripting");
    assert_eq!(EventChannel::Ewmh.source_name(), "kwin-ewmh");
    assert_eq!(EventChannel::Native.source_name(), "kwin-wayland-native");
    assert_eq!(
        wayland.source_kind(EventChannel::Script),
        EventSource::KWinWayland
    );
    assert_eq!(x11.source_kind(EventChannel::Script), EventSource::KWinX11);
    assert_eq!(x11.source_kind(EventChannel::Ewmh), EventSource::KWinX11);
}

#[test]
fn failed_event_script_is_reported_and_started_again() {
    let mut comp = compositor(PROBE_OK);
    assert!(comp.event_script_due());
    let failed = comp.ensure_event_monitor(Err(KWinError::Scripting("boom".to_string())));
    assert!(failed.is_err());
    assert!(comp.event_script_due());
    assert!(comp
        .doctor_lines()
        .iter()
        .any(|l| l.contains("signal registration failed: KWin scripting error: boom")));
    let handle = EventScriptHandle::from_parts("/Scripting/Script7".to_string(), true);
    assert!(comp.ensure_event_monitor(Ok(handle)).is_ok());
    assert!(!comp.event_script_due());
    assert!(comp
        .doctor_lines()
        .iter()
        .any(|l| l.contains("signals registered")));
    assert_eq!(
        comp.shutdown_event_script(),
        Some("/Scripting/Script7".to_string())
    );
    assert_eq!(comp.shutdown_event_script(), None);
}

#[test]
fn native_enumeration_needs_protocols_and_a_snapshot() {
    let comp = KWinCompositor::new_wayland(Ok(bound_protocols()), Ok(()), kwin_6()).unwrap();
    assert_eq!(
        comp.native_uuids(Some(vec!["u1".to_string()])).unwrap(),
        vec!["u1".to_string()]
    );
    assert!(matches!(
        comp.native_uuids(None),
        Err(AgentShellError::BackendUnavailable(m)) if m.contains("no stacking order snapshot")
    ));
    let x11 = KWinCompositor::new_x11(Ok(()), Ok(()), kwin_6()).unwrap();
    assert!(matches!(
        x11.native_uuids(Some(Vec::new())),
        Err(AgentShellError::BackendUnavailable(m)) if m.contains("X11 session uses EWMH")
    ));
}

#[test]
fn workspace_numbers_become_desktop_ids() {
    let desktop = |position: u32, id: &str| VirtualDesktop {
        position,
        id: id.to_string(),
        name: String::new(),
    };
    let desktops = vec![desktop(0, "uuid-a"), desktop(1, "uuid-b")];
    assert_eq!(KWinNative::target(&desktops, "uuid-b").unwrap(), "uuid-b");
    assert_eq!(KWinNative::target(&desktops, "1").unwrap(), "uuid-a");
    assert_eq!(KWinNative::target(&desktops, "2").unwrap(), "uuid-b");
    assert!(matches!(
        KWinNative::target(&desktops, "3"),
        Err(AgentShellError::Other(m)) if m == "unknown workspace id: 3"
    ));
    assert!(KWinNative::target(&desktops, "nope").is_err());
}

#[test]
fn remapped_window_keeps_one_entry() {
    let mut windows = NativeWindows::new();
    windows.mapped(5, "u".to_string());
    windows.mapped(9, "u".to_string());
    assert!(windows.unmapped(5).is_none());
    assert!(matches!(
        windows.unmapped(9),
        Some(RawEvent::KWinWindowRemoved { id }) if id == "u"
    ));
    assert!(windows.objects.is_empty());
}

#[test]
fn resident_script_needs_no_arguments_and_no_request() {
    for v6 in [true, false] {
        let js = event_script(v6).unwrap();
        assert!(js.contains("windowAdded"));
        assert!(!js.contains(REQ_ID_TOKEN));
    }
}
