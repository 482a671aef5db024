use agent_shell::clipboard::{
    detect_session, probe_tool, Access, SessionKind, ToolOutcome, WlClipboard, XClipboard,
};
use agent_shell::types::{AgentShellError, ComponentHealth};

#[test]
fn detects_session_kind() {
    assert_eq!(
        WlClipboard::with_session(SessionKind::X11).session,
        SessionKind::X11
    );
}

#[test]
fn wayland_goes_before_x11() {
    assert_eq!(detect_session(true, false, true), SessionKind::Wayland);
    assert_eq!(detect_session(false, true, true), SessionKind::Wayland);
    assert_eq!(detect_session(false, false, true), SessionKind::X11);
    assert_eq!(detect_session(false, false, false), SessionKind::Unknown);
    assert!(!WlClipboard::new(false, false, false).is_available());
}

#[test]
fn each_session_has_its_tools() {
    let wl = WlClipboard::with_session(SessionKind::Wayland);
    assert_eq!(wl.tool(Access::Read).unwrap().bin, "wl-paste");
    assert_eq!(wl.tool(Access::Write).unwrap().bin, "wl-copy");
    let x = WlClipboard::with_session(SessionKind::X11);
    let call = x.tool(Access::Read).unwrap();
    assert_eq!(call.bin, "xclip");
    assert_eq!(call.args, vec!["-selection", "clipboard", "-o"]);
    let none = WlClipboard::with_session(SessionKind::Unknown);
    assert!(matches!(
        none.tool(Access::Read),
        Err(AgentShellError::BackendUnavailable(_))
    ));
    assert!(none.health_tool().is_err());
    assert!(XClipboard::new().is_available());
    assert_eq!(XClipboard::default().0.session, SessionKind::X11);
}

#[test]
fn tool_outcomes_become_text_or_errors() {
    let wl = WlClipboard::with_session(SessionKind::Wayland);
    assert_eq!(
        wl.run(Access::Read, &ToolOutcome::Output("héé".as_bytes().to_vec())),
        Ok("héé".to_string())
    );
    assert!(wl.run(Access::Read, &ToolOutcome::NotStarted("no file".to_string())).is_err());
    assert!(wl.run(Access::Write, &ToolOutcome::NoInput).is_err());
    assert!(wl.run(Access::Write, &ToolOutcome::InputFailed("pipe".to_string())).is_err());
    assert!(wl.run(Access::Write, &ToolOutcome::NotAwaited("x".to_string())).is_err());
    let failed = ToolOutcome::Failed {
        status: "exit status: 1".to_string(),
        errors: b"denied".to_vec(),
    };
    assert!(matches!(wl.run(Access::Read, &failed), Err(e) if e.message().contains("denied")));
}

#[test]
fn tool_probe_tells_missing_tools() {
    assert_eq!(probe_tool("wl-paste", Ok(true)), ComponentHealth::Healthy);
    assert!(matches!(probe_tool("wl-paste", Ok(false)), ComponentHealth::Degraded(_)));
}
