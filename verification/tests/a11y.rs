use std::collections::HashMap;

use agent_shell::a11y::action::{ElementActions, MouseButton, NoPointerInput, PointerInput, Step};
use agent_shell::a11y::atspi_bridge::{
    application_of, call_error, child_of, connect_error, is_alive, not_activatable,
    should_probe_address, window_of, AtspiBridge, ConnectStep, BUS_SERVICE, MAX_TRAVERSE_DEPTH,
    REGISTRY_SERVICE, ROOT_PATH,
};
use agent_shell::a11y::component::AtSpiComponent;
use agent_shell::a11y::semantic_locator::{
    plan, settle, Ask, Search, SemanticLocator, SemanticTarget, Walk, MAX_SEARCH_RESULTS,
};
use agent_shell::a11y::tree::{ApplicationNode, AtspiRole, AtspiState, ElementNode, WindowNode};
use agent_shell::types::{AgentShellError, ComponentHealth, Rect};

fn element_on_bus(bus: &str, path: &str, role_name: &str, name: &str) -> ElementNode {
    ElementNode {
        bus_name: bus.into(),
        path: path.into(),
        name: name.into(),
        role: AtspiRole {
            code: 43,
            name: role_name.into(),
        },
        states: AtspiState(0),
    }
}

fn element_at(path: &str, role_name: &str, name: &str) -> ElementNode {
    element_on_bus(":1.0", path, role_name, name)
}

fn window(bus: &str, path: &str, states: u64) -> WindowNode {
    WindowNode {
        bus_name: bus.into(),
        path: path.into(),
        name: path.into(),
        states: AtspiState(states),
    }
}

/// Windows, the elements that they are, and what stands below each path.
struct FakeWindows {
    windows: Vec<(&'static str, String)>,
    roots: HashMap<String, ElementNode>,
    children: HashMap<String, Vec<ElementNode>>,
}

impl FakeWindows {
    fn search(&self, mut search: Search) -> Result<Vec<ElementNode>, AgentShellError> {
        let windows = self.windows.iter().map(|(b, p)| window(b, p, 0)).collect();
        let mut ask = search.on_windows(Ok(windows));
        loop {
            ask = match ask {
                Ask::Element(w) => search.on_element(
                    self.roots
                        .get(&w.path)
                        .cloned()
                        .ok_or_else(|| AgentShellError::WindowNotFound(w.path.clone())),
                ),
                Ask::Children(node) => {
                    let below = self.children.get(&node.path).cloned();
                    search.on_children(Ok(below.unwrap_or_default()))
                }
                Ask::Done(found) => return found,
            };
        }
    }

    fn locate_by_path(
        &self,
        bus: Option<&str>,
        path: &str,
    ) -> Result<ElementNode, AgentShellError> {
        let search =
            SemanticLocator::new().locate_by_path(bus.map(|b| b.to_string()), path.to_string());
        settle(&self.search(search)?, path)
    }
}

fn enumerate(mut walk: Walk, children: &HashMap<String, Vec<ElementNode>>) -> Vec<ElementNode> {
    while let Some(node) = walk.advance() {
        walk.feed(Ok(children.get(&node.path).cloned().unwrap_or_default()));
    }
    walk.finish()
}

fn fake_tree() -> HashMap<String, Vec<ElementNode>> {
    let mut children = HashMap::new();
    children.insert(
        "/root".to_string(),
        vec![
            element_at("/root/btn1", "push button", "OK"),
            element_at("/root/btn2", "push button", "Cancel"),
            element_at("/root/panel", "panel", "pane"),
        ],
    );
    children.insert(
        "/root/panel".to_string(),
        vec![element_at("/root/panel/text", "text", "hello")],
    );
    children
}

#[test]
fn placeholder_input_errors_instead_of_noop() {
    let input = NoPointerInput;
    let move_err = input.mouse_move(10, 10).unwrap_err();
    assert!(matches!(move_err, AgentShellError::NotImplemented(_)));
    let click_err = input.mouse_click(MouseButton::Left).unwrap_err();
    assert!(matches!(click_err, AgentShellError::NotImplemented(_)));
}

#[test]
fn element_center_uses_rect_api() {
    let rect = Rect {
        x: 100,
        y: 50,
        width: 40,
        height: 20,
    };
    let (cx, cy) = ElementNode::center_of(rect);
    assert_eq!((cx, cy), (120, 60));
}

#[test]
fn state_bits_match_atspi_enum() {
    assert_eq!(AtspiState(AtspiState::ACTIVE), AtspiState(1 << 1));
    assert_eq!(AtspiState(AtspiState::FOCUSED), AtspiState(1 << 12));
    let s = AtspiState::from_pair(1 << 1 | 1 << 25, 0);
    assert!(s.contains(AtspiState(AtspiState::ACTIVE)));
    assert!(s.contains(AtspiState(AtspiState::SHOWING)));
    assert!(!s.contains(AtspiState(AtspiState::FOCUSED)));
    let hi = AtspiState::from_pair(0, 1 << 2);
    assert_eq!(hi.0 >> 32, 4);
}

#[test]
fn constants_match_atspi_headers() {
    assert_eq!(REGISTRY_SERVICE, "org.a11y.atspi.Registry");
    assert_eq!(ROOT_PATH, "/org/a11y/atspi/accessible/root");
}

#[test]
fn should_probe_address_three_states() {
    let owned = |name: &str| name.to_string();
    assert!(should_probe_address(true, &vec![]));
    assert!(should_probe_address(false, &vec![owned(BUS_SERVICE)]));
    assert!(!should_probe_address(
        false,
        &vec![owned("org.freedesktop.DBus")]
    ));
    assert!(!should_probe_address(false, &vec![]));
}

#[test]
fn role_matching_normalizes_separators() {
    let role = element_at("/x", "push button", "").role;
    assert!(role.matches_name("push button"));
    assert!(role.matches_name("Push Button"));
    assert!(role.matches_name("push_button"));
    assert!(role.matches_name("pushbutton"));
    assert!(!role.matches_name("text"));
}

#[test]
fn find_elements_without_filter_enumerates_full_tree() {
    let root = element_at("/root", "frame", "win");
    let walk = SemanticLocator::new().find_elements(&root, None, None);
    let found = enumerate(walk, &fake_tree());
    let paths: Vec<&str> = found.iter().map(|n| n.path.as_str()).collect();
    assert_eq!(
        paths,
        vec![
            "/root",
            "/root/btn1",
            "/root/btn2",
            "/root/panel",
            "/root/panel/text"
        ],
        "full-tree enumeration must return root and all descendants"
    );
}

#[test]
fn find_elements_with_role_filter_keeps_filtering() {
    let root = element_at("/root", "frame", "win");
    let walk = SemanticLocator::new().find_elements(&root, Some("push button".to_string()), None);
    let found = enumerate(walk, &fake_tree());
    let paths: Vec<&str> = found.iter().map(|n| n.path.as_str()).collect();
    assert_eq!(
        paths,
        vec!["/root/btn1", "/root/btn2"],
        "role filter must still apply: {found:?}"
    );
}

#[test]
fn locate_caps_results_globally_across_windows() {
    let mut windows = Vec::new();
    let mut roots = HashMap::new();
    let mut children = HashMap::new();
    for w in 0..2 {
        let wpath = format!("/win{w}");
        windows.push((":1.0", wpath.clone()));
        roots.insert(wpath.clone(), element_at(&wpath, "frame", "win"));
        let leaves: Vec<ElementNode> = (0..5999)
            .map(|i| element_at(&format!("{wpath}/c{i}"), "push button", "leaf"))
            .collect();
        children.insert(wpath, leaves);
    }
    let tree = FakeWindows {
        windows,
        roots,
        children,
    };
    let search = SemanticLocator::new()
        .locate(SemanticTarget::ByAccessibility {
            role: None,
            name: None,
            parent_role: None,
            parent_name: None,
        })
        .expect("a search");
    let found = tree.search(search).expect("locate");
    assert_eq!(
        found.len(),
        MAX_SEARCH_RESULTS,
        "global cap must bound cross-window accumulation"
    );
}

#[test]
fn locate_by_path_finds_nested_element_across_windows() {
    let mut roots = HashMap::new();
    roots.insert("/win0".to_string(), element_at("/win0", "frame", "win0"));
    let mut children = HashMap::new();
    children.insert(
        "/win0".to_string(),
        vec![element_at("/win0/btn", "push button", "OK")],
    );
    let tree = FakeWindows {
        windows: vec![(":1.0", "/win0".to_string())],
        roots,
        children,
    };

    let found = tree.locate_by_path(None, "/win0/btn").expect("path must resolve");
    assert_eq!(found.path, "/win0/btn");
    assert_eq!(found.bus_name, ":1.0");
    assert_eq!(found.role.name, "push button");

    let found = tree
        .locate_by_path(Some(":1.0"), "/win0/btn")
        .expect("tuple match must resolve");
    assert_eq!(found.path, "/win0/btn");
}

#[test]
fn locate_by_path_tuple_match_disambiguates_same_path_across_buses() {
    let mut roots = HashMap::new();
    roots.insert("/w1".to_string(), element_on_bus(":1.1", "/w1", "frame", "w1"));
    roots.insert("/w2".to_string(), element_on_bus(":1.2", "/w2", "frame", "w2"));
    let mut children = HashMap::new();
    children.insert(
        "/w1".to_string(),
        vec![element_on_bus(":1.1", "/btn", "push button", "OK")],
    );
    children.insert(
        "/w2".to_string(),
        vec![element_on_bus(":1.2", "/btn", "push button", "OK")],
    );
    let tree = FakeWindows {
        windows: vec![(":1.1", "/w1".to_string()), (":1.2", "/w2".to_string())],
        roots,
        children,
    };

    let err = tree
        .locate_by_path(None, "/btn")
        .expect_err("ambiguous path must fail");
    assert!(matches!(err, AgentShellError::WindowNotFound(_)), "{err:?}");
    // The elements in question are named in order, whatever order they came in.
    let first = err.message().find(":1.1").expect("first bus");
    let second = err.message().find(":1.2").expect("second bus");
    assert!(first < second);

    let found = tree
        .locate_by_path(Some(":1.2"), "/btn")
        .expect("tuple match must resolve");
    assert_eq!(found.bus_name, ":1.2");
    assert_eq!(found.path, "/btn");
}

#[test]
fn locate_by_path_returns_window_not_found_for_unknown_path() {
    let mut roots = HashMap::new();
    roots.insert("/win0".to_string(), element_at("/win0", "frame", "win0"));
    let tree = FakeWindows {
        windows: vec![(":1.0", "/win0".to_string())],
        roots,
        children: HashMap::new(),
    };
    let err = tree
        .locate_by_path(None, "/does/not/exist")
        .expect_err("unknown path must fail");
    assert!(matches!(err, AgentShellError::WindowNotFound(_)), "{err:?}");
}

#[test]
fn locate_below_a_parent() {
    let mut roots = HashMap::new();
    roots.insert("/root".to_string(), element_at("/root", "frame", "win"));
    let tree = FakeWindows {
        windows: vec![(":1.0", "/root".to_string())],
        roots,
        children: fake_tree(),
    };
    let search = SemanticLocator::new()
        .locate(SemanticTarget::ByAccessibility {
            role: Some("text".to_string()),
            name: None,
            parent_role: Some("panel".to_string()),
            parent_name: Some("pane".to_string()),
        })
        .unwrap();
    let found = tree.search(search).unwrap();
    assert_eq!(found.len(), 1);
    assert_eq!(found[0].path, "/root/panel/text");
}

#[test]
fn one_trait_of_the_parent_is_enough() {
    let located = |parent_role: Option<&str>, parent_name: Option<&str>| {
        let mut roots = HashMap::new();
        roots.insert("/root".to_string(), element_at("/root", "frame", "win"));
        let mut children = fake_tree();
        children.insert(
            "/root/panel".to_string(),
            vec![element_at("/root/panel/btn", "push button", "Inner")],
        );
        let tree = FakeWindows {
            windows: vec![(":1.0", "/root".to_string())],
            roots,
            children,
        };
        let search = SemanticLocator::new()
            .locate(SemanticTarget::ByAccessibility {
                role: Some("push button".to_string()),
                name: None,
                parent_role: parent_role.map(str::to_string),
                parent_name: parent_name.map(str::to_string),
            })
            .unwrap();
        let found = tree.search(search).unwrap();
        found.into_iter().map(|e| e.path).collect::<Vec<String>>()
    };
    assert_eq!(located(Some("panel"), None), ["/root/panel/btn"]);
    assert_eq!(located(None, Some("pane")), ["/root/panel/btn"]);
    assert_eq!(located(Some("menu"), None), [""; 0]);
    assert_eq!(located(None, None).len(), 3);
}

#[test]
fn traversal_stops_at_the_depth_limit() {
    let mut children = HashMap::new();
    for i in 0..40 {
        children.insert(
            format!("/{i}"),
            vec![element_at(&format!("/{}", i + 1), "panel", "")],
        );
    }
    let walk = SemanticLocator::new().find_elements(&element_at("/0", "frame", ""), None, None);
    let found = enumerate(walk, &children);
    assert_eq!(found.len(), MAX_TRAVERSE_DEPTH as usize + 1);
}

#[test]
fn a_subtree_that_cannot_be_read_is_skipped() {
    let mut walk = SemanticLocator::new().find_elements(&element_at("/0", "frame", ""), None, None);
    while walk.advance().is_some() {
        walk.feed(Err(AgentShellError::DBus("gone".to_string())));
    }
    assert_eq!(walk.finish().len(), 1);
}

#[test]
fn failed_window_listing_ends_the_search() {
    let mut search = SemanticLocator::new().locate_by_path(None, "/x".to_string());
    assert!(matches!(
        search.on_windows(Err(AgentShellError::DBus("down".to_string()))),
        Ask::Done(Err(AgentShellError::DBus(_)))
    ));
    assert!(matches!(
        plan(SemanticTarget::Other("pixels".to_string())),
        Err(AgentShellError::NotImplemented(_))
    ));
}

// --- actions ---------------------------------------------------------------

#[test]
fn click_prefers_the_action_and_falls_back_on_the_pointer() {
    assert!(matches!(ElementActions::click(), Step::HasAction));
    assert!(matches!(ElementActions::click_has_action(true), Step::ActionCount));
    assert!(matches!(ElementActions::click_has_action(false), Step::Extents));
    assert!(matches!(ElementActions::click_action_count(Ok(2)), Step::DoAction));
    assert!(matches!(ElementActions::click_action_count(Ok(0)), Step::Extents));
    assert!(matches!(ElementActions::click_action_done(Ok(true)), Step::Done(Ok(()))));
    let r = Rect { x: 10, y: 20, width: 4, height: 6 };
    assert!(matches!(ElementActions::click_extents(Ok(r)), Step::MoveTo(12, 23)));
    assert!(matches!(ElementActions::click_moved(Ok(())), Step::Press(MouseButton::Left)));
    assert!(matches!(
        ElementActions::click_moved(Err(AgentShellError::NotImplemented("no".to_string()))),
        Step::Done(Err(AgentShellError::NotImplemented(_)))
    ));
}

#[test]
fn focus_grabs_and_falls_back_on_the_action() {
    let e = element_at("/x", "text", "t");
    assert!(matches!(ElementActions::focus(), Step::GrabFocus));
    assert!(matches!(ElementActions::focus_grabbed(Ok(true)), Step::Done(Ok(()))));
    assert!(matches!(ElementActions::focus_grabbed(Ok(false)), Step::HasAction));
    assert!(matches!(ElementActions::focus_has_action(&e, true), Step::DoAction));
    assert!(matches!(ElementActions::focus_has_action(&e, false), Step::Done(Err(_))));
    assert!(matches!(ElementActions::focus_action_done(Ok(true)), Step::Done(Ok(()))));
}

#[test]
fn text_is_read_and_written_where_allowed() {
    assert_eq!(ElementActions::get_text(Ok(5)), Ok((0, 5)));
    assert!(ElementActions::get_text(Err("x".to_string())).is_err());
    let mut e = element_at("/x", "text", "t");
    assert!(!ElementActions::is_editable(&e, true));
    assert!(ElementActions::set_text(&e, true).is_err());
    e.states = AtspiState(AtspiState::EDITABLE);
    assert!(ElementActions::is_editable(&e, true));
    assert!(!ElementActions::is_editable(&e, false));
    assert!(ElementActions::set_text(&e, true).is_ok());
    assert!(ElementActions::set_text_done(Ok(true)).is_ok());
    assert!(ElementActions::set_text_done(Ok(false)).is_err());
}

// --- reading the bus -------------------------------------------------------

#[test]
fn states_and_interfaces_are_read() {
    assert_eq!(AtspiBridge::get_state(&vec![2, 4]), AtspiState(2 | 4 << 32));
    assert_eq!(AtspiBridge::get_state(&vec![2]), AtspiState(2));
    assert_eq!(AtspiBridge::get_state(&vec![]), AtspiState(0));
    assert!(AtspiBridge::has_interface_public(Some("<interface name=\"a.b\"/>"), "a.b"));
    assert!(!AtspiBridge::has_interface_public(Some("<interface name=\"a.bc\"/>"), "a.b"));
    assert!(!AtspiBridge::has_interface_public(None, "a.b"));
    assert!(is_alive(AtspiState(0)));
    assert!(!is_alive(AtspiState(AtspiState::DEFUNCT)));
}

#[test]
fn nodes_that_cannot_be_read_are_left_out() {
    let down = || AgentShellError::DBus("down".to_string());
    let app = application_of(":1.0".into(), "/a".into(), true, Ok("app".into()), Some(7));
    assert_eq!(app.as_ref().unwrap().pid, Some(7));
    let apps = vec![app.unwrap()];
    assert_eq!(AtspiBridge::get_app_tree(&apps, 7).unwrap().name, "app");
    assert!(AtspiBridge::get_app_tree(&apps, 8).is_err());
    let role = || AtspiRole { code: 23, name: "frame".to_string() };
    assert!(window_of(":1.0".into(), "/w".into(), AtspiState(0), role(), Ok("w".into())).is_some());
    assert!(window_of(
        ":1.0".into(),
        "/w".into(),
        AtspiState(AtspiState::DEFUNCT),
        role(),
        Ok("w".into())
    )
    .is_none());
    let w = window(":1.0", "/w", 0);
    assert!(AtspiBridge::window_as_element(&w, Ok(role()), Ok("n".into())).is_ok());
    assert!(AtspiBridge::window_as_element(&w, Err(down()), Ok("n".into())).is_err());
    let lost = child_of(":1.0".into(), "/c".into(), Err(down()), Ok(role()), Ok("n".into()));
    assert!(lost.is_none());
}

#[test]
fn the_active_window_goes_before_a_shown_one() {
    let shown = || window(":1.0", "/shown", AtspiState::SHOWING | AtspiState::VISIBLE);
    let active = || window(":1.0", "/active", AtspiState::ACTIVE);
    assert_eq!(AtspiBridge::get_active_window(&vec![shown(), active()]).unwrap().path, "/active");
    assert_eq!(AtspiBridge::get_active_window(&vec![shown()]).unwrap().path, "/shown");
    assert!(AtspiBridge::get_active_window(&vec![]).is_err());
}

#[test]
fn connection_errors_say_what_failed() {
    assert!(connect_error(ConnectStep::SessionBus, "boom").message().contains("boom"));
    assert!(matches!(not_activatable(), AgentShellError::BackendUnavailable(_)));
    assert!(call_error("GetRole", "boom").message().contains("GetRole"));
}

#[test]
fn component_health_follows_the_applications() {
    let app = || ApplicationNode {
        bus_name: ":1".to_string(),
        path: "/a".to_string(),
        name: "a".to_string(),
        pid: None,
    };
    assert_eq!(AtSpiComponent::health(true, Ok(vec![app()])), ComponentHealth::Healthy);
    assert_eq!(AtSpiComponent::health(false, Ok(vec![app()])), ComponentHealth::Unavailable);
    assert!(matches!(
        AtSpiComponent::health(true, Err(AgentShellError::DBus("x".to_string()))),
        ComponentHealth::Degraded(_)
    ));
    assert_eq!(AtSpiComponent::probe(Ok(3)), Some(3));
    assert_eq!(AtSpiComponent::probe::<u8>(Err(AgentShellError::DBus("x".to_string()))), None);
}
