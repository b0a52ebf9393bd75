use tray_bridge::Status;
use tray_bridge::icon::IconStep;
use tray_bridge::icon::icon_steps;
use tray_bridge::icon::resolve_icon;
use tray_bridge::menu::Element;
use tray_bridge::menu::MenuKind;
use tray_bridge::menu::MenuNode;
use tray_bridge::menu::MenuTree;
use tray_bridge::menu::OutgoingCommand;
use tray_bridge::menu::activate;
use tray_bridge::menu::to_element;
use tray_bridge::menu::tree_elements;
use tray_bridge::render::handle_event;
use tray_bridge::render::render_pass;
use tray_bridge::state::InboundEvent;
use tray_bridge::state::TrayItemRecord;
use tray_bridge::state::TrayState;

fn record(status: Status) -> TrayItemRecord {
    TrayItemRecord {
        icon_name: Some("app-icon".to_string()),
        icon_theme_path: None,
        status,
        menu_path: None,
        menu: None,
    }
}

fn standard(id: i32, label: &str, children: Vec<MenuNode>) -> MenuNode {
    MenuNode { id, label: label.to_string(), kind: MenuKind::Standard, children }
}

fn separator(children: Vec<MenuNode>) -> MenuNode {
    MenuNode { id: 0, label: String::new(), kind: MenuKind::Separator, children }
}

fn update(addr: &str, item: TrayItemRecord) -> InboundEvent {
    InboundEvent::Update { address: addr.to_string(), item }
}

fn remove(addr: &str) -> InboundEvent {
    InboundEvent::Remove { address: addr.to_string() }
}

#[test]
fn remove_on_empty_state_is_a_no_op() {
    let mut state = TrayState::new();
    state.apply(remove("org.example.app"));
    assert_eq!(state.len(), 0);
}

#[test]
fn remove_of_absent_address_leaves_state_unchanged() {
    let mut state = TrayState::new();
    state.apply(update("a", record(Status::Active)));
    state.apply(remove("b"));
    assert_eq!(state.len(), 1);
    assert!(state.contains(&"a".to_string()));
    assert!(!state.contains(&"b".to_string()));
}

#[test]
fn update_inserts_then_overwrites() {
    let mut state = TrayState::new();
    state.apply(update("a", record(Status::Active)));
    assert_eq!(state.len(), 1);
    let mut replacement = record(Status::NeedsAttention);
    replacement.icon_name = Some("other-icon".to_string());
    state.apply(update("a", replacement));
    assert_eq!(state.len(), 1);
    let rec = state.get(&"a".to_string()).unwrap();
    assert!(matches!(rec.status, Status::NeedsAttention));
    assert_eq!(rec.icon_name.as_deref(), Some("other-icon"));
}

#[test]
fn update_replaces_whole_record_and_clears_absent_fields() {
    let mut state = TrayState::new();
    let mut with_menu = record(Status::Active);
    with_menu.menu_path = Some("/MenuBar".to_string());
    with_menu.menu = Some(MenuTree { nodes: vec![standard(1, "Open", vec![])] });
    state.apply(update("a", with_menu));
    assert!(state.get(&"a".to_string()).unwrap().menu.is_some());

    state.apply(update("a", record(Status::Active)));
    let rec = state.get(&"a".to_string()).unwrap();
    assert!(rec.menu.is_none());
    assert!(rec.menu_path.is_none());
}

#[test]
fn update_keeps_entry_position() {
    let mut state = TrayState::new();
    state.apply(update("a", record(Status::Active)));
    state.apply(update("b", record(Status::Active)));
    state.apply(update("a", record(Status::NeedsAttention)));
    assert_eq!(state.len(), 2);
    assert_eq!(state.entry_at(0).address, "a");
    assert_eq!(state.entry_at(1).address, "b");
}

#[test]
fn passive_items_are_filtered_from_the_render_plan() {
    let mut state = TrayState::new();
    state.apply(update("a", record(Status::Active)));
    state.apply(update("b", record(Status::Passive)));
    state.apply(update("c", record(Status::NeedsAttention)));
    let plan = render_pass(&state);
    assert_eq!(plan.len(), 2);
    assert_eq!(plan[0].address, "a");
    assert_eq!(plan[1].address, "c");
}

#[test]
fn render_entry_carries_icon_request_and_menu_elements() {
    let mut state = TrayState::new();
    let mut rec = record(Status::Active);
    rec.icon_theme_path = Some("/usr/share/icons/custom".to_string());
    rec.menu_path = Some("/MenuBar".to_string());
    rec.menu = Some(MenuTree { nodes: vec![standard(1, "Open", vec![]), separator(vec![])] });
    state.apply(update("a", rec));
    let plan = render_pass(&state);
    assert_eq!(plan.len(), 1);
    assert_eq!(plan[0].icon_name.as_deref(), Some("app-icon"));
    assert_eq!(plan[0].icon_theme_path.as_deref(), Some("/usr/share/icons/custom"));
    assert_eq!(plan[0].elements.len(), 2);
    assert!(matches!(plan[0].elements[1], Element::Divider));
}

#[test]
fn record_with_menu_but_no_menu_path_renders_no_menu() {
    let mut state = TrayState::new();
    let mut rec = record(Status::Active);
    rec.menu = Some(MenuTree { nodes: vec![standard(1, "Open", vec![])] });
    state.apply(update("a", rec));
    let plan = render_pass(&state);
    assert_eq!(plan.len(), 1);
    assert!(plan[0].elements.is_empty());
}

#[test]
fn mapping_round_trip_enqueues_exactly_one_command() {
    let tree = standard(5, "Root", vec![standard(7, "Child", vec![]), separator(vec![])]);
    let element = to_element(&tree, &"org.example.app".to_string(), &"/MenuBar".to_string());
    let mut outbound: Vec<OutgoingCommand> = Vec::new();
    match &element {
        Element::Clickable { label, submenu, .. } => {
            assert_eq!(label, "Root");
            assert_eq!(submenu.len(), 2);
            activate(&submenu[0], &mut outbound);
        }
        Element::Divider => panic!("standard node mapped to a divider"),
    }
    assert_eq!(outbound.len(), 1);
    let OutgoingCommand::MenuItemClicked { submenu_id, menu_path, notifier_address } =
        &outbound[0];
    assert_eq!(*submenu_id, 7);
    assert_eq!(menu_path, "/MenuBar");
    assert_eq!(notifier_address, "org.example.app");
}

#[test]
fn activating_the_root_uses_its_own_id() {
    let tree = standard(5, "Root", vec![standard(7, "Child", vec![])]);
    let element = to_element(&tree, &"addr".to_string(), &"/MenuBar".to_string());
    let mut outbound: Vec<OutgoingCommand> = Vec::new();
    activate(&element, &mut outbound);
    activate(&element, &mut outbound);
    assert_eq!(outbound.len(), 2);
    for cmd in &outbound {
        let OutgoingCommand::MenuItemClicked { submenu_id, .. } = cmd;
        assert_eq!(*submenu_id, 5);
    }
}

#[test]
fn separator_never_produces_a_click_command() {
    let node = separator(vec![standard(9, "Hidden", vec![])]);
    let element = to_element(&node, &"addr".to_string(), &"/MenuBar".to_string());
    assert!(matches!(element, Element::Divider));
    let mut outbound: Vec<OutgoingCommand> = Vec::new();
    activate(&element, &mut outbound);
    activate(&element, &mut outbound);
    assert!(outbound.is_empty());
}

#[test]
fn tree_elements_maps_every_root_node_in_order() {
    let tree = MenuTree {
        nodes: vec![standard(1, "One", vec![]), separator(vec![]), standard(3, "Three", vec![])],
    };
    let elements = tree_elements(&tree, &"addr".to_string(), &"/MenuBar".to_string());
    assert_eq!(elements.len(), 3);
    assert!(matches!(elements[0], Element::Clickable { .. }));
    assert!(matches!(elements[1], Element::Divider));
    match &elements[2] {
        Element::Clickable { label, .. } => assert_eq!(label, "Three"),
        Element::Divider => panic!("standard node mapped to a divider"),
    }
}

#[test]
fn icon_fallback_prefers_default_theme_over_missing_image() {
    let resolved = resolve_icon(true, None::<&str>, Some("default-img"), Some("missing-img"));
    let (step, img) = resolved.unwrap();
    assert!(matches!(step, IconStep::DefaultTheme));
    assert_eq!(img, "default-img");
}

#[test]
fn icon_fallback_uses_missing_image_when_both_themes_fail() {
    let resolved = resolve_icon(true, None::<&str>, None, Some("missing-img"));
    let (step, img) = resolved.unwrap();
    assert!(matches!(step, IconStep::FallbackIcon));
    assert_eq!(img, "missing-img");
}

#[test]
fn icon_fallback_yields_nothing_when_all_three_fail() {
    let resolved = resolve_icon(true, None::<&str>, None, None);
    assert!(resolved.is_none());
}

#[test]
fn custom_path_wins_when_it_succeeds() {
    let resolved = resolve_icon(true, Some("custom-img"), Some("default-img"), Some("missing-img"));
    let (step, img) = resolved.unwrap();
    assert!(matches!(step, IconStep::CustomPath));
    assert_eq!(img, "custom-img");
}

#[test]
fn custom_result_is_ignored_without_a_custom_path() {
    let resolved = resolve_icon(false, Some("stale-img"), Some("default-img"), None);
    let (step, img) = resolved.unwrap();
    assert!(matches!(step, IconStep::DefaultTheme));
    assert_eq!(img, "default-img");
}

#[test]
fn icon_steps_follow_the_documented_order() {
    let steps = icon_steps(&Some("/theme".to_string()));
    assert_eq!(steps.len(), 3);
    assert!(matches!(steps[0], IconStep::CustomPath));
    assert!(matches!(steps[1], IconStep::DefaultTheme));
    assert!(matches!(steps[2], IconStep::FallbackIcon));

    let steps = icon_steps(&None);
    assert_eq!(steps.len(), 2);
    assert!(matches!(steps[0], IconStep::DefaultTheme));
    assert!(matches!(steps[1], IconStep::FallbackIcon));
}

#[test]
fn empty_icon_theme_path_does_not_trigger_a_custom_lookup() {
    let steps = icon_steps(&Some(String::new()));
    assert_eq!(steps.len(), 2);
    assert!(matches!(steps[0], IconStep::DefaultTheme));
}

#[test]
fn event_order_determinism_scenario() {
    let mut state = TrayState::new();
    let mut item_a = record(Status::Active);
    item_a.menu_path = Some("/MenuBar".to_string());
    item_a.menu = Some(MenuTree { nodes: vec![standard(1, "X", vec![])] });
    let plan = handle_event(&mut state, update("A", item_a));
    assert_eq!(plan.len(), 1);
    let plan = handle_event(&mut state, update("B", record(Status::Passive)));
    assert_eq!(plan.len(), 1);
    let plan = handle_event(&mut state, remove("A"));
    assert!(plan.is_empty());
    assert_eq!(state.len(), 1);
    assert!(state.contains(&"B".to_string()));
}

#[test]
fn batch_apply_matches_one_by_one_application() {
    let events = || {
        vec![
            update("a", record(Status::Active)),
            update("a", record(Status::Passive)),
            remove("a"),
            update("a", record(Status::NeedsAttention)),
            remove("b"),
            update("b", record(Status::Active)),
            remove("a"),
        ]
    };
    let mut batched = TrayState::new();
    batched.apply_all(events());
    let mut sequential = TrayState::new();
    for ev in events() {
        sequential.apply(ev);
    }
    assert_eq!(batched.len(), sequential.len());
    assert!(!batched.contains(&"a".to_string()));
    assert!(batched.contains(&"b".to_string()));
    let rec = batched.get(&"b".to_string()).unwrap();
    assert!(matches!(rec.status, Status::Active));
}

#[test]
fn last_update_wins_for_an_interleaved_address() {
    let mut state = TrayState::new();
    state.apply_all(vec![
        update("a", record(Status::Passive)),
        update("b", record(Status::Active)),
        remove("a"),
        update("a", record(Status::Active)),
        update("b", record(Status::Passive)),
    ]);
    assert_eq!(state.len(), 2);
    assert!(matches!(state.get(&"a".to_string()).unwrap().status, Status::Active));
    assert!(matches!(state.get(&"b".to_string()).unwrap().status, Status::Passive));
}
