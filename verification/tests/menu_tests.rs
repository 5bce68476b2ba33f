use pezmax::menu::{MenuCommand, MenuItem, PropValue, ThemeMode, ToggleType};
use pezmax::menu_state::{
    accent_signal, event_command_of, event_group_commands, theme_signal, BackendNotify, DBusMenuState,
};
use pezmax::nav::Section;
use pezmax::tree::{build, id_to_command, theme_all_ids, theme_mode_id, ID_ACCENT_BASE};

const ACCENTS: [&'static str; 4] = ["蓝", "绿", "红", "紫"];

fn checked(tree: &MenuItem, id: i32) -> bool {
    tree.find(id).unwrap().toggle_state
}

#[test]
fn built_menu_checks_mode_and_accent() {
    let tree = build(ThemeMode::Dark, 2, &ACCENTS);
    assert_eq!(tree.id, 0);
    assert_eq!(tree.children.len(), 4);
    assert!(!checked(&tree, 311));
    assert!(!checked(&tree, 312));
    assert!(checked(&tree, 313));
    assert!(!checked(&tree, 321));
    assert!(!checked(&tree, 322));
    assert!(checked(&tree, 323));
    assert!(!checked(&tree, 324));
    assert!(tree.find(325).is_none());
    assert_eq!(tree.find(323).unwrap().label, "红");
    assert_eq!(tree.find(313).unwrap().toggle_type, ToggleType::Radio);
    assert!(tree.find(103).unwrap().is_separator);
    assert_eq!(tree.find(501).unwrap().label, "关于 PezMax One");
}

#[test]
fn find_mut_reaches_nested_item() {
    let mut tree = build(ThemeMode::System, 0, &ACCENTS);
    match tree.find_mut(104) {
        Some(node) => node.enabled = false,
        None => panic!("quit item missing"),
    }
    assert!(!tree.find(104).unwrap().enabled);
    assert!(tree.find_mut(9999).is_none());
}

#[test]
fn theme_update_checks_only_target() {
    let mut state = DBusMenuState::new(ThemeMode::System, 0, &ACCENTS);
    assert_eq!(state.revision, 1);
    state.update_theme_mode(ThemeMode::Light);
    assert_eq!(state.revision, 2);
    assert!(!checked(&state.tree, 311));
    assert!(checked(&state.tree, 312));
    assert!(!checked(&state.tree, 313));
    assert!(checked(&state.tree, 321));
}

#[test]
fn accent_update_checks_only_target() {
    let mut state = DBusMenuState::new(ThemeMode::Dark, 0, &ACCENTS);
    state.update_accent(3, ACCENTS.len());
    assert!(!checked(&state.tree, 321));
    assert!(!checked(&state.tree, 322));
    assert!(!checked(&state.tree, 323));
    assert!(checked(&state.tree, 324));
    assert!(checked(&state.tree, 313));
}

#[test]
fn revision_wraps_around() {
    let mut state = DBusMenuState::new(ThemeMode::Dark, 0, &ACCENTS);
    state.revision = u32::MAX;
    state.apply(BackendNotify::ThemeChanged(ThemeMode::System), ACCENTS.len());
    assert_eq!(state.revision, 0);
    assert!(checked(&state.tree, 311));
    state.apply(BackendNotify::AccentChanged(1), ACCENTS.len());
    assert_eq!(state.revision, 1);
    assert!(checked(&state.tree, 322));
}

#[test]
fn command_ids() {
    assert_eq!(id_to_command(101, 4), Some(MenuCommand::OpenDownloadDir));
    assert_eq!(id_to_command(102, 4), Some(MenuCommand::ClearCache));
    assert_eq!(id_to_command(104, 4), Some(MenuCommand::Quit));
    assert_eq!(id_to_command(301, 4), Some(MenuCommand::ToggleSidebar));
    assert_eq!(id_to_command(402, 4), Some(MenuCommand::NavigateTo(Section::Browse)));
    assert_eq!(id_to_command(502, 4), Some(MenuCommand::OpenHomepage));
    assert_eq!(id_to_command(503, 4), Some(MenuCommand::OpenLogDir));
    assert_eq!(id_to_command(ID_ACCENT_BASE + 3, 4), Some(MenuCommand::SetAccent(3)));
    assert_eq!(id_to_command(ID_ACCENT_BASE + 4, 4), None);
    assert_eq!(id_to_command(103, 4), None);
    assert_eq!(id_to_command(300, 4), None);
    for mode in [ThemeMode::System, ThemeMode::Light, ThemeMode::Dark] {
        assert_eq!(id_to_command(theme_mode_id(mode), 4), Some(MenuCommand::SetThemeMode(mode)));
    }
    assert_eq!(theme_all_ids(), [311, 312, 313]);
}

#[test]
fn events_only_clicks_count() {
    assert_eq!(event_command_of(104, "clicked", 4), Some(MenuCommand::Quit));
    assert_eq!(event_command_of(104, "hovered", 4), None);
    let events = vec![
        (101, "clicked".to_string()),
        (104, "opened".to_string()),
        (103, "clicked".to_string()),
        (322, "clicked".to_string()),
    ];
    assert_eq!(
        event_group_commands(&events, 4),
        vec![MenuCommand::OpenDownloadDir, MenuCommand::SetAccent(1)]
    );
}

#[test]
fn properties_of_items() {
    let tree = build(ThemeMode::Light, 0, &["a_b"]);
    let radio = tree.find(321).unwrap();
    let props = radio.properties(&[]);
    assert_eq!(
        props,
        vec![
            ("label".to_string(), PropValue::Str("a__b".to_string())),
            ("toggle-type".to_string(), PropValue::Str("radio".to_string())),
            ("toggle-state".to_string(), PropValue::Int(1)),
        ]
    );
    let sep = tree.find(302).unwrap();
    assert_eq!(sep.properties(&[]), vec![("type".to_string(), PropValue::Str("separator".to_string()))]);
    let view = tree.find(300).unwrap();
    let only = view.properties(&["children-display".to_string()]);
    assert_eq!(only, vec![("children-display".to_string(), PropValue::Str("submenu".to_string()))]);
}

#[test]
fn group_properties_and_property() {
    let state = DBusMenuState::new(ThemeMode::Dark, 0, &ACCENTS);
    let filter = vec!["toggle-state".to_string()];
    let got = state.group_properties(&[313, 9999, 311], &filter);
    assert_eq!(got.len(), 2);
    assert_eq!(got[0].0, 313);
    assert_eq!(got[0].1, vec![("toggle-state".to_string(), PropValue::Int(1))]);
    assert_eq!(got[1].0, 311);
    assert_eq!(got[1].1, vec![("toggle-state".to_string(), PropValue::Int(0))]);
    assert_eq!(state.property(101, "label".to_string()), PropValue::Str("打开下载目录…".to_string()));
    assert_eq!(state.property(101, "toggle-state".to_string()), PropValue::Str(String::new()));
    assert_eq!(state.property(9999, "label".to_string()), PropValue::Str(String::new()));
}

#[test]
fn layout_depths() {
    let state = DBusMenuState::new(ThemeMode::Dark, 0, &ACCENTS);
    let (rev, whole) = state.layout(0, -1, &[]);
    assert_eq!(rev, 1);
    assert_eq!(whole.id, 0);
    assert_eq!(whole.children.len(), 4);
    assert_eq!(whole.children[1].children[3].children.len(), 4);
    let (_, view) = state.layout(300, 1, &[]);
    assert_eq!(view.id, 300);
    assert_eq!(view.children.len(), 4);
    assert_eq!(view.children[2].children.len(), 0);
    let (_, missing) = state.layout(12345, 0, &[]);
    assert_eq!(missing.id, 0);
    assert_eq!(missing.children.len(), 0);
}

#[test]
fn toggle_signals() {
    assert_eq!(theme_signal(ThemeMode::Light), vec![(311, 0), (312, 1), (313, 0)]);
    assert_eq!(accent_signal(1, 3), vec![(321, 0), (322, 1), (323, 0)]);
    assert_eq!(accent_signal(7, 2), vec![(321, 0), (322, 0)]);
}

#[test]
fn set_then_find_reads_back() {
    let mut tree = build(ThemeMode::Light, 0, &ACCENTS);
    assert!(tree.set_toggle_state(324, true));
    assert!(checked(&tree, 324));
    assert!(checked(&tree, 321));
    assert!(tree.set_toggle_state(312, false));
    assert!(!checked(&tree, 312));
    assert!(!tree.set_toggle_state(4242, true));
}

fn all_nodes<'a>(m: &'a MenuItem, out: &mut Vec<&'a MenuItem>) {
    out.push(m);
    for c in m.children.iter() {
        all_nodes(c, out);
    }
}

#[test]
fn built_menu_ids_increase_and_are_found() {
    let tree = build(ThemeMode::Light, 1, &ACCENTS);
    let mut nodes = Vec::new();
    all_nodes(&tree, &mut nodes);
    for w in nodes.windows(2) {
        assert!(w[0].id < w[1].id);
    }
    for n in nodes.iter() {
        assert_eq!(tree.find(n.id).unwrap().id, n.id);
    }
    let theme_checked = [311, 312, 313].iter().filter(|&&id| checked(&tree, id)).count();
    assert_eq!(theme_checked, 1);
    let accent_checked = (0..ACCENTS.len() as i32).filter(|&i| checked(&tree, ID_ACCENT_BASE + i)).count();
    assert_eq!(accent_checked, 1);
    let none_checked = build(ThemeMode::System, 9, &ACCENTS);
    for i in 0..ACCENTS.len() as i32 {
        assert!(!checked(&none_checked, ID_ACCENT_BASE + i));
    }
}

#[test]
fn commands_are_exactly_the_leaves() {
    let tree = build(ThemeMode::Dark, 0, &ACCENTS);
    for x in -5..700 {
        let leaf = match tree.find(x) {
            Some(n) => !n.is_separator && n.children.is_empty(),
            None => false,
        };
        assert_eq!(id_to_command(x, ACCENTS.len()).is_some(), leaf, "id {}", x);
    }
}

#[test]
fn property_keys_never_repeat() {
    let tree = build(ThemeMode::Dark, 1, &ACCENTS);
    let mut nodes = Vec::new();
    all_nodes(&tree, &mut nodes);
    for n in nodes.iter() {
        let props = n.properties(&[]);
        for i in 0..props.len() {
            for j in (i + 1)..props.len() {
                assert_ne!(props[i].0, props[j].0);
            }
        }
    }
    let radio = tree.find(313).unwrap().properties(&[]);
    let keys: Vec<&str> = radio.iter().map(|p| p.0.as_str()).collect();
    assert_eq!(keys, vec!["label", "toggle-type", "toggle-state"]);
}
