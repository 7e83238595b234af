use version_tray::menu::{setup, get_version_list_menu, Category, MenuEntry};
use version_tray::store::{get_version_list, VersionStore};

fn labels(items: &[&str]) -> Vec<String> {
    items.iter().map(|s| s.to_string()).collect()
}

#[test]
fn version_list_holds_the_three_labels_in_order() {
    assert_eq!(get_version_list(), vec!["go1.21", "go1.20", "go1.19"]);
}

#[test]
fn fresh_store_is_unset() {
    let store = VersionStore::new();
    assert_eq!(store.get_current_version(), None);
}

#[test]
fn store_set_then_get_returns_the_value() {
    let mut store = VersionStore::new();
    store.set_current_version("go1.20");
    assert_eq!(store.get_current_version(), Some("go1.20".to_string()));
    store.set_current_version("go1.19");
    assert_eq!(store.get_current_version(), Some("go1.19".to_string()));
}

#[test]
fn unset_menu_shows_placeholder_and_nothing_selected() {
    let store = VersionStore::new();
    let catalog = vec![Category { prefix: String::new(), labels: get_version_list() }];
    let menu = setup(&catalog, &store);
    assert_eq!(menu.current_display, "None");
    assert_eq!(menu.tooltip, "当前版本: ");
    assert_eq!(menu.entries.len(), 3);
    for e in &menu.entries {
        assert!(!e.selected);
        assert!(e.enabled);
    }
    assert_eq!(menu.entries[0].id, "version_go1.21");
    assert_eq!(menu.entries[0].label, "go1.21");
}

#[test]
fn built_menu_marks_entries_whose_id_contains_the_current_version() {
    let mut store = VersionStore::new();
    store.set_current_version("go1.21");
    let catalog = vec![Category { prefix: String::new(), labels: get_version_list() }];
    let menu = setup(&catalog, &store);
    assert_eq!(menu.current_display, "go1.21");
    assert_eq!(menu.tooltip, "当前版本: go1.21");
    assert!(menu.entries[0].selected && !menu.entries[0].enabled);
    assert!(!menu.entries[1].selected && menu.entries[1].enabled);
    assert!(!menu.entries[2].selected && menu.entries[2].enabled);
}

#[test]
fn built_menu_marking_is_by_substring_of_the_identifier() {
    let mut store = VersionStore::new();
    store.set_current_version("go1.2");
    let catalog = vec![Category { prefix: String::new(), labels: get_version_list() }];
    let menu = setup(&catalog, &store);
    assert!(menu.entries[0].selected, "go1.21 id contains go1.2");
    assert!(menu.entries[1].selected, "go1.20 id contains go1.2");
    assert!(!menu.entries[2].selected, "go1.19 id does not contain go1.2");
}

#[test]
fn category_entries_carry_prefixed_identifiers() {
    let cat = Category { prefix: "local_".to_string(), labels: labels(&["go1.21"]) };
    let entries: Vec<MenuEntry> = get_version_list_menu(&cat, &None);
    assert_eq!(entries.len(), 1);
    assert_eq!(entries[0].id, "local_version_go1.21");
    assert_eq!(entries[0].label, "go1.21");
    assert!(!entries[0].selected);
    assert!(entries[0].enabled);
}
