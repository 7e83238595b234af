use version_tray::controller::{
    change_tooltip, change_version_menu, on_menu_event, EventOutcome, SyncError,
};
use version_tray::menu::{setup, Category};
use version_tray::store::{get_version_list, VersionStore};

fn labels(items: &[&str]) -> Vec<String> {
    items.iter().map(|s| s.to_string()).collect()
}

fn two_category_catalog() -> Vec<Category> {
    vec![
        Category { prefix: "local_".to_string(), labels: labels(&["go1.21"]) },
        Category { prefix: "more_".to_string(), labels: labels(&["go1.21", "go1.20"]) },
    ]
}

#[test]
fn selection_scenario_across_two_categories() {
    // Catalog {"local": ["go1.21"], "more": ["go1.21", "go1.20"]}, no
    // persisted value.
    let mut store = VersionStore::new();
    let catalog = two_category_catalog();
    let mut menu = setup(&catalog, &store);
    assert_eq!(menu.current_display, "None");
    assert!(menu.entries.iter().all(|e| !e.selected));

    let outcome = on_menu_event(&mut store, &mut menu, "local_version_go1.21");
    assert_eq!(outcome, EventOutcome::Changed);
    assert_eq!(store.get_current_version(), Some("go1.21".to_string()));

    let by_id = |id: &str| menu.entries.iter().find(|e| e.id == id).unwrap().clone();
    let local = by_id("local_version_go1.21");
    assert!(local.selected && !local.enabled);
    let more_21 = by_id("more_version_go1.21");
    assert!(more_21.selected && !more_21.enabled);
    let more_20 = by_id("more_version_go1.20");
    assert!(!more_20.selected && more_20.enabled);
    assert_eq!(menu.current_display, "go1.21");
    assert_eq!(menu.tooltip, "当前版本: go1.21");
}

#[test]
fn malformed_identifier_reports_decode_failure_and_changes_nothing() {
    let mut store = VersionStore::new();
    store.set_current_version("go1.20");
    let catalog = two_category_catalog();
    let mut menu = setup(&catalog, &store);
    let before_menu = menu.clone();

    let r = change_version_menu(&mut store, &mut menu, "no separator here");
    assert_eq!(r, Err(SyncError::DecodeFailed));
    assert_eq!(store.get_current_version(), Some("go1.20".to_string()));
    assert_eq!(menu, before_menu);
}

#[test]
fn persist_and_sync_twice_is_idempotent() {
    let mut store = VersionStore::new();
    let catalog = two_category_catalog();
    let mut menu = setup(&catalog, &store);

    let r = change_version_menu(&mut store, &mut menu, "more_version_go1.20");
    assert_eq!(r, Ok(()));
    let store_after_first = store.get_current_version();
    let menu_after_first = menu.clone();

    let r = change_version_menu(&mut store, &mut menu, "more_version_go1.20");
    assert_eq!(r, Ok(()));
    assert_eq!(store.get_current_version(), store_after_first);
    assert_eq!(menu, menu_after_first);
}

#[test]
fn selection_marks_exactly_one_entry_when_labels_are_distinct() {
    let mut store = VersionStore::new();
    let catalog = vec![Category { prefix: String::new(), labels: get_version_list() }];
    let mut menu = setup(&catalog, &store);

    let outcome = on_menu_event(&mut store, &mut menu, "version_go1.19");
    assert_eq!(outcome, EventOutcome::Changed);
    let selected: Vec<_> = menu.entries.iter().filter(|e| e.selected).collect();
    assert_eq!(selected.len(), 1);
    assert_eq!(selected[0].label, "go1.19");
    assert!(!selected[0].enabled);
}

#[test]
fn quit_click_always_quits_and_touches_nothing() {
    let mut store = VersionStore::new();
    store.set_current_version("go1.21");
    let catalog = two_category_catalog();
    let mut menu = setup(&catalog, &store);
    let before_menu = menu.clone();

    let outcome = on_menu_event(&mut store, &mut menu, "quit");
    assert_eq!(outcome, EventOutcome::Quit);
    assert_eq!(store.get_current_version(), Some("go1.21".to_string()));
    assert_eq!(menu, before_menu);

    // The same holds with an empty catalog.
    let mut store = VersionStore::new();
    let mut menu = setup(&Vec::new(), &store);
    assert_eq!(on_menu_event(&mut store, &mut menu, "quit"), EventOutcome::Quit);
    assert_eq!(store.get_current_version(), None);
}

#[test]
fn unrelated_identifier_is_ignored() {
    let mut store = VersionStore::new();
    let catalog = two_category_catalog();
    let mut menu = setup(&catalog, &store);
    let before_menu = menu.clone();

    // "current_version" holds "version" but not the separator tag.
    let outcome = on_menu_event(&mut store, &mut menu, "current_version");
    assert_eq!(outcome, EventOutcome::Ignored);
    assert_eq!(store.get_current_version(), None);
    assert_eq!(menu, before_menu);
}

#[test]
fn change_tooltip_prefers_the_given_text() {
    let mut store = VersionStore::new();
    store.set_current_version("go1.20");
    let mut menu = setup(&Vec::new(), &store);

    change_tooltip(&mut menu, &store, "go1.19");
    assert_eq!(menu.tooltip, "当前版本: go1.19");
}

#[test]
fn change_tooltip_falls_back_to_the_store() {
    let mut store = VersionStore::new();
    store.set_current_version("go1.20");
    let mut menu = setup(&Vec::new(), &store);

    change_tooltip(&mut menu, &store, "");
    assert_eq!(menu.tooltip, "当前版本: go1.20");

    let unset = VersionStore::new();
    change_tooltip(&mut menu, &unset, "");
    assert_eq!(menu.tooltip, "当前版本: ");
}
