//! The tray-menu controller: reacting to a click event by decoding the
//! clicked identifier, persisting the chosen version in the store, and
//! recomputing every entry's visual state.
//!
//! After a successful selection each entry is re-marked by exact label
//! comparison: selected exactly when its label equals the new current
//! version, enabled exactly when it differs.

use vstd::prelude::*;

use crate::ids::{
    decoded_version, first_pos, get_version_from_menu_id, occurs, quit_id, str_contains, str_eq,
    version_tag,
};
use crate::menu::{tooltip_fallback, tooltip_of, MenuEntry, MenuEntryV, TrayMenu, TrayMenuV};
use crate::store::VersionStore;

verus! {

/// Why a selection event could not be carried through.
#[derive(Debug, Clone, Copy, PartialEq, Eq, Structural)]
pub enum SyncError {
    /// The clicked identifier does not contain the separator tag, so no
    /// version label could be decoded from it.
    DecodeFailed,
}

/// What a menu click amounts to.
#[derive(Debug, Clone, Copy, PartialEq, Eq, Structural)]
pub enum EventOutcome {
    /// The quit entry was clicked: the host should terminate.
    Quit,
    /// A version entry was clicked and the store and menu were updated.
    Changed,
    /// The identifier belongs to no version entry; nothing was done.
    Ignored,
}

/// One entry after a successful selection of `version`: same identifier
/// and label, selected exactly when the label equals `version`, enabled
/// exactly when it differs.
pub open spec fn synced_entry(e: MenuEntryV, version: Seq<char>) -> MenuEntryV {
    (MenuEntryV {
        id: e.id,
        label: e.label,
        selected: e.label == version,
        enabled: e.label != version,
    })
}

/// All entries after a successful selection of `version`.
pub open spec fn synced_entries(es: Seq<MenuEntryV>, version: Seq<char>) -> Seq<MenuEntryV> {
    Seq::new(es.len(), |i: int| synced_entry(es[i], version))
}

/// The whole menu after a successful selection of `version`: re-marked
/// entries, the display entry showing `version`, the tooltip rebuilt from
/// it.
pub open spec fn synced_menu(m: TrayMenuV, version: Seq<char>) -> TrayMenuV {
    (TrayMenuV {
        entries: synced_entries(m.entries, version),
        current_display: version,
        tooltip: tooltip_of(version),
    })
}

/// The version label a successful click on `menu_id` selects: what stands
/// after the first occurrence of the separator tag.
pub open spec fn clicked_version(menu_id: Seq<char>) -> Seq<char> {
    decoded_version(menu_id, first_pos(menu_id, version_tag()))
}

/// Handles a click on a version entry: decodes the version label from the
/// clicked identifier, persists it in the store, and re-marks every menu
/// entry, the display entry and the tooltip.  When the identifier holds no
/// separator tag the decode failure is reported and nothing changes.
pub fn change_version_menu(
    store: &mut VersionStore,
    menu: &mut TrayMenu,
    menu_id: &str,
) -> (r: Result<(), SyncError>)
    ensures
        match r {
            Ok(_) => occurs(menu_id@, version_tag()) && final(store)@ == Some(
                clicked_version(menu_id@),
            ) && final(menu)@ == synced_menu(old(menu)@, clicked_version(menu_id@)),
            Err(e) => e == SyncError::DecodeFailed && !occurs(menu_id@, version_tag())
                && final(store)@ == old(store)@ && final(menu)@ == old(menu)@,
        },
{
    let version = match get_version_from_menu_id(menu_id) {
        None => { return Err(SyncError::DecodeFailed) },
        Some(v) => v,
    };
    store.set_current_version(version.as_str());
    let n: usize = menu.entries.len();
    let mut updated: Vec<MenuEntry> = Vec::new();
    let mut i: usize = 0;
    while i < n
        invariant
            n == menu.entries@.len(),
            i <= n,
            version@ == clicked_version(menu_id@),
            updated@.len() == i,
            forall|j: int|
                0 <= j < i as int ==> updated@[j]@ == synced_entry(
                    menu.entries@[j]@,
                    version@,
                ),
        decreases n - i,
    {
        let sel: bool = menu.entries[i].label == version;
        let entry = MenuEntry {
            id: menu.entries[i].id.clone(),
            label: menu.entries[i].label.clone(),
            selected: sel,
            enabled: !sel,
        };
        updated.push(entry);
        i = i + 1;
    }
    proof {
        assert forall|j: int| 0 <= j < n as int implies updated.deep_view()[j] == synced_entries(
            menu@.entries,
            version@,
        )[j] by {
            assert(updated.deep_view()[j] == updated@[j]@);
            assert(menu@.entries[j] == menu.entries@[j]@);
        }
        assert(updated.deep_view() =~= synced_entries(menu@.entries, version@));
    }
    menu.entries = updated;
    menu.current_display = version.clone();
    menu.tooltip = String::from_str("当前版本: ").concat(version.as_str());
    Ok(())
}

/// Rewrites the tooltip: to the given text, or, when it is empty, to the
/// store's current version (or nothing where none is set).
pub fn change_tooltip(menu: &mut TrayMenu, store: &VersionStore, tooltip: &str)
    ensures
        final(menu)@.entries == old(menu)@.entries,
        final(menu)@.current_display == old(menu)@.current_display,
        final(menu)@.tooltip == tooltip_of(
            (if tooltip@.len() == 0 {
                tooltip_fallback(store@)
            } else {
                tooltip@
            }),
        ),
{
    let text: String = if tooltip.is_empty() {
        match store.get_current_version() {
            Some(cv) => cv,
            None => String::new(),
        }
    } else {
        String::from_str(tooltip)
    };
    proof {
        if tooltip@.len() == 0 {
            assert(text@ =~= tooltip_fallback(store@));
        }
    }
    menu.tooltip = String::from_str("当前版本: ").concat(text.as_str());
}

/// The state a successful selection of `version` leaves behind: the store
/// holds `version` and the menu is re-marked against it.
pub open spec fn changed_state(m: TrayMenuV, version: Seq<char>) -> (Option<Seq<char>>, TrayMenuV) {
    (Some(version), synced_menu(m, version))
}

/// Idempotence: carrying the same selection through a second time, from
/// the state the first one left behind, leaves the store and every menu
/// entry exactly as the first did.
pub proof fn lemma_change_idempotent(m: TrayMenuV, version: Seq<char>)
    ensures
        changed_state(synced_menu(m, version), version) == changed_state(m, version),
{
    assert(synced_entries(synced_entries(m.entries, version), version) =~= synced_entries(
        m.entries,
        version,
    ));
    assert(synced_menu(synced_menu(m, version), version) =~= synced_menu(m, version));
}

/// Exclusivity: when exactly one entry carries the selected label, then
/// after a successful selection of `version` that entry is the one selected
/// entry, and every other entry is unselected and enabled.
pub proof fn lemma_selection_exclusive(es: Seq<MenuEntryV>, version: Seq<char>, i: int)
    requires
        0 <= i < es.len(),
        es[i].label == version,
        forall|j: int| 0 <= j < es.len() && es[j].label == version ==> j == i,
    ensures
        synced_entries(es, version)[i].selected,
        !synced_entries(es, version)[i].enabled,
        forall|j: int|
            0 <= j < es.len() && j != i ==> !synced_entries(es, version)[j].selected
                && synced_entries(es, version)[j].enabled,
        forall|j: int|
            0 <= j < es.len() ==> (synced_entries(es, version)[j].selected <==> es[j].label
                == version),
{
}

/// Dispatches one menu click.  The quit identifier always wins: it is
/// answered with `Quit` before any decoding, whatever the menu holds.  An
/// identifier containing the separator tag updates the store and the menu;
/// any other identifier is ignored.  Neither of the latter two outcomes
/// terminates anything.
pub fn on_menu_event(store: &mut VersionStore, menu: &mut TrayMenu, menu_id: &str) -> (r:
    EventOutcome)
    ensures
        menu_id@ == quit_id() ==> r == EventOutcome::Quit && final(store)@ == old(store)@
            && final(menu)@ == old(menu)@,
        menu_id@ != quit_id() && occurs(menu_id@, version_tag()) ==> r == EventOutcome::Changed
            && final(store)@ == Some(clicked_version(menu_id@)) && final(menu)@ == synced_menu(
            old(menu)@,
            clicked_version(menu_id@),
        ),
        menu_id@ != quit_id() && !occurs(menu_id@, version_tag()) ==> r == EventOutcome::Ignored
            && final(store)@ == old(store)@ && final(menu)@ == old(menu)@,
{
    if str_eq(menu_id, "quit") {
        return EventOutcome::Quit;
    }
    if str_contains(menu_id, "version_") {
        match change_version_menu(store, menu, menu_id) {
            Ok(_) => EventOutcome::Changed,
            Err(_) => {
                proof {
                    assert(false);
                }
                EventOutcome::Ignored
            },
        }
    } else {
        EventOutcome::Ignored
    }
}

} // verus!
