//! The tray-menu model: catalog categories, menu entries, and the menu
//! construction algorithm.
//!
//! At build time an entry is marked selected (and disabled) when its
//! identifier contains the current version as a substring, which is how the
//! tray marks the live entries; after a selection event the controller
//! re-marks every entry by exact label comparison.

use vstd::prelude::*;

use crate::ids::{encode_menu_id, encoded_id, occurs, str_contains};
use crate::store::VersionStore;

verus! {

/// One named, ordered category of version labels.
#[derive(Debug, Clone, PartialEq, Eq)]
pub struct Category {
    pub prefix: String,
    pub labels: Vec<String>,
}

/// The mathematical shape of a category.
#[verifier::ext_equal]
pub ghost struct CategoryV {
    pub prefix: Seq<char>,
    pub labels: Seq<Seq<char>>,
}

impl View for Category {
    type V = CategoryV;

    open spec fn view(&self) -> CategoryV {
        CategoryV { prefix: self.prefix@, labels: self.labels.deep_view() }
    }
}

impl DeepView for Category {
    type V = CategoryV;

    open spec fn deep_view(&self) -> CategoryV {
        self@
    }
}

/// One selectable menu entry: its click identifier, its display label, and
/// its visual state.
#[derive(Debug, Clone, PartialEq, Eq)]
pub struct MenuEntry {
    pub id: String,
    pub label: String,
    pub selected: bool,
    pub enabled: bool,
}

/// The mathematical shape of a menu entry.
#[verifier::ext_equal]
pub ghost struct MenuEntryV {
    pub id: Seq<char>,
    pub label: Seq<char>,
    pub selected: bool,
    pub enabled: bool,
}

impl View for MenuEntry {
    type V = MenuEntryV;

    open spec fn view(&self) -> MenuEntryV {
        MenuEntryV {
            id: self.id@,
            label: self.label@,
            selected: self.selected,
            enabled: self.enabled,
        }
    }
}

impl DeepView for MenuEntry {
    type V = MenuEntryV;

    open spec fn deep_view(&self) -> MenuEntryV {
        self@
    }
}

/// The whole synchronized menu state: the selectable entries of every
/// category in order, the text of the disabled current-version entry, and
/// the tooltip.
#[derive(Debug, Clone, PartialEq, Eq)]
pub struct TrayMenu {
    pub entries: Vec<MenuEntry>,
    pub current_display: String,
    pub tooltip: String,
}

/// The mathematical shape of the menu state.
#[verifier::ext_equal]
pub ghost struct TrayMenuV {
    pub entries: Seq<MenuEntryV>,
    pub current_display: Seq<char>,
    pub tooltip: Seq<char>,
}

impl View for TrayMenu {
    type V = TrayMenuV;

    open spec fn view(&self) -> TrayMenuV {
        TrayMenuV {
            entries: self.entries.deep_view(),
            current_display: self.current_display@,
            tooltip: self.tooltip@,
        }
    }
}

/// The text of the current-version display entry: the current version, or
/// the placeholder when nothing is set.
pub open spec fn display_of(current: Option<Seq<char>>) -> Seq<char> {
    match current {
        Some(cv) => cv,
        None => "None"@,
    }
}

/// The tooltip the tray shows for the given text.
pub open spec fn tooltip_of(text: Seq<char>) -> Seq<char> {
    "当前版本: "@ + text
}

/// The text the tooltip falls back to: the current version where one is
/// set, the empty string otherwise.
pub open spec fn tooltip_fallback(current: Option<Seq<char>>) -> Seq<char> {
    match current {
        Some(cv) => cv,
        None => Seq::<char>::empty(),
    }
}

/// The entry built for `label` under `prefix`: marked selected and
/// disabled exactly when its identifier contains the current version.
pub open spec fn built_entry(
    prefix: Seq<char>,
    label: Seq<char>,
    current: Option<Seq<char>>,
) -> MenuEntryV {
    let id = encoded_id(prefix, label);
    let sel = match current {
        Some(cv) => occurs(id, cv),
        None => false,
    };
    (MenuEntryV { id: id, label: label, selected: sel, enabled: !sel })
}

/// The entries built for one category, in label order.
pub open spec fn built_category(cat: CategoryV, current: Option<Seq<char>>) -> Seq<MenuEntryV> {
    Seq::new(cat.labels.len(), |i: int| built_entry(cat.prefix, cat.labels[i], current))
}

/// The entries built for a whole catalog: the categories' entries, in
/// catalog order.
pub open spec fn built_entries(cats: Seq<CategoryV>, current: Option<Seq<char>>) -> Seq<MenuEntryV>
    decreases cats.len(),
{
    if cats.len() == 0 {
        Seq::<MenuEntryV>::empty()
    } else {
        built_category(cats[0], current) + built_entries(cats.drop_first(), current)
    }
}

/// The whole menu state built from a catalog and the current version.
pub open spec fn built_menu(cats: Seq<CategoryV>, current: Option<Seq<char>>) -> TrayMenuV {
    (TrayMenuV {
        entries: built_entries(cats, current),
        current_display: display_of(current),
        tooltip: tooltip_of(tooltip_fallback(current)),
    })
}

/// Peeling the last category off `built_entries`.
pub proof fn lemma_built_entries_drop_last(cats: Seq<CategoryV>, current: Option<Seq<char>>)
    requires
        cats.len() > 0,
    ensures
        built_entries(cats, current) == built_entries(cats.drop_last(), current) + built_category(
            cats.last(),
            current,
        ),
    decreases cats.len(),
{
    if cats.len() == 1 {
        assert(built_entries(cats.drop_first(), current) =~= Seq::<MenuEntryV>::empty());
        assert(built_entries(cats.drop_last(), current) =~= Seq::<MenuEntryV>::empty());
        assert(cats[0] == cats.last());
        assert(built_entries(cats, current) == built_category(cats[0], current) + built_entries(
            cats.drop_first(),
            current,
        ));
        assert(built_entries(cats, current) =~= built_entries(cats.drop_last(), current)
            + built_category(cats.last(), current));
    } else {
        let tail = cats.drop_first();
        let dl = cats.drop_last();
        lemma_built_entries_drop_last(tail, current);
        assert(tail.last() == cats.last());
        assert(tail.drop_last() =~= dl.drop_first());
        assert(built_entries(tail.drop_last(), current) == built_entries(
            dl.drop_first(),
            current,
        ));
        assert(dl[0] == cats[0]);
        assert(built_entries(cats, current) == built_category(cats[0], current) + built_entries(
            tail,
            current,
        ));
        assert(built_entries(dl, current) == built_category(dl[0], current) + built_entries(
            dl.drop_first(),
            current,
        ));
        assert(built_entries(cats, current) =~= built_entries(dl, current) + built_category(
            cats.last(),
            current,
        ));
    }
}

/// With no current version, no built entry is selected and every one is
/// enabled.
proof fn lemma_built_entries_unset_all_unselected(cats: Seq<CategoryV>)
    ensures
        forall|j: int|
            0 <= j < built_entries(cats, None::<Seq<char>>).len() ==> !built_entries(
                cats,
                None::<Seq<char>>,
            )[j].selected && built_entries(cats, None::<Seq<char>>)[j].enabled,
    decreases cats.len(),
{
    if cats.len() > 0 {
        lemma_built_entries_unset_all_unselected(cats.drop_first());
        let whole = built_entries(cats, None::<Seq<char>>);
        let head = built_category(cats[0], None::<Seq<char>>);
        let rest = built_entries(cats.drop_first(), None::<Seq<char>>);
        assert(whole == head + rest);
        assert forall|j: int| 0 <= j < whole.len() implies !whole[j].selected
            && whole[j].enabled by {
            if j < head.len() {
                assert(whole[j] == head[j]);
                assert(head[j] == built_entry(cats[0].prefix, cats[0].labels[j], None::<Seq<char>>));
            } else {
                assert(whole[j] == rest[j - head.len()]);
                assert(!rest[j - head.len()].selected && rest[j - head.len()].enabled);
            }
        }
    }
}

/// Unset-state default: with no persisted version, the menu built from any
/// catalog shows the placeholder in the display entry, has no entry
/// selected (every one enabled), and carries the bare tooltip.
pub proof fn lemma_unset_menu(cats: Seq<CategoryV>)
    ensures
        built_menu(cats, None::<Seq<char>>).current_display == "None"@,
        built_menu(cats, None::<Seq<char>>).tooltip == tooltip_of(Seq::<char>::empty()),
        forall|j: int|
            0 <= j < built_menu(cats, None::<Seq<char>>).entries.len() ==> !built_menu(
                cats,
                None::<Seq<char>>,
            ).entries[j].selected && built_menu(cats, None::<Seq<char>>).entries[j].enabled,
{
    lemma_built_entries_unset_all_unselected(cats);
}

/// The entries shown for one category: each label's entry in order, marked
/// selected and disabled when its identifier contains the current version.
pub fn get_version_list_menu(cat: &Category, current: &Option<String>) -> (r: Vec<MenuEntry>)
    ensures
        r.deep_view() == built_category(cat@, current.deep_view()),
{
    let mut entries: Vec<MenuEntry> = Vec::new();
    let n: usize = cat.labels.len();
    let mut i: usize = 0;
    while i < n
        invariant
            n == cat.labels.len(),
            i <= n,
            entries@.len() == i,
            forall|j: int|
                0 <= j < i as int ==> entries@[j]@ == built_category(
                    cat@,
                    current.deep_view(),
                )[j],
        decreases n - i,
    {
        let id = encode_menu_id(cat.prefix.as_str(), cat.labels[i].as_str());
        let sel: bool = match current {
            Some(cv) => str_contains(id.as_str(), cv.as_str()),
            None => false,
        };
        let entry = MenuEntry {
            id: id,
            label: cat.labels[i].clone(),
            selected: sel,
            enabled: !sel,
        };
        proof {
            let cur = current.deep_view();
            assert(cat@.labels[i as int] == cat.labels[i as int]@);
            assert(entry@ == built_entry(cat@.prefix, cat@.labels[i as int], cur));
            assert(built_category(cat@, cur)[i as int] == entry@);
        }
        entries.push(entry);
        i = i + 1;
    }
    proof {
        assert forall|j: int| 0 <= j < n as int implies entries.deep_view()[j] == built_category(
            cat@,
            current.deep_view(),
        )[j] by {
            assert(entries.deep_view()[j] == entries@[j]@);
        }
        assert(entries.deep_view() =~= built_category(cat@, current.deep_view()));
    }
    entries
}

/// Builds the whole menu state from the catalog and the store: every
/// category's entries in order, the current-version display text, and the
/// tooltip.
pub fn setup(catalog: &Vec<Category>, store: &VersionStore) -> (r: TrayMenu)
    ensures
        r@ == built_menu(catalog.deep_view(), store@),
{
    let current = store.get_current_version();
    let mut entries: Vec<MenuEntry> = Vec::new();
    let n: usize = catalog.len();
    let mut i: usize = 0;
    while i < n
        invariant
            n == catalog.len(),
            i <= n,
            current.deep_view() == store@,
            entries.deep_view() == built_entries(catalog.deep_view().subrange(0, i as int), store@),
        decreases n - i,
    {
        let mut part = get_version_list_menu(&catalog[i], &current);
        let ghost pre = entries.deep_view();
        let ghost pre_vec = entries@;
        let ghost part_dv = part.deep_view();
        let ghost part_vec = part@;
        entries.append(&mut part);
        proof {
            let cats = catalog.deep_view();
            lemma_built_entries_drop_last(cats.subrange(0, i + 1), store@);
            assert(cats.subrange(0, i + 1).drop_last() =~= cats.subrange(0, i as int));
            assert(built_entries(cats.subrange(0, i + 1).drop_last(), store@) == built_entries(
                cats.subrange(0, i as int),
                store@,
            ));
            assert(cats.subrange(0, i + 1).last() == cats[i as int]);
            assert(catalog[i as int]@ == cats[i as int]);
            assert(entries@ == pre_vec + part_vec);
            assert forall|j: int| 0 <= j < entries@.len() implies entries.deep_view()[j] == (pre
                + part_dv)[j] by {
                assert(entries.deep_view()[j] == entries@[j]@);
                if j < pre_vec.len() {
                    assert(entries@[j] == pre_vec[j]);
                    assert(pre[j] == pre_vec[j]@);
                } else {
                    assert(entries@[j] == part_vec[j - pre_vec.len()]);
                    assert(part_dv[j - pre_vec.len()] == part_vec[j - pre_vec.len()]@);
                }
            }
            assert(entries.deep_view() =~= pre + part_dv);
            assert(entries.deep_view() =~= built_entries(cats.subrange(0, i + 1), store@));
        }
        i = i + 1;
    }
    proof {
        assert(catalog.deep_view().subrange(0, n as int) =~= catalog.deep_view());
        assert(built_entries(catalog.deep_view().subrange(0, n as int), store@) == built_entries(
            catalog.deep_view(),
            store@,
        ));
    }
    let current_display = match &current {
        Some(cv) => cv.clone(),
        None => String::from_str("None"),
    };
    let tooltip_text = match &current {
        Some(cv) => cv.clone(),
        None => String::new(),
    };
    let tooltip = String::from_str("当前版本: ").concat(tooltip_text.as_str());
    proof {
        assert(tooltip_fallback(store@) =~= tooltip_text@);
    }
    TrayMenu { entries: entries, current_display: current_display, tooltip: tooltip }
}

} // verus!
