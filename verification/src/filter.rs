//! Filters that narrow down which of several items with one title is meant.
use vstd::hash_map::StringHashMap;
use vstd::prelude::*;

use crate::error::FnoxError;
use crate::item::{EnpassItem, ItemView};
use crate::provider::EnpassProvider;
use crate::text::{eq_ignore_ascii_case, same_text, to_ascii_lowercase};

verus! {

// ---------------------------------------------------------------------------
// Filters
// ---------------------------------------------------------------------------

/// The value or values that one criterion of a filter asks for.
#[derive(Debug)]
pub enum FilterValue {
    Single(String),
    Multiple(Vec<String>),
}

impl View for FilterValue {
    type V = Seq<Seq<char>>;

    open spec fn view(&self) -> Seq<Seq<char>> {
        match self {
            FilterValue::Single(s) => seq![s@],
            FilterValue::Multiple(v) => crate::text::strings(v@),
        }
    }
}

impl FilterValue {
    /// The values asked for, in order.
    pub fn values(&self) -> (r: Vec<&str>)
        ensures
            crate::text::strs(r@) == self@,
    {
        let mut r: Vec<&str> = Vec::new();
        match self {
            FilterValue::Single(s) => {
                r.push(s.as_str());
                assert(crate::text::strs(r@) =~= self@);
            },
            FilterValue::Multiple(v) => {
                let mut i: usize = 0;
                while i < v.len()
                    invariant
                        i <= v.len(),
                        r.len() == i,
                        forall|j: int| 0 <= j < i ==> (#[trigger] r@[j])@ == v@[j]@,
                    decreases v.len() - i,
                {
                    r.push(v[i].as_str());
                    i = i + 1;
                }
                assert(crate::text::strs(r@) =~= self@);
            },
        }
        r
    }
}

/// The criteria that the entries make up: a later entry for a key replaces an
/// earlier one.
pub open spec fn criteria_of(entries: Seq<(String, FilterValue)>) -> Map<Seq<char>, Seq<Seq<char>>>
    decreases entries.len(),
{
    if entries.len() == 0 {
        Map::empty()
    } else {
        criteria_of(entries.drop_last()).insert(entries.last().0@, entries.last().1@)
    }
}

/// A filter: for each of its keys, the values asked for.
#[derive(Debug)]
pub struct SecretFilter {
    entries: Vec<(String, FilterValue)>,
}

impl View for SecretFilter {
    type V = Map<Seq<char>, Seq<Seq<char>>>;

    closed spec fn view(&self) -> Map<Seq<char>, Seq<Seq<char>>> {
        criteria_of(self.entries@)
    }
}

/// Each entry stands in the criteria, and nothing else does, where no key
/// occurs twice.
proof fn criteria_entries(entries: Seq<(String, FilterValue)>)
    requires
        forall|i: int, j: int|
            0 <= i < j < entries.len() ==> (#[trigger] entries[i]).0@ != (#[trigger] entries[j]).0@,
    ensures
        forall|i: int|
            0 <= i < entries.len() ==> criteria_of(entries).contains_key(
                (#[trigger] entries[i]).0@,
            ) && criteria_of(entries)[entries[i].0@] == entries[i].1@,
        forall|k: Seq<char>| #[trigger]
            criteria_of(entries).contains_key(k) ==> exists|i: int|
                0 <= i < entries.len() && (#[trigger] entries[i]).0@ == k,
    decreases entries.len(),
{
    if entries.len() > 0 {
        let rest = entries.drop_last();
        criteria_entries(rest);
        assert forall|i: int| 0 <= i < entries.len() implies criteria_of(entries).contains_key(
            (#[trigger] entries[i]).0@,
        ) && criteria_of(entries)[entries[i].0@] == entries[i].1@ by {
            if i < rest.len() {
                assert(rest[i] == entries[i]);
            }
        }
        assert forall|k: Seq<char>| #[trigger] criteria_of(entries).contains_key(k) implies exists|
            i: int,
        |
            0 <= i < entries.len() && (#[trigger] entries[i]).0@ == k by {
            if k == entries.last().0@ {
                assert(entries[entries.len() - 1].0@ == k);
            } else {
                assert(criteria_of(rest).contains_key(k));
                let i = choose|i: int| 0 <= i < rest.len() && (#[trigger] rest[i]).0@ == k;
                assert(entries[i].0@ == k);
            }
        }
    }
}

impl SecretFilter {
    /// No key occurs twice.
    #[verifier::type_invariant]
    spec fn distinct_keys(self) -> bool {
        forall|i: int, j: int|
            0 <= i < j < self.entries@.len() ==> (#[trigger] self.entries@[i]).0@ != (
            #[trigger] self.entries@[j]).0@
    }

    /// A filter without criteria.
    pub fn new() -> (r: SecretFilter)
        ensures
            r@ == Map::<Seq<char>, Seq<Seq<char>>>::empty(),
    {
        SecretFilter { entries: Vec::new() }
    }

    /// Asks for `value` under `key`, in place of what was asked for under it.
    pub fn insert(&mut self, key: String, value: FilterValue)
        ensures
            final(self)@ == old(self)@.insert(key@, value@),
    {
        proof {
            use_type_invariant(&*self);
        }
        let ghost before = self.entries@;
        let mut entries: Vec<(String, FilterValue)> = Vec::new();
        std::mem::swap(&mut entries, &mut self.entries);
        let mut i: usize = 0;
        while i < entries.len() && !same_text(entries[i].0.as_str(), key.as_str())
            invariant
                i <= entries.len(),
                forall|j: int| 0 <= j < i ==> (#[trigger] entries@[j]).0@ != key@,
            decreases entries.len() - i,
        {
            i = i + 1;
        }
        proof {
            criteria_entries(before);
        }
        if i < entries.len() {
            entries.set(i, (key, value));
        } else {
            entries.push((key, value));
        }
        proof {
            criteria_entries(entries@);
            let replaced = criteria_of(before).insert(key@, value@);
            assert forall|k: Seq<char>|
                criteria_of(entries@).contains_key(k) == replaced.contains_key(k) by {
                if criteria_of(entries@).contains_key(k) {
                    let j = choose|j: int|
                        0 <= j < entries@.len() && (#[trigger] entries@[j]).0@ == k;
                    if j != i {
                        assert(before[j] == entries@[j]);
                    }
                }
                if replaced.contains_key(k) {
                    if k == key@ {
                        assert(entries@[i as int].0@ == k);
                    } else {
                        let j = choose|j: int| 0 <= j < before.len() && (#[trigger] before[j]).0@ == k;
                        assert(entries@[j].0@ == k);
                    }
                }
            }
            assert forall|k: Seq<char>| criteria_of(entries@).contains_key(k) implies criteria_of(
                entries@,
            )[k] == replaced[k] by {
                let j = choose|j: int| 0 <= j < entries@.len() && (#[trigger] entries@[j]).0@ == k;
                if j != i {
                    assert(before[j] == entries@[j]);
                }
            }
            assert(criteria_of(entries@) =~= replaced);
        }
        self.entries = entries;
    }
}

// ---------------------------------------------------------------------------
// Tags
// ---------------------------------------------------------------------------

/// The names of the folders and tags that hold an item, by the item's UUID.
pub struct Tags {
    names: StringHashMap<Vec<String>>,
}

impl View for Tags {
    type V = Map<Seq<char>, Seq<Seq<char>>>;

    closed spec fn view(&self) -> Map<Seq<char>, Seq<Seq<char>>> {
        self.names@.map_values(|v: Vec<String>| crate::text::strings(v@))
    }
}

/// The tags of an item; an item without an entry has none.
pub open spec fn tags_of(tags: Map<Seq<char>, Seq<Seq<char>>>, uuid: Seq<char>) -> Seq<Seq<char>> {
    if tags.contains_key(uuid) {
        tags[uuid]
    } else {
        Seq::empty()
    }
}

impl Tags {
    /// No item has tags.
    pub fn new() -> (r: Tags)
        ensures
            r@ == Map::<Seq<char>, Seq<Seq<char>>>::empty(),
    {
        let r = Tags { names: StringHashMap::new() };
        assert(r@ =~= Map::empty());
        r
    }

    /// Gives an item these tags, in place of those it had.
    pub fn insert(&mut self, uuid: String, names: Vec<String>)
        ensures
            final(self)@ == old(self)@.insert(uuid@, crate::text::strings(names@)),
    {
        self.names.insert(uuid, names);
        assert(self@ =~= old(self)@.insert(uuid@, crate::text::strings(names@)));
    }

    /// Gives an item one more tag.
    pub fn push(&mut self, uuid: String, name: String)
        ensures
            final(self)@ == old(self)@.insert(uuid@, tags_of(old(self)@, uuid@).push(name@)),
    {
        let mut names = self.get(uuid.as_str());
        let ghost earlier = names@;
        names.push(name);
        assert(crate::text::strings(names@) =~= crate::text::strings(earlier).push(name@));
        self.insert(uuid, names);
    }

    /// The tags of an item, in the order in which it got them.
    pub fn get(&self, uuid: &str) -> (r: Vec<String>)
        ensures
            crate::text::strings(r@) == tags_of(self@, uuid@),
    {
        match self.names.get(uuid) {
            Some(names) => {
                let r = names.clone();
                assert(r@ =~= names@);
                r
            },
            None => {
                let r: Vec<String> = Vec::new();
                assert(crate::text::strings(r@) =~= Seq::empty());
                r
            },
        }
    }
}

// ---------------------------------------------------------------------------
// Criteria
// ---------------------------------------------------------------------------

/// The item's category: that of the first of its fields, or nothing where there
/// is none.
pub open spec fn category_of(items: Seq<ItemView>, uuid: Seq<char>) -> Seq<char> {
    let fields = items.filter(|i: ItemView| i.uuid == uuid);
    if fields.len() > 0 {
        fields[0].category
    } else {
        Seq::empty()
    }
}

/// Whether a value means yes.
pub open spec fn means_yes(value: Seq<char>) -> bool {
    let v = crate::text::lowercase(value);
    v == "true"@ || v == "1"@ || v == "yes"@
}

/// Whether one of the values is the same as `s` up to ASCII case.
pub open spec fn any_same(values: Seq<Seq<char>>, s: Seq<char>) -> bool {
    exists|j: int| 0 <= j < values.len() && crate::text::same_ignoring_case(#[trigger] values[j], s)
}

/// Whether one of the values says yes exactly when `flag` holds.
pub open spec fn any_says(values: Seq<Seq<char>>, flag: bool) -> bool {
    exists|j: int| 0 <= j < values.len() && means_yes(#[trigger] values[j]) == flag
}

/// Whether a field belongs to the item, bears the label `key` and holds one of
/// the values. A field whose value cannot be read holds none.
pub open spec fn field_holds(
    item: ItemView,
    key: Seq<char>,
    values: Seq<Seq<char>>,
    uuid: Seq<char>,
) -> bool {
    &&& item.uuid == uuid
    &&& crate::text::same_ignoring_case(item.label, key)
    &&& crate::item::field_text(item) matches Ok(text)
    &&& any_same(values, text)
}

/// Whether an item meets one criterion. The keys `tag`, `tags` and `folder` ask
/// for all of the values among the item's tags. The key `category` asks for one
/// of the values, `favorite` (or `fav`) and `archived` for a value that agrees
/// with the item. Any other key is the label of a field that holds one of the
/// values. Case does not matter, neither in keys nor in values.
pub open spec fn meets(
    key: Seq<char>,
    values: Seq<Seq<char>>,
    uuid: Seq<char>,
    items: Seq<ItemView>,
    tags: Map<Seq<char>, Seq<Seq<char>>>,
) -> bool {
    let k = crate::text::lowercase(key);
    if k == "tag"@ || k == "tags"@ || k == "folder"@ {
        forall|j: int|
            0 <= j < values.len() ==> any_same(tags_of(tags, uuid), #[trigger] values[j])
    } else if k == "category"@ {
        any_same(values, category_of(items, uuid))
    } else if k == "favorite"@ || k == "fav"@ {
        any_says(
            values,
            exists|i: int| 0 <= i < items.len() && (#[trigger] items[i]).uuid == uuid && items[i].favorite,
        )
    } else if k == "archived"@ {
        any_says(
            values,
            exists|i: int| 0 <= i < items.len() && (#[trigger] items[i]).uuid == uuid && items[i].archived,
        )
    } else {
        exists|i: int| 0 <= i < items.len() && field_holds(#[trigger] items[i], key, values, uuid)
    }
}

/// Whether an item meets every criterion of a filter.
pub open spec fn passes(
    filter: Map<Seq<char>, Seq<Seq<char>>>,
    uuid: Seq<char>,
    items: Seq<ItemView>,
    tags: Map<Seq<char>, Seq<Seq<char>>>,
) -> bool {
    forall|key: Seq<char>| #[trigger]
        filter.contains_key(key) ==> meets(key, filter[key], uuid, items, tags)
}

/// Whether one of the values is the same as `s` up to ASCII case.
fn any_value_same(values: &Vec<&str>, s: &str) -> (r: bool)
    ensures
        r == any_same(crate::text::strs(values@), s@),
{
    let ghost texts = crate::text::strs(values@);
    let mut i: usize = 0;
    while i < values.len()
        invariant
            i <= values.len(),
            texts == crate::text::strs(values@),
            forall|j: int|
                0 <= j < i ==> !crate::text::same_ignoring_case(#[trigger] texts[j], s@),
        decreases values.len() - i,
    {
        if eq_ignore_ascii_case(values[i], s) {
            assert(crate::text::same_ignoring_case(texts[i as int], s@));
            return true;
        }
        i = i + 1;
    }
    false
}

/// Whether one of the names is the same as `s` up to ASCII case.
fn any_name_same(names: &Vec<String>, s: &str) -> (r: bool)
    ensures
        r == any_same(crate::text::strings(names@), s@),
{
    let ghost texts = crate::text::strings(names@);
    let mut i: usize = 0;
    while i < names.len()
        invariant
            i <= names.len(),
            texts == crate::text::strings(names@),
            forall|j: int|
                0 <= j < i ==> !crate::text::same_ignoring_case(#[trigger] texts[j], s@),
        decreases names.len() - i,
    {
        if eq_ignore_ascii_case(names[i].as_str(), s) {
            assert(crate::text::same_ignoring_case(texts[i as int], s@));
            return true;
        }
        i = i + 1;
    }
    false
}

/// Whether every value is among the names, up to ASCII case.
fn all_values_named(values: &Vec<&str>, names: &Vec<String>) -> (r: bool)
    ensures
        r == (forall|j: int|
            0 <= j < values@.len() ==> any_same(
                crate::text::strings(names@),
                #[trigger] crate::text::strs(values@)[j],
            )),
{
    let ghost texts = crate::text::strs(values@);
    let mut i: usize = 0;
    while i < values.len()
        invariant
            i <= values.len(),
            texts == crate::text::strs(values@),
            forall|j: int|
                0 <= j < i ==> any_same(crate::text::strings(names@), #[trigger] texts[j]),
        decreases values.len() - i,
    {
        if !any_name_same(names, values[i]) {
            assert(!any_same(crate::text::strings(names@), texts[i as int]));
            return false;
        }
        i = i + 1;
    }
    true
}

/// Whether one of the values says yes exactly when `flag` holds.
fn any_value_says(values: &Vec<&str>, flag: bool) -> (r: bool)
    ensures
        r == any_says(crate::text::strs(values@), flag),
{
    let ghost texts = crate::text::strs(values@);
    let mut i: usize = 0;
    while i < values.len()
        invariant
            i <= values.len(),
            texts == crate::text::strs(values@),
            forall|j: int| 0 <= j < i ==> means_yes(#[trigger] texts[j]) != flag,
        decreases values.len() - i,
    {
        let value = to_ascii_lowercase(values[i]);
        let yes = same_text(value.as_str(), "true") || same_text(value.as_str(), "1") || same_text(
            value.as_str(),
            "yes",
        );
        assert(yes == means_yes(texts[i as int]));
        if yes == flag {
            return true;
        }
        i = i + 1;
    }
    false
}

/// The item's category, or nothing where it has no field.
pub(crate) fn find_category<'a>(items: &[&'a EnpassItem], uuid: &str) -> (r: &'a str)
    ensures
        r@ == category_of(crate::item::item_refs_view(items@), uuid@),
{
    let ghost all = crate::item::item_refs_view(items@);
    let ghost own = |i: ItemView| i.uuid == uuid@;
    let mut i: usize = 0;
    while i < items.len()
        invariant
            i <= items.len(),
            all == crate::item::item_refs_view(items@),
            own == (|i: ItemView| i.uuid == uuid@),
            forall|j: int| 0 <= j < i ==> !own(#[trigger] all[j]),
        decreases items.len() - i,
    {
        assert(all[i as int] == items@[i as int]@);
        if same_text(items[i].uuid.as_str(), uuid) {
            proof {
                crate::sequences::filter_first(all, own, i as int);
            }
            return items[i].category.as_str();
        }
        i = i + 1;
    }
    proof {
        crate::sequences::filter_none(all, own);
        reveal_strlit("");
    }
    assert(""@ =~= Seq::empty());
    ""
}

/// Whether a field of the item is marked as a favorite.
fn has_favorite(items: &[&EnpassItem], uuid: &str) -> (r: bool)
    ensures
        r == exists|i: int|
            0 <= i < items@.len() && (#[trigger] crate::item::item_refs_view(items@)[i]).uuid
                == uuid@ && crate::item::item_refs_view(items@)[i].favorite,
{
    let ghost all = crate::item::item_refs_view(items@);
    let mut i: usize = 0;
    while i < items.len()
        invariant
            i <= items.len(),
            all == crate::item::item_refs_view(items@),
            forall|j: int| 0 <= j < i ==> !((#[trigger] all[j]).uuid == uuid@ && all[j].favorite),
        decreases items.len() - i,
    {
        assert(all[i as int] == items@[i as int]@);
        if same_text(items[i].uuid.as_str(), uuid) && items[i].favorite {
            return true;
        }
        i = i + 1;
    }
    false
}

/// Whether a field of the item is marked as archived.
fn has_archived(items: &[&EnpassItem], uuid: &str) -> (r: bool)
    ensures
        r == exists|i: int|
            0 <= i < items@.len() && (#[trigger] crate::item::item_refs_view(items@)[i]).uuid
                == uuid@ && crate::item::item_refs_view(items@)[i].archived,
{
    let ghost all = crate::item::item_refs_view(items@);
    let mut i: usize = 0;
    while i < items.len()
        invariant
            i <= items.len(),
            all == crate::item::item_refs_view(items@),
            forall|j: int| 0 <= j < i ==> !((#[trigger] all[j]).uuid == uuid@ && all[j].archived),
        decreases items.len() - i,
    {
        assert(all[i as int] == items@[i as int]@);
        if same_text(items[i].uuid.as_str(), uuid) && items[i].archived {
            return true;
        }
        i = i + 1;
    }
    false
}

/// Whether a field belongs to the item, bears the label `key` and holds one of
/// the values. A sensitive field is decrypted first; one that cannot be
/// decrypted holds none.
fn holds_value(item: &EnpassItem, key: &str, values: &Vec<&str>, uuid: &str) -> (r: bool)
    ensures
        r == field_holds(item@, key@, crate::text::strs(values@), uuid@),
{
    if !same_text(item.uuid.as_str(), uuid) || !eq_ignore_ascii_case(item.label.as_str(), key) {
        return false;
    }
    if item.sensitive {
        match EnpassProvider::decrypt_field(item) {
            Ok(value) => any_value_same(values, value.as_str()),
            Err(_) => false,
        }
    } else {
        any_value_same(values, item.value.as_str())
    }
}

/// Whether a field of the item bears the label `key` and holds one of the
/// values.
fn any_field_holds(key: &str, values: &Vec<&str>, uuid: &str, items: &[&EnpassItem]) -> (r: bool)
    ensures
        r == exists|i: int|
            0 <= i < items@.len() && field_holds(
                #[trigger] crate::item::item_refs_view(items@)[i],
                key@,
                crate::text::strs(values@),
                uuid@,
            ),
{
    let ghost all = crate::item::item_refs_view(items@);
    let mut i: usize = 0;
    while i < items.len()
        invariant
            i <= items.len(),
            all == crate::item::item_refs_view(items@),
            forall|j: int|
                0 <= j < i ==> !field_holds(
                    #[trigger] all[j],
                    key@,
                    crate::text::strs(values@),
                    uuid@,
                ),
        decreases items.len() - i,
    {
        assert(all[i as int] == items@[i as int]@);
        if holds_value(items[i], key, values, uuid) {
            return true;
        }
        i = i + 1;
    }
    false
}

/// Whether an item meets one criterion.
pub fn meets_criterion(
    key: &str,
    values: &Vec<&str>,
    uuid: &str,
    items: &[&EnpassItem],
    tags: &Tags,
) -> (r: bool)
    ensures
        r == meets(
            key@,
            crate::text::strs(values@),
            uuid@,
            crate::item::item_refs_view(items@),
            tags@,
        ),
{
    let lower = to_ascii_lowercase(key);
    let k = lower.as_str();
    if same_text(k, "tag") || same_text(k, "tags") || same_text(k, "folder") {
        let names = tags.get(uuid);
        all_values_named(values, &names)
    } else if same_text(k, "category") {
        any_value_same(values, find_category(items, uuid))
    } else if same_text(k, "favorite") || same_text(k, "fav") {
        any_value_says(values, has_favorite(items, uuid))
    } else if same_text(k, "archived") {
        any_value_says(values, has_archived(items, uuid))
    } else {
        any_field_holds(key, values, uuid, items)
    }
}

/// The items that meet one criterion, in their order.
fn retain_meeting<'a>(
    uuids: &Vec<&'a str>,
    key: &str,
    values: &Vec<&str>,
    items: &[&EnpassItem],
    tags: &Tags,
) -> (r: Vec<&'a str>)
    ensures
        crate::text::strs(r@) == crate::text::strs(uuids@).filter(
            |u: Seq<char>|
                meets(
                    key@,
                    crate::text::strs(values@),
                    u,
                    crate::item::item_refs_view(items@),
                    tags@,
                ),
        ),
{
    let ghost keep = |u: Seq<char>|
        meets(
            key@,
            crate::text::strs(values@),
            u,
            crate::item::item_refs_view(items@),
            tags@,
        );
    let ghost all = crate::text::strs(uuids@);
    let mut r: Vec<&'a str> = Vec::new();
    let mut i: usize = 0;
    proof {
        reveal(Seq::filter);
        assert(crate::text::strs(r@) =~= all.take(0).filter(keep));
    }
    while i < uuids.len()
        invariant
            i <= uuids.len(),
            all == crate::text::strs(uuids@),
            keep == (|u: Seq<char>|
                meets(
                    key@,
                    crate::text::strs(values@),
                    u,
                    crate::item::item_refs_view(items@),
                    tags@,
                )),
            crate::text::strs(r@) == all.take(i as int).filter(keep),
        decreases uuids.len() - i,
    {
        proof {
            crate::sequences::filter_next(all, keep, i as int);
        }
        let ghost earlier = r@;
        if meets_criterion(key, values, uuids[i], items, tags) {
            r.push(uuids[i]);
            assert(crate::text::strs(r@) =~= crate::text::strs(earlier).push(all[i as int]));
        }
        i = i + 1;
    }
    assert(all.take(all.len() as int) == all);
    r
}

impl EnpassProvider {
    /// The items that meet every criterion of the filter, in their order.
    pub fn apply_filter<'a>(
        uuids: &[&'a str],
        filter: &SecretFilter,
        items: &[&EnpassItem],
        tags: &Tags,
    ) -> (r: Result<Vec<&'a str>, FnoxError>)
        ensures
            r matches Ok(kept) && crate::text::strs(kept@) == crate::text::strs(uuids@).filter(
                |u: Seq<char>|
                    passes(filter@, u, crate::item::item_refs_view(items@), tags@),
            ),
    {
        let ghost fields = crate::item::item_refs_view(items@);
        let ghost all = crate::text::strs(uuids@);
        let ghost entries = filter.entries@;
        let ghost upto = |n: int|
            |u: Seq<char>|
                forall|j: int|
                    0 <= j < n ==> meets(
                        (#[trigger] entries[j]).0@,
                        entries[j].1@,
                        u,
                        fields,
                        tags@,
                    );
        proof {
            use_type_invariant(filter);
        }
        let mut kept: Vec<&'a str> = vstd::slice::slice_to_vec(uuids);
        let mut i: usize = 0;
        proof {
            crate::sequences::filter_all(all, upto(0));
        }
        while i < filter.entries.len()
            invariant
                i <= filter.entries.len(),
                entries == filter.entries@,
                fields == crate::item::item_refs_view(items@),
                all == crate::text::strs(uuids@),
                upto == (|n: int|
                    |u: Seq<char>|
                        forall|j: int|
                            0 <= j < n ==> meets(
                                (#[trigger] entries[j]).0@,
                                entries[j].1@,
                                u,
                                fields,
                                tags@,
                            )),
                crate::text::strs(kept@) == all.filter(upto(i as int)),
            decreases filter.entries.len() - i,
        {
            let values = filter.entries[i].1.values();
            kept = retain_meeting(&kept, filter.entries[i].0.as_str(), &values, items, tags);
            proof {
                let key = entries[i as int].0@;
                let asked = entries[i as int].1@;
                let next = |u: Seq<char>| meets(key, asked, u, fields, tags@);
                crate::sequences::filter_both(all, upto(i as int), next);
                crate::sequences::filter_same(
                    all,
                    |u: Seq<char>| upto(i as int)(u) && next(u),
                    upto(i + 1),
                );
            }
            i = i + 1;
        }
        proof {
            criteria_entries(entries);
            let pass = |u: Seq<char>| passes(filter@, u, fields, tags@);
            assert forall|k: int| 0 <= k < all.len() implies upto(entries.len() as int)(
                #[trigger] all[k],
            ) == pass(all[k]) by {
                let u = all[k];
                if upto(entries.len() as int)(u) {
                    assert forall|key: Seq<char>| #[trigger] filter@.contains_key(key) implies meets(
                        key,
                        filter@[key],
                        u,
                        fields,
                        tags@,
                    ) by {
                        let j = choose|j: int|
                            0 <= j < entries.len() && (#[trigger] entries[j]).0@ == key;
                        assert(meets(entries[j].0@, entries[j].1@, u, fields, tags@));
                    }
                }
                if pass(u) {
                    assert forall|j: int| 0 <= j < entries.len() implies meets(
                        (#[trigger] entries[j]).0@,
                        entries[j].1@,
                        u,
                        fields,
                        tags@,
                    ) by {
                        assert(filter@.contains_key(entries[j].0@));
                    }
                }
            }
            crate::sequences::filter_same(all, upto(entries.len() as int), pass);
        }
        Ok(kept)
    }
}

} // verus!
