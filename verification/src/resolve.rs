//! From a reference such as `title/field` to the text of a field.
use vstd::prelude::*;

use crate::error::{api_error, not_found_error, ErrorView, FnoxError};
use crate::filter::{find_category, SecretFilter, Tags};
use crate::item::{EnpassItem, ItemView};
use crate::order::sort_distinct;
use crate::provider::EnpassProvider;
use crate::text::{chars_of, decimal_text, eq_ignore_ascii_case, join, same_text};

verus! {

// ---------------------------------------------------------------------------
// References
// ---------------------------------------------------------------------------

/// What a reference names: a title and, after its last slash, the label of a
/// field. A reference without a slash is a title.
pub open spec fn reference(value: Seq<char>) -> (Seq<char>, Option<Seq<char>>) {
    match value.index_of_last('/') {
        Some(i) => (value.take(i), Some(value.skip(i + 1))),
        None => (value, None),
    }
}

/// A reference is read by its last slash, wherever that is.
pub proof fn reference_at(value: Seq<char>, i: int)
    requires
        0 <= i < value.len(),
        value[i] == '/',
        forall|j: int| i < j < value.len() ==> value[j] != '/',
    ensures
        reference(value) == (value.take(i), Some(value.skip(i + 1))),
{
    value.index_of_last_ensures('/');
    assert(value.contains(value[i]));
}

impl EnpassProvider {
    /// Splits a reference into a title and the label of a field.
    ///
    /// - `my-item` is the title `my-item`;
    /// - `my-item/password` is the title `my-item` and the label `password`;
    /// - of several slashes the last one separates.
    pub fn parse_reference<'a>(value: &'a str) -> (r: (&'a str, Option<&'a str>))
        ensures
            r.0@ == reference(value@).0,
            match r.1 {
                Some(label) => reference(value@).1 == Some(label@),
                None => reference(value@).1 is None,
            },
    {
        let chars = chars_of(value);
        let n: usize = chars.len();
        let mut i: usize = n;
        while i > 0 && chars[i - 1] != '/'
            invariant
                i <= n,
                n == chars.len(),
                chars@ == value@,
                forall|j: int| i <= j < n ==> value@[j] != '/',
            decreases i,
        {
            i = i - 1;
        }
        if i == 0 {
            proof {
                value@.index_of_last_ensures('/');
            }
            (value, None)
        } else {
            proof {
                reference_at(value@, i - 1);
                assert(value@.subrange(0, i - 1) == value@.take(i - 1));
                assert(value@.subrange(i as int, n as int) == value@.skip(i as int));
            }
            (value.substring_char(0, i - 1), Some(value.substring_char(i, n)))
        }
    }
}

// ---------------------------------------------------------------------------
// What a reference resolves to
// ---------------------------------------------------------------------------

/// Whether a field belongs to an item with this title, up to ASCII case, that is
/// neither in the trash nor deleted.
pub open spec fn is_match(item: ItemView, title: Seq<char>) -> bool {
    crate::text::same_ignoring_case(item.title, title) && item.trashed == 0 && item.deleted == 0
}

/// The fields of the items with this title.
pub open spec fn matching(items: Seq<ItemView>, title: Seq<char>) -> Seq<ItemView> {
    items.filter(|i: ItemView| is_match(i, title))
}

/// The UUIDs of the fields' items.
pub open spec fn uuids_of(items: Seq<ItemView>) -> Seq<Seq<char>> {
    items.map_values(|i: ItemView| i.uuid)
}

/// The items among the fields, by UUID, once each and in ascending order.
pub open spec fn found_uuids(fields: Seq<ItemView>) -> Seq<Seq<char>> {
    crate::order::distinct_sorted(uuids_of(fields))
}

/// The items that are left: those that pass the filter, or all where there is
/// none.
pub open spec fn kept_uuids(
    fields: Seq<ItemView>,
    filter: Option<Map<Seq<char>, Seq<Seq<char>>>>,
    tags: Map<Seq<char>, Seq<Seq<char>>>,
) -> Seq<Seq<char>> {
    match filter {
        Some(f) => found_uuids(fields).filter(
            |u: Seq<char>| crate::filter::passes(f, u, fields, tags),
        ),
        None => found_uuids(fields),
    }
}

/// One line about an item.
pub open spec fn item_line(
    uuid: Seq<char>,
    fields: Seq<ItemView>,
    tags: Map<Seq<char>, Seq<Seq<char>>>,
) -> Seq<char> {
    "  - uuid="@ + uuid + ", category='"@ + crate::filter::category_of(fields, uuid)
        + "', tags=["@ + crate::text::joined(crate::filter::tags_of(tags, uuid), ", "@) + "]"@
}

/// A line about each item.
pub open spec fn item_lines(
    uuids: Seq<Seq<char>>,
    fields: Seq<ItemView>,
    tags: Map<Seq<char>, Seq<Seq<char>>>,
) -> Seq<char> {
    crate::text::joined(uuids.map_values(|u: Seq<char>| item_line(u, fields, tags)), "\n"@)
}

/// The fields of one item.
pub open spec fn fields_of(fields: Seq<ItemView>, uuid: Seq<char>) -> Seq<ItemView> {
    fields.filter(|i: ItemView| i.uuid == uuid)
}

/// The fields that bear a label, up to ASCII case.
pub open spec fn labelled(fields: Seq<ItemView>, label: Seq<char>) -> Seq<ItemView> {
    fields.filter(|i: ItemView| crate::text::same_ignoring_case(i.label, label))
}

/// The sensitive fields.
pub open spec fn sensitive(fields: Seq<ItemView>) -> Seq<ItemView> {
    fields.filter(|i: ItemView| i.sensitive)
}

/// The field that a bare title stands for: the first sensitive one, or the first
/// of all where none is sensitive.
pub open spec fn default_field(fields: Seq<ItemView>) -> ItemView {
    if sensitive(fields).len() > 0 {
        sensitive(fields)[0]
    } else {
        fields[0]
    }
}

/// The text of the field that a label, or the lack of one, picks from the fields
/// of one item.
pub open spec fn picked(
    fields: Seq<ItemView>,
    value: Seq<char>,
    title: Seq<char>,
    label: Option<Seq<char>>,
) -> Result<Seq<char>, ErrorView> {
    match label {
        Some(l) => if labelled(fields, l).len() > 0 {
            crate::item::field_text(labelled(fields, l)[0])
        } else {
            Err(
                crate::error::not_found(
                    value,
                    "Field '"@ + l + "' not found in item '"@ + title + "'. Available fields: "@
                        + crate::text::joined(
                        fields.map_values(|i: ItemView| i.label),
                        ", "@,
                    ),
                ),
            )
        },
        None => crate::item::field_text(default_field(fields)),
    }
}

/// What a reference resolves to. Where the title is unknown, or no item with it
/// passes the filter, the secret is not found. Where several items pass a
/// filter, the reference is ambiguous; without a filter, the item with the
/// smallest UUID is meant.
pub open spec fn resolved(
    items: Seq<ItemView>,
    value: Seq<char>,
    filter: Option<Map<Seq<char>, Seq<Seq<char>>>>,
    tags: Map<Seq<char>, Seq<Seq<char>>>,
) -> Result<Seq<char>, ErrorView> {
    let (title, label) = reference(value);
    let fields = matching(items, title);
    let kept = kept_uuids(fields, filter, tags);
    if fields.len() == 0 {
        Err(crate::error::not_found(title, "Check that the item title exists in the vault"@))
    } else if kept.len() == 0 {
        Err(
            crate::error::not_found(
                value,
                "No items named '"@ + title + "' matched the filter. Available items:\n"@
                    + item_lines(found_uuids(fields), fields, tags),
            ),
        )
    } else if kept.len() > 1 && filter is Some {
        Err(
            crate::error::api_failure(
                "Multiple items named '"@ + title + "' found ("@ + crate::text::decimal(kept.len())
                    + " matches)"@,
                "Use 'filter' to disambiguate. Matching items:\n"@ + item_lines(kept, fields, tags)
                    + "\nExample: filter = { tag = \"my-tag\" } or filter = { Username = \"user@example.com\" }"@,
            ),
        )
    } else {
        picked(fields_of(fields, kept[0]), value, title, label)
    }
}

// ---------------------------------------------------------------------------
// Resolving
// ---------------------------------------------------------------------------

/// The fields of the items with this title.
fn matching_items<'a>(items: &'a [EnpassItem], title: &str) -> (r: Vec<&'a EnpassItem>)
    ensures
        crate::item::item_refs_view(r@) == matching(crate::item::items_view(items@), title@),
{
    let ghost all = crate::item::items_view(items@);
    let ghost keep = |i: ItemView| is_match(i, title@);
    let mut r: Vec<&'a EnpassItem> = Vec::new();
    let mut i: usize = 0;
    proof {
        reveal(Seq::filter);
        assert(crate::item::item_refs_view(r@) =~= all.take(0).filter(keep));
    }
    while i < items.len()
        invariant
            i <= items.len(),
            all == crate::item::items_view(items@),
            keep == (|i: ItemView| is_match(i, title@)),
            crate::item::item_refs_view(r@) == all.take(i as int).filter(keep),
        decreases items.len() - i,
    {
        proof {
            crate::sequences::filter_next(all, keep, i as int);
            assert(all[i as int] == items@[i as int]@);
        }
        let item = &items[i];
        let ghost earlier = r@;
        if eq_ignore_ascii_case(item.title.as_str(), title) && item.trashed == 0 && item.deleted
            == 0 {
            r.push(item);
            assert(crate::item::item_refs_view(r@) =~= crate::item::item_refs_view(earlier).push(
                item@,
            ));
        }
        i = i + 1;
    }
    assert(all.take(all.len() as int) == all);
    r
}

/// The fields of one item.
fn item_fields<'a>(fields: &Vec<&'a EnpassItem>, uuid: &str) -> (r: Vec<&'a EnpassItem>)
    ensures
        crate::item::item_refs_view(r@) == fields_of(
            crate::item::item_refs_view(fields@),
            uuid@,
        ),
{
    let ghost all = crate::item::item_refs_view(fields@);
    let ghost keep = |i: ItemView| i.uuid == uuid@;
    let mut r: Vec<&'a EnpassItem> = Vec::new();
    let mut i: usize = 0;
    proof {
        reveal(Seq::filter);
        assert(crate::item::item_refs_view(r@) =~= all.take(0).filter(keep));
    }
    while i < fields.len()
        invariant
            i <= fields.len(),
            all == crate::item::item_refs_view(fields@),
            keep == (|i: ItemView| i.uuid == uuid@),
            crate::item::item_refs_view(r@) == all.take(i as int).filter(keep),
        decreases fields.len() - i,
    {
        proof {
            crate::sequences::filter_next(all, keep, i as int);
            assert(all[i as int] == fields@[i as int]@);
        }
        let field = fields[i];
        let ghost earlier = r@;
        if same_text(field.uuid.as_str(), uuid) {
            r.push(field);
            assert(crate::item::item_refs_view(r@) =~= crate::item::item_refs_view(earlier).push(
                field@,
            ));
        }
        i = i + 1;
    }
    assert(all.take(all.len() as int) == all);
    r
}

/// The UUIDs of the fields' items, once each and in ascending order.
fn distinct_uuids<'a>(fields: &Vec<&'a EnpassItem>) -> (r: Vec<&'a str>)
    ensures
        crate::text::strs(r@) == found_uuids(crate::item::item_refs_view(fields@)),
        crate::order::lists(
            crate::text::strs(r@),
            uuids_of(crate::item::item_refs_view(fields@)),
        ),
{
    let mut uuids: Vec<&'a str> = Vec::new();
    let mut i: usize = 0;
    while i < fields.len()
        invariant
            i <= fields.len(),
            uuids.len() == i,
            forall|j: int| 0 <= j < i ==> (#[trigger] uuids@[j])@ == fields@[j]@.uuid,
        decreases fields.len() - i,
    {
        uuids.push(fields[i].uuid.as_str());
        i = i + 1;
    }
    let ghost all = uuids_of(crate::item::item_refs_view(fields@));
    assert(crate::text::strs(uuids@) =~= all);
    sort_distinct(&uuids)
}

/// A line about each item.
fn describe_items(uuids: &Vec<&str>, fields: &Vec<&EnpassItem>, tags: &Tags) -> (r: String)
    ensures
        r@ == item_lines(
            crate::text::strs(uuids@),
            crate::item::item_refs_view(fields@),
            tags@,
        ),
{
    let ghost all = crate::text::strs(uuids@);
    let ghost views = crate::item::item_refs_view(fields@);
    let mut lines: Vec<String> = Vec::new();
    let mut i: usize = 0;
    while i < uuids.len()
        invariant
            i <= uuids.len(),
            lines.len() == i,
            all == crate::text::strs(uuids@),
            views == crate::item::item_refs_view(fields@),
            forall|j: int|
                0 <= j < i ==> (#[trigger] lines@[j])@ == item_line(all[j], views, tags@),
        decreases uuids.len() - i,
    {
        let names = tags.get(uuids[i]);
        let line = "  - uuid=".to_owned().concat(uuids[i]).concat(", category='").concat(
            find_category(fields.as_slice(), uuids[i]),
        ).concat("', tags=[").concat(join(&names, ", ").as_str()).concat("]");
        lines.push(line);
        i = i + 1;
    }
    assert(crate::text::strings(lines@) =~= all.map_values(
        |u: Seq<char>| item_line(u, views, tags@),
    ));
    join(&lines, "\n")
}

/// The labels of the fields.
fn describe_labels(fields: &Vec<&EnpassItem>) -> (r: String)
    ensures
        r@ == crate::text::joined(
            crate::item::item_refs_view(fields@).map_values(|i: ItemView| i.label),
            ", "@,
        ),
{
    let mut labels: Vec<String> = Vec::new();
    let mut i: usize = 0;
    while i < fields.len()
        invariant
            i <= fields.len(),
            labels.len() == i,
            forall|j: int| 0 <= j < i ==> (#[trigger] labels@[j])@ == fields@[j]@.label,
        decreases fields.len() - i,
    {
        labels.push(fields[i].label.clone());
        i = i + 1;
    }
    assert(crate::text::strings(labels@) =~= crate::item::item_refs_view(fields@).map_values(
        |i: ItemView| i.label,
    ));
    join(&labels, ", ")
}

/// The first field that bears a label.
fn find_labelled<'a>(fields: &Vec<&'a EnpassItem>, label: &str) -> (r: Option<&'a EnpassItem>)
    ensures
        match r {
            Some(field) => {
                &&& labelled(crate::item::item_refs_view(fields@), label@).len() > 0
                &&& labelled(crate::item::item_refs_view(fields@), label@)[0] == field@
            },
            None => labelled(crate::item::item_refs_view(fields@), label@).len() == 0,
        },
{
    let ghost all = crate::item::item_refs_view(fields@);
    let ghost wanted = |i: ItemView| crate::text::same_ignoring_case(i.label, label@);
    let mut i: usize = 0;
    while i < fields.len()
        invariant
            i <= fields.len(),
            all == crate::item::item_refs_view(fields@),
            wanted == (|i: ItemView| crate::text::same_ignoring_case(i.label, label@)),
            forall|j: int| 0 <= j < i ==> !wanted(#[trigger] all[j]),
        decreases fields.len() - i,
    {
        assert(all[i as int] == fields@[i as int]@);
        if eq_ignore_ascii_case(fields[i].label.as_str(), label) {
            proof {
                crate::sequences::filter_first(all, wanted, i as int);
            }
            return Some(fields[i]);
        }
        i = i + 1;
    }
    proof {
        crate::sequences::filter_none(all, wanted);
    }
    None
}

/// The field that a bare title stands for.
fn find_default<'a>(fields: &Vec<&'a EnpassItem>) -> (r: &'a EnpassItem)
    requires
        fields@.len() > 0,
    ensures
        r@ == default_field(crate::item::item_refs_view(fields@)),
{
    let ghost all = crate::item::item_refs_view(fields@);
    let ghost wanted = |i: ItemView| i.sensitive;
    let mut i: usize = 0;
    while i < fields.len()
        invariant
            i <= fields.len(),
            all == crate::item::item_refs_view(fields@),
            wanted == (|i: ItemView| i.sensitive),
            forall|j: int| 0 <= j < i ==> !wanted(#[trigger] all[j]),
        decreases fields.len() - i,
    {
        assert(all[i as int] == fields@[i as int]@);
        if fields[i].sensitive {
            proof {
                crate::sequences::filter_first(all, wanted, i as int);
            }
            return fields[i];
        }
        i = i + 1;
    }
    proof {
        crate::sequences::filter_none(all, wanted);
        assert(all[0] == fields@[0]@);
    }
    fields[0]
}

/// Each item that is left has a field.
pub(crate) proof fn kept_has_field(
    fields: Seq<ItemView>,
    filter: Option<Map<Seq<char>, Seq<Seq<char>>>>,
    tags: Map<Seq<char>, Seq<Seq<char>>>,
    k: int,
)
    requires
        0 <= k < kept_uuids(fields, filter, tags).len(),
        crate::order::lists(found_uuids(fields), uuids_of(fields)),
    ensures
        fields_of(fields, kept_uuids(fields, filter, tags)[k]).len() > 0,
{
    let uuid = kept_uuids(fields, filter, tags)[k];
    let found = found_uuids(fields);
    match filter {
        Some(f) => {
            let i = crate::sequences::filter_element(
                found,
                |u: Seq<char>| crate::filter::passes(f, u, fields, tags),
                k,
            );
            assert(found[i] == uuid);
        },
        None => {
            assert(found[k] == uuid);
        },
    }
    assert(found.contains(uuid));
    assert(uuids_of(fields).contains(uuid));
    let m = choose|m: int| 0 <= m < uuids_of(fields).len() && uuids_of(fields)[m] == uuid;
    let at = crate::sequences::filter_position(fields, |i: ItemView| i.uuid == uuid, m);
}

impl EnpassProvider {
    /// Resolves a reference among the fields of a vault.
    pub fn resolve_from_items_filtered(
        items: &[EnpassItem],
        value: &str,
        filter: Option<&SecretFilter>,
        tags: &Tags,
    ) -> (r: Result<String, FnoxError>)
        ensures
            crate::error::text_outcome(r) == resolved(
                crate::item::items_view(items@),
                value@,
                match filter {
                    Some(f) => Some(f@),
                    None => None,
                },
                tags@,
            ),
    {
        let (title, label) = Self::parse_reference(value);
        let fields = matching_items(items, title);
        if fields.len() == 0 {
            return Err(
                not_found_error(
                    title,
                    "Check that the item title exists in the vault".to_owned(),
                ),
            );
        }
        let ghost views = crate::item::item_refs_view(fields@);
        let found = distinct_uuids(&fields);
        let kept = match filter {
            Some(f) => match Self::apply_filter(found.as_slice(), f, fields.as_slice(), tags) {
                Ok(kept) => kept,
                Err(e) => return Err(e),
            },
            None => found.clone(),
        };
        if kept.len() == 0 {
            let hint = "No items named '".to_owned().concat(title).concat(
                "' matched the filter. Available items:\n",
            ).concat(describe_items(&found, &fields, tags).as_str());
            return Err(not_found_error(value, hint));
        }
        if kept.len() > 1 && filter.is_some() {
            let details = "Multiple items named '".to_owned().concat(title).concat(
                "' found (",
            ).concat(decimal_text(kept.len()).as_str()).concat(" matches)");
            let hint = "Use 'filter' to disambiguate. Matching items:\n".to_owned().concat(
                describe_items(&kept, &fields, tags).as_str(),
            ).concat(
                "\nExample: filter = { tag = \"my-tag\" } or filter = { Username = \"user@example.com\" }",
            );
            return Err(api_error(details, hint.as_str()));
        }
        let own = item_fields(&fields, kept[0]);
        proof {
            let criteria = match filter {
                Some(f) => Some(f@),
                None => None,
            };
            assert(crate::text::strs(kept@) == kept_uuids(views, criteria, tags@));
            kept_has_field(views, criteria, tags@, 0);
        }
        match label {
            Some(label) => match find_labelled(&own, label) {
                Some(field) => Self::decrypt_field(field),
                None => {
                    let hint = "Field '".to_owned().concat(label).concat(
                        "' not found in item '",
                    ).concat(title).concat("'. Available fields: ").concat(
                        describe_labels(&own).as_str(),
                    );
                    Err(not_found_error(value, hint))
                },
            },
            None => Self::decrypt_field(find_default(&own)),
        }
    }
}

} // verus!
