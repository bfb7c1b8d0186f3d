//! References and what they resolve to.
use vstd::prelude::*;

use crate::error::ErrorView;
use crate::item::ItemView;

verus! {

// ---------------------------------------------------------------------------
// References
// ---------------------------------------------------------------------------

/// A reference is its title, or its title, a slash and a label without slashes.
pub proof fn reference_is_title_and_label(value: Seq<char>)
    ensures
        match crate::resolve::reference(value) {
            (title, Some(label)) => value == title + seq!['/'] + label && !label.contains('/'),
            (title, None) => value == title && !value.contains('/'),
        },
{
    value.index_of_last_ensures('/');
    match value.index_of_last('/') {
        Some(i) => {
            assert(value == value.take(i) + seq!['/'] + value.skip(i + 1));
        },
        None => {},
    }
}

/// A title and a label without slashes, joined by a slash, are read back. The
/// title may hold slashes.
pub proof fn title_and_label_read_back(title: Seq<char>, label: Seq<char>)
    requires
        !label.contains('/'),
    ensures
        crate::resolve::reference(title + seq!['/'] + label) == (title, Some(label)),
{
    let value = title + seq!['/'] + label;
    let i = title.len() as int;
    assert forall|j: int| i < j < value.len() implies value[j] != '/' by {
        assert(value[j] == label[j - i - 1]);
        assert(label.contains(label[j - i - 1]));
    }
    crate::resolve::reference_at(value, i);
    assert(value.take(i) =~= title);
    assert(value.skip(i + 1) =~= label);
}

/// References that are the same up to ASCII case name the same title and label
/// up to ASCII case.
pub proof fn reference_ignores_case(a: Seq<char>, b: Seq<char>)
    requires
        crate::text::same_ignoring_case(a, b),
    ensures
        crate::text::same_ignoring_case(
            crate::resolve::reference(a).0,
            crate::resolve::reference(b).0,
        ),
        match (crate::resolve::reference(a).1, crate::resolve::reference(b).1) {
            (Some(x), Some(y)) => crate::text::same_ignoring_case(x, y),
            (None, None) => true,
            _ => false,
        },
{
    let la = crate::text::lowercase(a);
    let lb = crate::text::lowercase(b);
    assert(la.len() == a.len() && lb.len() == b.len());
    assert forall|i: int| 0 <= i < a.len() implies (#[trigger] a[i] == '/') == (b[i] == '/') by {
        assert(la[i] == lb[i]);
        assert(la[i] == crate::text::ascii_lower(a[i]));
        assert(lb[i] == crate::text::ascii_lower(b[i]));
    }
    a.index_of_last_ensures('/');
    b.index_of_last_ensures('/');
    match a.index_of_last('/') {
        Some(i) => {
            assert forall|j: int| i < j < b.len() implies b[j] != '/' by {
                assert(a[j] != '/');
            }
            crate::resolve::reference_at(b, i);
            assert(crate::text::lowercase(a.take(i)) =~= la.take(i));
            assert(crate::text::lowercase(b.take(i)) =~= lb.take(i));
            assert(crate::text::lowercase(a.skip(i + 1)) =~= la.skip(i + 1));
            assert(crate::text::lowercase(b.skip(i + 1)) =~= lb.skip(i + 1));
        },
        None => {
            if b.contains('/') {
                let i = choose|i: int| 0 <= i < b.len() && b[i] == '/';
                assert(a[i] == '/');
                assert(a.contains(a[i]));
            }
        },
    }
}

// ---------------------------------------------------------------------------
// Resolving
// ---------------------------------------------------------------------------

/// A secret that a reference resolves to under one spelling, it resolves to
/// under every spelling that differs in ASCII case only.
pub proof fn resolving_ignores_case(
    items: Seq<ItemView>,
    a: Seq<char>,
    b: Seq<char>,
    filter: Option<Map<Seq<char>, Seq<Seq<char>>>>,
    tags: Map<Seq<char>, Seq<Seq<char>>>,
)
    requires
        crate::text::same_ignoring_case(a, b),
    ensures
        crate::resolve::resolved(items, a, filter, tags) is Ok ==> crate::resolve::resolved(
            items,
            b,
            filter,
            tags,
        ) == crate::resolve::resolved(items, a, filter, tags),
{
    reference_ignores_case(a, b);
    let (ta, xa) = crate::resolve::reference(a);
    let (tb, xb) = crate::resolve::reference(b);
    crate::sequences::filter_same(
        items,
        |i: ItemView| crate::resolve::is_match(i, ta),
        |i: ItemView| crate::resolve::is_match(i, tb),
    );
    let fields = crate::resolve::matching(items, ta);
    let kept = crate::resolve::kept_uuids(fields, filter, tags);
    if fields.len() > 0 && kept.len() > 0 {
        let own = crate::resolve::fields_of(fields, kept[0]);
        match (xa, xb) {
            (Some(x), Some(y)) => {
                crate::sequences::filter_same(
                    own,
                    |i: ItemView| crate::text::same_ignoring_case(i.label, x),
                    |i: ItemView| crate::text::same_ignoring_case(i.label, y),
                );
            },
            _ => {},
        }
    }
}

/// Only fields of live items with the title count: any other fields may be left
/// out, and nothing changes.
pub proof fn only_matching_fields_count(
    items: Seq<ItemView>,
    keep: spec_fn(ItemView) -> bool,
    value: Seq<char>,
    filter: Option<Map<Seq<char>, Seq<Seq<char>>>>,
    tags: Map<Seq<char>, Seq<Seq<char>>>,
)
    requires
        forall|i: ItemView|
            crate::resolve::is_match(i, crate::resolve::reference(value).0) ==> #[trigger] keep(i),
    ensures
        crate::resolve::resolved(items.filter(keep), value, filter, tags)
            == crate::resolve::resolved(items, value, filter, tags),
{
    let title = crate::resolve::reference(value).0;
    let matches = |i: ItemView| crate::resolve::is_match(i, title);
    crate::sequences::filter_both(items, keep, matches);
    crate::sequences::filter_same(items, |i: ItemView| keep(i) && matches(i), matches);
}

/// What is in the trash or deleted is never found: a vault without it gives the
/// same secrets.
pub proof fn trash_is_never_found(
    items: Seq<ItemView>,
    value: Seq<char>,
    filter: Option<Map<Seq<char>, Seq<Seq<char>>>>,
    tags: Map<Seq<char>, Seq<Seq<char>>>,
)
    ensures
        crate::resolve::resolved(
            items.filter(|i: ItemView| i.trashed == 0 && i.deleted == 0),
            value,
            filter,
            tags,
        ) == crate::resolve::resolved(items, value, filter, tags),
{
    only_matching_fields_count(
        items,
        |i: ItemView| i.trashed == 0 && i.deleted == 0,
        value,
        filter,
        tags,
    );
}

/// A secret is the text of a field of a live item with the title; where the
/// reference has a label, the field bears it.
pub proof fn secret_is_text_of_a_match(
    items: Seq<ItemView>,
    value: Seq<char>,
    filter: Option<Map<Seq<char>, Seq<Seq<char>>>>,
    tags: Map<Seq<char>, Seq<Seq<char>>>,
) -> (at: int)
    requires
        crate::resolve::resolved(items, value, filter, tags) is Ok,
    ensures
        0 <= at < items.len(),
        crate::resolve::is_match(items[at], crate::resolve::reference(value).0),
        crate::resolve::reference(value).1 matches Some(label)
            ==> crate::text::same_ignoring_case(items[at].label, label),
        filter matches Some(f) ==> crate::filter::passes(
            f,
            items[at].uuid,
            crate::resolve::matching(items, crate::resolve::reference(value).0),
            tags,
        ),
        crate::item::field_text(items[at]) == crate::resolve::resolved(items, value, filter, tags),
{
    let (title, label) = crate::resolve::reference(value);
    let fields = crate::resolve::matching(items, title);
    let kept = crate::resolve::kept_uuids(fields, filter, tags);
    crate::order::listing_exists(crate::resolve::uuids_of(fields));
    crate::resolve::kept_has_field(fields, filter, tags, 0);
    let uuid = kept[0];
    let own = crate::resolve::fields_of(fields, uuid);
    let k = match label {
        Some(l) => crate::sequences::filter_element(
            own,
            |i: ItemView| crate::text::same_ignoring_case(i.label, l),
            0,
        ),
        None => if crate::resolve::sensitive(own).len() > 0 {
            crate::sequences::filter_element(own, |i: ItemView| i.sensitive, 0)
        } else {
            0
        },
    };
    let j = crate::sequences::filter_element(fields, |i: ItemView| i.uuid == uuid, k);
    match filter {
        Some(f) => {
            let m = crate::sequences::filter_element(
                crate::resolve::found_uuids(fields),
                |u: Seq<char>| crate::filter::passes(f, u, fields, tags),
                0,
            );
        },
        None => {},
    }
    crate::sequences::filter_element(items, |i: ItemView| crate::resolve::is_match(i, title), j)
}

/// A bare title stands for the first sensitive field of the item.
pub proof fn bare_title_stands_for_first_sensitive_field(
    fields: Seq<ItemView>,
    value: Seq<char>,
    title: Seq<char>,
    i: int,
)
    requires
        0 <= i < fields.len(),
        fields[i].sensitive,
        forall|j: int| 0 <= j < i ==> !(#[trigger] fields[j]).sensitive,
    ensures
        crate::resolve::picked(fields, value, title, None) == crate::item::field_text(fields[i]),
{
    crate::sequences::filter_first(fields, |f: ItemView| f.sensitive, i);
}

/// A bare title stands for the first field where the item has no sensitive one.
pub proof fn bare_title_stands_for_first_field_otherwise(
    fields: Seq<ItemView>,
    value: Seq<char>,
    title: Seq<char>,
)
    requires
        fields.len() > 0,
        forall|j: int| 0 <= j < fields.len() ==> !(#[trigger] fields[j]).sensitive,
    ensures
        crate::resolve::picked(fields, value, title, None) == crate::item::field_text(fields[0]),
{
    crate::sequences::filter_none(fields, |f: ItemView| f.sensitive);
}

/// A label picks the first field of the item that bears it, up to ASCII case.
pub proof fn label_picks_first_field_that_bears_it(
    fields: Seq<ItemView>,
    value: Seq<char>,
    title: Seq<char>,
    label: Seq<char>,
    i: int,
)
    requires
        0 <= i < fields.len(),
        crate::text::same_ignoring_case(fields[i].label, label),
        forall|j: int|
            0 <= j < i ==> !crate::text::same_ignoring_case((#[trigger] fields[j]).label, label),
    ensures
        crate::resolve::picked(fields, value, title, Some(label)) == crate::item::field_text(
            fields[i],
        ),
{
    crate::sequences::filter_first(
        fields,
        |f: ItemView| crate::text::same_ignoring_case(f.label, label),
        i,
    );
}

/// Without a filter a reference is never ambiguous: of the items with the title
/// the one with the smallest UUID is meant.
pub proof fn without_filter_smallest_uuid_is_meant(
    items: Seq<ItemView>,
    value: Seq<char>,
    tags: Map<Seq<char>, Seq<Seq<char>>>,
) -> (uuid: Seq<char>)
    requires
        crate::resolve::matching(items, crate::resolve::reference(value).0).len() > 0,
    ensures
        ({
            let (title, label) = crate::resolve::reference(value);
            let fields = crate::resolve::matching(items, title);
            &&& crate::resolve::uuids_of(fields).contains(uuid)
            &&& forall|i: int|
                0 <= i < fields.len() ==> (#[trigger] fields[i]).uuid == uuid
                    || crate::text::text_less(uuid, fields[i].uuid)
            &&& crate::resolve::resolved(items, value, None, tags) == crate::resolve::picked(
                crate::resolve::fields_of(fields, uuid),
                value,
                title,
                label,
            )
        }),
{
    let fields = crate::resolve::matching(items, crate::resolve::reference(value).0);
    let uuids = crate::resolve::uuids_of(fields);
    let found = crate::resolve::found_uuids(fields);
    crate::order::listing_exists(uuids);
    assert(uuids.contains(uuids[0]));
    assert(found.contains(uuids[0]));
    let uuid = found[0];
    assert(found.contains(uuid));
    assert forall|i: int| 0 <= i < fields.len() implies (#[trigger] fields[i]).uuid == uuid
        || crate::text::text_less(uuid, fields[i].uuid) by {
        assert(uuids.contains(uuids[i]));
        assert(found.contains(uuids[i]));
        let k = choose|k: int| 0 <= k < found.len() && found[k] == uuids[i];
        if k > 0 {
            assert(crate::text::text_less(found[0], found[k]));
        }
    }
    uuid
}

/// With a filter a secret is found only where exactly one item passes; where
/// several pass, the reference is ambiguous.
pub proof fn filtered_reference_is_unambiguous(
    items: Seq<ItemView>,
    value: Seq<char>,
    filter: Map<Seq<char>, Seq<Seq<char>>>,
    tags: Map<Seq<char>, Seq<Seq<char>>>,
)
    ensures
        ({
            let fields = crate::resolve::matching(items, crate::resolve::reference(value).0);
            let kept = crate::resolve::kept_uuids(fields, Some(filter), tags);
            let outcome = crate::resolve::resolved(items, value, Some(filter), tags);
            &&& outcome is Ok ==> kept.len() == 1
            &&& fields.len() > 0 && kept.len() > 1 ==> outcome is Err && outcome->Err_0 is ApiError
            &&& fields.len() > 0 && kept.len() == 0 ==> outcome is Err
                && outcome->Err_0 is SecretNotFound
        }),
{
}

/// A title that no live item has is not found, whatever the filter.
pub proof fn unknown_title_is_not_found(
    items: Seq<ItemView>,
    value: Seq<char>,
    filter: Option<Map<Seq<char>, Seq<Seq<char>>>>,
    tags: Map<Seq<char>, Seq<Seq<char>>>,
)
    requires
        forall|i: int|
            0 <= i < items.len() ==> !crate::resolve::is_match(
                #[trigger] items[i],
                crate::resolve::reference(value).0,
            ),
    ensures
        crate::resolve::resolved(items, value, filter, tags) == Err::<Seq<char>, ErrorView>(
            crate::error::not_found(
                crate::resolve::reference(value).0,
                "Check that the item title exists in the vault"@,
            ),
        ),
{
    crate::sequences::filter_none(
        items,
        |i: ItemView| crate::resolve::is_match(i, crate::resolve::reference(value).0),
    );
}

} // verus!
