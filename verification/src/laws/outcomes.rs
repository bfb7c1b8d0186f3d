//! Outcomes: the secret or the error that a reference gives, from the columns of
//! the fields.
use vstd::prelude::*;

use crate::error::ErrorView;
use crate::item::ItemView;

verus! {

/// A reference is read as the title and the label that it consists of.
pub proof fn reference_is_read(value: Seq<char>, title: Seq<char>, label: Option<Seq<char>>)
    requires
        crate::laws::plain::names(value, title, label),
    ensures
        crate::resolve::reference(value) == (title, label),
{
    match label {
        Some(l) => {
            crate::laws::resolving::title_and_label_read_back(title, l);
        },
        None => {
            crate::laws::resolving::reference_is_title_and_label(value);
            match crate::resolve::reference(value) {
                (t, Some(l)) => {
                    assert(value[t.len() as int] == '/');
                    assert(value.contains(value[t.len() as int]));
                },
                _ => {},
            }
        },
    }
}

/// The fields that count are those of live items whose whole title agrees.
pub proof fn whole_title_must_agree(items: Seq<ItemView>, title: Seq<char>)
    ensures
        crate::resolve::matching(items, title) == items.filter(
            |i: ItemView|
                crate::laws::plain::agree(i.title, title) && i.trashed == 0 && i.deleted == 0,
        ),
        crate::resolve::matching(items, title) == crate::laws::plain::live_fields(items, title),
{
    let p = |i: ItemView| crate::resolve::is_match(i, title);
    let q = |i: ItemView|
        crate::laws::plain::agree(i.title, title) && i.trashed == 0 && i.deleted == 0;
    let r = |i: ItemView| crate::laws::plain::is_live(i, title);
    assert forall|k: int| 0 <= k < items.len() implies p(#[trigger] items[k]) == q(items[k])
        && p(items[k]) == r(items[k]) by {
        crate::laws::texts::same_up_to_case_letter_by_letter(items[k].title, title);
    }
    crate::sequences::filter_same(items, p, q);
    crate::sequences::filter_same(items, p, r);
}

/// A secret is the text of a field of an item whose title agrees with that of the
/// reference as a whole and which is neither in the trash nor deleted.
pub proof fn secret_comes_from_a_live_item_with_the_title(
    items: Seq<ItemView>,
    value: Seq<char>,
    title: Seq<char>,
    label: Option<Seq<char>>,
    filter: Option<Map<Seq<char>, Seq<Seq<char>>>>,
    tags: Map<Seq<char>, Seq<Seq<char>>>,
) -> (at: int)
    requires
        crate::laws::plain::names(value, title, label),
        crate::resolve::resolved(items, value, filter, tags) is Ok,
    ensures
        0 <= at < items.len(),
        items[at].title.len() == title.len(),
        forall|c: int|
            0 <= c < title.len() ==> crate::laws::plain::letters_agree(
                #[trigger] items[at].title[c],
                title[c],
            ),
        items[at].trashed == 0,
        items[at].deleted == 0,
        label matches Some(l) ==> crate::laws::plain::agree(items[at].label, l),
        filter matches Some(f) ==> crate::laws::plain::satisfies_all(
            f,
            items[at].uuid,
            crate::laws::plain::live_fields(items, title),
            tags,
        ),
        crate::item::field_text(items[at]) == crate::resolve::resolved(items, value, filter, tags),
{
    reference_is_read(value, title, label);
    let at = crate::laws::resolving::secret_is_text_of_a_match(items, value, filter, tags);
    crate::laws::texts::same_up_to_case_letter_by_letter(items[at].title, title);
    match label {
        Some(l) => {
            crate::laws::texts::same_up_to_case_letter_by_letter(items[at].label, l);
        },
        None => {},
    }
    whole_title_must_agree(items, title);
    match filter {
        Some(f) => {
            crate::laws::criteria::filter_is_passed_key_by_key(
                f,
                items[at].uuid,
                crate::laws::plain::live_fields(items, title),
                tags,
            );
        },
        None => {},
    }
    at
}

/// Fields of items with another title, in the trash or deleted can be left out
/// without changing the outcome.
pub proof fn other_titles_do_not_matter(
    items: Seq<ItemView>,
    value: Seq<char>,
    title: Seq<char>,
    label: Option<Seq<char>>,
    filter: Option<Map<Seq<char>, Seq<Seq<char>>>>,
    tags: Map<Seq<char>, Seq<Seq<char>>>,
)
    requires
        crate::laws::plain::names(value, title, label),
    ensures
        crate::resolve::resolved(
            items.filter(
                |i: ItemView|
                    crate::laws::plain::agree(i.title, title) && i.trashed == 0 && i.deleted == 0,
            ),
            value,
            filter,
            tags,
        ) == crate::resolve::resolved(items, value, filter, tags),
{
    reference_is_read(value, title, label);
    let q = |i: ItemView|
        crate::laws::plain::agree(i.title, title) && i.trashed == 0 && i.deleted == 0;
    assert forall|i: ItemView| crate::resolve::is_match(i, title) implies #[trigger] q(i) by {
        crate::laws::texts::same_up_to_case_letter_by_letter(i.title, title);
    }
    crate::laws::resolving::only_matching_fields_count(items, q, value, filter, tags);
}

/// What is left of a list of items that ascends, ascends and was in the list; what
/// was in the list and is left occurs.
proof fn kept_items(
    fields: Seq<ItemView>,
    filter: Option<Map<Seq<char>, Seq<Seq<char>>>>,
    tags: Map<Seq<char>, Seq<Seq<char>>>,
)
    ensures
        ({
            let kept = crate::resolve::kept_uuids(fields, filter, tags);
            &&& forall|i: int, j: int|
                0 <= i < j < kept.len() ==> crate::laws::plain::earlier(
                    #[trigger] kept[i],
                    #[trigger] kept[j],
                ) && kept[i] != kept[j]
            &&& forall|u: Seq<char>| #[trigger]
                kept.contains(u) <==> (exists|k: int|
                    0 <= k < fields.len() && (#[trigger] fields[k]).uuid == u) && (
                filter matches Some(f) ==> crate::laws::plain::satisfies_all(f, u, fields, tags))
        }),
{
    let kept = crate::resolve::kept_uuids(fields, filter, tags);
    let found = crate::resolve::found_uuids(fields);
    let uuids = crate::resolve::uuids_of(fields);
    crate::order::listing_exists(uuids);
    assert(kept.len() > 0 ==> crate::order::ascending(kept)) by {
        if kept.len() > 0 {
            crate::laws::filtering::filtering_keeps_only_found_items(fields, filter, tags, 0);
        }
    }
    assert forall|i: int, j: int| 0 <= i < j < kept.len() implies crate::laws::plain::earlier(
        #[trigger] kept[i],
        #[trigger] kept[j],
    ) && kept[i] != kept[j] by {
        assert(crate::text::text_less(kept[i], kept[j]));
        crate::laws::texts::order_is_decided_by_first_difference(kept[i], kept[j]);
        crate::text::text_less_asymmetric(kept[i], kept[j]);
    }
    assert forall|u: Seq<char>| #[trigger] kept.contains(u) <==> (exists|k: int|
        0 <= k < fields.len() && (#[trigger] fields[k]).uuid == u) && (filter matches Some(f)
        ==> crate::laws::plain::satisfies_all(f, u, fields, tags)) by {
        assert(uuids.contains(u) <==> exists|k: int|
            0 <= k < fields.len() && (#[trigger] fields[k]).uuid == u) by {
            if uuids.contains(u) {
                let k = choose|k: int| 0 <= k < uuids.len() && uuids[k] == u;
                assert(fields[k].uuid == u);
            }
            if exists|k: int| 0 <= k < fields.len() && (#[trigger] fields[k]).uuid == u {
                let k = choose|k: int| 0 <= k < fields.len() && (#[trigger] fields[k]).uuid == u;
                assert(uuids[k] == u);
            }
        }
        assert(found.contains(u) <==> uuids.contains(u));
        match filter {
            Some(f) => {
                crate::laws::criteria::filter_is_passed_key_by_key(f, u, fields, tags);
                let p = |x: Seq<char>| crate::filter::passes(f, x, fields, tags);
                if kept.contains(u) {
                    let k = choose|k: int| 0 <= k < kept.len() && kept[k] == u;
                    let i = crate::sequences::filter_element(found, p, k);
                    assert(found.contains(found[i]));
                }
                if found.contains(u) && p(u) {
                    let i = choose|i: int| 0 <= i < found.len() && found[i] == u;
                    let k = crate::sequences::filter_position(found, p, i);
                    assert(kept[k] == u);
                }
            },
            None => {},
        }
    }
}

/// The item that is meant comes first among those that are left, and alone where
/// there is a filter.
proof fn meant_item_is_kept(
    fields: Seq<ItemView>,
    uuid: Seq<char>,
    filter: Option<Map<Seq<char>, Seq<Seq<char>>>>,
    tags: Map<Seq<char>, Seq<Seq<char>>>,
)
    requires
        crate::laws::plain::is_meant(fields, uuid, filter, tags),
    ensures
        ({
            let kept = crate::resolve::kept_uuids(fields, filter, tags);
            &&& kept.len() > 0
            &&& kept[0] == uuid
            &&& filter is Some ==> kept.len() == 1
        }),
{
    let kept = crate::resolve::kept_uuids(fields, filter, tags);
    kept_items(fields, filter, tags);
    assert(kept.contains(uuid));
    assert(kept.contains(kept[0]));
    let k = choose|k: int| 0 <= k < fields.len() && (#[trigger] fields[k]).uuid == kept[0];
    match filter {
        Some(f) => {
            assert(fields[k].uuid == uuid);
            if kept.len() > 1 {
                assert(kept.contains(kept[1]));
                let m = choose|m: int| 0 <= m < fields.len() && (#[trigger] fields[m]).uuid == kept[1];
                assert(fields[m].uuid == uuid);
                assert(kept[0] != kept[1]);
            }
        },
        None => {
            let i = choose|i: int| 0 <= i < kept.len() && kept[i] == uuid;
            if i > 0 {
                assert(crate::laws::plain::earlier(kept[0], kept[i]));
                assert(crate::laws::plain::earlier(uuid, fields[k].uuid));
                crate::laws::texts::order_is_decided_by_first_difference(kept[0], uuid);
                crate::laws::texts::order_is_decided_by_first_difference(uuid, kept[0]);
                crate::text::text_less_asymmetric(uuid, kept[0]);
            }
        },
    }
}

/// With a filter or without, a bare title gives the text of the first sensitive
/// field of the item that is meant.
pub proof fn bare_title_gives_first_sensitive_field(
    items: Seq<ItemView>,
    title: Seq<char>,
    filter: Option<Map<Seq<char>, Seq<Seq<char>>>>,
    tags: Map<Seq<char>, Seq<Seq<char>>>,
    at: int,
)
    requires
        crate::laws::plain::names(title, title, None),
        ({
            let fields = crate::laws::plain::live_fields(items, title);
            &&& 0 <= at < fields.len()
            &&& crate::laws::plain::is_meant(fields, fields[at].uuid, filter, tags)
            &&& fields[at].sensitive
            &&& forall|j: int|
                0 <= j < at && (#[trigger] fields[j]).uuid == fields[at].uuid
                    ==> !fields[j].sensitive
        }),
    ensures
        crate::resolve::resolved(items, title, filter, tags) == crate::item::field_text(
            crate::laws::plain::live_fields(items, title)[at],
        ),
{
    reference_is_read(title, title, None);
    whole_title_must_agree(items, title);
    let fields = crate::laws::plain::live_fields(items, title);
    let uuid = fields[at].uuid;
    meant_item_is_kept(fields, uuid, filter, tags);
    let p = |i: ItemView| i.uuid == uuid;
    let q = |i: ItemView| i.sensitive;
    crate::sequences::filter_both(fields, p, q);
    crate::sequences::filter_first(fields, |i: ItemView| p(i) && q(i), at);
}

/// With a filter or without, a bare title gives the text of the first field of the
/// item that is meant where none of its fields is sensitive.
pub proof fn bare_title_gives_first_field_where_none_is_sensitive(
    items: Seq<ItemView>,
    title: Seq<char>,
    filter: Option<Map<Seq<char>, Seq<Seq<char>>>>,
    tags: Map<Seq<char>, Seq<Seq<char>>>,
    at: int,
)
    requires
        crate::laws::plain::names(title, title, None),
        ({
            let fields = crate::laws::plain::live_fields(items, title);
            &&& 0 <= at < fields.len()
            &&& crate::laws::plain::is_meant(fields, fields[at].uuid, filter, tags)
            &&& forall|j: int|
                0 <= j < at ==> (#[trigger] fields[j]).uuid != fields[at].uuid
            &&& forall|j: int|
                0 <= j < fields.len() && (#[trigger] fields[j]).uuid == fields[at].uuid
                    ==> !fields[j].sensitive
        }),
    ensures
        crate::resolve::resolved(items, title, filter, tags) == crate::item::field_text(
            crate::laws::plain::live_fields(items, title)[at],
        ),
{
    reference_is_read(title, title, None);
    whole_title_must_agree(items, title);
    let fields = crate::laws::plain::live_fields(items, title);
    let uuid = fields[at].uuid;
    meant_item_is_kept(fields, uuid, filter, tags);
    let p = |i: ItemView| i.uuid == uuid;
    let q = |i: ItemView| i.sensitive;
    crate::sequences::filter_both(fields, p, q);
    crate::sequences::filter_none(fields, |i: ItemView| p(i) && q(i));
    crate::sequences::filter_first(fields, p, at);
}

/// With a filter or without, a title and a label give the text of the first field
/// of the item that is meant whose label agrees as a whole.
pub proof fn label_gives_first_field_that_bears_it(
    items: Seq<ItemView>,
    title: Seq<char>,
    label: Seq<char>,
    filter: Option<Map<Seq<char>, Seq<Seq<char>>>>,
    tags: Map<Seq<char>, Seq<Seq<char>>>,
    at: int,
)
    requires
        !label.contains('/'),
        ({
            let fields = crate::laws::plain::live_fields(items, title);
            &&& 0 <= at < fields.len()
            &&& crate::laws::plain::is_meant(fields, fields[at].uuid, filter, tags)
            &&& crate::laws::plain::agree(fields[at].label, label)
            &&& forall|j: int|
                0 <= j < at && (#[trigger] fields[j]).uuid == fields[at].uuid
                    ==> !crate::laws::plain::agree(fields[j].label, label)
        }),
    ensures
        crate::resolve::resolved(items, title + seq!['/'] + label, filter, tags)
            == crate::item::field_text(crate::laws::plain::live_fields(items, title)[at]),
{
    reference_is_read(title + seq!['/'] + label, title, Some(label));
    whole_title_must_agree(items, title);
    let fields = crate::laws::plain::live_fields(items, title);
    let uuid = fields[at].uuid;
    meant_item_is_kept(fields, uuid, filter, tags);
    let p = |i: ItemView| i.uuid == uuid;
    let q = |i: ItemView| crate::text::same_ignoring_case(i.label, label);
    crate::sequences::filter_both(fields, p, q);
    assert forall|j: int| 0 <= j < fields.len() implies (crate::text::same_ignoring_case(
        (#[trigger] fields[j]).label,
        label,
    ) <==> crate::laws::plain::agree(fields[j].label, label)) by {
        crate::laws::texts::same_up_to_case_letter_by_letter(fields[j].label, label);
    }
    crate::sequences::filter_first(fields, |i: ItemView| p(i) && q(i), at);
}

/// Where no field of the item that is meant bears the label, the secret is not
/// found, and the labels that there are are listed in order.
pub proof fn unknown_label_is_not_found(
    items: Seq<ItemView>,
    title: Seq<char>,
    label: Seq<char>,
    filter: Option<Map<Seq<char>, Seq<Seq<char>>>>,
    tags: Map<Seq<char>, Seq<Seq<char>>>,
    uuid: Seq<char>,
)
    requires
        !label.contains('/'),
        ({
            let fields = crate::laws::plain::live_fields(items, title);
            &&& crate::laws::plain::is_meant(fields, uuid, filter, tags)
            &&& forall|j: int|
                0 <= j < fields.len() && (#[trigger] fields[j]).uuid == uuid
                    ==> !crate::laws::plain::agree(fields[j].label, label)
        }),
    ensures
        crate::resolve::resolved(items, title + seq!['/'] + label, filter, tags) == Err::<
            Seq<char>,
            ErrorView,
        >(
            crate::laws::plain::secret_not_found(
                title + seq!['/'] + label,
                "Field '"@ + label + "' not found in item '"@ + title + "'. Available fields: "@
                    + crate::text::joined(
                    crate::laws::plain::live_fields(items, title).filter(
                        |i: ItemView| i.uuid == uuid,
                    ).map_values(|i: ItemView| i.label),
                    ", "@,
                ),
            ),
        ),
{
    reference_is_read(title + seq!['/'] + label, title, Some(label));
    whole_title_must_agree(items, title);
    let fields = crate::laws::plain::live_fields(items, title);
    meant_item_is_kept(fields, uuid, filter, tags);
    let p = |i: ItemView| i.uuid == uuid;
    let q = |i: ItemView| crate::text::same_ignoring_case(i.label, label);
    crate::sequences::filter_both(fields, p, q);
    assert forall|j: int| 0 <= j < fields.len() implies (crate::text::same_ignoring_case(
        (#[trigger] fields[j]).label,
        label,
    ) <==> crate::laws::plain::agree(fields[j].label, label)) by {
        crate::laws::texts::same_up_to_case_letter_by_letter(fields[j].label, label);
    }
    crate::sequences::filter_none(fields, |i: ItemView| p(i) && q(i));
}

/// Where no live item bears the title as a whole, the title is not found, whatever
/// the label and the filter.
pub proof fn title_of_no_live_item_is_not_found(
    items: Seq<ItemView>,
    value: Seq<char>,
    title: Seq<char>,
    label: Option<Seq<char>>,
    filter: Option<Map<Seq<char>, Seq<Seq<char>>>>,
    tags: Map<Seq<char>, Seq<Seq<char>>>,
)
    requires
        crate::laws::plain::names(value, title, label),
        forall|i: int|
            0 <= i < items.len() ==> !crate::laws::plain::is_live(#[trigger] items[i], title),
    ensures
        crate::resolve::resolved(items, value, filter, tags) == Err::<Seq<char>, ErrorView>(
            crate::laws::plain::secret_not_found(
                title,
                "Check that the item title exists in the vault"@,
            ),
        ),
{
    reference_is_read(value, title, label);
    whole_title_must_agree(items, title);
    crate::sequences::filter_none(items, |i: ItemView| crate::laws::plain::is_live(i, title));
}

/// Whether `line` tells of an item: its UUID, the category of its first field and
/// its tags.
pub open spec fn tells_of(
    line: Seq<char>,
    uuid: Seq<char>,
    fields: Seq<ItemView>,
    tags: Map<Seq<char>, Seq<Seq<char>>>,
) -> bool {
    exists|k: int| #[trigger]
        crate::laws::plain::is_first_field(fields, uuid, k) && line == "  - uuid="@ + uuid
            + ", category='"@ + fields[k].category + "', tags=["@ + crate::text::joined(
            if tags.contains_key(uuid) {
                tags[uuid]
            } else {
                Seq::empty()
            },
            ", "@,
        ) + "]"@
}

/// Whether `uuids` lists in ascending order, once each, the items among the fields
/// that satisfy the filter, or all of them where there is none.
pub open spec fn is_listing(
    uuids: Seq<Seq<char>>,
    fields: Seq<ItemView>,
    filter: Option<Map<Seq<char>, Seq<Seq<char>>>>,
    tags: Map<Seq<char>, Seq<Seq<char>>>,
) -> bool {
    &&& forall|i: int, j: int|
        0 <= i < j < uuids.len() ==> crate::laws::plain::earlier(
            #[trigger] uuids[i],
            #[trigger] uuids[j],
        )
    &&& forall|u: Seq<char>| #[trigger]
        uuids.contains(u) <==> (exists|k: int|
            0 <= k < fields.len() && (#[trigger] fields[k]).uuid == u) && (filter matches Some(f)
            ==> crate::laws::plain::satisfies_all(f, u, fields, tags))
}

/// The items that are left are those of the listing.
proof fn kept_are_listed(
    uuids: Seq<Seq<char>>,
    fields: Seq<ItemView>,
    filter: Option<Map<Seq<char>, Seq<Seq<char>>>>,
    tags: Map<Seq<char>, Seq<Seq<char>>>,
)
    requires
        is_listing(uuids, fields, filter, tags),
    ensures
        crate::resolve::kept_uuids(fields, filter, tags) == uuids,
{
    let kept = crate::resolve::kept_uuids(fields, filter, tags);
    kept_items(fields, filter, tags);
    assert(crate::order::ascending(uuids)) by {
        assert forall|i: int, j: int| 0 <= i < j < uuids.len() implies crate::text::text_less(
            #[trigger] uuids[i],
            #[trigger] uuids[j],
        ) by {
            crate::laws::texts::order_is_decided_by_first_difference(uuids[i], uuids[j]);
        }
    }
    assert(crate::order::ascending(kept)) by {
        assert forall|i: int, j: int| 0 <= i < j < kept.len() implies crate::text::text_less(
            #[trigger] kept[i],
            #[trigger] kept[j],
        ) by {
            crate::laws::texts::order_is_decided_by_first_difference(kept[i], kept[j]);
        }
    }
    assert forall|u: Seq<char>| #[trigger] kept.contains(u) <==> uuids.contains(u) by {}
    assert forall|u: Seq<char>| #[trigger] uuids.contains(u) <==> uuids.contains(u) by {}
    crate::order::listing_is_unique(uuids, uuids);
    crate::order::listing_is_unique(kept, uuids);
}

/// Lines that tell of the items are those that the error holds.
proof fn lines_are_those_told(
    lines: Seq<Seq<char>>,
    uuids: Seq<Seq<char>>,
    fields: Seq<ItemView>,
    tags: Map<Seq<char>, Seq<Seq<char>>>,
)
    requires
        lines.len() == uuids.len(),
        forall|i: int|
            0 <= i < lines.len() ==> tells_of(#[trigger] lines[i], uuids[i], fields, tags),
    ensures
        crate::resolve::item_lines(uuids, fields, tags) == crate::text::joined(lines, "\n"@),
{
    let told = uuids.map_values(|u: Seq<char>| crate::resolve::item_line(u, fields, tags));
    assert forall|i: int| 0 <= i < lines.len() implies told[i] == lines[i] by {
        let uuid = uuids[i];
        assert(tells_of(lines[i], uuid, fields, tags));
        let k = choose|k: int| #[trigger]
            crate::laws::plain::is_first_field(fields, uuid, k) && lines[i] == "  - uuid="@ + uuid
                + ", category='"@ + fields[k].category + "', tags=["@ + crate::text::joined(
                if tags.contains_key(uuid) {
                    tags[uuid]
                } else {
                    Seq::empty()
                },
                ", "@,
            ) + "]"@;
        crate::laws::criteria::category_is_that_of_first_field(fields, uuid, k);
        crate::laws::criteria::tags_are_those_entered(tags, uuid);
        if !tags.contains_key(uuid) {
            assert(crate::filter::tags_of(tags, uuid) =~= Seq::empty());
        }
    }
    assert(told =~= lines);
}

/// Where live items bear the title and none satisfies the filter, the secret is not
/// found, and the error lists the items with the title.
pub proof fn filter_that_none_satisfies_is_reported(
    items: Seq<ItemView>,
    value: Seq<char>,
    title: Seq<char>,
    label: Option<Seq<char>>,
    filter: Map<Seq<char>, Seq<Seq<char>>>,
    tags: Map<Seq<char>, Seq<Seq<char>>>,
    uuids: Seq<Seq<char>>,
    lines: Seq<Seq<char>>,
)
    requires
        crate::laws::plain::names(value, title, label),
        ({
            let fields = crate::laws::plain::live_fields(items, title);
            &&& fields.len() > 0
            &&& forall|k: int|
                0 <= k < fields.len() ==> !crate::laws::plain::satisfies_all(
                    filter,
                    (#[trigger] fields[k]).uuid,
                    fields,
                    tags,
                )
            &&& is_listing(uuids, fields, None, tags)
            &&& lines.len() == uuids.len()
            &&& forall|i: int|
                0 <= i < lines.len() ==> tells_of(#[trigger] lines[i], uuids[i], fields, tags)
        }),
    ensures
        crate::resolve::resolved(items, value, Some(filter), tags) == Err::<Seq<char>, ErrorView>(
            crate::laws::plain::secret_not_found(
                value,
                "No items named '"@ + title + "' matched the filter. Available items:\n"@
                    + crate::text::joined(lines, "\n"@),
            ),
        ),
{
    reference_is_read(value, title, label);
    whole_title_must_agree(items, title);
    let fields = crate::laws::plain::live_fields(items, title);
    kept_are_listed(uuids, fields, None, tags);
    lines_are_those_told(lines, uuids, fields, tags);
    let kept = crate::resolve::kept_uuids(fields, Some(filter), tags);
    kept_items(fields, Some(filter), tags);
    if kept.len() > 0 {
        assert(kept.contains(kept[0]));
        let k = choose|k: int| 0 <= k < fields.len() && (#[trigger] fields[k]).uuid == kept[0];
        assert(!crate::laws::plain::satisfies_all(filter, fields[k].uuid, fields, tags));
    }
}

/// Where several live items with the title satisfy the filter, the reference is
/// ambiguous, and the error counts and lists them.
pub proof fn filter_that_several_satisfy_is_reported(
    items: Seq<ItemView>,
    value: Seq<char>,
    title: Seq<char>,
    label: Option<Seq<char>>,
    filter: Map<Seq<char>, Seq<Seq<char>>>,
    tags: Map<Seq<char>, Seq<Seq<char>>>,
    uuids: Seq<Seq<char>>,
    lines: Seq<Seq<char>>,
)
    requires
        crate::laws::plain::names(value, title, label),
        ({
            let fields = crate::laws::plain::live_fields(items, title);
            &&& is_listing(uuids, fields, Some(filter), tags)
            &&& uuids.len() > 1
            &&& lines.len() == uuids.len()
            &&& forall|i: int|
                0 <= i < lines.len() ==> tells_of(#[trigger] lines[i], uuids[i], fields, tags)
        }),
    ensures
        crate::resolve::resolved(items, value, Some(filter), tags) == Err::<Seq<char>, ErrorView>(
            crate::laws::plain::api_error(
                "Multiple items named '"@ + title + "' found ("@ + crate::text::decimal(uuids.len())
                    + " matches)"@,
                "Use 'filter' to disambiguate. Matching items:\n"@ + crate::text::joined(
                    lines,
                    "\n"@,
                )
                    + "\nExample: filter = { tag = \"my-tag\" } or filter = { Username = \"user@example.com\" }"@,
            ),
        ),
{
    reference_is_read(value, title, label);
    whole_title_must_agree(items, title);
    let fields = crate::laws::plain::live_fields(items, title);
    kept_are_listed(uuids, fields, Some(filter), tags);
    lines_are_those_told(lines, uuids, fields, tags);
    assert(uuids.contains(uuids[0]));
}

/// Filtering a list of items keeps, in their order, those that satisfy the filter.
pub proof fn filtering_keeps_what_satisfies(
    uuids: Seq<Seq<char>>,
    filter: Map<Seq<char>, Seq<Seq<char>>>,
    fields: Seq<ItemView>,
    tags: Map<Seq<char>, Seq<Seq<char>>>,
)
    ensures
        uuids.filter(|u: Seq<char>| crate::filter::passes(filter, u, fields, tags)) == uuids.filter(
            |u: Seq<char>| crate::laws::plain::satisfies_all(filter, u, fields, tags),
        ),
{
    let p = |u: Seq<char>| crate::filter::passes(filter, u, fields, tags);
    let q = |u: Seq<char>| crate::laws::plain::satisfies_all(filter, u, fields, tags);
    assert forall|i: int| 0 <= i < uuids.len() implies p(#[trigger] uuids[i]) == q(uuids[i]) by {
        crate::laws::criteria::filter_is_passed_key_by_key(filter, uuids[i], fields, tags);
    }
    crate::sequences::filter_same(uuids, p, q);
}

} // verus!
