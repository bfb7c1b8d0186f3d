//! Filters: how criteria add up, and what they ask for.
use vstd::prelude::*;

use crate::item::ItemView;

verus! {

/// An empty filter keeps every item.
pub proof fn empty_filter_keeps_all(
    fields: Seq<ItemView>,
    tags: Map<Seq<char>, Seq<Seq<char>>>,
)
    ensures
        crate::resolve::kept_uuids(fields, Some(Map::empty()), tags) == crate::resolve::kept_uuids(
            fields,
            None,
            tags,
        ),
{
    let none = Map::<Seq<char>, Seq<Seq<char>>>::empty();
    crate::sequences::filter_all(
        crate::resolve::found_uuids(fields),
        |u: Seq<char>| crate::filter::passes(none, u, fields, tags),
    );
}

/// Criteria add up: one more criterion keeps, of the items that were kept, those
/// that meet it.
pub proof fn criteria_add_up(
    fields: Seq<ItemView>,
    filter: Map<Seq<char>, Seq<Seq<char>>>,
    key: Seq<char>,
    values: Seq<Seq<char>>,
    tags: Map<Seq<char>, Seq<Seq<char>>>,
)
    requires
        !filter.contains_key(key),
    ensures
        crate::resolve::kept_uuids(fields, Some(filter.insert(key, values)), tags)
            == crate::resolve::kept_uuids(fields, Some(filter), tags).filter(
            |u: Seq<char>| crate::filter::meets(key, values, u, fields, tags),
        ),
{
    let found = crate::resolve::found_uuids(fields);
    let more = filter.insert(key, values);
    let p = |u: Seq<char>| crate::filter::passes(filter, u, fields, tags);
    let q = |u: Seq<char>| crate::filter::meets(key, values, u, fields, tags);
    let r = |u: Seq<char>| crate::filter::passes(more, u, fields, tags);
    crate::sequences::filter_both(found, p, q);
    assert forall|i: int| 0 <= i < found.len() implies (p(#[trigger] found[i]) && q(found[i]))
        == r(found[i]) by {
        let u = found[i];
        if r(u) {
            assert(more.contains_key(key));
            assert forall|k: Seq<char>| #[trigger] filter.contains_key(k) implies crate::filter::meets(
                k,
                filter[k],
                u,
                fields,
                tags,
            ) by {
                assert(more.contains_key(k));
            }
        }
        if p(u) && q(u) {
            assert forall|k: Seq<char>| #[trigger] more.contains_key(k) implies crate::filter::meets(
                k,
                more[k],
                u,
                fields,
                tags,
            ) by {
                if k != key {
                    assert(filter.contains_key(k));
                }
            }
        }
    }
    crate::sequences::filter_same(found, |u: Seq<char>| p(u) && q(u), r);
}

/// A filter with more criteria passes no item that one with fewer refuses.
pub proof fn more_criteria_pass_less(
    fewer: Map<Seq<char>, Seq<Seq<char>>>,
    more: Map<Seq<char>, Seq<Seq<char>>>,
    uuid: Seq<char>,
    fields: Seq<ItemView>,
    tags: Map<Seq<char>, Seq<Seq<char>>>,
)
    requires
        forall|k: Seq<char>| #[trigger]
            fewer.contains_key(k) ==> more.contains_key(k) && more[k] == fewer[k],
        crate::filter::passes(more, uuid, fields, tags),
    ensures
        crate::filter::passes(fewer, uuid, fields, tags),
{
    assert forall|k: Seq<char>| #[trigger] fewer.contains_key(k) implies crate::filter::meets(
        k,
        fewer[k],
        uuid,
        fields,
        tags,
    ) by {
        assert(more.contains_key(k));
    }
}

/// Filtering keeps the order of the items and brings in none.
pub proof fn filtering_keeps_only_found_items(
    fields: Seq<ItemView>,
    filter: Option<Map<Seq<char>, Seq<Seq<char>>>>,
    tags: Map<Seq<char>, Seq<Seq<char>>>,
    k: int,
)
    requires
        0 <= k < crate::resolve::kept_uuids(fields, filter, tags).len(),
    ensures
        crate::resolve::uuids_of(fields).contains(
            crate::resolve::kept_uuids(fields, filter, tags)[k],
        ),
        crate::order::ascending(crate::resolve::kept_uuids(fields, filter, tags)),
{
    let found = crate::resolve::found_uuids(fields);
    crate::order::listing_exists(crate::resolve::uuids_of(fields));
    match filter {
        Some(f) => {
            let p = |u: Seq<char>| crate::filter::passes(f, u, fields, tags);
            let i = crate::sequences::filter_element(found, p, k);
            assert(found.contains(found[i]));
            ascending_filtered(found, p);
        },
        None => {
            assert(found.contains(found[k]));
        },
    }
}

/// What is left of ascending texts is ascending.
proof fn ascending_filtered(s: Seq<Seq<char>>, p: spec_fn(Seq<char>) -> bool)
    requires
        crate::order::ascending(s),
    ensures
        crate::order::ascending(s.filter(p)),
    decreases s.len(),
{
    reveal(Seq::filter);
    if s.len() > 0 {
        let rest = s.drop_last();
        assert forall|i: int, j: int| 0 <= i < j < rest.len() implies crate::text::text_less(
            #[trigger] rest[i],
            #[trigger] rest[j],
        ) by {
            assert(rest[i] == s[i] && rest[j] == s[j]);
        }
        ascending_filtered(rest, p);
        if p(s.last()) {
            let kept = rest.filter(p);
            assert forall|i: int, j: int| 0 <= i < j < s.filter(p).len() implies crate::text::text_less(
                #[trigger] s.filter(p)[i],
                #[trigger] s.filter(p)[j],
            ) by {
                if j < kept.len() {
                    assert(crate::text::text_less(kept[i], kept[j]));
                } else {
                    let k = crate::sequences::filter_element(rest, p, i);
                    assert(crate::text::text_less(s[k], s[s.len() - 1]));
                }
            }
        }
    }
}

/// Case does not matter in a criterion, neither in its key nor in its values.
pub proof fn criteria_ignore_case(
    a: Seq<char>,
    b: Seq<char>,
    v: Seq<Seq<char>>,
    w: Seq<Seq<char>>,
    uuid: Seq<char>,
    fields: Seq<ItemView>,
    tags: Map<Seq<char>, Seq<Seq<char>>>,
)
    requires
        crate::text::same_ignoring_case(a, b),
        v.len() == w.len(),
        forall|i: int|
            0 <= i < v.len() ==> crate::text::same_ignoring_case(#[trigger] v[i], #[trigger] w[i]),
    ensures
        crate::filter::meets(a, v, uuid, fields, tags) == crate::filter::meets(
            b,
            w,
            uuid,
            fields,
            tags,
        ),
{
    criterion_follows_case(a, b, v, w, uuid, fields, tags);
    criterion_follows_case(b, a, w, v, uuid, fields, tags);
}

/// A value that one list holds, up to ASCII case, the other holds too.
proof fn any_same_follows_case(v: Seq<Seq<char>>, w: Seq<Seq<char>>, s: Seq<char>)
    requires
        v.len() == w.len(),
        forall|i: int|
            0 <= i < v.len() ==> crate::text::same_ignoring_case(#[trigger] v[i], #[trigger] w[i]),
        crate::filter::any_same(v, s),
    ensures
        crate::filter::any_same(w, s),
{
    let j = choose|j: int|
        0 <= j < v.len() && crate::text::same_ignoring_case(#[trigger] v[j], s);
    assert(crate::text::same_ignoring_case(w[j], s));
}

/// What meets a criterion in one spelling meets it in another.
proof fn criterion_follows_case(
    a: Seq<char>,
    b: Seq<char>,
    v: Seq<Seq<char>>,
    w: Seq<Seq<char>>,
    uuid: Seq<char>,
    fields: Seq<ItemView>,
    tags: Map<Seq<char>, Seq<Seq<char>>>,
)
    requires
        crate::text::same_ignoring_case(a, b),
        v.len() == w.len(),
        forall|i: int|
            0 <= i < v.len() ==> crate::text::same_ignoring_case(#[trigger] v[i], #[trigger] w[i]),
    ensures
        crate::filter::meets(a, v, uuid, fields, tags) ==> crate::filter::meets(
            b,
            w,
            uuid,
            fields,
            tags,
        ),
{
    if crate::filter::meets(a, v, uuid, fields, tags) {
        let k = crate::text::lowercase(a);
        if k == "tag"@ || k == "tags"@ || k == "folder"@ {
            let own = crate::filter::tags_of(tags, uuid);
            assert forall|j: int| 0 <= j < w.len() implies crate::filter::any_same(
                own,
                #[trigger] w[j],
            ) by {
                assert(crate::filter::any_same(own, v[j]));
                let t = choose|t: int|
                    0 <= t < own.len() && crate::text::same_ignoring_case(#[trigger] own[t], v[j]);
                assert(crate::text::same_ignoring_case(own[t], w[j]));
            }
        } else if k == "category"@ {
            any_same_follows_case(v, w, crate::filter::category_of(fields, uuid));
        } else if k == "favorite"@ || k == "fav"@ {
            let flag = exists|i: int|
                0 <= i < fields.len() && (#[trigger] fields[i]).uuid == uuid && fields[i].favorite;
            let j = choose|j: int|
                0 <= j < v.len() && crate::filter::means_yes(#[trigger] v[j]) == flag;
            assert(crate::filter::means_yes(w[j]) == flag);
        } else if k == "archived"@ {
            let flag = exists|i: int|
                0 <= i < fields.len() && (#[trigger] fields[i]).uuid == uuid && fields[i].archived;
            let j = choose|j: int|
                0 <= j < v.len() && crate::filter::means_yes(#[trigger] v[j]) == flag;
            assert(crate::filter::means_yes(w[j]) == flag);
        } else {
            let i = choose|i: int|
                0 <= i < fields.len() && crate::filter::field_holds(
                    #[trigger] fields[i],
                    a,
                    v,
                    uuid,
                );
            any_same_follows_case(v, w, crate::item::field_text(fields[i])->Ok_0);
            assert(crate::filter::field_holds(fields[i], b, w, uuid));
        }
    }
}

/// Whether a key asks for tags.
pub open spec fn asks_for_tags(key: Seq<char>) -> bool {
    let k = crate::text::lowercase(key);
    k == "tag"@ || k == "tags"@ || k == "folder"@
}

/// The values of a criterion on tags are all required. Of the values of any other
/// criterion one is enough.
pub proof fn tags_need_all_values_others_need_one(
    key: Seq<char>,
    v: Seq<Seq<char>>,
    w: Seq<Seq<char>>,
    uuid: Seq<char>,
    fields: Seq<ItemView>,
    tags: Map<Seq<char>, Seq<Seq<char>>>,
)
    ensures
        asks_for_tags(key) ==> crate::filter::meets(key, v + w, uuid, fields, tags) == (
        crate::filter::meets(key, v, uuid, fields, tags) && crate::filter::meets(
            key,
            w,
            uuid,
            fields,
            tags,
        )),
        !asks_for_tags(key) ==> crate::filter::meets(key, v + w, uuid, fields, tags) == (
        crate::filter::meets(key, v, uuid, fields, tags) || crate::filter::meets(
            key,
            w,
            uuid,
            fields,
            tags,
        )),
{
    let u = v + w;
    assert forall|i: int| 0 <= i < v.len() implies u[i] == #[trigger] v[i] by {}
    assert forall|i: int| 0 <= i < w.len() implies u[v.len() + i] == #[trigger] w[i] by {}
    let k = crate::text::lowercase(key);
    if asks_for_tags(key) {
        let own = crate::filter::tags_of(tags, uuid);
        if crate::filter::meets(key, u, uuid, fields, tags) {
            assert forall|j: int| 0 <= j < v.len() implies crate::filter::any_same(
                own,
                #[trigger] v[j],
            ) by {
                assert(crate::filter::any_same(own, u[j]));
            }
            assert forall|j: int| 0 <= j < w.len() implies crate::filter::any_same(
                own,
                #[trigger] w[j],
            ) by {
                assert(crate::filter::any_same(own, u[v.len() + j]));
            }
        }
        if crate::filter::meets(key, v, uuid, fields, tags) && crate::filter::meets(
            key,
            w,
            uuid,
            fields,
            tags,
        ) {
            assert forall|j: int| 0 <= j < u.len() implies crate::filter::any_same(
                own,
                #[trigger] u[j],
            ) by {
                if j < v.len() {
                    assert(crate::filter::any_same(own, v[j]));
                } else {
                    assert(crate::filter::any_same(own, w[j - v.len()]));
                }
            }
        }
    } else if k == "category"@ {
        any_same_splits(v, w, crate::filter::category_of(fields, uuid));
    } else if k == "favorite"@ || k == "fav"@ {
        any_says_splits(
            v,
            w,
            exists|i: int|
                0 <= i < fields.len() && (#[trigger] fields[i]).uuid == uuid && fields[i].favorite,
        );
    } else if k == "archived"@ {
        any_says_splits(
            v,
            w,
            exists|i: int|
                0 <= i < fields.len() && (#[trigger] fields[i]).uuid == uuid && fields[i].archived,
        );
    } else {
        assert forall|i: int| 0 <= i < fields.len() implies crate::filter::field_holds(
            #[trigger] fields[i],
            key,
            u,
            uuid,
        ) == (crate::filter::field_holds(fields[i], key, v, uuid) || crate::filter::field_holds(
            fields[i],
            key,
            w,
            uuid,
        )) by {
            if crate::item::field_text(fields[i]) is Ok {
                any_same_splits(v, w, crate::item::field_text(fields[i])->Ok_0);
            }
        }
    }
}

/// One of two lists joined holds a value exactly where one of the lists does.
proof fn any_same_splits(v: Seq<Seq<char>>, w: Seq<Seq<char>>, s: Seq<char>)
    ensures
        crate::filter::any_same(v + w, s) == (crate::filter::any_same(v, s)
            || crate::filter::any_same(w, s)),
{
    let u = v + w;
    if crate::filter::any_same(u, s) {
        let j = choose|j: int|
            0 <= j < u.len() && crate::text::same_ignoring_case(#[trigger] u[j], s);
        if j < v.len() {
            assert(crate::text::same_ignoring_case(v[j], s));
        } else {
            assert(crate::text::same_ignoring_case(w[j - v.len()], s));
        }
    }
    if crate::filter::any_same(v, s) {
        let j = choose|j: int|
            0 <= j < v.len() && crate::text::same_ignoring_case(#[trigger] v[j], s);
        assert(crate::text::same_ignoring_case(u[j], s));
    }
    if crate::filter::any_same(w, s) {
        let j = choose|j: int|
            0 <= j < w.len() && crate::text::same_ignoring_case(#[trigger] w[j], s);
        assert(crate::text::same_ignoring_case(u[v.len() + j], s));
    }
}

/// One of two lists joined says yes as wanted exactly where one of the lists
/// does.
proof fn any_says_splits(v: Seq<Seq<char>>, w: Seq<Seq<char>>, flag: bool)
    ensures
        crate::filter::any_says(v + w, flag) == (crate::filter::any_says(v, flag)
            || crate::filter::any_says(w, flag)),
{
    let u = v + w;
    if crate::filter::any_says(u, flag) {
        let j = choose|j: int| 0 <= j < u.len() && crate::filter::means_yes(#[trigger] u[j]) == flag;
        if j < v.len() {
            assert(crate::filter::means_yes(v[j]) == flag);
        } else {
            assert(crate::filter::means_yes(w[j - v.len()]) == flag);
        }
    }
    if crate::filter::any_says(v, flag) {
        let j = choose|j: int| 0 <= j < v.len() && crate::filter::means_yes(#[trigger] v[j]) == flag;
        assert(crate::filter::means_yes(u[j]) == flag);
    }
    if crate::filter::any_says(w, flag) {
        let j = choose|j: int| 0 <= j < w.len() && crate::filter::means_yes(#[trigger] w[j]) == flag;
        assert(crate::filter::means_yes(u[v.len() + j]) == flag);
    }
}

/// The keys `tag`, `tags` and `folder` ask for the same, and so do `favorite` and
/// `fav`.
pub proof fn filter_keys_have_synonyms(
    values: Seq<Seq<char>>,
    uuid: Seq<char>,
    fields: Seq<ItemView>,
    tags: Map<Seq<char>, Seq<Seq<char>>>,
)
    ensures
        crate::filter::meets("tag"@, values, uuid, fields, tags) == crate::filter::meets(
            "tags"@,
            values,
            uuid,
            fields,
            tags,
        ),
        crate::filter::meets("tag"@, values, uuid, fields, tags) == crate::filter::meets(
            "folder"@,
            values,
            uuid,
            fields,
            tags,
        ),
        crate::filter::meets("favorite"@, values, uuid, fields, tags) == crate::filter::meets(
            "fav"@,
            values,
            uuid,
            fields,
            tags,
        ),
{
    reveal_strlit("tag");
    reveal_strlit("tags");
    reveal_strlit("folder");
    reveal_strlit("category");
    reveal_strlit("favorite");
    reveal_strlit("fav");
    assert(crate::text::lowercase("tag"@) =~= "tag"@);
    assert(crate::text::lowercase("tags"@) =~= "tags"@);
    assert(crate::text::lowercase("folder"@) =~= "folder"@);
    assert(crate::text::lowercase("favorite"@) =~= "favorite"@);
    assert(crate::text::lowercase("fav"@) =~= "fav"@);
    assert("fav"@[0] == 'f' && "tag"@[0] == 't');
    assert("favorite"@[0] == 'f' && "category"@[0] == 'c');
}

} // verus!
