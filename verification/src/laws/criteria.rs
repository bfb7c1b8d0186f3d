//! Criteria: what an item must have to meet one, letter by letter and column by
//! column.
use vstd::prelude::*;

use crate::item::ItemView;

verus! {

/// A text is some word in lower case exactly where it agrees with the word letter
/// by letter.
proof fn is_word(s: Seq<char>, word: Seq<char>)
    requires
        forall|i: int| 0 <= i < word.len() ==> !('A' <= #[trigger] word[i] <= 'Z'),
    ensures
        crate::text::lowercase(s) == word <==> crate::laws::plain::agree(s, word),
{
    crate::laws::texts::same_up_to_case_letter_by_letter(s, word);
    crate::laws::texts::lowercase_has_no_capitals(word);
    assert(crate::text::lowercase(word) =~= word);
}

/// The keys with a meaning of their own are those that agree with one of seven
/// words.
proof fn key_words(key: Seq<char>)
    ensures
        crate::text::lowercase(key) == "tag"@ <==> crate::laws::plain::agree(key, "tag"@),
        crate::text::lowercase(key) == "tags"@ <==> crate::laws::plain::agree(key, "tags"@),
        crate::text::lowercase(key) == "folder"@ <==> crate::laws::plain::agree(key, "folder"@),
        crate::text::lowercase(key) == "category"@ <==> crate::laws::plain::agree(key, "category"@),
        crate::text::lowercase(key) == "favorite"@ <==> crate::laws::plain::agree(key, "favorite"@),
        crate::text::lowercase(key) == "fav"@ <==> crate::laws::plain::agree(key, "fav"@),
        crate::text::lowercase(key) == "archived"@ <==> crate::laws::plain::agree(key, "archived"@),
{
    reveal_strlit("tag");
    reveal_strlit("tags");
    reveal_strlit("folder");
    reveal_strlit("category");
    reveal_strlit("favorite");
    reveal_strlit("fav");
    reveal_strlit("archived");
    is_word(key, "tag"@);
    is_word(key, "tags"@);
    is_word(key, "folder"@);
    is_word(key, "category"@);
    is_word(key, "favorite"@);
    is_word(key, "fav"@);
    is_word(key, "archived"@);
}

/// A value says yes exactly where it agrees with `true`, `1` or `yes`.
pub proof fn yes_is_one_of_three_words(value: Seq<char>)
    ensures
        crate::filter::means_yes(value) <==> crate::laws::plain::says_yes(value),
{
    reveal_strlit("true");
    reveal_strlit("1");
    reveal_strlit("yes");
    is_word(value, "true"@);
    is_word(value, "1"@);
    is_word(value, "yes"@);
}

/// One of some texts is the same as another up to case exactly where one agrees
/// with it letter by letter.
proof fn any_agrees(values: Seq<Seq<char>>, s: Seq<char>)
    ensures
        crate::filter::any_same(values, s) <==> exists|j: int|
            0 <= j < values.len() && crate::laws::plain::agree(#[trigger] values[j], s),
{
    assert forall|j: int| 0 <= j < values.len() implies (crate::text::same_ignoring_case(
        #[trigger] values[j],
        s,
    ) <==> crate::laws::plain::agree(values[j], s)) by {
        crate::laws::texts::same_up_to_case_letter_by_letter(values[j], s);
    }
}

/// Agreement goes both ways.
proof fn agreement_goes_both_ways(a: Seq<char>, b: Seq<char>)
    requires
        crate::laws::plain::agree(a, b),
    ensures
        crate::laws::plain::agree(b, a),
{
    assert forall|i: int| 0 <= i < b.len() implies crate::laws::plain::letters_agree(
        #[trigger] b[i],
        a[i],
    ) by {
        assert(crate::laws::plain::letters_agree(a[i], b[i]));
    }
}

/// The tags of an item are those entered for it, and none where there is no
/// entry.
pub proof fn tags_are_those_entered(tags: Map<Seq<char>, Seq<Seq<char>>>, uuid: Seq<char>)
    ensures
        tags.contains_key(uuid) ==> crate::filter::tags_of(tags, uuid) == tags[uuid],
        !tags.contains_key(uuid) ==> crate::filter::tags_of(tags, uuid).len() == 0,
{
}

/// The category of an item is that of its first field, and empty where it has
/// none.
pub proof fn category_is_that_of_first_field(fields: Seq<ItemView>, uuid: Seq<char>, k: int)
    ensures
        crate::laws::plain::is_first_field(fields, uuid, k) ==> crate::filter::category_of(
            fields,
            uuid,
        ) == fields[k].category,
        (forall|i: int| 0 <= i < fields.len() ==> (#[trigger] fields[i]).uuid != uuid)
            ==> crate::filter::category_of(fields, uuid).len() == 0,
{
    let own = |i: ItemView| i.uuid == uuid;
    if crate::laws::plain::is_first_field(fields, uuid, k) {
        crate::sequences::filter_first(fields, own, k);
    }
    if forall|i: int| 0 <= i < fields.len() ==> (#[trigger] fields[i]).uuid != uuid {
        crate::sequences::filter_none(fields, own);
    }
}

/// An item with a field has a first one.
pub proof fn first_field_exists(fields: Seq<ItemView>, uuid: Seq<char>, i: int) -> (k: int)
    requires
        0 <= i < fields.len(),
        fields[i].uuid == uuid,
    ensures
        crate::laws::plain::is_first_field(fields, uuid, k),
        k <= i,
    decreases i,
{
    if exists|j: int| 0 <= j < i && (#[trigger] fields[j]).uuid == uuid {
        let j = choose|j: int| 0 <= j < i && (#[trigger] fields[j]).uuid == uuid;
        first_field_exists(fields, uuid, j)
    } else {
        i
    }
}

/// An item is of a category exactly where the one it has agrees with it.
proof fn category_agrees(fields: Seq<ItemView>, uuid: Seq<char>, name: Seq<char>)
    ensures
        crate::laws::plain::agree(name, crate::filter::category_of(fields, uuid))
            <==> crate::laws::plain::is_of_category(fields, uuid, name),
{
    let category = crate::filter::category_of(fields, uuid);
    if exists|i: int| 0 <= i < fields.len() && (#[trigger] fields[i]).uuid == uuid {
        let i = choose|i: int| 0 <= i < fields.len() && (#[trigger] fields[i]).uuid == uuid;
        let k = first_field_exists(fields, uuid, i);
        category_is_that_of_first_field(fields, uuid, k);
        if crate::laws::plain::agree(name, category) {
            agreement_goes_both_ways(name, category);
        }
        if crate::laws::plain::is_of_category(fields, uuid, name) {
            let m = choose|m: int| #[trigger]
                crate::laws::plain::is_first_field(fields, uuid, m) && crate::laws::plain::agree(
                    fields[m].category,
                    name,
                );
            assert(crate::laws::plain::is_first_field(fields, uuid, m));
            assert(m == k);
            agreement_goes_both_ways(category, name);
        }
    } else {
        category_is_that_of_first_field(fields, uuid, 0);
        assert forall|k: int| !crate::laws::plain::is_first_field(fields, uuid, k) by {}
    }
}

/// An item meets a criterion exactly where it has what the key and the values ask
/// for: every value among its tags, or one value as its category, its flag or the
/// text of a field with the key as label.
pub proof fn criterion_is_met_letter_by_letter(
    key: Seq<char>,
    values: Seq<Seq<char>>,
    uuid: Seq<char>,
    fields: Seq<ItemView>,
    tags: Map<Seq<char>, Seq<Seq<char>>>,
)
    ensures
        crate::filter::meets(key, values, uuid, fields, tags) <==> crate::laws::plain::satisfies(
            key,
            values,
            uuid,
            fields,
            tags,
        ),
{
    key_words(key);
    tags_are_those_entered(tags, uuid);
    let own = crate::filter::tags_of(tags, uuid);
    if crate::laws::plain::is_tag_key(key) {
        assert forall|j: int| 0 <= j < values.len() implies (crate::filter::any_same(
            own,
            #[trigger] values[j],
        ) <==> crate::laws::plain::answers_to(key, values[j], uuid, fields, tags)) by {
            any_agrees(own, values[j]);
        }
    } else if crate::laws::plain::agree(key, "category"@) {
        any_agrees(values, crate::filter::category_of(fields, uuid));
        assert forall|j: int| 0 <= j < values.len() implies (crate::laws::plain::agree(
            #[trigger] values[j],
            crate::filter::category_of(fields, uuid),
        ) <==> crate::laws::plain::answers_to(key, values[j], uuid, fields, tags)) by {
            category_agrees(fields, uuid, values[j]);
        }
    } else if crate::laws::plain::is_favorite_key(key) || crate::laws::plain::agree(
        key,
        "archived"@,
    ) {
        let flag = if crate::laws::plain::is_favorite_key(key) {
            crate::laws::plain::is_favorite(fields, uuid)
        } else {
            crate::laws::plain::is_archived(fields, uuid)
        };
        assert forall|j: int| 0 <= j < values.len() implies (crate::filter::means_yes(
            #[trigger] values[j],
        ) == flag <==> crate::laws::plain::answers_to(key, values[j], uuid, fields, tags)) by {
            yes_is_one_of_three_words(values[j]);
        }
        assert(crate::filter::meets(key, values, uuid, fields, tags) == crate::filter::any_says(
            values,
            flag,
        ));
    } else {
        assert forall|k: int| 0 <= k < fields.len() implies (crate::filter::field_holds(
            #[trigger] fields[k],
            key,
            values,
            uuid,
        ) <==> fields[k].uuid == uuid && crate::laws::plain::agree(fields[k].label, key)
            && crate::item::field_text(fields[k]) is Ok && exists|j: int|
            0 <= j < values.len() && crate::laws::plain::agree(
                #[trigger] values[j],
                crate::item::field_text(fields[k])->Ok_0,
            )) by {
            crate::laws::texts::same_up_to_case_letter_by_letter(fields[k].label, key);
            if crate::item::field_text(fields[k]) is Ok {
                any_agrees(values, crate::item::field_text(fields[k])->Ok_0);
            }
        }
        if crate::filter::meets(key, values, uuid, fields, tags) {
            let k = choose|k: int|
                0 <= k < fields.len() && crate::filter::field_holds(
                    #[trigger] fields[k],
                    key,
                    values,
                    uuid,
                );
            let text = crate::item::field_text(fields[k])->Ok_0;
            let j = choose|j: int|
                0 <= j < values.len() && crate::laws::plain::agree(#[trigger] values[j], text);
            agreement_goes_both_ways(values[j], text);
            assert(crate::laws::plain::reads_as(fields, uuid, key, values[j]));
            assert(crate::laws::plain::answers_to(key, values[j], uuid, fields, tags));
        }
        if crate::laws::plain::satisfies(key, values, uuid, fields, tags) {
            let j = choose|j: int|
                0 <= j < values.len() && crate::laws::plain::answers_to(
                    key,
                    #[trigger] values[j],
                    uuid,
                    fields,
                    tags,
                );
            assert(crate::laws::plain::reads_as(fields, uuid, key, values[j]));
            let k = choose|k: int| {
                &&& 0 <= k < fields.len()
                &&& (#[trigger] fields[k]).uuid == uuid
                &&& crate::laws::plain::agree(fields[k].label, key)
                &&& crate::item::field_text(fields[k]) is Ok
                &&& crate::laws::plain::agree(
                    crate::item::field_text(fields[k])->Ok_0,
                    values[j],
                )
            };
            agreement_goes_both_ways(crate::item::field_text(fields[k])->Ok_0, values[j]);
            assert(crate::filter::field_holds(fields[k], key, values, uuid));
        }
    }
}

/// An item passes a filter exactly where it has what every key asks for.
pub proof fn filter_is_passed_key_by_key(
    filter: Map<Seq<char>, Seq<Seq<char>>>,
    uuid: Seq<char>,
    fields: Seq<ItemView>,
    tags: Map<Seq<char>, Seq<Seq<char>>>,
)
    ensures
        crate::filter::passes(filter, uuid, fields, tags) <==> crate::laws::plain::satisfies_all(
            filter,
            uuid,
            fields,
            tags,
        ),
{
    assert forall|key: Seq<char>| #[trigger] filter.contains_key(key) implies (
    crate::filter::meets(key, filter[key], uuid, fields, tags) <==> crate::laws::plain::satisfies(
        key,
        filter[key],
        uuid,
        fields,
        tags,
    )) by {
        criterion_is_met_letter_by_letter(key, filter[key], uuid, fields, tags);
    }
}

/// A criterion on a label with one value is met exactly where a field of the item
/// with that label reads as a text of the same length as the value that agrees
/// with it letter by letter.
pub proof fn field_value_must_agree_as_a_whole(
    key: Seq<char>,
    value: Seq<char>,
    uuid: Seq<char>,
    fields: Seq<ItemView>,
    tags: Map<Seq<char>, Seq<Seq<char>>>,
)
    requires
        crate::laws::plain::is_label_key(key),
    ensures
        crate::filter::meets(key, seq![value], uuid, fields, tags) <==> exists|k: int| {
            &&& 0 <= k < fields.len()
            &&& (#[trigger] fields[k]).uuid == uuid
            &&& crate::laws::plain::agree(fields[k].label, key)
            &&& crate::item::field_text(fields[k]) is Ok
            &&& crate::item::field_text(fields[k])->Ok_0.len() == value.len()
            &&& forall|c: int|
                0 <= c < value.len() ==> crate::laws::plain::letters_agree(
                    crate::item::field_text(fields[k])->Ok_0[c],
                    #[trigger] value[c],
                )
        },
{
    criterion_is_met_letter_by_letter(key, seq![value], uuid, fields, tags);
    assert(seq![value][0] == value);
    assert forall|k: int| 0 <= k < fields.len() && crate::item::field_text(
        #[trigger] fields[k],
    ) is Ok implies (crate::laws::plain::agree(crate::item::field_text(fields[k])->Ok_0, value)
        <==> crate::item::field_text(fields[k])->Ok_0.len() == value.len() && forall|c: int|
        0 <= c < value.len() ==> crate::laws::plain::letters_agree(
            crate::item::field_text(fields[k])->Ok_0[c],
            #[trigger] value[c],
        )) by {
        let text = crate::item::field_text(fields[k])->Ok_0;
        if crate::laws::plain::agree(text, value) {
            assert forall|c: int| 0 <= c < value.len() implies crate::laws::plain::letters_agree(
                text[c],
                #[trigger] value[c],
            ) by {
                assert(crate::laws::plain::letters_agree(text[c], value[c]));
            }
        }
        if text.len() == value.len() && forall|c: int|
            0 <= c < value.len() ==> crate::laws::plain::letters_agree(text[c], #[trigger] value[c]) {
            assert forall|c: int| 0 <= c < text.len() implies crate::laws::plain::letters_agree(
                #[trigger] text[c],
                value[c],
            ) by {
                assert(crate::laws::plain::letters_agree(text[c], value[c]));
            }
        }
    }
}

/// A criterion on tags with one value is met exactly where one of the item's tags
/// agrees with the value as a whole.
pub proof fn tag_must_agree_as_a_whole(
    key: Seq<char>,
    value: Seq<char>,
    uuid: Seq<char>,
    fields: Seq<ItemView>,
    tags: Map<Seq<char>, Seq<Seq<char>>>,
)
    requires
        crate::laws::plain::is_tag_key(key),
    ensures
        crate::filter::meets(key, seq![value], uuid, fields, tags) <==> tags.contains_key(uuid)
            && exists|t: int|
            0 <= t < tags[uuid].len() && crate::laws::plain::agree(#[trigger] tags[uuid][t], value),
{
    criterion_is_met_letter_by_letter(key, seq![value], uuid, fields, tags);
    assert(seq![value][0] == value);
}

/// A criterion on the category with one value is met exactly where the category of
/// the item's first field agrees with the value as a whole.
pub proof fn category_must_agree_as_a_whole(
    key: Seq<char>,
    value: Seq<char>,
    uuid: Seq<char>,
    fields: Seq<ItemView>,
    tags: Map<Seq<char>, Seq<Seq<char>>>,
    k: int,
)
    requires
        crate::laws::plain::agree(key, "category"@),
        crate::laws::plain::is_first_field(fields, uuid, k),
    ensures
        crate::filter::meets(key, seq![value], uuid, fields, tags) <==> crate::laws::plain::agree(
            fields[k].category,
            value,
        ),
{
    reveal_strlit("tag");
    reveal_strlit("tags");
    reveal_strlit("folder");
    reveal_strlit("category");
    criterion_is_met_letter_by_letter(key, seq![value], uuid, fields, tags);
    assert(seq![value][0] == value);
    assert forall|m: int| #[trigger]
        crate::laws::plain::is_first_field(fields, uuid, m) implies m == k by {}
}

} // verus!
