//! The words that the laws are stated in: characters, positions and columns.
use vstd::prelude::*;

use crate::error::ErrorView;
use crate::item::ItemView;

verus! {

/// Whether two characters are the same, or one is the capital of the other among
/// the letters from `A` to `Z`.
pub open spec fn letters_agree(c: char, d: char) -> bool {
    ||| c == d
    ||| 'A' <= c <= 'Z' && d as int == c as int + 32
    ||| 'A' <= d <= 'Z' && c as int == d as int + 32
}

/// Whether two texts have the same length and agree letter by letter.
pub open spec fn agree(a: Seq<char>, b: Seq<char>) -> bool {
    &&& a.len() == b.len()
    &&& forall|i: int| 0 <= i < a.len() ==> letters_agree(#[trigger] a[i], b[i])
}

/// Whether `a` differs from `b` at some position for the first time and has the
/// smaller code point there, or is the beginning of a longer `b`.
pub open spec fn earlier(a: Seq<char>, b: Seq<char>) -> bool {
    ||| exists|k: int|
        0 <= k < a.len() && k < b.len() && #[trigger] a.take(k) == b.take(k) && (a[k] as int) < (
        b[k] as int)
    ||| a.len() < b.len() && a == b.take(a.len() as int)
}

/// Whether a character is white space, by its code point.
pub open spec fn is_blank(c: char) -> bool {
    let n = c as int;
    ||| 9 <= n <= 13
    ||| n == 32
    ||| n == 133
    ||| n == 160
    ||| n == 5760
    ||| 8192 <= n <= 8202
    ||| n == 8232
    ||| n == 8233
    ||| n == 8239
    ||| n == 8287
    ||| n == 12288
}

/// Whether a text consists of white space.
pub open spec fn all_blank(s: Seq<char>) -> bool {
    forall|i: int| 0 <= i < s.len() ==> is_blank(#[trigger] s[i])
}

/// Whether a text neither starts nor ends with white space.
pub open spec fn bare_ends(s: Seq<char>) -> bool {
    s.len() > 0 ==> !is_blank(s[0]) && !is_blank(s[s.len() - 1])
}

/// Whether `pattern` stands nowhere in `s`.
pub open spec fn is_absent(s: Seq<char>, pattern: Seq<char>) -> bool {
    forall|i: int|
        0 <= i && i + pattern.len() <= s.len() ==> #[trigger] s.subrange(i, i + pattern.len())
            != pattern
}

/// Whether a reference consists of a title and a label, or of a title alone.
pub open spec fn names(value: Seq<char>, title: Seq<char>, label: Option<Seq<char>>) -> bool {
    match label {
        Some(l) => value == title + seq!['/'] + l && !l.contains('/'),
        None => value == title && !value.contains('/'),
    }
}

/// Whether a field belongs to an item that bears the title and is neither in the
/// trash nor deleted.
pub open spec fn is_live(item: ItemView, title: Seq<char>) -> bool {
    agree(item.title, title) && item.trashed == 0 && item.deleted == 0
}

/// The fields of the items that bear the title and are neither in the trash nor
/// deleted.
pub open spec fn live_fields(items: Seq<ItemView>, title: Seq<char>) -> Seq<ItemView> {
    items.filter(|i: ItemView| is_live(i, title))
}

/// Whether `k` is the position of the first field of an item.
pub open spec fn is_first_field(fields: Seq<ItemView>, uuid: Seq<char>, k: int) -> bool {
    &&& 0 <= k < fields.len()
    &&& fields[k].uuid == uuid
    &&& forall|j: int| 0 <= j < k ==> (#[trigger] fields[j]).uuid != uuid
}

/// Whether a key asks for tags.
pub open spec fn is_tag_key(key: Seq<char>) -> bool {
    agree(key, "tag"@) || agree(key, "tags"@) || agree(key, "folder"@)
}

/// Whether a key asks for favorites.
pub open spec fn is_favorite_key(key: Seq<char>) -> bool {
    agree(key, "favorite"@) || agree(key, "fav"@)
}

/// Whether a key is the label of a field: it asks for nothing else.
pub open spec fn is_label_key(key: Seq<char>) -> bool {
    &&& !is_tag_key(key)
    &&& !agree(key, "category"@)
    &&& !is_favorite_key(key)
    &&& !agree(key, "archived"@)
}

/// Whether a value says yes.
pub open spec fn says_yes(value: Seq<char>) -> bool {
    agree(value, "true"@) || agree(value, "1"@) || agree(value, "yes"@)
}

/// Whether an item has a tag.
pub open spec fn bears_tag(
    tags: Map<Seq<char>, Seq<Seq<char>>>,
    uuid: Seq<char>,
    name: Seq<char>,
) -> bool {
    tags.contains_key(uuid) && exists|t: int|
        0 <= t < tags[uuid].len() && agree(#[trigger] tags[uuid][t], name)
}

/// Whether an item is of a category: its first field says so. An item without
/// fields is of the empty category.
pub open spec fn is_of_category(
    fields: Seq<ItemView>,
    uuid: Seq<char>,
    name: Seq<char>,
) -> bool {
    ||| exists|k: int| #[trigger] is_first_field(fields, uuid, k) && agree(fields[k].category, name)
    ||| name.len() == 0 && forall|k: int|
        0 <= k < fields.len() ==> (#[trigger] fields[k]).uuid != uuid
}

/// Whether a field of an item is marked as a favorite.
pub open spec fn is_favorite(fields: Seq<ItemView>, uuid: Seq<char>) -> bool {
    exists|k: int|
        0 <= k < fields.len() && (#[trigger] fields[k]).uuid == uuid && fields[k].favorite
}

/// Whether a field of an item is marked as archived.
pub open spec fn is_archived(fields: Seq<ItemView>, uuid: Seq<char>) -> bool {
    exists|k: int|
        0 <= k < fields.len() && (#[trigger] fields[k]).uuid == uuid && fields[k].archived
}

/// Whether a field of an item bears a label and reads as a value.
pub open spec fn reads_as(
    fields: Seq<ItemView>,
    uuid: Seq<char>,
    label: Seq<char>,
    value: Seq<char>,
) -> bool {
    exists|k: int| {
        &&& 0 <= k < fields.len()
        &&& (#[trigger] fields[k]).uuid == uuid
        &&& agree(fields[k].label, label)
        &&& crate::item::field_text(fields[k]) is Ok
        &&& agree(crate::item::field_text(fields[k])->Ok_0, value)
    }
}

/// Whether an item answers to one value under a key.
pub open spec fn answers_to(
    key: Seq<char>,
    value: Seq<char>,
    uuid: Seq<char>,
    fields: Seq<ItemView>,
    tags: Map<Seq<char>, Seq<Seq<char>>>,
) -> bool {
    if is_tag_key(key) {
        bears_tag(tags, uuid, value)
    } else if agree(key, "category"@) {
        is_of_category(fields, uuid, value)
    } else if is_favorite_key(key) {
        says_yes(value) == is_favorite(fields, uuid)
    } else if agree(key, "archived"@) {
        says_yes(value) == is_archived(fields, uuid)
    } else {
        reads_as(fields, uuid, key, value)
    }
}

/// Whether an item satisfies a key with its values: all of them for tags, one of
/// them for anything else.
pub open spec fn satisfies(
    key: Seq<char>,
    values: Seq<Seq<char>>,
    uuid: Seq<char>,
    fields: Seq<ItemView>,
    tags: Map<Seq<char>, Seq<Seq<char>>>,
) -> bool {
    if is_tag_key(key) {
        forall|j: int|
            0 <= j < values.len() ==> answers_to(key, #[trigger] values[j], uuid, fields, tags)
    } else {
        exists|j: int|
            0 <= j < values.len() && answers_to(key, #[trigger] values[j], uuid, fields, tags)
    }
}

/// Whether an item satisfies every key of a filter.
pub open spec fn satisfies_all(
    filter: Map<Seq<char>, Seq<Seq<char>>>,
    uuid: Seq<char>,
    fields: Seq<ItemView>,
    tags: Map<Seq<char>, Seq<Seq<char>>>,
) -> bool {
    forall|key: Seq<char>| #[trigger]
        filter.contains_key(key) ==> satisfies(key, filter[key], uuid, fields, tags)
}

/// Whether an item is the one that is meant: the only one that satisfies the
/// filter, or, without a filter, the one with the smallest UUID.
pub open spec fn is_meant(
    fields: Seq<ItemView>,
    uuid: Seq<char>,
    filter: Option<Map<Seq<char>, Seq<Seq<char>>>>,
    tags: Map<Seq<char>, Seq<Seq<char>>>,
) -> bool {
    &&& exists|k: int| 0 <= k < fields.len() && (#[trigger] fields[k]).uuid == uuid
    &&& match filter {
        Some(f) => {
            &&& satisfies_all(f, uuid, fields, tags)
            &&& forall|k: int|
                0 <= k < fields.len() && (#[trigger] fields[k]).uuid != uuid ==> !satisfies_all(
                    f,
                    fields[k].uuid,
                    fields,
                    tags,
                )
        },
        None => forall|k: int|
            0 <= k < fields.len() && (#[trigger] fields[k]).uuid != uuid ==> earlier(
                uuid,
                fields[k].uuid,
            ),
    }
}

/// The error for a vault that could not be unlocked.
pub open spec fn auth_failed(details: Seq<char>, hint: Seq<char>) -> ErrorView {
    ErrorView::AuthFailed {
        provider: "Enpass"@,
        details,
        hint,
        url: "https://fnox.jdx.dev/providers/enpass"@,
    }
}

/// The error for a vault that could not be read.
pub open spec fn api_error(details: Seq<char>, hint: Seq<char>) -> ErrorView {
    ErrorView::ApiError {
        provider: "Enpass"@,
        details,
        hint,
        url: "https://fnox.jdx.dev/providers/enpass"@,
    }
}

/// The error for a secret that is not there.
pub open spec fn secret_not_found(secret: Seq<char>, hint: Seq<char>) -> ErrorView {
    ErrorView::SecretNotFound {
        provider: "Enpass"@,
        secret,
        hint,
        url: "https://fnox.jdx.dev/providers/enpass"@,
    }
}

} // verus!
