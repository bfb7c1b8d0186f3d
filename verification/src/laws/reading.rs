//! Reading: rows of the database, and batches of references.
use vstd::prelude::*;

use crate::batch::VaultView;
use crate::error::{ErrorView, FnoxError};
use crate::item::ItemView;
use crate::query::{ItemRow, QueryResult};

verus! {

/// Where every row could be read, each becomes a field, in order.
pub proof fn readable_rows_become_fields(rows: Seq<Result<ItemRow, String>>)
    requires
        forall|i: int| 0 <= i < rows.len() ==> (#[trigger] rows[i]) is Ok,
    ensures
        crate::query::items_of_rows(rows) == Ok::<Seq<ItemView>, ErrorView>(
            rows.map_values(|r: Result<ItemRow, String>| r->Ok_0@),
        ),
    decreases rows.len(),
{
    let f = |r: Result<ItemRow, String>| r->Ok_0@;
    if rows.len() == 0 {
        assert(rows.map_values(f) =~= Seq::empty());
    } else {
        readable_rows_become_fields(rows.drop_last());
        assert(rows[rows.len() - 1] is Ok);
        assert(rows.map_values(f) =~= rows.drop_last().map_values(f).push(f(rows.last())));
    }
}

/// The first row that could not be read is reported.
pub proof fn first_unreadable_row_is_reported(rows: Seq<Result<ItemRow, String>>, i: int)
    requires
        0 <= i < rows.len(),
        rows[i] is Err,
        forall|j: int| 0 <= j < i ==> (#[trigger] rows[j]) is Ok,
    ensures
        crate::query::items_of_rows(rows) == Err::<Seq<ItemView>, ErrorView>(
            crate::error::api_failure(
                "Failed to read vault item: "@ + rows[i]->Err_0@,
                crate::query::corrupted_hint(),
            ),
        ),
    decreases rows.len(),
{
    if i == rows.len() - 1 {
        readable_rows_become_fields(rows.drop_last());
    } else {
        first_unreadable_row_is_reported(rows.drop_last(), i);
    }
}

/// Whether a row could be read and is about this item.
pub open spec fn is_tag_row(row: Result<(String, String), String>, uuid: Seq<char>) -> bool {
    row matches Ok(pair) && pair.0@ == uuid
}

/// The tags of an item are the names in the rows about it that could be read, in
/// order.
pub proof fn tags_are_those_of_the_rows(
    rows: Seq<Result<(String, String), String>>,
    uuid: Seq<char>,
)
    ensures
        crate::filter::tags_of(crate::query::tags_of_rows(rows), uuid) == rows.filter(
            |r: Result<(String, String), String>| is_tag_row(r, uuid),
        ).map_values(|r: Result<(String, String), String>| r->Ok_0.1@),
    decreases rows.len(),
{
    reveal(Seq::filter);
    let p = |r: Result<(String, String), String>| is_tag_row(r, uuid);
    let f = |r: Result<(String, String), String>| r->Ok_0.1@;
    if rows.len() == 0 {
        assert(rows.filter(p).map_values(f) =~= Seq::empty());
    } else {
        let rest = rows.drop_last();
        tags_are_those_of_the_rows(rest, uuid);
        if p(rows.last()) {
            assert(rest.filter(p).push(rows.last()).map_values(f) =~= rest.filter(p).map_values(
                f,
            ).push(f(rows.last())));
        }
    }
}

/// The first failure in reading a vault, if there is one: that of opening it, or
/// else that of reading fields, or else that of reading tags.
pub open spec fn first_failure(
    opened: Result<(QueryResult<ItemRow>, QueryResult<(String, String)>), FnoxError>,
) -> Option<ErrorView> {
    match opened {
        Err(e) => Some(e@),
        Ok((items, tags)) => if crate::query::items_of(items) is Err {
            Some(crate::query::items_of(items)->Err_0)
        } else if crate::query::tags_found(tags) is Err {
            Some(crate::query::tags_found(tags)->Err_0)
        } else {
            None
        },
    }
}

/// A request reports the first failure of opening, reading fields and reading
/// tags, as it stands. Without a failure it resolves the reference among the
/// fields and tags that were read.
pub proof fn request_reports_first_failure(
    opened: Result<(QueryResult<ItemRow>, QueryResult<(String, String)>), FnoxError>,
    value: Seq<char>,
    filter: Option<Map<Seq<char>, Seq<Seq<char>>>>,
)
    ensures
        match first_failure(opened) {
            Some(e) => crate::batch::secret_of(crate::batch::vault_read(opened), value, filter)
                == Err::<Seq<char>, ErrorView>(e),
            None => crate::batch::secret_of(crate::batch::vault_read(opened), value, filter)
                == crate::resolve::resolved(
                crate::query::items_of(opened->Ok_0.0)->Ok_0,
                value,
                filter,
                crate::query::tags_found(opened->Ok_0.1)->Ok_0,
            ),
        },
{
}

/// A batch reports the first failure of opening, reading fields and reading tags
/// for every key that was asked for. Without a failure it resolves the last
/// reference with each key.
pub proof fn batch_reports_first_failure(
    opened: Result<(QueryResult<ItemRow>, QueryResult<(String, String)>), FnoxError>,
    secrets: Seq<(String, String)>,
    i: int,
)
    requires
        0 <= i < secrets.len(),
        forall|j: int| i < j < secrets.len() ==> (#[trigger] secrets[j]).0@ != secrets[i].0@,
    ensures
        ({
            let answers = crate::batch::batch_answers(crate::batch::vault_read(opened), secrets);
            &&& answers.contains_key(secrets[i].0@)
            &&& answers[secrets[i].0@] == match first_failure(opened) {
                Some(e) => Err(
                    crate::error::api_failure(
                        crate::error::message_of(e),
                        "Check your Enpass vault configuration"@,
                    ),
                ),
                None => crate::resolve::resolved(
                    crate::query::items_of(opened->Ok_0.0)->Ok_0,
                    secrets[i].1@,
                    None,
                    crate::query::tags_found(opened->Ok_0.1)->Ok_0,
                ),
            }
        }),
{
    last_reference_with_a_key_counts(crate::batch::vault_read(opened), secrets, i);
}

/// A batch answers for the keys that were asked for, and for no others.
pub proof fn batch_answers_the_keys_asked_for(
    vault: Result<VaultView, ErrorView>,
    secrets: Seq<(String, String)>,
    key: Seq<char>,
)
    ensures
        crate::batch::batch_answers(vault, secrets).contains_key(key) <==> exists|i: int|
            0 <= i < secrets.len() && (#[trigger] secrets[i]).0@ == key,
    decreases secrets.len(),
{
    if secrets.len() > 0 {
        let rest = secrets.drop_last();
        batch_answers_the_keys_asked_for(vault, rest, key);
        if exists|i: int| 0 <= i < rest.len() && (#[trigger] rest[i]).0@ == key {
            let i = choose|i: int| 0 <= i < rest.len() && (#[trigger] rest[i]).0@ == key;
            assert(secrets[i].0@ == key);
        }
        if exists|i: int| 0 <= i < secrets.len() && (#[trigger] secrets[i]).0@ == key {
            let i = choose|i: int| 0 <= i < secrets.len() && (#[trigger] secrets[i]).0@ == key;
            if i < rest.len() {
                assert(rest[i].0@ == key);
            }
        }
        assert(secrets[secrets.len() - 1] == secrets.last());
    }
}

/// The answer for a key is that for the last reference with it.
pub proof fn last_reference_with_a_key_counts(
    vault: Result<VaultView, ErrorView>,
    secrets: Seq<(String, String)>,
    i: int,
)
    requires
        0 <= i < secrets.len(),
        forall|j: int| i < j < secrets.len() ==> (#[trigger] secrets[j]).0@ != secrets[i].0@,
    ensures
        crate::batch::batch_answers(vault, secrets).contains_key(secrets[i].0@),
        crate::batch::batch_answers(vault, secrets)[secrets[i].0@] == crate::batch::batch_answer(
            vault,
            secrets[i].1@,
        ),
    decreases secrets.len(),
{
    if i < secrets.len() - 1 {
        assert(secrets[secrets.len() - 1].0@ != secrets[i].0@);
        last_reference_with_a_key_counts(vault, secrets.drop_last(), i);
    }
}

/// A batch answers as each reference would be answered on its own, without a
/// filter.
pub proof fn batch_agrees_with_single_requests(
    vault: VaultView,
    secrets: Seq<(String, String)>,
    i: int,
)
    requires
        0 <= i < secrets.len(),
        forall|j: int| i < j < secrets.len() ==> (#[trigger] secrets[j]).0@ != secrets[i].0@,
    ensures
        crate::batch::batch_answers(Ok(vault), secrets)[secrets[i].0@] == crate::batch::secret_of(
            Ok(vault),
            secrets[i].1@,
            None,
        ),
{
    last_reference_with_a_key_counts(Ok(vault), secrets, i);
}

/// A vault that could not be read is reported for every key of a batch.
pub proof fn unreadable_vault_is_reported_for_every_key(
    e: ErrorView,
    secrets: Seq<(String, String)>,
    key: Seq<char>,
)
    requires
        crate::batch::batch_answers(Err(e), secrets).contains_key(key),
    ensures
        crate::batch::batch_answers(Err(e), secrets)[key] == Err::<Seq<char>, ErrorView>(
            crate::error::api_failure(
                crate::error::message_of(e),
                "Check your Enpass vault configuration"@,
            ),
        ),
    decreases secrets.len(),
{
    if secrets.len() > 0 && secrets.last().0@ != key {
        unreadable_vault_is_reported_for_every_key(e, secrets.drop_last(), key);
    }
}

} // verus!
