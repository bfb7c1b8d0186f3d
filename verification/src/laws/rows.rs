//! Rows and requests: fields and tags from the columns of the database, and the
//! answers to requests.
use vstd::prelude::*;

use crate::batch::VaultView;
use crate::error::{ErrorView, FnoxError};
use crate::item::ItemView;
use crate::query::{ItemRow, QueryResult};

verus! {

/// Where every row could be read, there is one field for each, in order, and it
/// agrees with its row column by column. A flag holds exactly where its own column
/// is not zero.
pub proof fn rows_become_fields_column_by_column(rows: Vec<Result<ItemRow, String>>, i: int)
    requires
        forall|j: int| 0 <= j < rows@.len() ==> (#[trigger] rows@[j]) is Ok,
        0 <= i < rows@.len(),
    ensures
        ({
            let outcome = crate::query::items_of(QueryResult::Rows(rows));
            let row = rows@[i]->Ok_0;
            let field = outcome->Ok_0[i];
            &&& outcome is Ok
            &&& outcome->Ok_0.len() == rows@.len()
            &&& field.uuid == row.uuid@
            &&& field.title == row.title@
            &&& field.label == row.label@
            &&& field.value == row.value@
            &&& field.item_key == row.item_key@
            &&& field.sensitive <==> row.sensitive != 0
            &&& field.trashed == row.trashed
            &&& field.deleted == row.deleted
            &&& field.category == row.category@
            &&& field.favorite <==> row.favorite != 0
            &&& field.archived <==> row.archived != 0
        }),
{
    crate::laws::reading::readable_rows_become_fields(rows@);
}

/// No rows are no fields and no tags.
pub proof fn no_rows_are_nothing(
    items: Vec<Result<ItemRow, String>>,
    tags: Vec<Result<(String, String), String>>,
)
    ensures
        items@.len() == 0 ==> crate::query::items_of(QueryResult::Rows(items)) == Ok::<
            Seq<ItemView>,
            ErrorView,
        >(Seq::empty()),
        tags@.len() == 0 ==> crate::query::tags_found(QueryResult::Rows(tags)) == Ok::<
            Map<Seq<char>, Seq<Seq<char>>>,
            ErrorView,
        >(Map::empty()),
{
}

/// The first row about a field that could not be read is reported.
pub proof fn first_torn_row_is_reported(rows: Vec<Result<ItemRow, String>>, i: int)
    requires
        0 <= i < rows@.len(),
        rows@[i] is Err,
        forall|j: int| 0 <= j < i ==> (#[trigger] rows@[j]) is Ok,
    ensures
        crate::query::items_of(QueryResult::Rows(rows)) == Err::<Seq<ItemView>, ErrorView>(
            crate::laws::plain::api_error(
                "Failed to read vault item: "@ + rows@[i]->Err_0@,
                "The vault database may be corrupted"@,
            ),
        ),
{
    crate::laws::reading::first_unreadable_row_is_reported(rows@, i);
}

/// A query that fails is reported as what it asked for and where it failed.
pub proof fn failed_queries_are_reported(e: String)
    ensures
        crate::query::items_of(QueryResult::PrepareFailed(e)) == Err::<Seq<ItemView>, ErrorView>(
            crate::laws::plain::api_error(
                "Failed to query vault: "@ + e@,
                "The vault database may be corrupted"@,
            ),
        ),
        crate::query::items_of(QueryResult::QueryFailed(e)) == Err::<Seq<ItemView>, ErrorView>(
            crate::laws::plain::api_error(
                "Failed to query vault items: "@ + e@,
                "The vault database may be corrupted"@,
            ),
        ),
        crate::query::tags_found(QueryResult::PrepareFailed(e)) == Err::<
            Map<Seq<char>, Seq<Seq<char>>>,
            ErrorView,
        >(
            crate::laws::plain::api_error(
                "Failed to query folder/tags: "@ + e@,
                "The vault database may be corrupted"@,
            ),
        ),
        crate::query::tags_found(QueryResult::QueryFailed(e)) == Err::<
            Map<Seq<char>, Seq<Seq<char>>>,
            ErrorView,
        >(
            crate::laws::plain::api_error(
                "Failed to query folder/tag items: "@ + e@,
                "The vault database may be corrupted"@,
            ),
        ),
{
}

/// An item has an entry for tags exactly where a row that could be read names it.
/// The entry holds the names of those rows, in their order.
pub proof fn tags_come_from_readable_rows(
    rows: Vec<Result<(String, String), String>>,
    uuid: Seq<char>,
)
    ensures
        ({
            let outcome = crate::query::tags_found(QueryResult::Rows(rows));
            let named = |r: Result<(String, String), String>| r is Ok && r->Ok_0.0@ == uuid;
            &&& outcome is Ok
            &&& outcome->Ok_0.contains_key(uuid) <==> exists|i: int|
                0 <= i < rows@.len() && (#[trigger] rows@[i]) is Ok && rows@[i]->Ok_0.0@ == uuid
            &&& outcome->Ok_0.contains_key(uuid) ==> outcome->Ok_0[uuid] == rows@.filter(
                named,
            ).map_values(|r: Result<(String, String), String>| r->Ok_0.1@)
        }),
{
    let p = |r: Result<(String, String), String>| crate::laws::reading::is_tag_row(r, uuid);
    let named = |r: Result<(String, String), String>| r is Ok && r->Ok_0.0@ == uuid;
    crate::laws::reading::tags_are_those_of_the_rows(rows@, uuid);
    crate::sequences::filter_same(rows@, p, named);
    tag_entries(rows@, uuid);
    crate::laws::criteria::tags_are_those_entered(crate::query::tags_of_rows(rows@), uuid);
}

/// An item has an entry exactly where a row that could be read names it.
proof fn tag_entries(rows: Seq<Result<(String, String), String>>, uuid: Seq<char>)
    ensures
        crate::query::tags_of_rows(rows).contains_key(uuid) <==> exists|i: int|
            0 <= i < rows.len() && (#[trigger] rows[i]) is Ok && rows[i]->Ok_0.0@ == uuid,
    decreases rows.len(),
{
    if rows.len() > 0 {
        let rest = rows.drop_last();
        tag_entries(rest, uuid);
        if exists|i: int|
            0 <= i < rest.len() && (#[trigger] rest[i]) is Ok && rest[i]->Ok_0.0@ == uuid {
            let i = choose|i: int|
                0 <= i < rest.len() && (#[trigger] rest[i]) is Ok && rest[i]->Ok_0.0@ == uuid;
            assert(rows[i] is Ok && rows[i]->Ok_0.0@ == uuid);
        }
        if exists|i: int|
            0 <= i < rows.len() && (#[trigger] rows[i]) is Ok && rows[i]->Ok_0.0@ == uuid {
            let i = choose|i: int|
                0 <= i < rows.len() && (#[trigger] rows[i]) is Ok && rows[i]->Ok_0.0@ == uuid;
            if i < rest.len() {
                assert(rest[i] is Ok && rest[i]->Ok_0.0@ == uuid);
            }
        }
        assert(rows[rows.len() - 1] == rows.last());
    }
}

/// The content of a vault is the fields and the tags that were read. A failure of
/// opening is reported before one of reading fields, and that before one of reading
/// tags, each as it is.
pub proof fn content_is_fields_and_tags(
    items: QueryResult<ItemRow>,
    tags: QueryResult<(String, String)>,
    e: FnoxError,
)
    ensures
        crate::batch::vault_read(Err(e)) == Err::<VaultView, ErrorView>(e@),
        crate::batch::vault_read(Ok((items, tags))) == crate::batch::content_read(items, tags),
        crate::query::items_of(items) is Err ==> crate::batch::content_read(items, tags) == Err::<
            VaultView,
            ErrorView,
        >(crate::query::items_of(items)->Err_0),
        crate::query::items_of(items) is Ok && crate::query::tags_found(tags) is Err
            ==> crate::batch::content_read(items, tags) == Err::<VaultView, ErrorView>(
            crate::query::tags_found(tags)->Err_0,
        ),
        crate::query::items_of(items) is Ok && crate::query::tags_found(tags) is Ok ==> {
            let content = crate::batch::content_read(items, tags);
            &&& content is Ok
            &&& content->Ok_0.items == crate::query::items_of(items)->Ok_0
            &&& content->Ok_0.tags == crate::query::tags_found(tags)->Ok_0
        },
{
}

/// A request resolves its reference in the vault with its filter; a vault that
/// could not be read is reported as it is.
pub proof fn request_resolves_in_the_vault(
    vault: VaultView,
    value: Seq<char>,
    filter: Option<Map<Seq<char>, Seq<Seq<char>>>>,
    e: ErrorView,
)
    ensures
        crate::batch::secret_of(Ok(vault), value, filter) == crate::resolve::resolved(
            vault.items,
            value,
            filter,
            vault.tags,
        ),
        crate::batch::secret_of(Err(e), value, filter) == Err::<Seq<char>, ErrorView>(e),
{
}

/// A batch answers for exactly the keys that were asked for: each with what the last
/// reference with it resolves to without a filter.
pub proof fn batch_resolves_last_reference_of_each_key(
    vault: VaultView,
    secrets: Seq<(String, String)>,
    i: int,
    key: Seq<char>,
)
    requires
        0 <= i < secrets.len(),
        forall|j: int| i < j < secrets.len() ==> (#[trigger] secrets[j]).0@ != secrets[i].0@,
    ensures
        crate::batch::batch_answers(Ok(vault), secrets).contains_key(secrets[i].0@),
        crate::batch::batch_answers(Ok(vault), secrets)[secrets[i].0@] == crate::resolve::resolved(
            vault.items,
            secrets[i].1@,
            None,
            vault.tags,
        ),
        crate::batch::batch_answers(Ok(vault), secrets).contains_key(key) <==> exists|j: int|
            0 <= j < secrets.len() && (#[trigger] secrets[j]).0@ == key,
{
    crate::laws::reading::last_reference_with_a_key_counts(Ok(vault), secrets, i);
    crate::laws::reading::batch_answers_the_keys_asked_for(Ok(vault), secrets, key);
}

/// Where the vault could not be read, a batch answers for exactly the keys that were
/// asked for, each with the same error, which tells what went wrong.
pub proof fn batch_reports_unreadable_vault(
    e: ErrorView,
    secrets: Seq<(String, String)>,
    key: Seq<char>,
)
    ensures
        crate::batch::batch_answers(Err(e), secrets).contains_key(key) <==> exists|j: int|
            0 <= j < secrets.len() && (#[trigger] secrets[j]).0@ == key,
        crate::batch::batch_answers(Err(e), secrets).contains_key(key)
            ==> crate::batch::batch_answers(Err(e), secrets)[key] == Err::<Seq<char>, ErrorView>(
            crate::laws::plain::api_error(
                match e {
                    ErrorView::AuthFailed { provider, details, .. } => provider
                        + ": authentication failed: "@ + details,
                    ErrorView::ApiError { provider, details, .. } => provider + ": "@ + details,
                    ErrorView::SecretNotFound { provider, secret, .. } => provider + ": secret '"@
                        + secret + "' not found"@,
                },
                "Check your Enpass vault configuration"@,
            ),
        ),
{
    crate::laws::reading::batch_answers_the_keys_asked_for(Err(e), secrets, key);
    if crate::batch::batch_answers(Err(e), secrets).contains_key(key) {
        crate::laws::reading::unreadable_vault_is_reported_for_every_key(e, secrets, key);
    }
}

} // verus!
