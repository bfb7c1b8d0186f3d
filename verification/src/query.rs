//! The rows of a vault's database, and what is made of them.
use vstd::prelude::*;

use crate::error::{api_error, ErrorView, FnoxError};
use crate::filter::Tags;
use crate::item::{EnpassItem, ItemView};
use crate::provider::EnpassProvider;

verus! {

/// What running a query gave: the text of an error, or for each row either its
/// columns or the text of an error.
pub enum QueryResult<R> {
    PrepareFailed(String),
    QueryFailed(String),
    Rows(Vec<Result<R, String>>),
}

/// One row about a field of an item: its columns in order.
pub struct ItemRow {
    pub uuid: String,
    pub title: String,
    pub label: String,
    pub value: String,
    pub item_key: Vec<u8>,
    pub sensitive: i64,
    pub trashed: i64,
    pub deleted: i64,
    pub category: String,
    pub favorite: i64,
    pub archived: i64,
}

impl View for ItemRow {
    type V = ItemView;

    /// The field that a row describes. A number that is not zero stands for yes.
    open spec fn view(&self) -> ItemView {
        ItemView {
            uuid: self.uuid@,
            title: self.title@,
            label: self.label@,
            value: self.value@,
            item_key: self.item_key@,
            sensitive: self.sensitive != 0,
            trashed: self.trashed,
            deleted: self.deleted,
            category: self.category@,
            favorite: self.favorite != 0,
            archived: self.archived != 0,
        }
    }
}

/// The outcome of collecting fields, as plain values.
pub open spec fn items_outcome(r: Result<Vec<EnpassItem>, FnoxError>) -> Result<
    Seq<ItemView>,
    ErrorView,
> {
    match r {
        Ok(items) => Ok(crate::item::items_view(items@)),
        Err(e) => Err(e@),
    }
}

/// The hint in every error about the database.
pub open spec fn corrupted_hint() -> Seq<char> {
    "The vault database may be corrupted"@
}

/// The fields of the rows, or the error of the first row that could not be read.
pub open spec fn items_of_rows(rows: Seq<Result<ItemRow, String>>) -> Result<
    Seq<ItemView>,
    ErrorView,
>
    decreases rows.len(),
{
    if rows.len() == 0 {
        Ok(Seq::empty())
    } else {
        match items_of_rows(rows.drop_last()) {
            Err(e) => Err(e),
            Ok(items) => match rows.last() {
                Ok(row) => Ok(items.push(row@)),
                Err(e) => Err(
                    crate::error::api_failure(
                        "Failed to read vault item: "@ + e@,
                        corrupted_hint(),
                    ),
                ),
            },
        }
    }
}

/// The fields that a query gave.
pub open spec fn items_of(result: QueryResult<ItemRow>) -> Result<Seq<ItemView>, ErrorView> {
    match result {
        QueryResult::PrepareFailed(e) => Err(
            crate::error::api_failure("Failed to query vault: "@ + e@, corrupted_hint()),
        ),
        QueryResult::QueryFailed(e) => Err(
            crate::error::api_failure("Failed to query vault items: "@ + e@, corrupted_hint()),
        ),
        QueryResult::Rows(rows) => items_of_rows(rows@),
    }
}

/// An error in the first rows is an error in all of them.
proof fn early_error_stays(rows: Seq<Result<ItemRow, String>>, n: int)
    requires
        0 <= n <= rows.len(),
        items_of_rows(rows.take(n)) is Err,
    ensures
        items_of_rows(rows) == items_of_rows(rows.take(n)),
    decreases rows.len(),
{
    if n == rows.len() {
        assert(rows.take(n) == rows);
    } else {
        assert(rows.drop_last().take(n) == rows.take(n));
        early_error_stays(rows.drop_last(), n);
    }
}

/// The tags of the rows: each row gives an item one more tag, and a row that
/// could not be read gives none.
pub open spec fn tags_of_rows(rows: Seq<Result<(String, String), String>>) -> Map<
    Seq<char>,
    Seq<Seq<char>>,
>
    decreases rows.len(),
{
    if rows.len() == 0 {
        Map::empty()
    } else {
        let tags = tags_of_rows(rows.drop_last());
        match rows.last() {
            Ok((uuid, name)) => tags.insert(
                uuid@,
                crate::filter::tags_of(tags, uuid@).push(name@),
            ),
            Err(_) => tags,
        }
    }
}

/// The tags that a query gave.
pub open spec fn tags_found(result: QueryResult<(String, String)>) -> Result<
    Map<Seq<char>, Seq<Seq<char>>>,
    ErrorView,
> {
    match result {
        QueryResult::PrepareFailed(e) => Err(
            crate::error::api_failure("Failed to query folder/tags: "@ + e@, corrupted_hint()),
        ),
        QueryResult::QueryFailed(e) => Err(
            crate::error::api_failure("Failed to query folder/tag items: "@ + e@, corrupted_hint()),
        ),
        QueryResult::Rows(rows) => Ok(tags_of_rows(rows@)),
    }
}

/// The outcome of collecting tags, as plain values.
pub open spec fn tags_outcome(r: Result<Tags, FnoxError>) -> Result<
    Map<Seq<char>, Seq<Seq<char>>>,
    ErrorView,
> {
    match r {
        Ok(tags) => Ok(tags@),
        Err(e) => Err(e@),
    }
}

/// Makes an error about the database.
fn database_error(what: &str, e: &str) -> (r: FnoxError)
    ensures
        r@ == crate::error::api_failure(what@ + e@, corrupted_hint()),
{
    api_error(what.to_owned().concat(e), "The vault database may be corrupted")
}

impl ItemRow {
    /// The field that a row describes.
    pub fn into_item(self) -> (r: EnpassItem)
        ensures
            r@ == self@,
            r.uuid@ == self.uuid@,
            r.title@ == self.title@,
            r.label@ == self.label@,
            r.value@ == self.value@,
            r.item_key@ == self.item_key@,
            r.sensitive <==> self.sensitive != 0,
            r.trashed == self.trashed,
            r.deleted == self.deleted,
            r.category@ == self.category@,
            r.favorite <==> self.favorite != 0,
            r.archived <==> self.archived != 0,
    {
        EnpassItem {
            uuid: self.uuid,
            title: self.title,
            label: self.label,
            value: self.value,
            item_key: self.item_key,
            sensitive: self.sensitive != 0,
            trashed: self.trashed,
            deleted: self.deleted,
            category: self.category,
            favorite: self.favorite != 0,
            archived: self.archived != 0,
        }
    }
}

impl EnpassProvider {
    /// Collects the fields that a query gave, in their order.
    pub fn query_items(result: QueryResult<ItemRow>) -> (r: Result<Vec<EnpassItem>, FnoxError>)
        ensures
            items_outcome(r) == items_of(result),
    {
        match result {
            QueryResult::PrepareFailed(e) => Err(
                database_error("Failed to query vault: ", e.as_str()),
            ),
            QueryResult::QueryFailed(e) => Err(
                database_error("Failed to query vault items: ", e.as_str()),
            ),
            QueryResult::Rows(rows) => {
                let ghost all = rows@;
                let mut items: Vec<EnpassItem> = Vec::new();
                assert(all.take(0) =~= Seq::empty());
                assert(crate::item::items_view(items@) =~= Seq::empty());
                for row in it: rows
                    invariant
                        it.seq() == all,
                        items_of(result) == items_of_rows(all),
                        items_of_rows(all.take(it.index())) == Ok::<Seq<ItemView>, ErrorView>(
                            crate::item::items_view(items@),
                        ),
                {
                    let ghost earlier = items@;
                    let ghost next = all.take(it.index() + 1);
                    assert(next.drop_last() == all.take(it.index()));
                    assert(next.last() == row);
                    match row {
                        Ok(row) => {
                            items.push(row.into_item());
                            assert(crate::item::items_view(items@) =~= crate::item::items_view(
                                earlier,
                            ).push(row@));
                        },
                        Err(e) => {
                            proof {
                                early_error_stays(all, it.index() + 1);
                            }
                            return Err(database_error("Failed to read vault item: ", e.as_str()));
                        },
                    }
                }
                assert(all.take(all.len() as int) == all);
                Ok(items)
            },
        }
    }

    /// Collects the folder and tag names that a query gave, by item.
    pub fn query_tags(result: QueryResult<(String, String)>) -> (r: Result<Tags, FnoxError>)
        ensures
            tags_outcome(r) == tags_found(result),
    {
        match result {
            QueryResult::PrepareFailed(e) => Err(
                database_error("Failed to query folder/tags: ", e.as_str()),
            ),
            QueryResult::QueryFailed(e) => Err(
                database_error("Failed to query folder/tag items: ", e.as_str()),
            ),
            QueryResult::Rows(rows) => {
                let ghost all = rows@;
                let mut tags = Tags::new();
                assert(all.take(0) =~= Seq::empty());
                for row in it: rows
                    invariant
                        it.seq() == all,
                        tags@ == tags_of_rows(all.take(it.index())),
                {
                    let ghost next = all.take(it.index() + 1);
                    assert(next.drop_last() == all.take(it.index()));
                    assert(next.last() == row);
                    match row {
                        Ok((uuid, name)) => {
                            tags.push(uuid, name);
                        },
                        Err(_) => {},
                    }
                }
                assert(all.take(all.len() as int) == all);
                Ok(tags)
            },
        }
    }
}

} // verus!
