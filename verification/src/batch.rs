//! Secrets from a vault whose content was read, one at a time or several.
use vstd::hash_map::StringHashMap;
use vstd::prelude::*;

use crate::error::{api_error, ErrorView, FnoxError};
use crate::filter::{SecretFilter, Tags};
use crate::item::{EnpassItem, ItemView};
use crate::provider::EnpassProvider;
use crate::query::{ItemRow, QueryResult};

verus! {

/// The content of a vault.
pub struct Vault {
    pub items: Vec<EnpassItem>,
    pub tags: Tags,
}

/// The content of a vault as plain values.
#[verifier::ext_equal]
pub struct VaultView {
    pub items: Seq<ItemView>,
    pub tags: Map<Seq<char>, Seq<Seq<char>>>,
}

impl View for Vault {
    type V = VaultView;

    open spec fn view(&self) -> VaultView {
        VaultView { items: crate::item::items_view(self.items@), tags: self.tags@ }
    }
}

/// The outcome of reading a vault, as plain values.
pub open spec fn vault_outcome(r: Result<Vault, FnoxError>) -> Result<VaultView, ErrorView> {
    match r {
        Ok(vault) => Ok(vault@),
        Err(e) => Err(e@),
    }
}

/// The content that the two queries gave: the fields and the tags, or the failure
/// of the query for fields, or else that of the query for tags.
pub open spec fn content_read(
    items: QueryResult<ItemRow>,
    tags: QueryResult<(String, String)>,
) -> Result<VaultView, ErrorView> {
    match crate::query::items_of(items) {
        Err(e) => Err(e),
        Ok(fields) => match crate::query::tags_found(tags) {
            Err(e) => Err(e),
            Ok(names) => Ok(VaultView { items: fields, tags: names }),
        },
    }
}

/// The content of a vault that was opened, or why it could not be opened.
pub open spec fn vault_read(
    opened: Result<(QueryResult<ItemRow>, QueryResult<(String, String)>), FnoxError>,
) -> Result<VaultView, ErrorView> {
    match opened {
        Err(e) => Err(e@),
        Ok((items, tags)) => content_read(items, tags),
    }
}

/// Makes up the content of a vault from what its two queries gave.
pub fn read_content(items: QueryResult<ItemRow>, tags: QueryResult<(String, String)>) -> (r: Result<
    Vault,
    FnoxError,
>)
    ensures
        vault_outcome(r) == content_read(items, tags),
{
    let items = match EnpassProvider::query_items(items) {
        Ok(items) => items,
        Err(e) => return Err(e),
    };
    match EnpassProvider::query_tags(tags) {
        Ok(tags) => Ok(Vault { items, tags }),
        Err(e) => Err(e),
    }
}

/// Makes up the content of a vault from what opening it gave: what the two queries
/// gave, or an error.
pub fn read_vault(
    opened: Result<(QueryResult<ItemRow>, QueryResult<(String, String)>), FnoxError>,
) -> (r: Result<Vault, FnoxError>)
    ensures
        vault_outcome(r) == vault_read(opened),
{
    match opened {
        Ok((items, tags)) => read_content(items, tags),
        Err(e) => Err(e),
    }
}

/// The secret that a reference stands for in a vault.
pub open spec fn secret_of(
    vault: Result<VaultView, ErrorView>,
    value: Seq<char>,
    filter: Option<Map<Seq<char>, Seq<Seq<char>>>>,
) -> Result<Seq<char>, ErrorView> {
    match vault {
        Ok(v) => crate::resolve::resolved(v.items, value, filter, v.tags),
        Err(e) => Err(e),
    }
}

/// What a batch answers for one reference. A vault that could not be read is
/// reported for each of them.
pub open spec fn batch_answer(vault: Result<VaultView, ErrorView>, value: Seq<char>) -> Result<
    Seq<char>,
    ErrorView,
> {
    match vault {
        Ok(v) => crate::resolve::resolved(v.items, value, None, v.tags),
        Err(e) => Err(
            crate::error::api_failure(
                crate::error::message_of(e),
                "Check your Enpass vault configuration"@,
            ),
        ),
    }
}

/// What a batch answers, by key. Of several references with one key the last one
/// counts.
pub open spec fn batch_answers(
    vault: Result<VaultView, ErrorView>,
    secrets: Seq<(String, String)>,
) -> Map<Seq<char>, Result<Seq<char>, ErrorView>>
    decreases secrets.len(),
{
    if secrets.len() == 0 {
        Map::empty()
    } else {
        batch_answers(vault, secrets.drop_last()).insert(
            secrets.last().0@,
            batch_answer(vault, secrets.last().1@),
        )
    }
}

/// The answers to a batch of references, by key.
pub struct SecretBatch {
    answers: StringHashMap<Result<String, FnoxError>>,
}

impl View for SecretBatch {
    type V = Map<Seq<char>, Result<Seq<char>, ErrorView>>;

    closed spec fn view(&self) -> Map<Seq<char>, Result<Seq<char>, ErrorView>> {
        self.answers@.map_values(|r: Result<String, FnoxError>| crate::error::text_outcome(r))
    }
}

impl SecretBatch {
    /// No answers yet.
    fn new() -> (r: SecretBatch)
        ensures
            r@ == Map::<Seq<char>, Result<Seq<char>, ErrorView>>::empty(),
    {
        let r = SecretBatch { answers: StringHashMap::new() };
        assert(r@ =~= Map::empty());
        r
    }

    /// Answers for a key, in place of an earlier answer.
    fn insert(&mut self, key: String, answer: Result<String, FnoxError>)
        ensures
            final(self)@ == old(self)@.insert(key@, crate::error::text_outcome(answer)),
    {
        self.answers.insert(key, answer);
        assert(self@ =~= old(self)@.insert(key@, crate::error::text_outcome(answer)));
    }

    /// The answer for a key.
    pub fn get(&self, key: &str) -> (r: Option<&Result<String, FnoxError>>)
        ensures
            match r {
                Some(answer) => self@.contains_key(key@) && self@[key@]
                    == crate::error::text_outcome(*answer),
                None => !self@.contains_key(key@),
            },
    {
        self.answers.get(key)
    }

    /// How many keys have an answer.
    pub fn len(&self) -> (r: usize)
        ensures
            r == self@.dom().len(),
    {
        assert(self@.dom() =~= self.answers@.dom());
        self.answers.len()
    }
}

impl EnpassProvider {
    /// The secret that a reference stands for.
    pub fn get_secret(vault: Result<Vault, FnoxError>, value: &str) -> (r: Result<
        String,
        FnoxError,
    >)
        ensures
            crate::error::text_outcome(r) == secret_of(vault_outcome(vault), value@, None),
    {
        Self::get_secret_filtered(vault, value, None)
    }

    /// The secret that a reference stands for among the items that pass a filter.
    pub fn get_secret_filtered(
        vault: Result<Vault, FnoxError>,
        value: &str,
        filter: Option<&SecretFilter>,
    ) -> (r: Result<String, FnoxError>)
        ensures
            crate::error::text_outcome(r) == secret_of(
                vault_outcome(vault),
                value@,
                match filter {
                    Some(f) => Some(f@),
                    None => None,
                },
            ),
    {
        match vault {
            Ok(v) => Self::resolve_from_items_filtered(v.items.as_slice(), value, filter, &v.tags),
            Err(e) => Err(e),
        }
    }

    /// The secrets that several references stand for, by key. The vault is read
    /// once for all of them.
    pub fn get_secrets_batch(vault: &Result<Vault, FnoxError>, secrets: &[(String, String)]) -> (r:
        SecretBatch)
        ensures
            r@ == batch_answers(vault_outcome(*vault), secrets@),
    {
        let mut batch = SecretBatch::new();
        let mut i: usize = 0;
        assert(secrets@.take(0) =~= Seq::empty());
        while i < secrets.len()
            invariant
                i <= secrets.len(),
                batch@ == batch_answers(vault_outcome(*vault), secrets@.take(i as int)),
            decreases secrets.len() - i,
        {
            let answer = match vault {
                Ok(v) => Self::resolve_from_items_filtered(
                    v.items.as_slice(),
                    secrets[i].1.as_str(),
                    None,
                    &v.tags,
                ),
                Err(e) => Err(api_error(e.message(), "Check your Enpass vault configuration")),
            };
            batch.insert(secrets[i].0.clone(), answer);
            proof {
                let next = secrets@.take(i + 1);
                assert(next.drop_last() == secrets@.take(i as int));
                assert(next.last() == secrets@[i as int]);
            }
            i = i + 1;
        }
        assert(secrets@.take(secrets@.len() as int) == secrets@);
        batch
    }
}

} // verus!
