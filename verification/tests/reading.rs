use enpass::batch::{read_content, read_vault, Vault};
use enpass::order::sort_distinct;
use enpass::query::{ItemRow, QueryResult};
use enpass::text::{
    comes_before, decimal_text, eq_ignore_ascii_case, join, same_text, to_ascii_lowercase, trim,
};
use enpass::{EnpassItem, EnpassProvider, FilterValue, FnoxError, SecretFilter, Tags};

fn row(uuid: &str, value: &str, sensitive: i64, favorite: i64) -> ItemRow {
    ItemRow {
        uuid: uuid.to_string(),
        title: "Mail".to_string(),
        label: "password".to_string(),
        value: value.to_string(),
        item_key: vec![1, 2],
        sensitive,
        trashed: 5,
        deleted: 6,
        category: "login".to_string(),
        favorite,
        archived: 0,
    }
}

fn item(uuid: &str, title: &str, value: &str) -> EnpassItem {
    let mut item = row(uuid, value, 0, 0).into_item();
    item.title = title.to_string();
    item.trashed = 0;
    item.deleted = 0;
    item
}

fn database_error(e: FnoxError) -> String {
    match e {
        FnoxError::ProviderApiError { details, hint, .. } => {
            assert_eq!(hint, "The vault database may be corrupted");
            details
        }
        _ => panic!("another error"),
    }
}

fn items_error(result: QueryResult<ItemRow>) -> String {
    database_error(EnpassProvider::query_items(result).err().unwrap())
}

fn tags_error(result: QueryResult<(String, String)>) -> String {
    database_error(EnpassProvider::query_tags(result).err().unwrap())
}

#[test]
fn rows_become_fields() {
    let rows = vec![Ok(row("a", "1", -1, 0)), Ok(row("b", "2", 0, 2))];
    let items = EnpassProvider::query_items(QueryResult::Rows(rows)).unwrap();
    assert_eq!(items.len(), 2);
    assert_eq!(items[0].uuid, "a");
    assert_eq!(items[0].value, "1");
    assert_eq!(items[0].item_key, vec![1, 2]);
    assert!(items[0].sensitive && !items[0].favorite && !items[0].archived);
    assert!(!items[1].sensitive && items[1].favorite);
    assert_eq!((items[1].trashed, items[1].deleted), (5, 6));
    assert_eq!(items[1].category, "login");
}

#[test]
fn first_unreadable_row_is_reported() {
    let rows = vec![
        Ok(row("a", "1", 0, 0)),
        Err("first".to_string()),
        Err("second".to_string()),
    ];
    assert_eq!(items_error(QueryResult::Rows(rows)), "Failed to read vault item: first");
}

#[test]
fn failed_queries_are_reported() {
    let e = "why".to_string();
    assert_eq!(items_error(QueryResult::PrepareFailed(e.clone())), "Failed to query vault: why");
    assert_eq!(
        items_error(QueryResult::QueryFailed(e.clone())),
        "Failed to query vault items: why"
    );
    assert_eq!(
        tags_error(QueryResult::PrepareFailed(e.clone())),
        "Failed to query folder/tags: why"
    );
    assert_eq!(tags_error(QueryResult::QueryFailed(e)), "Failed to query folder/tag items: why");
}

#[test]
fn tags_are_collected_by_item() {
    let pair = |u: &str, n: &str| Ok((u.to_string(), n.to_string()));
    let rows = vec![
        pair("a", "x"),
        pair("b", "y"),
        Err("skipped".to_string()),
        pair("a", "z"),
    ];
    let tags = EnpassProvider::query_tags(QueryResult::Rows(rows)).unwrap();
    assert_eq!(tags.get("a"), vec!["x".to_string(), "z".to_string()]);
    assert_eq!(tags.get("b"), vec!["y".to_string()]);
    assert_eq!(tags.get("c"), Vec::<String>::new());
}

#[test]
fn batch_agrees_with_single_requests() {
    let vault = || {
        let items = vec![item("a", "Mail", "m"), item("b", "News", "n")];
        Ok(Vault { items, tags: Tags::new() })
    };
    let ask = |k: &str, v: &str| (k.to_string(), v.to_string());
    let secrets = vec![
        ask("K1", "Mail"),
        ask("K2", "news/PASSWORD"),
        ask("K3", "Other"),
        ask("K1", "News"),
    ];
    let batch = EnpassProvider::get_secrets_batch(&vault(), &secrets);
    assert_eq!(batch.len(), 3);
    assert_eq!(batch.get("K1").unwrap().as_ref().unwrap(), "n");
    assert_eq!(batch.get("K2").unwrap().as_ref().unwrap(), "n");
    assert!(batch.get("K3").unwrap().is_err());
    assert!(batch.get("K4").is_none());
    assert_eq!(EnpassProvider::get_secret(vault(), "News").unwrap(), "n");
    assert_eq!(EnpassProvider::get_secret(vault(), "mail").unwrap(), "m");
    let empty = EnpassProvider::get_secrets_batch(&vault(), &[]);
    assert_eq!(empty.len(), 0);
}

#[test]
fn unreadable_vault_is_reported() {
    let broken = || EnpassProvider::get_password(None, None).map(|_| unreachable!());
    let vault: Result<Vault, FnoxError> = broken();
    let secrets = vec![("K".to_string(), "Mail".to_string())];
    let batch = EnpassProvider::get_secrets_batch(&vault, &secrets);
    match batch.get("K").unwrap().as_ref().unwrap_err() {
        FnoxError::ProviderApiError { details, hint, .. } => {
            assert_eq!(details, "Enpass: authentication failed: Vault password not set");
            assert_eq!(hint, "Check your Enpass vault configuration");
        }
        _ => panic!("another error"),
    }
    let single = EnpassProvider::get_secret(vault, "Mail").unwrap_err();
    assert!(matches!(single, FnoxError::ProviderAuthFailed { .. }));
}

#[test]
fn filtered_request() {
    let items = vec![item("a", "Mail", "m"), item("b", "Mail", "n")];
    let mut tags = Tags::new();
    tags.insert("b".to_string(), vec!["Work".to_string()]);
    let mut filter = SecretFilter::new();
    filter.insert("tag".to_string(), FilterValue::Single("work".to_string()));
    let vault = Ok(Vault { items, tags });
    let r = EnpassProvider::get_secret_filtered(vault, "Mail", Some(&filter));
    assert_eq!(r.unwrap(), "n");
}

#[test]
fn texts_are_compared_and_folded() {
    assert!(same_text("a\u{e9}", "a\u{e9}") && !same_text("a", "ab") && !same_text("ab", "a"));
    assert!(eq_ignore_ascii_case("MiX", "mIx") && !eq_ignore_ascii_case("\u{c9}", "\u{e9}"));
    assert_eq!(to_ascii_lowercase("AZ[\u{c9}az"), "az[\u{c9}az");
    for a in ["", "a", "B", "a\u{e9}", "\u{10000}", "\u{ffff}", "ab"] {
        for b in ["", "a", "B", "a\u{e9}", "\u{10000}", "\u{ffff}", "ab"] {
            assert_eq!(comes_before(a, b), a < b);
        }
    }
    assert_eq!(sort_distinct(&vec!["b", "a", "b", "B", "ab"]), vec!["B", "a", "ab", "b"]);
}

#[test]
fn texts_are_trimmed_joined_and_counted() {
    for s in ["", "  ", " a b ", "\u{85}x\u{2003}", "\u{200b}y", "z\u{feff}\u{1680}", "\u{b}\u{c}"] {
        assert_eq!(trim(s), s.trim());
    }
    let parts = vec!["a".to_string(), String::new(), "b".to_string()];
    assert_eq!(join(&parts, ", "), "a, , b");
    assert_eq!(join(&vec![], ", "), "");
    for n in [0usize, 9, 10, 44, 1203, usize::MAX] {
        assert_eq!(decimal_text(n), n.to_string());
    }
}

fn named(message: &str) -> String {
    message.to_string()
}

#[test]
fn first_failure_is_reported() {
    let secrets = vec![("K".to_string(), "Mail".to_string())];
    let cases: Vec<(fn() -> Result<Vault, FnoxError>, &str)> = vec![
        (
            || read_vault(Err(EnpassProvider::get_password(None, None).unwrap_err())),
            "Enpass: authentication failed: Vault password not set",
        ),
        (
            || {
                read_vault(Ok((
                    QueryResult::Rows(vec![Ok(row("a", "1", 0, 0)), Err(named("torn"))]),
                    QueryResult::PrepareFailed(named("no folder")),
                )))
            },
            "Enpass: Failed to read vault item: torn",
        ),
        (
            || {
                read_vault(Ok((
                    QueryResult::Rows(vec![Ok(row("a", "1", 0, 0))]),
                    QueryResult::PrepareFailed(named("no folder")),
                )))
            },
            "Enpass: Failed to query folder/tags: no folder",
        ),
    ];
    for (vault, message) in cases {
        let single = EnpassProvider::get_secret(vault(), "Mail").unwrap_err();
        assert_eq!(single.message(), message);
        let batch = EnpassProvider::get_secrets_batch(&vault(), &secrets);
        match batch.get("K").unwrap().as_ref().unwrap_err() {
            FnoxError::ProviderApiError { details, .. } => assert_eq!(details, message),
            _ => panic!("another error"),
        }
    }
}

#[test]
fn vault_holds_what_the_queries_gave() {
    let live = |uuid: &str, value: &str| {
        let mut r = row(uuid, value, 0, 0);
        r.trashed = 0;
        r.deleted = 0;
        r
    };
    let vault = read_content(
        QueryResult::Rows(vec![Ok(live("a", "1")), Ok(live("b", "2"))]),
        QueryResult::Rows(vec![Err(named("torn")), Ok((named("b"), named("Work")))]),
    );
    let mut filter = SecretFilter::new();
    filter.insert("tag".to_string(), FilterValue::Single("work".to_string()));
    let r = EnpassProvider::get_secret_filtered(vault, "Mail", Some(&filter));
    assert_eq!(r.unwrap(), "2");
}
