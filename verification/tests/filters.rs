use enpass::filter::meets_criterion;
use enpass::{EnpassItem, EnpassProvider, FilterValue, FnoxError, SecretFilter, Tags};

fn field(uuid: &str, title: &str, label: &str, value: &str) -> EnpassItem {
    EnpassItem {
        uuid: uuid.to_string(),
        title: title.to_string(),
        label: label.to_string(),
        value: value.to_string(),
        item_key: vec![],
        sensitive: false,
        trashed: 0,
        deleted: 0,
        category: "login".to_string(),
        favorite: false,
        archived: false,
    }
}

fn filter_of(key: &str, values: &[&str]) -> SecretFilter {
    let mut filter = SecretFilter::new();
    filter.insert(
        key.to_string(),
        FilterValue::Multiple(values.iter().map(|v| v.to_string()).collect()),
    );
    filter
}

fn resolve(
    items: &[EnpassItem],
    value: &str,
    filter: &SecretFilter,
    tags: &Tags,
) -> Result<String, FnoxError> {
    EnpassProvider::resolve_from_items_filtered(items, value, Some(filter), tags)
}

#[test]
fn reference_splits_at_the_last_slash() {
    assert_eq!(EnpassProvider::parse_reference("my-item"), ("my-item", None));
    assert_eq!(
        EnpassProvider::parse_reference("my-item/password"),
        ("my-item", Some("password"))
    );
    assert_eq!(
        EnpassProvider::parse_reference("my-item/username"),
        ("my-item", Some("username"))
    );
    assert_eq!(EnpassProvider::parse_reference("a/b/c"), ("a/b", Some("c")));
    assert_eq!(EnpassProvider::parse_reference("/"), ("", Some("")));
    assert_eq!(EnpassProvider::parse_reference("\u{e9}/\u{20ac}"), ("\u{e9}", Some("\u{20ac}")));
    assert_eq!(EnpassProvider::parse_reference(""), ("", None));
}

#[test]
fn unknown_title_is_not_found() {
    let items = vec![field("u", "Mail", "password", "p")];
    let e = EnpassProvider::resolve_from_items_filtered(&items, "News/password", None, &Tags::new())
        .unwrap_err();
    match e {
        FnoxError::ProviderSecretNotFound { provider, secret, hint, url } => {
            assert_eq!(provider, "Enpass");
            assert_eq!(secret, "News");
            assert_eq!(hint, "Check that the item title exists in the vault");
            assert_eq!(url, "https://fnox.jdx.dev/providers/enpass");
        }
        _ => panic!("another error"),
    }
}

#[test]
fn unknown_field_lists_the_fields() {
    let items = vec![
        field("u", "Mail", "username", "n"),
        field("u", "Mail", "password", "p"),
    ];
    let e = EnpassProvider::resolve_from_items_filtered(&items, "mail/otp", None, &Tags::new())
        .unwrap_err();
    match e {
        FnoxError::ProviderSecretNotFound { secret, hint, .. } => {
            assert_eq!(secret, "mail/otp");
            assert_eq!(
                hint,
                "Field 'otp' not found in item 'mail'. Available fields: username, password"
            );
        }
        _ => panic!("another error"),
    }
}

#[test]
fn nothing_passes_the_filter() {
    let items = vec![field("b", "Mail", "password", "p"), field("a", "Mail", "password", "q")];
    let mut tags = Tags::new();
    tags.insert("b".to_string(), vec!["x".to_string(), "y".to_string()]);
    let e = resolve(&items, "Mail/password", &filter_of("tag", &["z"]), &tags).unwrap_err();
    assert_eq!(e.message(), "Enpass: secret 'Mail/password' not found");
    match e {
        FnoxError::ProviderSecretNotFound { hint, .. } => assert_eq!(
            hint,
            "No items named 'Mail' matched the filter. Available items:\n  - uuid=a, category='login', tags=[]\n  - uuid=b, category='login', tags=[x, y]"
        ),
        _ => panic!("another error"),
    }
}

#[test]
fn several_items_pass_the_filter() {
    let items = vec![field("b", "Mail", "password", "p"), field("a", "Mail", "password", "q")];
    let e = resolve(&items, "Mail", &SecretFilter::new(), &Tags::new()).unwrap_err();
    match e {
        FnoxError::ProviderApiError { details, hint, .. } => {
            assert_eq!(details, "Multiple items named 'Mail' found (2 matches)");
            assert_eq!(
                hint,
                "Use 'filter' to disambiguate. Matching items:\n  - uuid=a, category='login', tags=[]\n  - uuid=b, category='login', tags=[]\nExample: filter = { tag = \"my-tag\" } or filter = { Username = \"user@example.com\" }"
            );
        }
        _ => panic!("another error"),
    }
}

#[test]
fn ten_items_are_counted_in_decimal() {
    let mut items = Vec::new();
    for c in ["a", "b", "c", "d", "e", "f", "g", "h", "i", "j"] {
        items.push(field(c, "T", "l", "v"));
    }
    let e = resolve(&items, "T", &SecretFilter::new(), &Tags::new()).unwrap_err();
    assert_eq!(e.message(), "Enpass: Multiple items named 'T' found (10 matches)");
}

#[test]
fn smallest_uuid_is_meant_without_a_filter() {
    let items = vec![
        field("b", "Mail", "password", "of-b"),
        field("a\u{ff}", "Mail", "password", "of-a-long"),
        field("a", "Mail", "password", "of-a"),
    ];
    for value in ["Mail", "MAIL", "mail/PASSWORD"] {
        let r = EnpassProvider::resolve_from_items_filtered(&items, value, None, &Tags::new());
        assert_eq!(r.unwrap(), "of-a");
    }
}

#[test]
fn trash_is_not_found() {
    let mut trashed = field("a", "Mail", "password", "old");
    trashed.trashed = 1;
    let mut deleted = field("b", "Mail", "password", "older");
    deleted.deleted = 1;
    let items = vec![trashed, deleted, field("c", "Mail", "password", "new")];
    let r = EnpassProvider::resolve_from_items_filtered(&items, "Mail", None, &Tags::new());
    assert_eq!(r.unwrap(), "new");
    let r = EnpassProvider::resolve_from_items_filtered(&items[..2], "Mail", None, &Tags::new());
    assert!(r.is_err());
}

#[test]
fn bare_title_prefers_a_sensitive_field() {
    let mut secret = field("u", "Mail", "password", "");
    secret.sensitive = true;
    let items = vec![field("u", "Mail", "username", "n"), secret];
    let r = EnpassProvider::resolve_from_items_filtered(&items, "Mail", None, &Tags::new());
    assert_eq!(r.unwrap(), "");
    let r = EnpassProvider::resolve_from_items_filtered(&items[..1], "Mail", None, &Tags::new());
    assert_eq!(r.unwrap(), "n");
}

#[test]
fn later_criterion_for_a_key_replaces_the_earlier() {
    let items = vec![field("u", "Mail", "password", "p")];
    let mut filter = SecretFilter::new();
    filter.insert("category".to_string(), FilterValue::Single("note".to_string()));
    assert!(resolve(&items, "Mail", &filter, &Tags::new()).is_err());
    filter.insert("category".to_string(), FilterValue::Single("LOGIN".to_string()));
    assert_eq!(resolve(&items, "Mail", &filter, &Tags::new()).unwrap(), "p");
    filter.insert("Category".to_string(), FilterValue::Single("note".to_string()));
    assert!(resolve(&items, "Mail", &filter, &Tags::new()).is_err());
}

#[test]
fn tags_need_all_values_and_others_one() {
    let items = vec![field("u", "Mail", "password", "p")];
    let mut tags = Tags::new();
    tags.push("u".to_string(), "Work".to_string());
    tags.push("u".to_string(), "Prod".to_string());
    for key in ["tag", "tags", "Folder"] {
        assert!(resolve(&items, "Mail", &filter_of(key, &["work", "PROD"]), &tags).is_ok());
        assert!(resolve(&items, "Mail", &filter_of(key, &["work", "dev"]), &tags).is_err());
        assert!(resolve(&items, "Mail", &filter_of(key, &[]), &tags).is_ok());
    }
    assert!(resolve(&items, "Mail", &filter_of("category", &["note", "login"]), &tags).is_ok());
    assert!(resolve(&items, "Mail", &filter_of("category", &[]), &tags).is_err());
    assert!(resolve(&items, "Mail", &filter_of("Password", &["x", "P"]), &tags).is_ok());
    assert!(resolve(&items, "Mail", &filter_of("password", &["x"]), &tags).is_err());
}

#[test]
fn flags_agree_with_the_item() {
    let mut item = field("u", "Mail", "password", "p");
    item.archived = true;
    let items = vec![item];
    let tags = Tags::new();
    for yes in ["true", "1", "Yes"] {
        assert!(resolve(&items, "Mail", &filter_of("archived", &[yes]), &tags).is_ok());
        assert!(resolve(&items, "Mail", &filter_of("favorite", &[yes]), &tags).is_err());
        assert!(resolve(&items, "Mail", &filter_of("FAV", &[yes]), &tags).is_err());
    }
    assert!(resolve(&items, "Mail", &filter_of("fav", &["no"]), &tags).is_ok());
    assert!(resolve(&items, "Mail", &filter_of("archived", &["no"]), &tags).is_err());
}

#[test]
fn one_criterion_at_a_time() {
    let item = field("u", "Mail", "password", "p");
    let items = [&item];
    let tags = Tags::new();
    assert!(meets_criterion("category", &vec!["Login"], "u", &items, &tags));
    assert!(!meets_criterion("category", &vec!["Login"], "other", &items, &tags));
    assert!(meets_criterion("category", &vec![""], "other", &items, &tags));
    let kept = EnpassProvider::apply_filter(
        &["x", "u", "y"],
        &filter_of("category", &["login"]),
        &items,
        &tags,
    );
    assert_eq!(kept.unwrap(), vec!["u"]);
    let all = EnpassProvider::apply_filter(&["x", "u"], &SecretFilter::new(), &items, &tags);
    assert_eq!(all.unwrap(), vec!["x", "u"]);
}

#[test]
fn filter_values_come_in_order() {
    assert_eq!(FilterValue::Single("a".to_string()).values(), vec!["a"]);
    let many = FilterValue::Multiple(vec!["b".to_string(), "a".to_string()]);
    assert_eq!(many.values(), vec!["b", "a"]);
}

#[test]
fn label_picks_the_first_field_that_bears_it() {
    let items = vec![
        field("u", "Mail", "username", "n"),
        field("u", "Mail", "Password", "first"),
        field("u", "Mail", "password", "second"),
    ];
    for value in ["Mail/password", "MAIL/PASSWORD", "mail/Password"] {
        let r = EnpassProvider::resolve_from_items_filtered(&items, value, None, &Tags::new());
        assert_eq!(r.unwrap(), "first");
    }
}

#[test]
fn bare_title_stands_for_the_first_sensitive_field() {
    let mut short = field("u", "Mail", "pin", "00");
    short.sensitive = true;
    let mut empty = field("u", "Mail", "password", "");
    empty.sensitive = true;
    let items = vec![field("u", "Mail", "username", "n"), empty, short];
    let r = EnpassProvider::resolve_from_items_filtered(&items, "Mail", None, &Tags::new());
    assert_eq!(r.unwrap(), "");
    let items: Vec<EnpassItem> = items.into_iter().rev().collect();
    let r = EnpassProvider::resolve_from_items_filtered(&items, "Mail", None, &Tags::new());
    assert!(r.is_err());
}
