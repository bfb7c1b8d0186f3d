use enpass::{EnpassItem, EnpassProvider, FilterValue, SecretFilter, Tags};

fn make_item(
    uuid: &str,
    title: &str,
    label: &str,
    value: &str,
    sensitive: bool,
    category: &str,
    favorite: bool,
    archived: bool,
) -> EnpassItem {
    EnpassItem {
        uuid: uuid.to_string(),
        title: title.to_string(),
        label: label.to_string(),
        value: value.to_string(),
        item_key: if sensitive { vec![0u8; 44] } else { vec![] },
        sensitive,
        trashed: 0,
        deleted: 0,
        category: category.to_string(),
        favorite,
        archived,
    }
}

#[test]
fn test_resolve_from_items_basic() {
    let items = vec![
        make_item(
            "uuid1",
            "My Login",
            "password",
            "secret123",
            false,
            "login",
            false,
            false,
        ),
        make_item(
            "uuid1", "My Login", "username", "admin", false, "login", false, false,
        ),
    ];

    let result = EnpassProvider::resolve_from_items_filtered(
        &items,
        "My Login/password",
        None,
        &Tags::new(),
    );
    assert_eq!(result.unwrap(), "secret123");

    let result = EnpassProvider::resolve_from_items_filtered(
        &items,
        "My Login/username",
        None,
        &Tags::new(),
    );
    assert_eq!(result.unwrap(), "admin");

    // Title-only returns first sensitive field
    let result =
        EnpassProvider::resolve_from_items_filtered(&items, "My Login", None, &Tags::new());
    assert_eq!(result.unwrap(), "secret123");
}

#[test]
fn test_resolve_from_items_filtered_by_tag() {
    let items = vec![
        make_item(
            "uuid-dev", "Database", "password", "dev-pass", false, "login", false, false,
        ),
        make_item(
            "uuid-prod",
            "Database",
            "password",
            "prod-pass",
            false,
            "login",
            false,
            false,
        ),
    ];

    let mut tags: Tags = Tags::new();
    tags.insert("uuid-dev".to_string(), vec!["DEV".to_string()]);
    tags.insert("uuid-prod".to_string(), vec!["PROD".to_string()]);

    // Filter by tag=DEV → gets dev-pass
    let mut filter = SecretFilter::new();
    filter.insert("tag".to_string(), FilterValue::Single("DEV".to_string()));
    let result = EnpassProvider::resolve_from_items_filtered(
        &items,
        "Database/password",
        Some(&filter),
        &tags,
    );
    assert_eq!(result.unwrap(), "dev-pass");

    // Filter by tag=PROD → gets prod-pass
    let mut filter = SecretFilter::new();
    filter.insert("tag".to_string(), FilterValue::Single("PROD".to_string()));
    let result = EnpassProvider::resolve_from_items_filtered(
        &items,
        "Database/password",
        Some(&filter),
        &tags,
    );
    assert_eq!(result.unwrap(), "prod-pass");
}

#[test]
fn test_resolve_from_items_ambiguity_error() {
    let items = vec![
        make_item(
            "uuid-a", "Database", "password", "pass-a", false, "login", false, false,
        ),
        make_item(
            "uuid-b", "Database", "password", "pass-b", false, "login", false, false,
        ),
    ];

    let tags: Tags = Tags::new();

    // Without filter, first match wins (backward compat)
    let result =
        EnpassProvider::resolve_from_items_filtered(&items, "Database/password", None, &tags);
    assert!(result.is_ok());

    // With filter but still ambiguous → error
    let mut filter = SecretFilter::new();
    filter.insert(
        "category".to_string(),
        FilterValue::Single("login".to_string()),
    );
    let result = EnpassProvider::resolve_from_items_filtered(
        &items,
        "Database/password",
        Some(&filter),
        &tags,
    );
    assert!(result.is_err());
    let err = result.unwrap_err().message();
    assert!(err.contains("Multiple items named"), "Error: {}", err);
}

#[test]
fn test_resolve_from_items_filter_by_category() {
    let items = vec![
        make_item(
            "uuid-login",
            "MyApp",
            "password",
            "login-pass",
            false,
            "login",
            false,
            false,
        ),
        make_item(
            "uuid-note",
            "MyApp",
            "password",
            "note-pass",
            false,
            "note",
            false,
            false,
        ),
    ];

    let tags: Tags = Tags::new();
    let mut filter = SecretFilter::new();
    filter.insert(
        "category".to_string(),
        FilterValue::Single("note".to_string()),
    );
    let result = EnpassProvider::resolve_from_items_filtered(
        &items,
        "MyApp/password",
        Some(&filter),
        &tags,
    );
    assert_eq!(result.unwrap(), "note-pass");
}

#[test]
fn test_resolve_from_items_filter_by_favorite() {
    let items = vec![
        make_item(
            "uuid-fav", "Secret", "password", "fav-pass", false, "login", true, false,
        ),
        make_item(
            "uuid-nofav",
            "Secret",
            "password",
            "nofav-pass",
            false,
            "login",
            false,
            false,
        ),
    ];

    let tags: Tags = Tags::new();
    let mut filter = SecretFilter::new();
    filter.insert(
        "favorite".to_string(),
        FilterValue::Single("true".to_string()),
    );
    let result = EnpassProvider::resolve_from_items_filtered(
        &items,
        "Secret/password",
        Some(&filter),
        &tags,
    );
    assert_eq!(result.unwrap(), "fav-pass");
}

#[test]
fn test_resolve_from_items_multi_tag_filter() {
    let items = vec![
        make_item(
            "uuid-both",
            "API",
            "password",
            "both-pass",
            false,
            "login",
            false,
            false,
        ),
        make_item(
            "uuid-one", "API", "password", "one-pass", false, "login", false, false,
        ),
    ];

    let mut tags: Tags = Tags::new();
    tags.insert(
        "uuid-both".to_string(),
        vec!["backend".to_string(), "prod".to_string()],
    );
    tags.insert("uuid-one".to_string(), vec!["backend".to_string()]);

    // Multi-tag filter: must have BOTH tags
    let mut filter = SecretFilter::new();
    filter.insert(
        "tag".to_string(),
        FilterValue::Multiple(vec!["backend".to_string(), "prod".to_string()]),
    );
    let result = EnpassProvider::resolve_from_items_filtered(
        &items,
        "API/password",
        Some(&filter),
        &tags,
    );
    assert_eq!(result.unwrap(), "both-pass");
}

#[test]
fn test_resolve_from_items_filter_by_field() {
    let items = vec![
        make_item(
            "uuid-admin",
            "Database",
            "username",
            "admin",
            false,
            "login",
            false,
            false,
        ),
        make_item(
            "uuid-admin",
            "Database",
            "password",
            "admin-pass",
            false,
            "login",
            false,
            false,
        ),
        make_item(
            "uuid-ro", "Database", "username", "readonly", false, "login", false, false,
        ),
        make_item(
            "uuid-ro", "Database", "password", "ro-pass", false, "login", false, false,
        ),
    ];

    let tags: Tags = Tags::new();

    // Filter by Username=admin → gets admin-pass
    let mut filter = SecretFilter::new();
    filter.insert(
        "Username".to_string(),
        FilterValue::Single("admin".to_string()),
    );
    let result = EnpassProvider::resolve_from_items_filtered(
        &items,
        "Database/password",
        Some(&filter),
        &tags,
    );
    assert_eq!(result.unwrap(), "admin-pass");

    // Filter by Username=readonly → gets ro-pass
    let mut filter = SecretFilter::new();
    filter.insert(
        "Username".to_string(),
        FilterValue::Single("readonly".to_string()),
    );
    let result = EnpassProvider::resolve_from_items_filtered(
        &items,
        "Database/password",
        Some(&filter),
        &tags,
    );
    assert_eq!(result.unwrap(), "ro-pass");
}

#[test]
fn test_resolve_from_items_filter_by_field_case_insensitive() {
    let items = vec![
        make_item(
            "uuid-a",
            "Server",
            "URL",
            "https://prod.example.com",
            false,
            "login",
            false,
            false,
        ),
        make_item(
            "uuid-a",
            "Server",
            "password",
            "prod-pass",
            false,
            "login",
            false,
            false,
        ),
        make_item(
            "uuid-b",
            "Server",
            "URL",
            "https://dev.example.com",
            false,
            "login",
            false,
            false,
        ),
        make_item(
            "uuid-b", "Server", "password", "dev-pass", false, "login", false, false,
        ),
    ];

    let tags: Tags = Tags::new();

    // Case-insensitive key match
    let mut filter = SecretFilter::new();
    filter.insert(
        "url".to_string(),
        FilterValue::Single("https://prod.example.com".to_string()),
    );
    let result = EnpassProvider::resolve_from_items_filtered(
        &items,
        "Server/password",
        Some(&filter),
        &tags,
    );
    assert_eq!(result.unwrap(), "prod-pass");
}

#[test]
fn test_resolve_from_items_filter_by_field_no_match() {
    let items = vec![
        make_item(
            "uuid-a", "App", "username", "alice", false, "login", false, false,
        ),
        make_item(
            "uuid-a",
            "App",
            "password",
            "alice-pass",
            false,
            "login",
            false,
            false,
        ),
    ];

    let tags: Tags = Tags::new();

    // Filter by a field value that doesn't exist
    let mut filter = SecretFilter::new();
    filter.insert(
        "username".to_string(),
        FilterValue::Single("bob".to_string()),
    );
    let result = EnpassProvider::resolve_from_items_filtered(
        &items,
        "App/password",
        Some(&filter),
        &tags,
    );
    assert!(result.is_err());
    let err = result.unwrap_err().message();
    assert!(
        err.contains("not found") || err.contains("No items named"),
        "Error: {}",
        err
    );
}

#[test]
fn test_resolve_from_items_filter_by_field_combined_with_tag() {
    let items = vec![
        make_item(
            "uuid-dev-admin",
            "DB",
            "username",
            "admin",
            false,
            "login",
            false,
            false,
        ),
        make_item(
            "uuid-dev-admin",
            "DB",
            "password",
            "dev-admin-pass",
            false,
            "login",
            false,
            false,
        ),
        make_item(
            "uuid-prod-admin",
            "DB",
            "username",
            "admin",
            false,
            "login",
            false,
            false,
        ),
        make_item(
            "uuid-prod-admin",
            "DB",
            "password",
            "prod-admin-pass",
            false,
            "login",
            false,
            false,
        ),
        make_item(
            "uuid-prod-ro",
            "DB",
            "username",
            "readonly",
            false,
            "login",
            false,
            false,
        ),
        make_item(
            "uuid-prod-ro",
            "DB",
            "password",
            "prod-ro-pass",
            false,
            "login",
            false,
            false,
        ),
    ];

    let mut tags: Tags = Tags::new();
    tags.insert("uuid-dev-admin".to_string(), vec!["DEV".to_string()]);
    tags.insert("uuid-prod-admin".to_string(), vec!["PROD".to_string()]);
    tags.insert("uuid-prod-ro".to_string(), vec!["PROD".to_string()]);

    // Filter by tag=PROD AND username=admin → gets prod-admin-pass
    let mut filter = SecretFilter::new();
    filter.insert("tag".to_string(), FilterValue::Single("PROD".to_string()));
    filter.insert(
        "username".to_string(),
        FilterValue::Single("admin".to_string()),
    );
    let result = EnpassProvider::resolve_from_items_filtered(
        &items,
        "DB/password",
        Some(&filter),
        &tags,
    );
    assert_eq!(result.unwrap(), "prod-admin-pass");
}
