use aes_gcm::aead::{Aead, Payload};
use aes_gcm::{Aes256Gcm, KeyInit, Nonce};
use enpass::item::{field_content, opened_field, FieldContent};
use enpass::{EnpassItem, EnpassProvider, FilterValue, FnoxError, SecretFilter, Tags};

const UUID: &str = "0123abcd-4567-89ef-0011-223344556677";
const UUID_BYTES: [u8; 16] = [
    0x01, 0x23, 0xab, 0xcd, 0x45, 0x67, 0x89, 0xef, 0x00, 0x11, 0x22, 0x33, 0x44, 0x55, 0x66, 0x77,
];

fn item_key() -> Vec<u8> {
    (0..44u8).collect()
}

fn sealed(uuid: &str, value: String, item_key: Vec<u8>) -> EnpassItem {
    EnpassItem {
        uuid: uuid.to_string(),
        title: "Mail".to_string(),
        label: "password".to_string(),
        value,
        item_key,
        sensitive: true,
        trashed: 0,
        deleted: 0,
        category: String::new(),
        favorite: false,
        archived: false,
    }
}

fn seal(plaintext: &[u8]) -> String {
    let key = item_key();
    let cipher = Aes256Gcm::new_from_slice(&key[..32]).unwrap();
    let payload = Payload { msg: plaintext, aad: &UUID_BYTES };
    hex::encode(cipher.encrypt(Nonce::from_slice(&key[32..44]), payload).unwrap())
}

fn api_details(r: Result<String, FnoxError>) -> (String, String) {
    match r.unwrap_err() {
        FnoxError::ProviderApiError { details, hint, .. } => (details, hint),
        _ => panic!("another error"),
    }
}

#[test]
fn sealed_field_reads_back() {
    let text = "s3cret \u{20ac}";
    let value = seal(text.as_bytes());
    let item = sealed(UUID, value.clone(), item_key());
    assert_eq!(EnpassProvider::decrypt_field(&item).unwrap(), text);
    // Dashes and case of the digits do not matter, nor do further key bytes.
    let mut longer = item_key();
    longer.push(9);
    let item = sealed(&UUID.replace('-', "").to_uppercase(), value.to_uppercase(), longer);
    assert_eq!(EnpassProvider::decrypt_field(&item).unwrap(), text);
}

#[test]
fn known_ciphertext_opens() {
    let value = "cea7403d4d606b6e074ec5d3baf39d18d0d1c8a799996bf0265b98b5d48ab919";
    let item = sealed("", value.to_string(), vec![0; 44]);
    assert_eq!(EnpassProvider::decrypt_field(&item).unwrap(), "\0".repeat(16));
}

#[test]
fn plain_fields_read_as_they_stand() {
    let mut item = sealed("?", "not hex".to_string(), vec![]);
    item.sensitive = false;
    assert_eq!(EnpassProvider::decrypt_field(&item).unwrap(), "not hex");
    let empty = sealed("?", String::new(), vec![]);
    assert_eq!(EnpassProvider::decrypt_field(&empty).unwrap(), "");
}

#[test]
fn short_item_key_is_an_error() {
    let item = sealed(UUID, "00".to_string(), vec![0; 43]);
    let (details, hint) = api_details(EnpassProvider::decrypt_field(&item));
    assert_eq!(details, "Invalid item key length (43 bytes, expected 44) for 'Mail'");
    assert_eq!(hint, "The item may have been deleted or is corrupted");
}

#[test]
fn value_that_is_not_hexadecimal_is_an_error() {
    let item = sealed(UUID, "abc".to_string(), item_key());
    let (details, hint) = api_details(EnpassProvider::decrypt_field(&item));
    assert_eq!(details, "Failed to decode encrypted value for 'Mail': Odd number of digits");
    assert_eq!(hint, "The encrypted value is corrupted");
    let item = sealed(UUID, "0z0\n".to_string(), item_key());
    let (details, _) = api_details(EnpassProvider::decrypt_field(&item));
    assert_eq!(
        details,
        "Failed to decode encrypted value for 'Mail': Invalid character 'z' at position 1"
    );
    // Two bytes in UTF-8, of which the first is reported.
    let item = sealed(UUID, "00\u{e9}".to_string(), item_key());
    let (details, _) = api_details(EnpassProvider::decrypt_field(&item));
    assert_eq!(
        details,
        "Failed to decode encrypted value for 'Mail': Invalid character '\u{c3}' at position 2"
    );
}

#[test]
fn uuid_that_is_not_hexadecimal_is_an_error() {
    let item = sealed("uuid", "00".to_string(), item_key());
    let (details, hint) = api_details(EnpassProvider::decrypt_field(&item));
    assert_eq!(
        details,
        "Failed to decode UUID for 'Mail': Invalid character 'u' at position 0"
    );
    assert_eq!(hint, "The item UUID is malformed");
}

#[test]
fn field_that_does_not_open_is_an_error() {
    let other = "ffffffff-4567-89ef-0011-223344556677";
    for item in [
        sealed(other, seal(b"text"), item_key()),
        sealed(UUID, seal(b"text"), vec![7; 44]),
        sealed(UUID, "0011".to_string(), item_key()),
    ] {
        let (details, hint) = api_details(EnpassProvider::decrypt_field(&item));
        assert_eq!(details, "Failed to decrypt field for 'Mail': aead::Error");
        assert_eq!(hint, "The item data may be corrupted");
    }
}

#[test]
fn plaintext_that_is_not_utf8_is_an_error() {
    let bytes = [0x61, 0xff, 0x62];
    let expected = String::from_utf8(bytes.to_vec()).unwrap_err().to_string();
    let item = sealed(UUID, seal(&bytes), item_key());
    let (details, hint) = api_details(EnpassProvider::decrypt_field(&item));
    assert_eq!(
        details,
        format!("Decrypted value is not valid UTF-8 for 'Mail': {expected}")
    );
    assert_eq!(hint, "The decrypted value contains non-UTF-8 bytes");
}

#[test]
fn sealed_content_is_taken_apart() {
    let item = sealed(UUID, "0aFf".to_string(), item_key());
    match field_content(&item).unwrap() {
        FieldContent::Sealed { key, nonce, ciphertext, associated } => {
            assert_eq!(key, (0..32u8).collect::<Vec<u8>>());
            assert_eq!(nonce, (32..44u8).collect::<Vec<u8>>());
            assert_eq!(ciphertext, vec![0x0a, 0xff]);
            assert_eq!(associated, UUID_BYTES.to_vec());
        }
        FieldContent::Plain(_) => panic!("sealed"),
    }
}

#[test]
fn opened_content_becomes_text() {
    assert_eq!(opened_field("T", Ok(b"abc".to_vec())).unwrap(), "abc");
    let (details, _) = api_details(opened_field("T", Err("why".to_string())));
    assert_eq!(details, "Failed to decrypt field for 'T': why");
}

#[test]
fn filter_reads_sealed_fields() {
    let secret = sealed(UUID, seal(b"Token"), item_key());
    let mut broken = sealed(UUID, "0011".to_string(), item_key());
    broken.label = "pin".to_string();
    let items = vec![secret, broken];
    let ask = |label: &str, value: &str| {
        let mut filter = SecretFilter::new();
        filter.insert(label.to_string(), FilterValue::Single(value.to_string()));
        EnpassProvider::resolve_from_items_filtered(
            &items,
            "Mail/password",
            Some(&filter),
            &Tags::new(),
        )
    };
    assert_eq!(ask("Password", "tOKEN").unwrap(), "Token");
    assert!(ask("Password", "other").is_err());
    assert!(ask("pin", "0011").is_err());
}

#[test]
fn title_and_further_key_bytes_do_not_matter_to_the_text() {
    let mut item = sealed(UUID, seal(b"s3cret"), item_key());
    let text = EnpassProvider::decrypt_field(&item).unwrap();
    item.title = "Another".to_string();
    item.label = "pin".to_string();
    item.category = "note".to_string();
    item.trashed = 1;
    item.favorite = !item.favorite;
    item.item_key.extend_from_slice(&[7, 8, 9]);
    assert_eq!(EnpassProvider::decrypt_field(&item).unwrap(), text);
    item.item_key[43] ^= 1;
    assert!(EnpassProvider::decrypt_field(&item).is_err());
}
