//! Fields of vault items, and how the value of a field is read.
use vstd::prelude::*;

use crate::crypto::{aes256_gcm_decrypt, string_from_utf8};
use crate::error::{api_error, ErrorView, FnoxError};
use crate::hexcode::{hex_decode, hex_error_text};
use crate::provider::EnpassProvider;
use crate::text::{decimal_text, without_char};

verus! {

/// One field of a vault item, with what its item has in common with the other
/// fields of that item.
#[derive(Debug)]
pub struct EnpassItem {
    pub uuid: String,
    pub title: String,
    pub label: String,
    pub value: String,
    pub item_key: Vec<u8>,
    pub sensitive: bool,
    pub trashed: i64,
    pub deleted: i64,
    pub category: String,
    pub favorite: bool,
    pub archived: bool,
}

/// A field as plain values.
#[verifier::ext_equal]
pub struct ItemView {
    pub uuid: Seq<char>,
    pub title: Seq<char>,
    pub label: Seq<char>,
    pub value: Seq<char>,
    pub item_key: Seq<u8>,
    pub sensitive: bool,
    pub trashed: i64,
    pub deleted: i64,
    pub category: Seq<char>,
    pub favorite: bool,
    pub archived: bool,
}

impl View for EnpassItem {
    type V = ItemView;

    open spec fn view(&self) -> ItemView {
        ItemView {
            uuid: self.uuid@,
            title: self.title@,
            label: self.label@,
            value: self.value@,
            item_key: self.item_key@,
            sensitive: self.sensitive,
            trashed: self.trashed,
            deleted: self.deleted,
            category: self.category@,
            favorite: self.favorite,
            archived: self.archived,
        }
    }
}

/// Fields as plain values.
pub open spec fn items_view(s: Seq<EnpassItem>) -> Seq<ItemView> {
    s.map_values(|i: EnpassItem| i@)
}

/// Borrowed fields as plain values.
pub open spec fn item_refs_view(s: Seq<&EnpassItem>) -> Seq<ItemView> {
    s.map_values(|i: &EnpassItem| i@)
}

// ---------------------------------------------------------------------------
// Reading the value of a field
// ---------------------------------------------------------------------------

/// The bytes of an item key: 32 of AES key, then 12 of GCM nonce.
pub const ITEM_KEY_LENGTH: usize = 44;

/// The bytes of the AES key in an item key.
pub const AES_KEY_LENGTH: usize = 32;

/// What the value of a field consists of.
pub enum FieldContent {
    /// A text as it stands.
    Plain(String),
    /// A text sealed with AES-256-GCM.
    Sealed { key: Vec<u8>, nonce: Vec<u8>, ciphertext: Vec<u8>, associated: Vec<u8> },
}

/// The content of a field as plain values.
#[verifier::ext_equal]
pub enum ContentView {
    Plain(Seq<char>),
    Sealed { key: Seq<u8>, nonce: Seq<u8>, ciphertext: Seq<u8>, associated: Seq<u8> },
}

impl View for FieldContent {
    type V = ContentView;

    open spec fn view(&self) -> ContentView {
        match self {
            FieldContent::Plain(s) => ContentView::Plain(s@),
            FieldContent::Sealed { key, nonce, ciphertext, associated } => ContentView::Sealed {
                key: key@,
                nonce: nonce@,
                ciphertext: ciphertext@,
                associated: associated@,
            },
        }
    }
}

/// The outcome of taking a field apart, as plain values.
pub open spec fn content_outcome(r: Result<FieldContent, FnoxError>) -> Result<
    ContentView,
    ErrorView,
> {
    match r {
        Ok(c) => Ok(c@),
        Err(e) => Err(e@),
    }
}

/// What the value of a field consists of. An empty value and a value that is
/// not sensitive are texts as they stand. A sensitive value is hexadecimal
/// ciphertext; its key and nonce stand in the item key, and the bytes of the
/// item's UUID are authenticated with it.
pub open spec fn content_of(item: ItemView) -> Result<ContentView, ErrorView> {
    if item.value.len() == 0 || !item.sensitive {
        Ok(ContentView::Plain(item.value))
    } else if item.item_key.len() < ITEM_KEY_LENGTH {
        Err(
            crate::error::api_failure(
                "Invalid item key length ("@ + crate::text::decimal(item.item_key.len())
                    + " bytes, expected 44) for '"@ + item.title + "'"@,
                "The item may have been deleted or is corrupted"@,
            ),
        )
    } else {
        match crate::hexcode::decoded_text(item.value) {
            Err(e) => Err(
                crate::error::api_failure(
                    "Failed to decode encrypted value for '"@ + item.title + "': "@
                        + crate::hexcode::hex_error_message(e),
                    "The encrypted value is corrupted"@,
                ),
            ),
            Ok(ciphertext) => match crate::hexcode::decoded_text(
                item.uuid.filter(|c: char| c != '-'),
            ) {
                Err(e) => Err(
                    crate::error::api_failure(
                        "Failed to decode UUID for '"@ + item.title + "': "@
                            + crate::hexcode::hex_error_message(e),
                        "The item UUID is malformed"@,
                    ),
                ),
                Ok(associated) => Ok(
                    ContentView::Sealed {
                        key: item.item_key.subrange(0, AES_KEY_LENGTH as int),
                        nonce: item.item_key.subrange(
                            AES_KEY_LENGTH as int,
                            ITEM_KEY_LENGTH as int,
                        ),
                        ciphertext,
                        associated,
                    },
                ),
            },
        }
    }
}

/// The text of a field of the item `title`, given what decryption returned:
/// the plaintext must be UTF-8.
pub open spec fn opened_text(title: Seq<char>, opened: Result<Seq<u8>, Seq<char>>) -> Result<
    Seq<char>,
    ErrorView,
> {
    match opened {
        Err(e) => Err(
            crate::error::api_failure(
                "Failed to decrypt field for '"@ + title + "': "@ + e,
                "The item data may be corrupted"@,
            ),
        ),
        Ok(plaintext) => if vstd::utf8::valid_utf8(plaintext) {
            Ok(vstd::utf8::decode_utf8(plaintext))
        } else {
            Err(
                crate::error::api_failure(
                    "Decrypted value is not valid UTF-8 for '"@ + title + "': "@
                        + crate::crypto::utf8_error_text(plaintext),
                    "The decrypted value contains non-UTF-8 bytes"@,
                ),
            )
        },
    }
}

/// The text of a field.
pub open spec fn field_text(item: ItemView) -> Result<Seq<char>, ErrorView> {
    match content_of(item) {
        Err(e) => Err(e),
        Ok(ContentView::Plain(s)) => Ok(s),
        Ok(ContentView::Sealed { key, nonce, ciphertext, associated }) => opened_text(
            item.title,
            match crate::crypto::aes256_gcm_opened(key, nonce, ciphertext, associated) {
                Some(plaintext) => Ok(plaintext),
                None => Err("aead::Error"@),
            },
        ),
    }
}

/// What decryption returned, as plain values.
pub open spec fn opened_view(r: Result<Vec<u8>, String>) -> Result<Seq<u8>, Seq<char>> {
    match r {
        Ok(v) => Ok(v@),
        Err(e) => Err(e@),
    }
}

/// Takes the value of a field apart, up to the point where a sealed value has
/// to be decrypted.
pub fn field_content(item: &EnpassItem) -> (r: Result<FieldContent, FnoxError>)
    ensures
        content_outcome(r) == content_of(item@),
{
    if item.value.as_str().is_empty() {
        assert(item.value@ =~= Seq::empty());
        return Ok(FieldContent::Plain(String::new()));
    }
    if !item.sensitive {
        return Ok(FieldContent::Plain(item.value.clone()));
    }
    if item.item_key.len() < ITEM_KEY_LENGTH {
        let details = "Invalid item key length (".to_owned().concat(
            decimal_text(item.item_key.len()).as_str(),
        ).concat(" bytes, expected 44) for '").concat(item.title.as_str()).concat("'");
        return Err(api_error(details, "The item may have been deleted or is corrupted"));
    }
    let key = vstd::slice::slice_subrange(item.item_key.as_slice(), 0, AES_KEY_LENGTH);
    let nonce = vstd::slice::slice_subrange(
        item.item_key.as_slice(),
        AES_KEY_LENGTH,
        ITEM_KEY_LENGTH,
    );
    let ciphertext = match hex_decode(item.value.as_str()) {
        Ok(v) => v,
        Err(e) => {
            let details = "Failed to decode encrypted value for '".to_owned().concat(
                item.title.as_str(),
            ).concat("': ").concat(hex_error_text(e).as_str());
            return Err(api_error(details, "The encrypted value is corrupted"));
        },
    };
    let bare_uuid = without_char(item.uuid.as_str(), '-');
    let associated = match hex_decode(bare_uuid.as_str()) {
        Ok(v) => v,
        Err(e) => {
            let details = "Failed to decode UUID for '".to_owned().concat(
                item.title.as_str(),
            ).concat("': ").concat(hex_error_text(e).as_str());
            return Err(api_error(details, "The item UUID is malformed"));
        },
    };
    Ok(
        FieldContent::Sealed {
            key: vstd::slice::slice_to_vec(key),
            nonce: vstd::slice::slice_to_vec(nonce),
            ciphertext,
            associated,
        },
    )
}

/// Turns what decryption returned into the text of a field of the item `title`.
pub fn opened_field(title: &str, opened: Result<Vec<u8>, String>) -> (r: Result<String, FnoxError>)
    ensures
        crate::error::text_outcome(r) == opened_text(title@, opened_view(opened)),
{
    match opened {
        Err(e) => {
            let details = "Failed to decrypt field for '".to_owned().concat(title).concat(
                "': ",
            ).concat(e.as_str());
            Err(api_error(details, "The item data may be corrupted"))
        },
        Ok(plaintext) => match string_from_utf8(plaintext) {
            Ok(s) => Ok(s),
            Err(e) => {
                let details = "Decrypted value is not valid UTF-8 for '".to_owned().concat(
                    title,
                ).concat("': ").concat(e.as_str());
                Err(api_error(details, "The decrypted value contains non-UTF-8 bytes"))
            },
        },
    }
}

impl EnpassProvider {
    /// Reads the text of a field, decrypting it where it is sealed.
    pub fn decrypt_field(item: &EnpassItem) -> (r: Result<String, FnoxError>)
        ensures
            crate::error::text_outcome(r) == field_text(item@),
    {
        match field_content(item) {
            Err(e) => Err(e),
            Ok(FieldContent::Plain(s)) => Ok(s),
            Ok(FieldContent::Sealed { key, nonce, ciphertext, associated }) => {
                let opened = aes256_gcm_decrypt(
                    key.as_slice(),
                    nonce.as_slice(),
                    ciphertext.as_slice(),
                    associated.as_slice(),
                );
                opened_field(item.title.as_str(), opened)
            },
        }
    }
}

} // verus!
