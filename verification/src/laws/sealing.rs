//! Sealed fields: what is taken from the columns, and each error.
use vstd::prelude::*;

use crate::error::ErrorView;
use crate::hexcode::HexError;
use crate::item::{ContentView, ItemView};

verus! {

/// A value that is empty or not sensitive is a text as it stands.
pub proof fn plain_value_is_taken_as_it_stands(item: ItemView)
    requires
        item.value.len() == 0 || !item.sensitive,
    ensures
        crate::item::content_of(item) == Ok::<ContentView, ErrorView>(
            ContentView::Plain(item.value),
        ),
{
}

/// A sensitive value is ciphertext in hexadecimal digits. The first 32 bytes of the
/// item key are the key, the next 12 the nonce, and the digits of the UUID are
/// authenticated.
pub proof fn sensitive_value_is_taken_apart(
    item: ItemView,
    ciphertext: Seq<u8>,
    associated: Seq<u8>,
)
    requires
        item.sensitive,
        item.value.len() > 0,
        item.item_key.len() >= 44,
        crate::hexcode::decoded(vstd::utf8::encode_utf8(item.value)) == Ok::<Seq<u8>, HexError>(
            ciphertext,
        ),
        crate::hexcode::decoded(
            vstd::utf8::encode_utf8(item.uuid.filter(|c: char| c != '-')),
        ) == Ok::<Seq<u8>, HexError>(associated),
    ensures
        crate::item::content_of(item) == Ok::<ContentView, ErrorView>(
            ContentView::Sealed {
                key: item.item_key.subrange(0, 32),
                nonce: item.item_key.subrange(32, 44),
                ciphertext,
                associated,
            },
        ),
{
}

/// Of a sensitive value, a short item key is refused first, then a value that is
/// not hexadecimal, then a UUID that is not.
pub proof fn malformed_field_is_refused(item: ItemView)
    requires
        item.sensitive,
        item.value.len() > 0,
    ensures
        ({
            let value = crate::hexcode::decoded(vstd::utf8::encode_utf8(item.value));
            let uuid = crate::hexcode::decoded(
                vstd::utf8::encode_utf8(item.uuid.filter(|c: char| c != '-')),
            );
            let outcome = crate::item::content_of(item);
            &&& item.item_key.len() < 44 ==> outcome == Err::<ContentView, ErrorView>(
                crate::laws::plain::api_error(
                    "Invalid item key length ("@ + crate::text::decimal(item.item_key.len())
                        + " bytes, expected 44) for '"@ + item.title + "'"@,
                    "The item may have been deleted or is corrupted"@,
                ),
            )
            &&& item.item_key.len() >= 44 && value is Err ==> outcome == Err::<
                ContentView,
                ErrorView,
            >(
                crate::laws::plain::api_error(
                    "Failed to decode encrypted value for '"@ + item.title + "': "@
                        + crate::hexcode::hex_error_message(value->Err_0),
                    "The encrypted value is corrupted"@,
                ),
            )
            &&& item.item_key.len() >= 44 && value is Ok && uuid is Err ==> outcome == Err::<
                ContentView,
                ErrorView,
            >(
                crate::laws::plain::api_error(
                    "Failed to decode UUID for '"@ + item.title + "': "@
                        + crate::hexcode::hex_error_message(uuid->Err_0),
                    "The item UUID is malformed"@,
                ),
            )
            &&& outcome is Ok ==> item.item_key.len() >= 44 && value is Ok && uuid is Ok
        }),
{
}

/// What decryption gave becomes the text that its bytes encode; bytes that are not
/// UTF-8 and a failure are reported for the item.
pub proof fn plaintext_becomes_text(title: Seq<char>, text: Seq<char>, bytes: Seq<u8>, e: Seq<char>)
    ensures
        crate::item::opened_text(title, Ok(vstd::utf8::encode_utf8(text))) == Ok::<
            Seq<char>,
            ErrorView,
        >(text),
        !vstd::utf8::valid_utf8(bytes) ==> crate::item::opened_text(title, Ok(bytes)) == Err::<
            Seq<char>,
            ErrorView,
        >(
            crate::laws::plain::api_error(
                "Decrypted value is not valid UTF-8 for '"@ + title + "': "@
                    + crate::crypto::utf8_error_text(bytes),
                "The decrypted value contains non-UTF-8 bytes"@,
            ),
        ),
        vstd::utf8::valid_utf8(bytes) ==> crate::item::opened_text(title, Ok(bytes)) == Ok::<
            Seq<char>,
            ErrorView,
        >(vstd::utf8::decode_utf8(bytes)),
        crate::item::opened_text(title, Err(e)) == Err::<Seq<char>, ErrorView>(
            crate::laws::plain::api_error(
                "Failed to decrypt field for '"@ + title + "': "@ + e,
                "The item data may be corrupted"@,
            ),
        ),
{
    vstd::utf8::encode_utf8_valid_utf8(text);
    vstd::utf8::encode_utf8_decode_utf8(text);
}

/// The text of a field is a plain value, or what AES-256-GCM opens of a sealed one
/// under the item's own key, nonce and UUID.
pub proof fn field_text_is_plain_or_opened(item: ItemView)
    ensures
        item.value.len() == 0 || !item.sensitive ==> crate::item::field_text(item) == Ok::<
            Seq<char>,
            ErrorView,
        >(item.value),
        item.value.len() > 0 && item.sensitive ==> {
            let value = crate::hexcode::decoded(vstd::utf8::encode_utf8(item.value));
            let uuid = crate::hexcode::decoded(
                vstd::utf8::encode_utf8(item.uuid.filter(|c: char| c != '-')),
            );
            let well_formed = item.item_key.len() >= 44 && value is Ok && uuid is Ok;
            let opened = crate::crypto::aes256_gcm_opened(
                item.item_key.subrange(0, 32),
                item.item_key.subrange(32, 44),
                value->Ok_0,
                uuid->Ok_0,
            );
            &&& !well_formed ==> crate::item::field_text(item) is Err
                && crate::item::content_of(item) is Err && crate::item::field_text(item)->Err_0
                == crate::item::content_of(item)->Err_0
            &&& well_formed && opened is Some && vstd::utf8::valid_utf8(opened->0)
                ==> crate::item::field_text(item) == Ok::<Seq<char>, ErrorView>(
                vstd::utf8::decode_utf8(opened->0),
            )
            &&& well_formed && opened is Some && !vstd::utf8::valid_utf8(opened->0)
                ==> crate::item::field_text(item) == Err::<Seq<char>, ErrorView>(
                crate::laws::plain::api_error(
                    "Decrypted value is not valid UTF-8 for '"@ + item.title + "': "@
                        + crate::crypto::utf8_error_text(opened->0),
                    "The decrypted value contains non-UTF-8 bytes"@,
                ),
            )
            &&& well_formed && opened is None ==> crate::item::field_text(item) == Err::<
                Seq<char>,
                ErrorView,
            >(
                crate::laws::plain::api_error(
                    "Failed to decrypt field for '"@ + item.title + "': "@ + "aead::Error"@,
                    "The item data may be corrupted"@,
                ),
            )
        },
{
}

} // verus!
