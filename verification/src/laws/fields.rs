//! Fields: what reading gives back.
use vstd::prelude::*;

use crate::error::ErrorView;
use crate::hexcode::HexError;
use crate::item::ItemView;

verus! {

/// A value that is empty or not sensitive reads as it stands, whatever the item
/// key and the UUID hold.
pub proof fn plain_field_reads_as_it_stands(item: ItemView)
    requires
        item.value.len() == 0 || !item.sensitive,
    ensures
        crate::item::field_text(item) == Ok::<Seq<char>, ErrorView>(item.value),
{
}

/// A text that was sealed with the item's key and nonce, and authenticated with
/// the bytes of the item's UUID, reads back.
pub proof fn sealed_field_reads_back(
    item: ItemView,
    text: Seq<char>,
    ciphertext: Seq<u8>,
    associated: Seq<u8>,
)
    requires
        item.sensitive,
        item.value.len() > 0,
        item.item_key.len() >= 44,
        crate::hexcode::decoded_text(item.value) == Ok::<Seq<u8>, HexError>(ciphertext),
        crate::hexcode::decoded_text(item.uuid.filter(|c: char| c != '-')) == Ok::<
            Seq<u8>,
            HexError,
        >(associated),
        crate::crypto::aes256_gcm_opened(
            item.item_key.subrange(0, 32),
            item.item_key.subrange(32, 44),
            ciphertext,
            associated,
        ) == Some(vstd::utf8::encode_utf8(text)),
    ensures
        crate::item::field_text(item) == Ok::<Seq<char>, ErrorView>(text),
{
    vstd::utf8::encode_utf8_valid_utf8(text);
    vstd::utf8::encode_utf8_decode_utf8(text);
}

/// A sealed value that does not open is an error, never a text.
pub proof fn field_that_does_not_open_is_an_error(
    item: ItemView,
    ciphertext: Seq<u8>,
    associated: Seq<u8>,
)
    requires
        item.sensitive,
        item.value.len() > 0,
        item.item_key.len() >= 44,
        crate::hexcode::decoded_text(item.value) == Ok::<Seq<u8>, HexError>(ciphertext),
        crate::hexcode::decoded_text(item.uuid.filter(|c: char| c != '-')) == Ok::<
            Seq<u8>,
            HexError,
        >(associated),
        crate::crypto::aes256_gcm_opened(
            item.item_key.subrange(0, 32),
            item.item_key.subrange(32, 44),
            ciphertext,
            associated,
        ) is None,
    ensures
        crate::item::field_text(item) == Err::<Seq<char>, ErrorView>(
            crate::error::api_failure(
                "Failed to decrypt field for '"@ + item.title + "': "@ + "aead::Error"@,
                "The item data may be corrupted"@,
            ),
        ),
{
}

/// The text of a field rests on its value, on whether it is sensitive and, where
/// it is sealed, on the first 44 bytes of the item key and the digits of the UUID.
/// Title, label, category, flags and further key bytes do not matter.
pub proof fn text_rests_on_value_key_and_uuid(a: ItemView, b: ItemView)
    requires
        a.value == b.value,
        a.sensitive == b.sensitive,
        a.sensitive && a.value.len() > 0 ==> {
            &&& a.uuid.filter(|c: char| c != '-') == b.uuid.filter(|c: char| c != '-')
            &&& a.item_key.len() >= 44
            &&& b.item_key.len() >= 44
            &&& a.item_key.take(44) == b.item_key.take(44)
        },
    ensures
        crate::item::field_text(a) is Ok <==> crate::item::field_text(b) is Ok,
        crate::item::field_text(a) is Ok ==> crate::item::field_text(b) == crate::item::field_text(
            a,
        ),
{
    if a.sensitive && a.value.len() > 0 {
        assert(a.item_key.take(44).subrange(0, 32) =~= a.item_key.subrange(0, 32));
        assert(b.item_key.take(44).subrange(0, 32) =~= b.item_key.subrange(0, 32));
        assert(a.item_key.take(44).subrange(32, 44) =~= a.item_key.subrange(32, 44));
        assert(b.item_key.take(44).subrange(32, 44) =~= b.item_key.subrange(32, 44));
    }
}

/// Dashes in the UUID matter neither to the text of a field nor to the error where
/// there is none.
pub proof fn uuid_dashes_do_not_matter(a: ItemView, b: ItemView)
    requires
        a.uuid.filter(|c: char| c != '-') == b.uuid.filter(|c: char| c != '-'),
        a.title == b.title,
        a.value == b.value,
        a.item_key == b.item_key,
        a.sensitive == b.sensitive,
    ensures
        crate::item::field_text(a) == crate::item::field_text(b),
{
}

} // verus!
