//! Views: what contracts speak of is what the values hold, field by field.
use vstd::prelude::*;

use crate::batch::Vault;
use crate::error::{ErrorView, FnoxError};
use crate::filter::{FilterValue, Tags};
use crate::item::{ContentView, EnpassItem, FieldContent, ItemView};
use crate::open::{EventView, OpenEvent, OpenState, StateView};
use crate::query::ItemRow;
use crate::vault::{InfoFileView, MasterPassword, MasterView, VaultInfo, VaultInfoFile};

verus! {

/// Several texts are seen one by one, in their order.
pub proof fn texts_are_seen_one_by_one(owned: Seq<String>, borrowed: Seq<&str>, i: int)
    ensures
        crate::text::strings(owned).len() == owned.len(),
        crate::text::strs(borrowed).len() == borrowed.len(),
        0 <= i < owned.len() ==> crate::text::strings(owned)[i] == owned[i]@,
        0 <= i < borrowed.len() ==> crate::text::strs(borrowed)[i] == borrowed[i]@,
{
}

/// An optional text is seen exactly where there is one.
pub proof fn optional_text_is_seen(s: String)
    ensures
        crate::text::optional(Some(s)) == Some(s@),
        crate::text::optional(None) is None,
{
}

/// A field is seen column by column.
pub proof fn field_is_seen_column_by_column(item: EnpassItem)
    ensures
        item@.uuid == item.uuid@,
        item@.title == item.title@,
        item@.label == item.label@,
        item@.value == item.value@,
        item@.item_key == item.item_key@,
        item@.sensitive == item.sensitive,
        item@.trashed == item.trashed,
        item@.deleted == item.deleted,
        item@.category == item.category@,
        item@.favorite == item.favorite,
        item@.archived == item.archived,
{
}

/// Several fields are seen one by one, in their order.
pub proof fn fields_are_seen_one_by_one(
    owned: Seq<EnpassItem>,
    borrowed: Seq<&EnpassItem>,
    i: int,
)
    ensures
        crate::item::items_view(owned).len() == owned.len(),
        crate::item::item_refs_view(borrowed).len() == borrowed.len(),
        0 <= i < owned.len() ==> crate::item::items_view(owned)[i] == owned[i]@,
        0 <= i < borrowed.len() ==> crate::item::item_refs_view(borrowed)[i] == borrowed[i]@,
{
}

/// A row is seen column by column; of a number that stands for a flag, whether it
/// is zero.
pub proof fn row_is_seen_column_by_column(row: ItemRow)
    ensures
        row@.uuid == row.uuid@,
        row@.title == row.title@,
        row@.label == row.label@,
        row@.value == row.value@,
        row@.item_key == row.item_key@,
        row@.sensitive <==> row.sensitive != 0,
        row@.trashed == row.trashed,
        row@.deleted == row.deleted,
        row@.category == row.category@,
        row@.favorite <==> row.favorite != 0,
        row@.archived <==> row.archived != 0,
{
}

/// The content of a field is seen part by part.
pub proof fn content_is_seen_part_by_part(
    s: String,
    key: Vec<u8>,
    nonce: Vec<u8>,
    ciphertext: Vec<u8>,
    associated: Vec<u8>,
)
    ensures
        FieldContent::Plain(s)@ == ContentView::Plain(s@),
        (FieldContent::Sealed { key, nonce, ciphertext, associated })@ == (ContentView::Sealed {
            key: key@,
            nonce: nonce@,
            ciphertext: ciphertext@,
            associated: associated@,
        }),
{
}

/// An error is seen text by text.
pub proof fn error_is_seen_text_by_text(a: String, b: String, hint: String, url: String)
    ensures
        (FnoxError::ProviderAuthFailed { provider: a, details: b, hint, url })@ == (
        ErrorView::AuthFailed { provider: a@, details: b@, hint: hint@, url: url@ }),
        (FnoxError::ProviderApiError { provider: a, details: b, hint, url })@ == (
        ErrorView::ApiError { provider: a@, details: b@, hint: hint@, url: url@ }),
        (FnoxError::ProviderSecretNotFound { provider: a, secret: b, hint, url })@ == (
        ErrorView::SecretNotFound { provider: a@, secret: b@, hint: hint@, url: url@ }),
{
}

/// What this provider reports bears its name and its page.
pub proof fn errors_bear_name_and_page(text: Seq<char>, hint: Seq<char>)
    ensures
        crate::error::auth_failure(text, hint) == crate::laws::plain::auth_failed(text, hint),
        crate::error::api_failure(text, hint) == crate::laws::plain::api_error(text, hint),
        crate::error::not_found(text, hint) == crate::laws::plain::secret_not_found(text, hint),
{
}

/// An error reads as the name of its provider and what went wrong.
pub proof fn errors_read_in_one_line(
    provider: Seq<char>,
    text: Seq<char>,
    hint: Seq<char>,
    url: Seq<char>,
)
    ensures
        crate::error::message_of(ErrorView::AuthFailed { provider, details: text, hint, url })
            == provider + ": authentication failed: "@ + text,
        crate::error::message_of(ErrorView::ApiError { provider, details: text, hint, url })
            == provider + ": "@ + text,
        crate::error::message_of(ErrorView::SecretNotFound { provider, secret: text, hint, url })
            == provider + ": secret '"@ + text + "' not found"@,
{
}

/// An outcome is seen as the success or the error that it is.
pub proof fn outcomes_are_seen_as_they_are(
    text: String,
    bytes: Vec<u8>,
    items: Vec<EnpassItem>,
    tags: Tags,
    content: FieldContent,
    master: MasterPassword,
    e: FnoxError,
)
    ensures
        crate::error::text_outcome(Ok(text)) == Ok::<Seq<char>, ErrorView>(text@),
        crate::error::text_outcome(Err(e)) == Err::<Seq<char>, ErrorView>(e@),
        crate::error::bytes_outcome(Ok(bytes)) == Ok::<Seq<u8>, ErrorView>(bytes@),
        crate::error::bytes_outcome(Err(e)) == Err::<Seq<u8>, ErrorView>(e@),
        crate::query::items_outcome(Ok(items)) is Ok,
        crate::query::items_outcome(Ok(items))->Ok_0.len() == items@.len(),
        forall|i: int|
            0 <= i < items@.len() ==> crate::query::items_outcome(Ok(items))->Ok_0[i] == (
            #[trigger] items@[i])@,
        crate::query::items_outcome(Err(e)) == Err::<Seq<ItemView>, ErrorView>(e@),
        crate::query::tags_outcome(Ok(tags)) == Ok::<Map<Seq<char>, Seq<Seq<char>>>, ErrorView>(
            tags@,
        ),
        crate::query::tags_outcome(Err(e)) == Err::<Map<Seq<char>, Seq<Seq<char>>>, ErrorView>(e@),
        crate::item::content_outcome(Ok(content)) == Ok::<ContentView, ErrorView>(content@),
        crate::item::content_outcome(Err(e)) == Err::<ContentView, ErrorView>(e@),
        crate::vault::master_outcome(Ok(master)) == Ok::<MasterView, ErrorView>(master@),
        crate::vault::master_outcome(Err(e)) == Err::<MasterView, ErrorView>(e@),
{
}

/// The content of a vault is seen as its fields, one by one, and its tags.
pub proof fn vault_is_seen_as_fields_and_tags(vault: Vault, e: FnoxError, i: int)
    ensures
        vault@.tags == vault.tags@,
        vault@.items.len() == vault.items@.len(),
        0 <= i < vault.items@.len() ==> vault@.items[i] == vault.items@[i]@,
        crate::batch::vault_outcome(Ok(vault)) == Ok::<crate::batch::VaultView, ErrorView>(vault@),
        crate::batch::vault_outcome(Err(e)) == Err::<crate::batch::VaultView, ErrorView>(e@),
{
}

/// What reading or decrypting gave is seen as it is.
pub proof fn readings_are_seen_as_they_are(bytes: Vec<u8>, text: String, e: String)
    ensures
        crate::vault::bytes_read(Ok(bytes)) == Ok::<Seq<u8>, Seq<char>>(bytes@),
        crate::vault::bytes_read(Err(e)) == Err::<Seq<u8>, Seq<char>>(e@),
        crate::vault::text_read(Ok(text)) == Ok::<Seq<char>, Seq<char>>(text@),
        crate::vault::text_read(Err(e)) == Err::<Seq<char>, Seq<char>>(e@),
        crate::item::opened_view(Ok(bytes)) == Ok::<Seq<u8>, Seq<char>>(bytes@),
        crate::item::opened_view(Err(e)) == Err::<Seq<u8>, Seq<char>>(e@),
{
}

/// The values of a criterion are seen in their order.
pub proof fn filter_values_are_seen_in_order(s: String, v: Vec<String>, i: int)
    ensures
        FilterValue::Single(s)@.len() == 1,
        FilterValue::Single(s)@[0] == s@,
        FilterValue::Multiple(v)@.len() == v@.len(),
        0 <= i < v@.len() ==> FilterValue::Multiple(v)@[i] == v@[i]@,
{
}

/// The description of a vault is seen entry by entry.
pub proof fn description_is_seen_entry_by_entry(info: VaultInfo, e: String)
    ensures
        info@.encryption_algo == info.encryption_algo@,
        info@.has_keyfile == info.has_keyfile,
        info@.kdf_algo == info.kdf_algo@,
        info@.kdf_iter == info.kdf_iter,
        info.vault_name matches Some(name) ==> info@.vault_name == Some(name@),
        info.vault_name is None ==> info@.vault_name is None,
        VaultInfoFile::Unreadable(e)@ == InfoFileView::Unreadable(e@),
        VaultInfoFile::Malformed(e)@ == InfoFileView::Malformed(e@),
        VaultInfoFile::Parsed(info)@ == InfoFileView::Parsed(info@),
{
}

/// The master password is seen as its bytes, or as the keyfile that it needs.
pub proof fn master_password_is_seen(bytes: Vec<u8>, path: String)
    ensures
        MasterPassword::Ready(bytes)@ == MasterView::Ready(bytes@),
        (MasterPassword::NeedsKeyfile { path })@ == (MasterView::NeedsKeyfile { path: path@ }),
{
}

/// A state of opening is seen part by part.
pub proof fn state_is_seen_part_by_part(
    info: VaultInfo,
    password: String,
    path: String,
    master_password: Vec<u8>,
    hex_key: String,
    cipher_version: u8,
    e: FnoxError,
)
    ensures
        OpenState::NeedInfo@ == StateView::NeedInfo,
        (OpenState::NeedPassword { info })@ == (StateView::NeedPassword { info: info@ }),
        (OpenState::NeedKeyfile { info, password, path })@ == (StateView::NeedKeyfile {
            info: info@,
            password: password@,
            path: path@,
        }),
        (OpenState::NeedDatabase { info, master_password })@ == (StateView::NeedDatabase {
            info: info@,
            master_password: master_password@,
        }),
        (OpenState::Trying { hex_key, cipher_version })@ == (StateView::Trying {
            hex_key: hex_key@,
            cipher_version,
        }),
        (OpenState::Opened { cipher_version })@ == (StateView::Opened { cipher_version }),
        OpenState::Failed(e)@ == StateView::Failed(e@),
{
}

/// An event of opening is seen part by part.
pub proof fn event_is_seen_part_by_part(
    path: String,
    file: VaultInfoFile,
    first: String,
    second: String,
    text: String,
    data: Vec<u8>,
    e: String,
)
    ensures
        (OpenEvent::InfoRead { path, file })@ == (EventView::InfoRead { path: path@, file: file@ }),
        (OpenEvent::PasswordRead { fnox_password: Some(first), password: Some(second) })@ == (
        EventView::PasswordRead { fnox_password: Some(first@), password: Some(second@) }),
        (OpenEvent::PasswordRead { fnox_password: Some(first), password: None })@ == (
        EventView::PasswordRead { fnox_password: Some(first@), password: None }),
        (OpenEvent::PasswordRead { fnox_password: None, password: Some(second) })@ == (
        EventView::PasswordRead { fnox_password: None, password: Some(second@) }),
        (OpenEvent::PasswordRead { fnox_password: None, password: None })@ == (
        EventView::PasswordRead { fnox_password: None, password: None }),
        (OpenEvent::KeyfileRead { content: Ok(text) })@ == (EventView::KeyfileRead {
            content: Ok(text@),
        }),
        (OpenEvent::KeyfileRead { content: Err(e) })@ == (EventView::KeyfileRead {
            content: Err(e@),
        }),
        (OpenEvent::DatabaseRead { path, data: Ok(data) })@ == (EventView::DatabaseRead {
            path: path@,
            data: Ok(data@),
        }),
        (OpenEvent::DatabaseRead { path, data: Err(e) })@ == (EventView::DatabaseRead {
            path: path@,
            data: Err(e@),
        }),
        OpenEvent::AttemptSucceeded@ == EventView::AttemptSucceeded,
        OpenEvent::AttemptFailed@ == EventView::AttemptFailed,
{
}

} // verus!
