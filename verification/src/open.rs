//! The steps that open a vault's database.
//!
//! Opening alternates between files, the environment and the database on one
//! side and decisions on the other. A state says what is wanted next; the caller
//! gets it and hands back what happened.
use vstd::prelude::*;

use crate::error::{auth_error, ErrorView, FnoxError};
use crate::provider::{EnpassProvider, ProviderView};
use crate::vault::{
    append_keyfile, key_digits, InfoFileView, InfoView, MasterPassword, MasterView, VaultInfo,
    VaultInfoFile,
};

verus! {

/// The database format that is tried first.
pub const NEWER_CIPHER: u8 = 4;

/// The database format that is tried where the newer one does not open.
pub const OLDER_CIPHER: u8 = 3;

/// How far opening has come, and what is wanted next.
pub enum OpenState {
    /// The description of the vault, from `vault.json`.
    NeedInfo,
    /// The password, from the environment.
    NeedPassword { info: VaultInfo },
    /// The content of the keyfile at `path`.
    NeedKeyfile { info: VaultInfo, password: String, path: String },
    /// The bytes of the database, from `vault.enpassdb`.
    NeedDatabase { info: VaultInfo, master_password: Vec<u8> },
    /// An attempt to open the database with this key in this format.
    Trying { hex_key: String, cipher_version: u8 },
    /// Nothing: the database is open.
    Opened { cipher_version: u8 },
    /// Nothing: the database cannot be opened.
    Failed(FnoxError),
}

/// A state of opening as plain values.
#[verifier::ext_equal]
pub enum StateView {
    NeedInfo,
    NeedPassword { info: InfoView },
    NeedKeyfile { info: InfoView, password: Seq<char>, path: Seq<char> },
    NeedDatabase { info: InfoView, master_password: Seq<u8> },
    Trying { hex_key: Seq<char>, cipher_version: u8 },
    Opened { cipher_version: u8 },
    Failed(ErrorView),
}

impl View for OpenState {
    type V = StateView;

    open spec fn view(&self) -> StateView {
        match self {
            OpenState::NeedInfo => StateView::NeedInfo,
            OpenState::NeedPassword { info } => StateView::NeedPassword { info: info@ },
            OpenState::NeedKeyfile { info, password, path } => StateView::NeedKeyfile {
                info: info@,
                password: password@,
                path: path@,
            },
            OpenState::NeedDatabase { info, master_password } => StateView::NeedDatabase {
                info: info@,
                master_password: master_password@,
            },
            OpenState::Trying { hex_key, cipher_version } => StateView::Trying {
                hex_key: hex_key@,
                cipher_version: *cipher_version,
            },
            OpenState::Opened { cipher_version } => StateView::Opened {
                cipher_version: *cipher_version,
            },
            OpenState::Failed(e) => StateView::Failed(e@),
        }
    }
}

/// What happened when the caller did what a state wants.
pub enum OpenEvent {
    /// `vault.json` at `path` was read.
    InfoRead { path: String, file: VaultInfoFile },
    /// The two environment variables were read.
    PasswordRead { fnox_password: Option<String>, password: Option<String> },
    /// The keyfile was read.
    KeyfileRead { content: Result<String, String> },
    /// The database at `path` was read.
    DatabaseRead { path: String, data: Result<Vec<u8>, String> },
    /// The database opened and could be read.
    AttemptSucceeded,
    /// The database did not open, or could not be read.
    AttemptFailed,
}

/// What happened, as plain values.
#[verifier::ext_equal]
pub enum EventView {
    InfoRead { path: Seq<char>, file: InfoFileView },
    PasswordRead { fnox_password: Option<Seq<char>>, password: Option<Seq<char>> },
    KeyfileRead { content: Result<Seq<char>, Seq<char>> },
    DatabaseRead { path: Seq<char>, data: Result<Seq<u8>, Seq<char>> },
    AttemptSucceeded,
    AttemptFailed,
}

impl View for OpenEvent {
    type V = EventView;

    open spec fn view(&self) -> EventView {
        match self {
            OpenEvent::InfoRead { path, file } => EventView::InfoRead { path: path@, file: file@ },
            OpenEvent::PasswordRead { fnox_password, password } => EventView::PasswordRead {
                fnox_password: crate::text::optional(*fnox_password),
                password: crate::text::optional(*password),
            },
            OpenEvent::KeyfileRead { content } => EventView::KeyfileRead {
                content: crate::vault::text_read(*content),
            },
            OpenEvent::DatabaseRead { path, data } => EventView::DatabaseRead {
                path: path@,
                data: crate::vault::bytes_read(*data),
            },
            OpenEvent::AttemptSucceeded => EventView::AttemptSucceeded,
            OpenEvent::AttemptFailed => EventView::AttemptFailed,
        }
    }
}

/// The failure when no format opens the database.
pub open spec fn cannot_open() -> ErrorView {
    crate::error::auth_failure(
        "Could not open vault database: invalid password or unsupported version"@,
        "Check that the password is correct"@,
    )
}

/// What follows once the password is known.
pub open spec fn after_password(
    provider: ProviderView,
    info: InfoView,
    password: Seq<char>,
) -> StateView {
    let bytes = vstd::utf8::encode_utf8(password);
    match crate::vault::master_password(provider, bytes, info) {
        Ok(MasterView::Ready(master_password)) => StateView::NeedDatabase {
            info,
            master_password,
        },
        Ok(MasterView::NeedsKeyfile { path }) => StateView::NeedKeyfile { info, password, path },
        Err(e) => StateView::Failed(e),
    }
}

/// What follows once the bytes of the database are known: the first attempt.
pub open spec fn after_database(
    info: InfoView,
    master_password: Seq<u8>,
    path: Seq<char>,
    data: Result<Seq<u8>, Seq<char>>,
) -> StateView {
    match crate::vault::salt_of(path, data) {
        Ok(salt) => StateView::Trying {
            hex_key: crate::vault::database_key(master_password, salt, info.kdf_iter),
            cipher_version: NEWER_CIPHER,
        },
        Err(e) => StateView::Failed(e),
    }
}

/// The state that follows. An event that the state does not want changes
/// nothing.
pub open spec fn next_state(
    provider: ProviderView,
    state: StateView,
    event: EventView,
) -> StateView {
    match (state, event) {
        (StateView::NeedInfo, EventView::InfoRead { path, file }) => match crate::vault::usable_info(
            path,
            file,
        ) {
            Ok(info) => StateView::NeedPassword { info },
            Err(e) => StateView::Failed(e),
        },
        (
            StateView::NeedPassword { info },
            EventView::PasswordRead { fnox_password, password },
        ) => match crate::provider::password_outcome(fnox_password, password) {
            Ok(p) => after_password(provider, info, p),
            Err(e) => StateView::Failed(e),
        },
        (
            StateView::NeedKeyfile { info, password, path },
            EventView::KeyfileRead { content },
        ) => match crate::vault::password_with_keyfile(
            vstd::utf8::encode_utf8(password),
            path,
            content,
        ) {
            Ok(master_password) => StateView::NeedDatabase { info, master_password },
            Err(e) => StateView::Failed(e),
        },
        (
            StateView::NeedDatabase { info, master_password },
            EventView::DatabaseRead { path, data },
        ) => after_database(info, master_password, path, data),
        (
            StateView::Trying { hex_key, cipher_version },
            EventView::AttemptSucceeded,
        ) => StateView::Opened { cipher_version },
        (
            StateView::Trying { hex_key, cipher_version },
            EventView::AttemptFailed,
        ) => if cipher_version == NEWER_CIPHER {
            StateView::Trying { hex_key, cipher_version: OLDER_CIPHER }
        } else {
            StateView::Failed(cannot_open())
        },
        _ => state,
    }
}

impl EnpassProvider {
    /// Where opening the database starts.
    pub fn open_database() -> (r: OpenState)
        ensures
            r@ == StateView::NeedInfo,
    {
        OpenState::NeedInfo
    }

    /// The state that follows when the caller did what a state wants.
    pub fn open_step(&self, state: OpenState, event: OpenEvent) -> (r: OpenState)
        ensures
            r@ == next_state(self@, state@, event@),
            match (state, event) {
                (
                    OpenState::NeedDatabase { info, master_password },
                    OpenEvent::DatabaseRead { data: Ok(bytes), .. },
                ) => bytes@.len() >= 16 ==> {
                    &&& r is Trying
                    &&& r->Trying_cipher_version == 4
                    &&& r->Trying_hex_key@.len() == 64
                    &&& r->Trying_hex_key@ == crate::hexcode::encoded(
                        crate::crypto::pbkdf2_sha512(
                            master_password@,
                            bytes@.subrange(0, 16),
                            info.kdf_iter,
                            64,
                        ).subrange(0, 32),
                    )
                },
                _ => true,
            },
    {
        match (state, event) {
            (OpenState::NeedInfo, OpenEvent::InfoRead { path, file }) => {
                match Self::load_vault_info(path.as_str(), file) {
                    Ok(info) => OpenState::NeedPassword { info },
                    Err(e) => OpenState::Failed(e),
                }
            },
            (
                OpenState::NeedPassword { info },
                OpenEvent::PasswordRead { fnox_password, password },
            ) => {
                match Self::get_password(fnox_password, password) {
                    Ok(password) => {
                        match self.generate_master_password(password.as_str().as_bytes(), &info) {
                            Ok(MasterPassword::Ready(master_password)) => {
                                OpenState::NeedDatabase { info, master_password }
                            },
                            Ok(MasterPassword::NeedsKeyfile { path }) => OpenState::NeedKeyfile {
                                info,
                                password,
                                path,
                            },
                            Err(e) => OpenState::Failed(e),
                        }
                    },
                    Err(e) => OpenState::Failed(e),
                }
            },
            (
                OpenState::NeedKeyfile { info, password, path },
                OpenEvent::KeyfileRead { content },
            ) => {
                match append_keyfile(password.as_str().as_bytes(), path.as_str(), content) {
                    Ok(master_password) => OpenState::NeedDatabase { info, master_password },
                    Err(e) => OpenState::Failed(e),
                }
            },
            (
                OpenState::NeedDatabase { info, master_password },
                OpenEvent::DatabaseRead { path, data },
            ) => {
                match Self::extract_salt(path.as_str(), data) {
                    Ok(salt) => {
                        proof {
                            let bytes = data->Ok_0@;
                            assert(salt@ == bytes.take(16));
                            assert(bytes.take(16) =~= bytes.subrange(0, 16));
                        }
                        let derived = self.derive_key(
                            master_password.as_slice(),
                            salt.as_slice(),
                            info.kdf_iter,
                        );
                        assert(derived@.take(32) =~= derived@.subrange(0, 32));
                        OpenState::Trying {
                            hex_key: key_digits(&derived),
                            cipher_version: NEWER_CIPHER,
                        }
                    },
                    Err(e) => OpenState::Failed(e),
                }
            },
            (
                OpenState::Trying { hex_key, cipher_version },
                OpenEvent::AttemptSucceeded,
            ) => OpenState::Opened { cipher_version },
            (OpenState::Trying { hex_key, cipher_version }, OpenEvent::AttemptFailed) => {
                if cipher_version == NEWER_CIPHER {
                    OpenState::Trying { hex_key, cipher_version: OLDER_CIPHER }
                } else {
                    OpenState::Failed(
                        auth_error(
                            "Could not open vault database: invalid password or unsupported version".to_owned(),
                            "Check that the password is correct",
                        ),
                    )
                }
            },
            (state, _) => state,
        }
    }
}

} // verus!
