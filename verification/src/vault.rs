//! The files of a vault: its description, its salt and its keyfile, and the keys
//! that come from them.
use vstd::prelude::*;

use crate::crypto::pbkdf2_hmac_sha512;
use crate::error::{api_error, ErrorView, FnoxError};
use crate::hexcode::{hex_decode, hex_encode, hex_error_text};
use crate::provider::{EnpassProvider, ProviderView};
use crate::text::{after_first, before_first, same_text, trim};

verus! {

// ---------------------------------------------------------------------------
// The description of the vault
// ---------------------------------------------------------------------------

/// What `vault.json` says of a vault.
#[derive(Debug)]
pub struct VaultInfo {
    pub encryption_algo: String,
    /// One where the vault uses a keyfile.
    pub has_keyfile: u8,
    pub kdf_algo: String,
    pub kdf_iter: u32,
    pub vault_name: Option<String>,
}

/// The description of a vault as plain values.
#[verifier::ext_equal]
pub struct InfoView {
    pub encryption_algo: Seq<char>,
    pub has_keyfile: u8,
    pub kdf_algo: Seq<char>,
    pub kdf_iter: u32,
    pub vault_name: Option<Seq<char>>,
}

impl View for VaultInfo {
    type V = InfoView;

    open spec fn view(&self) -> InfoView {
        InfoView {
            encryption_algo: self.encryption_algo@,
            has_keyfile: self.has_keyfile,
            kdf_algo: self.kdf_algo@,
            kdf_iter: self.kdf_iter,
            vault_name: crate::text::optional(self.vault_name),
        }
    }
}

/// What reading and parsing `vault.json` gave: an error's text, or the
/// description.
pub enum VaultInfoFile {
    Unreadable(String),
    Malformed(String),
    Parsed(VaultInfo),
}

/// What reading and parsing `vault.json` gave, as plain values.
#[verifier::ext_equal]
pub enum InfoFileView {
    Unreadable(Seq<char>),
    Malformed(Seq<char>),
    Parsed(InfoView),
}

impl View for VaultInfoFile {
    type V = InfoFileView;

    open spec fn view(&self) -> InfoFileView {
        match self {
            VaultInfoFile::Unreadable(e) => InfoFileView::Unreadable(e@),
            VaultInfoFile::Malformed(e) => InfoFileView::Malformed(e@),
            VaultInfoFile::Parsed(info) => InfoFileView::Parsed(info@),
        }
    }
}

/// The description of a vault that can be opened: one with the supported key
/// derivation and the supported encryption.
pub open spec fn usable_info(path: Seq<char>, file: InfoFileView) -> Result<InfoView, ErrorView> {
    match file {
        InfoFileView::Unreadable(e) => Err(
            crate::error::api_failure(
                "Failed to read vault info '"@ + path + "': "@ + e,
                "Check that the vault directory contains vault.json"@,
            ),
        ),
        InfoFileView::Malformed(e) => Err(
            crate::error::api_failure(
                "Failed to parse vault.json: "@ + e,
                "Check that vault.json is valid"@,
            ),
        ),
        InfoFileView::Parsed(info) => if info.kdf_algo != "pbkdf2"@ {
            Err(
                crate::error::api_failure(
                    "Unsupported KDF algorithm: "@ + info.kdf_algo,
                    "Only pbkdf2 is supported"@,
                ),
            )
        } else if info.encryption_algo != "aes-256-cbc"@ {
            Err(
                crate::error::api_failure(
                    "Unsupported encryption algorithm: "@ + info.encryption_algo,
                    "Only aes-256-cbc is supported"@,
                ),
            )
        } else {
            Ok(info)
        },
    }
}

// ---------------------------------------------------------------------------
// The salt
// ---------------------------------------------------------------------------

/// The bytes of salt at the start of a vault's database.
pub const SALT_LENGTH: usize = 16;

/// What reading a file gave, as plain values.
pub open spec fn bytes_read(r: Result<Vec<u8>, String>) -> Result<Seq<u8>, Seq<char>> {
    match r {
        Ok(v) => Ok(v@),
        Err(e) => Err(e@),
    }
}

/// What reading a text file gave, as plain values.
pub open spec fn text_read(r: Result<String, String>) -> Result<Seq<char>, Seq<char>> {
    match r {
        Ok(s) => Ok(s@),
        Err(e) => Err(e@),
    }
}

/// The salt at the start of a database.
pub open spec fn salt_of(path: Seq<char>, data: Result<Seq<u8>, Seq<char>>) -> Result<
    Seq<u8>,
    ErrorView,
> {
    match data {
        Err(e) => Err(
            crate::error::api_failure(
                "Failed to read vault database '"@ + path + "': "@ + e,
                "Check that the vault directory contains vault.enpassdb"@,
            ),
        ),
        Ok(bytes) => if bytes.len() < SALT_LENGTH {
            Err(
                crate::error::api_failure(
                    "Vault database file is too small to contain a salt"@,
                    "The vault.enpassdb file may be corrupted"@,
                ),
            )
        } else {
            Ok(bytes.take(SALT_LENGTH as int))
        },
    }
}

// ---------------------------------------------------------------------------
// The keyfile
// ---------------------------------------------------------------------------

/// The text of the first `<key>` element of a keyfile: what follows the tag, up
/// to the next opening or closing tag, without white space around it.
pub open spec fn key_element(content: Seq<char>) -> Option<Seq<char>> {
    match crate::text::after(content, "<key>"@) {
        Some(rest) => Some(
            crate::text::trimmed(
                crate::text::before(crate::text::before(rest, "<key>"@), "</key>"@),
            ),
        ),
        None => None,
    }
}

/// The bytes of a keyfile's key.
pub open spec fn keyfile_bytes(path: Seq<char>, content: Result<Seq<char>, Seq<char>>) -> Result<
    Seq<u8>,
    ErrorView,
> {
    match content {
        Err(e) => Err(
            crate::error::api_failure(
                "Failed to read keyfile '"@ + path + "': "@ + e,
                "Check that the keyfile exists and is readable"@,
            ),
        ),
        Ok(text) => match key_element(text) {
            None => Err(
                crate::error::api_failure(
                    "Invalid keyfile format: missing <key> element"@,
                    "The keyfile should be an XML file with a <key> element containing hex bytes"@,
                ),
            ),
            Some(digits) => match crate::hexcode::decoded_text(digits) {
                Err(e) => Err(
                    crate::error::api_failure(
                        "Failed to decode keyfile hex: "@ + crate::hexcode::hex_error_message(e),
                        "The keyfile contains invalid hex data"@,
                    ),
                ),
                Ok(bytes) => Ok(bytes),
            },
        },
    }
}

/// Reads the key from the content of a keyfile.
pub fn load_keyfile(path: &str, content: Result<String, String>) -> (r: Result<Vec<u8>, FnoxError>)
    ensures
        crate::error::bytes_outcome(r) == keyfile_bytes(path@, text_read(content)),
{
    let content = match content {
        Ok(text) => text,
        Err(e) => {
            let details = "Failed to read keyfile '".to_owned().concat(path).concat("': ").concat(
                e.as_str(),
            );
            return Err(api_error(details, "Check that the keyfile exists and is readable"));
        },
    };
    match after_first(content.as_str(), "<key>") {
        None => Err(
            api_error(
                "Invalid keyfile format: missing <key> element".to_owned(),
                "The keyfile should be an XML file with a <key> element containing hex bytes",
            ),
        ),
        Some(rest) => {
            let digits = trim(before_first(before_first(rest, "<key>"), "</key>"));
            match hex_decode(digits) {
                Ok(bytes) => Ok(bytes),
                Err(e) => {
                    let details = "Failed to decode keyfile hex: ".to_owned().concat(
                        hex_error_text(e).as_str(),
                    );
                    Err(api_error(details, "The keyfile contains invalid hex data"))
                },
            }
        },
    }
}

// ---------------------------------------------------------------------------
// The master password and the keys
// ---------------------------------------------------------------------------

/// The master password, or what it still needs.
pub enum MasterPassword {
    /// The password is all there is to it.
    Ready(Vec<u8>),
    /// The bytes of this keyfile come after the password.
    NeedsKeyfile { path: String },
}

/// The master password, or what it still needs, as plain values.
#[verifier::ext_equal]
pub enum MasterView {
    Ready(Seq<u8>),
    NeedsKeyfile { path: Seq<char> },
}

impl View for MasterPassword {
    type V = MasterView;

    open spec fn view(&self) -> MasterView {
        match self {
            MasterPassword::Ready(v) => MasterView::Ready(v@),
            MasterPassword::NeedsKeyfile { path } => MasterView::NeedsKeyfile { path: path@ },
        }
    }
}

/// The outcome of asking for the master password, as plain values.
pub open spec fn master_outcome(r: Result<MasterPassword, FnoxError>) -> Result<
    MasterView,
    ErrorView,
> {
    match r {
        Ok(m) => Ok(m@),
        Err(e) => Err(e@),
    }
}

/// What the master password consists of. The vault and the configuration must
/// agree on whether there is a keyfile.
pub open spec fn master_password(
    provider: ProviderView,
    password: Seq<u8>,
    info: InfoView,
) -> Result<MasterView, ErrorView> {
    if info.has_keyfile == 1 {
        match provider.keyfile_path {
            Some(path) => Ok(MasterView::NeedsKeyfile { path }),
            None => Err(
                crate::error::api_failure(
                    "Vault requires a keyfile but none was configured"@,
                    "Set keyfile in provider config"@,
                ),
            ),
        }
    } else if provider.keyfile_path is Some {
        Err(
            crate::error::api_failure(
                "Keyfile configured but vault does not use a keyfile"@,
                "Remove keyfile from provider config"@,
            ),
        )
    } else {
        Ok(MasterView::Ready(password))
    }
}

/// A password followed by the bytes of a keyfile.
pub open spec fn password_with_keyfile(
    password: Seq<u8>,
    path: Seq<char>,
    content: Result<Seq<char>, Seq<char>>,
) -> Result<Seq<u8>, ErrorView> {
    match keyfile_bytes(path, content) {
        Ok(bytes) => Ok(password + bytes),
        Err(e) => Err(e),
    }
}

/// The bytes of a derived key.
pub const DERIVED_KEY_LENGTH: usize = 64;

/// The hexadecimal digits of a database key: those of the first 32 bytes of the
/// derived key.
pub const MASTER_KEY_HEX_LENGTH: usize = 64;

/// The key of a vault's database, as hexadecimal digits.
pub open spec fn database_key(master: Seq<u8>, salt: Seq<u8>, iterations: u32) -> Seq<char> {
    crate::hexcode::encoded(
        crate::crypto::pbkdf2_sha512(master, salt, iterations, DERIVED_KEY_LENGTH as nat),
    ).take(MASTER_KEY_HEX_LENGTH as int)
}

/// The key as the database expects it: a blob literal of its digits.
pub fn key_literal(hex_key: &str) -> (r: String)
    ensures
        r@ == "x'"@ + hex_key@ + "'"@,
{
    "x'".to_owned().concat(hex_key).concat("'")
}

/// The first 64 hexadecimal digits of a derived key.
pub fn key_digits(derived: &Vec<u8>) -> (r: String)
    requires
        derived@.len() >= 32,
    ensures
        r@ == crate::hexcode::encoded(derived@).take(MASTER_KEY_HEX_LENGTH as int),
        r@ == crate::hexcode::encoded(derived@.take(32)),
        r@.len() == MASTER_KEY_HEX_LENGTH,
{
    let digits = hex_encode(derived.as_slice());
    assert(digits@.subrange(0, MASTER_KEY_HEX_LENGTH as int) == digits@.take(
        MASTER_KEY_HEX_LENGTH as int,
    ));
    assert(crate::hexcode::encoded(derived@.take(32)) =~= digits@.take(
        MASTER_KEY_HEX_LENGTH as int,
    ));
    digits.as_str().substring_char(0, MASTER_KEY_HEX_LENGTH).to_owned()
}

/// Puts the bytes of a keyfile after a password.
pub fn append_keyfile(password: &[u8], path: &str, content: Result<String, String>) -> (r: Result<
    Vec<u8>,
    FnoxError,
>)
    ensures
        crate::error::bytes_outcome(r) == password_with_keyfile(password@, path@, text_read(content)),
{
    match load_keyfile(path, content) {
        Ok(mut bytes) => {
            let mut combined = vstd::slice::slice_to_vec(password);
            combined.append(&mut bytes);
            Ok(combined)
        },
        Err(e) => Err(e),
    }
}

impl EnpassProvider {
    /// Accepts the description of a vault that can be opened. `info_path` is
    /// where it was read.
    pub fn load_vault_info(info_path: &str, file: VaultInfoFile) -> (r: Result<
        VaultInfo,
        FnoxError,
    >)
        ensures
            match r {
                Ok(info) => usable_info(info_path@, file@) == Ok::<InfoView, ErrorView>(info@),
                Err(e) => usable_info(info_path@, file@) == Err::<InfoView, ErrorView>(e@),
            },
    {
        match file {
            VaultInfoFile::Unreadable(e) => {
                let details = "Failed to read vault info '".to_owned().concat(info_path).concat(
                    "': ",
                ).concat(e.as_str());
                Err(api_error(details, "Check that the vault directory contains vault.json"))
            },
            VaultInfoFile::Malformed(e) => {
                let details = "Failed to parse vault.json: ".to_owned().concat(e.as_str());
                Err(api_error(details, "Check that vault.json is valid"))
            },
            VaultInfoFile::Parsed(info) => {
                if !same_text(info.kdf_algo.as_str(), "pbkdf2") {
                    let details = "Unsupported KDF algorithm: ".to_owned().concat(
                        info.kdf_algo.as_str(),
                    );
                    return Err(api_error(details, "Only pbkdf2 is supported"));
                }
                if !same_text(info.encryption_algo.as_str(), "aes-256-cbc") {
                    let details = "Unsupported encryption algorithm: ".to_owned().concat(
                        info.encryption_algo.as_str(),
                    );
                    return Err(api_error(details, "Only aes-256-cbc is supported"));
                }
                Ok(info)
            },
        }
    }

    /// Takes the salt from the bytes of the database. `db_path` is where they
    /// were read.
    pub fn extract_salt(db_path: &str, data: Result<Vec<u8>, String>) -> (r: Result<
        Vec<u8>,
        FnoxError,
    >)
        ensures
            crate::error::bytes_outcome(r) == salt_of(db_path@, bytes_read(data)),
    {
        match data {
            Err(e) => {
                let details = "Failed to read vault database '".to_owned().concat(db_path).concat(
                    "': ",
                ).concat(e.as_str());
                Err(api_error(details, "Check that the vault directory contains vault.enpassdb"))
            },
            Ok(bytes) => {
                if bytes.len() < SALT_LENGTH {
                    return Err(
                        api_error(
                            "Vault database file is too small to contain a salt".to_owned(),
                            "The vault.enpassdb file may be corrupted",
                        ),
                    );
                }
                let salt = vstd::slice::slice_subrange(bytes.as_slice(), 0, SALT_LENGTH);
                assert(salt@ == bytes@.take(SALT_LENGTH as int));
                Ok(vstd::slice::slice_to_vec(salt))
            },
        }
    }

    /// Decides what the master password consists of.
    pub fn generate_master_password(&self, password: &[u8], vault_info: &VaultInfo) -> (r: Result<
        MasterPassword,
        FnoxError,
    >)
        ensures
            master_outcome(r) == master_password(self@, password@, vault_info@),
    {
        if vault_info.has_keyfile == 1 {
            match self.keyfile_path() {
                Some(path) => Ok(MasterPassword::NeedsKeyfile { path: path.to_owned() }),
                None => Err(
                    api_error(
                        "Vault requires a keyfile but none was configured".to_owned(),
                        "Set keyfile in provider config",
                    ),
                ),
            }
        } else if self.keyfile_path().is_some() {
            Err(
                api_error(
                    "Keyfile configured but vault does not use a keyfile".to_owned(),
                    "Remove keyfile from provider config",
                ),
            )
        } else {
            Ok(MasterPassword::Ready(vstd::slice::slice_to_vec(password)))
        }
    }

    /// Derives a key of 64 bytes with PBKDF2-HMAC-SHA512.
    pub fn derive_key(&self, master_password: &[u8], salt: &[u8], iterations: u32) -> (r: Vec<u8>)
        ensures
            r@ == crate::crypto::pbkdf2_sha512(
                master_password@,
                salt@,
                iterations,
                DERIVED_KEY_LENGTH as nat,
            ),
            r@.len() == DERIVED_KEY_LENGTH,
            r@ == crate::crypto::pbkdf2_sha512(master_password@, salt@, iterations, 64),
            r@.len() == 64,
    {
        let mut key: Vec<u8> = vec![0u8; DERIVED_KEY_LENGTH];
        pbkdf2_hmac_sha512(master_password, salt, iterations, &mut key);
        key
    }
}

} // verus!
