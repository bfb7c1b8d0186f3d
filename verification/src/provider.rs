//! The provider and what configures it.
use vstd::prelude::*;

use crate::error::{auth_error, FnoxError};

verus! {

/// The environment variables that the provider reads, in the order in which it
/// asks them for the vault's password.
pub fn env_dependencies() -> (r: &'static [&'static str])
    ensures
        r@.len() == 2,
        r@[0]@ == "FNOX_ENPASS_PASSWORD"@,
        r@[1]@ == "ENPASS_PASSWORD"@,
{
    &["FNOX_ENPASS_PASSWORD", "ENPASS_PASSWORD"]
}

/// What a provider can do.
#[derive(Debug, Clone, Copy, PartialEq, Eq, Structural)]
pub enum ProviderCapability {
    /// Secrets are read from the provider.
    RemoteRead,
}

/// A vault on disk: its directory, and the keyfile that it is configured with.
pub struct EnpassProvider {
    vault_path: String,
    keyfile_path: Option<String>,
}

/// A provider as plain values.
#[verifier::ext_equal]
pub struct ProviderView {
    pub vault_path: Seq<char>,
    pub keyfile_path: Option<Seq<char>>,
}

impl View for EnpassProvider {
    type V = ProviderView;

    closed spec fn view(&self) -> ProviderView {
        ProviderView {
            vault_path: self.vault_path@,
            keyfile_path: crate::text::optional(self.keyfile_path),
        }
    }
}

/// Whether a path starts with a tilde that can stand for a home directory: it is
/// the whole path, or a separator follows.
pub open spec fn starts_at_home(path: Seq<char>) -> bool {
    &&& path.len() > 0
    &&& path[0] == '~'
    &&& path.len() == 1 || path[1] == '/' || path[1] == '\\'
}

/// Whether `r` is what tilde expansion can make of a path: the path itself, or,
/// where it starts at a home directory, some directory in place of the tilde.
pub open spec fn is_expansion(path: Seq<char>, r: Seq<char>) -> bool {
    r == path || (starts_at_home(path) && exists|home: Seq<char>|
        r == #[trigger] (home + path.skip(1)))
}

/// `shellexpand::tilde`: puts the user's home directory in place of a leading
/// tilde. Which directory that is, and whether there is one, depends on the
/// environment. A backslash counts as a separator on Windows only.
#[verifier::external_body]
fn expand_tilde(path: &str) -> (r: String)
    ensures
        is_expansion(path@, r@),
{
    shellexpand::tilde(path).to_string()
}

/// The password: that of the first variable, or else that of the second.
pub open spec fn password_of(
    fnox_password: Option<Seq<char>>,
    password: Option<Seq<char>>,
) -> Option<Seq<char>> {
    match fnox_password {
        Some(p) => Some(p),
        None => password,
    }
}

/// The outcome of asking for the password.
pub open spec fn password_outcome(
    fnox_password: Option<Seq<char>>,
    password: Option<Seq<char>>,
) -> Result<Seq<char>, crate::error::ErrorView> {
    match password_of(fnox_password, password) {
        Some(p) => Ok(p),
        None => Err(
            crate::error::auth_failure(
                "Vault password not set"@,
                "Set FNOX_ENPASS_PASSWORD or ENPASS_PASSWORD environment variable"@,
            ),
        ),
    }
}

/// Picks the password from what the two environment variables hold.
pub fn enpass_password(fnox_password: Option<String>, password: Option<String>) -> (r: Option<
    String,
>)
    ensures
        crate::text::optional(r) == password_of(
            crate::text::optional(fnox_password),
            crate::text::optional(password),
        ),
{
    match fnox_password {
        Some(p) => Some(p),
        None => password,
    }
}

impl EnpassProvider {
    /// A provider for the vault in a directory, with the keyfile that the vault
    /// is configured with. A leading tilde in either path stands for the home
    /// directory.
    pub fn new(vault_path: String, keyfile: Option<String>) -> (r: Result<Self, FnoxError>)
        ensures
            r matches Ok(p) && is_expansion(vault_path@, p@.vault_path) && match keyfile {
                Some(k) => p@.keyfile_path matches Some(path) && is_expansion(k@, path),
                None => p@.keyfile_path is None,
            },
            vault_path@.len() == 0 || vault_path@[0] != '~' ==> r->Ok_0@.vault_path == vault_path@,
            keyfile matches Some(k) ==> (k@.len() == 0 || k@[0] != '~' ==> r->Ok_0@.keyfile_path
                == Some(k@)),
    {
        let vault_path = expand_tilde(vault_path.as_str());
        let keyfile_path = match keyfile {
            Some(k) => Some(expand_tilde(k.as_str())),
            None => None,
        };
        Ok(Self::with_paths(vault_path, keyfile_path))
    }

    /// A provider for paths as they stand.
    pub fn with_paths(vault_path: String, keyfile_path: Option<String>) -> (r: Self)
        ensures
            r@.vault_path == vault_path@,
            r@.keyfile_path == crate::text::optional(keyfile_path),
    {
        EnpassProvider { vault_path, keyfile_path }
    }

    /// The directory of the vault.
    pub fn vault_path(&self) -> (r: &str)
        ensures
            r@ == self@.vault_path,
    {
        self.vault_path.as_str()
    }

    /// The path of the keyfile.
    pub fn keyfile_path(&self) -> (r: Option<&str>)
        ensures
            match r {
                Some(path) => self@.keyfile_path == Some(path@),
                None => self@.keyfile_path is None,
            },
    {
        match &self.keyfile_path {
            Some(path) => Some(path.as_str()),
            None => None,
        }
    }

    /// What the provider can do.
    pub fn capabilities(&self) -> (r: Vec<ProviderCapability>)
        ensures
            r@ == seq![ProviderCapability::RemoteRead],
    {
        vec![ProviderCapability::RemoteRead]
    }

    /// Picks the password from what the two environment variables hold.
    pub fn get_password(fnox_password: Option<String>, password: Option<String>) -> (r: Result<
        String,
        FnoxError,
    >)
        ensures
            crate::error::text_outcome(r) == password_outcome(
                crate::text::optional(fnox_password),
                crate::text::optional(password),
            ),
    {
        match enpass_password(fnox_password, password) {
            Some(p) => Ok(p),
            None => Err(
                auth_error(
                    "Vault password not set".to_owned(),
                    "Set FNOX_ENPASS_PASSWORD or ENPASS_PASSWORD environment variable",
                ),
            ),
        }
    }
}

} // verus!
