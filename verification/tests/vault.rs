use enpass::open::{OpenEvent, OpenState};
use enpass::provider::{enpass_password, ProviderCapability};
use enpass::vault::{
    append_keyfile, key_digits, key_literal, load_keyfile, MasterPassword, VaultInfo, VaultInfoFile,
};
use enpass::{env_dependencies, EnpassProvider, FnoxError};

fn info(has_keyfile: u8) -> VaultInfo {
    VaultInfo {
        encryption_algo: "aes-256-cbc".to_string(),
        has_keyfile,
        kdf_algo: "pbkdf2".to_string(),
        kdf_iter: 3,
        vault_name: Some("Primary".to_string()),
    }
}

fn provider(keyfile: Option<&str>) -> EnpassProvider {
    EnpassProvider::with_paths("/vault".to_string(), keyfile.map(|k| k.to_string()))
}

fn api(e: FnoxError) -> (String, String) {
    match e {
        FnoxError::ProviderApiError { details, hint, .. } => (details, hint),
        _ => panic!("another error"),
    }
}

fn failure(state: OpenState) -> FnoxError {
    match state {
        OpenState::Failed(e) => e,
        _ => panic!("not failed"),
    }
}

#[test]
fn environment_variables_in_order() {
    assert_eq!(env_dependencies(), &["FNOX_ENPASS_PASSWORD", "ENPASS_PASSWORD"]);
}

#[test]
fn paths_are_expanded() {
    let p = EnpassProvider::new("~/vault".to_string(), Some("~".to_string())).unwrap();
    assert_eq!(p.vault_path(), shellexpand::tilde("~/vault"));
    assert_eq!(p.keyfile_path().unwrap(), shellexpand::tilde("~"));
    let p = EnpassProvider::new("~other/vault".to_string(), None).unwrap();
    assert_eq!(p.vault_path(), "~other/vault");
    assert_eq!(p.keyfile_path(), None);
    let p = EnpassProvider::new("/a/~/b".to_string(), Some("k".to_string())).unwrap();
    assert_eq!(p.vault_path(), "/a/~/b");
    assert_eq!(p.keyfile_path(), Some("k"));
}

#[test]
fn provider_reads_remotely() {
    assert_eq!(provider(None).capabilities(), vec![ProviderCapability::RemoteRead]);
}

#[test]
fn first_password_wins() {
    let some = |s: &str| Some(s.to_string());
    assert_eq!(enpass_password(some("a"), some("b")), some("a"));
    assert_eq!(enpass_password(None, some("b")), some("b"));
    assert_eq!(enpass_password(None, None), None);
    assert_eq!(EnpassProvider::get_password(some(""), some("b")).unwrap(), "");
    match EnpassProvider::get_password(None, None).unwrap_err() {
        FnoxError::ProviderAuthFailed { provider, details, hint, url } => {
            assert_eq!(provider, "Enpass");
            assert_eq!(details, "Vault password not set");
            assert_eq!(hint, "Set FNOX_ENPASS_PASSWORD or ENPASS_PASSWORD environment variable");
            assert_eq!(url, "https://fnox.jdx.dev/providers/enpass");
        }
        _ => panic!("another error"),
    }
}

#[test]
fn description_is_accepted_or_refused() {
    let load = |file| EnpassProvider::load_vault_info("/v/vault.json", file);
    let accepted = load(VaultInfoFile::Parsed(info(0))).unwrap();
    assert_eq!(accepted.kdf_iter, 3);
    assert_eq!(accepted.vault_name, Some("Primary".to_string()));
    let (details, hint) = api(load(VaultInfoFile::Unreadable("gone".to_string())).unwrap_err());
    assert_eq!(details, "Failed to read vault info '/v/vault.json': gone");
    assert_eq!(hint, "Check that the vault directory contains vault.json");
    let (details, hint) = api(load(VaultInfoFile::Malformed("bad".to_string())).unwrap_err());
    assert_eq!(details, "Failed to parse vault.json: bad");
    assert_eq!(hint, "Check that vault.json is valid");
    let mut other = info(0);
    other.kdf_algo = "argon2".to_string();
    other.encryption_algo = "rot13".to_string();
    let (details, hint) = api(load(VaultInfoFile::Parsed(other)).unwrap_err());
    assert_eq!(details, "Unsupported KDF algorithm: argon2");
    assert_eq!(hint, "Only pbkdf2 is supported");
    let mut other = info(0);
    other.encryption_algo = "AES-256-CBC".to_string();
    let (details, hint) = api(load(VaultInfoFile::Parsed(other)).unwrap_err());
    assert_eq!(details, "Unsupported encryption algorithm: AES-256-CBC");
    assert_eq!(hint, "Only aes-256-cbc is supported");
}

#[test]
fn salt_is_the_start_of_the_database() {
    let salt = |data| EnpassProvider::extract_salt("/v/db", data);
    assert_eq!(salt(Ok((0..20u8).collect())).unwrap(), (0..16u8).collect::<Vec<u8>>());
    assert_eq!(salt(Ok(vec![7; 16])).unwrap(), vec![7; 16]);
    let (details, hint) = api(salt(Ok(vec![7; 15])).unwrap_err());
    assert_eq!(details, "Vault database file is too small to contain a salt");
    assert_eq!(hint, "The vault.enpassdb file may be corrupted");
    let (details, hint) = api(salt(Err("gone".to_string())).unwrap_err());
    assert_eq!(details, "Failed to read vault database '/v/db': gone");
    assert_eq!(hint, "Check that the vault directory contains vault.enpassdb");
}

#[test]
fn keyfile_reads_back() {
    let load = |s: &str| load_keyfile("/k", Ok(s.to_string()));
    assert_eq!(
        load("<?xml?><key>\u{3000}\n 00aBff\t</key></xml>").unwrap(),
        vec![0x00, 0xab, 0xff]
    );
    assert_eq!(load("<key></key>").unwrap(), Vec::<u8>::new());
    // Without a closing tag everything up to the next opening tag counts.
    assert_eq!(load("<key>01<key>02</key>").unwrap(), vec![1]);
    assert_eq!(load("<key>0102").unwrap(), vec![1, 2]);
    assert_eq!(load("</key><key>01</key>").unwrap(), vec![1]);
}

#[test]
fn keyfile_errors() {
    let (details, hint) = api(load_keyfile("/k", Err("gone".to_string())).unwrap_err());
    assert_eq!(details, "Failed to read keyfile '/k': gone");
    assert_eq!(hint, "Check that the keyfile exists and is readable");
    let (details, hint) = api(load_keyfile("/k", Ok("<KEY>00</KEY>".to_string())).unwrap_err());
    assert_eq!(details, "Invalid keyfile format: missing <key> element");
    assert_eq!(
        hint,
        "The keyfile should be an XML file with a <key> element containing hex bytes"
    );
    let (details, hint) = api(load_keyfile("/k", Ok("<key>0g</key>".to_string())).unwrap_err());
    assert_eq!(details, "Failed to decode keyfile hex: Invalid character 'g' at position 1");
    assert_eq!(hint, "The keyfile contains invalid hex data");
    let (details, _) = api(load_keyfile("/k", Ok("<key>012</key>".to_string())).unwrap_err());
    assert_eq!(details, "Failed to decode keyfile hex: Odd number of digits");
}

#[test]
fn vault_and_configuration_agree_on_keyfile() {
    match provider(None).generate_master_password(b"pw", &info(0)).unwrap() {
        MasterPassword::Ready(bytes) => assert_eq!(bytes, b"pw".to_vec()),
        MasterPassword::NeedsKeyfile { .. } => panic!("no keyfile"),
    }
    match provider(Some("/k")).generate_master_password(b"pw", &info(1)).unwrap() {
        MasterPassword::Ready(_) => panic!("keyfile"),
        MasterPassword::NeedsKeyfile { path } => assert_eq!(path, "/k"),
    }
    let e = provider(None).generate_master_password(b"pw", &info(1)).err().unwrap();
    let (details, hint) = api(e);
    assert_eq!(details, "Vault requires a keyfile but none was configured");
    assert_eq!(hint, "Set keyfile in provider config");
    let e = provider(Some("/k")).generate_master_password(b"pw", &info(0)).err().unwrap();
    let (details, hint) = api(e);
    assert_eq!(details, "Keyfile configured but vault does not use a keyfile");
    assert_eq!(hint, "Remove keyfile from provider config");
    let combined = append_keyfile(b"pw", "/k", Ok("<key>abcd</key>".to_string()));
    assert_eq!(combined.unwrap(), vec![b'p', b'w', 0xab, 0xcd]);
}

#[test]
fn keys_are_derived() {
    let derived = provider(None).derive_key(b"password", b"salt", 1);
    assert_eq!(
        hex::encode(&derived),
        "867f70cf1ade02cff3752599a3a53dc4af34c7a669815ae5d513554e1c8cf252c02d470a285a0501bad999bfe943c08f050235d7d68b1da55e63f73b60a57fce"
    );
    let digits = key_digits(&derived);
    assert_eq!(digits, "867f70cf1ade02cff3752599a3a53dc4af34c7a669815ae5d513554e1c8cf252");
    assert_eq!(key_literal("00ff"), "x'00ff'");
}

#[test]
fn opening_without_a_keyfile() {
    let p = provider(None);
    let state = p.open_step(
        EnpassProvider::open_database(),
        OpenEvent::InfoRead {
            path: "/v/vault.json".to_string(),
            file: VaultInfoFile::Parsed(info(0)),
        },
    );
    let state = p.open_step(
        state,
        OpenEvent::PasswordRead { fnox_password: None, password: Some("password".to_string()) },
    );
    // What is not wanted changes nothing.
    let state = p.open_step(state, OpenEvent::AttemptFailed);
    let state = p.open_step(
        state,
        OpenEvent::DatabaseRead { path: "/v/db".to_string(), data: Ok((0..32u8).collect()) },
    );
    let expected = "e163069f665b3a1e41178494b19ff820366a064eb8b880b1f8f991954debe336";
    match &state {
        OpenState::Trying { hex_key, cipher_version } => {
            assert_eq!(hex_key, expected);
            assert_eq!(*cipher_version, 4);
        }
        _ => panic!("no attempt"),
    }
    let state = p.open_step(state, OpenEvent::AttemptFailed);
    match &state {
        OpenState::Trying { hex_key, cipher_version } => {
            assert_eq!(hex_key, expected);
            assert_eq!(*cipher_version, 3);
        }
        _ => panic!("no attempt"),
    }
    let state = p.open_step(state, OpenEvent::AttemptSucceeded);
    let state = p.open_step(state, OpenEvent::AttemptFailed);
    assert!(matches!(state, OpenState::Opened { cipher_version: 3 }));
}

#[test]
fn opening_with_a_keyfile() {
    let p = provider(Some("/k"));
    let state = p.open_step(
        EnpassProvider::open_database(),
        OpenEvent::InfoRead { path: "i".to_string(), file: VaultInfoFile::Parsed(info(1)) },
    );
    let state = p.open_step(
        state,
        OpenEvent::PasswordRead { fnox_password: Some("password".to_string()), password: None },
    );
    match &state {
        OpenState::NeedKeyfile { path, .. } => assert_eq!(path, "/k"),
        _ => panic!("keyfile"),
    }
    let state = p.open_step(
        state,
        OpenEvent::KeyfileRead { content: Ok("<key>abcd</key>".to_string()) },
    );
    let state = p.open_step(
        state,
        OpenEvent::DatabaseRead { path: "d".to_string(), data: Ok((0..16u8).collect()) },
    );
    match &state {
        OpenState::Trying { hex_key, .. } => assert_eq!(
            hex_key,
            "0cc18363b3bdcdc63697784959515aabeb076dbe121a0af684f7ac8c4b479756"
        ),
        _ => panic!("no attempt"),
    }
    let state = p.open_step(state, OpenEvent::AttemptFailed);
    let state = p.open_step(state, OpenEvent::AttemptFailed);
    match failure(state) {
        FnoxError::ProviderAuthFailed { details, hint, .. } => {
            assert_eq!(
                details,
                "Could not open vault database: invalid password or unsupported version"
            );
            assert_eq!(hint, "Check that the password is correct");
        }
        _ => panic!("another error"),
    }
}

#[test]
fn opening_fails_at_the_first_error() {
    let p = provider(None);
    let state = p.open_step(
        EnpassProvider::open_database(),
        OpenEvent::InfoRead {
            path: "i".to_string(),
            file: VaultInfoFile::Unreadable("gone".to_string()),
        },
    );
    let state = p.open_step(state, OpenEvent::AttemptSucceeded);
    assert_eq!(failure(state).message(), "Enpass: Failed to read vault info 'i': gone");
    let state = p.open_step(
        OpenState::NeedPassword { info: info(0) },
        OpenEvent::PasswordRead { fnox_password: None, password: None },
    );
    assert_eq!(
        failure(state).message(),
        "Enpass: authentication failed: Vault password not set"
    );
    let state = p.open_step(
        OpenState::NeedDatabase { info: info(0), master_password: vec![1] },
        OpenEvent::DatabaseRead { path: "d".to_string(), data: Err("gone".to_string()) },
    );
    assert_eq!(failure(state).message(), "Enpass: Failed to read vault database 'd': gone");
}

#[test]
fn only_a_successful_attempt_opens() {
    let p = provider(None);
    let trying = |version: u8| OpenState::Trying {
        hex_key: "00".to_string(),
        cipher_version: version,
    };
    assert!(matches!(
        p.open_step(trying(4), OpenEvent::AttemptSucceeded),
        OpenState::Opened { cipher_version: 4 }
    ));
    assert!(matches!(
        p.open_step(trying(4), OpenEvent::KeyfileRead { content: Ok(String::new()) }),
        OpenState::Trying { cipher_version: 4, .. }
    ));
    assert!(matches!(p.open_step(trying(3), OpenEvent::AttemptFailed), OpenState::Failed(_)));
    assert!(matches!(
        p.open_step(OpenState::NeedInfo, OpenEvent::AttemptSucceeded),
        OpenState::NeedInfo
    ));
}
