//! Unlocking: each step of opening, from what was read.
use vstd::prelude::*;

use crate::error::ErrorView;
use crate::open::{EventView, StateView};
use crate::provider::ProviderView;
use crate::vault::{InfoFileView, InfoView, MasterView};

verus! {

// ---------------------------------------------------------------------------
// What was read
// ---------------------------------------------------------------------------

/// A description is accepted exactly where it names `pbkdf2` and `aes-256-cbc`; the
/// key derivation is looked at first.
pub proof fn description_must_name_supported_algorithms(path: Seq<char>, info: InfoView)
    ensures
        ({
            let outcome = crate::vault::usable_info(path, InfoFileView::Parsed(info));
            &&& info.kdf_algo == "pbkdf2"@ && info.encryption_algo == "aes-256-cbc"@ ==> outcome
                == Ok::<InfoView, ErrorView>(info)
            &&& info.kdf_algo != "pbkdf2"@ ==> outcome == Err::<InfoView, ErrorView>(
                crate::laws::plain::api_error(
                    "Unsupported KDF algorithm: "@ + info.kdf_algo,
                    "Only pbkdf2 is supported"@,
                ),
            )
            &&& info.kdf_algo == "pbkdf2"@ && info.encryption_algo != "aes-256-cbc"@ ==> outcome
                == Err::<InfoView, ErrorView>(
                crate::laws::plain::api_error(
                    "Unsupported encryption algorithm: "@ + info.encryption_algo,
                    "Only aes-256-cbc is supported"@,
                ),
            )
        }),
{
}

/// A file that cannot be read or parsed is reported.
pub proof fn unreadable_files_are_reported(path: Seq<char>, e: Seq<char>)
    ensures
        crate::vault::usable_info(path, InfoFileView::Unreadable(e)) == Err::<InfoView, ErrorView>(
            crate::laws::plain::api_error(
                "Failed to read vault info '"@ + path + "': "@ + e,
                "Check that the vault directory contains vault.json"@,
            ),
        ),
        crate::vault::usable_info(path, InfoFileView::Malformed(e)) == Err::<InfoView, ErrorView>(
            crate::laws::plain::api_error(
                "Failed to parse vault.json: "@ + e,
                "Check that vault.json is valid"@,
            ),
        ),
        crate::vault::salt_of(path, Err(e)) == Err::<Seq<u8>, ErrorView>(
            crate::laws::plain::api_error(
                "Failed to read vault database '"@ + path + "': "@ + e,
                "Check that the vault directory contains vault.enpassdb"@,
            ),
        ),
        crate::vault::keyfile_bytes(path, Err(e)) == Err::<Seq<u8>, ErrorView>(
            crate::laws::plain::api_error(
                "Failed to read keyfile '"@ + path + "': "@ + e,
                "Check that the keyfile exists and is readable"@,
            ),
        ),
{
}

/// The salt is the first 16 bytes of the database; fewer are refused.
pub proof fn salt_is_first_16_bytes(path: Seq<char>, salt: Seq<u8>, rest: Seq<u8>)
    ensures
        salt.len() == 16 ==> crate::vault::salt_of(path, Ok(salt + rest)) == Ok::<
            Seq<u8>,
            ErrorView,
        >(salt),
        salt.len() < 16 ==> crate::vault::salt_of(path, Ok(salt)) == Err::<Seq<u8>, ErrorView>(
            crate::laws::plain::api_error(
                "Vault database file is too small to contain a salt"@,
                "The vault.enpassdb file may be corrupted"@,
            ),
        ),
{
    if salt.len() == 16 {
        assert((salt + rest).take(16) =~= salt);
    }
}

/// The password of the first variable is used, or else that of the second, or else
/// there is none.
pub proof fn password_is_that_of_first_variable(first: Seq<char>, second: Seq<char>)
    ensures
        crate::provider::password_of(Some(first), Some(second)) == Some(first),
        crate::provider::password_of(Some(first), None) == Some(first),
        crate::provider::password_of(None, Some(second)) == Some(second),
        crate::provider::password_of(None, None) is None,
        crate::provider::password_outcome(Some(first), Some(second)) == Ok::<Seq<char>, ErrorView>(
            first,
        ),
        crate::provider::password_outcome(Some(first), None) == Ok::<Seq<char>, ErrorView>(first),
        crate::provider::password_outcome(None, Some(second)) == Ok::<Seq<char>, ErrorView>(second),
        crate::provider::password_outcome(None, None) == Err::<Seq<char>, ErrorView>(
            crate::laws::plain::auth_failed(
                "Vault password not set"@,
                "Set FNOX_ENPASS_PASSWORD or ENPASS_PASSWORD environment variable"@,
            ),
        ),
{
}

/// The master password is the password alone where neither the vault nor the
/// configuration has a keyfile, and needs the configured one where both have. Where
/// only one of them has, that is an error.
pub proof fn master_password_follows_keyfile(
    vault_path: Seq<char>,
    keyfile: Seq<char>,
    password: Seq<u8>,
    info: InfoView,
)
    ensures
        ({
            let with = ProviderView { vault_path, keyfile_path: Some(keyfile) };
            let without = ProviderView { vault_path, keyfile_path: None };
            if info.has_keyfile == 1 {
                &&& crate::vault::master_password(with, password, info) == Ok::<
                    MasterView,
                    ErrorView,
                >(MasterView::NeedsKeyfile { path: keyfile })
                &&& crate::vault::master_password(without, password, info) == Err::<
                    MasterView,
                    ErrorView,
                >(
                    crate::laws::plain::api_error(
                        "Vault requires a keyfile but none was configured"@,
                        "Set keyfile in provider config"@,
                    ),
                )
            } else {
                &&& crate::vault::master_password(without, password, info) == Ok::<
                    MasterView,
                    ErrorView,
                >(MasterView::Ready(password))
                &&& crate::vault::master_password(with, password, info) == Err::<
                    MasterView,
                    ErrorView,
                >(
                    crate::laws::plain::api_error(
                        "Keyfile configured but vault does not use a keyfile"@,
                        "Remove keyfile from provider config"@,
                    ),
                )
            }
        }),
{
}

// ---------------------------------------------------------------------------
// The keyfile
// ---------------------------------------------------------------------------

/// No opening tag stands before the end of a text that holds none, where the next
/// character opens a tag.
proof fn no_tag_crosses(s: Seq<char>, head: Seq<char>, tag: Seq<char>)
    requires
        crate::laws::plain::is_absent(head, tag),
        head.len() < s.len(),
        s.take(head.len() as int) == head,
        s[head.len() as int] == '<',
        forall|i: int| 1 <= i < tag.len() ==> #[trigger] tag[i] != '<',
    ensures
        forall|j: int|
            0 <= j < head.len() && j + tag.len() <= s.len() ==> #[trigger] s.subrange(
                j,
                j + tag.len(),
            ) != tag,
{
    let n = head.len() as int;
    assert forall|j: int| 0 <= j < n && j + tag.len() <= s.len() implies #[trigger] s.subrange(
        j,
        j + tag.len(),
    ) != tag by {
        if s.subrange(j, j + tag.len()) == tag {
            if j + tag.len() <= n {
                assert(head.subrange(j, j + tag.len()) =~= s.take(n).subrange(j, j + tag.len()));
                assert(s.take(n).subrange(j, j + tag.len()) =~= s.subrange(j, j + tag.len()));
            } else {
                assert(s.subrange(j, j + tag.len())[n - j] == s[n]);
                assert(tag[n - j] != '<');
            }
        }
    }
}

/// The key of a keyfile stands between the first `<key>` and the next tag or the
/// end, without the white space around it, in hexadecimal digits.
pub proof fn key_stands_after_first_tag(
    path: Seq<char>,
    header: Seq<char>,
    front: Seq<char>,
    digits: Seq<char>,
    back: Seq<char>,
    rest: Seq<char>,
)
    requires
        crate::laws::plain::is_absent(header, "<key>"@),
        crate::laws::plain::is_absent(front + digits + back, "<key>"@),
        crate::laws::plain::is_absent(front + digits + back, "</key>"@),
        crate::laws::plain::all_blank(front),
        crate::laws::plain::bare_ends(digits),
        crate::laws::plain::all_blank(back),
        rest.len() == 0 || (rest.len() >= 5 && rest.subrange(0, 5) == "<key>"@) || (rest.len() >= 6
            && rest.subrange(0, 6) == "</key>"@),
    ensures
        ({
            let content = header + "<key>"@ + (front + digits + back) + rest;
            let read = crate::hexcode::decoded(vstd::utf8::encode_utf8(digits));
            &&& crate::vault::key_element(content) == Some(digits)
            &&& read is Ok ==> crate::vault::keyfile_bytes(path, Ok(content)) == Ok::<
                Seq<u8>,
                ErrorView,
            >(read->Ok_0)
            &&& read is Err ==> crate::vault::keyfile_bytes(path, Ok(content)) == Err::<
                Seq<u8>,
                ErrorView,
            >(
                crate::laws::plain::api_error(
                    "Failed to decode keyfile hex: "@ + crate::hexcode::hex_error_message(
                        read->Err_0,
                    ),
                    "The keyfile contains invalid hex data"@,
                ),
            )
        }),
{
    let open = "<key>"@;
    let close = "</key>"@;
    reveal_strlit("<key>");
    reveal_strlit("</key>");
    let inner = front + digits + back;
    let content = header + open + inner + rest;
    let tail = inner + rest;
    let n = header.len() as int;
    let m = inner.len() as int;

    assert(content.take(n) =~= header);
    assert(content[n] == '<');
    no_tag_crosses(content, header, open);
    assert(content.subrange(n, n + 5) =~= open);
    crate::laws::texts::text_is_split_at_first_place(content, open, n);
    assert(content.subrange(n + 5, content.len() as int) =~= tail);

    let piece = crate::text::before(tail, open);
    assert(crate::text::before(piece, close) == inner) by {
        assert(tail.take(m) =~= inner);
        if rest.len() == 0 {
            assert(tail =~= inner);
            crate::laws::texts::text_without_pattern_is_not_split(inner, open);
            crate::laws::texts::text_without_pattern_is_not_split(inner, close);
        } else if rest.len() >= 5 && rest.subrange(0, 5) == open {
            assert(rest[0] == rest.subrange(0, 5)[0]);
            no_tag_crosses(tail, inner, open);
            assert(tail.subrange(m, m + 5) =~= rest.subrange(0, 5));
            crate::laws::texts::text_is_split_at_first_place(tail, open, m);
            assert(tail.subrange(0, m) =~= inner);
            crate::laws::texts::text_without_pattern_is_not_split(inner, close);
        } else {
            assert(forall|i: int| 0 <= i < 6 ==> rest[i] == rest.subrange(0, 6)[i]);
            assert(forall|i: int| 0 <= i < 6 ==> tail[m + i] == close[i]);
            no_tag_crosses(tail, inner, open);
            if crate::text::occurs(tail, open) {
                let k = choose|k: int| crate::text::occurs_first_at(tail, open, k);
                assert(crate::text::occurs_first_at(tail, open, k));
                assert(tail.subrange(k, k + 5) == open);
                assert(tail.subrange(k, k + 5)[0] == tail[k]);
                assert(tail.subrange(k, k + 5)[1] == tail[k + 1]);
                if m <= k < m + 6 {
                    assert(tail[m + (k - m)] == close[k - m]);
                    assert(k == m);
                    assert(tail[m + 1] == close[1]);
                }
                assert(k >= m + 6);
            }
            assert(piece.len() >= m + 6);
            assert(forall|i: int| 0 <= i < m + 6 ==> piece[i] == tail[i]);
            assert(piece.take(m) =~= inner);
            no_tag_crosses(piece, inner, close);
            assert(piece.subrange(m, m + 6) =~= close) by {
                assert forall|i: int| 0 <= i < 6 implies piece.subrange(m, m + 6)[i] == close[i] by {
                    assert(tail[m + i] == close[i]);
                }
            }
            crate::laws::texts::text_is_split_at_first_place(piece, close, m);
            assert(piece.subrange(0, m) =~= inner);
        }
    }
    crate::laws::texts::trimming_leaves_what_stands_between(front, digits, back);
}

/// A text without an opening tag is refused.
pub proof fn keyfile_without_tag_is_refused(path: Seq<char>, content: Seq<char>)
    requires
        crate::laws::plain::is_absent(content, "<key>"@),
    ensures
        crate::vault::keyfile_bytes(path, Ok(content)) == Err::<Seq<u8>, ErrorView>(
            crate::laws::plain::api_error(
                "Invalid keyfile format: missing <key> element"@,
                "The keyfile should be an XML file with a <key> element containing hex bytes"@,
            ),
        ),
{
    crate::laws::texts::text_without_pattern_is_not_split(content, "<key>"@);
}

/// The bytes of a keyfile follow those of the password; an error in the keyfile
/// stays as it is.
pub proof fn keyfile_follows_password(
    password: Seq<u8>,
    path: Seq<char>,
    content: Result<Seq<char>, Seq<char>>,
)
    ensures
        match crate::vault::keyfile_bytes(path, content) {
            Ok(bytes) => {
                let master = crate::vault::password_with_keyfile(password, path, content);
                &&& master is Ok
                &&& master->Ok_0.len() == password.len() + bytes.len()
                &&& master->Ok_0.subrange(0, password.len() as int) == password
                &&& master->Ok_0.subrange(
                    password.len() as int,
                    (password.len() + bytes.len()) as int,
                ) == bytes
            },
            Err(e) => crate::vault::password_with_keyfile(password, path, content) == Err::<
                Seq<u8>,
                ErrorView,
            >(e),
        },
{
    match crate::vault::keyfile_bytes(path, content) {
        Ok(bytes) => {
            let master = password + bytes;
            assert(master.subrange(0, password.len() as int) =~= password);
            assert(master.subrange(
                password.len() as int,
                (password.len() + bytes.len()) as int,
            ) =~= bytes);
        },
        Err(_) => {},
    }
}

// ---------------------------------------------------------------------------
// The steps
// ---------------------------------------------------------------------------

/// The description comes first: one that is accepted leads on to the password, any
/// other is the end.
pub proof fn description_leads_to_password(
    provider: ProviderView,
    path: Seq<char>,
    info: InfoView,
    e: Seq<char>,
)
    ensures
        ({
            let next = |file: InfoFileView|
                crate::open::next_state(
                    provider,
                    StateView::NeedInfo,
                    EventView::InfoRead { path, file },
                );
            &&& info.kdf_algo == "pbkdf2"@ && info.encryption_algo == "aes-256-cbc"@ ==> next(
                InfoFileView::Parsed(info),
            ) == (StateView::NeedPassword { info })
            &&& info.kdf_algo != "pbkdf2"@ ==> next(InfoFileView::Parsed(info))
                == StateView::Failed(
                crate::laws::plain::api_error(
                    "Unsupported KDF algorithm: "@ + info.kdf_algo,
                    "Only pbkdf2 is supported"@,
                ),
            )
            &&& info.kdf_algo == "pbkdf2"@ && info.encryption_algo != "aes-256-cbc"@ ==> next(
                InfoFileView::Parsed(info),
            ) == StateView::Failed(
                crate::laws::plain::api_error(
                    "Unsupported encryption algorithm: "@ + info.encryption_algo,
                    "Only aes-256-cbc is supported"@,
                ),
            )
            &&& next(InfoFileView::Unreadable(e)) == StateView::Failed(
                crate::laws::plain::api_error(
                    "Failed to read vault info '"@ + path + "': "@ + e,
                    "Check that the vault directory contains vault.json"@,
                ),
            )
            &&& next(InfoFileView::Malformed(e)) == StateView::Failed(
                crate::laws::plain::api_error(
                    "Failed to parse vault.json: "@ + e,
                    "Check that vault.json is valid"@,
                ),
            )
        }),
{
}

/// The password leads on to the keyfile where there is one, and else to the
/// database, with its own bytes as master password.
pub proof fn password_leads_to_keyfile_or_database(
    provider: ProviderView,
    info: InfoView,
    password: Seq<char>,
    other: Option<Seq<char>>,
)
    ensures
        ({
            let next = |event: EventView|
                crate::open::next_state(provider, StateView::NeedPassword { info }, event);
            let first = EventView::PasswordRead { fnox_password: Some(password), password: other };
            let second = EventView::PasswordRead { fnox_password: None, password: Some(password) };
            &&& next(first) == next(second)
            &&& info.has_keyfile == 1 && provider.keyfile_path is Some ==> next(first) == (
            StateView::NeedKeyfile { info, password, path: provider.keyfile_path->0 })
            &&& info.has_keyfile == 1 && provider.keyfile_path is None ==> next(first)
                == StateView::Failed(
                crate::laws::plain::api_error(
                    "Vault requires a keyfile but none was configured"@,
                    "Set keyfile in provider config"@,
                ),
            )
            &&& info.has_keyfile != 1 && provider.keyfile_path is Some ==> next(first)
                == StateView::Failed(
                crate::laws::plain::api_error(
                    "Keyfile configured but vault does not use a keyfile"@,
                    "Remove keyfile from provider config"@,
                ),
            )
            &&& info.has_keyfile != 1 && provider.keyfile_path is None ==> next(first) == (
            StateView::NeedDatabase { info, master_password: vstd::utf8::encode_utf8(password) })
            &&& next(EventView::PasswordRead { fnox_password: None, password: None })
                == StateView::Failed(
                crate::laws::plain::auth_failed(
                    "Vault password not set"@,
                    "Set FNOX_ENPASS_PASSWORD or ENPASS_PASSWORD environment variable"@,
                ),
            )
        }),
{
}

/// The keyfile leads on to the database: its bytes follow those of the password.
pub proof fn keyfile_leads_to_database(
    provider: ProviderView,
    info: InfoView,
    password: Seq<char>,
    path: Seq<char>,
    content: Result<Seq<char>, Seq<char>>,
)
    ensures
        crate::open::next_state(
            provider,
            StateView::NeedKeyfile { info, password, path },
            EventView::KeyfileRead { content },
        ) == match crate::vault::keyfile_bytes(path, content) {
            Ok(bytes) => StateView::NeedDatabase {
                info,
                master_password: vstd::utf8::encode_utf8(password) + bytes,
            },
            Err(e) => StateView::Failed(e),
        },
{
}

/// The first attempt is made in the newer format, with the first 64 hexadecimal
/// digits of what PBKDF2 derives from the master password and the first 16 bytes of
/// the database, in as many rounds as the description says: those of its first 32
/// bytes.
pub proof fn first_attempt_uses_derived_key(
    provider: ProviderView,
    info: InfoView,
    master_password: Seq<u8>,
    path: Seq<char>,
    salt: Seq<u8>,
    rest: Seq<u8>,
)
    requires
        salt.len() == 16,
    ensures
        ({
            let next = crate::open::next_state(
                provider,
                StateView::NeedDatabase { info, master_password },
                EventView::DatabaseRead { path, data: Ok(salt + rest) },
            );
            let derived = crate::crypto::pbkdf2_sha512(master_password, salt, info.kdf_iter, 64);
            &&& next is Trying
            &&& next->Trying_cipher_version == 4
            &&& next->Trying_hex_key == crate::hexcode::encoded(derived).take(64)
            &&& derived.len() == 64 ==> next->Trying_hex_key == crate::hexcode::encoded(
                derived.subrange(0, 32),
            )
        }),
{
    assert((salt + rest).take(16) =~= salt);
    let derived = crate::crypto::pbkdf2_sha512(master_password, salt, info.kdf_iter, 64);
    if derived.len() == 64 {
        assert(crate::hexcode::encoded(derived.subrange(0, 32)) =~= crate::hexcode::encoded(
            derived,
        ).take(64));
    }
}

/// The key of a database is what PBKDF2 derives in as many rounds as asked for.
pub proof fn database_key_is_derived(master: Seq<u8>, salt: Seq<u8>, rounds: u32)
    ensures
        crate::vault::database_key(master, salt, rounds) == crate::hexcode::encoded(
            crate::crypto::pbkdf2_sha512(master, salt, rounds, 64),
        ).take(64),
{
}

/// A database that cannot be read, or is shorter than a salt, is the end.
pub proof fn database_without_salt_is_the_end(
    provider: ProviderView,
    info: InfoView,
    master_password: Seq<u8>,
    path: Seq<char>,
    data: Seq<u8>,
    e: Seq<char>,
)
    ensures
        crate::open::next_state(
            provider,
            StateView::NeedDatabase { info, master_password },
            EventView::DatabaseRead { path, data: Err(e) },
        ) == StateView::Failed(
            crate::laws::plain::api_error(
                "Failed to read vault database '"@ + path + "': "@ + e,
                "Check that the vault directory contains vault.enpassdb"@,
            ),
        ),
        data.len() < 16 ==> crate::open::next_state(
            provider,
            StateView::NeedDatabase { info, master_password },
            EventView::DatabaseRead { path, data: Ok(data) },
        ) == StateView::Failed(
            crate::laws::plain::api_error(
                "Vault database file is too small to contain a salt"@,
                "The vault.enpassdb file may be corrupted"@,
            ),
        ),
{
}

/// An attempt that succeeds opens the database in its format. After one that fails
/// in format 4 the same key is tried in format 3; after any other the vault cannot
/// be unlocked.
pub proof fn attempts_go_from_four_to_three(
    provider: ProviderView,
    hex_key: Seq<char>,
    cipher_version: u8,
)
    ensures
        ({
            let trying = StateView::Trying { hex_key, cipher_version };
            &&& crate::open::next_state(provider, trying, EventView::AttemptSucceeded) == (
            StateView::Opened { cipher_version })
            &&& cipher_version == 4 ==> crate::open::next_state(
                provider,
                trying,
                EventView::AttemptFailed,
            ) == (StateView::Trying { hex_key, cipher_version: 3 })
            &&& cipher_version != 4 ==> crate::open::next_state(
                provider,
                trying,
                EventView::AttemptFailed,
            ) == StateView::Failed(
                crate::laws::plain::auth_failed(
                    "Could not open vault database: invalid password or unsupported version"@,
                    "Check that the password is correct"@,
                ),
            )
        }),
{
}

} // verus!
