//! Opening: keyfiles, passwords, and the order of attempts.
use vstd::prelude::*;

use crate::error::ErrorView;
use crate::open::{EventView, StateView, NEWER_CIPHER, OLDER_CIPHER};
use crate::provider::ProviderView;
use crate::vault::{InfoFileView, InfoView, SALT_LENGTH};

verus! {

/// Once the database is open, or cannot be opened, nothing changes any more.
pub proof fn end_of_opening_is_final(provider: ProviderView, state: StateView, event: EventView)
    requires
        state is Opened || state is Failed,
    ensures
        crate::open::next_state(provider, state, event) == state,
{
}

/// Whether an event is what a state wants.
pub open spec fn is_wanted(state: StateView, event: EventView) -> bool {
    match state {
        StateView::NeedInfo => event is InfoRead,
        StateView::NeedPassword { .. } => event is PasswordRead,
        StateView::NeedKeyfile { .. } => event is KeyfileRead,
        StateView::NeedDatabase { .. } => event is DatabaseRead,
        StateView::Trying { .. } => event is AttemptSucceeded || event is AttemptFailed,
        StateView::Opened { .. } | StateView::Failed(_) => false,
    }
}

/// How many events may be wanted from a state on.
pub open spec fn steps_left(state: StateView) -> nat {
    match state {
        StateView::NeedInfo => 6,
        StateView::NeedPassword { .. } => 5,
        StateView::NeedKeyfile { .. } => 4,
        StateView::NeedDatabase { .. } => 3,
        StateView::Trying { cipher_version, .. } => if cipher_version == NEWER_CIPHER {
            2
        } else {
            1
        },
        StateView::Opened { .. } | StateView::Failed(_) => 0,
    }
}

/// Opening comes to an end: each event that is wanted leaves fewer to come, and
/// an event that is not wanted changes nothing.
pub proof fn opening_ends(provider: ProviderView, state: StateView, event: EventView)
    ensures
        is_wanted(state, event) ==> steps_left(crate::open::next_state(provider, state, event))
            < steps_left(state),
        !is_wanted(state, event) ==> crate::open::next_state(provider, state, event) == state,
        steps_left(state) == 0 <==> state is Opened || state is Failed,
{
}

/// A database counts as open only after an attempt that succeeded, in the format
/// of that attempt.
pub proof fn only_a_successful_attempt_opens(
    provider: ProviderView,
    state: StateView,
    event: EventView,
)
    requires
        state !is Opened,
        crate::open::next_state(provider, state, event) is Opened,
    ensures
        state is Trying,
        event is AttemptSucceeded,
        crate::open::next_state(provider, state, event) == (StateView::Opened {
            cipher_version: state->Trying_cipher_version,
        }),
{
}

/// The newer format is tried first and then the older one, with the same key.
/// Whichever opens the database is the one that is used; where neither does, the
/// vault cannot be unlocked.
pub proof fn formats_are_tried_newer_first(
    provider: ProviderView,
    info: InfoView,
    master_password: Seq<u8>,
    path: Seq<char>,
    data: Seq<u8>,
)
    requires
        data.len() >= SALT_LENGTH,
    ensures
        ({
            let key = crate::vault::database_key(
                master_password,
                data.take(SALT_LENGTH as int),
                info.kdf_iter,
            );
            let first = StateView::Trying { hex_key: key, cipher_version: NEWER_CIPHER };
            let second = StateView::Trying { hex_key: key, cipher_version: OLDER_CIPHER };
            &&& crate::open::next_state(
                provider,
                StateView::NeedDatabase { info, master_password },
                EventView::DatabaseRead { path, data: Ok(data) },
            ) == first
            &&& crate::open::next_state(provider, first, EventView::AttemptSucceeded)
                == StateView::Opened { cipher_version: NEWER_CIPHER }
            &&& crate::open::next_state(provider, first, EventView::AttemptFailed) == second
            &&& crate::open::next_state(provider, second, EventView::AttemptSucceeded)
                == StateView::Opened { cipher_version: OLDER_CIPHER }
            &&& crate::open::next_state(provider, second, EventView::AttemptFailed)
                == StateView::Failed(crate::open::cannot_open())
        }),
{
}

/// The password of the first variable is used wherever there is one, and that of
/// the second otherwise.
pub proof fn first_password_wins(first: Seq<char>, second: Option<Seq<char>>)
    ensures
        crate::provider::password_outcome(Some(first), second) == Ok::<Seq<char>, ErrorView>(first),
        second matches Some(p) ==> crate::provider::password_outcome(None, second) == Ok::<
            Seq<char>,
            ErrorView,
        >(p),
        second is None ==> crate::provider::password_outcome(None, second) is Err,
{
}

/// There is a master password exactly where the vault and the configuration
/// agree on whether there is a keyfile.
pub proof fn vault_and_configuration_must_agree_on_keyfile(
    provider: ProviderView,
    password: Seq<u8>,
    info: InfoView,
)
    ensures
        crate::vault::master_password(provider, password, info) is Ok <==> (info.has_keyfile == 1
            <==> provider.keyfile_path is Some),
{
}

/// A vault without a keyfile: the description, the password and the database lead
/// to the first attempt, with a key that comes from the bytes of the password.
pub proof fn vault_without_keyfile_is_tried(
    provider: ProviderView,
    info_path: Seq<char>,
    info: InfoView,
    password: Seq<char>,
    other: Option<Seq<char>>,
    db_path: Seq<char>,
    data: Seq<u8>,
)
    requires
        info.kdf_algo == "pbkdf2"@,
        info.encryption_algo == "aes-256-cbc"@,
        info.has_keyfile != 1,
        provider.keyfile_path is None,
        data.len() >= SALT_LENGTH,
    ensures
        ({
            let described = crate::open::next_state(
                provider,
                StateView::NeedInfo,
                EventView::InfoRead { path: info_path, file: InfoFileView::Parsed(info) },
            );
            let unlocked = crate::open::next_state(
                provider,
                described,
                EventView::PasswordRead { fnox_password: Some(password), password: other },
            );
            crate::open::next_state(
                provider,
                unlocked,
                EventView::DatabaseRead { path: db_path, data: Ok(data) },
            ) == StateView::Trying {
                hex_key: crate::vault::database_key(
                    vstd::utf8::encode_utf8(password),
                    data.take(SALT_LENGTH as int),
                    info.kdf_iter,
                ),
                cipher_version: NEWER_CIPHER,
            }
        }),
{
}

/// A vault with a keyfile: the bytes of the keyfile come after those of the
/// password.
pub proof fn vault_with_keyfile_is_tried(
    provider: ProviderView,
    info_path: Seq<char>,
    info: InfoView,
    password: Seq<char>,
    other: Option<Seq<char>>,
    keyfile: Seq<char>,
    content: Seq<char>,
    key: Seq<u8>,
    db_path: Seq<char>,
    data: Seq<u8>,
)
    requires
        info.kdf_algo == "pbkdf2"@,
        info.encryption_algo == "aes-256-cbc"@,
        info.has_keyfile == 1,
        provider.keyfile_path == Some(keyfile),
        crate::vault::keyfile_bytes(keyfile, Ok(content)) == Ok::<Seq<u8>, ErrorView>(key),
        data.len() >= SALT_LENGTH,
    ensures
        ({
            let described = crate::open::next_state(
                provider,
                StateView::NeedInfo,
                EventView::InfoRead { path: info_path, file: InfoFileView::Parsed(info) },
            );
            let locked = crate::open::next_state(
                provider,
                described,
                EventView::PasswordRead { fnox_password: Some(password), password: other },
            );
            let unlocked = crate::open::next_state(
                provider,
                locked,
                EventView::KeyfileRead { content: Ok(content) },
            );
            &&& locked == StateView::NeedKeyfile { info, password, path: keyfile }
            &&& crate::open::next_state(
                provider,
                unlocked,
                EventView::DatabaseRead { path: db_path, data: Ok(data) },
            ) == StateView::Trying {
                hex_key: crate::vault::database_key(
                    vstd::utf8::encode_utf8(password) + key,
                    data.take(SALT_LENGTH as int),
                    info.kdf_iter,
                ),
                cipher_version: NEWER_CIPHER,
            }
        }),
{
}

// ---------------------------------------------------------------------------
// Keyfiles
// ---------------------------------------------------------------------------

/// Whether a text consists of white space.
pub open spec fn blank(s: Seq<char>) -> bool {
    forall|i: int| 0 <= i < s.len() ==> crate::text::is_white_space(#[trigger] s[i])
}

/// White space in front is trimmed away, up to what is no white space.
proof fn blank_start_is_trimmed(space: Seq<char>, s: Seq<char>)
    requires
        blank(space),
        s.len() > 0 ==> !crate::text::is_white_space(s[0]),
    ensures
        crate::text::trimmed_start(space + s) == s,
    decreases space.len(),
{
    if space.len() == 0 {
        assert(space + s =~= s);
    } else {
        assert((space + s).drop_first() =~= space.drop_first() + s);
        assert((space + s)[0] == space[0]);
        blank_start_is_trimmed(space.drop_first(), s);
    }
}

/// White space at the end is trimmed away, down to what is no white space.
proof fn blank_end_is_trimmed(s: Seq<char>, space: Seq<char>)
    requires
        blank(space),
        s.len() > 0 ==> !crate::text::is_white_space(s.last()),
    ensures
        crate::text::trimmed_end(s + space) == s,
    decreases space.len(),
{
    if space.len() == 0 {
        assert(s + space =~= s);
    } else {
        assert((s + space).drop_last() =~= s + space.drop_last());
        assert((s + space).last() == space.last());
        blank_end_is_trimmed(s, space.drop_last());
    }
}

/// A text between white space, without any at its ends, is what trimming leaves.
proof fn blank_ends_are_trimmed(front: Seq<char>, s: Seq<char>, back: Seq<char>)
    requires
        blank(front),
        blank(back),
        s.len() > 0 ==> !crate::text::is_white_space(s[0]) && !crate::text::is_white_space(s.last()),
    ensures
        crate::text::trimmed(front + s + back) == s,
{
    if s.len() == 0 {
        assert(front + s + back =~= (front + back) + s);
        blank_start_is_trimmed(front + back, s);
    } else {
        assert(front + s + back =~= front + (s + back));
        blank_start_is_trimmed(front, s + back);
        blank_end_is_trimmed(s, back);
    }
}

/// The key of a keyfile reads back: hexadecimal digits in the first `<key>`
/// element, with white space around them or without, are the bytes that they
/// were written from.
pub proof fn keyfile_reads_back(
    path: Seq<char>,
    header: Seq<char>,
    front: Seq<char>,
    key: Seq<u8>,
    back: Seq<char>,
    rest: Seq<char>,
)
    requires
        forall|i: int| !crate::text::occurs_at(header, "<key>"@, i),
        blank(front),
        blank(back),
    ensures
        crate::vault::keyfile_bytes(
            path,
            Ok(
                header + "<key>"@ + front + crate::hexcode::encoded(key) + back + "</key>"@ + rest,
            ),
        ) == Ok::<Seq<u8>, ErrorView>(key),
{
    let open = "<key>"@;
    let close = "</key>"@;
    reveal_strlit("<key>");
    reveal_strlit("</key>");
    let digits = crate::hexcode::encoded(key);
    let inner = front + digits + back;
    let content = header + open + front + digits + back + close + rest;
    let tail = inner + close + rest;
    let n = header.len() as int;
    assert(content =~= header + open + tail);

    // The first opening tag follows the header.
    assert(content.subrange(n, n + 5) =~= open);
    assert forall|j: int| 0 <= j < n implies !crate::text::occurs_at(content, open, j) by {
        if crate::text::occurs_at(content, open, j) {
            if j + 5 <= n {
                assert(header.subrange(j, j + 5) =~= content.subrange(j, j + 5));
                assert(crate::text::occurs_at(header, open, j));
            } else {
                assert(content.subrange(j, j + 5)[n - j] == content[n]);
                assert(content[n] == '<');
                assert(open[n - j] != '<');
            }
        }
    }
    crate::text::first_occurrence_splits(content, open, n);
    assert(content.skip(n + 5) =~= tail);

    // Neither tag stands in the digits and the white space.
    assert forall|i: int| 0 <= i < inner.len() implies #[trigger] inner[i] != '<' by {
        if i < front.len() {
            assert(inner[i] == front[i]);
        } else if i < front.len() + digits.len() {
            assert(inner[i] == digits[i - front.len()]);
        } else {
            assert(inner[i] == back[i - front.len() - digits.len()]);
        }
    }
    let m = inner.len() as int;
    let piece = crate::text::before(tail, open);
    // A closing tag stands right after them, and the next opening tag later.
    assert(piece.len() >= m + 6 && piece.subrange(0, m + 6) =~= tail.subrange(0, m + 6)) by {
        if crate::text::occurs(tail, open) {
            let k = choose|k: int| crate::text::occurs_first_at(tail, open, k);
            assert(crate::text::occurs_first_at(tail, open, k));
            assert(tail.subrange(k, k + 5)[0] == tail[k]);
            assert(tail.subrange(k, k + 5)[1] == tail[k + 1]);
            if k < m {
                assert(tail[k] == inner[k]);
            } else if k < m + 6 {
                assert(tail[k] == close[k - m]);
                if k == m {
                    assert(tail[k + 1] == close[1]);
                }
            }
        }
    }
    assert(piece.subrange(m, m + 6) =~= close) by {
        assert forall|i: int| 0 <= i < 6 implies piece.subrange(m, m + 6)[i] == close[i] by {
            assert(piece.subrange(0, m + 6)[m + i] == tail.subrange(0, m + 6)[m + i]);
        }
    }
    assert forall|j: int| 0 <= j < m implies !crate::text::occurs_at(piece, close, j) by {
        if crate::text::occurs_at(piece, close, j) {
            assert(piece.subrange(j, j + 6)[0] == piece[j]);
            assert(piece.subrange(0, m + 6)[j] == tail.subrange(0, m + 6)[j]);
            assert(tail[j] == inner[j]);
        }
    }
    crate::text::first_occurrence_splits(piece, close, m);
    assert(piece.take(m) =~= inner) by {
        assert forall|i: int| 0 <= i < m implies piece.take(m)[i] == inner[i] by {
            assert(piece.subrange(0, m + 6)[i] == tail.subrange(0, m + 6)[i]);
        }
    }
    blank_ends_are_trimmed(front, digits, back);
    crate::hexcode::decode_undoes_encode(key);
}

/// A text without an opening tag is no keyfile.
pub proof fn keyfile_needs_a_key_element(path: Seq<char>, content: Seq<char>)
    requires
        forall|i: int| !crate::text::occurs_at(content, "<key>"@, i),
    ensures
        crate::vault::keyfile_bytes(path, Ok(content)) == Err::<Seq<u8>, ErrorView>(
            crate::error::api_failure(
                "Invalid keyfile format: missing <key> element"@,
                "The keyfile should be an XML file with a <key> element containing hex bytes"@,
            ),
        ),
{
}

} // verus!
