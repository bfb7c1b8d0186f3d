//! Texts: case, order, searching, trimming, joining, decimal and hexadecimal
//! digits.
use vstd::prelude::*;

use crate::hexcode::HexError;

verus! {

/// Texts are the same up to case exactly where they have the same length and agree
/// letter by letter.
pub proof fn same_up_to_case_letter_by_letter(a: Seq<char>, b: Seq<char>)
    ensures
        crate::text::same_ignoring_case(a, b) <==> crate::laws::plain::agree(a, b),
{
    let la = crate::text::lowercase(a);
    let lb = crate::text::lowercase(b);
    assert(la.len() == a.len() && lb.len() == b.len());
    if crate::text::same_ignoring_case(a, b) {
        assert forall|i: int| 0 <= i < a.len() implies crate::laws::plain::letters_agree(
            #[trigger] a[i],
            b[i],
        ) by {
            assert(la[i] == crate::text::ascii_lower(a[i]));
            assert(lb[i] == crate::text::ascii_lower(b[i]));
        }
    }
    if crate::laws::plain::agree(a, b) {
        assert forall|i: int| 0 <= i < la.len() implies la[i] == lb[i] by {
            assert(crate::laws::plain::letters_agree(a[i], b[i]));
        }
        assert(la =~= lb);
    }
}

/// Lower case keeps the length, leaves no capital from `A` to `Z`, and agrees with
/// the text letter by letter.
pub proof fn lowercase_has_no_capitals(s: Seq<char>)
    ensures
        crate::laws::plain::agree(crate::text::lowercase(s), s),
        forall|i: int|
            0 <= i < s.len() ==> !('A' <= #[trigger] crate::text::lowercase(s)[i] <= 'Z'),
        forall|i: int|
            0 <= i < s.len() && !('A' <= #[trigger] s[i] <= 'Z') ==> crate::text::lowercase(s)[i]
                == s[i],
{
    assert forall|i: int| 0 <= i < s.len() implies crate::laws::plain::letters_agree(
        #[trigger] crate::text::lowercase(s)[i],
        s[i],
    ) by {
        assert(crate::text::lowercase(s)[i] == crate::text::ascii_lower(s[i]));
    }
    assert forall|i: int| 0 <= i < s.len() implies !('A' <= #[trigger] crate::text::lowercase(s)[i]
        <= 'Z') by {
        assert(crate::text::lowercase(s)[i] == crate::text::ascii_lower(s[i]));
    }
}

/// A text comes before another exactly where it has the smaller code point at the
/// first difference, or is a proper beginning of the other.
pub proof fn order_is_decided_by_first_difference(a: Seq<char>, b: Seq<char>)
    ensures
        crate::text::text_less(a, b) <==> crate::laws::plain::earlier(a, b),
{
    if crate::text::text_less(a, b) {
        let k = choose|k: int| crate::text::precedes_at(a, b, k);
        assert(crate::text::precedes_at(a, b, k));
        assert(a.take(k) =~= b.take(k));
        if k == a.len() {
            assert(a =~= b.take(k));
        }
    }
    if crate::laws::plain::earlier(a, b) {
        if a.len() < b.len() && a == b.take(a.len() as int) {
            assert(crate::text::precedes_at(a, b, a.len() as int));
        } else {
            let k = choose|k: int|
                0 <= k < a.len() && k < b.len() && #[trigger] a.take(k) == b.take(k) && (
                a[k] as int) < (b[k] as int);
            assert forall|i: int| 0 <= i < k implies a[i] == b[i] by {
                assert(a.take(k)[i] == b.take(k)[i]);
            }
            assert(crate::text::precedes_at(a, b, k));
        }
    }
}

/// The sorted list of some texts holds each of them, nothing else, and each once in
/// ascending order.
pub proof fn sorted_list_ascends_and_keeps_members(s: Seq<Seq<char>>)
    ensures
        forall|i: int, j: int|
            0 <= i < j < crate::order::distinct_sorted(s).len() ==> crate::laws::plain::earlier(
                #[trigger] crate::order::distinct_sorted(s)[i],
                #[trigger] crate::order::distinct_sorted(s)[j],
            ),
        forall|x: Seq<char>| #[trigger]
            crate::order::distinct_sorted(s).contains(x) <==> s.contains(x),
{
    crate::order::listing_exists(s);
    let d = crate::order::distinct_sorted(s);
    assert forall|i: int, j: int| 0 <= i < j < d.len() implies crate::laws::plain::earlier(
        #[trigger] d[i],
        #[trigger] d[j],
    ) by {
        assert(crate::text::text_less(d[i], d[j]));
        order_is_decided_by_first_difference(d[i], d[j]);
    }
}

/// Joining no texts gives nothing, joining one gives it alone, and one more text
/// follows after a separator.
pub proof fn joining_puts_separators_between(
    parts: Seq<Seq<char>>,
    part: Seq<char>,
    separator: Seq<char>,
)
    ensures
        crate::text::joined(Seq::empty(), separator) == Seq::<char>::empty(),
        crate::text::joined(seq![part], separator) == part,
        parts.len() > 0 ==> crate::text::joined(parts.push(part), separator)
            == crate::text::joined(parts, separator) + separator + part,
{
    assert(parts.push(part).drop_last() =~= parts);
}

/// The number that decimal digits stand for.
pub open spec fn number_of(digits: Seq<char>) -> int
    decreases digits.len(),
{
    if digits.len() == 0 {
        0
    } else {
        10 * number_of(digits.drop_last()) + (digits[digits.len() - 1] as int - 48)
    }
}

/// A number is written in decimal digits that stand for it, without a leading
/// zero.
pub proof fn decimal_digits_stand_for_the_number(n: nat)
    ensures
        number_of(crate::text::decimal(n)) == n,
        crate::text::decimal(n).len() > 0,
        n > 0 ==> crate::text::decimal(n)[0] != '0',
        n == 0 ==> crate::text::decimal(n).len() == 1,
        forall|i: int|
            0 <= i < crate::text::decimal(n).len() ==> '0' <= #[trigger] crate::text::decimal(n)[i]
                <= '9',
    decreases n,
{
    let d = crate::text::decimal(n);
    if n < 10 {
        assert(d.drop_last() =~= Seq::empty());
        assert(number_of(d.drop_last()) == 0);
        assert(d[0] as int == 48 + n);
    } else {
        decimal_digits_stand_for_the_number(n / 10);
        assert(d.drop_last() =~= crate::text::decimal(n / 10));
        assert(d[d.len() - 1] as int == 48 + n % 10);
        assert forall|i: int| 0 <= i < d.len() implies '0' <= #[trigger] d[i] <= '9' by {
            if i < d.len() - 1 {
                assert(d[i] == crate::text::decimal(n / 10)[i]);
            }
        }
    }
}

/// A text is split at the first place where a pattern stands.
pub proof fn text_is_split_at_first_place(s: Seq<char>, pattern: Seq<char>, i: int)
    requires
        0 <= i,
        i + pattern.len() <= s.len(),
        s.subrange(i, i + pattern.len()) == pattern,
        forall|j: int| 0 <= j < i ==> #[trigger] s.subrange(j, j + pattern.len()) != pattern,
    ensures
        crate::text::before(s, pattern) == s.subrange(0, i),
        crate::text::after(s, pattern) == Some(s.subrange(i + pattern.len(), s.len() as int)),
{
    assert(crate::text::occurs_first_at(s, pattern, i));
    crate::text::first_occurrence_splits(s, pattern, i);
    assert(s.take(i) =~= s.subrange(0, i));
    assert(s.skip(i + pattern.len()) =~= s.subrange(i + pattern.len(), s.len() as int));
}

/// Where a pattern stands nowhere, all of the text precedes it and nothing
/// follows.
pub proof fn text_without_pattern_is_not_split(s: Seq<char>, pattern: Seq<char>)
    requires
        crate::laws::plain::is_absent(s, pattern),
    ensures
        crate::text::before(s, pattern) == s,
        crate::text::after(s, pattern) is None,
{
    if crate::text::occurs(s, pattern) {
        let i = choose|i: int| crate::text::occurs_first_at(s, pattern, i);
        assert(crate::text::occurs_first_at(s, pattern, i));
        assert(s.subrange(i, i + pattern.len()) == pattern);
    }
}

/// White space is what has one of its code points.
pub proof fn white_space_by_code_point(c: char)
    ensures
        crate::text::is_white_space(c) <==> crate::laws::plain::is_blank(c),
{
}

/// Leading white space is trimmed away.
proof fn front_is_trimmed(space: Seq<char>, s: Seq<char>)
    requires
        crate::laws::plain::all_blank(space),
        s.len() > 0 ==> !crate::laws::plain::is_blank(s[0]),
    ensures
        crate::text::trimmed_start(space + s) == s,
    decreases space.len(),
{
    if space.len() == 0 {
        assert(space + s =~= s);
        if s.len() > 0 {
            white_space_by_code_point(s[0]);
        }
    } else {
        assert((space + s).drop_first() =~= space.drop_first() + s);
        assert((space + s)[0] == space[0]);
        white_space_by_code_point(space[0]);
        assert forall|i: int| 0 <= i < space.drop_first().len() implies crate::laws::plain::is_blank(
            #[trigger] space.drop_first()[i],
        ) by {
            assert(space.drop_first()[i] == space[i + 1]);
        }
        front_is_trimmed(space.drop_first(), s);
    }
}

/// Trailing white space is trimmed away.
proof fn back_is_trimmed(s: Seq<char>, space: Seq<char>)
    requires
        crate::laws::plain::all_blank(space),
        s.len() > 0 ==> !crate::laws::plain::is_blank(s[s.len() - 1]),
    ensures
        crate::text::trimmed_end(s + space) == s,
    decreases space.len(),
{
    if space.len() == 0 {
        assert(s + space =~= s);
        if s.len() > 0 {
            white_space_by_code_point(s[s.len() - 1]);
        }
    } else {
        assert((s + space).drop_last() =~= s + space.drop_last());
        assert((s + space).last() == space.last());
        white_space_by_code_point(space[space.len() - 1]);
        back_is_trimmed(s, space.drop_last());
    }
}

/// Trimming leaves what stands between white space.
pub proof fn trimming_leaves_what_stands_between(front: Seq<char>, s: Seq<char>, back: Seq<char>)
    requires
        crate::laws::plain::all_blank(front),
        crate::laws::plain::all_blank(back),
        crate::laws::plain::bare_ends(s),
    ensures
        crate::text::trimmed(front + s + back) == s,
{
    if s.len() == 0 {
        assert(front + s + back =~= (front + back) + s);
        front_is_trimmed(front + back, s);
        back_is_trimmed(s, Seq::empty());
        assert(s + Seq::<char>::empty() =~= s);
    } else {
        assert(front + s + back =~= front + (s + back));
        front_is_trimmed(front, s + back);
        back_is_trimmed(s, back);
    }
}

/// Each byte is written as two lower-case hexadecimal digits, the high half
/// first.
pub proof fn bytes_are_written_as_two_digits(data: Seq<u8>, i: int)
    requires
        0 <= i < data.len(),
    ensures
        crate::hexcode::encoded(data).len() == 2 * data.len(),
        ({
            let high = data[i] as int / 16;
            let low = data[i] as int % 16;
            &&& crate::hexcode::encoded(data)[2 * i] as int == if high < 10 {
                48 + high
            } else {
                87 + high
            }
            &&& crate::hexcode::encoded(data)[2 * i + 1] as int == if low < 10 {
                48 + low
            } else {
                87 + low
            }
        }),
{
}

/// Whether a byte is a hexadecimal digit.
pub open spec fn is_digit(b: u8) -> bool {
    48 <= b <= 57 || 65 <= b <= 70 || 97 <= b <= 102
}

/// What a hexadecimal digit stands for.
pub open spec fn worth(b: u8) -> int {
    if b <= 57 {
        b - 48
    } else if b <= 70 {
        b - 55
    } else {
        b - 87
    }
}

/// Pairs of hexadecimal digits of either case are read as bytes. An odd number of
/// them is refused, and otherwise the first byte that is no digit.
pub proof fn digits_are_read_in_pairs(bytes: Seq<u8>, i: int)
    requires
        0 <= i < bytes.len(),
    ensures
        bytes.len() % 2 == 1 ==> crate::hexcode::decoded(bytes) == Err::<Seq<u8>, HexError>(
            HexError::OddLength,
        ),
        bytes.len() % 2 == 0 && (forall|j: int| 0 <= j < bytes.len() ==> is_digit(#[trigger] bytes[j]))
            ==> {
            &&& crate::hexcode::decoded(bytes) is Ok
            &&& 2 * crate::hexcode::decoded(bytes)->Ok_0.len() == bytes.len()
            &&& i % 2 == 0 ==> crate::hexcode::decoded(bytes)->Ok_0[i / 2] == 16 * worth(bytes[i])
                + worth(bytes[i + 1])
        },
        bytes.len() % 2 == 0 && !is_digit(bytes[i]) && (forall|j: int|
            0 <= j < i ==> is_digit(#[trigger] bytes[j])) && bytes.len() <= usize::MAX ==> {
            &&& crate::hexcode::decoded(bytes) matches Err(HexError::InvalidHexCharacter { c, index })
            &&& c as int == bytes[i]
            &&& index == i
        },
{
    assert forall|j: int| 0 <= j < bytes.len() implies (crate::hexcode::digit_value(
        #[trigger] bytes[j],
    ) is Some <==> is_digit(bytes[j])) && (is_digit(bytes[j]) ==> crate::hexcode::digit_value(
        bytes[j],
    )->0 == worth(bytes[j])) by {}
    if bytes.len() % 2 == 0 && !is_digit(bytes[i]) && (forall|j: int|
        0 <= j < i ==> is_digit(#[trigger] bytes[j])) {
        assert(crate::hexcode::first_bad_digit(bytes, i));
        let k = choose|k: int| crate::hexcode::first_bad_digit(bytes, k);
        assert(crate::hexcode::first_bad_digit(bytes, k));
        if k < i {
            assert(is_digit(bytes[k]));
        }
        if i < k {
            assert(crate::hexcode::digit_value(bytes[i]) is Some);
        }
    }
    if bytes.len() % 2 == 0 && (forall|j: int|
        0 <= j < bytes.len() ==> is_digit(#[trigger] bytes[j])) {
        if exists|k: int| crate::hexcode::first_bad_digit(bytes, k) {
            let k = choose|k: int| crate::hexcode::first_bad_digit(bytes, k);
            assert(is_digit(bytes[k]));
        }
    }
}

/// No digits are no bytes, and a text is read by the bytes of its UTF-8 form.
pub proof fn text_is_read_by_its_bytes(s: Seq<char>)
    ensures
        crate::hexcode::decoded(Seq::empty()) == Ok::<Seq<u8>, HexError>(Seq::empty()),
        crate::hexcode::decoded_text(s) == crate::hexcode::decoded(vstd::utf8::encode_utf8(s)),
{
    let none = Seq::<u8>::empty();
    assert(crate::hexcode::decoded(none)->Ok_0 =~= none);
}

/// What an error in hexadecimal digits reads as.
pub proof fn hexadecimal_errors_read(c: char, index: usize)
    ensures
        crate::hexcode::hex_error_message(HexError::OddLength) == "Odd number of digits"@,
        crate::hexcode::hex_error_message(HexError::InvalidStringLength)
            == "Invalid string length"@,
        crate::hexcode::hex_error_message(HexError::InvalidHexCharacter { c, index })
            == "Invalid character "@ + crate::hexcode::char_debug_text(c) + " at position "@
            + crate::text::decimal(index as nat),
{
}

} // verus!
