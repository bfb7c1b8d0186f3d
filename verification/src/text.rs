//! Texts as sequences of characters: case folding, order, searching, trimming,
//! joining and decimal numbers.
use vstd::prelude::*;

verus! {

// ---------------------------------------------------------------------------
// Views of collections of texts
// ---------------------------------------------------------------------------

/// The characters of each owned text.
pub open spec fn strings(s: Seq<String>) -> Seq<Seq<char>> {
    s.map_values(|t: String| t@)
}

/// The characters of each borrowed text.
pub open spec fn strs(s: Seq<&str>) -> Seq<Seq<char>> {
    s.map_values(|t: &str| t@)
}

/// The characters of an optional owned text.
pub open spec fn optional(s: Option<String>) -> Option<Seq<char>> {
    match s {
        Some(t) => Some(t@),
        None => None,
    }
}

/// `String::push` appends one character to the end of the text.
pub assume_specification[ String::push ](s: &mut String, c: char)
    ensures
        final(s)@ == old(s)@.push(c),
;

// ---------------------------------------------------------------------------
// ASCII case
// ---------------------------------------------------------------------------

/// The ASCII lower-case form of a character: `A` to `Z` become `a` to `z`,
/// every other character stays.
pub open spec fn ascii_lower(c: char) -> char {
    if 'A' <= c && c <= 'Z' {
        ((c as u32) + 32) as char
    } else {
        c
    }
}

/// A text with every character in its ASCII lower-case form.
pub open spec fn lowercase(s: Seq<char>) -> Seq<char> {
    s.map_values(|c: char| ascii_lower(c))
}

/// Whether two texts are the same up to ASCII case.
pub open spec fn same_ignoring_case(a: Seq<char>, b: Seq<char>) -> bool {
    lowercase(a) == lowercase(b)
}

/// The ASCII lower-case form of a character.
pub fn char_to_ascii_lowercase(c: char) -> (r: char)
    ensures
        r == ascii_lower(c),
{
    if 'A' <= c && c <= 'Z' {
        ((c as u8) + 32) as char
    } else {
        c
    }
}

/// The ASCII lower-case form of a text.
pub fn to_ascii_lowercase(s: &str) -> (r: String)
    ensures
        r@ == lowercase(s@),
{
    let mut r = String::new();
    for c in it: s.chars()
        invariant
            r@ == lowercase(s@.take(it.index())),
            it.seq() == s@,
    {
        r.push(char_to_ascii_lowercase(c));
        assert(s@.take(it.index() + 1) == s@.take(it.index()).push(c));
        assert(r@ == lowercase(s@.take(it.index() + 1)));
    }
    assert(s@.take(s@.len() as int) == s@);
    r
}

/// Whether two texts hold the same characters.
pub fn same_text(a: &str, b: &str) -> (r: bool)
    ensures
        r == (a@ == b@),
{
    let mut left = a.chars();
    let mut right = b.chars();
    let ghost mut i: int = 0;
    assert(a@.skip(0) == a@);
    assert(b@.skip(0) == b@);
    loop
        invariant
            0 <= i <= a@.len(),
            i <= b@.len(),
            vstd::std_specs::iter::IteratorSpec::remaining(&left) == a@.skip(i),
            vstd::std_specs::iter::IteratorSpec::remaining(&right) == b@.skip(i),
            forall|j: int| 0 <= j < i ==> a@[j] == b@[j],
        decreases a@.len() - i,
    {
        match (left.next(), right.next()) {
            (None, None) => {
                assert(a@ == b@);
                return true;
            },
            (Some(c), Some(d)) => {
                if c != d {
                    return false;
                }
                assert(a@.skip(i).drop_first() == a@.skip(i + 1));
                assert(b@.skip(i).drop_first() == b@.skip(i + 1));
                proof {
                    i = i + 1;
                }
            },
            _ => {
                return false;
            },
        }
    }
}

/// Whether two texts are the same up to ASCII case.
pub fn eq_ignore_ascii_case(a: &str, b: &str) -> (r: bool)
    ensures
        r == same_ignoring_case(a@, b@),
{
    let mut left = a.chars();
    let mut right = b.chars();
    let ghost mut i: int = 0;
    assert(a@.skip(0) == a@);
    assert(b@.skip(0) == b@);
    loop
        invariant
            0 <= i <= a@.len(),
            i <= b@.len(),
            vstd::std_specs::iter::IteratorSpec::remaining(&left) == a@.skip(i),
            vstd::std_specs::iter::IteratorSpec::remaining(&right) == b@.skip(i),
            forall|j: int| 0 <= j < i ==> lowercase(a@)[j] == lowercase(b@)[j],
        decreases a@.len() - i,
    {
        match (left.next(), right.next()) {
            (None, None) => {
                assert(lowercase(a@) == lowercase(b@));
                return true;
            },
            (Some(c), Some(d)) => {
                if char_to_ascii_lowercase(c) != char_to_ascii_lowercase(d) {
                    assert(lowercase(a@)[i] != lowercase(b@)[i]);
                    return false;
                }
                assert(a@.skip(i).drop_first() == a@.skip(i + 1));
                assert(b@.skip(i).drop_first() == b@.skip(i + 1));
                proof {
                    i = i + 1;
                }
            },
            _ => {
                assert(lowercase(a@).len() != lowercase(b@).len());
                return false;
            },
        }
    }
}

// ---------------------------------------------------------------------------
// Lexicographic order
// ---------------------------------------------------------------------------

/// Whether `a` and `b` agree on the first `k` characters and `a` comes first at
/// position `k`: it ends there, or its character has the smaller code point.
pub open spec fn precedes_at(a: Seq<char>, b: Seq<char>, k: int) -> bool {
    &&& 0 <= k <= a.len()
    &&& k < b.len()
    &&& forall|i: int| 0 <= i < k ==> a[i] == b[i]
    &&& k == a.len() || a[k] < b[k]
}

/// The lexicographic order of texts by code points.
pub open spec fn text_less(a: Seq<char>, b: Seq<char>) -> bool {
    exists|k: int| precedes_at(a, b, k)
}

/// The order of texts is strict: no text comes before itself, and of two texts
/// at most one comes before the other.
pub proof fn text_less_asymmetric(a: Seq<char>, b: Seq<char>)
    ensures
        !(text_less(a, b) && text_less(b, a)),
        !text_less(a, a),
{
    if text_less(a, b) && text_less(b, a) {
        let j = choose|k: int| precedes_at(a, b, k);
        let k = choose|k: int| precedes_at(b, a, k);
        assert(precedes_at(a, b, j) && precedes_at(b, a, k));
    }
    if text_less(a, a) {
        let k = choose|k: int| precedes_at(a, a, k);
        assert(precedes_at(a, a, k));
    }
}

/// The order of texts is transitive.
pub proof fn text_less_transitive(a: Seq<char>, b: Seq<char>, c: Seq<char>)
    requires
        text_less(a, b),
        text_less(b, c),
    ensures
        text_less(a, c),
{
    let j = choose|k: int| precedes_at(a, b, k);
    let k = choose|k: int| precedes_at(b, c, k);
    assert(precedes_at(a, b, j) && precedes_at(b, c, k));
    let m = if j <= k {
        j
    } else {
        k
    };
    assert(precedes_at(a, c, m));
}

/// Of two different texts one comes before the other.
pub proof fn text_less_total(a: Seq<char>, b: Seq<char>)
    ensures
        a == b || text_less(a, b) || text_less(b, a),
{
    text_less_total_from(a, b, 0);
}

/// Two texts that agree up to `k` are the same or come one before the other.
proof fn text_less_total_from(a: Seq<char>, b: Seq<char>, k: int)
    requires
        0 <= k <= a.len(),
        k <= b.len(),
        forall|i: int| 0 <= i < k ==> a[i] == b[i],
    ensures
        a == b || text_less(a, b) || text_less(b, a),
    decreases a.len() - k,
{
    if k == a.len() && k == b.len() {
        assert(a =~= b);
    } else if k == a.len() {
        assert(precedes_at(a, b, k));
    } else if k == b.len() {
        assert(precedes_at(b, a, k));
    } else if a[k] < b[k] {
        assert(precedes_at(a, b, k));
    } else if b[k] < a[k] {
        assert(precedes_at(b, a, k));
    } else {
        text_less_total_from(a, b, k + 1);
    }
}

/// Whether the first text comes before the second in lexicographic order.
pub fn comes_before(a: &str, b: &str) -> (r: bool)
    ensures
        r == text_less(a@, b@),
{
    let mut left = a.chars();
    let mut right = b.chars();
    let ghost mut i: int = 0;
    assert(a@.skip(0) == a@);
    assert(b@.skip(0) == b@);
    proof {
        text_less_asymmetric(a@, b@);
    }
    loop
        invariant
            0 <= i <= a@.len(),
            i <= b@.len(),
            vstd::std_specs::iter::IteratorSpec::remaining(&left) == a@.skip(i),
            vstd::std_specs::iter::IteratorSpec::remaining(&right) == b@.skip(i),
            forall|j: int| 0 <= j < i ==> a@[j] == b@[j],
            !(text_less(a@, b@) && text_less(b@, a@)),
            !text_less(a@, a@),
        decreases a@.len() - i,
    {
        match (left.next(), right.next()) {
            (None, None) => {
                assert(a@ == b@);
                return false;
            },
            (None, Some(_)) => {
                assert(precedes_at(a@, b@, i));
                return true;
            },
            (Some(_), None) => {
                assert(precedes_at(b@, a@, i));
                return false;
            },
            (Some(c), Some(d)) => {
                if c < d {
                    assert(precedes_at(a@, b@, i));
                    return true;
                }
                if d < c {
                    assert(precedes_at(b@, a@, i));
                    return false;
                }
                assert(a@.skip(i).drop_first() == a@.skip(i + 1));
                assert(b@.skip(i).drop_first() == b@.skip(i + 1));
                proof {
                    i = i + 1;
                }
            },
        }
    }
}

// ---------------------------------------------------------------------------
// Characters of a text, joining and decimal numbers
// ---------------------------------------------------------------------------

/// The characters of a text as a vector.
pub fn chars_of(s: &str) -> (r: Vec<char>)
    ensures
        r@ == s@,
{
    let mut r: Vec<char> = Vec::new();
    for c in it: s.chars()
        invariant
            r@ == s@.take(it.index()),
            it.seq() == s@,
    {
        r.push(c);
        assert(s@.take(it.index() + 1) == s@.take(it.index()).push(c));
    }
    assert(s@.take(s@.len() as int) == s@);
    r
}

/// A text without the character `c`.
pub fn without_char(s: &str, c: char) -> (r: String)
    ensures
        r@ == s@.filter(|d: char| d != c),
{
    let ghost keep = |d: char| d != c;
    let mut r = String::new();
    proof {
        reveal(Seq::filter);
        assert(s@.take(0) =~= Seq::<char>::empty());
    }
    for d in it: s.chars()
        invariant
            r@ == s@.take(it.index()).filter(keep),
            it.seq() == s@,
            keep == (|d: char| d != c),
    {
        if d != c {
            r.push(d);
        }
        proof {
            reveal(Seq::filter);
            assert(s@.take(it.index() + 1).drop_last() == s@.take(it.index()));
            assert(s@.take(it.index() + 1).last() == d);
        }
    }
    assert(s@.take(s@.len() as int) == s@);
    r
}

/// The texts one after the other, with the separator between neighbours.
pub open spec fn joined(parts: Seq<Seq<char>>, separator: Seq<char>) -> Seq<char>
    decreases parts.len(),
{
    if parts.len() == 0 {
        Seq::empty()
    } else if parts.len() == 1 {
        parts[0]
    } else {
        joined(parts.drop_last(), separator) + separator + parts.last()
    }
}

/// Joins texts with a separator between neighbours.
pub fn join(parts: &Vec<String>, separator: &str) -> (r: String)
    ensures
        r@ == joined(strings(parts@), separator@),
{
    let ghost all = strings(parts@);
    let mut r = String::new();
    let mut i: usize = 0;
    assert(all.take(0) =~= Seq::<Seq<char>>::empty());
    while i < parts.len()
        invariant
            i <= parts.len(),
            all == strings(parts@),
            r@ == joined(all.take(i as int), separator@),
        decreases parts.len() - i,
    {
        if i > 0 {
            r.append(separator);
        }
        r.append(parts[i].as_str());
        proof {
            let next = all.take(i + 1);
            assert(next.drop_last() == all.take(i as int));
            assert(next.last() == parts[i as int]@);
            if i == 0 {
                assert(Seq::<char>::empty() + next[0] =~= next[0]);
            }
        }
        i = i + 1;
    }
    assert(all.take(all.len() as int) == all);
    r
}

/// The decimal digits of a number.
pub open spec fn decimal(n: nat) -> Seq<char>
    decreases n,
{
    if n < 10 {
        seq![(48 + n) as char]
    } else {
        decimal(n / 10).push((48 + n % 10) as char)
    }
}

/// Writes a number in decimal.
pub fn decimal_text(n: usize) -> (r: String)
    ensures
        r@ == decimal(n as nat),
    decreases n,
{
    if n < 10 {
        let mut r = String::new();
        r.push((48u8 + n as u8) as char);
        assert(r@ =~= decimal(n as nat));
        r
    } else {
        let mut r = decimal_text(n / 10);
        r.push((48u8 + (n % 10) as u8) as char);
        r
    }
}

// ---------------------------------------------------------------------------
// Searching and trimming
// ---------------------------------------------------------------------------

/// Whether `pattern` stands in `s` at position `i`.
pub open spec fn occurs_at(s: Seq<char>, pattern: Seq<char>, i: int) -> bool {
    &&& 0 <= i
    &&& i + pattern.len() <= s.len()
    &&& s.subrange(i, i + pattern.len()) == pattern
}

/// Whether `i` is the first position at which `pattern` stands in `s`.
pub open spec fn occurs_first_at(s: Seq<char>, pattern: Seq<char>, i: int) -> bool {
    &&& occurs_at(s, pattern, i)
    &&& forall|j: int| 0 <= j < i ==> !occurs_at(s, pattern, j)
}

/// Whether `pattern` stands anywhere in `s`.
pub open spec fn occurs(s: Seq<char>, pattern: Seq<char>) -> bool {
    exists|i: int| occurs_first_at(s, pattern, i)
}

/// What precedes the first occurrence of `pattern` in `s`, or all of `s` where
/// there is none.
pub open spec fn before(s: Seq<char>, pattern: Seq<char>) -> Seq<char> {
    if occurs(s, pattern) {
        s.take(choose|i: int| occurs_first_at(s, pattern, i))
    } else {
        s
    }
}

/// What follows the first occurrence of `pattern` in `s`, if there is one.
pub open spec fn after(s: Seq<char>, pattern: Seq<char>) -> Option<Seq<char>> {
    if occurs(s, pattern) {
        Some(s.skip((choose|i: int| occurs_first_at(s, pattern, i)) + pattern.len()))
    } else {
        None
    }
}

/// The first occurrence of a pattern splits a text in exactly one way.
pub proof fn first_occurrence_splits(s: Seq<char>, pattern: Seq<char>, i: int)
    requires
        occurs_first_at(s, pattern, i),
    ensures
        before(s, pattern) == s.take(i),
        after(s, pattern) == Some(s.skip(i + pattern.len())),
{
    let k = choose|k: int| occurs_first_at(s, pattern, k);
    assert(occurs_first_at(s, pattern, k));
    assert(k == i);
}

/// A pattern that stands somewhere has a first place where it stands.
pub proof fn first_occurrence_exists(s: Seq<char>, pattern: Seq<char>, i: int)
    requires
        occurs_at(s, pattern, i),
    ensures
        occurs(s, pattern),
    decreases i,
{
    if exists|j: int| 0 <= j < i && occurs_at(s, pattern, j) {
        let j = choose|j: int| 0 <= j < i && occurs_at(s, pattern, j);
        first_occurrence_exists(s, pattern, j);
    } else {
        assert(occurs_first_at(s, pattern, i));
    }
}

/// Whether `pattern` stands in `s` at position `at`.
fn stands_at(s: &Vec<char>, pattern: &Vec<char>, at: usize) -> (r: bool)
    requires
        at + pattern.len() <= s.len(),
    ensures
        r == occurs_at(s@, pattern@, at as int),
{
    let mut k: usize = 0;
    while k < pattern.len()
        invariant
            at + pattern.len() <= s.len(),
            k <= pattern.len(),
            forall|j: int| 0 <= j < k ==> s@[at + j] == pattern@[j],
        decreases pattern.len() - k,
    {
        if s[at + k] != pattern[k] {
            assert(s@.subrange(at as int, at + pattern.len())[k as int] != pattern@[k as int]);
            return false;
        }
        k = k + 1;
    }
    assert(s@.subrange(at as int, at + pattern.len()) =~= pattern@);
    true
}

/// The first position at which `pattern` stands in `s`.
fn find(s: &Vec<char>, pattern: &Vec<char>) -> (r: Option<usize>)
    ensures
        match r {
            Some(i) => occurs_first_at(s@, pattern@, i as int),
            None => !occurs(s@, pattern@),
        },
{
    if pattern.len() > s.len() {
        return None;
    }
    let last: usize = s.len() - pattern.len();
    let mut i: usize = 0;
    while i < last
        invariant
            last == s.len() - pattern.len(),
            i <= last,
            forall|j: int| 0 <= j < i ==> !occurs_at(s@, pattern@, j),
        decreases last - i,
    {
        if stands_at(s, pattern, i) {
            return Some(i);
        }
        i = i + 1;
    }
    if stands_at(s, pattern, last) {
        return Some(last);
    }
    None
}

/// What precedes the first occurrence of `pattern`, or all of the text.
pub fn before_first<'a>(s: &'a str, pattern: &str) -> (r: &'a str)
    ensures
        r@ == before(s@, pattern@),
{
    let chars = chars_of(s);
    let wanted = chars_of(pattern);
    match find(&chars, &wanted) {
        Some(i) => {
            proof {
                first_occurrence_splits(s@, pattern@, i as int);
            }
            assert(s@.subrange(0, i as int) == s@.take(i as int));
            s.substring_char(0, i)
        },
        None => s,
    }
}

/// What follows the first occurrence of `pattern`, if there is one.
pub fn after_first<'a>(s: &'a str, pattern: &str) -> (r: Option<&'a str>)
    ensures
        match r {
            Some(rest) => after(s@, pattern@) == Some(rest@),
            None => after(s@, pattern@) is None,
        },
{
    let chars = chars_of(s);
    let wanted = chars_of(pattern);
    match find(&chars, &wanted) {
        Some(i) => {
            proof {
                first_occurrence_splits(s@, pattern@, i as int);
            }
            let to: usize = chars.len();
            let from: usize = i + wanted.len();
            assert(s@.subrange(from as int, s@.len() as int) == s@.skip(from as int));
            Some(s.substring_char(from, to))
        },
        None => None,
    }
}

/// The characters with the Unicode property `White_Space`.
pub open spec fn is_white_space(c: char) -> bool {
    ||| '\u{9}' <= c <= '\u{d}'
    ||| c == '\u{20}'
    ||| c == '\u{85}'
    ||| c == '\u{a0}'
    ||| c == '\u{1680}'
    ||| '\u{2000}' <= c <= '\u{200a}'
    ||| c == '\u{2028}'
    ||| c == '\u{2029}'
    ||| c == '\u{202f}'
    ||| c == '\u{205f}'
    ||| c == '\u{3000}'
}

/// Whether a character has the Unicode property `White_Space`.
pub fn is_whitespace(c: char) -> (r: bool)
    ensures
        r == is_white_space(c),
{
    ('\u{9}' <= c && c <= '\u{d}') || c == '\u{20}' || c == '\u{85}' || c == '\u{a0}' || c
        == '\u{1680}' || ('\u{2000}' <= c && c <= '\u{200a}') || c == '\u{2028}' || c == '\u{2029}'
        || c == '\u{202f}' || c == '\u{205f}' || c == '\u{3000}'
}

/// A text without its leading white space.
pub open spec fn trimmed_start(s: Seq<char>) -> Seq<char>
    decreases s.len(),
{
    if s.len() > 0 && is_white_space(s[0]) {
        trimmed_start(s.drop_first())
    } else {
        s
    }
}

/// A text without its trailing white space.
pub open spec fn trimmed_end(s: Seq<char>) -> Seq<char>
    decreases s.len(),
{
    if s.len() > 0 && is_white_space(s.last()) {
        trimmed_end(s.drop_last())
    } else {
        s
    }
}

/// A text without leading and trailing white space.
pub open spec fn trimmed(s: Seq<char>) -> Seq<char> {
    trimmed_end(trimmed_start(s))
}

/// Removes leading and trailing white space.
pub fn trim<'a>(s: &'a str) -> (r: &'a str)
    ensures
        r@ == trimmed(s@),
{
    let chars = chars_of(s);
    let n: usize = chars.len();
    let mut from: usize = 0;
    assert(s@.skip(0) == s@);
    while from < n && is_whitespace(chars[from])
        invariant
            from <= n,
            n == chars.len(),
            chars@ == s@,
            trimmed_start(s@) == trimmed_start(s@.skip(from as int)),
        decreases n - from,
    {
        assert(s@.skip(from as int).drop_first() == s@.skip(from + 1));
        from = from + 1;
    }
    let ghost start = s@.skip(from as int);
    assert(trimmed_start(s@) == start);
    let mut to: usize = n;
    assert(s@.subrange(from as int, n as int) == start);
    while to > from && is_whitespace(chars[to - 1])
        invariant
            from <= to <= n,
            n == chars.len(),
            chars@ == s@,
            start == s@.skip(from as int),
            trimmed_end(start) == trimmed_end(s@.subrange(from as int, to as int)),
        decreases to,
    {
        assert(s@.subrange(from as int, to as int).drop_last() == s@.subrange(
            from as int,
            to - 1,
        ));
        to = to - 1;
    }
    s.substring_char(from, to)
}

} // verus!
