//! Texts in ascending order without repetitions.
use vstd::prelude::*;

use crate::text::{comes_before, same_text};

verus! {

/// Whether each text comes before those that follow it.
pub open spec fn ascending(s: Seq<Seq<char>>) -> bool {
    forall|i: int, j: int|
        0 <= i < j < s.len() ==> crate::text::text_less(#[trigger] s[i], #[trigger] s[j])
}

/// Whether the same texts occur in both sequences, however often.
pub open spec fn same_members(a: Seq<Seq<char>>, b: Seq<Seq<char>>) -> bool {
    forall|x: Seq<char>| #[trigger] a.contains(x) <==> b.contains(x)
}

/// Whether `r` lists the texts of `s` once each, in ascending order.
pub open spec fn lists(r: Seq<Seq<char>>, s: Seq<Seq<char>>) -> bool {
    ascending(r) && same_members(r, s)
}

/// The texts of `s` once each, in ascending order.
pub open spec fn distinct_sorted(s: Seq<Seq<char>>) -> Seq<Seq<char>> {
    choose|r: Seq<Seq<char>>| lists(r, s)
}

/// Ascending sequences with the same texts are the same.
proof fn ascending_unique(a: Seq<Seq<char>>, b: Seq<Seq<char>>)
    requires
        ascending(a),
        ascending(b),
        same_members(a, b),
    ensures
        a == b,
    decreases a.len(),
{
    if a.len() == 0 {
        if b.len() > 0 {
            assert(b.contains(b[0]));
            assert(a.contains(b[0]));
        }
        assert(a =~= b);
    } else {
        assert(a.contains(a.last()));
        assert(b.contains(a.last()));
        assert(b.len() > 0);
        assert(b.contains(b.last()));
        assert(a.contains(b.last()));
        let i = choose|i: int| 0 <= i < a.len() && a[i] == b.last();
        let j = choose|j: int| 0 <= j < b.len() && b[j] == a.last();
        if i < a.len() - 1 && j < b.len() - 1 {
            assert(crate::text::text_less(a[i], a[a.len() - 1]));
            assert(crate::text::text_less(b[j], b[b.len() - 1]));
            crate::text::text_less_asymmetric(a[i], b[j]);
        }
        assert(a.last() == b.last());
        let x = a.last();
        let p = a.drop_last();
        let q = b.drop_last();
        assert forall|y: Seq<char>| #[trigger] p.contains(y) <==> q.contains(y) by {
            if p.contains(y) {
                let k = choose|k: int| 0 <= k < p.len() && p[k] == y;
                assert(crate::text::text_less(a[k], a[a.len() - 1]));
                crate::text::text_less_asymmetric(x, x);
                assert(a.contains(a[k]));
                let m = choose|m: int| 0 <= m < b.len() && b[m] == y;
                assert(q[m] == y);
            }
            if q.contains(y) {
                let k = choose|k: int| 0 <= k < q.len() && q[k] == y;
                assert(crate::text::text_less(b[k], b[b.len() - 1]));
                crate::text::text_less_asymmetric(x, x);
                assert(b.contains(b[k]));
                assert(a.contains(y));
                let m = choose|m: int| 0 <= m < a.len() && a[m] == y;
                assert(p[m] == y);
            }
        }
        ascending_unique(p, q);
        assert(a =~= p.push(x));
        assert(b =~= q.push(x));
    }
}

/// There is one way only to list texts once each in ascending order.
pub proof fn listing_is_unique(r: Seq<Seq<char>>, s: Seq<Seq<char>>)
    requires
        lists(r, s),
    ensures
        distinct_sorted(s) == r,
{
    let d = distinct_sorted(s);
    assert(lists(d, s));
    assert forall|x: Seq<char>| #[trigger] d.contains(x) <==> r.contains(x) by {
        assert(d.contains(x) <==> s.contains(x));
        assert(r.contains(x) <==> s.contains(x));
    }
    ascending_unique(d, r);
}

/// Where a text belongs among ascending texts.
spec fn placed(r: Seq<Seq<char>>, x: Seq<char>, at: int) -> Seq<Seq<char>> {
    if at < r.len() && r[at] == x {
        r
    } else {
        r.insert(at, x)
    }
}

/// A text put in its place keeps ascending texts ascending, and adds itself.
proof fn placed_lists(r: Seq<Seq<char>>, s: Seq<Seq<char>>, x: Seq<char>, at: int)
    requires
        lists(r, s),
        0 <= at <= r.len(),
        forall|i: int| 0 <= i < at ==> crate::text::text_less(#[trigger] r[i], x),
        at < r.len() ==> r[at] == x || crate::text::text_less(x, r[at]),
    ensures
        lists(placed(r, x, at), s.push(x)),
{
    let t = placed(r, x, at);
    if at < r.len() && r[at] == x {
        assert(r.contains(x));
    } else {
        assert forall|i: int, j: int| 0 <= i < j < t.len() implies crate::text::text_less(
            #[trigger] t[i],
            #[trigger] t[j],
        ) by {
            if j == at {
                assert(t[i] == r[i]);
            } else if i == at {
                assert(t[j] == r[j - 1]);
                if at < j - 1 {
                    assert(crate::text::text_less(r[at], r[j - 1]));
                    crate::text::text_less_transitive(x, r[at], r[j - 1]);
                }
            } else {
                let ri = if i < at {
                    i
                } else {
                    i - 1
                };
                let rj = if j < at {
                    j
                } else {
                    j - 1
                };
                assert(t[i] == r[ri] && t[j] == r[rj]);
            }
        }
    }
    assert forall|y: Seq<char>| #[trigger] t.contains(y) <==> s.push(x).contains(y) by {
        if t.contains(y) && y != x {
            let k = choose|k: int| 0 <= k < t.len() && t[k] == y;
            let rk = if t == r || k < at {
                k
            } else {
                k - 1
            };
            assert(r[rk] == y);
            assert(r.contains(y));
            let m = choose|m: int| 0 <= m < s.len() && s[m] == y;
            assert(s.push(x)[m] == y);
        }
        if s.push(x).contains(y) && y != x {
            let m = choose|m: int| 0 <= m < s.push(x).len() && s.push(x)[m] == y;
            assert(s[m] == y);
            assert(s.contains(y));
            assert(r.contains(y));
            let k = choose|k: int| 0 <= k < r.len() && r[k] == y;
            if k < at {
                assert(t[k] == y);
            } else if t != r {
                assert(t[k + 1] == y);
            }
        }
        if y == x {
            assert(s.push(x)[s.len() as int] == x);
            assert(t[at] == x);
        }
    }
}

/// Among ascending texts there is a place for each text: what stands before it
/// comes before the text, what stands at it does not.
proof fn place_exists(r: Seq<Seq<char>>, x: Seq<char>) -> (at: int)
    requires
        ascending(r),
    ensures
        0 <= at <= r.len(),
        forall|i: int| 0 <= i < at ==> crate::text::text_less(#[trigger] r[i], x),
        at < r.len() ==> r[at] == x || crate::text::text_less(x, r[at]),
    decreases r.len(),
{
    if r.len() == 0 {
        0
    } else {
        let n = r.len() - 1;
        let at = place_exists(r.drop_last(), x);
        assert forall|i: int| 0 <= i < at implies crate::text::text_less(#[trigger] r[i], x) by {
            assert(r.drop_last()[i] == r[i]);
        }
        if at < n {
            assert(r.drop_last()[at] == r[at]);
            at
        } else {
            crate::text::text_less_total(r[n], x);
            if crate::text::text_less(r[n], x) {
                n + 1
            } else {
                n
            }
        }
    }
}

/// Every sequence of texts can be listed once each in ascending order.
pub proof fn listing_exists(s: Seq<Seq<char>>)
    ensures
        lists(distinct_sorted(s), s),
    decreases s.len(),
{
    if s.len() == 0 {
        assert(lists(Seq::empty(), s));
    } else {
        let rest = s.drop_last();
        listing_exists(rest);
        let r = distinct_sorted(rest);
        let at = place_exists(r, s.last());
        placed_lists(r, rest, s.last(), at);
        assert(rest.push(s.last()) == s);
        assert(lists(placed(r, s.last(), at), s));
    }
}

/// The texts once each, in ascending order.
pub fn sort_distinct<'a>(texts: &Vec<&'a str>) -> (r: Vec<&'a str>)
    ensures
        crate::text::strs(r@) == distinct_sorted(crate::text::strs(texts@)),
        lists(crate::text::strs(r@), crate::text::strs(texts@)),
{
    let ghost all = crate::text::strs(texts@);
    let mut r: Vec<&'a str> = Vec::new();
    let mut i: usize = 0;
    assert(lists(crate::text::strs(r@), all.take(0)));
    while i < texts.len()
        invariant
            i <= texts.len(),
            all == crate::text::strs(texts@),
            lists(crate::text::strs(r@), all.take(i as int)),
        decreases texts.len() - i,
    {
        let x = texts[i];
        let ghost sorted = crate::text::strs(r@);
        let mut at: usize = 0;
        while at < r.len() && comes_before(r[at], x)
            invariant
                at <= r.len(),
                sorted == crate::text::strs(r@),
                forall|k: int| 0 <= k < at ==> crate::text::text_less(#[trigger] sorted[k], x@),
            decreases r.len() - at,
        {
            at = at + 1;
        }
        proof {
            if at < r.len() {
                assert(sorted[at as int] == r@[at as int]@);
            }
        }
        let present = at < r.len() && same_text(r[at], x);
        proof {
            if at < r.len() && !crate::text::text_less(sorted[at as int], x@) && sorted[at as int]
                != x@ {
                crate::text::text_less_total(sorted[at as int], x@);
            }
            placed_lists(sorted, all.take(i as int), x@, at as int);
            assert(all.take(i as int).push(x@) =~= all.take(i + 1));
        }
        if !present {
            r.insert(at, x);
            assert(crate::text::strs(r@) =~= sorted.insert(at as int, x@));
        }
        i = i + 1;
    }
    proof {
        assert(all.take(all.len() as int) == all);
        listing_is_unique(crate::text::strs(r@), all);
    }
    r
}

} // verus!
