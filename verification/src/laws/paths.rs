//! Paths: what expanding a leading tilde may change.
use vstd::prelude::*;

verus! {

/// A path that does not start with a tilde stays as it is, and so does one whose
/// tilde is followed by anything but a separator. Of any other path everything
/// after the tilde stays, at the end.
pub proof fn only_a_leading_tilde_is_expanded(path: Seq<char>, r: Seq<char>)
    requires
        crate::provider::is_expansion(path, r),
    ensures
        path.len() == 0 || path[0] != '~' ==> r == path,
        path.len() > 1 && path[1] != '/' && path[1] != '\\' ==> r == path,
        path.len() > 0 ==> r.len() >= path.len() - 1 && r.subrange(
            r.len() - (path.len() - 1),
            r.len() as int,
        ) == path.subrange(1, path.len() as int),
{
    if path.len() > 0 {
        let n = r.len() - (path.len() - 1);
        if r == path {
            assert(r.subrange(n, r.len() as int) =~= path.subrange(1, path.len() as int));
        } else {
            let home = choose|home: Seq<char>| r == #[trigger] (home + path.skip(1));
            assert(r == home + path.skip(1));
            assert(r.subrange(n, r.len() as int) =~= path.skip(1));
            assert(path.skip(1) =~= path.subrange(1, path.len() as int));
        }
    }
}

/// Every path may stay as it is, and any directory may stand for a tilde that is
/// all of the path or is followed by a slash.
pub proof fn a_tilde_may_stand_for_any_directory(home: Seq<char>, rest: Seq<char>, path: Seq<char>)
    requires
        rest.len() > 0 ==> rest[0] == '/',
    ensures
        crate::provider::is_expansion(path, path),
        crate::provider::is_expansion(seq!['~'] + rest, home + rest),
{
    let tilde = seq!['~'] + rest;
    assert(tilde.skip(1) =~= rest);
    assert(home + tilde.skip(1) == home + rest);
}

} // verus!
