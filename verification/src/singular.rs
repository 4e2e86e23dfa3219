//! Singularization: the naming heuristic that turns a plural, collection-like
//! path into a singular name for a container's element type.
//!
//! The rules are deliberately small: a trailing `ies` becomes `y`, a single
//! trailing `s` (not preceded by another `s`) is dropped, and anything else is
//! returned unchanged. The function is total and idempotent on its own output.

use vstd::prelude::*;

verus! {

/// The singular form of a name.
pub open spec fn spec_singular(s: Seq<char>) -> Seq<char> {
    if s.len() >= 4 && s[s.len() - 3] == 'i' && s[s.len() - 2] == 'e' && s[s.len() - 1] == 's' {
        s.subrange(0, s.len() - 3).push('y')
    } else if s.len() >= 1 && s[s.len() - 1] == 's' && !(s.len() >= 2 && s[s.len() - 2] == 's') {
        s.subrange(0, s.len() - 1)
    } else {
        s
    }
}

/// Singularizing twice is the same as singularizing once.
pub proof fn lemma_singular_idempotent(s: Seq<char>)
    ensures
        spec_singular(spec_singular(s)) == spec_singular(s),
{
    let r = spec_singular(s);
    if s.len() >= 4 && s[s.len() - 3] == 'i' && s[s.len() - 2] == 'e' && s[s.len() - 1] == 's' {
        assert(r[r.len() - 1] == 'y');
    } else if s.len() >= 1 && s[s.len() - 1] == 's' && !(s.len() >= 2 && s[s.len() - 2] == 's') {
        if s.len() >= 2 {
            assert(r[r.len() - 1] == s[s.len() - 2]);
        }
    }
}

/// Converts a plural, collection-like name into a singular form.
pub fn to_singular(path: &str) -> (res: String)
    ensures
        res@ == spec_singular(path@),
{
    let n = path.unicode_len();
    if n >= 4 && path.get_char(n - 3) == 'i' && path.get_char(n - 2) == 'e' && path.get_char(n - 1)
        == 's' {
        let stem = path.substring_char(0, n - 3);
        let mut out = stem.to_owned();
        out.append("y");
        proof {
            reveal_strlit("y");
            assert(out@ =~= path@.subrange(0, path@.len() - 3).push('y'));
        }
        out
    } else if n >= 1 && path.get_char(n - 1) == 's' && !(n >= 2 && path.get_char(n - 2) == 's') {
        let out = path.substring_char(0, n - 1).to_owned();
        out
    } else {
        path.to_owned()
    }
}

} // verus!
