//! Small verified helpers over strings and string lists.

use vstd::prelude::*;
use vstd::string::StrSliceExecFns;

verus! {

/// The views of a list of strings.
pub open spec fn string_views(s: Seq<String>) -> Seq<Seq<char>> {
    s.map_values(|t: String| t@)
}

/// Whether `x` occurs (by content) in `v`.
pub fn contains_string(v: &Vec<String>, x: &String) -> (r: bool)
    ensures
        r == string_views(v@).contains(x@),
{
    let n = v.len();
    let mut i: usize = 0;
    while i < n
        invariant
            i <= n,
            n == v@.len(),
            forall|j: int| 0 <= j < i ==> string_views(v@)[j] != x@,
        decreases n - i,
    {
        if v[i] == *x {
            proof {
                assert(string_views(v@)[i as int] == x@);
            }
            return true;
        }
        i = i + 1;
    }
    proof {
        assert forall|j: int| 0 <= j < string_views(v@).len() implies string_views(v@)[j] != x@
            by {}
    }
    false
}

/// A content-equal copy of a list of strings.
pub fn clone_string_vec(v: &Vec<String>) -> (r: Vec<String>)
    ensures
        string_views(r@) == string_views(v@),
{
    let n = v.len();
    let mut out: Vec<String> = Vec::new();
    let mut i: usize = 0;
    while i < n
        invariant
            i <= n,
            n == v@.len(),
            out@.len() == i,
            forall|j: int| 0 <= j < i ==> string_views(out@)[j] == string_views(v@)[j],
        decreases n - i,
    {
        out.push(v[i].clone());
        i = i + 1;
    }
    proof {
        assert(string_views(out@) =~= string_views(v@));
    }
    out
}

/// Whether a denomination names a token-factory token: it must begin
/// with the characters `factory/`.
pub open spec fn spec_is_factory_denom(s: Seq<char>) -> bool {
    s.len() >= 8 && s.subrange(0, 8) == "factory/"@
}

/// Check the token-factory prefix of a denomination.
pub fn is_factory_denom(denom: &String) -> (r: bool)
    ensures
        r == spec_is_factory_denom(denom@),
{
    proof {
        reveal_strlit("factory/");
    }
    let s = denom.as_str();
    let n = s.unicode_len();
    if n < 8 {
        return false;
    }
    let r = s.get_char(0) == 'f' && s.get_char(1) == 'a' && s.get_char(2) == 'c' && s.get_char(3)
        == 't' && s.get_char(4) == 'o' && s.get_char(5) == 'r' && s.get_char(6) == 'y'
        && s.get_char(7) == '/';
    proof {
        let p = "factory/"@;
        assert(p.len() == 8);
        assert(p[0] == 'f' && p[1] == 'a' && p[2] == 'c' && p[3] == 't' && p[4] == 'o' && p[5]
            == 'r' && p[6] == 'y' && p[7] == '/');
        if r {
            assert(denom@.subrange(0, 8) =~= p) by {
                assert forall|i: int| 0 <= i < 8 implies denom@.subrange(0, 8)[i] == p[i] by {
                    assert(denom@.subrange(0, 8)[i] == denom@[i]);
                }
            }
        } else {
            if denom@.subrange(0, 8) == p {
                assert forall|i: int| 0 <= i < 8 implies denom@[i] == p[i] by {
                    assert(denom@.subrange(0, 8)[i] == denom@[i]);
                }
                assert(denom@[0] == 'f' && denom@[1] == 'a' && denom@[2] == 'c' && denom@[3] == 't'
                    && denom@[4] == 'o' && denom@[5] == 'r' && denom@[6] == 'y' && denom@[7]
                    == '/');
            }
        }
    }
    r
}

} // verus!
