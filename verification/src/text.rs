//! Small verified string helpers: character-wise equality of string slices
//! and stripping of the quote markers that surround string literals.

use vstd::prelude::*;

verus! {

/// Compares two string slices character by character.
pub fn str_eq(a: &str, b: &str) -> (r: bool)
    ensures
        r == (a@ == b@),
{
    let alen = a.unicode_len();
    let blen = b.unicode_len();
    if alen != blen {
        return false;
    }
    let mut i: usize = 0;
    while i < alen
        invariant
            i <= alen,
            alen == a@.len(),
            blen == b@.len(),
            alen == blen,
            forall|j: int| 0 <= j < i ==> a@[j] == b@[j],
        decreases alen - i,
    {
        let ca = a.get_char(i);
        let cb = b.get_char(i);
        if ca != cb {
            assert(a@[i as int] != b@[i as int]);
            return false;
        }
        i = i + 1;
    }
    proof {
        assert(a@ =~= b@);
    }
    true
}

/// The characters that remain after removing every leading quote mark.
pub open spec fn spec_strip_leading(s: Seq<char>) -> Seq<char>
    decreases s.len(),
{
    if s.len() > 0 && s[0] == '\'' {
        spec_strip_leading(s.subrange(1, s.len() as int))
    } else {
        s
    }
}

/// The characters that remain after removing every trailing quote mark.
pub open spec fn spec_strip_trailing(s: Seq<char>) -> Seq<char>
    decreases s.len(),
{
    if s.len() > 0 && s[s.len() - 1] == '\'' {
        spec_strip_trailing(s.drop_last())
    } else {
        s
    }
}

/// The characters of a literal with its surrounding quote marks removed.
pub open spec fn spec_strip_quotes(s: Seq<char>) -> Seq<char> {
    spec_strip_trailing(spec_strip_leading(s))
}

/// Removes every leading and trailing single-quote character, so the
/// written form of a string literal compares equal to a stored value.
pub fn strip_quotes(s: &str) -> (r: &str)
    ensures
        r@ == spec_strip_quotes(s@),
{
    let n = s.unicode_len();
    proof {
        assert(s@.subrange(0, n as int) =~= s@);
    }
    let mut lo: usize = 0;
    while lo < n && s.get_char(lo) == '\''
        invariant
            lo <= n,
            n == s@.len(),
            spec_strip_leading(s@) == spec_strip_leading(s@.subrange(lo as int, n as int)),
        decreases n - lo,
    {
        proof {
            let cur = s@.subrange(lo as int, n as int);
            assert(cur.subrange(1, cur.len() as int) =~= s@.subrange(lo as int + 1, n as int));
        }
        lo = lo + 1;
    }
    proof {
        assert(spec_strip_leading(s@) =~= s@.subrange(lo as int, n as int));
    }
    let mut hi: usize = n;
    while hi > lo && s.get_char(hi - 1) == '\''
        invariant
            lo <= hi <= n,
            n == s@.len(),
            spec_strip_leading(s@) == s@.subrange(lo as int, n as int),
            spec_strip_trailing(s@.subrange(lo as int, n as int)) == spec_strip_trailing(
                s@.subrange(lo as int, hi as int),
            ),
        decreases hi,
    {
        proof {
            let cur = s@.subrange(lo as int, hi as int);
            assert(cur.drop_last() =~= s@.subrange(lo as int, hi as int - 1));
        }
        hi = hi - 1;
    }
    proof {
        assert(spec_strip_trailing(s@.subrange(lo as int, hi as int)) =~= s@.subrange(
            lo as int,
            hi as int,
        ));
    }
    s.substring_char(lo, hi)
}

} // verus!
