//! Glob matching for allow-list patterns: `*` matches any run of characters,
//! including path separators; every other character must match literally and
//! case-sensitively.

use vstd::prelude::*;

verus! {

/// Whether the pattern `p` matches the whole of `s`. `*` matches any run of
/// characters (possibly empty); any other character matches only itself.
pub open spec fn glob_match(p: Seq<char>, s: Seq<char>) -> bool
    decreases p.len() + s.len(),
{
    if p.len() == 0 {
        s.len() == 0
    } else if p[0] == '*' {
        glob_match(p.drop_first(), s) || (s.len() > 0 && glob_match(p, s.drop_first()))
    } else {
        s.len() > 0 && p[0] == s[0] && glob_match(p.drop_first(), s.drop_first())
    }
}

/// Direct recursive matcher. Correct for all inputs, but worst-case
/// exponential when the pattern holds many `*`; kept as the fallback for
/// inputs too long for the tabulating matcher's index arithmetic.
fn glob_matches_rec(p: &str, s: &str, pi: usize, si: usize) -> (r: bool)
    requires
        pi <= p@.len(),
        si <= s@.len(),
    ensures
        r == glob_match(p@.skip(pi as int), s@.skip(si as int)),
    decreases p@.len() - pi + s@.len() - si,
{
    let plen = p.unicode_len();
    let slen = s.unicode_len();
    proof {
        assert(p@.skip(pi as int).len() == plen - pi);
        assert(s@.skip(si as int).len() == slen - si);
    }
    if pi == plen {
        return si == slen;
    }
    let pc = p.get_char(pi);
    proof {
        assert(p@.skip(pi as int)[0] == p@[pi as int]);
        assert(p@.skip(pi as int).drop_first() =~= p@.skip(pi as int + 1));
    }
    if pc == '*' {
        if glob_matches_rec(p, s, pi + 1, si) {
            return true;
        }
        if si < slen {
            proof {
                assert(s@.skip(si as int).drop_first() =~= s@.skip(si as int + 1));
            }
            return glob_matches_rec(p, s, pi, si + 1);
        }
        false
    } else {
        if si == slen {
            return false;
        }
        let sc = s.get_char(si);
        proof {
            assert(s@.skip(si as int)[0] == s@[si as int]);
            assert(s@.skip(si as int).drop_first() =~= s@.skip(si as int + 1));
        }
        pc == sc && glob_matches_rec(p, s, pi + 1, si + 1)
    }
}

/// Decides whether the glob `pattern` matches `name`, by tabulating
/// `glob_match` over all suffix pairs.
pub fn glob_matches(pattern: &str, name: &str) -> (r: bool)
    ensures
        r == glob_match(pattern@, name@),
{
    let plen = pattern.unicode_len();
    let slen = name.unicode_len();
    if plen >= 0x1000_0000 || slen >= 0x1000_0000 {
        // The table below indexes up to length + 1; for inputs this long,
        // fall back to the recursive matcher rather than risk overflow.
        let r = glob_matches_rec(pattern, name, 0, 0);
        proof {
            assert(pattern@.skip(0) =~= pattern@);
            assert(name@.skip(0) =~= name@);
        }
        return r;
    }
    // next_row[j] holds glob_match of the pattern suffix from `i + 1` against
    // the name suffix from `j`; start with the row for the empty pattern.
    let mut next_row: Vec<bool> = Vec::new();
    let mut j: usize = 0;
    while j <= slen
        invariant
            j <= slen + 1,
            slen < 0x1000_0000,
            slen == name@.len(),
            next_row@.len() == j,
            forall|k: int| 0 <= k < j ==> next_row@[k] == (k == slen),
        decreases slen + 1 - j,
    {
        next_row.push(j == slen);
        j += 1;
    }
    proof {
        assert forall|k: int| 0 <= k <= slen implies next_row@[k] == glob_match(
            pattern@.skip(plen as int),
            name@.skip(k),
        ) by {
            assert(pattern@.skip(plen as int).len() == 0);
            assert(name@.skip(k).len() == slen - k);
        }
    }
    let mut ii: usize = plen;
    while ii > 0
        invariant
            ii <= plen,
            plen < 0x1000_0000,
            slen < 0x1000_0000,
            plen == pattern@.len(),
            slen == name@.len(),
            next_row@.len() == slen + 1,
            forall|k: int|
                0 <= k <= slen ==> next_row@[k] == glob_match(
                    pattern@.skip(ii as int),
                    name@.skip(k),
                ),
        decreases ii,
    {
        ii -= 1;
        let pc = pattern.get_char(ii);
        let mut row: Vec<bool> = Vec::new();
        let mut f: usize = 0;
        while f <= slen
            invariant
                f <= slen + 1,
                slen < 0x1000_0000,
                row@.len() == f,
            decreases slen + 1 - f,
        {
            row.push(false);
            f += 1;
        }
        let mut jj: usize = slen + 1;
        while jj > 0
            invariant
                jj <= slen + 1,
                slen < 0x1000_0000,
                plen == pattern@.len(),
                slen == name@.len(),
                ii < plen,
                pc == pattern@[ii as int],
                next_row@.len() == slen + 1,
                row@.len() == slen + 1,
                forall|k: int|
                    0 <= k <= slen ==> next_row@[k] == glob_match(
                        pattern@.skip(ii as int + 1),
                        name@.skip(k),
                    ),
                forall|k: int|
                    jj <= k <= slen ==> row@[k] == glob_match(
                        pattern@.skip(ii as int),
                        name@.skip(k),
                    ),
            decreases jj,
        {
            jj -= 1;
            proof {
                assert(pattern@.skip(ii as int)[0] == pattern@[ii as int]);
                assert(pattern@.skip(ii as int).drop_first() =~= pattern@.skip(ii as int + 1));
                assert(name@.skip(jj as int).len() == slen - jj);
                if jj < slen {
                    assert(name@.skip(jj as int)[0] == name@[jj as int]);
                    assert(name@.skip(jj as int).drop_first() =~= name@.skip(jj as int + 1));
                }
            }
            let val: bool = if pc == '*' {
                next_row[jj] || (jj < slen && row[jj + 1])
            } else {
                jj < slen && pc == name.get_char(jj) && next_row[jj + 1]
            };
            row[jj] = val;
        }
        next_row = row;
    }
    proof {
        assert(pattern@.skip(0) =~= pattern@);
        assert(name@.skip(0) =~= name@);
    }
    next_row[0]
}

} // verus!
