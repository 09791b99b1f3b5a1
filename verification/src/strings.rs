//! Verified helpers over strings: equality, lexicographic order, locating the
//! `::` namespace separator, splitting and joining path segments, and decimal
//! rendering of numbers. Fully-qualified type names are `::`-separated paths,
//! so the classification and reporting code leans on these throughout.

use vstd::prelude::*;

verus! {

/// Strict lexicographic order on character sequences, by code point.
pub open spec fn lex_lt(a: Seq<char>, b: Seq<char>) -> bool
    decreases a.len(),
{
    if b.len() == 0 {
        false
    } else if a.len() == 0 {
        true
    } else if (a[0] as int) < (b[0] as int) {
        true
    } else if (b[0] as int) < (a[0] as int) {
        false
    } else {
        lex_lt(a.drop_first(), b.drop_first())
    }
}

/// Character-by-character equality test; exposes the view equality.
pub fn str_eq(a: &str, b: &str) -> (r: bool)
    ensures
        r == (a@ == b@),
{
    let alen = a.unicode_len();
    let blen = b.unicode_len();
    if alen != blen {
        return false;
    }
    let mut i: usize = 0;
    while i < alen
        invariant
            i <= alen,
            alen == a@.len(),
            blen == b@.len(),
            alen == blen,
            forall|j: int| 0 <= j < i ==> a@[j] == b@[j],
        decreases alen - i,
    {
        if a.get_char(i) != b.get_char(i) {
            return false;
        }
        i += 1;
    }
    proof {
        assert(a@ =~= b@);
    }
    true
}

/// `lex_lt` is transitive.
pub proof fn lemma_lex_lt_trans(a: Seq<char>, b: Seq<char>, c: Seq<char>)
    requires
        lex_lt(a, b),
        lex_lt(b, c),
    ensures
        lex_lt(a, c),
    decreases a.len() + b.len() + c.len(),
{
    if a.len() == 0 || b.len() == 0 || c.len() == 0 {
    } else {
        if (a[0] as int) == (b[0] as int) && (b[0] as int) == (c[0] as int) {
            lemma_lex_lt_trans(a.drop_first(), b.drop_first(), c.drop_first());
        }
    }
}

/// `lex_lt` is a total order: any two sequences are ordered or equal.
pub proof fn lemma_lex_trichotomy(a: Seq<char>, b: Seq<char>)
    ensures
        lex_lt(a, b) || lex_lt(b, a) || a == b,
    decreases a.len(),
{
    if a.len() == 0 && b.len() == 0 {
        assert(a =~= b);
    } else if a.len() == 0 || b.len() == 0 {
    } else if (a[0] as int) < (b[0] as int) {
    } else if (b[0] as int) < (a[0] as int) {
    } else {
        assert(a[0] == b[0]);
        lemma_lex_trichotomy(a.drop_first(), b.drop_first());
        if a.drop_first() == b.drop_first() {
            assert(a.drop_first().len() == a.len() - 1);
            assert(b.drop_first().len() == b.len() - 1);
            assert(a.len() == b.len());
            assert forall|i: int| 0 <= i < a.len() implies a[i] == b[i] by {
                if i > 0 {
                    assert(a[i] == a.drop_first()[i - 1]);
                    assert(b[i] == b.drop_first()[i - 1]);
                    assert(a.drop_first()[i - 1] == b.drop_first()[i - 1]);
                }
            }
            assert(a =~= b);
        }
    }
}

/// `lex_lt` is irreflexive.
pub proof fn lemma_lex_irrefl(a: Seq<char>)
    ensures
        !lex_lt(a, a),
    decreases a.len(),
{
    if a.len() > 0 {
        lemma_lex_irrefl(a.drop_first());
    }
}

/// Decides `lex_lt(a@, b@)` executably.
pub fn str_lt(a: &str, b: &str) -> (r: bool)
    ensures
        r == lex_lt(a@, b@),
{
    let alen = a.unicode_len();
    let blen = b.unicode_len();
    let mut i: usize = 0;
    proof {
        assert(a@.skip(0) =~= a@);
        assert(b@.skip(0) =~= b@);
    }
    loop
        invariant
            i <= alen,
            i <= blen,
            alen == a@.len(),
            blen == b@.len(),
            forall|j: int| 0 <= j < i ==> a@[j] == b@[j],
            lex_lt(a@, b@) == lex_lt(a@.skip(i as int), b@.skip(i as int)),
        decreases alen - i,
    {
        if i == blen {
            return false;
        }
        if i == alen {
            return true;
        }
        let ca = a.get_char(i);
        let cb = b.get_char(i);
        proof {
            assert(a@.skip(i as int)[0] == a@[i as int]);
            assert(b@.skip(i as int)[0] == b@[i as int]);
            assert(a@.skip(i as int).drop_first() =~= a@.skip(i + 1));
            assert(b@.skip(i as int).drop_first() =~= b@.skip(i + 1));
        }
        if (ca as u32) < (cb as u32) {
            return true;
        }
        if (cb as u32) < (ca as u32) {
            return false;
        }
        i += 1;
    }
}

/// Position of the first `::` separator at or after `i`, or the length of `s`
/// when none occurs there.
pub open spec fn first_sep_from(s: Seq<char>, i: int) -> int
    decreases s.len() - i,
{
    if i < 0 || i + 1 >= s.len() {
        s.len() as int
    } else if s[i] == ':' && s[i + 1] == ':' {
        i
    } else {
        first_sep_from(s, i + 1)
    }
}

/// Length of the leading path segment: everything before the first `::`.
pub open spec fn leading_len(s: Seq<char>) -> int {
    first_sep_from(s, 0)
}

/// The leading path segment of a fully-qualified name.
pub open spec fn leading_of(s: Seq<char>) -> Seq<char> {
    s.take(leading_len(s))
}

proof fn lemma_first_sep_bounds(s: Seq<char>, i: int)
    requires
        0 <= i <= s.len(),
    ensures
        i <= first_sep_from(s, i) <= s.len(),
    decreases s.len() - i,
{
    if !(i + 1 >= s.len()) && !(s[i] == ':' && s[i + 1] == ':') {
        lemma_first_sep_bounds(s, i + 1);
    }
}

/// The leading segment of `s`, as a borrowed substring.
pub fn leading_segment(s: &str) -> (r: &str)
    ensures
        r@ == leading_of(s@),
{
    let len = s.unicode_len();
    let mut i: usize = 0;
    loop
        invariant
            0 <= i <= len,
            len == s@.len(),
            first_sep_from(s@, 0) == first_sep_from(s@, i as int),
        decreases len - i,
    {
        if len - i <= 1 {
            proof {
                lemma_first_sep_bounds(s@, i as int);
            }
            return s.substring_char(0, len);
        }
        let c0 = s.get_char(i);
        let c1 = s.get_char(i + 1);
        if c0 == ':' && c1 == ':' {
            proof {
                lemma_first_sep_bounds(s@, i as int);
            }
            return s.substring_char(0, i);
        }
        i += 1;
    }
}

proof fn lemma_first_sep_props(s: Seq<char>, i: int)
    requires
        0 <= i <= s.len(),
    ensures
        i <= first_sep_from(s, i) <= s.len(),
        first_sep_from(s, i) < s.len() ==> {
            let r = first_sep_from(s, i);
            &&& r + 1 < s.len()
            &&& s[r] == ':'
            &&& s[r + 1] == ':'
        },
    decreases s.len() - i,
{
    if !(i + 1 >= s.len()) && !(s[i] == ':' && s[i + 1] == ':') {
        lemma_first_sep_props(s, i + 1);
    }
}

proof fn lemma_first_sep_shift(s: Seq<char>, k: int, i: int)
    requires
        0 <= k,
        0 <= i,
        k + i <= s.len(),
    ensures
        first_sep_from(s.skip(k), i) == first_sep_from(s, k + i) - k,
    decreases s.len() - k - i,
{
    let t = s.skip(k);
    if i + 1 >= t.len() {
    } else if t[i] == ':' && t[i + 1] == ':' {
    } else {
        lemma_first_sep_shift(s, k, i + 1);
    }
}

/// The segments of a `::`-separated path. Empty segments are kept, so
/// `a::::b` has three segments and `::` has two empty ones.
pub open spec fn split_sep(s: Seq<char>) -> Seq<Seq<char>>
    decreases s.len(),
    via split_sep_decreases
{
    let l = leading_len(s);
    if l == s.len() {
        seq![s]
    } else {
        seq![s.take(l)] + split_sep(s.skip(l + 2))
    }
}

#[via_fn]
proof fn split_sep_decreases(s: Seq<char>) {
    lemma_first_sep_props(s, 0);
}

/// Finds the first `::` at or after `from`.
pub fn sep_from(s: &str, from: usize) -> (r: usize)
    requires
        from <= s@.len(),
    ensures
        r == first_sep_from(s@, from as int),
        from <= r <= s@.len(),
        r < s@.len() ==> r + 1 < s@.len() && s@[r as int] == ':' && s@[r as int + 1] == ':',
{
    let len = s.unicode_len();
    let mut i: usize = from;
    loop
        invariant
            from <= i <= len,
            len == s@.len(),
            first_sep_from(s@, from as int) == first_sep_from(s@, i as int),
        decreases len - i,
    {
        if len - i <= 1 {
            proof {
                lemma_first_sep_props(s@, i as int);
            }
            return len;
        }
        let c0 = s.get_char(i);
        let c1 = s.get_char(i + 1);
        if c0 == ':' && c1 == ':' {
            return i;
        }
        i += 1;
    }
}

/// Splits a fully-qualified name into its `::`-separated segments.
pub fn split_path(s: &str) -> (r: Vec<String>)
    ensures
        r.deep_view() == split_sep(s@),
{
    let len = s.unicode_len();
    let mut result: Vec<String> = Vec::new();
    let mut start: usize = 0;
    proof {
        assert(s@.skip(0) =~= s@);
        assert(result.deep_view() + split_sep(s@) =~~= split_sep(s@));
    }
    loop
        invariant
            start <= len,
            len == s@.len(),
            split_sep(s@) =~~= result.deep_view() + split_sep(s@.skip(start as int)),
        decreases len - start,
    {
        let l = sep_from(s, start);
        let seg = s.substring_char(start, l);
        proof {
            let suffix = s@.skip(start as int);
            lemma_first_sep_shift(s@, start as int, 0);
            assert(leading_len(suffix) == l - start);
            assert(suffix.take(l - start) =~= s@.subrange(start as int, l as int));
            if l < len {
                assert(suffix.skip(l - start + 2) =~= s@.skip(l as int + 2));
            } else {
                assert(suffix.take(l - start) =~= suffix);
            }
        }
        let ghost old_dv = result.deep_view();
        result.push(String::from_str(seg));
        proof {
            assert(result.deep_view() =~~= old_dv + seq![seg@]);
        }
        if l == len {
            proof {
                assert(split_sep(s@) =~~= result.deep_view());
            }
            return result;
        }
        start = l + 2;
    }
}

/// Joins path segments with the `::` separator.
pub open spec fn join_sep(parts: Seq<Seq<char>>) -> Seq<char>
    decreases parts.len(),
{
    if parts.len() == 0 {
        Seq::empty()
    } else if parts.len() == 1 {
        parts[0]
    } else {
        parts[0] + seq![':', ':'] + join_sep(parts.drop_first())
    }
}

pub proof fn lemma_join_snoc(parts: Seq<Seq<char>>, x: Seq<char>)
    ensures
        parts.len() == 0 ==> join_sep(parts.push(x)) == x,
        parts.len() > 0 ==> join_sep(parts.push(x)) =~= join_sep(parts) + seq![':', ':'] + x,
    decreases parts.len(),
{
    if parts.len() == 0 {
        assert(parts.push(x)[0] == x);
        assert(parts.push(x).len() == 1);
    } else {
        lemma_join_snoc(parts.drop_first(), x);
        assert(parts.push(x).drop_first() =~~= parts.drop_first().push(x));
        if parts.len() == 1 {
            assert(join_sep(parts) == parts[0]);
        }
    }
}

/// Joins the given segments with `::`.
pub fn join_path(parts: &Vec<String>) -> (r: String)
    ensures
        r@ == join_sep(parts.deep_view()),
{
    let mut result = String::new();
    let mut i: usize = 0;
    proof {
        assert(parts.deep_view().take(0) =~~= Seq::<Seq<char>>::empty());
    }
    while i < parts.len()
        invariant
            i <= parts.len(),
            parts.deep_view().len() == parts.len(),
            result@ == join_sep(parts.deep_view().take(i as int)),
        decreases parts.len() - i,
    {
        if i > 0 {
            result.append("::");
            proof {
                reveal_strlit("::");
                assert("::"@ =~= seq![':', ':']);
            }
        }
        result.append(parts[i].as_str());
        proof {
            let dv = parts.deep_view();
            assert(dv.take(i as int).push(dv[i as int]) =~~= dv.take(i as int + 1));
            lemma_join_snoc(dv.take(i as int), dv[i as int]);
            assert(dv[i as int] == parts[i as int]@);
        }
        i += 1;
    }
    proof {
        assert(parts.deep_view().take(parts.len() as int) =~~= parts.deep_view());
    }
    result
}

/// The character for a single decimal digit.
pub open spec fn digit_char(d: int) -> char {
    if d == 0 {
        '0'
    } else if d == 1 {
        '1'
    } else if d == 2 {
        '2'
    } else if d == 3 {
        '3'
    } else if d == 4 {
        '4'
    } else if d == 5 {
        '5'
    } else if d == 6 {
        '6'
    } else if d == 7 {
        '7'
    } else if d == 8 {
        '8'
    } else {
        '9'
    }
}

/// Decimal rendering of a number, most significant digit first.
pub open spec fn dec_str(n: nat) -> Seq<char>
    decreases n,
{
    if n < 10 {
        seq![digit_char(n as int)]
    } else {
        dec_str(n / 10).push(digit_char((n % 10) as int))
    }
}

fn digit_str(d: usize) -> (r: &'static str)
    requires
        d < 10,
    ensures
        r@ =~= seq![digit_char(d as int)],
{
    proof {
        reveal_strlit("0");
        reveal_strlit("1");
        reveal_strlit("2");
        reveal_strlit("3");
        reveal_strlit("4");
        reveal_strlit("5");
        reveal_strlit("6");
        reveal_strlit("7");
        reveal_strlit("8");
        reveal_strlit("9");
    }
    match d {
        0 => "0",
        1 => "1",
        2 => "2",
        3 => "3",
        4 => "4",
        5 => "5",
        6 => "6",
        7 => "7",
        8 => "8",
        _ => "9",
    }
}

/// Renders `n` in decimal.
pub fn usize_to_dec(n: usize) -> (r: String)
    ensures
        r@ == dec_str(n as nat),
    decreases n,
{
    if n < 10 {
        String::from_str(digit_str(n))
    } else {
        let mut s = usize_to_dec(n / 10);
        s.append(digit_str(n % 10));
        proof {
            assert(dec_str((n / 10) as nat) + seq![digit_char((n % 10) as int)] =~= dec_str(
                (n / 10) as nat,
            ).push(digit_char((n % 10) as int)));
        }
        s
    }
}

/// A run of `'0'` characters.
pub open spec fn zeros(k: nat) -> Seq<char> {
    Seq::new(k, |i| '0')
}

/// Decimal rendering padded with leading zeros to at least seven characters.
pub open spec fn pad7_of(n: nat) -> Seq<char> {
    let d = dec_str(n);
    if d.len() >= 7 {
        d
    } else {
        zeros((7 - d.len()) as nat) + d
    }
}

/// Renders `n` in decimal, zero-padded to at least seven characters; used for
/// position components of finding sort keys.
pub fn usize_to_dec_pad7(n: usize) -> (r: String)
    ensures
        r@ == pad7_of(n as nat),
{
    let d = usize_to_dec(n);
    let dlen = d.as_str().unicode_len();
    if dlen >= 7 {
        return d;
    }
    let mut result = String::new();
    let mut k: usize = 0;
    proof {
        assert(result@ =~= zeros(0));
    }
    while k < 7 - dlen
        invariant
            k <= 7 - dlen,
            dlen < 7,
            dlen == d@.len(),
            d@ == dec_str(n as nat),
            result@ =~= zeros(k as nat),
        decreases 7 - dlen - k,
    {
        result.append("0");
        proof {
            reveal_strlit("0");
            assert("0"@ =~= seq!['0']);
            assert(zeros(k as nat) + seq!['0'] =~= zeros((k + 1) as nat));
        }
        k += 1;
    }
    result.append(d.as_str());
    result
}

} // verus!
