use vstd::prelude::*;

verus! {

/// The code point of `c`, with an ASCII capital letter folded to lower case.
/// Domain names are compared without regard to ASCII case.
pub open spec fn fold_code(c: char) -> u32 {
    if 65 <= c as u32 && c as u32 <= 90 {
        (c as u32 + 32) as u32
    } else {
        c as u32
    }
}

/// Case-insensitive equality of two characters.
pub open spec fn chars_ieq(a: char, b: char) -> bool {
    fold_code(a) == fold_code(b)
}

/// Case-insensitive equality of two character sequences.
pub open spec fn seq_ieq(a: Seq<char>, b: Seq<char>) -> bool {
    a.len() == b.len() && forall|i: int| 0 <= i < a.len() ==> chars_ieq(#[trigger] a[i], b[i])
}

/// Glob semantics for domain patterns: `*` matches any run of characters,
/// `?` matches exactly one character, any other character matches itself
/// without regard to ASCII case. Domain names contain no path separators,
/// so none get special treatment.
pub open spec fn glob_match(p: Seq<char>, s: Seq<char>) -> bool
    decreases p.len() + s.len(),
{
    if p.len() == 0 {
        s.len() == 0
    } else if p[0] == '*' {
        glob_match(p.skip(1), s) || (s.len() > 0 && glob_match(p, s.skip(1)))
    } else if s.len() == 0 {
        false
    } else {
        (p[0] == '?' || chars_ieq(p[0], s[0])) && glob_match(p.skip(1), s.skip(1))
    }
}

/// Case-insensitive character comparison.
pub fn chars_match(a: char, b: char) -> (r: bool)
    ensures
        r == chars_ieq(a, b),
{
    let x: u32 = a as u32;
    let y: u32 = b as u32;
    let xf: u32 = if 65 <= x && x <= 90 { x + 32 } else { x };
    let yf: u32 = if 65 <= y && y <= 90 { y + 32 } else { y };
    xf == yf
}

/// Case-insensitive string comparison.
pub fn names_ieq(a: &str, b: &str) -> (r: bool)
    ensures
        r == seq_ieq(a@, b@),
{
    let alen = a.unicode_len();
    let blen = b.unicode_len();
    if alen != blen {
        return false;
    }
    let mut i: usize = 0;
    while i < alen
        invariant
            alen == a@.len(),
            blen == b@.len(),
            alen == blen,
            i <= alen,
            forall|j: int| 0 <= j < i ==> chars_ieq(#[trigger] a@[j], b@[j]),
        decreases alen - i,
    {
        if !chars_match(a.get_char(i), b.get_char(i)) {
            assert(!chars_ieq(a@[i as int], b@[i as int]));
            return false;
        }
        i += 1;
    }
    true
}

/// Whether the characters of `p` from `i` on match the characters of `s`
/// from `j` on, under glob semantics.
fn match_at(p: &str, s: &str, plen: usize, slen: usize, i: usize, j: usize) -> (r: bool)
    requires
        plen == p@.len(),
        slen == s@.len(),
        i <= plen,
        j <= slen,
    ensures
        r == glob_match(p@.skip(i as int), s@.skip(j as int)),
    decreases (plen - i) + (slen - j),
{
    let ghost pv = p@.skip(i as int);
    let ghost sv = s@.skip(j as int);
    if i == plen {
        assert(pv.len() == 0);
        j == slen
    } else {
        let pc = p.get_char(i);
        assert(pv[0] == p@[i as int]);
        assert(pv.skip(1) =~= p@.skip(i as int + 1));
        if pc == '*' {
            if match_at(p, s, plen, slen, i + 1, j) {
                true
            } else if j < slen {
                assert(sv.skip(1) =~= s@.skip(j as int + 1));
                match_at(p, s, plen, slen, i, j + 1)
            } else {
                assert(sv.len() == 0);
                false
            }
        } else if j == slen {
            assert(sv.len() == 0);
            false
        } else {
            let sc = s.get_char(j);
            assert(sv[0] == s@[j as int]);
            if pc == '?' || chars_match(pc, sc) {
                assert(sv.skip(1) =~= s@.skip(j as int + 1));
                match_at(p, s, plen, slen, i + 1, j + 1)
            } else {
                false
            }
        }
    }
}

/// Whether domain name `s` matches the glob pattern `p`.
pub fn pattern_matches(p: &str, s: &str) -> (r: bool)
    ensures
        r == glob_match(p@, s@),
{
    let plen = p.unicode_len();
    let slen = s.unicode_len();
    assert(p@.skip(0) =~= p@);
    assert(s@.skip(0) =~= s@);
    match_at(p, s, plen, slen, 0, 0)
}

/// The pattern `"*"` matches every domain name.
pub proof fn lemma_star_matches_all(s: Seq<char>)
    ensures
        glob_match(("*")@, s),
    decreases s.len(),
{
    reveal_strlit("*");
    let star = ("*")@;
    assert(star.len() == 1);
    assert(star[0] == '*');
    if s.len() == 0 {
        assert(star.skip(1) =~= Seq::<char>::empty());
        assert(glob_match(star.skip(1), s));
    } else {
        lemma_star_matches_all(s.skip(1));
    }
}

} // verus!
