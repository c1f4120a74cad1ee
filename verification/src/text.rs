//! Small verified text utilities shared by the cookie codec, the form
//! parser, and the JSON rendering: character extraction, string building,
//! and character-exact string comparison.

use vstd::prelude::*;

verus! {

/// Relies on std's `String::push`: appends exactly the one character.
#[verifier::external_body]
pub fn push_char(s: &mut String, c: char)
    ensures
        final(s)@ == old(s)@.push(c),
{
    s.push(c);
}

/// The characters of `s`, in order, as a vector.
pub fn to_chars(s: &str) -> (r: Vec<char>)
    ensures
        r@ == s@,
{
    let n = s.unicode_len();
    let mut r: Vec<char> = Vec::new();
    let mut i: usize = 0;
    while i < n
        invariant
            n == s@.len(),
            i <= n,
            r@ == s@.subrange(0, i as int),
        decreases n - i,
    {
        r.push(s.get_char(i));
        i = i + 1;
        assert(r@ =~= s@.subrange(0, i as int));
    }
    assert(r@ =~= s@);
    r
}

/// A string holding exactly the characters of `v`, in order.
pub fn from_chars(v: &Vec<char>) -> (r: String)
    ensures
        r@ == v@,
{
    let mut r = String::new();
    let mut i: usize = 0;
    while i < v.len()
        invariant
            i <= v@.len(),
            r@ == v@.subrange(0, i as int),
        decreases v@.len() - i,
    {
        push_char(&mut r, v[i]);
        i = i + 1;
        assert(r@ =~= v@.subrange(0, i as int));
    }
    assert(r@ =~= v@);
    r
}

/// Character-exact equality of two string slices.
pub fn str_eq(a: &str, b: &str) -> (r: bool)
    ensures
        r == (a@ == b@),
{
    let na = a.unicode_len();
    let nb = b.unicode_len();
    if na != nb {
        assert(a@ != b@) by {
            assert(a@.len() != b@.len());
        }
        return false;
    }
    let mut i: usize = 0;
    while i < na
        invariant
            na == a@.len(),
            na == b@.len(),
            i <= na,
            forall|j: int| 0 <= j < i ==> a@[j] == b@[j],
        decreases na - i,
    {
        if a.get_char(i) != b.get_char(i) {
            return false;
        }
        i = i + 1;
    }
    assert(a@ =~= b@);
    true
}

/// Character-exact equality of `v[from..to)` and the characters of `s`.
pub fn range_eq_str(v: &Vec<char>, from: usize, to: usize, s: &str) -> (r: bool)
    requires
        from <= to <= v@.len(),
    ensures
        r == (v@.subrange(from as int, to as int) == s@),
{
    let m = s.unicode_len();
    if to - from != m {
        assert(v@.subrange(from as int, to as int).len() != s@.len());
        return false;
    }
    let mut j: usize = 0;
    while j < m
        invariant
            from <= to <= v@.len(),
            m == s@.len(),
            to - from == m,
            j <= m,
            forall|k: int| 0 <= k < j ==> v@[from + k] == s@[k],
        decreases m - j,
    {
        if v[from + j] != s.get_char(j) {
            assert(v@.subrange(from as int, to as int)[j as int] != s@[j as int]);
            return false;
        }
        j = j + 1;
    }
    assert(v@.subrange(from as int, to as int) =~= s@);
    true
}

} // verus!
