//! The login form: `uid=...&password=...` bodies, percent-decoded. The
//! body is trimmed, split on `&`, and each pair with exactly one `=` and a
//! known key updates that key's value, the last occurrence winning. Both
//! keys must be present for the form to parse.

use vstd::prelude::*;

use crate::cookie::find_char;
use crate::cookie::lemma_find_char;
use crate::cookie::lemma_find_char_is;
use crate::cookie::lemma_trim_end;
use crate::cookie::lemma_trim_start;
use crate::cookie::trim;
use crate::cookie::ws_char;

verus! {

/// What `percent_encoding::percent_decode(..).decode_utf8()` returns on the
/// UTF-8 bytes of the given characters: the decoded characters, or nothing
/// when the decoded bytes are not UTF-8.
pub uninterp spec fn pct_decoded(s: Seq<char>) -> Option<Seq<char>>;

/// Relies on `percent_encoding::percent_decode` followed by its
/// `decode_utf8`: every `%` with two hexadecimal digits becomes the named
/// byte, every other byte stands; a string without `%` therefore decodes
/// to itself, and failure means only that the decoded bytes were not
/// well-formed UTF-8.
#[verifier::external_body]
fn percent_decoded(s: &str) -> (r: Option<String>)
    ensures
        match r {
            Some(d) => pct_decoded(s@) == Some(d@),
            None => pct_decoded(s@) is None,
        },
        (forall|i: int| 0 <= i < s@.len() ==> s@[i] != '%') ==> match r {
            Some(d) => d@ == s@,
            None => false,
        },
{
    match percent_encoding::percent_decode(s.as_bytes()).decode_utf8() {
        Ok(d) => Some(d.into_owned()),
        Err(_) => None,
    }
}

/// The key of the user-name field.
pub open spec fn uid_key() -> Seq<char> {
    seq!['u', 'i', 'd']
}

/// The key of the password field.
pub open spec fn password_key() -> Seq<char> {
    seq!['p', 'a', 's', 's', 'w', 'o', 'r', 'd']
}

/// The `key=value` split of one form pair: exactly one `=`.
pub open spec fn form_pair_of(piece: Seq<char>) -> Option<(Seq<char>, Seq<char>)> {
    let i = find_char(piece, '=');
    if i < 0 {
        None
    } else if find_char(piece.skip(i + 1), '=') >= 0 {
        None
    } else {
        Some((piece.take(i), piece.skip(i + 1)))
    }
}

/// One form pair updates the field its key names, when its value decodes;
/// anything else leaves the accumulator standing.
pub open spec fn scan_form_piece(
    acc: (Option<Seq<char>>, Option<Seq<char>>),
    piece: Seq<char>,
) -> (Option<Seq<char>>, Option<Seq<char>>) {
    match form_pair_of(piece) {
        Some(p) => if p.0 == uid_key() {
            match pct_decoded(p.1) {
                Some(d) => (Some(d), acc.1),
                None => acc,
            }
        } else if p.0 == password_key() {
            match pct_decoded(p.1) {
                Some(d) => (acc.0, Some(d)),
                None => acc,
            }
        } else {
            acc
        },
        None => acc,
    }
}

/// Folds `scan_form_piece` over the `&`-separated pieces of the body.
pub open spec fn scan_form(
    acc: (Option<Seq<char>>, Option<Seq<char>>),
    s: Seq<char>,
) -> (Option<Seq<char>>, Option<Seq<char>>)
    decreases s.len(),
    via scan_form_decreases
{
    let i = find_char(s, '&');
    if i < 0 {
        scan_form_piece(acc, s)
    } else {
        scan_form(scan_form_piece(acc, s.take(i)), s.skip(i + 1))
    }
}

#[via_fn]
proof fn scan_form_decreases(acc: (Option<Seq<char>>, Option<Seq<char>>), s: Seq<char>) {
    lemma_find_char(s, '&');
}

/// The parsed form: both fields of the trimmed body, or nothing when
/// either is missing.
pub open spec fn parse_form_spec(body: Seq<char>) -> Option<(Seq<char>, Seq<char>)> {
    let acc = scan_form((None, None), trim(body));
    match acc.0 {
        Some(u) => match acc.1 {
            Some(p) => Some((u, p)),
            None => None,
        },
        None => None,
    }
}

/// Applies one `&`-separated piece, `v[start..end)`, to the two fields.
fn scan_form_piece_exec(
    uid: &mut Option<String>,
    pw: &mut Option<String>,
    v: &Vec<char>,
    start: usize,
    end: usize,
)
    requires
        start <= end <= v@.len(),
    ensures
        ({
            let acc = scan_form_piece(
                (opt_view(*old(uid)), opt_view(*old(pw))),
                v@.subrange(start as int, end as int),
            );
            opt_view(*final(uid)) == acc.0 && opt_view(*final(pw))
                == acc.1
        }),
{
    let ghost piece = v@.subrange(start as int, end as int);
    let i = match crate::cookie::find_in(v, start, end, '=') {
        Some(i) => {
            proof {
                lemma_find_char_is(piece, '=', i - start);
            }
            i
        },
        None => {
            proof {
                lemma_find_char(piece, '=');
                if find_char(piece, '=') >= 0 {
                    assert(v@[start + find_char(piece, '=')] == '=');
                }
            }
            return ;
        },
    };
    let ghost value_seq = piece.skip(i - start + 1);
    proof {
        assert(value_seq =~= v@.subrange(i + 1, end as int));
    }
    match crate::cookie::find_in(v, i + 1, end, '=') {
        Some(j) => {
            proof {
                lemma_find_char_is(value_seq, '=', j - i - 1);
            }
            return ;
        },
        None => {
            proof {
                lemma_find_char(value_seq, '=');
                if find_char(value_seq, '=') >= 0 {
                    assert(v@[i + 1 + find_char(value_seq, '=')] == '=');
                }
            }
        },
    }
    proof {
        assert(piece.take(i - start) =~= v@.subrange(start as int, i as int));
    }
    let is_uid = crate::text::range_eq_str(v, start, i, "uid");
    let is_pw = if is_uid {
        false
    } else {
        crate::text::range_eq_str(v, start, i, "password")
    };
    proof {
        reveal_strlit("uid");
        reveal_strlit("password");
        assert("uid"@ =~= uid_key());
        assert("password"@ =~= password_key());
    }
    if is_uid || is_pw {
        let raw = crate::text::from_chars(&crate::cookie::copy_range(v, i + 1, end));
        match percent_decoded(raw.as_str()) {
            Some(d) => {
                if is_uid {
                    *uid = Some(d);
                } else {
                    *pw = Some(d);
                }
            },
            None => {},
        }
    }
}

/// The view of an optional owned string.
pub open spec fn opt_view(o: Option<String>) -> Option<Seq<char>> {
    match o {
        Some(s) => Some(s@),
        None => None,
    }
}

/// Parses the login form body into the user name and the password, both
/// percent-decoded; `None` when either field is missing.
pub fn extract_uid_password(body: &str) -> (r: Option<(String, String)>)
    ensures
        match r {
            Some(pair) => parse_form_spec(body@) == Some((pair.0@, pair.1@)),
            None => parse_form_spec(body@) is None,
        },
{
    let v = crate::text::to_chars(body);
    let n = v.len();
    let mut a: usize = 0;
    while a < n && crate::cookie::is_ws(v[a])
        invariant
            a <= n <= v@.len(),
            forall|j: int| 0 <= j < a ==> ws_char(v@[j]),
        decreases n - a,
    {
        a = a + 1;
    }
    let mut b = n;
    while b > a && crate::cookie::is_ws(v[b - 1])
        invariant
            a <= b <= n <= v@.len(),
            forall|j: int| b <= j < n ==> ws_char(v@[j]),
        decreases b,
    {
        b = b - 1;
    }
    let ghost t = trim(body@);
    proof {
        assert(n == v@.len() && v@ == body@);
        lemma_trim_start(body@, a as int);
        assert(body@.skip(a as int) =~= v@.subrange(a as int, n as int));
        lemma_trim_end(v@.subrange(a as int, n as int), b - a);
        assert(v@.subrange(a as int, n as int).take(b - a) =~= v@.subrange(a as int, b as int));
        assert(t == v@.subrange(a as int, b as int));
    }
    let mut uid: Option<String> = None;
    let mut pw: Option<String> = None;
    let mut p = a;
    proof {
        assert(t.skip(0) =~= v@.subrange(p as int, b as int));
    }
    loop
        invariant
            a <= p <= b <= v@.len(),
            scan_form((None, None), t) == scan_form(
                (opt_view(uid), opt_view(pw)),
                v@.subrange(p as int, b as int),
            ),
        ensures
            ({
                let acc = scan_form((None, None), t);
                opt_view(uid) == acc.0 && opt_view(pw) == acc.1
            }),
        decreases b - p,
    {
        let ghost suffix = v@.subrange(p as int, b as int);
        let ghost acc = (opt_view(uid), opt_view(pw));
        match crate::cookie::find_in(&v, p, b, '&') {
            Some(q) => {
                proof {
                    lemma_find_char_is(suffix, '&', q - p);
                    assert(suffix.take(q - p) =~= v@.subrange(p as int, q as int));
                    assert(suffix.skip(q - p + 1) =~= v@.subrange(q + 1, b as int));
                }
                scan_form_piece_exec(&mut uid, &mut pw, &v, p, q);
                p = q + 1;
            },
            None => {
                proof {
                    lemma_find_char(suffix, '&');
                    if find_char(suffix, '&') >= 0 {
                        assert(v@[p + find_char(suffix, '&')] == '&');
                    }
                }
                scan_form_piece_exec(&mut uid, &mut pw, &v, p, b);
                proof {
                    assert(scan_form(acc, suffix) == scan_form_piece(acc, suffix));
                }
                break ;
            },
        }
    }
    match uid {
        Some(u) => match pw {
            Some(p2) => Some((u, p2)),
            None => None,
        },
        None => None,
    }
}

} // verus!
