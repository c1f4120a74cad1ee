//! The session-token codec: issuing an unguessable token, rendering the
//! session cookie (set and clear forms), and extracting the token from the
//! `Cookie` headers of a request. Extraction scans every header, splits on
//! `;`, trims whitespace, splits each pair on the first `=`, and lets the
//! last occurrence of the cookie name win.

use vstd::prelude::*;

verus! {

/// Name of the session cookie.
pub const COOKIE_NAME: &'static str = "_lmsid";

/// The characters of the session cookie's name.
pub open spec fn cookie_name() -> Seq<char> {
    seq!['_', 'l', 'm', 's', 'i', 'd']
}

/// Whitespace as the codec trims it.
pub open spec fn ws_char(c: char) -> bool {
    c == ' ' || c == '\t' || c == '\r' || c == '\n'
}

/// Characters a token may hold without disturbing the cookie syntax.
pub open spec fn token_char(c: char) -> bool {
    c != ';' && !ws_char(c)
}

/// Tokens that survive the cookie wire format unchanged: non-empty, no `;`,
/// no whitespace.
pub open spec fn valid_token(t: Seq<char>) -> bool {
    t.len() > 0 && forall|i: int| 0 <= i < t.len() ==> token_char(#[trigger] t[i])
}

/// Characters of the hyphenated rendering of a UUID.
pub open spec fn uuid_char(c: char) -> bool {
    ('0' as u32) <= (c as u32) <= ('9' as u32) || ('a' as u32) <= (c as u32) <= ('f' as u32) || c
        == '-'
}

/// Characters of an RFC 2822 timestamp: ASCII letters and digits, space,
/// comma, colon, plus, minus.
pub open spec fn rfc_char(c: char) -> bool {
    ('a' as u32) <= (c as u32) <= ('z' as u32) || ('A' as u32) <= (c as u32) <= ('Z' as u32) || (
    '0' as u32) <= (c as u32) <= ('9' as u32) || c == ' ' || c == ',' || c == ':' || c == '+' || c
        == '-'
}

/// A sequence all of whose characters an RFC 2822 timestamp may hold.
pub open spec fn rfc_chars(e: Seq<char>) -> bool {
    forall|i: int| 0 <= i < e.len() ==> rfc_char(#[trigger] e[i])
}

/// Index of the first occurrence of `c` in `s`, or -1.
pub open spec fn find_char(s: Seq<char>, c: char) -> int
    decreases s.len(),
{
    if s.len() == 0 {
        -1
    } else if s[0] == c {
        0
    } else {
        let r = find_char(s.skip(1), c);
        if r < 0 {
            -1
        } else {
            r + 1
        }
    }
}

/// What `find_char` returns: the least index holding `c`, or -1 when `c`
/// does not occur.
pub proof fn lemma_find_char(s: Seq<char>, c: char)
    ensures
        -1 <= find_char(s, c) < s.len(),
        find_char(s, c) >= 0 ==> s[find_char(s, c)] == c,
        find_char(s, c) >= 0 ==> forall|j: int| 0 <= j < find_char(s, c) ==> s[j] != c,
        find_char(s, c) == -1 ==> forall|j: int| 0 <= j < s.len() ==> s[j] != c,
    decreases s.len(),
{
    if s.len() > 0 && s[0] != c {
        lemma_find_char(s.skip(1), c);
        assert(forall|j: int| 1 <= j < s.len() ==> s[j] == s.skip(1)[j - 1]);
    }
}

/// The first occurrence characterizes `find_char` uniquely.
pub proof fn lemma_find_char_is(s: Seq<char>, c: char, i: int)
    requires
        0 <= i < s.len(),
        s[i] == c,
        forall|j: int| 0 <= j < i ==> s[j] != c,
    ensures
        find_char(s, c) == i,
{
    lemma_find_char(s, c);
}

/// `s` without its leading whitespace.
pub open spec fn trim_start(s: Seq<char>) -> Seq<char>
    decreases s.len(),
{
    if s.len() > 0 && ws_char(s[0]) {
        trim_start(s.skip(1))
    } else {
        s
    }
}

/// `s` without its trailing whitespace.
pub open spec fn trim_end(s: Seq<char>) -> Seq<char>
    decreases s.len(),
{
    if s.len() > 0 && ws_char(s.last()) {
        trim_end(s.drop_last())
    } else {
        s
    }
}

/// `s` without leading and trailing whitespace.
pub open spec fn trim(s: Seq<char>) -> Seq<char> {
    trim_end(trim_start(s))
}

/// `trim_start` drops exactly the leading run of whitespace.
pub proof fn lemma_trim_start(s: Seq<char>, a: int)
    requires
        0 <= a <= s.len(),
        forall|j: int| 0 <= j < a ==> ws_char(s[j]),
        a == s.len() || !ws_char(s[a]),
    ensures
        trim_start(s) == s.skip(a),
    decreases s.len(),
{
    if s.len() > 0 && ws_char(s[0]) {
        assert(a >= 1);
        lemma_trim_start(s.skip(1), a - 1);
        assert(s.skip(1).skip(a - 1) =~= s.skip(a));
    } else {
        assert(a == 0);
        assert(s.skip(0) =~= s);
    }
}

/// `trim_end` drops exactly the trailing run of whitespace.
pub proof fn lemma_trim_end(s: Seq<char>, b: int)
    requires
        0 <= b <= s.len(),
        forall|j: int| b <= j < s.len() ==> ws_char(s[j]),
        b == 0 || !ws_char(s[b - 1]),
    ensures
        trim_end(s) == s.take(b),
    decreases s.len(),
{
    if s.len() > 0 && ws_char(s.last()) {
        assert(b < s.len());
        lemma_trim_end(s.drop_last(), b);
        assert(s.drop_last().take(b) =~= s.take(b));
    } else {
        assert(b == s.len());
        assert(s.take(b) =~= s);
    }
}

/// The `name=value` split of one trimmed cookie pair, at the first `=`.
pub open spec fn pair_of(piece: Seq<char>) -> Option<(Seq<char>, Seq<char>)> {
    let t = trim(piece);
    let i = find_char(t, '=');
    if i < 0 {
        None
    } else {
        Some((t.take(i), t.skip(i + 1)))
    }
}

/// One pair updates the running token value when its name is the cookie
/// name; otherwise the accumulator stands.
pub open spec fn scan_piece(acc: Seq<char>, piece: Seq<char>) -> Seq<char> {
    match pair_of(piece) {
        Some(p) => if p.0 == cookie_name() {
            p.1
        } else {
            acc
        },
        None => acc,
    }
}

/// Folds `scan_piece` over the `;`-separated pieces of one header value.
pub open spec fn scan_header(acc: Seq<char>, s: Seq<char>) -> Seq<char>
    decreases s.len(),
    via scan_header_decreases
{
    let i = find_char(s, ';');
    if i < 0 {
        scan_piece(acc, s)
    } else {
        scan_header(scan_piece(acc, s.take(i)), s.skip(i + 1))
    }
}

#[via_fn]
proof fn scan_header_decreases(acc: Seq<char>, s: Seq<char>) {
    lemma_find_char(s, ';');
}

/// Folds `scan_header` over all `Cookie` header values, in order.
pub open spec fn scan_headers(acc: Seq<char>, hs: Seq<Seq<char>>) -> Seq<char>
    decreases hs.len(),
{
    if hs.len() == 0 {
        acc
    } else {
        scan_headers(scan_header(acc, hs[0]), hs.skip(1))
    }
}

/// The token the request carries: the last value paired with the cookie
/// name anywhere in the `Cookie` headers; an empty value counts as absent.
pub open spec fn extract_spec(hs: Seq<Seq<char>>) -> Option<Seq<char>> {
    let sid = scan_headers(Seq::<char>::empty(), hs);
    if sid.len() == 0 {
        None
    } else {
        Some(sid)
    }
}

/// Whether the codec trims `c`.
pub(crate) fn is_ws(c: char) -> (r: bool)
    ensures
        r == ws_char(c),
{
    c == ' ' || c == '\t' || c == '\r' || c == '\n'
}

/// First occurrence of `c` in `v[from..to)`.
pub(crate) fn find_in(v: &Vec<char>, from: usize, to: usize, c: char) -> (r: Option<usize>)
    requires
        from <= to <= v@.len(),
    ensures
        match r {
            Some(i) => from <= i < to && v@[i as int] == c && forall|j: int|
                from <= j < i ==> v@[j] != c,
            None => forall|j: int| from <= j < to ==> v@[j] != c,
        },
{
    let mut i: usize = from;
    while i < to
        invariant
            from <= i <= to <= v@.len(),
            forall|j: int| from <= j < i ==> v@[j] != c,
        decreases to - i,
    {
        if v[i] == c {
            return Some(i);
        }
        i = i + 1;
    }
    None
}

/// The characters `v[from..to)` as a fresh vector.
pub(crate) fn copy_range(v: &Vec<char>, from: usize, to: usize) -> (r: Vec<char>)
    requires
        from <= to <= v@.len(),
    ensures
        r@ == v@.subrange(from as int, to as int),
{
    let mut r: Vec<char> = Vec::new();
    let mut i: usize = from;
    while i < to
        invariant
            from <= i <= to <= v@.len(),
            r@ == v@.subrange(from as int, i as int),
        decreases to - i,
    {
        r.push(v[i]);
        i = i + 1;
        assert(r@ =~= v@.subrange(from as int, i as int));
    }
    r
}

/// Applies one `;`-separated piece, `v[start..end)`, to the running value.
fn scan_piece_exec(sid: &mut Vec<char>, v: &Vec<char>, start: usize, end: usize)
    requires
        start <= end <= v@.len(),
    ensures
        final(sid)@ == scan_piece(old(sid)@, v@.subrange(start as int, end as int)),
{
    let ghost piece = v@.subrange(start as int, end as int);
    let mut a = start;
    while a < end && is_ws(v[a])
        invariant
            start <= a <= end <= v@.len(),
            forall|j: int| start <= j < a ==> ws_char(v@[j]),
        decreases end - a,
    {
        a = a + 1;
    }
    let mut b = end;
    while b > a && is_ws(v[b - 1])
        invariant
            start <= a <= b <= end <= v@.len(),
            forall|j: int| b <= j < end ==> ws_char(v@[j]),
        decreases b,
    {
        b = b - 1;
    }
    let ghost t = trim(piece);
    proof {
        lemma_trim_start(piece, a - start);
        assert(piece.skip(a - start) =~= v@.subrange(a as int, end as int));
        lemma_trim_end(v@.subrange(a as int, end as int), b - a);
        assert(v@.subrange(a as int, end as int).take(b - a) =~= v@.subrange(
            a as int,
            b as int,
        ));
        assert(t == v@.subrange(a as int, b as int));
    }
    match find_in(v, a, b, '=') {
        None => {
            proof {
                lemma_find_char(t, '=');
                if find_char(t, '=') >= 0 {
                    assert(v@[a + find_char(t, '=')] == '=');
                }
            }
        },
        Some(i) => {
            proof {
                lemma_find_char_is(t, '=', i - a);
            }
            let name_len = i - a;
            if name_len == 6 && v[a] == '_' && v[a + 1] == 'l' && v[a + 2] == 'm' && v[a + 3]
                == 's' && v[a + 4] == 'i' && v[a + 5] == 'd' {
                proof {
                    assert(t.take(i - a) =~= cookie_name());
                }
                let value = copy_range(v, i + 1, b);
                proof {
                    assert(v@.subrange(i + 1, b as int) =~= t.skip(i - a + 1));
                }
                *sid = value;
            } else {
                proof {
                    if t.take(i - a) == cookie_name() {
                        assert(t.take(i - a).len() == 6);
                        assert(i - a == 6);
                        assert(t.take(6)[0] == '_' && t.take(6)[1] == 'l' && t.take(6)[2] == 'm'
                            && t.take(6)[3] == 's' && t.take(6)[4] == 'i' && t.take(6)[5] == 'd');
                        assert(false);
                    }
                }
            }
        },
    }
}

/// Applies one whole `Cookie` header value to the running value.
fn scan_header_exec(sid: &mut Vec<char>, v: &Vec<char>)
    ensures
        final(sid)@ == scan_header(old(sid)@, v@),
{
    let n = v.len();
    let mut p: usize = 0;
    proof {
        assert(v@.skip(0) =~= v@);
    }
    loop
        invariant
            p <= n,
            n == v@.len(),
            scan_header(old(sid)@, v@) == scan_header(sid@, v@.skip(p as int)),
        ensures
            final(sid)@ == scan_header(old(sid)@, v@),
        decreases n - p,
    {
        let ghost suffix = v@.skip(p as int);
        let ghost acc = sid@;
        match find_in(v, p, n, ';') {
            Some(q) => {
                proof {
                    lemma_find_char_is(suffix, ';', q - p);
                    assert(suffix.take(q - p) =~= v@.subrange(p as int, q as int));
                    assert(suffix.skip(q - p + 1) =~= v@.skip(q + 1));
                }
                scan_piece_exec(sid, v, p, q);
                p = q + 1;
            },
            None => {
                proof {
                    lemma_find_char(suffix, ';');
                    if find_char(suffix, ';') >= 0 {
                        assert(v@[p + find_char(suffix, ';')] == ';');
                    }
                    assert(suffix =~= v@.subrange(p as int, n as int));
                }
                scan_piece_exec(sid, v, p, n);
                proof {
                    assert(scan_header(acc, suffix) == scan_piece(acc, suffix));
                }
                return ;
            },
        }
    }
}

/// The session token carried by the given `Cookie` header values, if any:
/// the last value paired with the cookie name wins, and an empty value
/// counts as no token.
pub fn get_uuid(headers: &Vec<String>) -> (r: Option<String>)
    ensures
        ({
            let hs = headers@.map_values(|h: String| h@);
            match r {
                Some(t) => extract_spec(hs) == Some(t@),
                None => extract_spec(hs) is None,
            }
        }),
{
    let ghost hs = headers@.map_values(|h: String| h@);
    let mut sid: Vec<char> = Vec::new();
    let k_end = headers.len();
    let mut k: usize = 0;
    proof {
        assert(hs.skip(0) =~= hs);
    }
    while k < k_end
        invariant
            k <= k_end,
            k_end == headers@.len(),
            hs == headers@.map_values(|h: String| h@),
            scan_headers(Seq::<char>::empty(), hs) == scan_headers(sid@, hs.skip(k as int)),
        decreases k_end - k,
    {
        let chars = crate::text::to_chars(headers[k].as_str());
        proof {
            assert(hs.skip(k as int)[0] == hs[k as int]);
            assert(hs.skip(k as int).skip(1) =~= hs.skip(k + 1));
        }
        scan_header_exec(&mut sid, &chars);
        k = k + 1;
    }
    proof {
        assert(hs.skip(k_end as int) =~= Seq::<Seq<char>>::empty());
    }
    if sid.len() == 0 {
        None
    } else {
        Some(crate::text::from_chars(&sid))
    }
}

/// The characters `"; expires="` between the token and the expiry stamp.
pub open spec fn expires_label() -> Seq<char> {
    seq![';', ' ', 'e', 'x', 'p', 'i', 'r', 'e', 's', '=']
}

/// The characters `"; path=/"` closing the cookie value.
pub open spec fn path_suffix() -> Seq<char> {
    seq![';', ' ', 'p', 'a', 't', 'h', '=', '/']
}

/// The rendered set-form cookie: name, token, expiry stamp, root path.
pub open spec fn set_cookie_chars(t: Seq<char>, e: Seq<char>) -> Seq<char> {
    cookie_name() + seq!['='] + t + expires_label() + e + path_suffix()
}

/// The rendered clear-form cookie: name with an empty value and an expiry
/// stamp already in the past.
pub open spec fn clear_cookie_chars(e: Seq<char>) -> Seq<char> {
    cookie_name() + seq!['='] + expires_label() + e + path_suffix()
}

/// What `set_cookie` promises of its result: the set form around the given
/// token, with some expiry stamp drawn from the RFC 2822 alphabet.
pub open spec fn set_cookie_ok(t: Seq<char>, full: Seq<char>) -> bool {
    exists|e: Seq<char>| rfc_chars(e) && full == set_cookie_chars(t, e)
}

/// What `clear_cookie` promises of its result.
pub open spec fn clear_cookie_ok(full: Seq<char>) -> bool {
    exists|e: Seq<char>| rfc_chars(e) && full == clear_cookie_chars(e)
}

/// Relies on `uuid::Uuid::new_v4` and its `Display` rendering: a fresh
/// random version-4 UUID in the 36-character hyphenated form, lowercase
/// hexadecimal digits and hyphens.
#[verifier::external_body]
fn fresh_token() -> (r: String)
    ensures
        r@.len() == 36,
        forall|i: int| 0 <= i < r@.len() ==> uuid_char(#[trigger] r@[i]),
{
    uuid::Uuid::new_v4().to_string()
}

/// Relies on `time::OffsetDateTime::now_utc` and the `Rfc2822` well-known
/// format of the time crate: on success the rendered timestamp consists of
/// ASCII letters, digits, spaces, commas, colons and a sign -- never `;`,
/// `=` or other cookie syntax.
#[verifier::external_body]
fn now_offset_rfc2822(offset_secs: i64) -> (r: Option<String>)
    ensures
        r matches Some(s) ==> rfc_chars(s@),
{
    let now = time::OffsetDateTime::now_utc();
    let shifted = now.checked_add(time::Duration::seconds(offset_secs))?;
    shifted.format(&time::format_description::well_known::Rfc2822).ok()
}

/// A fresh unguessable session token: a random 128-bit value rendered as a
/// 36-character string.
pub fn issue() -> (r: String)
    ensures
        valid_token(r@),
        r@.len() == 36,
{
    let r = fresh_token();
    proof {
        assert forall|i: int| 0 <= i < r@.len() implies token_char(#[trigger] r@[i]) by {
            assert(uuid_char(r@[i]));
        }
    }
    r
}

/// Renders the set form around `token` with the given expiry stamp.
fn cookie_value(token: &str, expires: &str) -> (r: String)
    ensures
        r@ == set_cookie_chars(token@, expires@),
{
    proof {
        reveal_strlit("_lmsid=");
        reveal_strlit("; expires=");
        reveal_strlit("; path=/");
    }
    let mut r = String::from_str("_lmsid=");
    r.append(token);
    r.append("; expires=");
    r.append(expires);
    r.append("; path=/");
    proof {
        assert(r@ =~= set_cookie_chars(token@, expires@));
    }
    r
}

/// The `Set-Cookie` value that stores `token` on the client, path `/`,
/// expiring seven days from now.
pub fn set_cookie(token: &str) -> (r: String)
    ensures
        set_cookie_ok(token@, r@),
{
    let e = match now_offset_rfc2822(7 * 24 * 60 * 60) {
        Some(e) => e,
        None => String::new(),
    };
    let r = cookie_value(token, e.as_str());
    proof {
        assert(rfc_chars(e@));
        assert(set_cookie_ok(token@, r@)) by {
            assert(rfc_chars(e@) && r@ == set_cookie_chars(token@, e@));
        }
    }
    r
}

/// The `Set-Cookie` value that clears the session cookie: empty value,
/// path `/`, expiry one second in the past.
pub fn clear_cookie() -> (r: String)
    ensures
        clear_cookie_ok(r@),
{
    let e = match now_offset_rfc2822(-1) {
        Some(e) => e,
        None => String::new(),
    };
    proof {
        reveal_strlit("_lmsid=");
        reveal_strlit("; expires=");
        reveal_strlit("; path=/");
    }
    let mut r = String::from_str("_lmsid=");
    r.append("; expires=");
    r.append(e.as_str());
    r.append("; path=/");
    proof {
        assert(rfc_chars(e@));
        assert(clear_cookie_ok(r@)) by {
            assert(r@ =~= clear_cookie_chars(e@));
            assert(rfc_chars(e@) && r@ == clear_cookie_chars(e@));
        }
    }
    r
}

/// `trim_end` keeps a prefix: everything before the trailing whitespace run.
pub proof fn lemma_trim_end_prefix(s: Seq<char>)
    ensures
        trim_end(s).len() <= s.len(),
        trim_end(s) == s.take(trim_end(s).len() as int),
        forall|j: int| trim_end(s).len() <= j < s.len() ==> ws_char(s[j]),
        trim_end(s).len() == 0 || !ws_char(s[trim_end(s).len() - 1]),
    decreases s.len(),
{
    if s.len() > 0 && ws_char(s.last()) {
        lemma_trim_end_prefix(s.drop_last());
        let m = trim_end(s).len() as int;
        assert(s.drop_last().take(m) =~= s.take(m));
        assert forall|j: int| m <= j < s.len() implies ws_char(s[j]) by {
            if j < s.len() - 1 {
                assert(s.drop_last()[j] == s[j]);
            }
        }
    } else {
        assert(s.take(s.len() as int) =~= s);
    }
}

/// Scanning the very value that the set form renders yields the token,
/// whatever the accumulator held before.
proof fn lemma_scan_cookie_value(acc: Seq<char>, t: Seq<char>, e: Seq<char>)
    requires
        valid_token(t),
        rfc_chars(e),
    ensures
        scan_header(acc, set_cookie_chars(t, e)) == t,
{
    let full = set_cookie_chars(t, e);
    let n = t.len() as int;
    assert(!rfc_char(';'));
    assert(!ws_char(';'));

    // First piece: the cookie name, `=`, and the token.
    let i1 = 7 + n;
    assert(full[i1] == ';');
    assert forall|j: int| 0 <= j < i1 implies full[j] != ';' by {
        if j < 6 {
            assert(full[j] == cookie_name()[j]);
        } else if j == 6 {
            assert(full[j] == '=');
        } else {
            assert(full[j] == t[j - 7]);
            assert(token_char(t[j - 7]));
        }
    }
    lemma_find_char_is(full, ';', i1);
    let p1 = full.take(i1);
    let s2 = full.skip(i1 + 1);
    assert(p1 =~= cookie_name() + seq!['='] + t);
    assert(s2 =~= seq![' ', 'e', 'x', 'p', 'i', 'r', 'e', 's', '='] + e + path_suffix());

    // scan_piece over the first piece stores the token.
    assert(!ws_char(p1[0]));
    lemma_trim_start(p1, 0);
    assert(p1.skip(0) =~= p1);
    assert(p1.last() == t[n - 1]);
    assert(!ws_char(p1.last()));
    lemma_trim_end(p1, p1.len() as int);
    assert(p1.take(p1.len() as int) =~= p1);
    assert(trim(p1) == p1);
    assert(p1[6] == '=');
    assert forall|j: int| 0 <= j < 6 implies p1[j] != '=' by {
        assert(p1[j] == cookie_name()[j]);
    }
    lemma_find_char_is(p1, '=', 6);
    assert(p1.take(6) =~= cookie_name());
    assert(p1.skip(7) =~= t);
    assert(scan_piece(acc, p1) == t);
    assert(scan_header(acc, full) == scan_header(t, s2));

    // Second piece: the expiry attribute; its name is not the cookie name.
    let i2 = 9 + e.len() as int;
    assert(s2[i2] == ';');
    assert forall|j: int| 0 <= j < i2 implies s2[j] != ';' by {
        if 9 <= j {
            assert(s2[j] == e[j - 9]);
            assert(rfc_char(e[j - 9]));
        }
    }
    lemma_find_char_is(s2, ';', i2);
    let p2 = s2.take(i2);
    let s3 = s2.skip(i2 + 1);
    assert(p2 =~= seq![' ', 'e', 'x', 'p', 'i', 'r', 'e', 's', '='] + e);
    assert(s3 =~= seq![' ', 'p', 'a', 't', 'h', '=', '/']);

    assert(ws_char(p2[0]) && !ws_char(p2[1]));
    lemma_trim_start(p2, 1);
    let q2 = p2.skip(1);
    assert(q2 =~= seq!['e', 'x', 'p', 'i', 'r', 'e', 's', '='] + e);
    lemma_trim_end_prefix(q2);
    let tq = trim_end(q2);
    let m = tq.len() as int;
    assert(q2[7] == '=');
    assert(m >= 8) by {
        if m < 8 {
            assert(ws_char(q2[7]));
        }
    }
    assert(tq == q2.take(m));
    assert(tq[7] == '=');
    assert forall|j: int| 0 <= j < 7 implies tq[j] != '=' by {
        assert(tq[j] == q2[j]);
    }
    lemma_find_char_is(tq, '=', 7);
    assert(tq.take(7).len() == 7);
    assert(tq.take(7) != cookie_name());
    assert(scan_piece(t, p2) == t);
    assert(scan_header(t, s2) == scan_header(t, s3));

    // Third piece: the path attribute; again not the cookie name.
    assert forall|j: int| 0 <= j < s3.len() implies s3[j] != ';' by {}
    lemma_find_char(s3, ';');
    assert(find_char(s3, ';') == -1);
    assert(scan_header(t, s3) == scan_piece(t, s3));
    assert(ws_char(s3[0]) && !ws_char(s3[1]));
    lemma_trim_start(s3, 1);
    let q3 = s3.skip(1);
    assert(q3 =~= seq!['p', 'a', 't', 'h', '=', '/']);
    assert(!ws_char(q3.last()));
    lemma_trim_end(q3, q3.len() as int);
    assert(q3.take(q3.len() as int) =~= q3);
    assert(trim(s3) == q3);
    assert(q3[4] == '=');
    assert forall|j: int| 0 <= j < 4 implies q3[j] != '=' by {}
    lemma_find_char_is(q3, '=', 4);
    assert(q3.take(4).len() == 4);
    assert(q3.take(4) != cookie_name());
    assert(scan_piece(t, s3) == t);
}

/// Law: the token round-trips through the cookie. Extracting the session
/// cookie from the very value that `set_cookie` renders -- sent back as the
/// only `Cookie` header -- yields the same token.
pub proof fn lemma_cookie_round_trip(t: Seq<char>, full: Seq<char>)
    requires
        valid_token(t),
        set_cookie_ok(t, full),
    ensures
        extract_spec(seq![full]) == Some(t),
{
    let e = choose|e: Seq<char>| rfc_chars(e) && full == set_cookie_chars(t, e);
    lemma_scan_cookie_value(Seq::<char>::empty(), t, e);
    let hs = seq![full];
    assert(hs[0] == full);
    assert(hs.skip(1) =~= Seq::<Seq<char>>::empty());
    assert(scan_headers(t, Seq::<Seq<char>>::empty()) == t);
    assert(scan_headers(Seq::<char>::empty(), hs) == t);
}

} // verus!
