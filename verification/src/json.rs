//! Character-exact JSON rendering of what the service serves: the caller's
//! identity and the list of job sessions. Strings are escaped as JSON asks
//! (quote, backslash, and control characters), numbers are rendered in
//! decimal, absent fields render as `null`.

use vstd::prelude::*;

use crate::jobs::JobSession;
use crate::jobs::JobSessionView;
use crate::jobs::job_views;
use crate::jobs::user_view;
use crate::session::UserSession;
use crate::session::UserSessionView;
use crate::text::push_char;

verus! {

/// The lowercase hexadecimal digit of `n`.
pub open spec fn hex_digit(n: int) -> char {
    if n == 0 {
        '0'
    } else if n == 1 {
        '1'
    } else if n == 2 {
        '2'
    } else if n == 3 {
        '3'
    } else if n == 4 {
        '4'
    } else if n == 5 {
        '5'
    } else if n == 6 {
        '6'
    } else if n == 7 {
        '7'
    } else if n == 8 {
        '8'
    } else if n == 9 {
        '9'
    } else if n == 10 {
        'a'
    } else if n == 11 {
        'b'
    } else if n == 12 {
        'c'
    } else if n == 13 {
        'd'
    } else if n == 14 {
        'e'
    } else {
        'f'
    }
}

/// How one character is written inside a JSON string literal.
pub open spec fn escape_char(c: char) -> Seq<char> {
    if c == '"' {
        seq!['\\', '"']
    } else if c == '\\' {
        seq!['\\', '\\']
    } else if c == '\u{8}' {
        seq!['\\', 'b']
    } else if c == '\u{c}' {
        seq!['\\', 'f']
    } else if c == '\n' {
        seq!['\\', 'n']
    } else if c == '\r' {
        seq!['\\', 'r']
    } else if c == '\t' {
        seq!['\\', 't']
    } else if (c as u32) < 0x20 {
        seq!['\\', 'u', '0', '0', hex_digit((c as u32) as int / 16), hex_digit(
            (c as u32) as int % 16,
        )]
    } else {
        seq![c]
    }
}

/// The body of a JSON string literal holding the characters of `s`.
pub open spec fn json_escaped(s: Seq<char>) -> Seq<char>
    decreases s.len(),
{
    if s.len() == 0 {
        Seq::empty()
    } else {
        json_escaped(s.drop_last()) + escape_char(s.last())
    }
}

/// The JSON string literal holding the characters of `s`.
pub open spec fn json_string(s: Seq<char>) -> Seq<char> {
    seq!['"'] + json_escaped(s) + seq!['"']
}

/// The characters of `null`.
pub open spec fn null_chars() -> Seq<char> {
    seq!['n', 'u', 'l', 'l']
}

/// The characters of a JSON boolean.
pub open spec fn bool_chars(b: bool) -> Seq<char> {
    if b {
        seq!['t', 'r', 'u', 'e']
    } else {
        seq!['f', 'a', 'l', 's', 'e']
    }
}

/// The decimal digit of `n`.
pub open spec fn dec_digit(n: int) -> char {
    hex_digit(if 0 <= n < 10 {
        n
    } else {
        0
    })
}

/// The decimal rendering of a non-negative number.
pub open spec fn dec_str(n: nat) -> Seq<char>
    decreases n,
{
    if n < 10 {
        seq![dec_digit(n as int)]
    } else {
        dec_str(n / 10) + seq![dec_digit((n % 10) as int)]
    }
}

/// The decimal rendering of a signed number.
pub open spec fn i64_str(n: int) -> Seq<char> {
    if n < 0 {
        seq!['-'] + dec_str((-n) as nat)
    } else {
        dec_str(n as nat)
    }
}

/// A JSON string literal, or `null` for an absent field.
pub open spec fn opt_str_json(o: Option<Seq<char>>) -> Seq<char> {
    match o {
        Some(s) => json_string(s),
        None => null_chars(),
    }
}

/// The given rendered elements joined with commas.
pub open spec fn join_comma(elems: Seq<Seq<char>>) -> Seq<char>
    decreases elems.len(),
{
    if elems.len() == 0 {
        Seq::empty()
    } else if elems.len() == 1 {
        elems[0]
    } else {
        join_comma(elems.drop_last()) + seq![','] + elems.last()
    }
}

/// A JSON array of string literals, or `null` for an absent field.
pub open spec fn opt_str_array_json(o: Option<Seq<Seq<char>>>) -> Seq<char> {
    match o {
        Some(lines) => seq!['['] + join_comma(lines.map_values(|line: Seq<char>| json_string(line)))
            + seq![']'],
        None => null_chars(),
    }
}

/// The JSON object serving one job session.
pub open spec fn session_json(s: JobSessionView) -> Seq<char> {
    seq!['{', '"', 'i', 'd', '"', ':'] + i64_str(s.id) + seq![',', '"', 'p', 'r', 'o', 'x', 'y',
        'U', 's', 'e', 'r', '"', ':'] + opt_str_json(s.proxy_user) + seq![',', '"', 'k', 'i', 'n',
        'd', '"', ':'] + json_string(s.kind) + seq![',', '"', 's', 't', 'a', 't', 'e', '"', ':']
        + json_string(s.state) + seq![',', '"', 'a', 'p', 'p', 'I', 'd', '"', ':'] + opt_str_json(
        s.app_id,
    ) + seq![',', '"', 'l', 'o', 'g', '"', ':'] + opt_str_array_json(s.log) + seq!['}']
}

/// The JSON array serving a list of job sessions, in order.
pub open spec fn sessions_json(ss: Seq<JobSessionView>) -> Seq<char> {
    seq!['['] + join_comma(ss.map_values(|s: JobSessionView| session_json(s))) + seq![']']
}

/// The JSON object serving the caller's identity, `null` when absent.
pub open spec fn user_json(u: Option<UserSessionView>) -> Seq<char> {
    match u {
        None => null_chars(),
        Some(u) => seq!['{', '"', 'u', 'i', 'd', '"', ':'] + json_string(u.uid) + seq![',', '"',
            'i', 's', '_', 'a', 'd', 'm', 'i', 'n', '"', ':'] + bool_chars(u.is_admin)
            + seq!['}'],
    }
}

/// Appends the JSON string literal holding `s`.
fn push_json_string(out: &mut String, s: &str)
    ensures
        final(out)@ == old(out)@ + json_string(s@),
{
    let v = crate::text::to_chars(s);
    push_char(out, '"');
    let n = v.len();
    let mut j: usize = 0;
    assert(json_escaped(v@.take(0)) =~= Seq::<char>::empty());
    assert(out@ =~= old(out)@ + seq!['"'] + json_escaped(v@.take(0)));
    while j < n
        invariant
            j <= n,
            n == v@.len(),
            v@ == s@,
            out@ == old(out)@ + seq!['"'] + json_escaped(v@.take(j as int)),
        decreases n - j,
    {
        let c = v[j];
        if c == '"' {
            push_char(out, '\\');
            push_char(out, '"');
        } else if c == '\\' {
            push_char(out, '\\');
            push_char(out, '\\');
        } else if c == '\u{8}' {
            push_char(out, '\\');
            push_char(out, 'b');
        } else if c == '\u{c}' {
            push_char(out, '\\');
            push_char(out, 'f');
        } else if c == '\n' {
            push_char(out, '\\');
            push_char(out, 'n');
        } else if c == '\r' {
            push_char(out, '\\');
            push_char(out, 'r');
        } else if c == '\t' {
            push_char(out, '\\');
            push_char(out, 't');
        } else if (c as u32) < 0x20 {
            push_char(out, '\\');
            push_char(out, 'u');
            push_char(out, '0');
            push_char(out, '0');
            push_char(out, hex_digit_exec(((c as u32) / 16) as u8));
            push_char(out, hex_digit_exec(((c as u32) % 16) as u8));
        } else {
            push_char(out, c);
        }
        j = j + 1;
        proof {
            assert(v@.take(j as int).drop_last() =~= v@.take(j - 1));
            assert(v@.take(j as int).last() == c);
            assert(out@ =~= old(out)@ + seq!['"'] + json_escaped(v@.take(j as int)));
        }
    }
    push_char(out, '"');
    proof {
        assert(v@.take(n as int) =~= s@);
        assert(out@ =~= old(out)@ + json_string(s@));
    }
}

/// The lowercase hexadecimal digit of `n`.
fn hex_digit_exec(n: u8) -> (r: char)
    requires
        n < 16,
    ensures
        r == hex_digit(n as int),
{
    match n {
        0 => '0',
        1 => '1',
        2 => '2',
        3 => '3',
        4 => '4',
        5 => '5',
        6 => '6',
        7 => '7',
        8 => '8',
        9 => '9',
        10 => 'a',
        11 => 'b',
        12 => 'c',
        13 => 'd',
        14 => 'e',
        _ => 'f',
    }
}

/// When digits still remain, their rendering stands before the rest.
spec fn dec_app(x: nat, rest: Seq<char>) -> Seq<char> {
    if x == 0 {
        rest
    } else {
        dec_str(x) + rest
    }
}

/// Appends the decimal rendering of `m`.
fn push_u64(out: &mut String, m: u64)
    ensures
        final(out)@ == old(out)@ + dec_str(m as nat),
{
    if m == 0 {
        push_char(out, '0');
        proof {
            assert(dec_str(0) =~= seq!['0']);
        }
        return ;
    }
    let mut digits: Vec<char> = Vec::new();
    let mut x: u64 = m;
    proof {
        assert(dec_str(m as nat) + digits@.reverse() =~= dec_str(m as nat));
    }
    while x > 0
        invariant
            x > 0 ==> dec_str(m as nat) == dec_str(x as nat) + digits@.reverse(),
            x == 0 ==> dec_str(m as nat) == digits@.reverse(),
        decreases x,
    {
        let ghost before = digits@;
        let ghost xb = x as nat;
        let d = hex_digit_exec((x % 10) as u8);
        proof {
            assert(d == dec_digit((x % 10) as int));
        }
        digits.push(d);
        x = x / 10;
        proof {
            assert(digits@.reverse() =~= seq![d] + before.reverse());
            if xb >= 10 {
                assert(dec_str(xb) == dec_str(xb / 10) + seq![dec_digit((xb % 10) as int)]);
                assert(dec_str(xb) + before.reverse() =~= dec_str(xb / 10) + (seq![d]
                    + before.reverse()));
            } else {
                assert(dec_str(xb) =~= seq![d]);
            }
        }
    }
    let k_end = digits.len();
    let mut k: usize = 0;
    let ghost mid = out@;
    assert(mid =~= mid + digits@.reverse().take(0));
    while k < k_end
        invariant
            k <= k_end,
            k_end == digits@.len(),
            dec_str(m as nat) == digits@.reverse(),
            out@ == mid + digits@.reverse().take(k as int),
        decreases k_end - k,
    {
        push_char(out, digits[k_end - 1 - k]);
        k = k + 1;
        proof {
            assert(digits@.reverse()[k - 1] == digits@[k_end - k]);
            assert(out@ =~= mid + digits@.reverse().take(k as int));
        }
    }
    proof {
        assert(digits@.reverse().take(k_end as int) =~= digits@.reverse());
    }
}

/// Appends the decimal rendering of `n`, sign included.
fn push_i64(out: &mut String, n: i64)
    ensures
        final(out)@ == old(out)@ + i64_str(n as int),
{
    if n >= 0 {
        push_u64(out, n as u64);
    } else {
        push_char(out, '-');
        let m: u64 = if n == -9223372036854775807i64 - 1 {
            9223372036854775808u64
        } else {
            (-n) as u64
        };
        push_u64(out, m);
        proof {
            assert(i64_str(n as int) =~= seq!['-'] + dec_str(m as nat));
        }
    }
}

/// Appends a JSON string literal or `null`.
fn push_opt_str(out: &mut String, o: &Option<String>)
    ensures
        final(out)@ == old(out)@ + opt_str_json(crate::form::opt_view(*o)),
{
    match o {
        Some(s) => push_json_string(out, s.as_str()),
        None => {
            proof {
                reveal_strlit("null");
                assert("null"@ =~= null_chars());
            }
            out.append("null");
        },
    }
}

/// Appends a JSON array of string literals or `null`.
fn push_opt_str_array(out: &mut String, o: &Option<Vec<String>>)
    ensures
        final(out)@ == old(out)@ + opt_str_array_json(
            match *o {
                Some(lines) => Some(lines@.map_values(|line: String| line@)),
                None => None,
            },
        ),
{
    match o {
        Some(lines) => {
            let ghost elems = lines@.map_values(|line: String| line@).map_values(
                |line: Seq<char>| json_string(line),
            );
            push_char(out, '[');
            let n = lines.len();
            let mut i: usize = 0;
            assert(join_comma(elems.take(0)) =~= Seq::<char>::empty());
            assert(out@ =~= old(out)@ + seq!['['] + join_comma(elems.take(0)));
            while i < n
                invariant
                    i <= n,
                    n == lines@.len(),
                    elems == lines@.map_values(|line: String| line@).map_values(
                        |line: Seq<char>| json_string(line),
                    ),
                    out@ == old(out)@ + seq!['['] + join_comma(elems.take(i as int)),
                decreases n - i,
            {
                if i > 0 {
                    push_char(out, ',');
                }
                push_json_string(out, lines[i].as_str());
                i = i + 1;
                proof {
                    assert(elems.take(i as int).drop_last() =~= elems.take(i - 1));
                    assert(elems.take(i as int).last() == elems[i - 1]);
                    if i == 1 {
                        assert(join_comma(elems.take(1)) == elems[0]);
                    }
                    assert(out@ =~= old(out)@ + seq!['['] + join_comma(elems.take(i as int)));
                }
            }
            push_char(out, ']');
            proof {
                assert(elems.take(n as int) =~= elems);
                assert(out@ =~= old(out)@ + opt_str_array_json(
                    Some(lines@.map_values(|line: String| line@)),
                ));
            }
        },
        None => {
            proof {
                reveal_strlit("null");
                assert("null"@ =~= null_chars());
            }
            out.append("null");
        },
    }
}

/// Appends the JSON object serving one job session.
#[verifier::rlimit(100)]
fn push_session(out: &mut String, s: &JobSession)
    ensures
        final(out)@ == old(out)@ + session_json(s@),
{
    proof {
        reveal_strlit("{\"id\":");
        reveal_strlit(",\"proxyUser\":");
        reveal_strlit(",\"kind\":");
        reveal_strlit(",\"state\":");
        reveal_strlit(",\"appId\":");
        reveal_strlit(",\"log\":");
        reveal_strlit("}");
    }
    out.append("{\"id\":");
    push_i64(out, s.id);
    out.append(",\"proxyUser\":");
    push_opt_str(out, &s.proxy_user);
    out.append(",\"kind\":");
    push_json_string(out, s.kind.as_str());
    out.append(",\"state\":");
    push_json_string(out, s.state.as_str());
    out.append(",\"appId\":");
    push_opt_str(out, &s.app_id);
    out.append(",\"log\":");
    push_opt_str_array(out, &s.log);
    out.append("}");
    proof {
        assert(out@ =~= old(out)@ + session_json(s@));
    }
}

/// The JSON array serving the given job sessions, in order.
pub fn render_sessions(ss: &Vec<JobSession>) -> (r: String)
    ensures
        r@ == sessions_json(job_views(ss@)),
{
    let ghost elems = job_views(ss@).map_values(|s: JobSessionView| session_json(s));
    let mut out = String::new();
    push_char(&mut out, '[');
    let n = ss.len();
    let mut i: usize = 0;
    assert(join_comma(elems.take(0)) =~= Seq::<char>::empty());
    assert(out@ =~= seq!['['] + join_comma(elems.take(0)));
    while i < n
        invariant
            i <= n,
            n == ss@.len(),
            elems == job_views(ss@).map_values(|s: JobSessionView| session_json(s)),
            out@ == seq!['['] + join_comma(elems.take(i as int)),
        decreases n - i,
    {
        if i > 0 {
            push_char(&mut out, ',');
        }
        push_session(&mut out, &ss[i]);
        i = i + 1;
        proof {
            assert(elems.take(i as int).drop_last() =~= elems.take(i - 1));
            assert(elems.take(i as int).last() == elems[i - 1]);
            if i == 1 {
                assert(join_comma(elems.take(1)) == elems[0]);
            }
            assert(out@ =~= seq!['['] + join_comma(elems.take(i as int)));
        }
    }
    push_char(&mut out, ']');
    proof {
        assert(elems.take(n as int) =~= elems);
        assert(out@ =~= sessions_json(job_views(ss@)));
    }
    out
}

/// The JSON object serving the caller's identity, `null` when no caller is
/// authenticated.
pub fn render_user(user: Option<&UserSession>) -> (r: String)
    ensures
        r@ == user_json(user_view(user)),
{
    match user {
        None => {
            proof {
                reveal_strlit("null");
                assert("null"@ =~= null_chars());
            }
            String::from_str("null")
        },
        Some(u) => {
            proof {
                reveal_strlit("{\"uid\":");
                reveal_strlit(",\"is_admin\":");
                reveal_strlit("true");
                reveal_strlit("false");
                reveal_strlit("}");
                assert("true"@ =~= bool_chars(true));
                assert("false"@ =~= bool_chars(false));
            }
            let mut out = String::from_str("{\"uid\":");
            push_json_string(&mut out, u.uid.as_str());
            out.append(",\"is_admin\":");
            if u.is_admin {
                out.append("true");
            } else {
                out.append("false");
            }
            out.append("}");
            proof {
                assert(out@ =~= user_json(user_view(user)));
            }
            out
        },
    }
}

} // verus!
