//! The session cookie: how it is written, and how it is read back from a `Cookie` header.

use vstd::prelude::*;
use crate::text::{
    append_str, ascii_lower, chars_of, i64_to_string, int_decimal, push_range, string_of, trim,
    trim_bounds, trimmed, to_ascii_lower,
};

verus! {

broadcast use vstd::string::group_string_axioms;

/// The name of the session cookie.
pub const SESSION_COOKIE: &'static str = "vlog_session";

/// The attributes every session cookie carries; `Secure` is added when asked for.
pub open spec fn cookie_attributes(max_age: i64, secure: bool) -> Seq<char> {
    "; Path=/; HttpOnly; SameSite=Lax; Max-Age="@ + int_decimal(max_age as int) + if secure {
        "; Secure"@
    } else {
        Seq::<char>::empty()
    }
}

/// The `Set-Cookie` value that stores `session_id` for `max_age` seconds.
pub fn session_cookie(session_id: &str, max_age: i64, secure: bool) -> (r: String)
    ensures
        r@ == "vlog_session="@ + session_id@ + cookie_attributes(max_age, secure),
{
    let mut out = String::from_str("vlog_session=");
    append_str(&mut out, session_id);
    append_str(&mut out, "; Path=/; HttpOnly; SameSite=Lax; Max-Age=");
    let age = i64_to_string(max_age);
    append_str(&mut out, age.as_str());
    if secure {
        append_str(&mut out, "; Secure");
    }
    out
}

/// The `Set-Cookie` value that removes the session cookie.
pub fn cleared_session_cookie(secure: bool) -> (r: String)
    ensures
        r@ == "vlog_session="@ + cookie_attributes(0, secure),
{
    let r = session_cookie("", 0, secure);
    proof {
        reveal_strlit("");
    }
    assert(r@ =~= "vlog_session="@ + cookie_attributes(0, secure));
    r
}

/// `SESSION_COOKIE_SECURE` asks for secure cookies: `1`, `true` or `yes`, trimmed and in
/// any ASCII case.
pub open spec fn secure_setting(value: Option<Seq<char>>) -> bool {
    match value {
        Some(v) => {
            let l = trim(v).map_values(|c: char| ascii_lower(c));
            l == "1"@ || l == "true"@ || l == "yes"@
        },
        None => false,
    }
}

/// Whether the value of `SESSION_COOKIE_SECURE` asks for secure cookies.
pub fn secure_cookies(value: Option<&str>) -> (b: bool)
    ensures
        b == secure_setting(
            match value {
                Some(v) => Some(v@),
                None => None,
            },
        ),
{
    match value {
        Some(v) => {
            let t = chars_of(trimmed(v));
            let mut lowered: Vec<char> = Vec::new();
            let mut i: usize = 0;
            while i < t.len()
                invariant
                    i <= t.len(),
                    lowered@ == t@.take(i as int).map_values(|c: char| ascii_lower(c)),
                decreases t.len() - i,
            {
                lowered.push(to_ascii_lower(t[i]));
                i += 1;
                assert(lowered@ =~= t@.take(i as int).map_values(|c: char| ascii_lower(c)));
            }
            assert(t@.take(t.len() as int) =~= t@);
            let l = string_of(&lowered);
            crate::text::str_eq(l.as_str(), "1") || crate::text::str_eq(l.as_str(), "true")
                || crate::text::str_eq(l.as_str(), "yes")
        },
        None => false,
    }
}

/// The pieces of `s` between `;` separators.
pub open spec fn cookie_pieces(s: Seq<char>) -> Seq<Seq<char>>
    decreases s.len(),
{
    if s.len() == 0 {
        seq![seq![]]
    } else {
        let f = cookie_pieces(s.drop_last());
        if s.last() == ';' {
            f.push(seq![])
        } else {
            f.update(f.len() - 1, f.last().push(s.last()))
        }
    }
}

/// The value of cookie `name` in one piece of a `Cookie` header: the trimmed piece must
/// start with `name=`.
pub open spec fn piece_value(piece: Seq<char>, name: Seq<char>) -> Option<Seq<char>> {
    let t = trim(piece);
    let p = name.push('=');
    if p.len() <= t.len() && t.subrange(0, p.len() as int) == p {
        Some(t.subrange(p.len() as int, t.len() as int))
    } else {
        None
    }
}

/// The value of the first piece that holds cookie `name`.
pub open spec fn first_cookie(pieces: Seq<Seq<char>>, name: Seq<char>) -> Option<Seq<char>>
    decreases pieces.len(),
{
    if pieces.len() == 0 {
        None
    } else {
        match first_cookie(pieces.drop_last(), name) {
            Some(v) => Some(v),
            None => piece_value(pieces.last(), name),
        }
    }
}

fn piece_cookie(piece: &Vec<char>, name: &Vec<char>) -> (r: Option<String>)
    ensures
        match r {
            Some(v) => piece_value(piece@, name@) == Some(v@),
            None => piece_value(piece@, name@) is None,
        },
{
    let (start, end) = trim_bounds(piece);
    let ghost t = trim(piece@);
    let ghost p = name@.push('=');
    if end - start <= name.len() {
        assert(t.len() == end - start);
        return None;
    }
    let mut k: usize = 0;
    while k < name.len()
        invariant
            start <= end <= piece.len(),
            piece@.subrange(start as int, end as int) == t,
            t == trim(piece@),
            p == name@.push('='),
            end - start > name.len(),
            k <= name.len(),
            forall|j: int| 0 <= j < k ==> #[trigger] t[j] == name@[j],
        decreases name.len() - k,
    {
        if piece[start + k] != name[k] {
            assert(t[k as int] != p[k as int]);
            assert(t.subrange(0, p.len() as int)[k as int] != p[k as int]);
            return None;
        }
        k += 1;
    }
    if piece[start + name.len()] != '=' {
        assert(t.subrange(0, p.len() as int)[name.len() as int] != p[name.len() as int]);
        return None;
    }
    assert(t.subrange(0, p.len() as int) =~= p);
    let mut out = String::new();
    push_range(&mut out, piece, start + name.len() + 1, end);
    assert(out@ =~= t.subrange(p.len() as int, t.len() as int));
    Some(out)
}

/// The value of cookie `name` in a `Cookie` header: the first `;`-separated piece that,
/// trimmed, starts with `name=`.
pub fn cookie_value(header: &str, name: &str) -> (r: Option<String>)
    ensures
        match r {
            Some(v) => first_cookie(cookie_pieces(header@), name@) == Some(v@),
            None => first_cookie(cookie_pieces(header@), name@) is None,
        },
{
    let v = chars_of(header);
    let n = chars_of(name);
    let mut found: Option<String> = None;
    let mut current: Vec<char> = Vec::new();
    let mut i: usize = 0;
    while i < v.len()
        invariant
            i <= v.len(),
            v@ == header@,
            n@ == name@,
            cookie_pieces(v@.take(i as int)).len() >= 1,
            match found {
                Some(x) => first_cookie(cookie_pieces(v@.take(i as int)).drop_last(), name@)
                    == Some(x@),
                None => first_cookie(cookie_pieces(v@.take(i as int)).drop_last(), name@) is None,
            },
            current@ == cookie_pieces(v@.take(i as int)).last(),
        decreases v.len() - i,
    {
        let ghost f = cookie_pieces(v@.take(i as int));
        let c = v[i];
        proof {
            let t = v@.take(i + 1);
            assert(t.drop_last() =~= v@.take(i as int));
            assert(t.last() == c);
        }
        if c == ';' {
            if found.is_none() {
                found = piece_cookie(&current, &n);
            }
            current = Vec::new();
            proof {
                assert(f =~= f.drop_last().push(f.last()));
                assert(f.push(seq![]).drop_last() =~= f);
            }
        } else {
            current.push(c);
            proof {
                let f2 = f.update(f.len() - 1, f.last().push(c));
                assert(f2.drop_last() =~= f.drop_last());
            }
        }
        i += 1;
    }
    let ghost f = cookie_pieces(v@.take(i as int));
    proof {
        assert(v@.take(i as int) =~= header@);
        assert(f =~= f.drop_last().push(f.last()));
    }
    match found {
        Some(x) => Some(x),
        None => piece_cookie(&current, &n),
    }
}

} // verus!
