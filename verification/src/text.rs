//! Character classes and whole-string helpers shared by the rest of the library.

use vstd::prelude::*;

verus! {

broadcast use vstd::string::group_string_axioms;

/// `String::push` appends one character to the end of the string.
pub assume_specification[ String::push ](s: &mut String, ch: char)
    ensures
        final(s)@ == old(s)@.push(ch),
;

/// Unicode `White_Space`: the characters for which `char::is_whitespace` holds.
pub open spec fn is_white_space(c: char) -> bool {
    ||| c == ' '
    ||| ('\u{9}' <= c && c <= '\u{d}')
    ||| c == '\u{85}'
    ||| c == '\u{a0}'
    ||| c == '\u{1680}'
    ||| ('\u{2000}' <= c && c <= '\u{200a}')
    ||| c == '\u{2028}'
    ||| c == '\u{2029}'
    ||| c == '\u{202f}'
    ||| c == '\u{205f}'
    ||| c == '\u{3000}'
}

/// Whether `c` has the Unicode `White_Space` property.
pub fn is_whitespace(c: char) -> (b: bool)
    ensures
        b == is_white_space(c),
{
    c == ' ' || ('\u{9}' <= c && c <= '\u{d}') || c == '\u{85}' || c == '\u{a0}' || c == '\u{1680}'
        || ('\u{2000}' <= c && c <= '\u{200a}') || c == '\u{2028}' || c == '\u{2029}' || c
        == '\u{202f}' || c == '\u{205f}' || c == '\u{3000}'
}

/// The characters of `s`, in order.
pub fn chars_of(s: &str) -> (v: Vec<char>)
    ensures
        v@ == s@,
{
    let mut v: Vec<char> = Vec::new();
    for c in it: s.chars()
        invariant
            it.seq() == s@,
            v@ == it.seq().take(it.index() as int),
    {
        v.push(c);
    }
    v
}


/// A string that holds exactly the characters of `v`.
pub fn string_of(v: &Vec<char>) -> (s: String)
    ensures
        s@ == v@,
{
    let mut s = String::new();
    let mut i: usize = 0;
    while i < v.len()
        invariant
            i <= v.len(),
            s@ == v@.take(i as int),
        decreases v.len() - i,
    {
        s.push(v[i]);
        i += 1;
        assert(s@ =~= v@.take(i as int));
    }
    assert(v@.take(v.len() as int) =~= v@);
    s
}

/// Appends `v[from..to]` to `out`.
pub fn push_range(out: &mut String, v: &Vec<char>, from: usize, to: usize)
    requires
        from <= to <= v.len(),
    ensures
        final(out)@ == old(out)@ + v@.subrange(from as int, to as int),
{
    let ghost start = out@;
    let mut i = from;
    while i < to
        invariant
            from <= i <= to <= v.len(),
            out@ == start + v@.subrange(from as int, i as int),
        decreases to - i,
    {
        out.push(v[i]);
        i += 1;
        assert(out@ =~= start + v@.subrange(from as int, i as int));
    }
}

/// Appends the characters of `s` to `out` (`String::push_str`).
pub fn append_str(out: &mut String, s: &str)
    ensures
        final(out)@ == old(out)@ + s@,
{
    let v = chars_of(s);
    push_range(out, &v, 0, v.len());
    assert(v@.subrange(0, v@.len() as int) =~= v@);
}

/// Every character of `s` is white space (so `s` trims to nothing).
pub open spec fn all_white_space(s: Seq<char>) -> bool {
    forall|i: int| 0 <= i < s.len() ==> is_white_space(#[trigger] s[i])
}

/// `s` with its leading white space removed.
pub open spec fn trim_start(s: Seq<char>) -> Seq<char>
    decreases s.len(),
{
    if s.len() > 0 && is_white_space(s[0]) {
        trim_start(s.drop_first())
    } else {
        s
    }
}

/// `s` with its trailing white space removed.
pub open spec fn trim_end(s: Seq<char>) -> Seq<char>
    decreases s.len(),
{
    if s.len() > 0 && is_white_space(s.last()) {
        trim_end(s.drop_last())
    } else {
        s
    }
}

/// `s` with leading and trailing white space removed, as `str::trim` does.
pub open spec fn trim(s: Seq<char>) -> Seq<char> {
    trim_end(trim_start(s))
}

/// Leading white space of `s.skip(i)` is skipped by `trim_start`.
proof fn lemma_trim_start_skip(s: Seq<char>, i: int)
    requires
        0 <= i <= s.len(),
        forall|j: int| 0 <= j < i ==> is_white_space(#[trigger] s[j]),
    ensures
        trim_start(s) == trim_start(s.skip(i)),
    decreases i,
{
    if i > 0 {
        assert(s.drop_first().skip(i - 1) =~= s.skip(i));
        assert forall|j: int| 0 <= j < i - 1 implies is_white_space(#[trigger] s.drop_first()[j]) by {
            assert(s.drop_first()[j] == s[j + 1]);
        }
        lemma_trim_start_skip(s.drop_first(), i - 1);
    } else {
        assert(s.skip(0) =~= s);
    }
}

/// Trailing white space of `s.take(e)` is dropped by `trim_end`.
proof fn lemma_trim_end_take(s: Seq<char>, e: int)
    requires
        0 <= e <= s.len(),
        forall|j: int| e <= j < s.len() ==> is_white_space(#[trigger] s[j]),
    ensures
        trim_end(s) == trim_end(s.take(e)),
    decreases s.len() - e,
{
    if e < s.len() {
        assert(s.drop_last().take(e) =~= s.take(e));
        lemma_trim_end_take(s.drop_last(), e);
    } else {
        assert(s.take(e) =~= s);
    }
}

/// Trimming a string that is all white space leaves nothing, and conversely.
pub proof fn lemma_trim_empty_iff_blank(s: Seq<char>)
    ensures
        trim(s).len() == 0 <==> all_white_space(s),
    decreases s.len(),
{
    if s.len() > 0 && is_white_space(s[0]) {
        lemma_trim_empty_iff_blank(s.drop_first());
        assert(trim(s) == trim(s.drop_first()));
        if all_white_space(s.drop_first()) {
            assert forall|i: int| 0 <= i < s.len() implies is_white_space(#[trigger] s[i]) by {
                if i > 0 {
                    assert(s[i] == s.drop_first()[i - 1]);
                }
            }
        }
        if all_white_space(s) {
            assert forall|i: int| 0 <= i < s.drop_first().len() implies is_white_space(
                #[trigger] s.drop_first()[i],
            ) by {
                assert(s.drop_first()[i] == s[i + 1]);
            }
        }
    } else if s.len() > 0 {
        assert(trim_start(s) == s);
        lemma_trim_end_keeps_first(s);
    }
}

/// `trim_end` keeps a string whose first character is not white space non-empty.
proof fn lemma_trim_end_keeps_first(s: Seq<char>)
    requires
        s.len() > 0,
        !is_white_space(s[0]),
    ensures
        trim_end(s).len() > 0,
    decreases s.len(),
{
    if is_white_space(s.last()) {
        lemma_trim_end_keeps_first(s.drop_last());
    }
}

/// Where `str::trim` would cut `v`: the trimmed text is `v[start..end]`.
pub fn trim_bounds(v: &Vec<char>) -> (r: (usize, usize))
    ensures
        r.0 <= r.1 <= v.len(),
        v@.subrange(r.0 as int, r.1 as int) == trim(v@),
{
    let mut start: usize = 0;
    while start < v.len() && is_whitespace(v[start])
        invariant
            start <= v.len(),
            forall|j: int| 0 <= j < start ==> is_white_space(#[trigger] v@[j]),
        decreases v.len() - start,
    {
        start += 1;
    }
    proof {
        lemma_trim_start_skip(v@, start as int);
        if start < v.len() {
            assert(trim_start(v@.skip(start as int)) == v@.skip(start as int));
        } else {
            assert(v@.skip(start as int).len() == 0);
        }
    }
    let ghost rest = v@.skip(start as int);
    assert(trim_start(v@) == rest);
    let mut end: usize = v.len();
    while end > start && is_whitespace(v[end - 1])
        invariant
            start <= end <= v.len(),
            rest == v@.skip(start as int),
            forall|j: int| end - start <= j < rest.len() ==> is_white_space(#[trigger] rest[j]),
        decreases end,
    {
        end -= 1;
    }
    proof {
        lemma_trim_end_take(rest, end - start);
        let t = rest.take(end - start);
        assert(t =~= v@.subrange(start as int, end as int));
        if end > start {
            assert(t.last() == v@[end - 1]);
        }
        assert(trim_end(t) == t);
    }
    (start, end)
}

/// The length of `s` in UTF-8 bytes, as `str::len` gives it.
pub open spec fn byte_len(s: Seq<char>) -> usize {
    vstd::utf8::encode_utf8(s).len() as usize
}

/// `s` with leading and trailing white space removed (`str::trim`).
pub fn trimmed(s: &str) -> (r: &str)
    ensures
        r@ == trim(s@),
{
    let v = chars_of(s);
    let (start, end) = trim_bounds(&v);
    s.substring_char(start, end)
}

/// Whether `s` trims to the empty string.
pub fn is_blank(s: &str) -> (b: bool)
    ensures
        b == (trim(s@).len() == 0),
        b == all_white_space(s@),
{
    let v = chars_of(s);
    let (start, end) = trim_bounds(&v);
    proof {
        lemma_trim_empty_iff_blank(s@);
    }
    start == end
}

/// Character-for-character equality of two strings.
pub fn str_eq(a: &str, b: &str) -> (r: bool)
    ensures
        r == (a@ == b@),
{
    let va = chars_of(a);
    let vb = chars_of(b);
    if va.len() != vb.len() {
        return false;
    }
    let mut i: usize = 0;
    while i < va.len()
        invariant
            va.len() == vb.len(),
            i <= va.len(),
            va@ == a@,
            vb@ == b@,
            forall|j: int| 0 <= j < i ==> va@[j] == vb@[j],
        decreases va.len() - i,
    {
        if va[i] != vb[i] {
            return false;
        }
        i += 1;
    }
    assert(va@ =~= vb@);
    true
}

/// An ASCII decimal digit.
pub open spec fn is_digit(c: char) -> bool {
    '0' <= c && c <= '9'
}

/// The number that the decimal digits `s` spell, most significant first.
pub open spec fn digits_value(s: Seq<char>) -> nat
    decreases s.len(),
{
    if s.len() == 0 {
        0
    } else {
        digits_value(s.drop_last()) * 10 + (s.last() as nat - '0' as nat) as nat
    }
}

/// Every character of `s` is an ASCII digit.
pub open spec fn all_digits(s: Seq<char>) -> bool {
    forall|i: int| 0 <= i < s.len() ==> is_digit(#[trigger] s[i])
}

/// `u32::from_str`: an optional `+`, then one or more decimal digits whose value fits.
pub open spec fn parse_u32_spec(s: Seq<char>) -> Option<u32> {
    let d = if s.len() > 0 && s[0] == '+' {
        s.drop_first()
    } else {
        s
    };
    if d.len() > 0 && all_digits(d) && digits_value(d) <= u32::MAX {
        Some(digits_value(d) as u32)
    } else {
        None
    }
}

/// `i64::from_str`: an optional sign, then one or more decimal digits whose value fits.
pub open spec fn parse_i64_spec(s: Seq<char>) -> Option<i64> {
    let neg = s.len() > 0 && s[0] == '-';
    let d = if s.len() > 0 && (s[0] == '+' || s[0] == '-') {
        s.drop_first()
    } else {
        s
    };
    if d.len() > 0 && all_digits(d) {
        if neg && digits_value(d) <= 0x8000_0000_0000_0000 {
            Some((-(digits_value(d) as int)) as i64)
        } else if !neg && digits_value(d) <= i64::MAX {
            Some(digits_value(d) as i64)
        } else {
            None
        }
    } else {
        None
    }
}

/// Appending digits never lowers the value.
proof fn lemma_digits_value_grows(s: Seq<char>, i: int)
    requires
        0 <= i <= s.len(),
        all_digits(s),
    ensures
        digits_value(s.take(i)) <= digits_value(s),
    decreases s.len() - i,
{
    if i < s.len() {
        lemma_digits_value_grows(s, i + 1);
        assert(s.take(i + 1).drop_last() =~= s.take(i));
        assert(is_digit(s[i]));
    } else {
        assert(s.take(i) =~= s);
    }
}

/// The value of the decimal digits `v[from..]`, or `None` when a character is not a
/// digit, there is none, or the value exceeds `limit`.
fn digits_up_to(v: &Vec<char>, from: usize, limit: u64) -> (r: Option<u64>)
    requires
        from <= v.len(),
        limit >= 9,
    ensures
        ({
            let d = v@.skip(from as int);
            match r {
                Some(n) => d.len() > 0 && all_digits(d) && n == digits_value(d) && n <= limit,
                None => !(d.len() > 0 && all_digits(d) && digits_value(d) <= limit),
            }
        }),
{
    let ghost d = v@.skip(from as int);
    if from == v.len() {
        return None;
    }
    let mut acc: u64 = 0;
    let mut i: usize = from;
    while i < v.len()
        invariant
            from <= i <= v.len(),
            d == v@.skip(from as int),
            all_digits(d.take(i - from)),
            acc == digits_value(d.take(i - from)),
            acc <= limit,
            limit >= 9,
        decreases v.len() - i,
    {
        let c = v[i];
        if !('0' <= c && c <= '9') {
            assert(d[i - from] == c);
            return None;
        }
        let digit = (c as u64) - ('0' as u64);
        assert(d.take(i + 1 - from).drop_last() =~= d.take(i - from));
        assert(d.take(i + 1 - from).last() == c);
        if acc > (limit - digit) / 10 {
            proof {
                assert(acc * 10 + digit > limit) by (nonlinear_arith)
                    requires
                        acc > (limit - digit) / 10,
                        0 <= digit <= 9,
                        limit >= 9,
                ;
                assert(all_digits(d.take(i + 1 - from)));
                if all_digits(d) {
                    lemma_digits_value_grows(d, i + 1 - from);
                }
            }
            return None;
        }
        assert(acc * 10 + digit <= limit) by (nonlinear_arith)
            requires
                acc <= (limit - digit) / 10,
                0 <= digit <= 9,
        ;
        acc = acc * 10 + digit;
        i += 1;
    }
    assert(d.take(i - from) =~= d);
    Some(acc)
}

/// `s.trim().parse::<u32>().ok()` without the trim: `str::parse` for `u32`.
pub fn parse_u32(s: &str) -> (r: Option<u32>)
    ensures
        r == parse_u32_spec(s@),
{
    let v = chars_of(s);
    let from: usize = if v.len() > 0 && v[0] == '+' {
        1
    } else {
        0
    };
    assert(v@.skip(from as int) =~= if v@.len() > 0 && v@[0] == '+' {
        v@.drop_first()
    } else {
        v@
    });
    match digits_up_to(&v, from, 0xffff_ffff) {
        Some(n) => Some(n as u32),
        None => None,
    }
}

/// `str::parse` for `i64`.
pub fn parse_i64(s: &str) -> (r: Option<i64>)
    ensures
        r == parse_i64_spec(s@),
{
    let v = chars_of(s);
    let neg = v.len() > 0 && v[0] == '-';
    let from: usize = if v.len() > 0 && (v[0] == '+' || v[0] == '-') {
        1
    } else {
        0
    };
    assert(v@.skip(from as int) =~= if v@.len() > 0 && (v@[0] == '+' || v@[0] == '-') {
        v@.drop_first()
    } else {
        v@
    });
    if neg {
        match digits_up_to(&v, from, 0x8000_0000_0000_0000) {
            Some(n) => {
                if n == 0x8000_0000_0000_0000 {
                    Some(i64::MIN)
                } else {
                    Some(-(n as i64))
                }
            },
            None => None,
        }
    } else {
        match digits_up_to(&v, from, 0x7fff_ffff_ffff_ffff) {
            Some(n) => Some(n as i64),
            None => None,
        }
    }
}

/// The ASCII digit for `d < 10`.
pub open spec fn digit_char(d: nat) -> char {
    (('0' as u32) + d) as char
}

/// Decimal digits of `n`, most significant first, without leading zeros.
pub open spec fn nat_decimal(n: nat) -> Seq<char>
    decreases n,
{
    if n < 10 {
        seq![digit_char(n)]
    } else {
        nat_decimal(n / 10).push(digit_char(n % 10))
    }
}

/// How `Display` writes an integer: a `-` for negatives, then the decimal digits.
pub open spec fn int_decimal(n: int) -> Seq<char> {
    if n < 0 {
        seq!['-'] + nat_decimal((-n) as nat)
    } else {
        nat_decimal(n as nat)
    }
}

/// The decimal digits of `n`.
pub fn u64_decimal(n: u64) -> (r: Vec<char>)
    ensures
        r@ == nat_decimal(n as nat),
    decreases n,
{
    if n < 10 {
        let mut v = Vec::new();
        v.push((('0' as u8) + (n as u8)) as char);
        v
    } else {
        let mut v = u64_decimal(n / 10);
        v.push((('0' as u8) + ((n % 10) as u8)) as char);
        v
    }
}

/// `n.to_string()` for `u64`.
pub fn u64_to_string(n: u64) -> (r: String)
    ensures
        r@ == int_decimal(n as int),
{
    string_of(&u64_decimal(n))
}

/// `n.to_string()` for `i64`.
pub fn i64_to_string(n: i64) -> (r: String)
    ensures
        r@ == int_decimal(n as int),
{
    if n < 0 {
        let magnitude: u64 = if n == i64::MIN {
            0x8000_0000_0000_0000
        } else {
            (-n) as u64
        };
        let mut v: Vec<char> = Vec::new();
        v.push('-');
        let mut digits = u64_decimal(magnitude);
        v.append(&mut digits);
        string_of(&v)
    } else {
        u64_to_string(n as u64)
    }
}

/// An ASCII letter or digit.
pub open spec fn is_ascii_alnum(c: char) -> bool {
    ('a' <= c && c <= 'z') || ('A' <= c && c <= 'Z') || ('0' <= c && c <= '9')
}

/// `char::is_ascii_alphanumeric`.
pub fn ascii_alnum(c: char) -> (b: bool)
    ensures
        b == is_ascii_alnum(c),
{
    ('a' <= c && c <= 'z') || ('A' <= c && c <= 'Z') || ('0' <= c && c <= '9')
}

/// `char::to_ascii_lowercase`: ASCII capitals become small letters, all else stays.
pub open spec fn ascii_lower(c: char) -> char {
    if 'A' <= c && c <= 'Z' {
        ((c as u32) + 32) as char
    } else {
        c
    }
}

/// `char::to_ascii_lowercase`.
pub fn to_ascii_lower(c: char) -> (r: char)
    ensures
        r == ascii_lower(c),
{
    if 'A' <= c && c <= 'Z' {
        ((c as u8) + 32) as char
    } else {
        c
    }
}

/// Whether a character is alphabetic or numeric in Unicode (`char::is_alphanumeric`).
pub uninterp spec fn unicode_alphanumeric(c: char) -> bool;

/// `char::is_alphanumeric` is true when the character is `Alphabetic` or `Numeric` in
/// Unicode. The contract names that class, and states of it only that on ASCII it agrees
/// with `char::is_ascii_alphanumeric`: the ASCII characters that are alphabetic or numeric
/// are the letters and the digits.
pub assume_specification[ char::is_alphanumeric ](c: char) -> (b: bool)
    ensures
        b == unicode_alphanumeric(c),
        (c as u32) < 128 ==> b == is_ascii_alnum(c),
;

} // verus!
