use vstd::prelude::*;

use crate::text::{chars_of, literal_at, push_char, push_str};
use crate::token::json_trimmed;

verus! {

/// The hexadecimal digit of `n` (below 16), in lower case.
pub open spec fn hex_digit(n: u32) -> char {
    if n < 10 {
        ((n + 48) as u8) as char
    } else {
        ((n + 87) as u8) as char
    }
}

/// The value of a lower-case hexadecimal digit.
pub open spec fn hex_value(c: char) -> Option<u32> {
    if 48 <= (c as u32) < 58 {
        Some((c as u32 - 48) as u32)
    } else if 97 <= (c as u32) < 103 {
        Some((c as u32 - 87) as u32)
    } else {
        None
    }
}

/// Characters that a JSON string cannot hold as they are.
pub open spec fn needs_escape(c: char) -> bool {
    c == '"' || c == '\\' || (c as u32) < 32
}

/// How one character is written inside a JSON string: as itself, or as a
/// `\u00XX` escape.
pub open spec fn escaped_char(c: char) -> Seq<char> {
    if needs_escape(c) {
        seq!['\\', 'u', '0', '0', hex_digit((c as u32) / 16), hex_digit((c as u32) % 16)]
    } else {
        seq![c]
    }
}

/// The body of the JSON string that holds `s`.
pub open spec fn escaped(s: Seq<char>) -> Seq<char>
    decreases s.len(),
{
    if s.len() == 0 {
        Seq::empty()
    } else {
        escaped_char(s[0]) + escaped(s.skip(1))
    }
}

/// The JSON string that holds `s`, quotes included.
pub open spec fn json_string(s: Seq<char>) -> Seq<char> {
    seq!['"'] + escaped(s) + seq!['"']
}

/// Reads back the body of a JSON string written by `escaped`.
pub open spec fn unescaped(s: Seq<char>) -> Option<Seq<char>>
    decreases s.len(),
{
    if s.len() == 0 {
        Some(Seq::empty())
    } else if s[0] == '\\' {
        if s.len() >= 6 && s[1] == 'u' && s[2] == '0' && s[3] == '0' && hex_value(s[4]) is Some
            && hex_value(s[5]) is Some {
            match unescaped(s.skip(6)) {
                Some(r) => Some(
                    seq![((hex_value(s[4])->0 * 16 + hex_value(s[5])->0) as u8) as char] + r,
                ),
                None => None,
            }
        } else {
            None
        }
    } else {
        match unescaped(s.skip(1)) {
            Some(r) => Some(seq![s[0]] + r),
            None => None,
        }
    }
}

proof fn lemma_escaped_append(a: Seq<char>, c: char)
    ensures
        escaped(a.push(c)) == escaped(a) + escaped_char(c),
    decreases a.len(),
{
    if a.len() == 0 {
        assert(a.push(c).skip(1) =~= Seq::<char>::empty());
        assert(a.push(c)[0] == c);
        assert(escaped(Seq::<char>::empty()) == Seq::<char>::empty());
        assert(escaped(a.push(c)) == escaped_char(c) + escaped(Seq::<char>::empty()));
        assert(escaped(a.push(c)) =~= escaped(a) + escaped_char(c));
    } else {
        assert(a.push(c).skip(1) =~= a.skip(1).push(c));
        lemma_escaped_append(a.skip(1), c);
        assert(a.push(c)[0] == a[0]);
        assert(escaped(a.push(c)) == escaped_char(a[0]) + escaped(a.skip(1).push(c)));
        assert(escaped(a) == escaped_char(a[0]) + escaped(a.skip(1)));
        assert(escaped(a.push(c)) =~= escaped(a) + escaped_char(c));
    }
}

proof fn lemma_unescaped_char(c: char, rest: Seq<char>)
    ensures
        unescaped(escaped_char(c) + rest) == match unescaped(rest) {
            Some(r) => Some(seq![c] + r),
            None => None::<Seq<char>>,
        },
{
    let s = escaped_char(c) + rest;
    if needs_escape(c) {
        let n = c as u32;
        assert(n / 16 < 16 && n % 16 < 16);
        assert(hex_value(hex_digit(n / 16)) == Some(n / 16));
        assert(hex_value(hex_digit(n % 16)) == Some(n % 16));
        assert(s.skip(6) =~= rest);
        assert((n / 16) * 16 + n % 16 == n);
        assert(n < 256);
        assert((((n / 16) * 16 + n % 16) as u8) as char == c);
    } else {
        assert(s.skip(1) =~= rest);
    }
}

/// Reading back what `escaped` wrote gives the text again.
pub proof fn lemma_unescaped_escaped(t: Seq<char>)
    ensures
        unescaped(escaped(t)) == Some(t),
    decreases t.len(),
{
    if t.len() == 0 {
    } else {
        lemma_unescaped_escaped(t.skip(1));
        lemma_unescaped_char(t[0], escaped(t.skip(1)));
        assert(seq![t[0]] + t.skip(1) =~= t);
    }
}

/// An escaped text holds no quote.
pub proof fn lemma_escaped_no_quote(t: Seq<char>)
    ensures
        forall|i: int| 0 <= i < escaped(t).len() ==> escaped(t)[i] != '"',
    decreases t.len(),
{
    if t.len() > 0 {
        lemma_escaped_no_quote(t.skip(1));
        let e = escaped_char(t[0]);
        assert(forall|i: int| 0 <= i < e.len() ==> e[i] != '"') by {
            if needs_escape(t[0]) {
                let n = t[0] as u32;
                assert(n / 16 < 16 && n % 16 < 16);
            }
        }
        assert forall|i: int| 0 <= i < escaped(t).len() implies escaped(t)[i] != '"' by {
            if i < e.len() {
                assert(escaped(t)[i] == e[i]);
            } else {
                assert(escaped(t)[i] == escaped(t.skip(1))[i - e.len()]);
            }
        }
    }
}

fn hex_digit_exec(n: u32) -> (r: char)
    requires
        n < 16,
    ensures
        r == hex_digit(n),
{
    if n < 10 {
        ((n + 48) as u8) as char
    } else {
        ((n + 87) as u8) as char
    }
}

fn hex_value_exec(c: char) -> (r: Option<u32>)
    ensures
        r == hex_value(c),
{
    let n = c as u32;
    if 48 <= n && n < 58 {
        Some(n - 48)
    } else if 97 <= n && n < 103 {
        Some(n - 87)
    } else {
        None
    }
}

/// Appends the body of the JSON string that holds `t`.
pub fn push_escaped(out: &mut String, t: &str)
    ensures
        final(out)@ == old(out)@ + escaped(t@),
{
    let cs = chars_of(t);
    let mut i: usize = 0;
    while i < cs.len()
        invariant
            cs@ == t@,
            i <= cs@.len(),
            out@ == old(out)@ + escaped(cs@.take(i as int)),
        decreases cs@.len() - i,
    {
        let c = cs[i];
        proof {
            lemma_escaped_append(cs@.take(i as int), c);
            assert(cs@.take(i as int).push(c) =~= cs@.take(i + 1));
        }
        let n = c as u32;
        if c == '"' || c == '\\' || n < 32 {
            push_char(out, '\\');
            push_char(out, 'u');
            push_char(out, '0');
            push_char(out, '0');
            push_char(out, hex_digit_exec(n / 16));
            push_char(out, hex_digit_exec(n % 16));
        } else {
            push_char(out, c);
        }
        assert(out@ =~= old(out)@ + escaped(cs@.take(i + 1)));
        i += 1;
    }
    assert(cs@.take(cs@.len() as int) =~= cs@);
}

/// Reads back the body of a JSON string: the characters of `s` from `from`
/// up to `to`.
pub fn unescape(s: &Vec<char>, from: usize, to: usize) -> (r: Option<String>)
    requires
        from <= to <= s@.len(),
    ensures
        match r {
            Some(v) => unescaped(s@.subrange(from as int, to as int)) == Some(v@),
            None => unescaped(s@.subrange(from as int, to as int)) is None,
        },
{
    let ghost seg = s@.subrange(from as int, to as int);
    let mut out = String::new();
    let mut i: usize = from;
    while i < to
        invariant
            from <= i <= to <= s@.len(),
            seg == s@.subrange(from as int, to as int),
            unescaped(seg) == match unescaped(s@.subrange(i as int, to as int)) {
                Some(r) => Some(out@ + r),
                None => None::<Seq<char>>,
            },
        decreases to - i,
    {
        let ghost rest = s@.subrange(i as int, to as int);
        let c = s[i];
        if c == '\\' {
            if to - i >= 6 && s[i + 1] == 'u' && s[i + 2] == '0' && s[i + 3] == '0' {
                let hi = hex_value_exec(s[i + 4]);
                let lo = hex_value_exec(s[i + 5]);
                match (hi, lo) {
                    (Some(h), Some(l)) => {
                        let d = ((h * 16 + l) as u8) as char;
                        proof {
                            assert(rest.skip(6) =~= s@.subrange(i + 6, to as int));
                            assert(rest[4] == s@[i + 4] && rest[5] == s@[i + 5]);
                        }
                        let ghost before = out@;
                        push_char(&mut out, d);
                        proof {
                            match unescaped(s@.subrange(i + 6, to as int)) {
                                Some(r) => {
                                    assert(out@ + r =~= before + (seq![d] + r));
                                },
                                None => {},
                            }
                        }
                        i += 6;
                    },
                    _ => {
                        return None;
                    },
                }
            } else {
                return None;
            }
        } else {
            proof {
                assert(rest.skip(1) =~= s@.subrange(i + 1, to as int));
            }
            let ghost before = out@;
            push_char(&mut out, c);
            proof {
                match unescaped(s@.subrange(i + 1, to as int)) {
                    Some(r) => {
                        assert(out@ + r =~= before + (seq![c] + r));
                    },
                    None => {},
                }
            }
            i += 1;
        }
    }
    assert(out@ + Seq::<char>::empty() =~= out@);
    Some(out)
}

} // verus!

verus! {

/// The decimal digit character of `d` (below 10).
pub open spec fn digit_char(d: nat) -> char {
    ((d + 48) as u8) as char
}

pub open spec fn is_digit(c: char) -> bool {
    48 <= (c as u32) < 58
}

/// The decimal text of a natural number, without leading zeros.
pub open spec fn decimal(n: nat) -> Seq<char>
    decreases n,
{
    if n < 10 {
        seq![digit_char(n)]
    } else {
        decimal(n / 10).push(digit_char(n % 10))
    }
}

/// The JSON text of an integer.
pub open spec fn int_text(n: int) -> Seq<char> {
    if n < 0 {
        seq!['-'] + decimal((-n) as nat)
    } else {
        decimal(n as nat)
    }
}

/// The value of a text made of decimal digits.
pub open spec fn digits_value(s: Seq<char>) -> nat
    decreases s.len(),
{
    if s.len() == 0 {
        0
    } else {
        digits_value(s.drop_last()) * 10 + ((s.last() as u32) - 48) as nat
    }
}

/// The first index at or after `j` that holds no digit.
pub open spec fn digit_run(s: Seq<char>, j: int) -> int
    decreases s.len() - j,
{
    if 0 <= j < s.len() && is_digit(s[j]) {
        digit_run(s, j + 1)
    } else {
        j
    }
}

/// An integer read at `pos`: an optional minus sign and decimal digits, within
/// the range of `i64`; with the index after it.
pub open spec fn int_at(s: Seq<char>, pos: int) -> Option<(int, int)> {
    let neg = 0 <= pos < s.len() && s[pos] == '-';
    let start = if neg { pos + 1 } else { pos };
    let end = digit_run(s, start);
    let v = digits_value(s.subrange(start, end)) as int;
    if end == start || (neg && v > 0x8000_0000_0000_0000) || (!neg && v > 0x7fff_ffff_ffff_ffff) {
        None
    } else {
        Some((if neg { -v } else { v }, end))
    }
}

proof fn lemma_decimal(n: nat)
    ensures
        decimal(n).len() >= 1,
        forall|i: int| 0 <= i < decimal(n).len() ==> is_digit(#[trigger] decimal(n)[i]),
        digits_value(decimal(n)) == n,
    decreases n,
{
    let c = digit_char(n % 10);
    assert(c as u32 == n % 10 + 48);
    if n < 10 {
        assert(decimal(n).drop_last() =~= Seq::<char>::empty());
        assert(decimal(n).last() == c);
        assert(digits_value(Seq::<char>::empty()) == 0);
    } else {
        lemma_decimal(n / 10);
        assert(decimal(n).last() == c);
        assert(decimal(n).drop_last() =~= decimal(n / 10));
        assert(digits_value(decimal(n)) == digits_value(decimal(n / 10)) * 10 + n % 10);
        let d = decimal(n);
        assert(d.drop_last() =~= decimal(n / 10));
        assert forall|i: int| 0 <= i < d.len() implies is_digit(#[trigger] d[i]) by {
            if i < d.len() - 1 {
                assert(d[i] == decimal(n / 10)[i]);
            }
        }
    }
}

proof fn lemma_digit_run(s: Seq<char>, a: int, b: int, j: int)
    requires
        0 <= a <= j <= b <= s.len(),
        forall|i: int| a <= i < b ==> is_digit(#[trigger] s[i]),
        b == s.len() || !is_digit(s[b]),
    ensures
        digit_run(s, j) == b,
    decreases b - j,
{
    if j < b {
        lemma_digit_run(s, a, b, j + 1);
    }
}

proof fn lemma_digits_monotone(t: Seq<char>, i: int, k: int)
    requires
        0 <= i <= k <= t.len(),
    ensures
        digits_value(t.take(i)) <= digits_value(t.take(k)),
    decreases k - i,
{
    if i < k {
        lemma_digits_monotone(t, i, k - 1);
        assert(t.take(k).drop_last() =~= t.take(k - 1));
    }
}

/// Reading an integer where `int_text` wrote one gives it back.
proof fn lemma_int_at(a: Seq<char>, n: int, b: Seq<char>)
    requires
        i64::MIN <= n <= i64::MAX,
        b.len() == 0 || !is_digit(b[0]),
    ensures
        int_at(a + int_text(n) + b, a.len() as int) == Some((n, (a.len() + int_text(n).len()) as int)),
{
    let s = a + int_text(n) + b;
    let m: nat = if n < 0 { (-n) as nat } else { n as nat };
    lemma_decimal(m);
    let d = decimal(m);
    let start = if n < 0 { a.len() + 1 as int } else { a.len() as int };
    assert(s.subrange(start, start + d.len()) =~= d);
    assert forall|i: int| start <= i < start + d.len() implies is_digit(#[trigger] s[i]) by {
        assert(s[i] == d[i - start]);
    }
    if b.len() > 0 {
        assert(s[start + d.len()] == b[0]);
    }
    lemma_digit_run(s, start, start + d.len(), start);
    if n >= 0 {
        assert(d[0] != '-') by {
            assert(is_digit(d[0]));
        }
        assert(s[a.len() as int] == d[0]);
    }
}

/// Appends the decimal text of `n`.
pub(crate) fn push_decimal(out: &mut String, n: u64)
    ensures
        final(out)@ == old(out)@ + decimal(n as nat),
    decreases n,
{
    if n >= 10 {
        push_decimal(out, n / 10);
    }
    let d = ((n % 10) as u8 + 48) as char;
    push_char(out, d);
    assert(final(out)@ =~= old(out)@ + decimal(n as nat));
}

/// Appends the JSON text of `n`.
pub fn push_int(out: &mut String, n: i64)
    ensures
        final(out)@ == old(out)@ + int_text(n as int),
{
    if n < 0 {
        push_char(out, '-');
        let m = (0i128 - n as i128) as u64;
        push_decimal(out, m);
        assert(final(out)@ =~= old(out)@ + int_text(n as int));
    } else {
        push_decimal(out, n as u64);
    }
}

fn is_digit_exec(c: char) -> (r: bool)
    ensures
        r == is_digit(c),
{
    let n = c as u32;
    48 <= n && n < 58
}

/// Reads an integer at `pos`.
pub fn parse_int(s: &Vec<char>, pos: usize) -> (r: Option<(i64, usize)>)
    ensures
        match r {
            Some((v, e)) => int_at(s@, pos as int) == Some((v as int, e as int)),
            None => int_at(s@, pos as int) is None,
        },
{
    let n = s.len();
    let neg = pos < n && s[pos] == '-';
    let start = if neg { pos + 1 } else { pos };
    if start > n {
        return None;
    }
    let mut j: usize = start;
    let mut v: u128 = 0;
    while j < n && is_digit_exec(s[j])
        invariant
            n == s@.len(),
            neg == (0 <= pos < s@.len() && s@[pos as int] == '-'),
            start == if neg { pos + 1 } else { pos as int },
            start <= j <= n,
            digit_run(s@, start as int) == digit_run(s@, j as int),
            v as int == digits_value(s@.subrange(start as int, j as int)),
            v <= 0x8000_0000_0000_0000,
        decreases n - j,
    {
        let d = (s[j] as u32 - 48) as u128;
        let nv = v * 10 + d;
        let ghost t = s@.subrange(start as int, digit_run(s@, start as int));
        proof {
            assert(s@.subrange(start as int, j + 1).drop_last() =~= s@.subrange(start as int, j as int));
            assert(s@.subrange(start as int, j + 1).last() == s@[j as int]);
            assert(nv as int == digits_value(s@.subrange(start as int, j + 1)));
        }
        if nv > 0x8000_0000_0000_0000 {
            proof {
                lemma_digit_run_bound(s@, j as int);
                assert(t.take(j + 1 - start) =~= s@.subrange(start as int, j + 1));
                assert(t.take(t.len() as int) =~= t);
                lemma_digits_monotone(t, j + 1 - start, t.len() as int);
                assert(digits_value(t) >= nv);
                assert(digit_run(s@, start as int) > start);
                assert(int_at(s@, pos as int) is None);
            }
            return None;
        }
        v = nv;
        j += 1;
    }
    assert(digit_run(s@, j as int) == j);
    if j == start {
        return None;
    }
    if neg {
        if v == 0x8000_0000_0000_0000 {
            Some((i64::MIN, j))
        } else {
            Some((0 - (v as i64), j))
        }
    } else if v > 0x7fff_ffff_ffff_ffff {
        None
    } else {
        Some((v as i64, j))
    }
}

proof fn lemma_digit_run_bound(s: Seq<char>, j: int)
    requires
        0 <= j < s.len(),
        is_digit(s[j]),
    ensures
        j < digit_run(s, j) <= s.len(),
    decreases s.len() - j,
{
    if j + 1 < s.len() && is_digit(s[j + 1]) {
        lemma_digit_run_bound(s, j + 1);
    } else {
        assert(digit_run(s, j + 1) == j + 1);
    }
}

} // verus!

verus! {

/// The first index at or after `j` that holds a quote, or the length.
pub open spec fn quote_from(s: Seq<char>, j: int) -> int
    decreases s.len() - j,
{
    if 0 <= j < s.len() && s[j] != '"' {
        quote_from(s, j + 1)
    } else {
        j
    }
}

/// A JSON string read at `pos`, with the index after its closing quote.
pub open spec fn string_at(s: Seq<char>, pos: int) -> Option<(Seq<char>, int)> {
    if 0 <= pos < s.len() && s[pos] == '"' {
        let q = quote_from(s, pos + 1);
        if q < s.len() {
            match unescaped(s.subrange(pos + 1, q)) {
                Some(t) => Some((t, q + 1)),
                None => None,
            }
        } else {
            None
        }
    } else {
        None
    }
}

proof fn lemma_quote_from(s: Seq<char>, a: int, b: int, j: int)
    requires
        0 <= a <= j <= b < s.len(),
        forall|i: int| a <= i < b ==> #[trigger] s[i] != '"',
        s[b] == '"',
    ensures
        quote_from(s, j) == b,
    decreases b - j,
{
    if j < b {
        lemma_quote_from(s, a, b, j + 1);
    }
}

/// Reading a JSON string where `json_string` wrote one gives the text back.
proof fn lemma_string_at(a: Seq<char>, t: Seq<char>, b: Seq<char>)
    ensures
        string_at(a + json_string(t) + b, a.len() as int) == Some(
            (t, (a.len() + json_string(t).len()) as int),
        ),
{
    let s = a + json_string(t) + b;
    let e = escaped(t);
    let p = a.len() as int;
    lemma_escaped_no_quote(t);
    lemma_unescaped_escaped(t);
    assert(s[p] == '"');
    assert(s[p + 1 + e.len()] == '"');
    assert forall|i: int| p + 1 <= i < p + 1 + e.len() implies #[trigger] s[i] != '"' by {
        assert(s[i] == e[i - p - 1]);
    }
    lemma_quote_from(s, p + 1, p + 1 + e.len(), p + 1);
    assert(s.subrange(p + 1, p + 1 + e.len()) =~= e);
}

/// Reads a JSON string at `pos`.
pub fn parse_string(s: &Vec<char>, pos: usize) -> (r: Option<(String, usize)>)
    ensures
        match r {
            Some((v, e)) => string_at(s@, pos as int) == Some((v@, e as int)),
            None => string_at(s@, pos as int) is None,
        },
{
    let n = s.len();
    if pos >= n || s[pos] != '"' {
        return None;
    }
    let mut q: usize = pos + 1;
    while q < n && s[q] != '"'
        invariant
            n == s@.len(),
            pos + 1 <= q <= n,
            quote_from(s@, pos + 1) == quote_from(s@, q as int),
        decreases n - q,
    {
        q += 1;
    }
    assert(quote_from(s@, q as int) == q);
    if q >= n {
        return None;
    }
    match unescape(s, pos + 1, q) {
        Some(t) => Some((t, q + 1)),
        None => None,
    }
}

/// Whether `lit` stands in `s` at `pos`.
pub open spec fn literal_ok(s: Seq<char>, pos: int, lit: Seq<char>) -> bool {
    0 <= pos && pos + lit.len() <= s.len() && s.subrange(pos, pos + lit.len()) == lit
}

/// A JSON member of string value: `key` (its name, colon included) and the string.
pub open spec fn string_field(s: Seq<char>, pos: int, key: Seq<char>) -> Option<(Seq<char>, int)> {
    if literal_ok(s, pos, key) {
        string_at(s, pos + key.len())
    } else {
        None
    }
}

/// A JSON member of integer value: `key` (its name, colon included) and the integer.
pub open spec fn int_field(s: Seq<char>, pos: int, key: Seq<char>) -> Option<(int, int)> {
    if literal_ok(s, pos, key) {
        int_at(s, pos + key.len())
    } else {
        None
    }
}

fn read_string_field(s: &Vec<char>, pos: usize, key: &str) -> (r: Option<(String, usize)>)
    ensures
        match r {
            Some((v, e)) => string_field(s@, pos as int, key@) == Some((v@, e as int)),
            None => string_field(s@, pos as int, key@) is None,
        },
{
    let n = s.len();
    if literal_at(s, pos, key) {
        let k = key.unicode_len();
        assert(pos + k <= n);
        parse_string(s, pos + k)
    } else {
        None
    }
}

fn read_int_field(s: &Vec<char>, pos: usize, key: &str) -> (r: Option<(i64, usize)>)
    ensures
        match r {
            Some((v, e)) => int_field(s@, pos as int, key@) == Some((v as int, e as int)),
            None => int_field(s@, pos as int, key@) is None,
        },
{
    let n = s.len();
    if literal_at(s, pos, key) {
        let k = key.unicode_len();
        assert(pos + k <= n);
        parse_int(s, pos + k)
    } else {
        None
    }
}

} // verus!

verus! {

/// The claims carried by an access or a refresh token.
#[derive(Debug)]
pub struct EdrClaims {
    /// The token's id: the text of a token id or of a refresh token id.
    pub jti: String,
    pub aud: String,
    pub iss: String,
    /// The participant the transfer was started for.
    pub sub: String,
    /// Expiry, in seconds since the epoch.
    pub exp: i64,
    /// Issue time, in seconds since the epoch.
    pub iat: i64,
    pub transfer_id: String,
}

/// The mathematical value of a set of claims.
pub struct ClaimsView {
    pub jti: Seq<char>,
    pub aud: Seq<char>,
    pub iss: Seq<char>,
    pub sub: Seq<char>,
    pub exp: i64,
    pub iat: i64,
    pub transfer_id: Seq<char>,
}

impl View for EdrClaims {
    type V = ClaimsView;

    open spec fn view(&self) -> ClaimsView {
        ClaimsView {
            jti: self.jti@,
            aud: self.aud@,
            iss: self.iss@,
            sub: self.sub@,
            exp: self.exp,
            iat: self.iat,
            transfer_id: self.transfer_id@,
        }
    }
}

impl EdrClaims {
    pub fn transfer_id(&self) -> (r: &str)
        ensures
            r@ == self.transfer_id@,
    {
        self.transfer_id.as_str()
    }

    pub fn jti(&self) -> (r: &str)
        ensures
            r@ == self.jti@,
    {
        self.jti.as_str()
    }
}

/// The text of the claims up to and including the member `jti`.
#[verifier::opaque]
pub open spec fn claims_part1(c: ClaimsView) -> Seq<char> {
    "{\"jti\":"@ + json_string(c.jti)
}

#[verifier::opaque]
pub open spec fn claims_part2(c: ClaimsView) -> Seq<char> {
    claims_part1(c) + ",\"aud\":"@ + json_string(c.aud)
}

#[verifier::opaque]
pub open spec fn claims_part3(c: ClaimsView) -> Seq<char> {
    claims_part2(c) + ",\"iss\":"@ + json_string(c.iss)
}

#[verifier::opaque]
pub open spec fn claims_part4(c: ClaimsView) -> Seq<char> {
    claims_part3(c) + ",\"sub\":"@ + json_string(c.sub)
}

#[verifier::opaque]
pub open spec fn claims_part5(c: ClaimsView) -> Seq<char> {
    claims_part4(c) + ",\"exp\":"@ + int_text(c.exp as int)
}

#[verifier::opaque]
pub open spec fn claims_part6(c: ClaimsView) -> Seq<char> {
    claims_part5(c) + ",\"iat\":"@ + int_text(c.iat as int)
}

#[verifier::opaque]
pub open spec fn claims_part7(c: ClaimsView) -> Seq<char> {
    claims_part6(c) + ",\"transfer_id\":"@ + json_string(c.transfer_id)
}

/// The JSON object that carries the claims in a token: the members `jti`,
/// `aud`, `iss`, `sub`, `exp`, `iat` and `transfer_id`, in this order.
#[verifier::opaque]
pub open spec fn claims_json(c: ClaimsView) -> Seq<char> {
    claims_part7(c) + "}"@
}

/// Claims read member by member from `s`, as `claims_json` lays them out,
/// without checking that each member is written as `claims_json` writes it.
#[verifier::opaque]
pub open spec fn claims_read(s: Seq<char>) -> Option<ClaimsView> {
    match string_field(s, 0, "{\"jti\":"@) {
        None => None,
        Some((jti, p1)) => match string_field(s, p1, ",\"aud\":"@) {
            None => None,
            Some((aud, p2)) => match string_field(s, p2, ",\"iss\":"@) {
                None => None,
                Some((iss, p3)) => match string_field(s, p3, ",\"sub\":"@) {
                    None => None,
                    Some((sub, p4)) => match int_field(s, p4, ",\"exp\":"@) {
                        None => None,
                        Some((exp, p5)) => match int_field(s, p5, ",\"iat\":"@) {
                            None => None,
                            Some((iat, p6)) => match string_field(s, p6, ",\"transfer_id\":"@) {
                                None => None,
                                Some((transfer_id, p7)) => if literal_ok(s, p7, "}"@) && p7 + 1
                                    == s.len() {
                                    Some(
                                        ClaimsView {
                                            jti,
                                            aud,
                                            iss,
                                            sub,
                                            exp: exp as i64,
                                            iat: iat as i64,
                                            transfer_id,
                                        },
                                    )
                                } else {
                                    None
                                },
                            },
                        },
                    },
                },
            },
        },
    }
}

proof fn lemma_string_field(a: Seq<char>, key: Seq<char>, t: Seq<char>, b: Seq<char>)
    ensures
        string_field(a + key + json_string(t) + b, a.len() as int, key) == Some(
            (t, (a.len() + key.len() + json_string(t).len()) as int),
        ),
{
    let s = a + key + json_string(t) + b;
    assert(s.subrange(a.len() as int, (a.len() + key.len()) as int) =~= key);
    assert(s =~= (a + key) + json_string(t) + b);
    lemma_string_at(a + key, t, b);
}

proof fn lemma_int_field(a: Seq<char>, key: Seq<char>, n: i64, b: Seq<char>)
    requires
        b.len() == 0 || !is_digit(b[0]),
    ensures
        int_field(a + key + int_text(n as int) + b, a.len() as int, key) == Some(
            (n as int, (a.len() + key.len() + int_text(n as int).len()) as int),
        ),
{
    let s = a + key + int_text(n as int) + b;
    assert(s.subrange(a.len() as int, (a.len() + key.len()) as int) =~= key);
    assert(s =~= (a + key) + int_text(n as int) + b);
    lemma_int_at(a + key, n as int, b);
}

/// `prefix` followed by what comes after it in `s`.
proof fn lemma_split(s: Seq<char>, prefix: Seq<char>)
    requires
        prefix.len() <= s.len(),
        s.take(prefix.len() as int) == prefix,
    ensures
        s == prefix + s.skip(prefix.len() as int),
{
    assert(s =~= prefix + s.skip(prefix.len() as int));
}

proof fn lemma_prefix(s: Seq<char>, longer: Seq<char>, shorter: Seq<char>, rest: Seq<char>)
    requires
        longer.len() <= s.len(),
        s.take(longer.len() as int) == longer,
        longer == shorter + rest,
    ensures
        shorter.len() <= s.len(),
        s.take(shorter.len() as int) == shorter,
{
    assert(s.take(shorter.len() as int) =~= longer.take(shorter.len() as int));
    assert(longer.take(shorter.len() as int) =~= shorter);
}

proof fn lemma_step_string(s: Seq<char>, prev: Seq<char>, key: Seq<char>, t: Seq<char>, next: Seq<char>)
    requires
        next == prev + key + json_string(t),
        next.len() <= s.len(),
        s.take(next.len() as int) == next,
    ensures
        string_field(s, prev.len() as int, key) == Some((t, next.len() as int)),
{
    lemma_split(s, next);
    lemma_string_field(prev, key, t, s.skip(next.len() as int));
}

proof fn lemma_step_int(s: Seq<char>, prev: Seq<char>, key: Seq<char>, n: i64, next: Seq<char>)
    requires
        next == prev + key + int_text(n as int),
        next.len() < s.len(),
        s.take(next.len() as int) == next,
        s[next.len() as int] == ',',
    ensures
        int_field(s, prev.len() as int, key) == Some((n as int, next.len() as int)),
{
    lemma_split(s, next);
    let b = s.skip(next.len() as int);
    assert(b[0] == ',');
    lemma_int_field(prev, key, n, b);
}

proof fn lemma_parts(c: ClaimsView)
    ensures
        claims_part1(c) == Seq::<char>::empty() + "{\"jti\":"@ + json_string(c.jti),
        claims_part2(c) == claims_part1(c) + ",\"aud\":"@ + json_string(c.aud),
        claims_part3(c) == claims_part2(c) + ",\"iss\":"@ + json_string(c.iss),
        claims_part4(c) == claims_part3(c) + ",\"sub\":"@ + json_string(c.sub),
        claims_part5(c) == claims_part4(c) + ",\"exp\":"@ + int_text(c.exp as int),
        claims_part6(c) == claims_part5(c) + ",\"iat\":"@ + int_text(c.iat as int),
        claims_part7(c) == claims_part6(c) + ",\"transfer_id\":"@ + json_string(c.transfer_id),
        claims_json(c) == claims_part7(c) + "}"@,
{
    reveal(claims_json);
    reveal(claims_part1);
    reveal(claims_part2);
    reveal(claims_part3);
    reveal(claims_part4);
    reveal(claims_part5);
    reveal(claims_part6);
    reveal(claims_part7);
    assert(claims_part1(c) =~= Seq::<char>::empty() + "{\"jti\":"@ + json_string(c.jti));
}

proof fn lemma_read_steps(s: Seq<char>, c: ClaimsView, n1: int, n2: int, n3: int, n4: int, n5: int, n6: int, n7: int)
    requires
        string_field(s, 0, "{\"jti\":"@) == Some((c.jti, n1)),
        string_field(s, n1, ",\"aud\":"@) == Some((c.aud, n2)),
        string_field(s, n2, ",\"iss\":"@) == Some((c.iss, n3)),
        string_field(s, n3, ",\"sub\":"@) == Some((c.sub, n4)),
        int_field(s, n4, ",\"exp\":"@) == Some((c.exp as int, n5)),
        int_field(s, n5, ",\"iat\":"@) == Some((c.iat as int, n6)),
        string_field(s, n6, ",\"transfer_id\":"@) == Some((c.transfer_id, n7)),
        literal_ok(s, n7, "}"@),
        n7 + 1 == s.len(),
    ensures
        claims_read(s) == Some(c),
{
    reveal(claims_read);
}

/// Each part of the claims text is a prefix of it.
proof fn lemma_claims_prefixes(c: ClaimsView)
    ensures
        claims_part1(c).len() <= claims_json(c).len(),
        claims_json(c).take(claims_part1(c).len() as int) == claims_part1(c),
        claims_part2(c).len() <= claims_json(c).len(),
        claims_json(c).take(claims_part2(c).len() as int) == claims_part2(c),
        claims_part3(c).len() <= claims_json(c).len(),
        claims_json(c).take(claims_part3(c).len() as int) == claims_part3(c),
        claims_part4(c).len() <= claims_json(c).len(),
        claims_json(c).take(claims_part4(c).len() as int) == claims_part4(c),
        claims_part5(c).len() <= claims_json(c).len(),
        claims_json(c).take(claims_part5(c).len() as int) == claims_part5(c),
        claims_part6(c).len() <= claims_json(c).len(),
        claims_json(c).take(claims_part6(c).len() as int) == claims_part6(c),
        claims_part7(c).len() <= claims_json(c).len(),
        claims_json(c).take(claims_part7(c).len() as int) == claims_part7(c),
{
    let s = claims_json(c);
    let p1 = claims_part1(c);
    let p2 = claims_part2(c);
    let p3 = claims_part3(c);
    let p4 = claims_part4(c);
    let p5 = claims_part5(c);
    let p6 = claims_part6(c);
    let p7 = claims_part7(c);
    lemma_parts(c);
    assert(s.take(p7.len() as int) =~= p7);
    assert(p7 =~= p6 + (",\"transfer_id\":"@ + json_string(c.transfer_id)));
    lemma_prefix(s, p7, p6, ",\"transfer_id\":"@ + json_string(c.transfer_id));
    assert(p6 =~= p5 + (",\"iat\":"@ + int_text(c.iat as int)));
    lemma_prefix(s, p6, p5, ",\"iat\":"@ + int_text(c.iat as int));
    assert(p5 =~= p4 + (",\"exp\":"@ + int_text(c.exp as int)));
    lemma_prefix(s, p5, p4, ",\"exp\":"@ + int_text(c.exp as int));
    assert(p4 =~= p3 + (",\"sub\":"@ + json_string(c.sub)));
    lemma_prefix(s, p4, p3, ",\"sub\":"@ + json_string(c.sub));
    assert(p3 =~= p2 + (",\"iss\":"@ + json_string(c.iss)));
    lemma_prefix(s, p3, p2, ",\"iss\":"@ + json_string(c.iss));
    assert(p2 =~= p1 + (",\"aud\":"@ + json_string(c.aud)));
    lemma_prefix(s, p2, p1, ",\"aud\":"@ + json_string(c.aud));
}

/// Reading the claims member by member where `claims_json` wrote them gives
/// them back.
#[verifier::rlimit(60)]
pub(crate) proof fn lemma_claims_read(c: ClaimsView)
    ensures
        claims_read(claims_json(c)) == Some(c),
{
    let s = claims_json(c);
    let p1 = claims_part1(c);
    let p2 = claims_part2(c);
    let p3 = claims_part3(c);
    let p4 = claims_part4(c);
    let p5 = claims_part5(c);
    let p6 = claims_part6(c);
    let p7 = claims_part7(c);
    lemma_parts(c);
    lemma_claims_prefixes(c);
    reveal_strlit(",\"iat\":");
    reveal_strlit(",\"transfer_id\":");
    reveal_strlit("}");
    lemma_step_string(s, Seq::empty(), "{\"jti\":"@, c.jti, p1);
    lemma_step_string(s, p1, ",\"aud\":"@, c.aud, p2);
    lemma_step_string(s, p2, ",\"iss\":"@, c.iss, p3);
    lemma_step_string(s, p3, ",\"sub\":"@, c.sub, p4);
    assert(s[p5.len() as int] == p6[p5.len() as int]);
    assert(s[p5.len() as int] == ',');
    lemma_step_int(s, p4, ",\"exp\":"@, c.exp, p5);
    assert(s[p6.len() as int] == p7[p6.len() as int]);
    assert(s[p6.len() as int] == ',');
    lemma_step_int(s, p5, ",\"iat\":"@, c.iat, p6);
    lemma_step_string(s, p6, ",\"transfer_id\":"@, c.transfer_id, p7);
    assert(s.subrange(p7.len() as int, p7.len() + 1 as int) =~= "}"@);
    lemma_read_steps(
        s,
        c,
        p1.len() as int,
        p2.len() as int,
        p3.len() as int,
        p4.len() as int,
        p5.len() as int,
        p6.len() as int,
        p7.len() as int,
    );
}

/// The claims text starts with `{` and ends with `}`: no white space
/// surrounds it.
pub proof fn lemma_claims_json_trimmed(c: ClaimsView)
    ensures
        json_trimmed(claims_json(c)),
{
    lemma_parts(c);
    reveal_strlit("{\"jti\":");
    reveal_strlit("}");
    let s = claims_json(c);
    let p1 = claims_part1(c);
    assert(p1[0] == '{');
    assert(claims_part2(c)[0] == '{');
    assert(claims_part3(c)[0] == '{');
    assert(claims_part4(c)[0] == '{');
    assert(claims_part5(c)[0] == '{');
    assert(claims_part6(c)[0] == '{');
    assert(claims_part7(c)[0] == '{');
    assert(s[0] == '{');
    assert(s.last() == '}');
}

fn push_json_string(out: &mut String, t: &str)
    ensures
        final(out)@ == old(out)@ + json_string(t@),
{
    push_char(out, '"');
    push_escaped(out, t);
    push_char(out, '"');
    assert(final(out)@ =~= old(out)@ + json_string(t@));
}

impl EdrClaims {
    /// The JSON object that carries these claims in a token.
    pub fn to_json(&self) -> (r: String)
        ensures
            r@ == claims_json(self@),
    {
        let mut out = String::new();
        push_str(&mut out, "{\"jti\":");
        push_json_string(&mut out, self.jti.as_str());
        push_str(&mut out, ",\"aud\":");
        push_json_string(&mut out, self.aud.as_str());
        push_str(&mut out, ",\"iss\":");
        push_json_string(&mut out, self.iss.as_str());
        push_str(&mut out, ",\"sub\":");
        push_json_string(&mut out, self.sub.as_str());
        push_str(&mut out, ",\"exp\":");
        push_int(&mut out, self.exp);
        push_str(&mut out, ",\"iat\":");
        push_int(&mut out, self.iat);
        push_str(&mut out, ",\"transfer_id\":");
        push_json_string(&mut out, self.transfer_id.as_str());
        push_str(&mut out, "}");
        proof {
            reveal(claims_json);
            reveal(claims_part1);
            reveal(claims_part2);
            reveal(claims_part3);
            reveal(claims_part4);
            reveal(claims_part5);
            reveal(claims_part6);
            reveal(claims_part7);
        }
        assert(out@ =~= claims_json(self@));
        out
    }

    /// Reads claims from the JSON object of a token. Exactly the texts that
    /// `to_json` writes are accepted, each giving the claims it was written from.
    pub fn from_json(text: &str) -> (r: Option<EdrClaims>)
        ensures
            r matches Some(c) ==> claims_json(c@) == text@,
            forall|m: ClaimsView| claims_json(m) == text@ ==> (r matches Some(c) && c@ == m),
    {
        let s = chars_of(text);
        let r = read_claims(&s);
        proof {
            assert forall|m: ClaimsView| claims_json(m) == text@ implies claims_read(s@) == Some(
                m,
            ) by {
                lemma_claims_read(m);
            }
        }
        match r {
            Some(c) => {
                let back = c.to_json();
                let given = text.to_owned();
                if back == given {
                    Some(c)
                } else {
                    None
                }
            },
            None => None,
        }
    }
}

fn read_claims(s: &Vec<char>) -> (r: Option<EdrClaims>)
    ensures
        match r {
            Some(c) => claims_read(s@) == Some(c@),
            None => claims_read(s@) is None,
        },
{
    proof {
        reveal(claims_read);
    }
    let (jti, p1) = match read_string_field(s, 0, "{\"jti\":") {
        Some(x) => x,
        None => return None,
    };
    let (aud, p2) = match read_string_field(s, p1, ",\"aud\":") {
        Some(x) => x,
        None => return None,
    };
    let (iss, p3) = match read_string_field(s, p2, ",\"iss\":") {
        Some(x) => x,
        None => return None,
    };
    let (sub, p4) = match read_string_field(s, p3, ",\"sub\":") {
        Some(x) => x,
        None => return None,
    };
    let (exp, p5) = match read_int_field(s, p4, ",\"exp\":") {
        Some(x) => x,
        None => return None,
    };
    let (iat, p6) = match read_int_field(s, p5, ",\"iat\":") {
        Some(x) => x,
        None => return None,
    };
    let (transfer_id, p7) = match read_string_field(s, p6, ",\"transfer_id\":") {
        Some(x) => x,
        None => return None,
    };
    if literal_at(s, p7, "}") && p7 < s.len() && p7 + 1 == s.len() {
        Some(EdrClaims { jti, aud, iss, sub, exp, iat, transfer_id })
    } else {
        None
    }
}

} // verus!
