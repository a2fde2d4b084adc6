//! The building blocks of canonical JSON: strings and integers.
//!
//! A canonical text is the one text that stands for a value: members in the
//! order of their names, no white space, integers in decimal without leading
//! zeros, and strings with the shortest escapes. Signatures and hashes are
//! taken of the UTF-8 bytes of such a text.

use crate::crypto::hex_digit;
use vstd::prelude::*;

verus! {

/// How one character of a string is written inside the quotes: the quote and
/// the backslash behind a backslash, the control characters by their short
/// escape or else by `\u00` and two lower-case hexadecimal digits, and every
/// other character as it is.
pub open spec fn escape_char(c: char) -> Seq<char> {
    if c == '"' {
        seq!['\\', '"']
    } else if c == '\\' {
        seq!['\\', '\\']
    } else if c == '\u{8}' {
        seq!['\\', 'b']
    } else if c == '\u{c}' {
        seq!['\\', 'f']
    } else if c == '\n' {
        seq!['\\', 'n']
    } else if c == '\r' {
        seq!['\\', 'r']
    } else if c == '\t' {
        seq!['\\', 't']
    } else if (c as u32) < 0x20 {
        seq!['\\', 'u', '0', '0', hex_digit(c as int / 16), hex_digit(c as int % 16)]
    } else {
        seq![c]
    }
}

/// The characters of a string, each written as `escape_char` says.
pub open spec fn escape(s: Seq<char>) -> Seq<char>
    decreases s.len(),
{
    if s.len() == 0 {
        Seq::empty()
    } else {
        escape(s.drop_last()) + escape_char(s.last())
    }
}

/// A string as canonical JSON: its escaped characters between quotes.
pub open spec fn json_string(s: Seq<char>) -> Seq<char> {
    seq!['"'] + escape(s) + seq!['"']
}

/// A natural number in decimal, without leading zeros.
pub open spec fn digits(n: nat) -> Seq<char>
    decreases n,
{
    if n < 10 {
        seq![hex_digit(n as int)]
    } else {
        digits(n / 10) + seq![hex_digit((n % 10) as int)]
    }
}

/// An integer as canonical JSON: in decimal, with a minus sign where it is
/// negative.
pub open spec fn decimal(n: int) -> Seq<char> {
    if n < 0 {
        seq!['-'] + digits((-n) as nat)
    } else {
        digits(n as nat)
    }
}

/// The text of one lower-case hexadecimal digit.
fn digit_text(value: u8) -> (text: &'static str)
    requires
        value < 16,
    ensures
        text@ == seq![hex_digit(value as int)],
{
    proof {
        reveal_strlit("0");
        reveal_strlit("1");
        reveal_strlit("2");
        reveal_strlit("3");
        reveal_strlit("4");
        reveal_strlit("5");
        reveal_strlit("6");
        reveal_strlit("7");
        reveal_strlit("8");
        reveal_strlit("9");
        reveal_strlit("a");
        reveal_strlit("b");
        reveal_strlit("c");
        reveal_strlit("d");
        reveal_strlit("e");
        reveal_strlit("f");
    }
    let text = match value {
        0 => "0",
        1 => "1",
        2 => "2",
        3 => "3",
        4 => "4",
        5 => "5",
        6 => "6",
        7 => "7",
        8 => "8",
        9 => "9",
        10 => "a",
        11 => "b",
        12 => "c",
        13 => "d",
        14 => "e",
        _ => "f",
    };
    assert(text@ =~= seq![hex_digit(value as int)]);
    text
}

/// Appends `n` in decimal to `out`.
pub fn push_unsigned(out: &mut String, n: u64)
    ensures
        final(out)@ == old(out)@ + digits(n as nat),
    decreases n,
{
    if n >= 10 {
        push_unsigned(out, n / 10);
    }
    out.append(digit_text((n % 10) as u8));
    proof {
        if n < 10 {
            assert(final(out)@ =~= old(out)@ + digits(n as nat));
        } else {
            assert(final(out)@ =~= old(out)@ + (digits((n / 10) as nat) + seq![
                hex_digit((n % 10) as int),
            ]));
        }
    }
}

/// Appends `n` in decimal to `out`.
pub fn push_decimal(out: &mut String, n: i64)
    ensures
        final(out)@ == old(out)@ + decimal(n as int),
{
    if n < 0 {
        proof {
            reveal_strlit("-");
        }
        out.append("-");
        let magnitude = (-(n as i128)) as u64;
        push_unsigned(out, magnitude);
        assert(final(out)@ =~= old(out)@ + (seq!['-'] + digits((-n) as nat)));
    } else {
        push_unsigned(out, n as u64);
    }
}

/// Appends one character, escaped, to `out`. `s` is a string that holds the
/// character at position `i`.
fn push_escaped_char(out: &mut String, s: &str, i: usize)
    requires
        i < s@.len(),
        s@.len() <= usize::MAX,
    ensures
        final(out)@ == old(out)@ + escape_char(s@[i as int]),
{
    let c = s.get_char(i);
    proof {
        reveal_strlit("\\\"");
        reveal_strlit("\\\\");
        reveal_strlit("\\b");
        reveal_strlit("\\f");
        reveal_strlit("\\n");
        reveal_strlit("\\r");
        reveal_strlit("\\t");
        reveal_strlit("\\u00");
    }
    if c == '"' {
        out.append("\\\"");
        assert(final(out)@ =~= old(out)@ + escape_char(c));
    } else if c == '\\' {
        out.append("\\\\");
        assert(final(out)@ =~= old(out)@ + escape_char(c));
    } else if c == '\u{8}' {
        out.append("\\b");
        assert(final(out)@ =~= old(out)@ + escape_char(c));
    } else if c == '\u{c}' {
        out.append("\\f");
        assert(final(out)@ =~= old(out)@ + escape_char(c));
    } else if c == '\n' {
        out.append("\\n");
        assert(final(out)@ =~= old(out)@ + escape_char(c));
    } else if c == '\r' {
        out.append("\\r");
        assert(final(out)@ =~= old(out)@ + escape_char(c));
    } else if c == '\t' {
        out.append("\\t");
        assert(final(out)@ =~= old(out)@ + escape_char(c));
    } else if (c as u32) < 0x20 {
        let code = c as u32;
        out.append("\\u00");
        out.append(digit_text((code / 16) as u8));
        out.append(digit_text((code % 16) as u8));
        assert(final(out)@ =~= old(out)@ + escape_char(c));
    } else {
        out.append(s.substring_char(i, i + 1));
        assert(s@.subrange(i as int, i + 1) =~= seq![c]);
        assert(final(out)@ =~= old(out)@ + escape_char(c));
    }
}

/// Appends `s` as a canonical JSON string to `out`.
pub fn push_json_string(out: &mut String, s: &str)
    ensures
        final(out)@ == old(out)@ + json_string(s@),
{
    proof {
        reveal_strlit("\"");
    }
    out.append("\"");
    let ghost opened = out@;
    let n = s.unicode_len();
    let mut i: usize = 0;
    while i < n
        invariant
            i <= n,
            n == s@.len(),
            opened == old(out)@ + seq!['"'],
            out@ == opened + escape(s@.subrange(0, i as int)),
        decreases n - i,
    {
        push_escaped_char(out, s, i);
        proof {
            let next = s@.subrange(0, i + 1);
            assert(next.drop_last() =~= s@.subrange(0, i as int));
            assert(next.last() == s@[i as int]);
            assert(out@ =~= opened + escape(next));
        }
        i += 1;
    }
    out.append("\"");
    proof {
        assert(s@.subrange(0, n as int) =~= s@);
        assert(final(out)@ =~= old(out)@ + json_string(s@));
    }
}

/// `String::push` appends one character.
pub assume_specification[ String::push ](s: &mut String, ch: char)
    ensures
        final(s)@ == old(s)@.push(ch),
;

/// The characters of a string as a list.
pub fn chars_of(s: &str) -> (chars: Vec<char>)
    ensures
        chars@ == s@,
{
    let n = s.unicode_len();
    let mut chars: Vec<char> = Vec::new();
    let mut i: usize = 0;
    while i < n
        invariant
            i <= n,
            n == s@.len(),
            chars@ == s@.subrange(0, i as int),
        decreases n - i,
    {
        chars.push(s.get_char(i));
        assert(chars@ =~= s@.subrange(0, i + 1));
        i += 1;
    }
    assert(s@.subrange(0, n as int) =~= s@);
    chars
}

/// The text `s` opens with `prefix`.
pub open spec fn starts_with(s: Seq<char>, prefix: Seq<char>) -> bool {
    s.len() >= prefix.len() && s.subrange(0, prefix.len() as int) == prefix
}

/// What follows `prefix` in `s`, where `s` opens with it.
pub open spec fn after(s: Seq<char>, prefix: Seq<char>) -> Option<Seq<char>> {
    if starts_with(s, prefix) {
        Some(s.skip(prefix.len() as int))
    } else {
        None
    }
}

/// The value of a lower-case hexadecimal digit.
pub open spec fn lower_hex_value(c: char) -> Option<int> {
    if '0' <= c <= '9' {
        Some(c as int - '0' as int)
    } else if 'a' <= c <= 'f' {
        Some(c as int - 'a' as int + 10)
    } else {
        None
    }
}

/// The character that the text at the start of `s` stands for inside a
/// canonical string, and how many characters of `s` spell it. There is none
/// at the closing quote, at a control character, and at an escape that the
/// canonical form does not use.
pub open spec fn unescape_one(s: Seq<char>) -> Option<(char, int)> {
    if s.len() == 0 {
        None
    } else if s[0] == '"' {
        None
    } else if s[0] == '\\' {
        if s.len() < 2 {
            None
        } else if s[1] == '"' {
            Some(('"', 2))
        } else if s[1] == '\\' {
            Some(('\\', 2))
        } else if s[1] == 'b' {
            Some(('\u{8}', 2))
        } else if s[1] == 'f' {
            Some(('\u{c}', 2))
        } else if s[1] == 'n' {
            Some(('\n', 2))
        } else if s[1] == 'r' {
            Some(('\r', 2))
        } else if s[1] == 't' {
            Some(('\t', 2))
        } else if s[1] == 'u' && s.len() >= 6 && s[2] == '0' && s[3] == '0' && (s[4] == '0'
            || s[4] == '1') && lower_hex_value(s[5]) is Some {
            let code = 16 * (s[4] as int - '0' as int) + lower_hex_value(s[5]).unwrap();
            let c = (code as u8) as char;
            if escape_char(c).len() == 6 {
                Some((c, 6))
            } else {
                None
            }
        } else {
            None
        }
    } else if (s[0] as u32) < 0x20 {
        None
    } else {
        Some((s[0], 1))
    }
}

/// `found` with `front` put before the characters that were read.
pub open spec fn prepend(front: Seq<char>, found: Option<(Seq<char>, Seq<char>)>) -> Option<
    (Seq<char>, Seq<char>),
> {
    match found {
        Some((text, rest)) => Some((front + text, rest)),
        None => None,
    }
}

/// Reads the inside of a canonical string up to its closing quote: the
/// characters that it stands for, and what follows the quote.
pub open spec fn read_body(s: Seq<char>) -> Option<(Seq<char>, Seq<char>)>
    decreases s.len(),
{
    match unescape_one(s) {
        Some((c, k)) => prepend(seq![c], read_body(s.skip(k))),
        None => if s.len() > 0 && s[0] == '"' {
            Some((Seq::empty(), s.skip(1)))
        } else {
            None
        },
    }
}

/// Reads a canonical string: the characters that it stands for, and what
/// follows it.
pub open spec fn read_string(s: Seq<char>) -> Option<(Seq<char>, Seq<char>)> {
    if s.len() > 0 && s[0] == '"' {
        read_body(s.skip(1))
    } else {
        None
    }
}

/// The character is a decimal digit.
pub open spec fn is_digit(c: char) -> bool {
    '0' <= c <= '9'
}

/// The number of decimal digits at the start of `s`.
pub open spec fn digit_run(s: Seq<char>) -> nat
    decreases s.len(),
{
    if s.len() > 0 && is_digit(s[0]) {
        1 + digit_run(s.drop_first())
    } else {
        0
    }
}

/// The number that a text of decimal digits stands for.
pub open spec fn digits_value(d: Seq<char>) -> nat
    decreases d.len(),
{
    if d.len() == 0 {
        0
    } else {
        (digits_value(d.drop_last()) * 10 + (d.last() as int - '0' as int)) as nat
    }
}

/// Reads a natural number in decimal without leading zeros: its value, and
/// what follows it.
pub open spec fn read_natural(s: Seq<char>) -> Option<(nat, Seq<char>)> {
    let k = digit_run(s) as int;
    if k == 0 {
        None
    } else if s[0] == '0' && k > 1 {
        None
    } else {
        Some((digits_value(s.subrange(0, k)), s.skip(k)))
    }
}

/// Reads a canonical integer: its value, and what follows it. A minus sign
/// before zero is not canonical.
pub open spec fn read_integer(s: Seq<char>) -> Option<(int, Seq<char>)> {
    if s.len() > 0 && s[0] == '-' {
        match read_natural(s.skip(1)) {
            Some((n, rest)) => if n == 0 {
                None
            } else {
                Some((-(n as int), rest))
            },
            None => None,
        }
    } else {
        match read_natural(s) {
            Some((n, rest)) => Some((n as int, rest)),
            None => None,
        }
    }
}

/// Reading a hexadecimal digit gives its value back.
pub proof fn lemma_hex_digit_value(n: int)
    requires
        0 <= n < 16,
    ensures
        lower_hex_value(hex_digit(n)) == Some(n),
        n < 10 ==> is_digit(hex_digit(n)) && hex_digit(n) as int - '0' as int == n,
        n == 0 <==> hex_digit(n) == '0',
        n == 1 ==> hex_digit(n) == '1',
{
    let digits = seq!['0', '1', '2', '3', '4', '5', '6', '7', '8', '9', 'a', 'b', 'c', 'd', 'e', 'f'];
    assert(digits[0] == '0' && digits[1] == '1' && digits[2] == '2' && digits[3] == '3');
    assert(digits[4] == '4' && digits[5] == '5' && digits[6] == '6' && digits[7] == '7');
    assert(digits[8] == '8' && digits[9] == '9' && digits[10] == 'a' && digits[11] == 'b');
    assert(digits[12] == 'c' && digits[13] == 'd' && digits[14] == 'e' && digits[15] == 'f');
}

/// An escaped character is read back, whatever follows it.
pub proof fn lemma_unescape_one(c: char, tail: Seq<char>)
    ensures
        unescape_one(escape_char(c) + tail) == Some((c, escape_char(c).len() as int)),
        (escape_char(c) + tail).skip(escape_char(c).len() as int) == tail,
{
    let e = escape_char(c);
    let s = e + tail;
    assert(s.skip(e.len() as int) =~= tail);
    if c == '"' || c == '\\' || c == '\u{8}' || c == '\u{c}' || c == '\n' || c == '\r' || c
        == '\t' {
        assert(s[0] == e[0] && s[1] == e[1]);
    } else if (c as u32) < 0x20 {
        let hi = c as int / 16;
        let lo = c as int % 16;
        lemma_hex_digit_value(hi);
        lemma_hex_digit_value(lo);
        assert(s[0] == e[0] && s[1] == e[1] && s[2] == e[2] && s[3] == e[3] && s[4] == e[4]
            && s[5] == e[5]);
        assert(s[4] == hex_digit(hi) && s[5] == hex_digit(lo));
        let code = 16 * (s[4] as int - '0' as int) + lower_hex_value(s[5]).unwrap();
        assert(code == c as int);
        assert((code as u8) as char == c);
    } else {
        assert(s[0] == c);
    }
}

/// Escaping works character by character from the front too.
pub proof fn lemma_escape_front(s: Seq<char>)
    requires
        s.len() > 0,
    ensures
        escape(s) == escape_char(s[0]) + escape(s.drop_first()),
    decreases s.len(),
{
    if s.len() == 1 {
        assert(s.drop_last() =~= Seq::<char>::empty());
        assert(s.drop_first() =~= Seq::<char>::empty());
        assert(escape(s) =~= escape_char(s[0]) + escape(s.drop_first()));
    } else {
        lemma_escape_front(s.drop_last());
        assert(s.drop_last().drop_first() =~= s.drop_first().drop_last());
        assert(s.drop_last()[0] == s[0]);
        assert(s.drop_first().last() == s.last());
        assert(escape(s) =~= escape_char(s[0]) + escape(s.drop_first()));
    }
}

/// The inside of a written string is read back up to its closing quote.
pub proof fn lemma_read_body(text: Seq<char>, rest: Seq<char>)
    ensures
        read_body(escape(text) + seq!['"'] + rest) == Some((text, rest)),
    decreases text.len(),
{
    let s = escape(text) + seq!['"'] + rest;
    if text.len() == 0 {
        assert(escape(text) =~= Seq::<char>::empty());
        assert(s[0] == '"');
        assert(s.skip(1) =~= rest);
    } else {
        let c = text[0];
        let tail = escape(text.drop_first()) + seq!['"'] + rest;
        lemma_escape_front(text);
        assert(s =~= escape_char(c) + tail);
        lemma_unescape_one(c, tail);
        lemma_read_body(text.drop_first(), rest);
        assert(seq![c] + text.drop_first() =~= text);
    }
}

/// A written string is read back, whatever follows it.
pub proof fn lemma_read_string(text: Seq<char>, rest: Seq<char>)
    ensures
        read_string(json_string(text) + rest) == Some((text, rest)),
{
    let s = json_string(text) + rest;
    assert(s[0] == '"');
    assert(s.skip(1) =~= escape(text) + seq!['"'] + rest);
    lemma_read_body(text, rest);
}

/// The digits of a number are digits, there is at least one, they stand for
/// the number, and only zero opens with a zero.
pub proof fn lemma_digits(n: nat)
    ensures
        digits(n).len() >= 1,
        forall|i: int| 0 <= i < digits(n).len() ==> is_digit(#[trigger] digits(n)[i]),
        digits_value(digits(n)) == n,
        digits(n)[0] == '0' ==> n == 0,
    decreases n,
{
    if n < 10 {
        lemma_hex_digit_value(n as int);
        let d = digits(n);
        assert(d.drop_last() =~= Seq::<char>::empty());
        assert(digits_value(d.drop_last()) == 0);
    } else {
        lemma_digits(n / 10);
        lemma_hex_digit_value((n % 10) as int);
        let front = digits(n / 10);
        let d = digits(n);
        assert(d.drop_last() =~= front);
        assert(d.last() == hex_digit((n % 10) as int));
        assert(d[0] == front[0]);
        assert forall|i: int| 0 <= i < d.len() implies is_digit(#[trigger] d[i]) by {
            if i < front.len() {
                assert(d[i] == front[i]);
            }
        }
    }
}

/// A run of `k` digits that is followed by no digit is the whole run.
pub proof fn lemma_digit_run(s: Seq<char>, k: int)
    requires
        0 <= k <= s.len(),
        forall|i: int| 0 <= i < k ==> is_digit(#[trigger] s[i]),
        k == s.len() || !is_digit(s[k]),
    ensures
        digit_run(s) == k,
    decreases k,
{
    if k > 0 {
        let tail = s.drop_first();
        assert forall|i: int| 0 <= i < k - 1 implies is_digit(#[trigger] tail[i]) by {
            assert(tail[i] == s[i + 1]);
        }
        if k - 1 < tail.len() {
            assert(tail[k - 1] == s[k]);
        }
        lemma_digit_run(tail, k - 1);
    }
}

/// A written integer is read back, where no digit follows it.
pub proof fn lemma_read_integer(n: int, rest: Seq<char>)
    requires
        rest.len() == 0 || !is_digit(rest[0]),
    ensures
        read_integer(decimal(n) + rest) == Some((n, rest)),
{
    let s = decimal(n) + rest;
    let m: nat = if n < 0 {
        (-n) as nat
    } else {
        n as nat
    };
    lemma_digits(m);
    let d = digits(m);
    let k = d.len() as int;
    let body = d + rest;
    assert forall|i: int| 0 <= i < k implies is_digit(#[trigger] body[i]) by {
        assert(body[i] == d[i]);
    }
    if k < body.len() {
        assert(body[k] == rest[0]);
    }
    lemma_digit_run(body, k);
    assert(body.subrange(0, k) =~= d);
    assert(body.skip(k) =~= rest);
    assert(body[0] == d[0]);
    if n < 0 {
        assert(s[0] == '-');
        assert(s.skip(1) =~= body);
    } else {
        assert(s =~= body);
        assert(is_digit(s[0]));
    }
}

/// Whether `chars` holds `literal` at the position `pos`. Returns the
/// position behind it.
pub fn expect_literal(chars: &Vec<char>, pos: usize, literal: &str) -> (next: Option<usize>)
    requires
        pos <= chars@.len(),
    ensures
        match next {
            Some(p) => pos <= p <= chars@.len() && after(chars@.skip(pos as int), literal@)
                == Some(chars@.skip(p as int)),
            None => after(chars@.skip(pos as int), literal@) is None,
        },
{
    let n = literal.unicode_len();
    if chars.len() - pos < n {
        return None;
    }
    let ghost s = chars@.skip(pos as int);
    let mut i: usize = 0;
    while i < n
        invariant
            i <= n,
            n == literal@.len(),
            pos + n <= chars@.len(),
            chars@.len() <= usize::MAX,
            s == chars@.skip(pos as int),
            forall|j: int| 0 <= j < i ==> s[j] == literal@[j],
        decreases n - i,
    {
        if chars[pos + i] != literal.get_char(i) {
            proof {
                assert(s[i as int] == chars@[pos + i]);
                if starts_with(s, literal@) {
                    assert(s.subrange(0, n as int)[i as int] == literal@[i as int]);
                }
            }
            return None;
        }
        assert(s[i as int] == chars@[pos + i]);
        i += 1;
    }
    proof {
        assert(s.subrange(0, n as int) =~= literal@);
        assert(s.skip(n as int) =~= chars@.skip(pos + n));
    }
    Some(pos + n)
}

/// The value of the lower-case hexadecimal digit `c`.
fn lower_hex_digit(c: char) -> (value: Option<u8>)
    ensures
        match value {
            Some(v) => lower_hex_value(c) == Some(v as int),
            None => lower_hex_value(c) is None,
        },
{
    if c >= '0' && c <= '9' {
        Some((c as u32 - '0' as u32) as u8)
    } else if c >= 'a' && c <= 'f' {
        Some((c as u32 - 'a' as u32 + 10) as u8)
    } else {
        None
    }
}

/// The character at `pos` of a canonical string and the position behind it.
fn read_one(chars: &Vec<char>, pos: usize) -> (r: Option<(char, usize)>)
    requires
        pos <= chars@.len(),
    ensures
        match r {
            Some((c, p)) => pos < p <= chars@.len() && unescape_one(chars@.skip(pos as int))
                == Some((c, p - pos)),
            None => unescape_one(chars@.skip(pos as int)) is None,
        },
{
    let ghost s = chars@.skip(pos as int);
    let n = chars.len();
    if pos >= n {
        return None;
    }
    let first = chars[pos];
    assert(s[0] == first);
    if first == '"' {
        None
    } else if first == '\\' {
        if n - pos < 2 {
            return None;
        }
        let second = chars[pos + 1];
        assert(s[1] == second);
        if second == '"' {
            Some(('"', pos + 2))
        } else if second == '\\' {
            Some(('\\', pos + 2))
        } else if second == 'b' {
            Some(('\u{8}', pos + 2))
        } else if second == 'f' {
            Some(('\u{c}', pos + 2))
        } else if second == 'n' {
            Some(('\n', pos + 2))
        } else if second == 'r' {
            Some(('\r', pos + 2))
        } else if second == 't' {
            Some(('\t', pos + 2))
        } else if second == 'u' && n - pos >= 6 {
            assert(s[2] == chars@[pos + 2] && s[3] == chars@[pos + 3] && s[4] == chars@[pos + 4]
                && s[5] == chars@[pos + 5]);
            if chars[pos + 2] != '0' || chars[pos + 3] != '0' {
                return None;
            }
            let high = chars[pos + 4];
            if high != '0' && high != '1' {
                return None;
            }
            match lower_hex_digit(chars[pos + 5]) {
                None => None,
                Some(low) => {
                    let code: u8 = (high as u32 - '0' as u32) as u8 * 16 + low;
                    let c = code as char;
                    if c == '\u{8}' || c == '\u{c}' || c == '\n' || c == '\r' || c == '\t' {
                        None
                    } else {
                        Some((c, pos + 6))
                    }
                },
            }
        } else {
            None
        }
    } else if (first as u32) < 0x20 {
        None
    } else {
        Some((first, pos + 1))
    }
}

/// Reads a canonical string at the position `pos`. Returns the string and
/// the position behind it.
pub fn read_string_at(chars: &Vec<char>, pos: usize) -> (r: Option<(String, usize)>)
    requires
        pos <= chars@.len(),
    ensures
        match r {
            Some((text, p)) => pos <= p <= chars@.len() && read_string(chars@.skip(pos as int))
                == Some((text@, chars@.skip(p as int))),
            None => read_string(chars@.skip(pos as int)) is None,
        },
{
    let n = chars.len();
    if pos >= n || chars[pos] != '"' {
        return None;
    }
    let ghost whole = chars@.skip(pos as int);
    assert(whole[0] == chars@[pos as int]);
    assert(whole.skip(1) =~= chars@.skip(pos + 1));
    let mut text = String::new();
    let mut at: usize = pos + 1;
    loop
        invariant
            pos < at <= chars@.len(),
            n == chars@.len(),
            read_string(chars@.skip(pos as int)) == prepend(
                text@,
                read_body(chars@.skip(at as int)),
            ),
        decreases chars@.len() - at,
    {
        let ghost here = chars@.skip(at as int);
        let ghost so_far = text@;
        match read_one(chars, at) {
            Some((c, next)) => {
                text.push(c);
                proof {
                    assert(here.skip(next - at) =~= chars@.skip(next as int));
                    let found = read_body(chars@.skip(next as int));
                    assert(read_body(here) == prepend(seq![c], found));
                    if found is Some {
                        assert(so_far + (seq![c] + found.unwrap().0) =~= text@
                            + found.unwrap().0);
                    }
                }
                at = next;
            },
            None => {
                if at < n && chars[at] == '"' {
                    proof {
                        assert(here[0] == chars@[at as int]);
                        assert(here.skip(1) =~= chars@.skip(at + 1));
                        assert(text@ + Seq::<char>::empty() =~= text@);
                    }
                    return Some((text, at + 1));
                } else {
                    proof {
                        if at < n {
                            assert(here[0] == chars@[at as int]);
                        }
                    }
                    return None;
                }
            },
        }
    }
}

/// The value of a longer run of digits is at least that of a shorter one.
pub proof fn lemma_digits_value_grows(d: Seq<char>, i: int)
    requires
        0 <= i <= d.len(),
        forall|j: int| 0 <= j < d.len() ==> is_digit(#[trigger] d[j]),
    ensures
        digits_value(d.subrange(0, i)) <= digits_value(d),
    decreases d.len() - i,
{
    if i == d.len() {
        assert(d.subrange(0, i) =~= d);
    } else {
        let longer = d.subrange(0, i + 1);
        assert(longer.drop_last() =~= d.subrange(0, i));
        assert(longer.last() == d[i]);
        lemma_digits_value_grows(d, i + 1);
    }
}

/// Reads a canonical integer at the position `pos`, where its value is in
/// the range of `i64`. Returns the value and the position behind it.
pub fn read_integer_at(chars: &Vec<char>, pos: usize) -> (r: Option<(i64, usize)>)
    requires
        pos <= chars@.len(),
    ensures
        match read_integer(chars@.skip(pos as int)) {
            Some((value, rest)) => if i64::MIN <= value <= i64::MAX {
                r matches Some((v, p)) && v == value && pos <= p <= chars@.len() && rest
                    == chars@.skip(p as int)
            } else {
                r is None
            },
            None => r is None,
        },
{
    let n = chars.len();
    let ghost s = chars@.skip(pos as int);
    let negative = pos < n && chars[pos] == '-';
    proof {
        if pos < n {
            assert(s[0] == chars@[pos as int]);
        }
    }
    let start: usize = if negative {
        pos + 1
    } else {
        pos
    };
    let ghost body = chars@.skip(start as int);
    proof {
        if negative {
            assert(s.skip(1) =~= body);
        }
    }
    let mut end: usize = start;
    while end < n && chars[end] >= '0' && chars[end] <= '9'
        invariant
            start <= end <= n,
            n == chars@.len(),
            forall|j: int| start <= j < end ==> is_digit(#[trigger] chars@[j]),
        decreases n - end,
    {
        end += 1;
    }
    let ghost k = end - start;
    proof {
        assert forall|j: int| 0 <= j < k implies is_digit(#[trigger] body[j]) by {
            assert(body[j] == chars@[start + j]);
        }
        if k < body.len() {
            assert(body[k] == chars@[end as int]);
        }
        lemma_digit_run(body, k);
        assert(body.skip(k) =~= chars@.skip(end as int));
    }
    if end == start {
        return None;
    }
    assert(body[0] == chars@[start as int]);
    if chars[start] == '0' && end - start > 1 {
        return None;
    }
    let ghost run = body.subrange(0, k);
    let limit: u128 = 9223372036854775808;
    let mut value: u128 = 0;
    let mut i: usize = start;
    while i < end
        invariant
            start <= i <= end <= n,
            n == chars@.len(),
            limit == 9223372036854775808,
            run == body.subrange(0, k),
            k == end - start,
            body == chars@.skip(start as int),
            forall|j: int| 0 <= j < run.len() ==> is_digit(#[trigger] run[j]),
            value == digits_value(run.subrange(0, i - start)),
            value <= limit,
            s == chars@.skip(pos as int),
            digit_run(body) == k,
            k >= 1,
            !(body[0] == '0' && k > 1),
            negative ==> s.len() > 0 && s[0] == '-' && s.skip(1) == body,
            !negative ==> s == body && !(s.len() > 0 && s[0] == '-'),
        decreases end - i,
    {
        let c = chars[i];
        proof {
            let longer = run.subrange(0, i - start + 1);
            assert(longer.drop_last() =~= run.subrange(0, i - start));
            assert(longer.last() == run[i - start]);
            assert(run[i - start] == chars@[i as int]);
            assert(is_digit(run[i - start]));
        }
        let next = value * 10 + (c as u32 - '0' as u32) as u128;
        if next > limit {
            proof {
                assert(next == digits_value(run.subrange(0, i - start + 1)));
                lemma_digits_value_grows(run, i - start + 1);
                assert(digits_value(run) > 9223372036854775808);
            }
            return None;
        }
        value = next;
        i += 1;
    }
    proof {
        assert(run.subrange(0, k) =~= run);
    }
    if negative {
        if value == 0 {
            None
        } else {
            Some(((-(value as i128)) as i64, end))
        }
    } else if value == limit {
        None
    } else {
        Some((value as i64, end))
    }
}

} // verus!
