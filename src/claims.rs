//! The claims payload carried inside a token: `{"sub":"<subject>","exp":<expiry>}`.
//!
//! The library writes this text itself and reads it back from a verified
//! token, so the exact shape of the payload is fixed here. Only `"` and `\`
//! are escaped; a subject with control characters is no JSON text, and the
//! signer refuses it.
use vstd::prelude::*;

verus! {

/// The text that opens the payload: `{"sub":"`.
pub open spec fn claims_head() -> Seq<char> {
    seq!['{', '"', 's', 'u', 'b', '"', ':', '"']
}

/// The text between subject and expiry: `","exp":`.
pub open spec fn claims_middle() -> Seq<char> {
    seq!['"', ',', '"', 'e', 'x', 'p', '"', ':']
}

/// Lower-case hexadecimal digit of `d` (0 to 15).
pub open spec fn hex_char(d: int) -> char {
    if d < 10 {
        digit_char(d)
    } else if d == 10 {
        'a'
    } else if d == 11 {
        'b'
    } else if d == 12 {
        'c'
    } else if d == 13 {
        'd'
    } else if d == 14 {
        'e'
    } else {
        'f'
    }
}

/// The value of a lower-case hexadecimal digit, and 16 for any other character.
pub open spec fn hex_value(c: char) -> int {
    if digit_value(c) < 10 {
        digit_value(c)
    } else if c == 'a' {
        10
    } else if c == 'b' {
        11
    } else if c == 'c' {
        12
    } else if c == 'd' {
        13
    } else if c == 'e' {
        14
    } else if c == 'f' {
        15
    } else {
        16
    }
}

/// A control character (below U+0020).
pub open spec fn is_control(c: char) -> bool {
    (c as u32) < 0x20
}

/// A quote or a backslash inside the subject is preceded by a backslash; a
/// control character is written `\u00XX`, with lower-case hex digits.
pub open spec fn escape_char(c: char) -> Seq<char> {
    if c == '"' || c == '\\' {
        seq!['\\', c]
    } else if is_control(c) {
        seq!['\\', 'u', '0', '0', hex_char((c as u32) as int / 16), hex_char((c as u32) as int % 16)]
    } else {
        seq![c]
    }
}

pub open spec fn escaped(s: Seq<char>) -> Seq<char>
    decreases s.len(),
{
    if s.len() == 0 {
        Seq::empty()
    } else {
        escaped(s.drop_last()) + escape_char(s.last())
    }
}

pub open spec fn digit_char(d: int) -> char {
    if d == 0 {
        '0'
    } else if d == 1 {
        '1'
    } else if d == 2 {
        '2'
    } else if d == 3 {
        '3'
    } else if d == 4 {
        '4'
    } else if d == 5 {
        '5'
    } else if d == 6 {
        '6'
    } else if d == 7 {
        '7'
    } else if d == 8 {
        '8'
    } else {
        '9'
    }
}

/// The value of a decimal digit, and 10 for any other character.
pub open spec fn digit_value(c: char) -> int {
    if c == '0' {
        0
    } else if c == '1' {
        1
    } else if c == '2' {
        2
    } else if c == '3' {
        3
    } else if c == '4' {
        4
    } else if c == '5' {
        5
    } else if c == '6' {
        6
    } else if c == '7' {
        7
    } else if c == '8' {
        8
    } else if c == '9' {
        9
    } else {
        10
    }
}

pub open spec fn all_digits(s: Seq<char>) -> bool {
    forall|i: int| 0 <= i < s.len() ==> digit_value(#[trigger] s[i]) < 10
}

/// The shortest decimal text of `n`.
pub open spec fn decimal(n: nat) -> Seq<char>
    decreases n,
{
    if n < 10 {
        seq![digit_char(n as int)]
    } else {
        decimal(n / 10).push(digit_char((n % 10) as int))
    }
}

pub open spec fn digits_value(s: Seq<char>) -> int
    decreases s.len(),
{
    if s.len() == 0 {
        0
    } else {
        digits_value(s.drop_last()) * 10 + digit_value(s.last())
    }
}

/// What follows the subject: `","exp":<exp>}`.
pub open spec fn claims_tail(exp: u64) -> Seq<char> {
    claims_middle() + decimal(exp as nat) + seq!['}']
}

/// The payload text for a subject and an expiry time.
pub open spec fn claims_text(sub: Seq<char>, exp: u64) -> Seq<char> {
    claims_head() + escaped(sub) + claims_middle() + decimal(exp as nat) + seq!['}']
}

proof fn lemma_escaped_append(a: Seq<char>, b: Seq<char>)
    ensures
        escaped(a + b) == escaped(a) + escaped(b),
    decreases b.len(),
{
    if b.len() == 0 {
        assert(a + b =~= a);
        assert(escaped(a) + escaped(b) =~= escaped(a));
    } else {
        lemma_escaped_append(a, b.drop_last());
        assert((a + b).drop_last() =~= a + b.drop_last());
        assert((a + b).last() == b.last());
        assert(escaped(a + b) =~= escaped(a) + escaped(b));
    }
}

proof fn lemma_escaped_take_step(s: Seq<char>, k: int)
    requires
        0 <= k < s.len(),
    ensures
        escaped(s.take(k + 1)) == escaped(s.take(k)) + escape_char(s[k]),
{
    assert(s.take(k + 1).drop_last() =~= s.take(k));
}

proof fn lemma_escaped_split(s: Seq<char>, k: int)
    requires
        0 <= k <= s.len(),
    ensures
        escaped(s) == escaped(s.take(k)) + escaped(s.skip(k)),
{
    assert(s =~= s.take(k) + s.skip(k));
    lemma_escaped_append(s.take(k), s.skip(k));
}

proof fn lemma_escaped_front(s: Seq<char>)
    requires
        s.len() > 0,
    ensures
        escaped(s) == escape_char(s[0]) + escaped(s.skip(1)),
{
    lemma_escaped_split(s, 1);
    let t = s.take(1);
    assert(t.drop_last() =~= Seq::<char>::empty());
    assert(escaped(t) == escaped(t.drop_last()) + escape_char(t.last()));
    assert(escaped(t) =~= escape_char(s[0]));
}

proof fn lemma_digit_char_value(d: int)
    requires
        0 <= d < 10,
    ensures
        digit_value(digit_char(d)) == d,
        digit_char(d) == '0' <==> d == 0,
{
}

proof fn lemma_decimal_canonical(n: nat)
    ensures
        decimal(n).len() >= 1,
        all_digits(decimal(n)),
        decimal(n).len() == 1 || decimal(n)[0] != '0',
        n >= 10 ==> decimal(n)[0] != '0',
        digits_value(decimal(n)) == n,
    decreases n,
{
    if n < 10 {
        lemma_digit_char_value(n as int);
        assert(decimal(n).drop_last() =~= Seq::<char>::empty());
        assert(digits_value(decimal(n).drop_last()) == 0);
    } else {
        lemma_decimal_canonical(n / 10);
        lemma_digit_char_value((n % 10) as int);
        let d = decimal(n);
        assert(d.drop_last() =~= decimal(n / 10));
        assert(d.last() == digit_char((n % 10) as int));
        assert(digits_value(d) == digits_value(d.drop_last()) * 10 + digit_value(d.last()));
        assert((n / 10) * 10 + n % 10 == n);
        assert forall|i: int| 0 <= i < d.len() implies digit_value(#[trigger] d[i]) < 10 by {
            if i < d.len() - 1 {
                assert(d[i] == decimal(n / 10)[i]);
            }
        }
        assert(d[0] == decimal(n / 10)[0]);
        if n / 10 < 10 {
            lemma_digit_char_value((n / 10) as int);
        }
    }
}

proof fn lemma_leading_digit_positive(s: Seq<char>)
    requires
        s.len() >= 1,
        all_digits(s),
        s[0] != '0',
    ensures
        digits_value(s) >= 1,
        digits_value(s) >= 0,
    decreases s.len(),
{
    if s.len() == 1 {
        assert(s.drop_last() =~= Seq::<char>::empty());
        assert(digits_value(s.drop_last()) == 0);
        assert(s.last() == s[0]);
        assert(digit_value(s[0]) < 10);
    } else {
        let t = s.drop_last();
        assert(t[0] == s[0]);
        assert(all_digits(t)) by {
            assert forall|i: int| 0 <= i < t.len() implies digit_value(#[trigger] t[i]) < 10 by {
                assert(t[i] == s[i]);
            }
        }
        lemma_leading_digit_positive(t);
        assert(digit_value(s[s.len() - 1]) < 10);
        assert(s.last() == s[s.len() - 1]);
        assert(digits_value(s) == digits_value(t) * 10 + digit_value(s.last()));
    }
}

proof fn lemma_digits_value_nonneg(s: Seq<char>)
    requires
        all_digits(s),
    ensures
        digits_value(s) >= 0,
    decreases s.len(),
{
    if s.len() > 0 {
        let t = s.drop_last();
        assert(all_digits(t)) by {
            assert forall|i: int| 0 <= i < t.len() implies digit_value(#[trigger] t[i]) < 10 by {
                assert(t[i] == s[i]);
            }
        }
        lemma_digits_value_nonneg(t);
        assert(digit_value(s[s.len() - 1]) < 10);
    }
}

proof fn lemma_canonical_is_decimal(s: Seq<char>)
    requires
        s.len() >= 1,
        all_digits(s),
        s.len() == 1 || s[0] != '0',
    ensures
        digits_value(s) >= 0,
        decimal(digits_value(s) as nat) == s,
    decreases s.len(),
{
    lemma_digits_value_nonneg(s);
    let v = digits_value(s);
    let t = s.drop_last();
    let c = s.last();
    assert(digit_value(s[s.len() - 1]) < 10);
    if s.len() == 1 {
        assert(t =~= Seq::<char>::empty());
        assert(digits_value(t) == 0);
        assert(v == digit_value(c));
        assert(digit_char(digit_value(c)) == c);
        assert(decimal(v as nat) =~= s);
    } else {
        assert(all_digits(t)) by {
            assert forall|i: int| 0 <= i < t.len() implies digit_value(#[trigger] t[i]) < 10 by {
                assert(t[i] == s[i]);
            }
        }
        assert(t[0] == s[0]);
        lemma_canonical_is_decimal(t);
        lemma_leading_digit_positive(t);
        let w = digits_value(t);
        assert(v == w * 10 + digit_value(c));
        assert(v >= 10);
        assert(v / 10 == w);
        assert(v % 10 == digit_value(c));
        assert(digit_char(digit_value(c)) == c);
        assert(decimal(v as nat) =~= s);
    }
}

proof fn lemma_digits_take_step(s: Seq<char>, j: int)
    requires
        0 <= j < s.len(),
    ensures
        digits_value(s.take(j + 1)) == digits_value(s.take(j)) * 10 + digit_value(s[j]),
{
    assert(s.take(j + 1).drop_last() =~= s.take(j));
}

proof fn lemma_digits_prefix_le(s: Seq<char>, j: int)
    requires
        0 <= j <= s.len(),
        all_digits(s),
    ensures
        digits_value(s.take(j)) <= digits_value(s),
    decreases s.len() - j,
{
    if j < s.len() {
        lemma_digits_prefix_le(s, j + 1);
        lemma_digits_take_step(s, j);
        let t = s.take(j);
        assert(all_digits(t)) by {
            assert forall|i: int| 0 <= i < t.len() implies digit_value(#[trigger] t[i]) < 10 by {
                assert(t[i] == s[i]);
            }
        }
        lemma_digits_value_nonneg(t);
        assert(digit_value(s[j]) < 10);
    } else {
        assert(s.take(j) =~= s);
    }
}


/// The code point of a character.
pub open spec fn code_of(c: char) -> int {
    (c as u32) as int
}

/// The character whose code point is `code`.
pub open spec fn char_of(code: int) -> char {
    choose|c: char| #[trigger] code_of(c) == code
}

/// Reads an escaped subject up to its closing quote.
pub open spec fn unescaped(t: Seq<char>) -> Seq<char>
    decreases t.len(),
{
    if t.len() == 0 || t[0] == '"' {
        Seq::empty()
    } else if t[0] == '\\' && t.len() >= 6 && t[1] == 'u' {
        seq![char_of(16 * hex_value(t[4]) + hex_value(t[5]))] + unescaped(t.skip(6))
    } else if t[0] == '\\' && t.len() >= 2 {
        seq![t[1]] + unescaped(t.skip(2))
    } else {
        seq![t[0]] + unescaped(t.skip(1))
    }
}

proof fn lemma_code_injective(a: char, b: char)
    requires
        a as u32 == b as u32,
    ensures
        a == b,
{
}

proof fn lemma_hex_char_value(d: int)
    requires
        0 <= d < 16,
    ensures
        hex_value(hex_char(d)) == d,
{
}

proof fn lemma_hex_value_char(c: char)
    requires
        hex_value(c) < 16,
    ensures
        hex_char(hex_value(c)) == c,
{
}

proof fn lemma_char_of_control(c: char)
    requires
        is_control(c),
    ensures
        16 * hex_value(hex_char((c as u32) as int / 16)) + hex_value(hex_char((c as u32) as int % 16))
            == c as u32,
        char_of((c as u32) as int) == c,
{
    let code = (c as u32) as int;
    lemma_hex_char_value(code / 16);
    lemma_hex_char_value(code % 16);
    assert(code_of(c) == code);
    let d = char_of(code);
    assert(code_of(d) == code);
    assert(d as u32 == c as u32);
}

proof fn lemma_unescape_escaped(s: Seq<char>, rest: Seq<char>)
    ensures
        unescaped(escaped(s) + seq!['"'] + rest) == s,
    decreases s.len(),
{
    let t = escaped(s) + seq!['"'] + rest;
    if s.len() == 0 {
        assert(escaped(s) =~= Seq::<char>::empty());
        assert(t[0] == '"');
        assert(s =~= Seq::<char>::empty());
    } else {
        lemma_escaped_front(s);
        lemma_unescape_escaped(s.skip(1), rest);
        let e = escape_char(s[0]);
        assert(t =~= e + (escaped(s.skip(1)) + seq!['"'] + rest));
        assert(t.skip(e.len() as int) =~= escaped(s.skip(1)) + seq!['"'] + rest);
        assert(s =~= seq![s[0]] + s.skip(1));
        if is_control(s[0]) && !(s[0] == '"' || s[0] == '\\') {
            lemma_char_of_control(s[0]);
            assert(t[4] == e[4]);
            assert(t[5] == e[5]);
        }
    }
}

/// A payload text is written for one subject and one expiry only.
pub proof fn lemma_claims_text_injective(s1: Seq<char>, e1: u64, s2: Seq<char>, e2: u64)
    requires
        claims_text(s1, e1) == claims_text(s2, e2),
    ensures
        s1 == s2,
        e1 == e2,
{
    let t = claims_text(s1, e1);
    lemma_claims_layout(s1, e1);
    lemma_claims_layout(s2, e2);
    let u = t.subrange(8, t.len() as int);
    assert(u =~= escaped(s1) + seq!['"'] + (claims_tail(e1).skip(1)));
    assert(u =~= escaped(s2) + seq!['"'] + (claims_tail(e2).skip(1)));
    lemma_unescape_escaped(s1, claims_tail(e1).skip(1));
    lemma_unescape_escaped(s2, claims_tail(e2).skip(1));
    assert(s1 == s2);
    let n: int = 16 + escaped(s1).len() as int;
    assert(decimal(e1 as nat) =~= t.subrange(n, t.len() - 1));
    assert(decimal(e2 as nat) =~= t.subrange(n, t.len() - 1));
    lemma_decimal_canonical(e1 as nat);
    lemma_decimal_canonical(e2 as nat);
}

/// The subject and expiry that a payload text was written for, if any.
pub open spec fn claims_of(text: Seq<char>) -> Option<(Seq<char>, u64)> {
    if exists|sub: Seq<char>, exp: u64| text == claims_text(sub, exp) {
        Some(choose|sub: Seq<char>, exp: u64| text == claims_text(sub, exp))
    } else {
        None
    }
}

/// Reading a payload gives back what it was written for.
pub proof fn lemma_claims_of_text(sub: Seq<char>, exp: u64)
    ensures
        claims_of(claims_text(sub, exp)) == Some((sub, exp)),
{
    let t = claims_text(sub, exp);
    let (s, e) = choose|s: Seq<char>, e: u64| t == claims_text(s, e);
    lemma_claims_text_injective(s, e, sub, exp);
}

fn digit_text(d: u64) -> (r: &'static str)
    requires
        d < 10,
    ensures
        r@ == seq![digit_char(d as int)],
{
    let digits: &'static str = "0123456789";
    proof {
        reveal_strlit("0123456789");
    }
    let r = digits.substring_char(d as usize, d as usize + 1);
    assert(r@ =~= seq![digit_char(d as int)]);
    r
}

fn hex_text(d: u32) -> (r: &'static str)
    requires
        d < 16,
    ensures
        r@ == seq![hex_char(d as int)],
{
    let digits: &'static str = "0123456789abcdef";
    proof {
        reveal_strlit("0123456789abcdef");
    }
    let r = digits.substring_char(d as usize, d as usize + 1);
    assert(r@ =~= seq![hex_char(d as int)]);
    r
}

fn control_text(code: u32) -> (r: &'static str)
    requires
        code < 32,
    ensures
        r@.len() == 1,
        r@[0] as u32 == code,
{
    let table: &'static str = "\u{0}\u{1}\u{2}\u{3}\u{4}\u{5}\u{6}\u{7}\u{8}\u{9}\u{a}\u{b}\u{c}\u{d}\u{e}\u{f}\u{10}\u{11}\u{12}\u{13}\u{14}\u{15}\u{16}\u{17}\u{18}\u{19}\u{1a}\u{1b}\u{1c}\u{1d}\u{1e}\u{1f}";
    proof {
        reveal_strlit("\u{0}\u{1}\u{2}\u{3}\u{4}\u{5}\u{6}\u{7}\u{8}\u{9}\u{a}\u{b}\u{c}\u{d}\u{e}\u{f}\u{10}\u{11}\u{12}\u{13}\u{14}\u{15}\u{16}\u{17}\u{18}\u{19}\u{1a}\u{1b}\u{1c}\u{1d}\u{1e}\u{1f}");
    }
    let r = table.substring_char(code as usize, code as usize + 1);
    assert(r@[0] == table@[code as int]);
    r
}

fn append_decimal(out: &mut String, n: u64)
    ensures
        final(out)@ == old(out)@ + decimal(n as nat),
    decreases n,
{
    if n >= 10 {
        append_decimal(out, n / 10);
    }
    out.append(digit_text(n % 10));
    assert(final(out)@ =~= old(out)@ + decimal(n as nat));
}

fn hex_digit(c: char) -> (r: u32)
    ensures
        r == hex_value(c),
{
    match c {
        'a' => 10,
        'b' => 11,
        'c' => 12,
        'd' => 13,
        'e' => 14,
        'f' => 15,
        _ => {
            let v = char_value(c);
            if v < 10 {
                v as u32
            } else {
                16
            }
        },
    }
}

pub(crate) fn char_value(c: char) -> (r: u64)
    ensures
        r == digit_value(c),
{
    match c {
        '0' => 0,
        '1' => 1,
        '2' => 2,
        '3' => 3,
        '4' => 4,
        '5' => 5,
        '6' => 6,
        '7' => 7,
        '8' => 8,
        '9' => 9,
        _ => 10,
    }
}

/// Writes the payload for `sub` and `exp`.
pub fn claims_json(sub: &str, exp: u64) -> (r: String)
    ensures
        r@ == claims_text(sub@, exp),
{
    let mut out = String::from_str("{\"sub\":\"");
    proof {
        reveal_strlit("{\"sub\":\"");
        reveal_strlit("\\");
        reveal_strlit("\",\"exp\":");
        reveal_strlit("}");
    }
    assert(out@ =~= claims_head() + escaped(sub@.take(0)));
    let n = sub.unicode_len();
    let mut i: usize = 0;
    while i < n
        invariant
            n == sub@.len(),
            i <= n,
            out@ == claims_head() + escaped(sub@.take(i as int)),
        decreases n - i,
    {
        let c = sub.get_char(i);
        proof {
            reveal_strlit("\\");
            reveal_strlit("\\u00");
            lemma_escaped_take_step(sub@, i as int);
            assert(sub@.subrange(i as int, i + 1) =~= seq![c]);
        }
        if c == '"' || c == '\\' {
            out.append("\\");
            out.append(sub.substring_char(i, i + 1));
        } else if (c as u32) < 0x20 {
            let code = c as u32;
            out.append("\\u00");
            out.append(hex_text(code / 16));
            out.append(hex_text(code % 16));
        } else {
            out.append(sub.substring_char(i, i + 1));
        }
        assert(out@ =~= claims_head() + escaped(sub@.take(i + 1)));
        i += 1;
    }
    assert(sub@.take(n as int) =~= sub@);
    out.append("\",\"exp\":");
    append_decimal(&mut out, exp);
    out.append("}");
    assert(out@ =~= claims_text(sub@, exp));
    out
}

fn matches_at(text: &str, len: usize, pos: usize, lit: &str) -> (r: bool)
    requires
        len == text@.len(),
        pos <= len,
    ensures
        r == (pos + lit@.len() <= len && text@.subrange(pos as int, pos + lit@.len()) == lit@),
{
    let m = lit.unicode_len();
    if m > len - pos {
        return false;
    }
    let mut k: usize = 0;
    while k < m
        invariant
            m == lit@.len(),
            pos + m <= len,
            len == text@.len(),
            k <= m,
            forall|q: int| 0 <= q < k ==> text@[pos + q] == lit@[q],
        decreases m - k,
    {
        if text.get_char(pos + k) != lit.get_char(k) {
            assert(text@.subrange(pos as int, pos + m)[k as int] != lit@[k as int]);
            return false;
        }
        k += 1;
    }
    assert(text@.subrange(pos as int, pos + m) =~= lit@);
    true
}

proof fn lemma_claims_layout(sub: Seq<char>, exp: u64)
    ensures
        claims_text(sub, exp).subrange(0, 8) == claims_head(),
        claims_text(sub, exp).subrange(8, claims_text(sub, exp).len() as int) == escaped(sub)
            + claims_tail(exp),
{
    let t = claims_text(sub, exp);
    assert(t =~= claims_head() + (escaped(sub) + claims_tail(exp)));
    assert(t.subrange(0, 8) =~= claims_head());
    assert(t.subrange(8, t.len() as int) =~= escaped(sub) + claims_tail(exp));
}

/// Reads a payload back: the subject and the expiry that it was written for,
/// or `None` where the text is no payload.
#[verifier::rlimit(40)]
pub fn parse_claims(text: &str) -> (r: Option<(String, u64)>)
    ensures
        match r {
            Some((sub, exp)) => text@ == claims_text(sub@, exp),
            None => forall|sub: Seq<char>, exp: u64| text@ != #[trigger] claims_text(sub, exp),
        },
        forall|sub: Seq<char>, exp: u64|
            text@ == #[trigger] claims_text(sub, exp) ==> (r matches Some((s, e)) && s@ == sub && e
                == exp),
{
    let ghost t = text@;
    let len = text.unicode_len();
    let head = "{\"sub\":\"";
    let middle = "\",\"exp\":";
    proof {
        reveal_strlit("{\"sub\":\"");
        reveal_strlit("\",\"exp\":");
        assert(head@ =~= claims_head());
        assert(middle@ =~= claims_middle());
        assert forall|s0: Seq<char>, e0: u64| t == #[trigger] claims_text(s0, e0) implies len >= 8 by {
            lemma_claims_layout(s0, e0);
        }
    }
    if len < 8 || !matches_at(text, len, 0, head) {
        proof {
            assert forall|s0: Seq<char>, e0: u64| t != #[trigger] claims_text(s0, e0) by {
                if t == claims_text(s0, e0) {
                    lemma_claims_layout(s0, e0);
                }
            }
        }
        return None;
    }
    let mut sub = String::new();
    let mut i: usize = 8;
    let mut closed = false;
    proof {
        assert forall|s0: Seq<char>, e0: u64| t == #[trigger] claims_text(s0, e0) implies (sub@
            == s0.take(0) && t.subrange(8, len as int) == escaped(s0.skip(0)) + claims_tail(e0)) by {
            lemma_claims_layout(s0, e0);
            assert(s0.skip(0) =~= s0);
        }
        assert(t.subrange(8, 8) =~= escaped(sub@));
    }
    while !closed && i < len
        invariant
            len == t.len(),
            t == text@,
            8 <= i <= len,
            t.subrange(0, 8) == claims_head(),
            t.subrange(8, i as int) == escaped(sub@),
            closed ==> i < len && t[i as int] == '"',
            forall|s0: Seq<char>, e0: u64| t == #[trigger] claims_text(s0, e0) ==> {
                &&& sub@.len() <= s0.len()
                &&& sub@ == s0.take(sub@.len() as int)
                &&& t.subrange(i as int, len as int) == escaped(s0.skip(sub@.len() as int))
                    + claims_tail(e0)
                &&& closed ==> sub@ == s0
            },
        decreases (len - i) * 2 + (if closed { 0int } else { 1int }),
    {
        let ghost old_sub = sub@;
        let ghost k = sub@.len() as int;
        let ghost i0 = i as int;
        let c = text.get_char(i);
        proof {
            assert forall|s0: Seq<char>, e0: u64| t == #[trigger] claims_text(s0, e0) implies (k
                < s0.len() ==> t.subrange(i as int, len as int) == escape_char(s0[k]) + (escaped(
                s0.skip(k + 1)) + claims_tail(e0))) && (k == s0.len() ==> t[i as int] == '"') by {
                let tail = t.subrange(i as int, len as int);
                assert(tail[0] == t[i as int]);
                if k < s0.len() {
                    lemma_escaped_front(s0.skip(k));
                    assert(s0.skip(k).skip(1) =~= s0.skip(k + 1));
                    assert(s0.skip(k)[0] == s0[k]);
                    assert(tail =~= escape_char(s0[k]) + (escaped(s0.skip(k + 1)) + claims_tail(
                        e0)));
                } else {
                    assert(s0.skip(k) =~= Seq::<char>::empty());
                    assert(tail =~= claims_tail(e0));
                }
            }
        }
        if c == '"' {
            closed = true;
            proof {
                assert forall|s0: Seq<char>, e0: u64| t == #[trigger] claims_text(
                    s0,
                    e0,
                ) implies sub@ == s0 by {
                    if k < s0.len() {
                        assert(t.subrange(i as int, len as int)[0] == t[i as int]);
                        assert(escape_char(s0[k])[0] != '"');
                    }
                    assert(s0.take(k) =~= s0);
                }
            }
        } else {
            let piece: &str;
            let width: usize;
            if c == '\\' {
                if len - i < 2 {
                    proof {
                        assert forall|s0: Seq<char>, e0: u64| t != #[trigger] claims_text(s0, e0) by {
                            if t == claims_text(s0, e0) && k < s0.len() {
                                assert(t.subrange(i as int, len as int)[0] == t[i as int]);
                            }
                        }
                    }
                    return None;
                }
                let c2 = text.get_char(i + 1);
                if c2 == '"' || c2 == '\\' {
                    piece = text.substring_char(i + 1, i + 2);
                    width = 2;
                    assert(piece@ =~= seq![c2]);
                } else if c2 == 'u' && len - i >= 6 && text.get_char(i + 2) == '0' && text.get_char(
                    i + 3,
                ) == '0' && hex_digit(text.get_char(i + 4)) < 2 && hex_digit(text.get_char(i + 5))
                    < 16 {
                    let code = hex_digit(text.get_char(i + 4)) * 16 + hex_digit(text.get_char(i + 5));
                    piece = control_text(code);
                    width = 6;
                } else {
                    proof {
                        assert forall|s0: Seq<char>, e0: u64| t != #[trigger] claims_text(s0, e0) by {
                            if t == claims_text(s0, e0) && k < s0.len() {
                                let tail = t.subrange(i as int, len as int);
                                assert(tail[0] == t[i as int]);
                                assert(tail[1] == t[i + 1]);
                                if is_control(s0[k]) && !(s0[k] == '"' || s0[k] == '\\') {
                                    lemma_hex_char_value((s0[k] as u32) as int / 16);
                                    lemma_hex_char_value((s0[k] as u32) as int % 16);
                                    assert(tail[2] == t[i + 2]);
                                    assert(tail[3] == t[i + 3]);
                                    assert(tail[4] == t[i + 4]);
                                    assert(tail[5] == t[i + 5]);
                                }
                            }
                        }
                    }
                    return None;
                }
            } else {
                if (c as u32) < 0x20 {
                    proof {
                        assert forall|s0: Seq<char>, e0: u64| t != #[trigger] claims_text(s0, e0) by {
                            if t == claims_text(s0, e0) && k < s0.len() {
                                assert(t.subrange(i as int, len as int)[0] == t[i as int]);
                            }
                        }
                    }
                    return None;
                }
                piece = text.substring_char(i, i + 1);
                width = 1;
                assert(piece@ =~= seq![c]);
            }
            let ghost ch = piece@[0];
            proof {
                // the consumed text is the escape of the character read
                assert(piece@.len() == 1);
                if width == 2 {
                    assert(ch == t[i0 + 1]);
                    assert(t.subrange(i0, i0 + 2) =~= escape_char(ch));
                } else if width == 6 {
                    let code = (ch as u32) as int;
                    lemma_hex_value_char(t[i0 + 4]);
                    lemma_hex_value_char(t[i0 + 5]);
                    assert(code / 16 == hex_value(t[i0 + 4]));
                    assert(code % 16 == hex_value(t[i0 + 5]));
                    assert(t.subrange(i0, i0 + 6) =~= escape_char(ch));
                } else {
                    assert(ch == t[i0]);
                    assert(t.subrange(i0, i0 + 1) =~= escape_char(ch));
                }
                assert forall|s0: Seq<char>, e0: u64| t == #[trigger] claims_text(s0, e0) implies k
                    < s0.len() && s0[k] == ch && escape_char(s0[k]).len() == width by {
                    let tail = t.subrange(i as int, len as int);
                    assert(tail[0] == t[i as int]);
                    assert(k < s0.len());
                    let e = escape_char(s0[k]);
                    if s0[k] == '"' || s0[k] == '\\' || is_control(s0[k]) {
                        assert(e[0] == '\\');
                    } else {
                        assert(e =~= seq![s0[k]]);
                    }
                    if width == 2 {
                        assert(tail[1] == t[i + 1]);
                        if is_control(s0[k]) && !(s0[k] == '"' || s0[k] == '\\') {
                            assert(e[1] == 'u');
                        } else if s0[k] == '"' || s0[k] == '\\' {
                            assert(e[1] == s0[k]);
                        }
                    } else if width == 6 {
                        assert(tail[1] == t[i + 1]);
                        assert(tail[4] == t[i + 4]);
                        assert(tail[5] == t[i + 5]);
                        if is_control(s0[k]) && !(s0[k] == '"' || s0[k] == '\\') {
                            lemma_char_of_control(s0[k]);
                            lemma_hex_char_value((s0[k] as u32) as int / 16);
                            lemma_hex_char_value((s0[k] as u32) as int % 16);
                            assert(s0[k] as u32 == ch as u32);
                            lemma_code_injective(s0[k], ch);
                        } else if s0[k] == '"' || s0[k] == '\\' {
                            assert(e[1] == s0[k]);
                        }
                    } else {
                        assert(tail[0] == e[0]);
                    }
                }
            }
            sub.append(piece);
            proof {
                assert(sub@ =~= old_sub.push(ch));
                assert(sub@.drop_last() =~= old_sub);
                assert(escaped(sub@) == escaped(old_sub) + escape_char(ch));
                assert(t.subrange(8, i0 + width) =~= t.subrange(8, i0) + t.subrange(i0, i0 + width));
                assert forall|s0: Seq<char>, e0: u64| t == #[trigger] claims_text(s0, e0) implies {
                    &&& sub@.len() <= s0.len()
                    &&& sub@ == s0.take(sub@.len() as int)
                    &&& t.subrange(i0 + width, len as int) == escaped(s0.skip(sub@.len() as int))
                        + claims_tail(e0)
                } by {
                    assert(s0.take(k + 1) =~= s0.take(k).push(s0[k]));
                    assert(t.subrange(i0 + width, len as int) =~= t.subrange(i0, len as int).skip(
                        width as int,
                    ));
                    assert(t.subrange(i0 + width, len as int) =~= escaped(s0.skip(k + 1))
                        + claims_tail(e0));
                }
            }
            i = i + width;
        }
    }
    if !closed {
        proof {
            assert forall|s0: Seq<char>, e0: u64| t != #[trigger] claims_text(s0, e0) by {
                if t == claims_text(s0, e0) {
                    assert(t.subrange(i as int, len as int).len() == 0);
                }
            }
        }
        return None;
    }
    proof {
        assert forall|s0: Seq<char>, e0: u64| t == #[trigger] claims_text(s0, e0) implies t.subrange(
            i as int,
            len as int,
        ) == claims_tail(e0) by {
            assert(s0.skip(s0.len() as int) =~= Seq::<char>::empty());
            assert(escaped(Seq::<char>::empty()) =~= Seq::<char>::empty());
        }
    }
    if !matches_at(text, len, i, middle) {
        proof {
            assert forall|s0: Seq<char>, e0: u64| t != #[trigger] claims_text(s0, e0) by {
                if t == claims_text(s0, e0) {
                    lemma_decimal_canonical(e0 as nat);
                    assert(claims_tail(e0).take(8) =~= claims_middle());
                    assert(t.subrange(i as int, i + 8) =~= t.subrange(i as int, len as int).take(8));
                }
            }
        }
        return None;
    }
    let j0 = i + 8;
    proof {
        assert forall|s0: Seq<char>, e0: u64| t == #[trigger] claims_text(s0, e0) implies (len
            >= j0 + 2 && t[len - 1] == '}' && t.subrange(j0 as int, len - 1) == decimal(e0 as nat))
            by {
            lemma_decimal_canonical(e0 as nat);
            let tail = t.subrange(i as int, len as int);
            assert(tail[tail.len() - 1] == t[len - 1]);
            assert(t.subrange(j0 as int, len - 1) =~= tail.subrange(8, tail.len() - 1));
        }
    }
    if len - j0 < 2 || text.get_char(len - 1) != '}' {
        return None;
    }
    let ndig = len - 1 - j0;
    let ghost d = t.subrange(j0 as int, len - 1);
    let mut acc: u64 = 0;
    let mut j: usize = j0;
    assert(d.take(0) =~= Seq::<char>::empty());
    while j < len - 1
        invariant
            len == t.len(),
            t == text@,
            j0 + 2 <= len,
            ndig == len - 1 - j0,
            d == t.subrange(j0 as int, len - 1),
            j0 <= j <= len - 1,
            acc == digits_value(d.take(j - j0)),
            all_digits(d.take(j - j0)),
            j > j0 ==> (ndig == 1 || d[0] != '0'),
            forall|s0: Seq<char>, e0: u64| t == #[trigger] claims_text(s0, e0) ==> d == decimal(
                e0 as nat,
            ) && sub@ == s0,
        decreases len - 1 - j,
    {
        let c = text.get_char(j);
        let v = char_value(c);
        let ghost q = (j - j0) as int;
        assert(d[q] == c);
        proof {
            lemma_digits_take_step(d, q);
            assert forall|s0: Seq<char>, e0: u64| t == #[trigger] claims_text(s0, e0) implies (v
                < 10 && !(q == 0 && v == 0 && ndig > 1) && digits_value(d.take(q + 1)) <= e0) by {
                lemma_decimal_canonical(e0 as nat);
                assert(digit_value(d[q]) < 10);
                lemma_digits_prefix_le(d, q + 1);
            }
        }
        if v >= 10 || (j == j0 && v == 0 && ndig > 1) {
            return None;
        }
        if acc > 1844674407370955161 || (acc == 1844674407370955161 && v > 5) {
            return None;
        }
        acc = acc * 10 + v;
        proof {
            let p = d.take(q + 1);
            assert forall|x: int| 0 <= x < p.len() implies digit_value(#[trigger] p[x]) < 10 by {
                if x < q {
                    assert(p[x] == d.take(q)[x]);
                }
            }
        }
        j = j + 1;
    }
    proof {
        assert(d.take(ndig as int) =~= d);
        lemma_canonical_is_decimal(d);
        assert forall|s0: Seq<char>, e0: u64| t == #[trigger] claims_text(s0, e0) implies acc
            == e0 by {
            lemma_decimal_canonical(e0 as nat);
        }
        assert(t =~= claims_head() + escaped(sub@) + claims_middle() + d + seq!['}']) by {
            assert(t =~= t.subrange(0, 8) + t.subrange(8, i as int) + t.subrange(i as int, j0 as int)
                + d + seq![t[len - 1]]);
        }
    }
    Some((sub, acc))
}

} // verus!
