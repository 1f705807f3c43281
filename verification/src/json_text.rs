//! JSON string literals: how a string is written between double quotes, and
//! why such a literal can be read back without ambiguity.

use vstd::prelude::*;

verus! {

/// The lower-case hexadecimal digit for a value below sixteen.
pub open spec fn hex_digit(n: int) -> char {
    if n == 0 {
        '0'
    } else if n == 1 {
        '1'
    } else if n == 2 {
        '2'
    } else if n == 3 {
        '3'
    } else if n == 4 {
        '4'
    } else if n == 5 {
        '5'
    } else if n == 6 {
        '6'
    } else if n == 7 {
        '7'
    } else if n == 8 {
        '8'
    } else if n == 9 {
        '9'
    } else if n == 10 {
        'a'
    } else if n == 11 {
        'b'
    } else if n == 12 {
        'c'
    } else if n == 13 {
        'd'
    } else if n == 14 {
        'e'
    } else {
        'f'
    }
}

/// Whether a character is written as an escape sequence inside a JSON string
/// literal: the double quote, the backslash and the control characters below
/// U+0020.
pub open spec fn needs_escape(c: char) -> bool {
    c == '"' || c == '\\' || (c as u32) < 0x20
}

/// The characters that stand for `c` inside a JSON string literal.
///
/// The quote and the backslash get a backslash in front; backspace, tab, line
/// feed, form feed and carriage return get their short escapes; every other
/// control character below U+0020 is written as `\u00` and two lower-case
/// hexadecimal digits; all other characters stand for themselves.
pub open spec fn escape_char(c: char) -> Seq<char> {
    if c == '"' {
        seq!['\\', '"']
    } else if c == '\\' {
        seq!['\\', '\\']
    } else if c == '\u{08}' {
        seq!['\\', 'b']
    } else if c == '\t' {
        seq!['\\', 't']
    } else if c == '\n' {
        seq!['\\', 'n']
    } else if c == '\u{0c}' {
        seq!['\\', 'f']
    } else if c == '\r' {
        seq!['\\', 'r']
    } else if (c as u32) < 0x20 {
        seq!['\\', 'u', '0', '0', hex_digit((c as u32) as int / 16), hex_digit((c as u32) as int % 16)]
    } else {
        seq![c]
    }
}

/// The contents of a JSON string literal for `s`: each character escaped in turn.
pub open spec fn escaped(s: Seq<char>) -> Seq<char>
    decreases s.len(),
{
    if s.len() == 0 {
        Seq::<char>::empty()
    } else {
        escape_char(s[0]) + escaped(s.drop_first())
    }
}

/// The JSON string literal for `s`: its escaped contents between double quotes.
pub open spec fn quoted(s: Seq<char>) -> Seq<char> {
    seq!['"'] + escaped(s) + seq!['"']
}

/// No escape sequence begins with a double quote.
pub proof fn lemma_escape_char_head(c: char)
    ensures
        escape_char(c).len() >= 1,
        escape_char(c)[0] != '"',
        needs_escape(c) ==> escape_char(c)[0] == '\\' && escape_char(c).len() >= 2,
        !needs_escape(c) ==> escape_char(c) == seq![c],
{
}

/// Distinct values below sixteen have distinct hexadecimal digits.
pub proof fn lemma_hex_digit_injective(m: int, n: int)
    requires
        0 <= m < 16,
        0 <= n < 16,
        hex_digit(m) == hex_digit(n),
    ensures
        m == n,
{
}

/// Escape sequences form a prefix code: where two texts begin with the escape
/// sequences of `c` and of `d` and are equal, `c` and `d` are the same character
/// and so is what follows them.
pub proof fn lemma_escape_char_prefix_free(c: char, x: Seq<char>, d: char, y: Seq<char>)
    requires
        escape_char(c) + x == escape_char(d) + y,
    ensures
        c == d,
        x == y,
{
    let l = escape_char(c) + x;
    let r = escape_char(d) + y;
    lemma_escape_char_head(c);
    lemma_escape_char_head(d);
    assert(l[0] == escape_char(c)[0]);
    assert(r[0] == escape_char(d)[0]);
    if needs_escape(c) && needs_escape(d) {
        assert(l[1] == escape_char(c)[1]);
        assert(r[1] == escape_char(d)[1]);
        if escape_char(c)[1] == 'u' {
            assert(escape_char(c).len() == 6);
            assert(escape_char(d).len() == 6);
            assert(l[4] == escape_char(c)[4]);
            assert(r[4] == escape_char(d)[4]);
            assert(l[5] == escape_char(c)[5]);
            assert(r[5] == escape_char(d)[5]);
            let m = (c as u32) as int;
            let n = (d as u32) as int;
            lemma_hex_digit_injective(m / 16, n / 16);
            lemma_hex_digit_injective(m % 16, n % 16);
            assert(m == n);
        }
        assert(c == d);
    } else if !needs_escape(c) && !needs_escape(d) {
        assert(c == d);
    } else {
        assert(false);
    }
    let k = escape_char(c).len() as int;
    assert(x =~= l.subrange(k, l.len() as int));
    assert(y =~= r.subrange(k, r.len() as int));
}

/// The closing quote ends a literal's contents without ambiguity: where two
/// texts begin with escaped contents and a double quote and are equal, the
/// contents came from the same string and the remainders are equal.
pub proof fn lemma_escaped_delimited(a: Seq<char>, x: Seq<char>, b: Seq<char>, y: Seq<char>)
    requires
        escaped(a) + seq!['"'] + x == escaped(b) + seq!['"'] + y,
    ensures
        a == b,
        x == y,
    decreases a.len(),
{
    let q = seq!['"'];
    let l = escaped(a) + q + x;
    let r = escaped(b) + q + y;
    if a.len() == 0 && b.len() == 0 {
        assert(a =~= b);
        assert(x =~= l.subrange(1, l.len() as int));
        assert(y =~= r.subrange(1, r.len() as int));
    } else if a.len() == 0 {
        lemma_escape_char_head(b[0]);
        assert(l[0] == '"');
        assert(r[0] == escape_char(b[0])[0]);
        assert(false);
    } else if b.len() == 0 {
        lemma_escape_char_head(a[0]);
        assert(r[0] == '"');
        assert(l[0] == escape_char(a[0])[0]);
        assert(false);
    } else {
        let xa = escaped(a.drop_first()) + q + x;
        let yb = escaped(b.drop_first()) + q + y;
        assert(l =~= escape_char(a[0]) + xa);
        assert(r =~= escape_char(b[0]) + yb);
        lemma_escape_char_prefix_free(a[0], xa, b[0], yb);
        lemma_escaped_delimited(a.drop_first(), x, b.drop_first(), y);
        assert(a =~= seq![a[0]] + a.drop_first());
        assert(b =~= seq![b[0]] + b.drop_first());
    }
}

/// A JSON string literal is self-delimiting: where two texts begin with the
/// literals of `a` and of `b` and are equal, `a` equals `b` and so do the
/// remainders. In particular distinct strings have distinct literals.
pub proof fn lemma_quoted_delimited(a: Seq<char>, x: Seq<char>, b: Seq<char>, y: Seq<char>)
    requires
        quoted(a) + x == quoted(b) + y,
    ensures
        a == b,
        x == y,
{
    let q = seq!['"'];
    let l = quoted(a) + x;
    let r = quoted(b) + y;
    let la = escaped(a) + q + x;
    let rb = escaped(b) + q + y;
    assert(l =~= q + la);
    assert(r =~= q + rb);
    assert(la =~= l.subrange(1, l.len() as int));
    assert(rb =~= r.subrange(1, r.len() as int));
    lemma_escaped_delimited(a, x, b, y);
}

/// Writes `s` as a JSON string literal.
///
/// Trusted: the body hands the string to `serde_json`, as a `Value::String`, and
/// takes its compact `Display` text. The contract claims that this text is the
/// string between double quotes with exactly the escapes of [`escape_char`],
/// which is what the escape table and `write_char_escape` in `serde_json`'s
/// serializer write.
#[verifier::external_body]
pub(crate) fn json_quote(s: &str) -> (r: String)
    ensures
        r@ == quoted(s@),
{
    serde_json::Value::String(s.to_owned()).to_string()
}

} // verus!
