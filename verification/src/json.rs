//! The compact JSON in which signed records are written out.

use crate::bytes::{decimal_bytes, lemma_tail, push_all, push_decimal, push_text, utf8};
use vstd::prelude::*;

verus! {

/// A lower-case hexadecimal digit.
pub open spec fn hex_digit(value: nat) -> u8 {
    if value < 10 {
        (0x30 + value) as u8
    } else {
        (0x57 + value) as u8
    }
}

/// A character in a JSON string: quotes, backslashes and control characters are escaped, with a
/// letter where there is one, and anything else stands for itself.
pub open spec fn json_char(c: char) -> Seq<u8> {
    let n = c as u32;
    if n == 0x22 || n == 0x5c {
        seq![0x5c, n as u8]
    } else if n == 0x08 {
        seq![0x5c, 0x62]
    } else if n == 0x09 {
        seq![0x5c, 0x74]
    } else if n == 0x0a {
        seq![0x5c, 0x6e]
    } else if n == 0x0c {
        seq![0x5c, 0x66]
    } else if n == 0x0d {
        seq![0x5c, 0x72]
    } else if n < 0x20 {
        seq![0x5c, 0x75, 0x30, 0x30, hex_digit(n as nat / 16), hex_digit(n as nat % 16)]
    } else {
        utf8(seq![c])
    }
}

pub open spec fn json_chars(text: Seq<char>) -> Seq<u8>
    decreases text.len(),
{
    if text.len() == 0 {
        Seq::empty()
    } else {
        json_char(text[0]) + json_chars(text.drop_first())
    }
}

/// A text as a JSON string: its characters between quotes.
#[verifier::opaque]
pub open spec fn json_string(text: Seq<char>) -> Seq<u8> {
    seq![0x22u8] + json_chars(text) + seq![0x22u8]
}

/// Calls `serde_json::to_vec` on a text. It writes the text as a JSON string: in quotes, with
/// quotes, backslashes and the characters below the space escaped, and all others as they are.
/// Writing a text to memory cannot fail.
#[verifier::external_body]
fn string_bytes(text: &str) -> (bytes: Vec<u8>)
    ensures
        bytes@ == json_string(text@),
{
    serde_json::to_vec(text).unwrap_or_default()
}

/// A number: its decimal digits.
pub open spec fn json_number(value: nat) -> Seq<u8> {
    decimal_bytes(value)
}

/// The first `n` bytes as numbers with commas between them.
pub open spec fn json_numbers(bytes: Seq<u8>, n: nat) -> Seq<u8>
    decreases n,
{
    if n == 0 {
        Seq::empty()
    } else if n == 1 {
        json_number(bytes[0] as nat)
    } else {
        json_numbers(bytes, (n - 1) as nat) + utf8(","@) + json_number(bytes[n - 1] as nat)
    }
}

/// A byte sequence as an array of numbers.
pub open spec fn json_bytes(bytes: Seq<u8>) -> Seq<u8> {
    utf8("["@) + json_numbers(bytes, bytes.len()) + utf8("]"@)
}

pub open spec fn json_bool(value: bool) -> Seq<u8> {
    if value {
        utf8("true"@)
    } else {
        utf8("false"@)
    }
}

/// An optional number: itself, or null.
pub open spec fn json_optional(value: Option<u128>) -> Seq<u8> {
    match value {
        Some(number) => json_number(number as nat),
        None => utf8("null"@),
    }
}

pub fn push_number(out: &mut Vec<u8>, value: u128)
    ensures
        final(out)@ == old(out)@ + json_number(value as nat),
{
    push_decimal(out, value);
}

pub fn push_optional(out: &mut Vec<u8>, value: Option<u128>)
    ensures
        final(out)@ == old(out)@ + json_optional(value),
{
    match value {
        Some(number) => push_decimal(out, number),
        None => push_text(out, "null"),
    }
}

pub fn push_bool(out: &mut Vec<u8>, value: bool)
    ensures
        final(out)@ == old(out)@ + json_bool(value),
{
    if value {
        push_text(out, "true");
    } else {
        push_text(out, "false");
    }
}

pub fn push_string(out: &mut Vec<u8>, text: &str)
    ensures
        final(out)@ == old(out)@ + json_string(text@),
{
    let bytes = string_bytes(text);
    push_all(out, bytes.as_slice());
}

pub fn push_byte_array(out: &mut Vec<u8>, bytes: &[u8])
    ensures
        final(out)@ == old(out)@ + json_bytes(bytes@),
{
    let ghost before = out@;
    push_text(out, "[");
    let ghost opened = before + utf8("["@);
    let mut i: usize = 0;
    assert(out@ =~= opened + json_numbers(bytes@, 0));
    while i < bytes.len()
        invariant
            0 <= i <= bytes@.len(),
            out@ == opened + json_numbers(bytes@, i as nat),
        decreases bytes@.len() - i,
    {
        if i > 0 {
            push_text(out, ",");
        }
        push_decimal(out, bytes[i] as u128);
        assert(out@ =~= opened + json_numbers(bytes@, (i + 1) as nat));
        i += 1;
    }
    push_text(out, "]");
    assert(out@ =~= before + json_bytes(bytes@));
}

/// Items with commas between them.
pub open spec fn json_joined(items: Seq<Seq<u8>>) -> Seq<u8>
    decreases items.len(),
{
    if items.len() == 0 {
        Seq::empty()
    } else if items.len() == 1 {
        items[0]
    } else {
        json_joined(items.drop_last()) + utf8(","@) + items.last()
    }
}

/// Items as an array.
pub open spec fn json_array(items: Seq<Seq<u8>>) -> Seq<u8> {
    utf8("["@) + json_joined(items) + utf8("]"@)
}

/// Appends one more item to a list of `count` items.
pub(crate) fn push_item(out: &mut Vec<u8>, count: usize, item: &[u8], Ghost(items): Ghost<Seq<Seq<u8>>>, Ghost(opened): Ghost<Seq<u8>>)
    requires
        count == items.len(),
        old(out)@ == opened + json_joined(items),
    ensures
        final(out)@ == opened + json_joined(items.push(item@)),
{
    if count > 0 {
        push_text(out, ",");
    }
    push_all(out, item);
    assert(items.push(item@).drop_last() =~= items);
    assert(out@ =~= opened + json_joined(items.push(item@)));
}

/// A decimal digit.
pub open spec fn is_digit(byte: u8) -> bool {
    0x30 <= byte <= 0x39
}

/// Numbers are written in digits.
pub proof fn lemma_digits(value: nat)
    ensures
        decimal_bytes(value).len() > 0,
        forall|i: int| 0 <= i < decimal_bytes(value).len() ==> is_digit(
            #[trigger] decimal_bytes(value)[i],
        ),
    decreases value,
{
    if value >= 10 {
        lemma_digits(value / 10);
    }
}

/// Numbers that are written alike are the same.
pub proof fn lemma_decimal_injective(x: nat, y: nat)
    requires
        decimal_bytes(x) == decimal_bytes(y),
    ensures
        x == y,
    decreases x,
{
    let (a, b) = (decimal_bytes(x), decimal_bytes(y));
    assert(a.last() == b.last());
    if x >= 10 {
        lemma_digits(x / 10);
        assert(a.drop_last() =~= decimal_bytes(x / 10));
        if y >= 10 {
            assert(b.drop_last() =~= decimal_bytes(y / 10));
            lemma_decimal_injective(x / 10, y / 10);
        }
    } else if y >= 10 {
        lemma_digits(y / 10);
        assert(b.drop_last() =~= decimal_bytes(y / 10));
    }
}

/// Numbers behind beginnings that end with no digit: equal bytes come from equal numbers and equal
/// beginnings.
pub proof fn lemma_number_ends(a: Seq<u8>, x: nat, b: Seq<u8>, y: nat)
    requires
        a.len() > 0,
        b.len() > 0,
        !is_digit(a.last()),
        !is_digit(b.last()),
        a + json_number(x) == b + json_number(y),
    ensures
        a == b,
        x == y,
{
    let (m, n) = (json_number(x), json_number(y));
    lemma_digits(x);
    lemma_digits(y);
    let whole = a + m;
    if m.len() < n.len() {
        let i = whole.len() - m.len() - 1;
        assert((a + m)[i] == a[i]);
        assert((b + n)[i] == n[i - b.len()]);
    } else if n.len() < m.len() {
        let i = whole.len() - n.len() - 1;
        assert((b + n)[i] == b[i]);
        assert((a + m)[i] == m[i - a.len()]);
    }
    lemma_tail(a, m, b, n);
    lemma_decimal_injective(x, y);
}

/// Numbers behind the same text, which ends with no digit.
pub proof fn lemma_number_after(p: Seq<u8>, x: nat, q: Seq<u8>, y: nat, text: Seq<u8>)
    requires
        text.len() > 0,
        !is_digit(text.last()),
        p + text + json_number(x) == q + text + json_number(y),
    ensures
        p == q,
        x == y,
{
    assert((p + text).last() == text.last());
    assert((q + text).last() == text.last());
    lemma_number_ends(p + text, x, q + text, y);
    lemma_tail(p, text, q, text);
}

/// The first byte and the last byte of a comma, of brackets.
pub proof fn lemma_marks()
    ensures
        utf8(","@) == seq![0x2cu8],
        utf8("["@) == seq![0x5bu8],
        utf8("]"@) == seq![0x5du8],
{
    reveal_strlit(",");
    reveal_strlit("[");
    reveal_strlit("]");
    vstd::utf8::is_ascii_chars_encode_utf8(","@);
    vstd::utf8::is_ascii_chars_encode_utf8("["@);
    vstd::utf8::is_ascii_chars_encode_utf8("]"@);
    assert(utf8(","@) =~= seq![0x2cu8]);
    assert(utf8("["@) =~= seq![0x5bu8]);
    assert(utf8("]"@) =~= seq![0x5du8]);
}

} // verus!
