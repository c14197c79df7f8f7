//! Byte sequences: fixed-width big-endian integers, length-prefixed fields, and comparison.

use vstd::prelude::*;

verus! {

/// The number of values that `width` bytes can hold.
pub open spec fn span(width: nat) -> nat
    decreases width,
{
    if width == 0 {
        1
    } else {
        256 * span((width - 1) as nat)
    }
}

/// The `width` low-order bytes of `value`, most significant byte first.
pub open spec fn be_bytes(value: nat, width: nat) -> Seq<u8>
    decreases width,
{
    if width == 0 {
        Seq::empty()
    } else {
        be_bytes(value / 256, (width - 1) as nat).push((value % 256) as u8)
    }
}

/// The integer that a byte sequence denotes, most significant byte first.
pub open spec fn be_value(bytes: Seq<u8>) -> nat
    decreases bytes.len(),
{
    if bytes.len() == 0 {
        0
    } else {
        256 * be_value(bytes.drop_last()) + bytes.last() as nat
    }
}

/// The UTF-8 bytes of a text.
pub open spec fn utf8(text: Seq<char>) -> Seq<u8> {
    vstd::utf8::encode_utf8(text)
}

/// A field preceded by its length in two bytes.
pub open spec fn prefixed16(field: Seq<u8>) -> Seq<u8> {
    be_bytes(field.len(), 2) + field
}

/// A field preceded by its length in four bytes.
pub open spec fn prefixed32(field: Seq<u8>) -> Seq<u8> {
    be_bytes(field.len(), 4) + field
}

pub broadcast proof fn lemma_be_len(value: nat, width: nat)
    ensures
        #[trigger] be_bytes(value, width).len() == width,
    decreases width,
{
    if width > 0 {
        lemma_be_len(value / 256, (width - 1) as nat);
    }
}

pub proof fn lemma_spans()
    ensures
        span(1) == 0x100,
        span(2) == 0x1_0000,
        span(4) == 0x1_0000_0000,
        span(8) == 0x1_0000_0000_0000_0000,
        span(16) == u128::MAX + 1,
{
    reveal_with_fuel(span, 17);
}

/// Two values that fit in `width` bytes have the same bytes only if they are the same value.
pub proof fn lemma_be_injective(a: nat, b: nat, width: nat)
    requires
        a < span(width),
        b < span(width),
        be_bytes(a, width) == be_bytes(b, width),
    ensures
        a == b,
    decreases width,
{
    if width > 0 {
        let inner = (width - 1) as nat;
        assert(be_bytes(a, width).last() == (a % 256) as u8);
        assert(be_bytes(b, width).last() == (b % 256) as u8);
        assert(be_bytes(a, width).drop_last() =~= be_bytes(a / 256, inner));
        assert(be_bytes(b, width).drop_last() =~= be_bytes(b / 256, inner));
        lemma_be_injective(a / 256, b / 256, inner);
    }
}

/// What a byte sequence denotes is below the span of its length.
pub proof fn lemma_value_bound(bytes: Seq<u8>)
    ensures
        be_value(bytes) < span(bytes.len()),
    decreases bytes.len(),
{
    if bytes.len() > 0 {
        lemma_value_bound(bytes.drop_last());
    }
}

/// Reading back the bytes of a value that fits gives the value.
pub proof fn lemma_value_of_bytes(value: nat, width: nat)
    requires
        value < span(width),
    ensures
        be_value(be_bytes(value, width)) == value,
    decreases width,
{
    if width > 0 {
        let inner = (width - 1) as nat;
        lemma_value_of_bytes(value / 256, inner);
        assert(be_bytes(value, width).drop_last() =~= be_bytes(value / 256, inner));
    }
}

/// Equal concatenations of parts whose first halves have one length have equal parts.
pub proof fn lemma_split(a: Seq<u8>, x: Seq<u8>, b: Seq<u8>, y: Seq<u8>)
    requires
        a.len() == b.len(),
        a + x == b + y,
    ensures
        a == b,
        x == y,
{
    assert((a + x).subrange(0, a.len() as int) =~= a);
    assert((b + y).subrange(0, b.len() as int) =~= b);
    assert((a + x).subrange(a.len() as int, (a + x).len() as int) =~= x);
    assert((b + y).subrange(b.len() as int, (b + y).len() as int) =~= y);
}

/// Equal concatenations of parts whose second halves have one length have equal parts.
pub proof fn lemma_tail(a: Seq<u8>, x: Seq<u8>, b: Seq<u8>, y: Seq<u8>)
    requires
        x.len() == y.len(),
        a + x == b + y,
    ensures
        a == b,
        x == y,
{
    assert((a + x).len() == a.len() + x.len());
    assert((b + y).len() == b.len() + y.len());
    lemma_split(a, x, b, y);
}

/// A fixed-width integer at the end can be told from what precedes it.
pub proof fn lemma_tail_be(x: Seq<u8>, a: nat, y: Seq<u8>, b: nat, width: nat)
    requires
        a < span(width),
        b < span(width),
        x + be_bytes(a, width) == y + be_bytes(b, width),
    ensures
        a == b,
        x == y,
{
    broadcast use lemma_be_len;

    lemma_tail(x, be_bytes(a, width), y, be_bytes(b, width));
    lemma_be_injective(a, b, width);
}

/// A byte at the end can be told from what precedes it.
pub proof fn lemma_tail_byte(x: Seq<u8>, a: u8, y: Seq<u8>, b: u8)
    requires
        x + seq![a] == y + seq![b],
    ensures
        a == b,
        x == y,
{
    lemma_tail(x, seq![a], y, seq![b]);
    assert(seq![a][0] == seq![b][0]);
}

/// A 32-byte field at the end can be told from what precedes it.
pub proof fn lemma_tail_32(x: Seq<u8>, a: [u8; 32], y: Seq<u8>, b: [u8; 32])
    requires
        x + a@ == y + b@,
    ensures
        a == b,
        x == y,
{
    lemma_tail(x, a@, y, b@);
    lemma_array_32(a, b);
}

/// Concatenation is associative.
pub proof fn lemma_assoc(a: Seq<u8>, b: Seq<u8>, c: Seq<u8>)
    ensures
        a + b + c == a + (b + c),
{
    assert(a + b + c =~= a + (b + c));
}

/// A field with a two-byte length in front can be told from what follows it.
pub proof fn lemma_prefixed16_delimits(a: Seq<u8>, x: Seq<u8>, b: Seq<u8>, y: Seq<u8>)
    requires
        a.len() < 0x1_0000,
        b.len() < 0x1_0000,
        prefixed16(a) + x == prefixed16(b) + y,
    ensures
        a == b,
        x == y,
{
    broadcast use lemma_be_len;

    lemma_spans();
    assert(prefixed16(a) + x =~= be_bytes(a.len(), 2) + (a + x));
    assert(prefixed16(b) + y =~= be_bytes(b.len(), 2) + (b + y));
    lemma_split(be_bytes(a.len(), 2), a + x, be_bytes(b.len(), 2), b + y);
    lemma_be_injective(a.len(), b.len(), 2);
    lemma_split(a, x, b, y);
}

/// A field with a four-byte length in front can be told from what follows it.
pub proof fn lemma_prefixed32_delimits(a: Seq<u8>, x: Seq<u8>, b: Seq<u8>, y: Seq<u8>)
    requires
        a.len() < 0x1_0000_0000,
        b.len() < 0x1_0000_0000,
        prefixed32(a) + x == prefixed32(b) + y,
    ensures
        a == b,
        x == y,
{
    broadcast use lemma_be_len;

    lemma_spans();
    assert(prefixed32(a) + x =~= be_bytes(a.len(), 4) + (a + x));
    assert(prefixed32(b) + y =~= be_bytes(b.len(), 4) + (b + y));
    lemma_split(be_bytes(a.len(), 4), a + x, be_bytes(b.len(), 4), b + y);
    lemma_be_injective(a.len(), b.len(), 4);
    lemma_split(a, x, b, y);
}

/// A fixed-width integer can be told from what follows it.
pub proof fn lemma_be_delimits(a: nat, x: Seq<u8>, b: nat, y: Seq<u8>, width: nat)
    requires
        a < span(width),
        b < span(width),
        be_bytes(a, width) + x == be_bytes(b, width) + y,
    ensures
        a == b,
        x == y,
{
    broadcast use lemma_be_len;

    lemma_split(be_bytes(a, width), x, be_bytes(b, width), y);
    lemma_be_injective(a, b, width);
}

/// One byte can be told from what follows it.
pub proof fn lemma_byte_delimits(a: u8, x: Seq<u8>, b: u8, y: Seq<u8>)
    requires
        seq![a] + x == seq![b] + y,
    ensures
        a == b,
        x == y,
{
    lemma_split(seq![a], x, seq![b], y);
    assert(seq![a][0] == seq![b][0]);
}

/// Texts with the same bytes are the same text.
pub proof fn lemma_utf8_injective(a: Seq<char>, b: Seq<char>)
    requires
        utf8(a) == utf8(b),
    ensures
        a == b,
{
    broadcast use vstd::utf8::encode_utf8_decode_utf8;

    assert(vstd::utf8::decode_utf8(utf8(a)) == a);
    assert(vstd::utf8::decode_utf8(utf8(b)) == b);
}

/// Arrays with the same elements are the same array.
pub proof fn lemma_array_32(a: [u8; 32], b: [u8; 32])
    requires
        a@ == b@,
    ensures
        a == b,
{
    assert forall|i: int| 0 <= i < 32 implies a[i] == b[i] by {
        assert(a@[i] == b@[i]);
    }
    assert(a =~= b);
}

/// A 32-byte field can be told from what follows it.
pub proof fn lemma_32_delimits(a: [u8; 32], x: Seq<u8>, b: [u8; 32], y: Seq<u8>)
    requires
        a@ + x == b@ + y,
    ensures
        a == b,
        x == y,
{
    lemma_split(a@, x, b@, y);
    lemma_array_32(a, b);
}

/// The decimal digits of a number as bytes, without leading zeros.
pub open spec fn decimal_bytes(value: nat) -> Seq<u8>
    decreases value,
{
    if value < 10 {
        seq![(48 + value) as u8]
    } else {
        decimal_bytes(value / 10).push((48 + value % 10) as u8)
    }
}

/// Appends the decimal digits of a number.
pub fn push_decimal(out: &mut Vec<u8>, value: u128)
    ensures
        final(out)@ == old(out)@ + decimal_bytes(value as nat),
    decreases value,
{
    let ghost before = out@;
    if value >= 10 {
        push_decimal(out, value / 10);
    }
    out.push(48 + (value % 10) as u8);
    assert(out@ =~= before + decimal_bytes(value as nat));
}

/// A copy of a byte vector.
pub fn copy_bytes(bytes: &Vec<u8>) -> (copy: Vec<u8>)
    ensures
        copy@ == bytes@,
{
    let mut copy: Vec<u8> = Vec::new();
    push_all(&mut copy, bytes.as_slice());
    assert(copy@ =~= bytes@);
    copy
}

/// Appends the `width` low-order bytes of `value`.
pub fn push_be(out: &mut Vec<u8>, value: u128, width: usize)
    ensures
        final(out)@ == old(out)@ + be_bytes(value as nat, width as nat),
    decreases width,
{
    if width == 0 {
        assert(out@ =~= out@ + be_bytes(value as nat, width as nat));
    } else {
        let ghost before = out@;
        push_be(out, value / 256, width - 1);
        out.push((value % 256) as u8);
        assert(out@ =~= before + be_bytes(value as nat, width as nat));
    }
}

/// Appends a byte slice.
pub fn push_all(out: &mut Vec<u8>, bytes: &[u8])
    ensures
        final(out)@ == old(out)@ + bytes@,
{
    let ghost before = out@;
    let mut i: usize = 0;
    while i < bytes.len()
        invariant
            0 <= i <= bytes@.len(),
            out@ == before + bytes@.subrange(0, i as int),
        decreases bytes@.len() - i,
    {
        out.push(bytes[i]);
        assert(bytes@.subrange(0, i + 1) =~= bytes@.subrange(0, i as int).push(bytes@[i as int]));
        assert(out@ =~= before + bytes@.subrange(0, i + 1));
        i += 1;
    }
    assert(bytes@.subrange(0, i as int) =~= bytes@);
    assert(out@ =~= before + bytes@);
}

/// Appends the UTF-8 bytes of a text.
pub fn push_text(out: &mut Vec<u8>, text: &str)
    ensures
        final(out)@ == old(out)@ + utf8(text@),
{
    push_all(out, text.as_bytes());
}

/// The UTF-8 bytes of a text.
pub fn text_bytes(text: &str) -> (bytes: Vec<u8>)
    ensures
        bytes@ == utf8(text@),
{
    let mut bytes: Vec<u8> = Vec::new();
    push_text(&mut bytes, text);
    assert(bytes@ =~= utf8(text@));
    bytes
}

/// Appends a 32-byte field.
pub fn push_32(out: &mut Vec<u8>, bytes: &[u8; 32])
    ensures
        final(out)@ == old(out)@ + bytes@,
{
    push_all(out, bytes.as_slice());
}

/// Whether two byte slices hold the same bytes.
pub fn same_bytes(a: &[u8], b: &[u8]) -> (same: bool)
    ensures
        same == (a@ == b@),
{
    if a.len() != b.len() {
        return false;
    }
    let mut i: usize = 0;
    while i < a.len()
        invariant
            a@.len() == b@.len(),
            0 <= i <= a@.len(),
            forall|j: int| 0 <= j < i ==> a@[j] == b@[j],
        decreases a@.len() - i,
    {
        if a[i] != b[i] {
            return false;
        }
        i += 1;
    }
    assert(a@ =~= b@);
    true
}

/// Whether two 32-byte values are the same.
pub fn same_32(a: &[u8; 32], b: &[u8; 32]) -> (same: bool)
    ensures
        same == (*a == *b),
{
    let same = same_bytes(a.as_slice(), b.as_slice());
    proof {
        if same {
            assert forall|i: int| 0 <= i < 32 implies a[i] == b[i] by {
                assert(a@[i] == b@[i]);
            }
            assert(*a =~= *b);
        }
    }
    same
}

/// A 32-byte value with nothing but zeros in it.
pub open spec fn zero_32(a: [u8; 32]) -> bool {
    forall|i: int| 0 <= i < 32 ==> a@[i] == 0
}

/// Whether a 32-byte value is all zeros.
pub fn is_zero_32(a: &[u8; 32]) -> (zero: bool)
    ensures
        zero == zero_32(*a),
{
    let mut i: usize = 0;
    while i < 32
        invariant
            0 <= i <= 32,
            forall|j: int| 0 <= j < i ==> a@[j] == 0,
        decreases 32 - i,
    {
        if a[i] != 0 {
            assert(a@[i as int] != 0);
            return false;
        }
        i += 1;
    }
    true
}

/// The integer in the first sixteen bytes of a digest.
pub fn leading_u128(digest: &[u8; 32]) -> (value: u128)
    ensures
        value as nat == be_value(digest@.subrange(0, 16)),
{
    let mut value: u128 = 0;
    let mut i: usize = 0;
    proof {
        lemma_spans();
    }
    while i < 16
        invariant
            0 <= i <= 16,
            value as nat == be_value(digest@.subrange(0, i as int)),
        decreases 16 - i,
    {
        proof {
            lemma_value_bound(digest@.subrange(0, i as int));
            lemma_value_bound(digest@.subrange(0, i + 1));
            lemma_span_step(i as nat);
            assert(digest@.subrange(0, i + 1).drop_last() =~= digest@.subrange(0, i as int));
        }
        value = value * 256 + digest[i] as u128;
        i += 1;
    }
    value
}

proof fn lemma_span_step(i: nat)
    requires
        i < 16,
    ensures
        span(i + 1) <= u128::MAX + 1,
        span(i + 1) == 256 * span(i),
    decreases 16 - i,
{
    lemma_spans();
    if i < 15 {
        lemma_span_step(i + 1);
    }
}

/// Numbers are written with the most significant byte first: each byte is the number divided by as
/// many powers of 256 as bytes follow, without what the bytes before it stand for.
pub proof fn bytes_stand_by_place(value: nat, width: nat, i: int)
    requires
        0 <= i < width,
    ensures
        be_bytes(value, width).len() == width,
        be_bytes(value, width)[i] == (value / span((width - 1 - i) as nat)) % 256,
    decreases width,
{
    lemma_be_len(value, width);
    lemma_be_len(value / 256, (width - 1) as nat);
    if i < width - 1 {
        bytes_stand_by_place(value / 256, (width - 1) as nat, i);
        let rest = span((width - 2 - i) as nat);
        lemma_span_positive((width - 2 - i) as nat);
        vstd::arithmetic::div_mod::lemma_div_denominator(value as int, 256, rest as int);
        assert(span((width - 1 - i) as nat) == 256 * rest);
    } else {
        assert(span(0) == 1);
        assert(value as int / 1 == value);
    }
}

proof fn lemma_span_positive(width: nat)
    ensures
        span(width) > 0,
    decreases width,
{
    if width > 0 {
        lemma_span_positive((width - 1) as nat);
    }
}

proof fn lemma_bytes_of_value(bytes: Seq<u8>)
    ensures
        be_bytes(be_value(bytes), bytes.len()) == bytes,
    decreases bytes.len(),
{
    if bytes.len() > 0 {
        lemma_bytes_of_value(bytes.drop_last());
        let v = be_value(bytes);
        assert(v / 256 == be_value(bytes.drop_last()));
        assert(v % 256 == bytes.last());
        assert(be_bytes(v, bytes.len()) =~= bytes);
    } else {
        assert(be_bytes(0, 0) =~= bytes);
    }
}

/// What is read from bytes is written as those bytes again.
pub proof fn bytes_are_read_as_written(bytes: Seq<u8>)
    ensures
        be_bytes(be_value(bytes), bytes.len()) == bytes,
        be_value(bytes) < span(bytes.len()),
{
    lemma_bytes_of_value(bytes);
    lemma_value_bound(bytes);
}

} // verus!
