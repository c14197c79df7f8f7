//! Compact JSON piece by piece: lines of the same make that are written alike hold the same values.

use crate::bytes::{lemma_assoc, lemma_split, utf8};
use crate::json::{
    is_digit, json_array, json_bool, json_bytes, json_char, json_chars, json_joined, json_number,
    json_numbers, json_optional, json_string, lemma_decimal_injective, lemma_digits, lemma_marks,
    lemma_number_after,
};
use vstd::prelude::*;

verus! {

/// A character that stands for itself in a JSON string.
spec fn plain(c: char) -> bool {
    let n = c as u32;
    n >= 0x20 && n != 0x22 && n != 0x5c
}

/// What a plain character's encoding begins with, and how long it is.
proof fn lemma_plain(c: char)
    requires
        plain(c),
    ensures
        json_char(c) == vstd::utf8::encode_utf8(seq![c]),
        json_char(c).len() > 0,
        json_char(c)[0] != 0x22,
        json_char(c)[0] != 0x5c,
        json_char(c).len() == vstd::utf8::length_of_first_codepoint(json_char(c)),
        vstd::utf8::decode_first_codepoint(json_char(c)) == c as u32,
{
    let n = c as u32;
    let e = vstd::utf8::encode_utf8(seq![c]);
    vstd::utf8::encode_utf8_first_scalar(seq![c]);
    reveal_with_fuel(vstd::utf8::encode_utf8, 2);
    assert(e =~= vstd::utf8::encode_scalar(n));
    if vstd::utf8::is_leading_byte_width_1(e[0]) {
        let b = e[0];
        assert((b & 0x7f) as u32 == n);
        assert(b <= 0x7f ==> (b & 0x7f) == b) by (bit_vector);
    }
}

/// Characters of a string can be told from what follows them.
proof fn lemma_char_delimits(c: char, s: Seq<u8>, d: char, t: Seq<u8>)
    requires
        json_char(c) + s == json_char(d) + t,
    ensures
        c == d,
        s == t,
{
    let (e, f) = (json_char(c), json_char(d));
    let whole = e + s;
    assert(e.len() > 0 && f.len() > 0) by {
        if plain(c) {
            lemma_plain(c);
        }
        if plain(d) {
            lemma_plain(d);
        }
    }
    assert(whole[0] == e[0]);
    assert((f + t)[0] == f[0]);
    if plain(c) {
        lemma_plain(c);
    }
    if plain(d) {
        lemma_plain(d);
    }
    if plain(c) && plain(d) {
        lemma_split(e, s, f, t);
    } else {
        assert(!plain(c) && !plain(d));
        assert(whole[1] == e[1]);
        assert((f + t)[1] == f[1]);
        assert(e.len() == f.len());
        lemma_split(e, s, f, t);
        if e.len() == 6 {
            assert(e[4] == f[4] && e[5] == f[5]);
        }
        assert(c as u32 == d as u32);
    }
    vstd::utf8::char_u32_cast(c, c as u32);
    vstd::utf8::char_u32_cast(d, d as u32);
}

/// No character's encoding begins with a quote.
proof fn lemma_char_begins(c: char)
    ensures
        json_char(c).len() > 0,
        json_char(c)[0] != 0x22,
{
    if plain(c) {
        lemma_plain(c);
    }
}

proof fn lemma_chars_delimit(x: Seq<char>, s: Seq<u8>, y: Seq<char>, t: Seq<u8>)
    requires
        s.len() > 0,
        t.len() > 0,
        s[0] == 0x22,
        t[0] == 0x22,
        json_chars(x) + s == json_chars(y) + t,
    ensures
        x == y,
        s == t,
    decreases x.len(),
{
    let whole = json_chars(x) + s;
    if x.len() == 0 {
        assert(whole =~= s);
        if y.len() > 0 {
            lemma_char_begins(y[0]);
            assert((json_chars(y) + t)[0] == json_char(y[0])[0]);
        } else {
            assert(json_chars(y) + t =~= t);
            assert(x =~= y);
        }
    } else if y.len() == 0 {
        lemma_char_begins(x[0]);
        assert(json_chars(y) + t =~= t);
        assert(whole[0] == json_char(x[0])[0]);
    } else {
        let (u, v) = (x.drop_first(), y.drop_first());
        lemma_assoc(json_char(x[0]), json_chars(u), s);
        lemma_assoc(json_char(y[0]), json_chars(v), t);
        lemma_char_delimits(x[0], json_chars(u) + s, y[0], json_chars(v) + t);
        lemma_chars_delimit(u, s, v, t);
        assert(x =~= seq![x[0]] + u);
        assert(y =~= seq![y[0]] + v);
    }
}

/// Strings can be told from what follows them.
proof fn lemma_string_delimits(x: Seq<char>, s: Seq<u8>, y: Seq<char>, t: Seq<u8>)
    requires
        json_string(x) + s == json_string(y) + t,
    ensures
        x == y,
        s == t,
{
    reveal(json_string);
    let q = seq![0x22u8];
    lemma_assoc(q + json_chars(x), q, s);
    lemma_assoc(q, json_chars(x), q + s);
    lemma_assoc(q + json_chars(y), q, t);
    lemma_assoc(q, json_chars(y), q + t);
    lemma_split(q, json_chars(x) + (q + s), q, json_chars(y) + (q + t));
    lemma_chars_delimit(x, q + s, y, q + t);
    lemma_split(q, s, q, t);
}

/// Numbers can be told from what follows them, if that begins with no digit.
proof fn lemma_number_delimits(x: nat, s: Seq<u8>, y: nat, t: Seq<u8>)
    requires
        s.len() > 0,
        t.len() > 0,
        !is_digit(s[0]),
        !is_digit(t[0]),
        json_number(x) + s == json_number(y) + t,
    ensures
        x == y,
        s == t,
{
    let (m, n) = (json_number(x), json_number(y));
    lemma_digits(x);
    lemma_digits(y);
    let whole = m + s;
    if m.len() < n.len() {
        assert(whole[m.len() as int] == s[0]);
        assert((n + t)[m.len() as int] == n[m.len() as int]);
    } else if n.len() < m.len() {
        assert(whole[n.len() as int] == m[n.len() as int]);
        assert((n + t)[n.len() as int] == t[0]);
    }
    lemma_split(m, s, n, t);
    lemma_decimal_injective(x, y);
}

/// Numbers, each as JSON.
pub open spec fn items(values: Seq<nat>) -> Seq<Seq<u8>> {
    Seq::new(values.len(), |i: int| json_number(values[i]))
}

/// Numbers with commas between them are digits and commas.
proof fn lemma_joined(values: Seq<nat>)
    ensures
        values.len() > 0 ==> json_joined(items(values)).len() > 0,
        forall|i: int|
            0 <= i < json_joined(items(values)).len() ==> is_digit(
                #[trigger] json_joined(items(values))[i],
            ) || json_joined(items(values))[i] == 0x2c,
    decreases values.len(),
{
    lemma_marks();
    let n = values.len();
    if n == 1 {
        lemma_digits(values[0]);
    } else if n > 1 {
        lemma_joined(values.drop_last());
        lemma_digits(values.last());
        assert(items(values).drop_last() =~= items(values.drop_last()));
    }
}

proof fn lemma_joined_injective(x: Seq<nat>, y: Seq<nat>)
    requires
        json_joined(items(x)) == json_joined(items(y)),
    ensures
        x == y,
    decreases x.len(),
{
    lemma_marks();
    lemma_joined(x);
    lemma_joined(y);
    let c = utf8(","@);
    let (m, n) = (x.len(), y.len());
    if m > 1 {
        assert(items(x).drop_last() =~= items(x.drop_last()));
    }
    if n > 1 {
        assert(items(y).drop_last() =~= items(y.drop_last()));
    }
    if m == 0 || n == 0 {
        assert(x =~= y);
    } else if m == 1 && n == 1 {
        lemma_decimal_injective(x[0], y[0]);
        assert(x =~= y);
    } else if m == 1 {
        let before = json_joined(items(y.drop_last()));
        lemma_digits(x[0]);
        assert(json_joined(items(y))[before.len() as int] == 0x2c);
    } else if n == 1 {
        let before = json_joined(items(x.drop_last()));
        lemma_digits(y[0]);
        assert(json_joined(items(x))[before.len() as int] == 0x2c);
    } else {
        let (u, v) = (json_joined(items(x.drop_last())), json_joined(items(y.drop_last())));
        lemma_number_after(u, x.last(), v, y.last(), c);
        lemma_joined_injective(x.drop_last(), y.drop_last());
        assert(x =~= x.drop_last().push(x.last()));
        assert(y =~= y.drop_last().push(y.last()));
    }
}

/// Arrays of numbers can be told from what follows them.
proof fn lemma_array_delimits(x: Seq<nat>, s: Seq<u8>, y: Seq<nat>, t: Seq<u8>)
    requires
        json_array(items(x)) + s == json_array(items(y)) + t,
    ensures
        x == y,
        s == t,
{
    lemma_marks();
    lemma_joined(x);
    lemma_joined(y);
    let (o, z) = (utf8("["@), utf8("]"@));
    let (m, n) = (json_joined(items(x)), json_joined(items(y)));
    lemma_assoc(o + m, z, s);
    lemma_assoc(o, m, z + s);
    lemma_assoc(o + n, z, t);
    lemma_assoc(o, n, z + t);
    lemma_split(o, m + (z + s), o, n + (z + t));
    let whole = m + (z + s);
    if m.len() < n.len() {
        assert(whole[m.len() as int] == z[0]);
        assert((n + (z + t))[m.len() as int] == n[m.len() as int]);
    } else if n.len() < m.len() {
        assert(whole[n.len() as int] == m[n.len() as int]);
        assert((n + (z + t))[n.len() as int] == z[0]);
    }
    lemma_split(m, z + s, n, z + t);
    lemma_split(z, s, z, t);
    lemma_joined_injective(x, y);
}

/// Bytes as numbers.
pub open spec fn values_of(bytes: Seq<u8>) -> Seq<nat> {
    Seq::new(bytes.len(), |i: int| bytes[i] as nat)
}

/// A byte array is an array of numbers.
pub proof fn lemma_byte_values(bytes: Seq<u8>)
    ensures
        json_bytes(bytes) == json_array(items(values_of(bytes))),
{
    lemma_joined_bytes(bytes, bytes.len());
    assert(bytes.take(bytes.len() as int) =~= bytes);
}

proof fn lemma_joined_bytes(bytes: Seq<u8>, n: nat)
    requires
        n <= bytes.len(),
    ensures
        json_numbers(bytes, n) == json_joined(items(values_of(bytes.take(n as int)))),
    decreases n,
{
    let all = items(values_of(bytes.take(n as int)));
    if n > 1 {
        lemma_joined_bytes(bytes, (n - 1) as nat);
        assert(all.drop_last() =~= items(values_of(bytes.take(n - 1))));
    }
}

/// Byte arrays are equal where their numbers are.
pub proof fn lemma_values_injective(x: Seq<u8>, y: Seq<u8>)
    requires
        values_of(x) == values_of(y),
    ensures
        x == y,
{
    assert(values_of(x).len() == x.len() && values_of(y).len() == y.len());
    assert forall|i: int| 0 <= i < x.len() implies x[i] == y[i] by {
        assert(values_of(x)[i] == values_of(y)[i]);
        assert(values_of(x)[i] == x[i] as nat && values_of(y)[i] == y[i] as nat);
    }
    assert(x =~= y);
}

/// Optional numbers can be told from what follows them, if that begins with no digit.
proof fn lemma_optional_delimits(x: Option<u128>, s: Seq<u8>, y: Option<u128>, t: Seq<u8>)
    requires
        s.len() > 0,
        t.len() > 0,
        !is_digit(s[0]),
        !is_digit(t[0]),
        json_optional(x) + s == json_optional(y) + t,
    ensures
        x == y,
        s == t,
{
    reveal_strlit("null");
    vstd::utf8::is_ascii_chars_encode_utf8("null"@);
    let (m, n) = (json_optional(x), json_optional(y));
    if x is Some {
        lemma_digits(x->Some_0 as nat);
    }
    if y is Some {
        lemma_digits(y->Some_0 as nat);
    }
    assert((m + s)[0] == m[0] && (n + t)[0] == n[0]);
    if x is Some && y is Some {
        lemma_number_delimits(x->Some_0 as nat, s, y->Some_0 as nat, t);
    } else {
        lemma_split(m, s, n, t);
    }
}

proof fn lemma_flag_delimits(x: bool, s: Seq<u8>, y: bool, t: Seq<u8>)
    requires
        json_bool(x) + s == json_bool(y) + t,
    ensures
        x == y,
        s == t,
{
    reveal_strlit("true");
    reveal_strlit("false");
    vstd::utf8::is_ascii_chars_encode_utf8("true"@);
    vstd::utf8::is_ascii_chars_encode_utf8("false"@);
    assert((json_bool(x) + s)[0] == json_bool(x)[0]);
    assert((json_bool(y) + t)[0] == json_bool(y)[0]);
    lemma_split(json_bool(x), s, json_bool(y), t);
}

/// Compact JSON, piece by piece: fixed texts, values, and whole lines within it. Behind a number
/// stands the text that ends it.
pub ghost enum Line {
    Start(Seq<u8>),
    Text(Box<Line>, Seq<u8>),
    Number(Box<Line>, nat, Seq<u8>),
    Optional(Box<Line>, Option<u128>, Seq<u8>),
    Flag(Box<Line>, bool),
    Quoted(Box<Line>, Seq<char>),
    Numbers(Box<Line>, Seq<nat>),
    Within(Box<Line>, Box<Line>),
    Listed(Box<Line>, Seq<Line>),
}

/// Texts that differ before either ends.
pub open spec fn differ(x: Seq<u8>, y: Seq<u8>) -> bool {
    exists|i: int| 0 <= i < x.len() && i < y.len() && #[trigger] x[i] != #[trigger] y[i]
}

/// The start of a line.
pub open spec fn line(text: Seq<char>) -> Line {
    Line::Start(utf8(text))
}

impl Line {
    pub open spec fn text(self, text: Seq<char>) -> Line {
        Line::Text(Box::new(self), utf8(text))
    }

    pub open spec fn number(self, value: nat, end: Seq<char>) -> Line {
        Line::Number(Box::new(self), value, utf8(end))
    }

    pub open spec fn optional(self, value: Option<u128>, end: Seq<char>) -> Line {
        Line::Optional(Box::new(self), value, utf8(end))
    }

    pub open spec fn flag(self, value: bool) -> Line {
        Line::Flag(Box::new(self), value)
    }

    pub open spec fn quoted(self, text: Seq<char>) -> Line {
        Line::Quoted(Box::new(self), text)
    }

    pub open spec fn numbers(self, values: Seq<nat>) -> Line {
        Line::Numbers(Box::new(self), values)
    }

    pub open spec fn bytes(self, bytes: Seq<u8>) -> Line {
        self.numbers(values_of(bytes))
    }

    pub open spec fn within(self, inner: Line) -> Line {
        Line::Within(Box::new(self), Box::new(inner))
    }

    pub open spec fn listed(self, lines: Seq<Line>) -> Line {
        Line::Listed(Box::new(self), lines)
    }

    /// What is written.
    pub open spec fn written(self) -> Seq<u8>
        decreases self, 0int,
    {
        match self {
            Line::Start(text) => text,
            Line::Text(before, text) => before.written() + text,
            Line::Number(before, value, end) => before.written() + json_number(value) + end,
            Line::Optional(before, value, end) => before.written() + json_optional(value) + end,
            Line::Flag(before, value) => before.written() + json_bool(value),
            Line::Quoted(before, text) => before.written() + json_string(text),
            Line::Numbers(before, values) => before.written() + json_array(items(values)),
            Line::Within(before, inner) => before.written() + inner.written(),
            Line::Listed(before, lines) => before.written() + (utf8("["@) + written_list(lines, 0)
                + utf8("]"@)),
        }
    }

    /// What the line starts with.
    pub open spec fn head(self) -> Seq<u8>
        decreases self,
    {
        match self {
            Line::Start(text) => text,
            Line::Text(before, _) => before.head(),
            Line::Number(before, _, _) => before.head(),
            Line::Optional(before, _, _) => before.head(),
            Line::Flag(before, _) => before.head(),
            Line::Quoted(before, _) => before.head(),
            Line::Numbers(before, _) => before.head(),
            Line::Within(before, _) => before.head(),
            Line::Listed(before, _) => before.head(),
        }
    }

    /// Lines with the same texts and values of the same kinds in the same places. Lines within them
    /// may also differ in their heads.
    pub open spec fn like(self, other: Line) -> bool
        decreases self, 0int,
    {
        match (self, other) {
            (Line::Start(x), Line::Start(y)) => x == y,
            (Line::Text(a, x), Line::Text(b, y)) => x == y && a.like(*b),
            (Line::Number(a, _, x), Line::Number(b, _, y)) => x == y && x.len() > 0 && !is_digit(
                x[0],
            ) && a.like(*b),
            (Line::Optional(a, _, x), Line::Optional(b, _, y)) => x == y && x.len() > 0
                && !is_digit(x[0]) && a.like(*b),
            (Line::Flag(a, _), Line::Flag(b, _)) => a.like(*b),
            (Line::Quoted(a, _), Line::Quoted(b, _)) => a.like(*b),
            (Line::Numbers(a, _), Line::Numbers(b, _)) => a.like(*b),
            (Line::Within(a, x), Line::Within(b, y)) => (x.like(*y) || differ(x.head(), y.head()))
                && a.like(*b),
            (Line::Listed(a, xs), Line::Listed(b, ys)) => a.like(*b) && list_like(
                xs,
                ys,
                if xs.len() < ys.len() {
                    xs.len()
                } else {
                    ys.len()
                },
            ) && opens(xs) && opens(ys),
            _ => false,
        }
    }
}

/// The lines from the `i`th on, with commas between them.
pub open spec fn written_list(lines: Seq<Line>, i: nat) -> Seq<u8>
    decreases lines, lines.len() - i,
{
    if i >= lines.len() {
        Seq::empty()
    } else if i + 1 == lines.len() {
        lines[i as int].written()
    } else {
        lines[i as int].written() + (utf8(","@) + written_list(lines, i + 1))
    }
}

/// The first `n` lines of two lists are alike, or differ in their heads, one by one.
pub open spec fn list_like(xs: Seq<Line>, ys: Seq<Line>, n: nat) -> bool
    decreases xs, n,
{
    n == 0 || n > xs.len() || (list_like(xs, ys, (n - 1) as nat) && (xs[n - 1].like(ys[n - 1])
        || differ(xs[n - 1].head(), ys[n - 1].head())))
}

/// Nothing that ends a list stands where its first line does.
pub open spec fn opens(lines: Seq<Line>) -> bool {
    lines.len() > 0 ==> lines[0].head().len() > 0 && lines[0].head()[0] != 0x5d
}

/// Lines that are alike and written alike, whatever follows, are the same, and so is what follows.
/// Lines whose heads differ are not written alike.
pub proof fn lemma_lines(a: Line, s: Seq<u8>, b: Line, t: Seq<u8>)
    requires
        a.like(b) || differ(a.head(), b.head()),
        a.written() + s == b.written() + t,
    ensures
        a == b,
        s == t,
    decreases a, 1int,
{
    if !a.like(b) {
        let i = choose|i: int|
            0 <= i < a.head().len() && i < b.head().len() && #[trigger] a.head()[i]
                != #[trigger] b.head()[i];
        lemma_head(a);
        lemma_head(b);
        assert((a.written() + s)[i] == a.head()[i]);
        assert((b.written() + t)[i] == b.head()[i]);
    } else {
        lemma_alike(a, s, b, t);
    }
}

proof fn lemma_alike(a: Line, s: Seq<u8>, b: Line, t: Seq<u8>)
    requires
        a.like(b),
        a.written() + s == b.written() + t,
    ensures
        a == b,
        s == t,
    decreases a, 0int,
{
    match (a, b) {
        (Line::Start(x), Line::Start(y)) => lemma_split(x, s, y, t),
        (Line::Text(c, x), Line::Text(d, y)) => {
            lemma_assoc(c.written(), x, s);
            lemma_assoc(d.written(), y, t);
            lemma_lines(*c, x + s, *d, y + t);
            lemma_split(x, s, y, t);
        },
        (Line::Number(c, x, u), Line::Number(d, y, v)) => {
            lemma_assoc(c.written() + json_number(x), u, s);
            lemma_assoc(c.written(), json_number(x), u + s);
            lemma_assoc(d.written() + json_number(y), v, t);
            lemma_assoc(d.written(), json_number(y), v + t);
            lemma_lines(*c, json_number(x) + (u + s), *d, json_number(y) + (v + t));
            assert((u + s)[0] == u[0] && (v + t)[0] == v[0]);
            lemma_number_delimits(x, u + s, y, v + t);
            lemma_split(u, s, v, t);
        },
        (Line::Optional(c, x, u), Line::Optional(d, y, v)) => {
            let (m, n) = (json_optional(x), json_optional(y));
            lemma_assoc(c.written() + m, u, s);
            lemma_assoc(c.written(), m, u + s);
            lemma_assoc(d.written() + n, v, t);
            lemma_assoc(d.written(), n, v + t);
            lemma_lines(*c, m + (u + s), *d, n + (v + t));
            assert((u + s)[0] == u[0] && (v + t)[0] == v[0]);
            lemma_optional_delimits(x, u + s, y, v + t);
            lemma_split(u, s, v, t);
        },
        (Line::Flag(c, x), Line::Flag(d, y)) => {
            lemma_assoc(c.written(), json_bool(x), s);
            lemma_assoc(d.written(), json_bool(y), t);
            lemma_lines(*c, json_bool(x) + s, *d, json_bool(y) + t);
            lemma_flag_delimits(x, s, y, t);
        },
        (Line::Quoted(c, x), Line::Quoted(d, y)) => {
            lemma_assoc(c.written(), json_string(x), s);
            lemma_assoc(d.written(), json_string(y), t);
            lemma_lines(*c, json_string(x) + s, *d, json_string(y) + t);
            lemma_string_delimits(x, s, y, t);
        },
        (Line::Numbers(c, x), Line::Numbers(d, y)) => {
            lemma_assoc(c.written(), json_array(items(x)), s);
            lemma_assoc(d.written(), json_array(items(y)), t);
            lemma_lines(*c, json_array(items(x)) + s, *d, json_array(items(y)) + t);
            lemma_array_delimits(x, s, y, t);
        },
        (Line::Within(c, x), Line::Within(d, y)) => {
            lemma_assoc(c.written(), x.written(), s);
            lemma_assoc(d.written(), y.written(), t);
            lemma_lines(*c, x.written() + s, *d, y.written() + t);
            lemma_lines(*x, s, *y, t);
        },
        (Line::Listed(c, xs), Line::Listed(d, ys)) => {
            let (o, z) = (utf8("["@), utf8("]"@));
            let (u, v) = (written_list(xs, 0), written_list(ys, 0));
            lemma_marks();
            lemma_assoc(c.written(), o + u + z, s);
            lemma_assoc(d.written(), o + v + z, t);
            lemma_lines(*c, o + u + z + s, *d, o + v + z + t);
            lemma_assoc(o + u, z, s);
            lemma_assoc(o, u, z + s);
            lemma_assoc(o + v, z, t);
            lemma_assoc(o, v, z + t);
            lemma_split(o, u + (z + s), o, v + (z + t));
            if xs.len() > 0 {
                lemma_list_head(xs);
                assert((u + (z + s))[0] == xs[0].head()[0]);
            } else {
                assert(u + (z + s) =~= z + s);
                assert((z + s)[0] == z[0]);
            }
            if ys.len() > 0 {
                lemma_list_head(ys);
                assert((v + (z + t))[0] == ys[0].head()[0]);
            } else {
                assert(v + (z + t) =~= z + t);
                assert((z + t)[0] == z[0]);
            }
            if xs.len() > 0 && ys.len() > 0 {
                lemma_lists(xs, s, ys, t, 0);
                assert(xs =~= ys);
            } else {
                lemma_split(z, s, z, t);
                assert(xs =~= ys);
            }
        },
        _ => {},
    }
}

proof fn lemma_list_head(lines: Seq<Line>)
    requires
        lines.len() > 0,
        lines[0].head().len() > 0,
    ensures
        written_list(lines, 0).len() > 0,
        written_list(lines, 0)[0] == lines[0].head()[0],
{
    lemma_head(lines[0]);
    assert(lines[0].written()[0] == lines[0].head()[0]);
}

proof fn lemma_list_like(xs: Seq<Line>, ys: Seq<Line>, n: nat, i: nat)
    requires
        list_like(xs, ys, n),
        n <= xs.len(),
        i < n,
    ensures
        xs[i as int].like(ys[i as int]) || differ(xs[i as int].head(), ys[i as int].head()),
    decreases n,
{
    if i + 1 < n {
        lemma_list_like(xs, ys, (n - 1) as nat, i);
    }
}

/// Lists are alike where their lines are, one by one.
pub proof fn lemma_all_like(xs: Seq<Line>, ys: Seq<Line>, n: nat)
    requires
        n <= xs.len(),
        forall|i: int|
            0 <= i < n ==> (#[trigger] xs[i]).like(ys[i]) || differ(xs[i].head(), ys[i].head()),
    ensures
        list_like(xs, ys, n),
    decreases n,
{
    if n > 0 {
        lemma_all_like(xs, ys, (n - 1) as nat);
        assert(xs[n - 1].like(ys[n - 1]) || differ(xs[n - 1].head(), ys[n - 1].head()));
    }
}

/// Lists that are alike can be told from what follows them.
proof fn lemma_lists(xs: Seq<Line>, s: Seq<u8>, ys: Seq<Line>, t: Seq<u8>, i: nat)
    requires
        i < xs.len(),
        i < ys.len(),
        list_like(
            xs,
            ys,
            if xs.len() < ys.len() {
                xs.len()
            } else {
                ys.len()
            },
        ),
        written_list(xs, i) + (utf8("]"@) + s) == written_list(ys, i) + (utf8("]"@) + t),
    ensures
        xs.len() == ys.len(),
        forall|j: int| i <= j < xs.len() ==> xs[j] == ys[j],
        s == t,
    decreases xs, xs.len() - i,
{
    lemma_marks();
    let (c, z) = (utf8(","@), utf8("]"@));
    lemma_list_like(
        xs,
        ys,
        if xs.len() < ys.len() {
            xs.len()
        } else {
            ys.len()
        },
        i,
    );
    let (a, b) = (xs[i as int], ys[i as int]);
    let (u, v) = (written_list(xs, i + 1), written_list(ys, i + 1));
    let x = if i + 1 == xs.len() {
        z + s
    } else {
        c + u + (z + s)
    };
    let y = if i + 1 == ys.len() {
        z + t
    } else {
        c + v + (z + t)
    };
    if i + 1 < xs.len() {
        lemma_assoc(a.written(), c + u, z + s);
    }
    if i + 1 < ys.len() {
        lemma_assoc(b.written(), c + v, z + t);
    }
    lemma_lines(a, x, b, y);
    assert(x[0] == y[0]);
    if i + 1 == xs.len() {
        assert(x[0] == 0x5d);
        if i + 1 < ys.len() {
            assert(y[0] == 0x2c);
        }
        lemma_split(z, s, z, t);
    } else {
        assert(x[0] == 0x2c);
        if i + 1 == ys.len() {
            assert(y[0] == 0x5d);
        }
        lemma_assoc(c, u, z + s);
        lemma_assoc(c, v, z + t);
        lemma_split(c, u + (z + s), c, v + (z + t));
        lemma_lists(xs, s, ys, t, i + 1);
    }
}

/// Lists are written with commas between their lines.
pub proof fn lemma_listed(lines: Seq<Line>, parts: Seq<Seq<u8>>)
    requires
        parts.len() == lines.len(),
        forall|i: int| 0 <= i < lines.len() ==> #[trigger] parts[i] == lines[i].written(),
    ensures
        json_array(parts) == utf8("["@) + written_list(lines, 0) + utf8("]"@),
{
    lemma_listed_from(lines, parts, 0);
    assert(parts.skip(0) =~= parts);
}

proof fn lemma_listed_from(lines: Seq<Line>, parts: Seq<Seq<u8>>, i: nat)
    requires
        parts.len() == lines.len(),
        i <= lines.len(),
        forall|j: int| 0 <= j < lines.len() ==> #[trigger] parts[j] == lines[j].written(),
    ensures
        json_joined(parts.skip(i as int)) == written_list(lines, i),
    decreases lines.len() - i,
{
    let rest = parts.skip(i as int);
    if i + 1 < lines.len() {
        lemma_listed_from(lines, parts, i + 1);
        lemma_joined_first(rest);
        assert(rest.drop_first() =~= parts.skip((i + 1) as int));
        assert(rest[0] == parts[i as int]);
    } else if i + 1 == lines.len() {
        assert(rest[0] == parts[i as int]);
    }
}

proof fn lemma_joined_first(parts: Seq<Seq<u8>>)
    requires
        parts.len() > 1,
    ensures
        json_joined(parts) == parts[0] + (utf8(","@) + json_joined(parts.drop_first())),
    decreases parts.len(),
{
    let c = utf8(","@);
    let (front, rest) = (parts.drop_last(), parts.drop_first());
    if parts.len() == 2 {
        lemma_assoc(parts[0], c, parts[1]);
        assert(front[0] == parts[0] && rest[0] == parts[1]);
        assert(json_joined(front) == parts[0]);
        assert(json_joined(rest) == parts[1]);
    } else {
        lemma_joined_first(front);
        let m = json_joined(front.drop_first());
        assert(front.drop_first() =~= rest.drop_last());
        assert(json_joined(rest) == m + c + parts.last());
        lemma_assoc(parts[0], c + m, c);
        lemma_assoc(parts[0], c + m + c, parts.last());
        lemma_assoc(c, m, c);
        lemma_assoc(c, m + c, parts.last());
    }
}

proof fn lemma_head(a: Line)
    ensures
        a.head().len() <= a.written().len(),
        forall|i: int| 0 <= i < a.head().len() ==> #[trigger] a.written()[i] == a.head()[i],
    decreases a,
{
    match a {
        Line::Start(_) => {},
        Line::Text(before, _) => lemma_head(*before),
        Line::Number(before, _, _) => lemma_head(*before),
        Line::Optional(before, _, _) => lemma_head(*before),
        Line::Flag(before, _) => lemma_head(*before),
        Line::Quoted(before, _) => lemma_head(*before),
        Line::Numbers(before, _) => lemma_head(*before),
        Line::Within(before, _) => lemma_head(*before),
        Line::Listed(before, _) => lemma_head(*before),
    }
}

} // verus!
