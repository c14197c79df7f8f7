//! Canonical ASCII domain names as legacy sender identities.

use crate::bytes::{
    be_bytes, lemma_32_delimits, lemma_be_delimits, lemma_spans, lemma_split, lemma_utf8_injective,
    push_32, push_be, push_text, text_bytes, utf8,
};
use crate::crypto::{digest_id, id_of};
use crate::primitives::ids::ProtocolIdentity;
use vstd::prelude::*;
use vstd::string::{is_ascii, StrSliceExecFns, StringExecFns};
use vstd::utf8::is_ascii_chars;

verus! {

/// The canonical ASCII DNS name used as a legacy sender identity.
///
/// Unicode names must be converted to their IDNA ASCII form by the vetted DMARC verifier before
/// this value is constructed.
#[derive(Debug, PartialEq, Eq, PartialOrd, Ord, Hash)]
pub struct DomainIdentity(pub String);

impl Clone for DomainIdentity {
    fn clone(&self) -> (copy: Self)
        ensures
            copy == *self,
    {
        DomainIdentity(self.0.clone())
    }
}

#[derive(Clone, Copy, Debug, PartialEq, Eq, Structural)]
pub enum DomainIdentityError {
    InvalidDomain,
}

/// A character with an ASCII capital letter made small.
pub open spec fn lower(c: char) -> char {
    if 0x41 <= c as u32 <= 0x5a {
        ((c as u32 + 0x20) as u32) as char
    } else {
        c
    }
}

/// A text with ASCII capital letters made small.
pub open spec fn lowered(text: Seq<char>) -> Seq<char> {
    text.map_values(|c: char| lower(c))
}

/// A text with ASCII capital letters made small.
fn to_lowercase(text: &str) -> (small: String)
    ensures
        small@ == lowered(text@),
{
    let n: usize = text.unicode_len();
    let mut small = String::new();
    let mut i: usize = 0;
    assert(small@ =~= lowered(text@.take(0)));
    while i < n
        invariant
            n == text@.len(),
            0 <= i <= n,
            small@ == lowered(text@.take(i as int)),
        decreases n - i,
    {
        let c = text.get_char(i) as u32;
        if 0x41 <= c && c <= 0x5a {
            proof {
                reveal_strlit("abcdefghijklmnopqrstuvwxyz");
            }
            let at: usize = (c - 0x41) as usize;
            let letter = "abcdefghijklmnopqrstuvwxyz".substring_char(at, at + 1);
            assert(letter@[0] == lower(text@[i as int]));
            small.append(letter);
        } else {
            small.append(text.substring_char(i, i + 1));
        }
        assert(small@ =~= lowered(text@.take(i + 1)));
        i += 1;
    }
    assert(text@.take(n as int) =~= text@);
    small
}

/// A text without the root dot at its end, if it has one.
pub open spec fn without_root(text: Seq<char>) -> Seq<char> {
    if text.len() > 0 && text.last() == '.' {
        text.drop_last()
    } else {
        text
    }
}

pub open spec fn label_char(c: char) -> bool {
    (0x61 <= c as u32 <= 0x7a) || (0x41 <= c as u32 <= 0x5a) || (0x30 <= c as u32 <= 0x39) || c == '-'
}

/// There is a dot among 64 characters from a position.
pub open spec fn dot_within(name: Seq<char>, from: int) -> bool {
    exists|j: int| from <= j < from + 64 && j < name.len() && #[trigger] name[j] == '.'
}

/// A DNS name: at most 253 characters in labels of letters, digits and hyphens with single dots
/// between them; no label is empty, longer than 63 characters, or starts or ends with a hyphen.
pub open spec fn valid_name(name: Seq<char>) -> bool {
    &&& 1 <= name.len() <= 253
    &&& forall|i: int| 0 <= i < name.len() ==> label_char(#[trigger] name[i]) || name[i] == '.'
    &&& name[0] != '.' && name[0] != '-'
    &&& name.last() != '.' && name.last() != '-'
    &&& forall|i: int|
        0 < i < name.len() && #[trigger] name[i] == '.' ==> name[i - 1] != '.' && name[i - 1] != '-'
    &&& forall|i: int|
        0 <= i < name.len() - 1 && #[trigger] name[i] == '.' ==> name[i + 1] != '-'
    &&& forall|i: int| 0 <= i && i + 64 <= name.len() ==> #[trigger] dot_within(name, i)
}

/// The canonical name that a text stands for.
pub open spec fn canonical_name(input: Seq<char>) -> Option<Seq<char>> {
    let name = lowered(without_root(input));
    if is_ascii_chars(input) && valid_name(name) {
        Some(name)
    } else {
        None
    }
}

/// A name is another, or ends with a dot and the other.
pub open spec fn within(name: Seq<char>, parent: Seq<char>) -> bool {
    name == parent || (name.len() > parent.len() && name.subrange(
        name.len() - parent.len(),
        name.len() as int,
    ) == parent && name[name.len() - parent.len() - 1] == '.')
}

/// What a synthetic identity is made of.
pub open spec fn synthetic_bytes(
    deployment_domain: Seq<u8>,
    mapping_version: u16,
    name: Seq<char>,
) -> Seq<u8> {
    utf8("cs-mail/legacy-domain-identity/v1"@) + deployment_domain + be_bytes(
        mapping_version as nat,
        2,
    ) + utf8(name)
}

fn name_is_valid(name: &str) -> (valid: bool)
    ensures
        valid == valid_name(name@),
{
    let n: usize = name.unicode_len();
    let ghost s = name@;
    if n == 0 || n > 253 {
        return false;
    }
    let mut i: usize = 0;
    // The length of the label that ends here.
    let mut run: usize = 0;
    while i < n
        invariant
            s == name@,
            n == s.len(),
            1 <= n <= 253,
            0 <= i <= n,
            0 <= run <= i,
            run <= 63,
            forall|k: int| 0 <= k < i ==> label_char(#[trigger] s[k]) || s[k] == '.',
            i > 0 ==> s[0] != '.' && s[0] != '-',
            forall|k: int|
                0 < k < i && #[trigger] s[k] == '.' ==> s[k - 1] != '.' && s[k - 1] != '-',
            forall|k: int| 0 <= k < i - 1 && #[trigger] s[k] == '.' ==> s[k + 1] != '-',
            forall|k: int| i - run <= k < i ==> #[trigger] s[k] != '.',
            i - run > 0 ==> s[i - run - 1] == '.',
            forall|k: int| 0 <= k && k + 64 <= i ==> #[trigger] dot_within(s, k),
        decreases n - i,
    {
        let c = name.get_char(i);
        if c == '.' {
            if i == 0 {
                return false;
            }
            let before = name.get_char(i - 1);
            if before == '.' || before == '-' {
                assert(s[i as int] == '.');
                return false;
            }
            run = 0;
            proof {
                assert forall|k: int| 0 <= k && k + 64 <= i + 1 implies #[trigger] dot_within(s, k) by {
                    if k + 64 == i + 1 {
                        assert(s[i as int] == '.');
                    }
                }
            }
        } else {
            let u = c as u32;
            if !((0x61 <= u && u <= 0x7a) || (0x41 <= u && u <= 0x5a) || (0x30 <= u && u <= 0x39)
                || c == '-') {
                assert(!label_char(s[i as int]) && s[i as int] != '.');
                return false;
            }
            if c == '-' {
                if i == 0 {
                    return false;
                }
                if name.get_char(i - 1) == '.' {
                    assert(s[i - 1] == '.' && s[i - 1 + 1] == '-');
                    return false;
                }
            }
            if run == 63 {
                proof {
                    if dot_within(s, i - 63) {
                        let j = choose|j: int|
                            i - 63 <= j < i - 63 + 64 && j < s.len() && #[trigger] s[j] == '.';
                        assert(j == i || s[j] != '.');
                    }
                    assert(!dot_within(s, i - 63));
                }
                return false;
            }
            run = run + 1;
            proof {
                assert forall|k: int| 0 <= k && k + 64 <= i + 1 implies #[trigger] dot_within(s, k) by {
                    if k + 64 == i + 1 {
                        let d = i + 1 - run - 1;
                        assert(s[d] == '.');
                        assert(k <= d < k + 64);
                    }
                }
            }
        }
        i += 1;
    }
    let last = name.get_char(n - 1);
    last != '.' && last != '-'
}

impl DomainIdentity {
    /// Normalizes a DNS name to lowercase without its optional root dot. Empty, non-ASCII,
    /// oversized, and syntactically invalid names are refused.
    pub fn parse_ascii(input: &str) -> (result: Result<Self, DomainIdentityError>)
        ensures
            match canonical_name(input@) {
                Some(name) => result matches Ok(domain) && domain.0@ == name,
                None => result == Err::<Self, DomainIdentityError>(
                    DomainIdentityError::InvalidDomain,
                ),
            },
    {
        if !input.is_ascii() {
            return Err(DomainIdentityError::InvalidDomain);
        }
        let mut end: usize = input.unicode_len();
        if end > 254 {
            return Err(DomainIdentityError::InvalidDomain);
        }
        if end > 0 && input.get_char(end - 1) == '.' {
            end -= 1;
        }
        assert(input@.subrange(0, end as int) =~= without_root(input@));
        let trimmed = input.substring_char(0, end);
        let normalized = to_lowercase(trimmed);
        if !name_is_valid(normalized.as_str()) {
            return Err(DomainIdentityError::InvalidDomain);
        }
        Ok(DomainIdentity(normalized))
    }

    pub fn as_str(&self) -> (text: &str)
        ensures
            text@ == self.0@,
    {
        self.0.as_str()
    }

    pub fn is_self_or_subdomain_of(&self, parent: &Self) -> (inside: bool)
        ensures
            inside == within(self.0@, parent.0@),
    {
        if self.0 == parent.0 {
            return true;
        }
        let name = self.0.as_str();
        let suffix = parent.0.as_str();
        let n: usize = name.unicode_len();
        let m: usize = suffix.unicode_len();
        if n <= m {
            return false;
        }
        let tail = name.substring_char(n - m, n);
        let mut i: usize = 0;
        while i < m
            invariant
                self.0@ != parent.0@,
                suffix@ == parent.0@,
                tail@ == self.0@.subrange(self.0@.len() - parent.0@.len(), self.0@.len() as int),
                m == suffix@.len(),
                m == tail@.len(),
                0 <= i <= m,
                forall|j: int| 0 <= j < i ==> tail@[j] == suffix@[j],
            decreases m - i,
        {
            if tail.get_char(i) != suffix.get_char(i) {
                assert(tail@[i as int] != parent.0@[i as int]);
                return false;
            }
            i += 1;
        }
        assert(tail@ =~= suffix@);
        name.get_char(n - m - 1) == '.'
    }

    /// Derives the synthetic protocol identity used consistently for legacy grant, admission,
    /// block, and revocation operations.
    pub fn synthetic_protocol_identity(&self, deployment_domain: &[u8; 32], mapping_version: u16) -> (identity:
        ProtocolIdentity)
        ensures
            identity.0 == digest_id(
                synthetic_bytes(deployment_domain@, mapping_version, self.0@),
            ),
    {
        let mut bytes = text_bytes("cs-mail/legacy-domain-identity/v1");
        push_32(&mut bytes, deployment_domain);
        push_be(&mut bytes, mapping_version as u128, 2);
        push_text(&mut bytes, self.0.as_str());
        ProtocolIdentity(id_of(bytes.as_slice()))
    }

    /// Whether two names are the same.
    pub fn same(&self, other: &Self) -> (same: bool)
        ensures
            same == (self.0@ == other.0@),
    {
        self.0 == other.0
    }
}

proof fn lemma_without_root(text: Seq<char>)
    ensures
        without_root(text).len() <= text.len(),
        without_root(text) == text.subrange(0, without_root(text).len() as int),
{
    assert(without_root(text) =~= text.subrange(0, without_root(text).len() as int));
}

/// Canonical names are canonical: normalizing one again leaves it as it is.
pub proof fn canonical_names_are_fixed(input: Seq<char>)
    requires
        canonical_name(input) is Some,
    ensures
        canonical_name(canonical_name(input)->Some_0) == canonical_name(input),
{
    let name = canonical_name(input)->Some_0;
    lemma_without_root(input);
    assert(without_root(name) == name);
    assert(lowered(name) =~= name) by {
        assert forall|i: int| 0 <= i < name.len() implies lower(#[trigger] name[i]) == name[i] by {
            assert(name[i] == lower(without_root(input)[i]));
        }
    }
    assert(is_ascii_chars(name)) by {
        assert forall|i: int| 0 <= i < name.len() implies '\0' <= #[trigger] name[i] <= '\u{7f}' by {
            assert(label_char(name[i]) || name[i] == '.');
        }
    }
}

/// A domain is within itself, and what is within a subdomain is within the domain.
pub proof fn subdomains_nest(a: Seq<char>, b: Seq<char>, c: Seq<char>)
    ensures
        within(a, a),
        within(a, b) && within(b, c) ==> within(a, c),
{
    if within(a, b) && within(b, c) && a != b && b != c {
        let (n, m, k) = (a.len() as int, b.len() as int, c.len() as int);
        assert(b.subrange(m - k, m) =~= a.subrange(n - m, n).subrange(m - k, m));
        assert(a.subrange(n - m, n).subrange(m - k, m) =~= a.subrange(n - k, n));
        assert(a.subrange(n - m, n)[m - k - 1] == a[n - k - 1]);
    }
}

/// A name is within another exactly if it is that name, or something, a dot, and that name.
pub proof fn subdomains_end_with_their_parent(name: Seq<char>, parent: Seq<char>)
    ensures
        within(name, parent) <==> name == parent || exists|front: Seq<char>|
            name == #[trigger] (front + seq!['.']) + parent,
{
    let n = name.len() as int;
    let m = parent.len() as int;
    if within(name, parent) && name != parent {
        let front = name.subrange(0, n - m - 1);
        assert(name =~= (front + seq!['.']) + parent);
    }
    if exists|front: Seq<char>| name == #[trigger] (front + seq!['.']) + parent {
        let front = choose|front: Seq<char>| name == #[trigger] (front + seq!['.']) + parent;
        assert(name.subrange(n - m, n) =~= parent);
        assert(name[n - m - 1] == '.');
    }
}

/// A canonical name is the text that it was read from, but for a dot at its end and for capital
/// letters, which are made small. It is made of small letters, digits, hyphens and dots, at most 253
/// of them; it neither starts nor ends with a dot or a hyphen, no dot has a dot or a hyphen beside
/// it, and in any 64 characters in a row there is a dot.
pub proof fn names_are_small_letters_in_labels(input: Seq<char>, i: int)
    requires
        canonical_name(input) is Some,
        0 <= i < canonical_name(input)->Some_0.len(),
    ensures
        ({
            let name = canonical_name(input)->Some_0;
            let c = name[i];
            let u = c as u32;
            let was = input[i] as u32;
            &&& 1 <= name.len() <= 253
            &&& input.len() == name.len() || (input.len() == name.len() + 1 && input.last() == '.')
            &&& (0x61 <= u <= 0x7a) || (0x30 <= u <= 0x39) || u == 0x2d || u == 0x2e
            &&& c == input[i] || (0x41 <= was <= 0x5a && u == was + 0x20)
            &&& i == 0 || i == name.len() - 1 ==> u != 0x2d && u != 0x2e
            &&& u == 0x2e && i > 0 ==> name[i - 1] as u32 != 0x2d && name[i - 1] as u32 != 0x2e
            &&& u == 0x2e && i + 1 < name.len() ==> name[i + 1] as u32 != 0x2d && name[i + 1] as u32
                != 0x2e
            &&& i + 64 <= name.len() ==> exists|j: int|
                i <= j < i + 64 && #[trigger] name[j] as u32 == 0x2e
        }),
{
    let name = canonical_name(input)->Some_0;
    lemma_without_root(input);
    assert(name[i] == lower(without_root(input)[i]));
    assert(without_root(input)[i] == input[i]);
    assert(label_char(name[i]) || name[i] == '.');
    if i + 1 < name.len() {
        assert(label_char(name[i + 1]) || name[i + 1] == '.');
    }
    if i + 64 <= name.len() {
        assert(dot_within(name, i));
        let j = choose|j: int| i <= j < i + 64 && j < name.len() && #[trigger] name[j] == '.';
        assert(name[j] as u32 == 0x2e);
    }
    lemma_small(input[i]);
}

proof fn lemma_small(c: char)
    ensures
        ({
            let u = lower(c) as u32;
            let was = c as u32;
            if 0x41 <= was <= 0x5a {
                u == was + 0x20
            } else {
                lower(c) == c
            }
        }),
{
}

/// Names are read without regard to case: texts that differ only in the case of ASCII letters stand
/// for the same name, or none does.
pub proof fn names_ignore_case(a: Seq<char>, b: Seq<char>)
    requires
        a.len() == b.len(),
        forall|i: int|
            0 <= i < a.len() ==> (#[trigger] a[i]) == b[i] || (0x41 <= a[i] as u32 <= 0x5a && b[i] as u32
                == a[i] as u32 + 0x20) || (0x41 <= b[i] as u32 <= 0x5a && a[i] as u32 == b[i] as u32
                + 0x20),
    ensures
        canonical_name(a) == canonical_name(b),
{
    lemma_without_root(a);
    lemma_without_root(b);
    if a.len() > 0 {
        assert(a[a.len() - 1] == a.last());
        assert((a.last() == '.') == (b.last() == '.'));
    }
    let (x, y) = (without_root(a), without_root(b));
    assert(lowered(x) =~= lowered(y)) by {
        assert forall|i: int| 0 <= i < x.len() implies lower(x[i]) == lower(#[trigger] y[i]) by {
            assert(x[i] == a[i] && y[i] == b[i]);
            lemma_small(a[i]);
            lemma_small(b[i]);
            lemma_same_char(lower(a[i]), lower(b[i]));
        }
    }
    assert(is_ascii_chars(a) == is_ascii_chars(b)) by {
        assert forall|i: int| 0 <= i < a.len() implies (a[i] as u32 <= 0x7f) == (
        #[trigger] b[i] as u32 <= 0x7f) by {
            assert(a[i] == b[i] || a[i] != b[i]);
        }
        lemma_ascii(a);
        lemma_ascii(b);
    }
}

proof fn lemma_ascii(text: Seq<char>)
    ensures
        is_ascii_chars(text) <==> forall|i: int|
            0 <= i < text.len() ==> #[trigger] text[i] as u32 <= 0x7f,
{
    if is_ascii_chars(text) {
        assert forall|i: int| 0 <= i < text.len() implies #[trigger] text[i] as u32 <= 0x7f by {
            assert('\0' <= text[i] <= '\u{7f}');
        }
    }
    if forall|i: int| 0 <= i < text.len() ==> #[trigger] text[i] as u32 <= 0x7f {
        assert forall|i: int| 0 <= i < text.len() implies '\0' <= #[trigger] text[i] <= '\u{7f}' by {
            lemma_ascii_char(text[i]);
        }
    }
}

proof fn lemma_ascii_char(c: char)
    ensures
        c as u32 <= 0x7f ==> '\0' <= c <= '\u{7f}',
{
}

proof fn lemma_same_char(a: char, b: char)
    ensures
        a as u32 == b as u32 ==> a == b,
{
}

/// A domain has an identity of its own in each deployment and under each mapping: what is digested
/// determines the deployment, the version of the mapping and the name.
pub proof fn synthetic_identities_are_bound(
    a: [u8; 32],
    v: u16,
    x: Seq<char>,
    b: [u8; 32],
    w: u16,
    y: Seq<char>,
)
    requires
        synthetic_bytes(a@, v, x) == synthetic_bytes(b@, w, y),
    ensures
        a == b && v == w && x == y,
{
    lemma_spans();
    let tag = utf8("cs-mail/legacy-domain-identity/v1"@);
    let (p, q) = (be_bytes(v as nat, 2) + utf8(x), be_bytes(w as nat, 2) + utf8(y));
    assert(synthetic_bytes(a@, v, x) =~= tag + (a@ + p));
    assert(synthetic_bytes(b@, w, y) =~= tag + (b@ + q));
    lemma_split(tag, a@ + p, tag, b@ + q);
    lemma_32_delimits(a, p, b, q);
    lemma_be_delimits(v as nat, utf8(x), w as nat, utf8(y), 2);
    lemma_utf8_injective(x, y);
}

} // verus!
