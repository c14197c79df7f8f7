//! Derived references: a derivation version and 32 bytes that are never printed.

use crate::bytes::{be_bytes, lemma_be_len, push_be, same_32};
use vstd::prelude::*;

verus! {

/// A reference to a relationship that only its two sides can derive.
#[derive(Clone, Copy, PartialEq, Eq, PartialOrd, Ord, Hash)]
pub struct RelationshipRef {
    pub derivation_version: u16,
    pub bytes: [u8; 32],
}

impl RelationshipRef {
    pub fn new(derivation_version: u16, bytes: [u8; 32]) -> (reference: Self)
        ensures
            reference == (RelationshipRef { derivation_version, bytes }),
    {
        RelationshipRef { derivation_version, bytes }
    }

    pub fn derivation_version(self) -> (version: u16)
        ensures
            version == self.derivation_version,
    {
        self.derivation_version
    }

    pub fn as_bytes(&self) -> (bytes: &[u8; 32])
        ensures
            *bytes == self.bytes,
    {
        &self.bytes
    }

    /// A reference that holds `value` in its last sixteen bytes, under derivation version zero.
    pub fn from_u128_for_test(value: u128) -> (reference: Self)
        ensures
            reference.derivation_version == 0,
            reference.bytes@ == be_bytes(0, 16) + be_bytes(value as nat, 16),
    {
        RelationshipRef { derivation_version: 0, bytes: low_half(value) }
    }

    /// Whether two references are the same.
    pub fn same(&self, other: &Self) -> (same: bool)
        ensures
            same == (*self == *other),
    {
        self.derivation_version == other.derivation_version && same_32(&self.bytes, &other.bytes)
    }
}

/// A reference to the request history of two parties.
#[derive(Clone, Copy, PartialEq, Eq, PartialOrd, Ord, Hash)]
pub struct RequestHistoryRef {
    pub derivation_version: u16,
    pub bytes: [u8; 32],
}

impl RequestHistoryRef {
    pub fn new(derivation_version: u16, bytes: [u8; 32]) -> (reference: Self)
        ensures
            reference == (RequestHistoryRef { derivation_version, bytes }),
    {
        RequestHistoryRef { derivation_version, bytes }
    }

    pub fn derivation_version(self) -> (version: u16)
        ensures
            version == self.derivation_version,
    {
        self.derivation_version
    }

    pub fn as_bytes(&self) -> (bytes: &[u8; 32])
        ensures
            *bytes == self.bytes,
    {
        &self.bytes
    }

    /// A reference that holds `value` in its last sixteen bytes, under derivation version zero.
    pub fn from_u128_for_test(value: u128) -> (reference: Self)
        ensures
            reference.derivation_version == 0,
            reference.bytes@ == be_bytes(0, 16) + be_bytes(value as nat, 16),
    {
        RequestHistoryRef { derivation_version: 0, bytes: low_half(value) }
    }

    /// Whether two references are the same.
    pub fn same(&self, other: &Self) -> (same: bool)
        ensures
            same == (*self == *other),
    {
        self.derivation_version == other.derivation_version && same_32(&self.bytes, &other.bytes)
    }
}

/// A reference to the scope that a content belongs to.
#[derive(Clone, Copy, PartialEq, Eq, PartialOrd, Ord, Hash)]
pub struct ContentScopeRef {
    pub derivation_version: u16,
    pub bytes: [u8; 32],
}

impl ContentScopeRef {
    pub fn new(derivation_version: u16, bytes: [u8; 32]) -> (reference: Self)
        ensures
            reference == (ContentScopeRef { derivation_version, bytes }),
    {
        ContentScopeRef { derivation_version, bytes }
    }

    pub fn derivation_version(self) -> (version: u16)
        ensures
            version == self.derivation_version,
    {
        self.derivation_version
    }

    pub fn as_bytes(&self) -> (bytes: &[u8; 32])
        ensures
            *bytes == self.bytes,
    {
        &self.bytes
    }

    /// A reference that holds `value` in its last sixteen bytes, under derivation version zero.
    pub fn from_u128_for_test(value: u128) -> (reference: Self)
        ensures
            reference.derivation_version == 0,
            reference.bytes@ == be_bytes(0, 16) + be_bytes(value as nat, 16),
    {
        ContentScopeRef { derivation_version: 0, bytes: low_half(value) }
    }

    /// Whether two references are the same.
    pub fn same(&self, other: &Self) -> (same: bool)
        ensures
            same == (*self == *other),
    {
        self.derivation_version == other.derivation_version && same_32(&self.bytes, &other.bytes)
    }
}

fn low_half(value: u128) -> (bytes: [u8; 32])
    ensures
        bytes@ == be_bytes(0, 16) + be_bytes(value as nat, 16),
{
    broadcast use lemma_be_len;

    let mut all: Vec<u8> = Vec::new();
    push_be(&mut all, 0, 16);
    push_be(&mut all, value, 16);
    let mut bytes = [0u8;32];
    let mut i: usize = 0;
    while i < 32
        invariant
            0 <= i <= 32,
            all@.len() == 32,
            forall|j: int| 0 <= j < i ==> bytes@[j] == all@[j],
        decreases 32 - i,
    {
        bytes[i] = all[i];
        i += 1;
    }
    assert(bytes@ =~= all@);
    assert(all@ =~= be_bytes(0, 16) + be_bytes(value as nat, 16));
    bytes
}

} // verus!
