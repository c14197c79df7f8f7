//! What identifiers are made of: each part of it can be told from what is digested.

use super::annual::allocation_bytes;
use super::payable::payout_bytes;
use super::program::correction_bytes;
use super::scope::{scopes_delimit_themselves, FinancialScope};
use crate::billing::contract::operation_bytes;
use crate::bytes::{be_bytes, lemma_be_delimits, lemma_spans, lemma_split, span, utf8};
use crate::primitives::amounts::SettlementUnit;
use crate::primitives::ids::{AllocationId, AnnualDistributionId, FinancialEventId, MemberId};
use vstd::prelude::*;

verus! {

/// A member's allocation in a year has an identifier of its own: what is digested determines the
/// scope, the unit, the year and the member.
pub proof fn allocations_are_bound(
    s: FinancialScope,
    u: SettlementUnit,
    d: AnnualDistributionId,
    m: MemberId,
    s2: FinancialScope,
    u2: SettlementUnit,
    d2: AnnualDistributionId,
    m2: MemberId,
)
    requires
        allocation_bytes(s, u, d, m) == allocation_bytes(s2, u2, d2, m2),
    ensures
        s == s2 && u == u2 && d == d2 && m == m2,
{
    lemma_spans();
    let tag = utf8("cs-mail/member-allocation/v2"@);
    let e = Seq::<u8>::empty();
    let (a1, b1) = (be_bytes(m.0 as nat, 16) + e, be_bytes(m2.0 as nat, 16) + e);
    let (a2, b2) = (be_bytes(d.0 as nat, 16) + a1, be_bytes(d2.0 as nat, 16) + b1);
    let (a3, b3) = (be_bytes(u.0 as nat, 4) + a2, be_bytes(u2.0 as nat, 4) + b2);
    assert(allocation_bytes(s, u, d, m) =~= tag + (s.canonical() + a3));
    assert(allocation_bytes(s2, u2, d2, m2) =~= tag + (s2.canonical() + b3));
    lemma_split(tag, s.canonical() + a3, tag, s2.canonical() + b3);
    scopes_delimit_themselves(s, a3, s2, b3);
    lemma_be_delimits(u.0 as nat, a2, u2.0 as nat, b2, 4);
    lemma_be_delimits(d.0 as nat, a1, d2.0 as nat, b1, 16);
    lemma_be_delimits(m.0 as nat, e, m2.0 as nat, e, 16);
}

/// A correction has an identifier of its own: what is digested determines the scope, the unit and
/// the event.
pub proof fn corrections_are_bound(
    s: FinancialScope,
    u: SettlementUnit,
    f: FinancialEventId,
    s2: FinancialScope,
    u2: SettlementUnit,
    f2: FinancialEventId,
)
    requires
        correction_bytes(s, u, f) == correction_bytes(s2, u2, f2),
    ensures
        s == s2 && u == u2 && f == f2,
{
    lemma_spans();
    let tag = utf8("cs-mail/member-correction/v2"@);
    let e = Seq::<u8>::empty();
    let (a1, b1) = (be_bytes(f.0 as nat, 16) + e, be_bytes(f2.0 as nat, 16) + e);
    let (a2, b2) = (be_bytes(u.0 as nat, 4) + a1, be_bytes(u2.0 as nat, 4) + b1);
    assert(correction_bytes(s, u, f) =~= tag + (s.canonical() + a2));
    assert(correction_bytes(s2, u2, f2) =~= tag + (s2.canonical() + b2));
    lemma_split(tag, s.canonical() + a2, tag, s2.canonical() + b2);
    scopes_delimit_themselves(s, a2, s2, b2);
    lemma_be_delimits(u.0 as nat, a1, u2.0 as nat, b1, 4);
    lemma_be_delimits(f.0 as nat, e, f2.0 as nat, e, 16);
}

/// Each attempt to pay an allocation out has an identifier of its own: what is digested determines
/// the scope, the allocation and the attempt.
pub proof fn payouts_are_bound(
    s: FinancialScope,
    a: AllocationId,
    n: nat,
    s2: FinancialScope,
    a2: AllocationId,
    n2: nat,
)
    requires
        n < span(16),
        n2 < span(16),
        payout_bytes(s, a, n) == payout_bytes(s2, a2, n2),
    ensures
        s == s2 && a == a2 && n == n2,
{
    lemma_spans();
    let tag = utf8("cs-mail/distribution-payment/v1"@);
    let e = Seq::<u8>::empty();
    let (x1, y1) = (be_bytes(n, 16) + e, be_bytes(n2, 16) + e);
    let (x2, y2) = (be_bytes(a.0 as nat, 16) + x1, be_bytes(a2.0 as nat, 16) + y1);
    assert(payout_bytes(s, a, n) =~= tag + (s.canonical() + x2));
    assert(payout_bytes(s2, a2, n2) =~= tag + (s2.canonical() + y2));
    lemma_split(tag, s.canonical() + x2, tag, s2.canonical() + y2);
    scopes_delimit_themselves(s, x2, s2, y2);
    lemma_be_delimits(a.0 as nat, x1, a2.0 as nat, y1, 16);
    lemma_be_delimits(n, e, n2, e, 16);
}

/// A billing operation has an identifier of its own: what is digested determines the scope, the
/// purpose, the owner and the cycle.
pub proof fn billing_operations_are_bound(
    s: FinancialScope,
    p: Seq<u8>,
    o: u128,
    c: u128,
    s2: FinancialScope,
    p2: Seq<u8>,
    o2: u128,
    c2: u128,
)
    requires
        p.len() <= u64::MAX,
        p2.len() <= u64::MAX,
        operation_bytes(s, p, o, c) == operation_bytes(s2, p2, o2, c2),
    ensures
        s == s2 && p == p2 && o == o2 && c == c2,
{
    lemma_spans();
    let tag = utf8("cs-mail/billing-operation/v2"@);
    let e = Seq::<u8>::empty();
    let (x1, y1) = (be_bytes(c as nat, 16) + e, be_bytes(c2 as nat, 16) + e);
    let (x2, y2) = (be_bytes(o as nat, 16) + x1, be_bytes(o2 as nat, 16) + y1);
    let (x3, y3) = (p + x2, p2 + y2);
    let (x4, y4) = (be_bytes(p.len(), 8) + x3, be_bytes(p2.len(), 8) + y3);
    assert(operation_bytes(s, p, o, c) =~= tag + (s.canonical() + x4));
    assert(operation_bytes(s2, p2, o2, c2) =~= tag + (s2.canonical() + y4));
    lemma_split(tag, s.canonical() + x4, tag, s2.canonical() + y4);
    scopes_delimit_themselves(s, x4, s2, y4);
    lemma_be_delimits(p.len(), x3, p2.len(), y3, 8);
    lemma_split(p, x2, p2, y2);
    lemma_be_delimits(o as nat, x1, o2 as nat, y1, 16);
    lemma_be_delimits(c as nat, e, c2 as nat, e, 16);
}

} // verus!
