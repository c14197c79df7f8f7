//! The deployment, operator, program, payment account and protocol version that financial
//! records belong to.

use crate::bytes::{
    be_bytes, lemma_32_delimits, lemma_be_delimits, lemma_spans, lemma_split, push_32, push_be,
    push_text, same_32, utf8,
};
use crate::primitives::ids::{ProgramRef, ProviderRef};
use crate::primitives::versions::ProtocolVersion;
use vstd::prelude::*;

verus! {

#[derive(Clone, Copy, Debug, PartialEq, Eq, Hash)]
pub struct FinancialScope {
    pub deployment_domain: [u8; 32],
    pub operator: ProviderRef,
    pub program: ProgramRef,
    pub payment_account: [u8; 32],
    pub protocol_version: ProtocolVersion,
}

impl FinancialScope {
    pub open spec fn canonical(self) -> Seq<u8> {
        utf8("cs-mail/financial-scope/v1"@) + self.deployment_domain@ + be_bytes(
            self.operator.0 as nat,
            16,
        ) + be_bytes(self.program.0 as nat, 16) + self.payment_account@ + be_bytes(
            self.protocol_version.0 as nat,
            2,
        )
    }

    pub fn new(
        deployment_domain: [u8; 32],
        operator: ProviderRef,
        program: ProgramRef,
        payment_account: [u8; 32],
        protocol_version: ProtocolVersion,
    ) -> (scope: Self)
        ensures
            scope == (FinancialScope {
                deployment_domain,
                operator,
                program,
                payment_account,
                protocol_version,
            }),
    {
        FinancialScope { deployment_domain, operator, program, payment_account, protocol_version }
    }

    pub fn canonical_bytes(self) -> (bytes: Vec<u8>)
        ensures
            bytes@ == self.canonical(),
    {
        let mut bytes: Vec<u8> = Vec::new();
        push_text(&mut bytes, "cs-mail/financial-scope/v1");
        push_32(&mut bytes, &self.deployment_domain);
        push_be(&mut bytes, self.operator.0, 16);
        push_be(&mut bytes, self.program.0, 16);
        push_32(&mut bytes, &self.payment_account);
        push_be(&mut bytes, self.protocol_version.0 as u128, 2);
        assert(bytes@ =~= self.canonical());
        bytes
    }

    /// Whether two scopes are the same.
    pub fn same(&self, other: &Self) -> (same: bool)
        ensures
            same == (*self == *other),
    {
        same_32(&self.deployment_domain, &other.deployment_domain) && self.operator
            == other.operator && self.program == other.program && same_32(
            &self.payment_account,
            &other.payment_account,
        ) && self.protocol_version == other.protocol_version
    }
}

/// A scope's canonical bytes delimit themselves and determine every part of the scope.
pub proof fn scopes_delimit_themselves(
    a: FinancialScope,
    x: Seq<u8>,
    b: FinancialScope,
    y: Seq<u8>,
)
    requires
        a.canonical() + x == b.canonical() + y,
    ensures
        a == b,
        x == y,
{
    let tag = utf8("cs-mail/financial-scope/v1"@);
    let (ao, bo) = (be_bytes(a.operator.0 as nat, 16), be_bytes(b.operator.0 as nat, 16));
    let (ap, bp) = (be_bytes(a.program.0 as nat, 16), be_bytes(b.program.0 as nat, 16));
    let (av, bv) = (
        be_bytes(a.protocol_version.0 as nat, 2),
        be_bytes(b.protocol_version.0 as nat, 2),
    );
    lemma_nest_scope(tag, a.deployment_domain@, ao, ap, a.payment_account@, av, x);
    lemma_nest_scope(tag, b.deployment_domain@, bo, bp, b.payment_account@, bv, y);
    let (a4, b4) = (av + x, bv + y);
    let (a3, b3) = (a.payment_account@ + a4, b.payment_account@ + b4);
    let (a2, b2) = (ap + a3, bp + b3);
    let (a1, b1) = (ao + a2, bo + b2);
    lemma_split(tag, a.deployment_domain@ + a1, tag, b.deployment_domain@ + b1);
    lemma_32_delimits(a.deployment_domain, a1, b.deployment_domain, b1);
    lemma_spans();
    lemma_be_delimits(a.operator.0 as nat, a2, b.operator.0 as nat, b2, 16);
    lemma_be_delimits(a.program.0 as nat, a3, b.program.0 as nat, b3, 16);
    lemma_32_delimits(a.payment_account, a4, b.payment_account, b4);
    lemma_be_delimits(a.protocol_version.0 as nat, x, b.protocol_version.0 as nat, y, 2);
}

proof fn lemma_nest_scope(
    a: Seq<u8>,
    b: Seq<u8>,
    c: Seq<u8>,
    d: Seq<u8>,
    e: Seq<u8>,
    f: Seq<u8>,
    x: Seq<u8>,
)
    ensures
        a + b + c + d + e + f + x == a + (b + (c + (d + (e + (f + x))))),
{
    assert(a + b + c + d + e + f + x =~= a + (b + (c + (d + (e + (f + x))))));
}

} // verus!
