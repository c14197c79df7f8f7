//! Conserved journal transfers for request obligations and restricted member funds.
//!
//! Clearing accounts represent the other side of an external or inter-ledger movement and may be
//! negative. Every other account is nonnegative. There are no spendable sender or recipient
//! accounts.

use crate::maps::add_pair;
use crate::primitives::amounts::{Money, SettlementUnit};
use crate::primitives::ids::{AllocationId, PaymentOperationId};
use std::collections::BTreeSet;
use vstd::prelude::*;

verus! {

#[derive(Clone, Copy, Debug, PartialEq, Eq, PartialOrd, Ord, Hash, Structural)]
pub enum Account {
    ProcessorClearing,
    ProgramClearing(PaymentOperationId),
    RequestEscrow(PaymentOperationId),
    RefundPayable(PaymentOperationId),
    ProcessingRevenue,
    PendingForfeiture(PaymentOperationId),
    CorporatePoolRevenue,
    RestrictedMemberFunds,
    MemberPayable(AllocationId),
    CorporateLossClearing,
    UtilityServiceReceipts(PaymentOperationId),
}

impl Account {
    /// The place of an account among all accounts: its sort, then its subject.
    pub open spec fn place(self) -> (u8, u128) {
        match self {
            Account::ProcessorClearing => (0, 0),
            Account::ProgramClearing(id) => (1, id.0),
            Account::RequestEscrow(id) => (2, id.0),
            Account::RefundPayable(id) => (3, id.0),
            Account::ProcessingRevenue => (4, 0),
            Account::PendingForfeiture(id) => (5, id.0),
            Account::CorporatePoolRevenue => (6, 0),
            Account::RestrictedMemberFunds => (7, 0),
            Account::MemberPayable(id) => (8, id.0),
            Account::CorporateLossClearing => (9, 0),
            Account::UtilityServiceReceipts(id) => (10, id.0),
        }
    }

    /// Clearing accounts may be negative.
    pub open spec fn clearing(self) -> bool {
        self is ProcessorClearing || self is ProgramClearing || self is CorporateLossClearing
    }

    fn key(self) -> (key: (u8, u128))
        ensures
            key == self.place(),
    {
        match self {
            Account::ProcessorClearing => (0, 0),
            Account::ProgramClearing(id) => (1, id.0),
            Account::RequestEscrow(id) => (2, id.0),
            Account::RefundPayable(id) => (3, id.0),
            Account::ProcessingRevenue => (4, 0),
            Account::PendingForfeiture(id) => (5, id.0),
            Account::CorporatePoolRevenue => (6, 0),
            Account::RestrictedMemberFunds => (7, 0),
            Account::MemberPayable(id) => (8, id.0),
            Account::CorporateLossClearing => (9, 0),
            Account::UtilityServiceReceipts(id) => (10, id.0),
        }
    }

    fn permits_negative(self) -> (permitted: bool)
        ensures
            permitted == self.clearing(),
    {
        matches!(
            self,
            Account::ProcessorClearing | Account::ProgramClearing(_) | Account::CorporateLossClearing
        )
    }
}

/// Whether one account comes before another.
pub open spec fn before(a: Account, b: Account) -> bool {
    a.place().0 < b.place().0 || (a.place().0 == b.place().0 && a.place().1 < b.place().1)
}

#[derive(Clone, Copy, Debug, PartialEq, Eq, Hash, Structural)]
pub struct Transfer {
    pub from: Account,
    pub to: Account,
    pub amount: Money,
}

impl Transfer {
    pub fn new(from: Account, to: Account, amount: Money) -> (transfer: Self)
        ensures
            transfer == (Transfer { from, to, amount }),
    {
        Transfer { from, to, amount }
    }
}

/// Transfers that are posted together.
#[derive(Clone, Debug, PartialEq, Eq)]
pub struct LedgerBatch {
    pub transfers: Vec<Transfer>,
}

impl Default for LedgerBatch {
    fn default() -> (batch: Self)
        ensures
            batch.transfers@ == Seq::<Transfer>::empty(),
    {
        LedgerBatch { transfers: Vec::new() }
    }
}

/// Transfers with one more at the end, unless its amount is zero.
pub open spec fn with_transfer(ts: Seq<Transfer>, from: Account, to: Account, amount: Money) -> Seq<
    Transfer,
> {
    if amount.0 == 0 {
        ts
    } else {
        ts.push(Transfer { from, to, amount })
    }
}

/// No transfer is from an account to itself.
pub open spec fn balanced(ts: Seq<Transfer>) -> bool {
    forall|i: int| 0 <= i < ts.len() ==> (#[trigger] ts[i]).from != ts[i].to
}

impl LedgerBatch {
    pub fn new() -> (batch: Self)
        ensures
            batch.transfers@ == Seq::<Transfer>::empty(),
    {
        LedgerBatch { transfers: Vec::new() }
    }

    /// Adds a transfer; one of nothing is left out.
    pub fn transfer(&mut self, from: Account, to: Account, amount: Money)
        ensures
            final(self).transfers@ == with_transfer(old(self).transfers@, from, to, amount),
    {
        if !amount.is_zero() {
            self.transfers.push(Transfer::new(from, to, amount));
        }
    }

    pub fn transfers(&self) -> (transfers: &[Transfer])
        ensures
            transfers@ == self.transfers@,
    {
        self.transfers.as_slice()
    }

    pub fn is_balanced(&self) -> (result: bool)
        ensures
            result == balanced(self.transfers@),
    {
        let mut i: usize = 0;
        while i < self.transfers.len()
            invariant
                0 <= i <= self.transfers@.len(),
                forall|j: int|
                    0 <= j < i ==> (#[trigger] self.transfers@[j]).from != self.transfers@[j].to,
            decreases self.transfers@.len() - i,
        {
            if self.transfers[i].from == self.transfers[i].to {
                assert(self.transfers@[i as int].from == self.transfers@[i as int].to);
                return false;
            }
            i += 1;
        }
        true
    }
}

#[derive(Clone, Copy, Debug, PartialEq, Eq, Structural)]
pub enum LedgerError {
    InsufficientFunds { account: Account, available: Money, required: Money },
    ArithmeticOverflow,
    InvalidBatch,
    VersionConflict,
}

/// Accounts with their signed balances.
pub type Balances = Seq<(Account, i128)>;

/// Whether a list of balances has an entry for an account.
pub open spec fn listed(s: Balances, a: Account) -> bool {
    exists|i: int| 0 <= i < s.len() && (#[trigger] s[i]).0 == a
}

/// The index is that of the first entry for an account.
pub open spec fn first_at(s: Balances, a: Account, i: int) -> bool {
    &&& 0 <= i < s.len()
    &&& s[i].0 == a
    &&& forall|j: int| 0 <= j < i ==> (#[trigger] s[j]).0 != a
}

/// The balance in the first entry for an account; zero without an entry.
pub open spec fn balance_in(s: Balances, a: Account) -> i128 {
    if exists|i: int| first_at(s, a, i) {
        s[choose|i: int| first_at(s, a, i)].1
    } else {
        0
    }
}

/// A balance as an obligation: nothing below zero, and no more than fits.
pub open spec fn obligation(s: Balances, a: Account) -> Money {
    let signed = balance_in(s, a);
    if signed < 0 {
        Money(0)
    } else if signed > u64::MAX {
        Money(u64::MAX)
    } else {
        Money(signed as u64)
    }
}

/// Entries in the order of their accounts, each account at most once.
pub open spec fn ordered(s: Balances) -> bool {
    forall|i: int, j: int| 0 <= i < j < s.len() ==> before((#[trigger] s[i]).0, (#[trigger] s[j]).0)
}

/// The balances by account.
pub open spec fn sheet(s: Balances) -> Map<Account, i128> {
    Map::new(|a: Account| listed(s, a), |a: Account| balance_in(s, a))
}

/// The sum of all balances.
pub open spec fn total(s: Balances) -> int
    decreases s.len(),
{
    if s.len() == 0 {
        0
    } else {
        total(s.drop_last()) + s.last().1
    }
}

/// What is wrong with one entry, given those before it.
pub open spec fn entry_fault(s: Balances, i: int) -> Option<LedgerError> {
    let (account, value) = s[i];
    if listed(s.take(i), account) || (!account.clearing() && value < 0) {
        Some(LedgerError::InvalidBatch)
    } else if value > u64::MAX || value < -(u64::MAX as int) {
        Some(LedgerError::ArithmeticOverflow)
    } else {
        None
    }
}

/// The first fault among the first `n` entries.
pub open spec fn first_fault(s: Balances, n: nat) -> Option<LedgerError>
    decreases n,
{
    if n == 0 {
        None
    } else {
        match first_fault(s, (n - 1) as nat) {
            Some(e) => Some(e),
            None => entry_fault(s, n - 1),
        }
    }
}

/// Every running sum fits in 128 bits.
pub open spec fn sums_fit(s: Balances) -> bool {
    forall|n: int| 0 <= n <= s.len() ==> i128::MIN <= #[trigger] total(s.take(n)) <= i128::MAX
}

/// Whether a list of balances is that of a conserved ledger, and if not, why.
pub open spec fn audit(s: Balances) -> Result<Money, LedgerError> {
    match first_fault(s, s.len()) {
        Some(e) => Err(e),
        None => if !sums_fit(s) {
            Err(LedgerError::ArithmeticOverflow)
        } else if total(s) != 0 {
            Err(LedgerError::InvalidBatch)
        } else {
            Ok(Money(0))
        },
    }
}

/// What an account holds; zero without an entry.
pub open spec fn held(m: Map<Account, i128>, a: Account) -> int {
    if m.contains_key(a) {
        m[a] as int
    } else {
        0
    }
}

/// One transfer: the balances after it, or why it is refused.
pub open spec fn post(m: Map<Account, i128>, t: Transfer) -> Result<
    Map<Account, i128>,
    LedgerError,
> {
    let available = held(m, t.from);
    let remaining = available - t.amount.0;
    let destination = held(m, t.to) + t.amount.0;
    if remaining < i128::MIN {
        Err(LedgerError::ArithmeticOverflow)
    } else if remaining < 0 && !t.from.clearing() {
        if 0 <= available <= u64::MAX {
            Err(
                LedgerError::InsufficientFunds {
                    account: t.from,
                    available: Money(available as u64),
                    required: t.amount,
                },
            )
        } else {
            Err(LedgerError::InvalidBatch)
        }
    } else if destination > i128::MAX || (!t.to.clearing() && destination > u64::MAX) || remaining
        < -(u64::MAX as int) {
        Err(LedgerError::ArithmeticOverflow)
    } else {
        Ok(m.insert(t.from, remaining as i128).insert(t.to, destination as i128))
    }
}

/// The first `n` transfers in turn, up to the first that is refused.
pub open spec fn post_all(m: Map<Account, i128>, ts: Seq<Transfer>, n: nat) -> Result<
    Map<Account, i128>,
    LedgerError,
>
    decreases n,
{
    if n == 0 {
        Ok(m)
    } else {
        match post_all(m, ts, (n - 1) as nat) {
            Ok(posted) => post(posted, ts[n - 1]),
            Err(e) => Err(e),
        }
    }
}

/// The ordered list of given balances.
pub open spec fn arranged(m: Map<Account, i128>) -> Balances {
    choose|s: Balances| ordered(s) && sheet(s) == m
}

/// The balances after a batch, or why it is refused.
pub open spec fn posted(s: Balances, revision: u64, ts: Seq<Transfer>) -> Result<
    Balances,
    LedgerError,
> {
    match audit(s) {
        Err(e) => Err(e),
        Ok(_) => if !balanced(ts) {
            Err(LedgerError::InvalidBatch)
        } else {
            match post_all(sheet(s), ts, ts.len()) {
                Err(e) => Err(e),
                Ok(m) => if revision == u64::MAX {
                    Err(LedgerError::ArithmeticOverflow)
                } else {
                    match audit(arranged(m)) {
                        Err(e) => Err(e),
                        Ok(_) => Ok(arranged(m)),
                    }
                },
            }
        },
    }
}

proof fn lemma_first(s: Balances, a: Account, i: int)
    requires
        first_at(s, a, i),
    ensures
        listed(s, a),
        balance_in(s, a) == s[i].1,
{
    let k = choose|k: int| first_at(s, a, k);
    assert(s[k].0 == a && s[i].0 == a);
}

proof fn lemma_none(s: Balances, a: Account)
    requires
        !listed(s, a),
    ensures
        balance_in(s, a) == 0,
{
}

proof fn lemma_ordered_first(s: Balances, i: int)
    requires
        ordered(s),
        0 <= i < s.len(),
    ensures
        first_at(s, s[i].0, i),
        sheet(s).contains_key(s[i].0),
        sheet(s)[s[i].0] == s[i].1,
{
    assert forall|j: int| 0 <= j < i implies (#[trigger] s[j]).0 != s[i].0 by {
        assert(before(s[j].0, s[i].0));
    }
    lemma_first(s, s[i].0, i);
}

proof fn lemma_place_injective(a: Account, b: Account)
    requires
        a.place() == b.place(),
    ensures
        a == b,
{
}

/// An ordered list is determined by its balances.
proof fn lemma_ordered_unique(s: Balances, t: Balances)
    requires
        ordered(s),
        ordered(t),
        sheet(s) == sheet(t),
    ensures
        s == t,
    decreases s.len(),
{
    if s.len() == 0 {
        if t.len() > 0 {
            lemma_ordered_first(t, 0);
            assert(sheet(s).contains_key(t[0].0));
        }
        assert(s =~= t);
    } else {
        let n = s.len() - 1;
        lemma_ordered_first(s, n);
        assert(listed(t, s[n].0));
        let j = choose|j: int| 0 <= j < t.len() && (#[trigger] t[j]).0 == s[n].0;
        let m = t.len() - 1;
        lemma_ordered_first(t, m);
        assert(listed(s, t[m].0));
        let i = choose|i: int| 0 <= i < s.len() && (#[trigger] s[i]).0 == t[m].0;
        if j < m {
            assert(before(t[j].0, t[m].0));
            if i < n {
                assert(before(s[i].0, s[n].0));
            }
        }
        assert(j == m);
        assert(s[n] == t[m]);
        let (sd, td) = (s.drop_last(), t.drop_last());
        assert forall|a: Account| #[trigger] sheet(sd).contains_key(a) implies sheet(td).contains_key(a)
            && sheet(sd)[a] == sheet(td)[a] by {
            let k = choose|k: int| 0 <= k < sd.len() && (#[trigger] sd[k]).0 == a;
            lemma_ordered_first(sd, k);
            lemma_ordered_first(s, k);
            assert(before(s[k].0, s[n].0));
            assert(sheet(t).contains_key(a));
            let l = choose|l: int| 0 <= l < t.len() && (#[trigger] t[l]).0 == a;
            lemma_ordered_first(t, l);
            assert(l < m);
            assert(td[l] == t[l]);
            lemma_ordered_first(td, l);
        }
        assert forall|a: Account| #[trigger] sheet(td).contains_key(a) implies sheet(sd).contains_key(a) by {
            let k = choose|k: int| 0 <= k < td.len() && (#[trigger] td[k]).0 == a;
            lemma_ordered_first(td, k);
            lemma_ordered_first(t, k);
            assert(before(t[k].0, t[m].0));
            assert(sheet(s).contains_key(a));
            let l = choose|l: int| 0 <= l < s.len() && (#[trigger] s[l]).0 == a;
            lemma_ordered_first(s, l);
            assert(l < n);
            assert(sd[l] == s[l]);
            lemma_ordered_first(sd, l);
        }
        assert(sheet(sd) =~= sheet(td));
        lemma_ordered_unique(sd, td);
        assert(s =~= sd.push(s[n]));
        assert(t =~= td.push(t[m]));
    }
}

fn earlier(a: (u8, u128), b: (u8, u128)) -> (earlier: bool)
    ensures
        earlier == (a.0 < b.0 || (a.0 == b.0 && a.1 < b.1)),
{
    a.0 < b.0 || (a.0 == b.0 && a.1 < b.1)
}

proof fn lemma_update(s: Balances, t: Balances, i: int, account: Account, value: i128)
    requires
        ordered(s),
        0 <= i < s.len(),
        s[i].0 == account,
        t == s.update(i, (account, value)),
    ensures
        ordered(t),
        sheet(t) == sheet(s).insert(account, value),
{
    assert forall|j: int, k: int| 0 <= j < k < t.len() implies before(
        (#[trigger] t[j]).0,
        (#[trigger] t[k]).0,
    ) by {
        assert(before(s[j].0, s[k].0));
    }
    assert forall|a: Account| #[trigger] sheet(t).contains_key(a) implies sheet(s).insert(
        account,
        value,
    ).contains_key(a) && sheet(t)[a] == sheet(s).insert(account, value)[a] by {
        let k = choose|k: int| 0 <= k < t.len() && (#[trigger] t[k]).0 == a;
        lemma_ordered_first(t, k);
        lemma_ordered_first(s, k);
        lemma_ordered_first(t, i);
    }
    assert forall|a: Account| #[trigger] sheet(s).insert(account, value).contains_key(a) implies sheet(
        t,
    ).contains_key(a) by {
        if a == account {
            lemma_ordered_first(t, i);
        } else {
            let k = choose|k: int| 0 <= k < s.len() && (#[trigger] s[k]).0 == a;
            assert(t[k].0 == a);
            lemma_ordered_first(t, k);
        }
    }
    assert(sheet(t) =~= sheet(s).insert(account, value));
}

proof fn lemma_insert(s: Balances, t: Balances, i: int, account: Account, value: i128)
    requires
        ordered(s),
        0 <= i <= s.len(),
        forall|j: int| 0 <= j < i ==> before((#[trigger] s[j]).0, account),
        forall|j: int| i <= j < s.len() ==> before(account, (#[trigger] s[j]).0),
        t == s.insert(i, (account, value)),
    ensures
        ordered(t),
        sheet(t) == sheet(s).insert(account, value),
{
    assert forall|j: int, k: int| 0 <= j < k < t.len() implies before(
        (#[trigger] t[j]).0,
        (#[trigger] t[k]).0,
    ) by {
        let (sj, sk) = (if j < i { j } else { j - 1 }, if k < i { k } else { k - 1 });
        if j != i && k != i {
            assert(before(s[sj].0, s[sk].0));
        }
    }
    assert forall|a: Account| #[trigger] sheet(t).contains_key(a) implies sheet(s).insert(
        account,
        value,
    ).contains_key(a) && sheet(t)[a] == sheet(s).insert(account, value)[a] by {
        let k = choose|k: int| 0 <= k < t.len() && (#[trigger] t[k]).0 == a;
        lemma_ordered_first(t, k);
        if k != i {
            let sk = if k < i { k } else { k - 1 };
            assert(t[k] == s[sk]);
            lemma_ordered_first(s, sk);
        }
    }
    assert forall|a: Account| #[trigger] sheet(s).insert(account, value).contains_key(a) implies sheet(
        t,
    ).contains_key(a) by {
        if a == account {
            lemma_ordered_first(t, i);
        } else {
            let k = choose|k: int| 0 <= k < s.len() && (#[trigger] s[k]).0 == a;
            let tk = if k < i { k } else { k + 1 };
            assert(t[tk] == s[k]);
            lemma_ordered_first(t, tk);
        }
    }
    assert(sheet(t) =~= sheet(s).insert(account, value));
}

/// Puts a balance in its place, over an earlier one of the account.
fn put(balances: &mut Vec<(Account, i128)>, account: Account, value: i128)
    requires
        ordered(old(balances)@),
    ensures
        ordered(final(balances)@),
        sheet(final(balances)@) == sheet(old(balances)@).insert(account, value),
{
    let ghost s = balances@;
    let mut i: usize = 0;
    while i < balances.len()
        invariant
            balances@ == s,
            s == old(balances)@,
            ordered(s),
            0 <= i <= s.len(),
            forall|j: int| 0 <= j < i ==> before((#[trigger] s[j]).0, account),
        decreases s.len() - i,
    {
        let here = balances[i].0;
        if !earlier(here.key(), account.key()) {
            if earlier(account.key(), here.key()) {
                balances.insert(i, (account, value));
                proof {
                    assert forall|j: int| i <= j < s.len() implies before(
                        account,
                        (#[trigger] s[j]).0,
                    ) by {
                        if j > i {
                            assert(before(s[i as int].0, s[j].0));
                        }
                    }
                    lemma_insert(s, balances@, i as int, account, value);
                }
            } else {
                proof {
                    lemma_place_injective(here, account);
                }
                balances[i] = (account, value);
                proof {
                    lemma_update(s, balances@, i as int, account, value);
                }
            }
            return ;
        }
        i += 1;
    }
    balances.push((account, value));
    proof {
        assert(balances@ =~= s.insert(i as int, (account, value)));
        lemma_insert(s, balances@, i as int, account, value);
    }
}

/// What a list of entries leaves in a map when they are put in one after another.
pub open spec fn gathered(s: Balances, n: nat) -> Map<Account, i128>
    decreases n,
{
    if n == 0 {
        Map::empty()
    } else {
        gathered(s, (n - 1) as nat).insert(s[n - 1].0, s[n - 1].1)
    }
}

/// Arranges entries in order; of several entries for one account the last stays.
fn arrange(entries: &Vec<(Account, i128)>) -> (balances: Vec<(Account, i128)>)
    ensures
        ordered(balances@),
        sheet(balances@) == gathered(entries@, entries@.len()),
{
    let mut balances: Vec<(Account, i128)> = Vec::new();
    let mut i: usize = 0;
    assert(sheet(balances@) =~= Map::empty());
    while i < entries.len()
        invariant
            0 <= i <= entries@.len(),
            ordered(balances@),
            sheet(balances@) == gathered(entries@, i as nat),
        decreases entries@.len() - i,
    {
        let (account, value) = entries[i];
        put(&mut balances, account, value);
        i += 1;
    }
    balances
}

/// Entries of distinct accounts leave exactly their own balances.
proof fn lemma_gathered_distinct(s: Balances, n: nat)
    requires
        n <= s.len(),
        forall|i: int, j: int|
            0 <= i < j < n ==> (#[trigger] s[i]).0 != (#[trigger] s[j]).0,
    ensures
        gathered(s, n) == sheet(s.take(n as int)),
    decreases n,
{
    if n == 0 {
        assert(gathered(s, n) =~= sheet(s.take(0)));
    } else {
        let (p, q) = (s.take(n - 1), s.take(n as int));
        lemma_gathered_distinct(s, (n - 1) as nat);
        assert forall|a: Account| #[trigger] sheet(q).contains_key(a) implies gathered(
            s,
            n,
        ).contains_key(a) && gathered(s, n)[a] == sheet(q)[a] by {
            let k = choose|k: int| 0 <= k < q.len() && (#[trigger] q[k]).0 == a;
            assert(first_at(q, a, k));
            lemma_first(q, a, k);
            if k < n - 1 {
                assert(p[k] == q[k]);
                assert(first_at(p, a, k));
                lemma_first(p, a, k);
                assert(s[k].0 != s[n - 1].0);
            }
        }
        assert forall|a: Account| #[trigger] gathered(s, n).contains_key(a) implies sheet(
            q,
        ).contains_key(a) by {
            if a == s[n - 1].0 {
                assert(q[n - 1].0 == a);
            } else {
                let k = choose|k: int| 0 <= k < p.len() && (#[trigger] p[k]).0 == a;
                assert(q[k].0 == a);
            }
        }
        assert(gathered(s, n) =~= sheet(q));
    }
}

proof fn lemma_no_fault(s: Balances, n: nat)
    requires
        n <= s.len(),
        first_fault(s, n) is None,
    ensures
        forall|i: int| 0 <= i < n ==> (#[trigger] entry_fault(s, i)) is None,
        forall|i: int, j: int|
            0 <= i < j < n ==> (#[trigger] s[i]).0 != (#[trigger] s[j]).0,
    decreases n,
{
    if n > 0 {
        lemma_no_fault(s, (n - 1) as nat);
        assert(entry_fault(s, n - 1) is None);
        assert forall|i: int, j: int| 0 <= i < j < n implies (#[trigger] s[i]).0 != (
        #[trigger] s[j]).0 by {
            if j == n - 1 {
                assert(!listed(s.take(j), s[j].0));
                assert(s.take(j)[i] == s[i]);
            }
        }
    }
}

proof fn lemma_fault_sticks(s: Balances, i: nat, n: nat)
    requires
        i <= n,
        first_fault(s, i) is Some,
    ensures
        first_fault(s, n) == first_fault(s, i),
    decreases n,
{
    if i < n {
        lemma_fault_sticks(s, i, (n - 1) as nat);
    }
}

/// The journal as it stands: a revision, a unit, and the balances.
#[derive(Debug, PartialEq, Eq)]
pub struct LedgerView {
    pub revision: u64,
    pub unit: SettlementUnit,
    pub balances: Vec<(Account, i128)>,
}

pub ghost struct LedgerModel {
    pub revision: u64,
    pub unit: SettlementUnit,
    pub balances: Balances,
}

impl View for LedgerView {
    type V = LedgerModel;

    open spec fn view(&self) -> LedgerModel {
        LedgerModel { revision: self.revision, unit: self.unit, balances: self.balances@ }
    }
}

impl LedgerModel {
    /// The journal after a batch, or why the batch is refused.
    pub open spec fn applied(self, ts: Seq<Transfer>) -> Result<LedgerModel, LedgerError> {
        match posted(self.balances, self.revision, ts) {
            Ok(balances) => Ok(
                LedgerModel { revision: (self.revision + 1) as u64, unit: self.unit, balances },
            ),
            Err(e) => Err(e),
        }
    }
}

impl LedgerView {
    /// Takes entries in any order; of several entries for one account the last counts.
    pub fn from_balances(
        revision: u64,
        unit: SettlementUnit,
        balances: Vec<(Account, i128)>,
    ) -> (view: Self)
        ensures
            view.revision == revision,
            view.unit == unit,
            ordered(view.balances@),
            sheet(view.balances@) == gathered(balances@, balances@.len()),
    {
        LedgerView { revision, unit, balances: arrange(&balances) }
    }

    pub fn balances(&self) -> (balances: &[(Account, i128)])
        ensures
            balances@ == self.balances@,
    {
        self.balances.as_slice()
    }

    pub fn signed_balance(&self, account: Account) -> (balance: i128)
        ensures
            balance == balance_in(self.balances@, account),
            listed(self.balances@, account) ==> balance == sheet(self.balances@)[account],
            !listed(self.balances@, account) ==> balance == 0,
    {
        let mut i: usize = 0;
        while i < self.balances.len()
            invariant
                0 <= i <= self.balances@.len(),
                forall|j: int| 0 <= j < i ==> (#[trigger] self.balances@[j]).0 != account,
            decreases self.balances@.len() - i,
        {
            if self.balances[i].0 == account {
                proof {
                    assert(first_at(self.balances@, account, i as int));
                    lemma_first(self.balances@, account, i as int);
                }
                return self.balances[i].1;
            }
            i += 1;
        }
        0
    }

    /// Nonnegative obligation balance. Use `signed_balance` for clearing accounts.
    pub fn balance(&self, account: Account) -> (balance: Money)
        ensures
            balance == obligation(self.balances@, account),
    {
        let signed: i128 = self.signed_balance(account);
        if signed < 0 {
            Money(0)
        } else if signed > 18446744073709551615 {
            Money(18446744073709551615)
        } else {
            Money(signed as u64)
        }
    }

    /// Applies a complete balanced batch to a copy, with no partial mutation. Invalid transfers,
    /// insufficient obligations, and arithmetic overflow are refused.
    pub fn apply(&self, batch: &LedgerBatch) -> (result: Result<Self, LedgerError>)
        ensures
            match posted(self.balances@, self.revision, batch.transfers@) {
                Ok(balances) => result matches Ok(next) && next.balances@ == balances
                    && next.revision == self.revision + 1 && next.unit == self.unit,
                Err(e) => result == Err::<Self, LedgerError>(e),
            },
            match self@.applied(batch.transfers@) {
                Ok(model) => result matches Ok(next) && next@ == model,
                Err(e) => result == Err::<Self, LedgerError>(e),
            },
            result matches Ok(next) ==> ordered(next.balances@) && audit(next.balances@) is Ok
                && post_all(sheet(self.balances@), batch.transfers@, batch.transfers@.len()) == Ok::<
                Map<Account, i128>,
                LedgerError,
            >(sheet(next.balances@)),
    {
        match self.total_value() {
            Ok(_) => {},
            Err(e) => return Err(e),
        }
        if !batch.is_balanced() {
            return Err(LedgerError::InvalidBatch);
        }
        let mut balances = arrange(&self.balances);
        let ghost s = self.balances@;
        let ghost ts = batch.transfers@;
        proof {
            lemma_no_fault(s, s.len());
            lemma_gathered_distinct(s, s.len());
            assert(s.take(s.len() as int) =~= s);
        }
        let mut i: usize = 0;
        while i < batch.transfers.len()
            invariant
                0 <= i <= ts.len(),
                s == self.balances@,
                ts == batch.transfers@,
                audit(s) is Ok,
                balanced(ts),
                ordered(balances@),
                post_all(sheet(s), ts, i as nat) == Ok::<Map<Account, i128>, LedgerError>(
                    sheet(balances@),
                ),
            decreases ts.len() - i,
        {
            let t = batch.transfers[i];
            let ghost m = sheet(balances@);
            let available: i128 = lookup(&balances, t.from);
            let remaining: i128 = match available.checked_sub(t.amount.0 as i128) {
                Some(r) => r,
                None => {
                    proof {
                        lemma_refused(sheet(s), ts, (i + 1) as nat, ts.len());
                    }
                    return Err(LedgerError::ArithmeticOverflow);
                },
            };
            if remaining < 0 && !t.from.permits_negative() {
                proof {
                    lemma_refused(sheet(s), ts, (i + 1) as nat, ts.len());
                }
                if available < 0 || available > 18446744073709551615 {
                    return Err(LedgerError::InvalidBatch);
                }
                return Err(
                    LedgerError::InsufficientFunds {
                        account: t.from,
                        available: Money(available as u64),
                        required: t.amount,
                    },
                );
            }
            let destination: i128 = match lookup(&balances, t.to).checked_add(t.amount.0 as i128) {
                Some(d) => d,
                None => {
                    proof {
                        lemma_refused(sheet(s), ts, (i + 1) as nat, ts.len());
                    }
                    return Err(LedgerError::ArithmeticOverflow);
                },
            };
            if (!t.to.permits_negative() && destination > 18446744073709551615) || remaining
                < -18446744073709551615 {
                proof {
                    lemma_refused(sheet(s), ts, (i + 1) as nat, ts.len());
                }
                return Err(LedgerError::ArithmeticOverflow);
            }
            put(&mut balances, t.from, remaining);
            put(&mut balances, t.to, destination);
            assert(post(m, t) == Ok::<Map<Account, i128>, LedgerError>(sheet(balances@)));
            i += 1;
        }
        if self.revision == u64::MAX {
            return Err(LedgerError::ArithmeticOverflow);
        }
        proof {
            let found = arranged(sheet(balances@));
            assert(ordered(found) && sheet(found) == sheet(balances@));
            lemma_ordered_unique(found, balances@);
        }
        let next = LedgerView { revision: self.revision + 1, unit: self.unit, balances };
        match next.total_value() {
            Ok(_) => Ok(next),
            Err(e) => Err(e),
        }
    }

    /// Checks that all signed journal balances sum to zero. A nonconserved or overflowing ledger
    /// is refused.
    pub fn total_value(&self) -> (result: Result<Money, LedgerError>)
        ensures
            result == audit(self.balances@),
    {
        let ghost s = self.balances@;
        let mut seen: BTreeSet<(u8, u128)> = BTreeSet::new();
        let mut i: usize = 0;
        while i < self.balances.len()
            invariant
                s == self.balances@,
                0 <= i <= s.len(),
                forall|k: (u8, u128)|
                    seen@.contains(k) <==> exists|j: int|
                        0 <= j < i && (#[trigger] s[j]).0.place() == k,
                first_fault(s, i as nat) is None,
            decreases s.len() - i,
        {
            let (account, value) = self.balances[i];
            let ghost known = seen@;
            let fresh = add_pair(&mut seen, account.key());
            proof {
                let prefix = s.take(i as int);
                assert(fresh == !listed(prefix, account)) by {
                    if listed(prefix, account) {
                        let j = choose|j: int|
                            0 <= j < prefix.len() && (#[trigger] prefix[j]).0 == account;
                        assert(s[j].0.place() == account.place());
                        assert(known.contains(account.place()));
                    }
                    if known.contains(account.place()) {
                        let j = choose|j: int|
                            0 <= j < i && (#[trigger] s[j]).0.place() == account.place();
                        lemma_place_injective(s[j].0, account);
                        assert(prefix[j].0 == account);
                    }
                }
                assert forall|k: (u8, u128)| seen@.contains(k) <==> exists|j: int|
                    0 <= j < i + 1 && (#[trigger] s[j]).0.place() == k by {
                    if known.contains(k) {
                        let j = choose|j: int| 0 <= j < i && (#[trigger] s[j]).0.place() == k;
                        assert(0 <= j < i + 1 && s[j].0.place() == k);
                    }
                    if k == account.place() {
                        assert(s[i as int].0.place() == k);
                    }
                }
            }
            if !fresh || (!account.permits_negative() && value < 0) {
                proof {
                    lemma_fault_sticks(s, (i + 1) as nat, s.len());
                }
                return Err(LedgerError::InvalidBatch);
            }
            if value > 18446744073709551615 || value < -18446744073709551615 {
                proof {
                    lemma_fault_sticks(s, (i + 1) as nat, s.len());
                }
                return Err(LedgerError::ArithmeticOverflow);
            }
            i += 1;
        }
        let mut sum: i128 = 0;
        let mut k: usize = 0;
        while k < self.balances.len()
            invariant
                s == self.balances@,
                0 <= k <= s.len(),
                first_fault(s, s.len()) is None,
                sum as int == total(s.take(k as int)),
                forall|n: int|
                    0 <= n <= k ==> i128::MIN <= #[trigger] total(s.take(n)) <= i128::MAX,
            decreases s.len() - k,
        {
            proof {
                assert(s.take(k + 1).drop_last() =~= s.take(k as int));
                assert(total(s.take(k + 1)) == sum + s[k as int].1);
            }
            match sum.checked_add(self.balances[k].1) {
                Some(next) => {
                    sum = next;
                },
                None => {
                    return Err(LedgerError::ArithmeticOverflow);
                },
            }
            k += 1;
        }
        assert(s.take(k as int) =~= s);
        if sum != 0 {
            return Err(LedgerError::InvalidBatch);
        }
        Ok(Money(0))
    }
}

proof fn lemma_refused(m: Map<Account, i128>, ts: Seq<Transfer>, i: nat, n: nat)
    requires
        i <= n,
        post_all(m, ts, i) is Err,
    ensures
        post_all(m, ts, n) == post_all(m, ts, i),
    decreases n,
{
    if i < n {
        lemma_refused(m, ts, i, (n - 1) as nat);
    }
}

fn lookup(balances: &Vec<(Account, i128)>, account: Account) -> (balance: i128)
    requires
        ordered(balances@),
    ensures
        balance as int == held(sheet(balances@), account),
{
    let mut i: usize = 0;
    while i < balances.len()
        invariant
            ordered(balances@),
            0 <= i <= balances@.len(),
            forall|j: int| 0 <= j < i ==> (#[trigger] balances@[j]).0 != account,
        decreases balances@.len() - i,
    {
        if balances[i].0 == account {
            proof {
                lemma_ordered_first(balances@, i as int);
            }
            return balances[i].1;
        }
        i += 1;
    }
    assert(!listed(balances@, account));
    0
}

fn copied(balances: &Vec<(Account, i128)>) -> (copy: Vec<(Account, i128)>)
    ensures
        copy@ == balances@,
{
    let mut copy: Vec<(Account, i128)> = Vec::new();
    let mut i: usize = 0;
    while i < balances.len()
        invariant
            0 <= i <= balances@.len(),
            copy@ == balances@.take(i as int),
        decreases balances@.len() - i,
    {
        copy.push(balances[i]);
        assert(balances@.take(i + 1) =~= balances@.take(i as int).push(balances@[i as int]));
        i += 1;
    }
    assert(balances@.take(i as int) =~= balances@);
    copy
}

/// What the transfers bring to an account, less what they take from it.
pub open spec fn net(ts: Seq<Transfer>, n: nat, a: Account) -> int
    decreases n,
{
    if n == 0 {
        0
    } else {
        net(ts, (n - 1) as nat, a) + (if ts[n - 1].to == a {
            ts[n - 1].amount.0 as int
        } else {
            0
        }) - (if ts[n - 1].from == a {
            ts[n - 1].amount.0 as int
        } else {
            0
        })
    }
}

pub(crate) proof fn lemma_net_prefix(ts: Seq<Transfer>, us: Seq<Transfer>, n: nat, a: Account)
    requires
        n <= ts.len(),
        n <= us.len(),
        forall|i: int| 0 <= i < n ==> ts[i] == us[i],
    ensures
        net(ts, n, a) == net(us, n, a),
    decreases n,
{
    if n > 0 {
        lemma_net_prefix(ts, us, (n - 1) as nat, a);
    }
}

/// One transfer more brings its amount from one account to the other.
pub(crate) proof fn lemma_net_with(
    ts: Seq<Transfer>,
    from: Account,
    to: Account,
    amount: Money,
    a: Account,
)
    ensures
        ({
            let us = with_transfer(ts, from, to, amount);
            net(us, us.len(), a) == net(ts, ts.len(), a) + (if to == a {
                amount.0 as int
            } else {
                0
            }) - (if from == a {
                amount.0 as int
            } else {
                0
            })
        }),
{
    let us = with_transfer(ts, from, to, amount);
    if amount.0 != 0 {
        lemma_net_prefix(ts, us, ts.len(), a);
    }
}

/// A batch that is accepted changes each account by exactly what its transfers bring and take.
pub proof fn posting_moves_amounts(m: Map<Account, i128>, ts: Seq<Transfer>, n: nat, a: Account)
    requires
        n <= ts.len(),
        forall|i: int| 0 <= i < ts.len() ==> (#[trigger] ts[i]).from != ts[i].to,
        post_all(m, ts, n) is Ok,
    ensures
        held(post_all(m, ts, n)->Ok_0, a) == held(m, a) + net(ts, n, a),
    decreases n,
{
    if n > 0 {
        posting_moves_amounts(m, ts, (n - 1) as nat, a);
        assert(ts[n - 1].from != ts[n - 1].to);
    }
}

/// Some place in an ordered list is right for a balance.
proof fn lemma_placeable(s: Balances, account: Account, value: i128) -> (t: Balances)
    requires
        ordered(s),
    ensures
        ordered(t),
        sheet(t) == sheet(s).insert(account, value),
{
    let i = lemma_split_point(s, account, s.len());
    if i < s.len() && s[i].0 == account {
        let t = s.update(i, (account, value));
        lemma_update(s, t, i, account, value);
        t
    } else {
        let t = s.insert(i, (account, value));
        assert forall|j: int| i <= j < s.len() implies before(account, (#[trigger] s[j]).0) by {
            if s[i].0.place() == account.place() {
                lemma_place_injective(s[i].0, account);
            }
            if j > i {
                assert(before(s[i].0, s[j].0));
            }
        }
        lemma_insert(s, t, i, account, value);
        t
    }
}

proof fn lemma_split_point(s: Balances, account: Account, n: nat) -> (i: int)
    requires
        ordered(s),
        n <= s.len(),
    ensures
        0 <= i <= n,
        forall|j: int| 0 <= j < i ==> before((#[trigger] s[j]).0, account),
        i < n ==> !before(s[i].0, account),
    decreases n,
{
    if n == 0 {
        0
    } else {
        let i = lemma_split_point(s, account, (n - 1) as nat);
        if i == n - 1 && before(s[n - 1].0, account) {
            n as int
        } else {
            i
        }
    }
}

proof fn lemma_gathered_arranged(s: Balances, n: nat) -> (t: Balances)
    requires
        n <= s.len(),
    ensures
        ordered(t),
        sheet(t) == gathered(s, n),
    decreases n,
{
    if n == 0 {
        assert(sheet(Seq::empty()) =~= Map::empty());
        Seq::empty()
    } else {
        let t = lemma_gathered_arranged(s, (n - 1) as nat);
        lemma_placeable(t, s[n - 1].0, s[n - 1].1)
    }
}

proof fn lemma_posted_arranged(s: Balances, ts: Seq<Transfer>, n: nat) -> (t: Balances)
    requires
        n <= ts.len(),
        ordered(s),
        post_all(sheet(s), ts, n) is Ok,
    ensures
        ordered(t),
        sheet(t) == post_all(sheet(s), ts, n)->Ok_0,
    decreases n,
{
    if n == 0 {
        s
    } else {
        let t = lemma_posted_arranged(s, ts, (n - 1) as nat);
        let transfer = ts[n - 1];
        let m = sheet(t);
        let remaining = held(m, transfer.from) - transfer.amount.0;
        let destination = held(m, transfer.to) + transfer.amount.0;
        let u = lemma_placeable(t, transfer.from, remaining as i128);
        lemma_placeable(u, transfer.to, destination as i128)
    }
}

/// The balances after an accepted batch are those that its transfers give, in order.
pub proof fn posting_is_exact(s: Balances, revision: u64, ts: Seq<Transfer>)
    requires
        posted(s, revision, ts) is Ok,
    ensures
        ({
            let next = posted(s, revision, ts)->Ok_0;
            &&& ordered(next)
            &&& post_all(sheet(s), ts, ts.len()) == Ok::<Map<Account, i128>, LedgerError>(
                sheet(next),
            )
            &&& audit(next) is Ok
        }),
{
    lemma_no_fault(s, s.len());
    lemma_gathered_distinct(s, s.len());
    assert(s.take(s.len() as int) =~= s);
    let t = lemma_gathered_arranged(s, s.len());
    let u = lemma_posted_arranged(t, ts, ts.len());
    assert(ordered(u) && sheet(u) == post_all(sheet(s), ts, ts.len())->Ok_0);
}

/// What an account holds after an accepted batch: what it held, and what the batch brings it.
pub proof fn posting_changes_balances(s: Balances, revision: u64, ts: Seq<Transfer>, a: Account)
    requires
        posted(s, revision, ts) is Ok,
    ensures
        balance_in(posted(s, revision, ts)->Ok_0, a) == balance_in(s, a) + net(ts, ts.len(), a),
{
    posting_is_exact(s, revision, ts);
    posting_moves_amounts(sheet(s), ts, ts.len(), a);
    let next = posted(s, revision, ts)->Ok_0;
    if !listed(s, a) {
        lemma_none(s, a);
    }
    if !listed(next, a) {
        lemma_none(next, a);
    }
}

/// A conserved ledger stays conserved: the balances after an accepted batch sum to zero, and only
/// clearing accounts among them are negative.
pub proof fn posting_conserves(view: LedgerView, ts: Seq<Transfer>)
    requires
        posted(view.balances@, view.revision, ts) is Ok,
    ensures
        ({
            let s = posted(view.balances@, view.revision, ts)->Ok_0;
            &&& total(s) == 0
            &&& forall|i: int|
                0 <= i < s.len() ==> (#[trigger] s[i]).0.clearing() || 0 <= s[i].1 <= u64::MAX
        }),
{
    let s = posted(view.balances@, view.revision, ts)->Ok_0;
    lemma_no_fault(s, s.len());
    assert forall|i: int| 0 <= i < s.len() implies (#[trigger] s[i]).0.clearing() || 0 <= s[i].1
        <= u64::MAX by {
        assert(entry_fault(s, i) is None);
    }
}

/// A journal that is changed in place.
#[derive(Debug, PartialEq, Eq)]
pub struct LedgerState {
    pub view: LedgerView,
}

impl Clone for LedgerView {
    fn clone(&self) -> (copy: Self)
        ensures
            copy@ == self@,
    {
        LedgerView {
            revision: self.revision,
            unit: self.unit,
            balances: copied(&self.balances),
        }
    }
}

impl Clone for LedgerState {
    fn clone(&self) -> (copy: Self)
        ensures
            copy.view@ == self.view@,
    {
        LedgerState { view: self.view.clone() }
    }
}

impl LedgerState {
    pub fn from_view(view: LedgerView) -> (state: Self)
        ensures
            state.view == view,
    {
        LedgerState { view }
    }

    pub fn new(unit: SettlementUnit) -> (state: Self)
        ensures
            state.view.revision == 0,
            state.view.unit == unit,
            state.view.balances@ == Seq::<(Account, i128)>::empty(),
    {
        let balances: Vec<(Account, i128)> = Vec::new();
        LedgerState { view: LedgerView { revision: 0, unit, balances } }
    }

    pub fn view(&self) -> (view: LedgerView)
        ensures
            view.revision == self.view.revision,
            view.unit == self.view.unit,
            view.balances@ == self.view.balances@,
    {
        LedgerView {
            revision: self.view.revision,
            unit: self.view.unit,
            balances: copied(&self.view.balances),
        }
    }

    /// Applies a batch at an expected revision. Stale revisions and invalid batches are refused,
    /// and leave the journal as it was.
    pub fn apply(&mut self, expected_revision: u64, batch: &LedgerBatch) -> (result: Result<
        (),
        LedgerError,
    >)
        ensures
            old(self).view.revision != expected_revision ==> result == Err::<(), LedgerError>(
                LedgerError::VersionConflict,
            ),
            old(self).view.revision == expected_revision ==> match posted(
                old(self).view.balances@,
                expected_revision,
                batch.transfers@,
            ) {
                Ok(balances) => {
                    &&& result is Ok
                    &&& final(self).view.balances@ == balances
                    &&& final(self).view.revision == expected_revision + 1
                    &&& final(self).view.unit == old(self).view.unit
                },
                Err(e) => result == Err::<(), LedgerError>(e),
            },
            result is Err ==> *final(self) == *old(self),
    {
        if self.view.revision != expected_revision {
            return Err(LedgerError::VersionConflict);
        }
        match self.view.apply(batch) {
            Ok(next) => {
                self.view = next;
                Ok(())
            },
            Err(e) => Err(e),
        }
    }

    pub fn balance(&self, account: Account) -> (balance: Money)
        ensures
            balance == obligation(self.view.balances@, account),
    {
        self.view.balance(account)
    }

    /// Whether the journal is conserved.
    pub fn total_value(&self) -> (result: Result<Money, LedgerError>)
        ensures
            result == audit(self.view.balances@),
    {
        self.view.total_value()
    }
}

/// Whether an account may be overdrawn: the processor's, the program's for a capture, and that of
/// the company's losses, which stand for money outside the ledger.
pub open spec fn outside(a: Account) -> bool {
    match a {
        Account::ProcessorClearing => true,
        Account::ProgramClearing(_) => true,
        Account::CorporateLossClearing => true,
        _ => false,
    }
}

/// Nobody is overdrawn: after an accepted batch every account but those for money outside the
/// ledger holds no less than nothing, all balances together make nothing, and no account changes by
/// more or less than the batch brings it.
pub proof fn nobody_is_overdrawn(s: Balances, revision: u64, ts: Seq<Transfer>, a: Account)
    requires
        posted(s, revision, ts) is Ok,
    ensures
        ({
            let next = posted(s, revision, ts)->Ok_0;
            let held = balance_in(next, a);
            &&& total(next) == 0
            &&& held == balance_in(s, a) + net(ts, ts.len(), a)
            &&& !outside(a) ==> 0 <= held <= u64::MAX
            &&& -(u64::MAX as int) <= held <= u64::MAX
        }),
{
    posting_changes_balances(s, revision, ts, a);
    let next = posted(s, revision, ts)->Ok_0;
    lemma_no_fault(next, next.len());
    if exists|i: int| first_at(next, a, i) {
        let i = choose|i: int| first_at(next, a, i);
        assert(entry_fault(next, i) is None);
    }
}

/// A batch that would take more out of an account than it holds is refused, unless the account
/// stands for money outside the ledger; and so is one with a transfer from an account to itself.
pub proof fn overdrafts_are_refused(s: Balances, revision: u64, ts: Seq<Transfer>, a: Account, i: int)
    requires
        (!outside(a) && balance_in(s, a) + net(ts, ts.len(), a) < 0) || (0 <= i < ts.len()
            && ts[i].from == ts[i].to) || revision == u64::MAX,
    ensures
        posted(s, revision, ts) is Err,
{
    if posted(s, revision, ts) is Ok {
        nobody_is_overdrawn(s, revision, ts, a);
    }
}

/// A transfer of nothing is left out of a batch; any other is its last.
pub proof fn batches_hold_what_moves(ts: Seq<Transfer>, from: Account, to: Account, amount: Money)
    ensures
        ({
            let us = with_transfer(ts, from, to, amount);
            &&& amount.0 == 0 ==> us == ts
            &&& amount.0 > 0 ==> us.len() == ts.len() + 1 && us.last().from == from && us.last().to
                == to && us.last().amount == amount
            &&& forall|i: int| 0 <= i < ts.len() ==> #[trigger] us[i] == ts[i]
        }),
{
}

/// A single transfer of more than an account holds is refused for want of funds, and the refusal says
/// of which account, how much there is and how much was asked for; unless the account stands for
/// money outside the ledger.
pub proof fn refusals_say_what_is_missing(s: Balances, revision: u64, t: Transfer)
    requires
        audit(s) is Ok,
        t.from != t.to,
        !outside(t.from),
        balance_in(s, t.from) < t.amount.0,
    ensures
        0 <= balance_in(s, t.from) <= u64::MAX,
        posted(s, revision, seq![t]) == Err::<Balances, LedgerError>(
            LedgerError::InsufficientFunds {
                account: t.from,
                available: Money(balance_in(s, t.from) as u64),
                required: t.amount,
            },
        ),
{
    lemma_no_fault(s, s.len());
    let a = t.from;
    if exists|i: int| first_at(s, a, i) {
        let i = choose|i: int| first_at(s, a, i);
        assert(entry_fault(s, i) is None);
        lemma_first(s, a, i);
    } else {
        if listed(s, a) {
            let i = choose|i: int| 0 <= i < s.len() && (#[trigger] s[i]).0 == a;
            assert forall|j: int| 0 <= j < i implies (#[trigger] s[j]).0 != a by {}
            assert(first_at(s, a, i));
        }
    }
    assert(held(sheet(s), a) == balance_in(s, a));
    reveal_with_fuel(post_all, 2);
    assert(balanced(seq![t]));
}

/// Of several entries for one account the last counts.
pub proof fn the_last_entry_counts(s: Balances, n: nat, i: int)
    requires
        n <= s.len(),
        0 <= i < n,
        forall|j: int| i < j < n ==> (#[trigger] s[j]).0 != s[i].0,
    ensures
        gathered(s, n).contains_key(s[i].0),
        gathered(s, n)[s[i].0] == s[i].1,
    decreases n,
{
    if i < n - 1 {
        the_last_entry_counts(s, (n - 1) as nat, i);
        assert(s[n - 1].0 != s[i].0);
    }
}

/// An obligation is what an account holds, as far as it is no less than nothing and fits.
pub proof fn obligations_are_what_is_held(s: Balances, a: Account)
    ensures
        0 <= balance_in(s, a) <= u64::MAX ==> obligation(s, a).0 == balance_in(s, a),
        balance_in(s, a) < 0 ==> obligation(s, a).0 == 0,
        balance_in(s, a) > u64::MAX ==> obligation(s, a).0 == u64::MAX,
{
}

} // verus!
