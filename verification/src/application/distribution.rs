//! Distribution preparation resolves the beneficiary's bank association, independently of service.

use super::book::AccountBook;
use super::desk::{BillingDesk, DeskModel};
use super::errors::EngineError;
use crate::billing::account::{BillingAccount, BillingModel};
use crate::billing::offer::BillingError;
use crate::finance::bank::BankVerification;
use crate::finance::commands::{ProgramOutcome, SignedProgramCommand};
use crate::finance::distribution::AllocationModel;
use crate::finance::payments::PaymentOperation;
use crate::finance::program::{FinancialProgram, ProgramModel};
use crate::finance::terms::ProgramError;
use crate::maps::{keys_in_order, keys_of, lookup, put, sorted_keys, take};
use crate::primitives::amounts::{CanonicalTime, SettlementUnit};
use crate::primitives::ids::{AllocationId, MemberId};
use std::collections::BTreeMap;
use vstd::prelude::*;

verus! {

/// Why a distribution is not prepared.
#[derive(Clone, Copy, Debug, PartialEq, Eq, Structural)]
pub enum DistributionError {
    Billing(BillingError),
    Program(ProgramError),
}

/// The payment of an allocation to a member's bank, and the program with it prepared.
pub open spec fn prepared(
    account: BillingModel,
    bank: BankVerification,
    program: ProgramModel,
    allocation: AllocationId,
    at: CanonicalTime,
) -> Result<(ProgramModel, Option<PaymentOperation>), DistributionError> {
    if !program.records.payables.contains_key(allocation.0) {
        Err(DistributionError::Billing(BillingError::MissingRecord))
    } else if program.records.payables[allocation.0].member != account.bank.member || program.scope
        != account.bank.scope || program.unit != account.bank.unit {
        Err(DistributionError::Billing(BillingError::Conflict))
    } else {
        match program.payment_prepared(allocation, bank, at) {
            Err(e) => Err(DistributionError::Program(e)),
            Ok(done) => Ok(done),
        }
    }
}

/// Prepares the payment of an allocation to the bank of the account that it is for. Missing
/// allocations, wrong account associations and invalid payment transitions are refused.
pub fn prepare_distribution(
    account: &BillingAccount,
    program: &mut FinancialProgram,
    allocation: AllocationId,
    at: CanonicalTime,
) -> (result: Result<Option<PaymentOperation>, DistributionError>)
    requires
        old(program)@.records.sound(),
    ensures
        match prepared(account@, account.bank.proven(), old(program)@, allocation, at) {
            Ok((next, operation)) => result == Ok::<Option<PaymentOperation>, DistributionError>(
                operation,
            ) && final(program)@ == next && next.records.sound(),
            Err(e) => result == Err::<Option<PaymentOperation>, DistributionError>(e)
                && final(program)@ == old(program)@,
        },
{
    let payable = match lookup(&program.records().payables, allocation.0) {
        Some(payable) => payable,
        None => return Err(DistributionError::Billing(BillingError::MissingRecord)),
    };
    assert(program@.records.payables[allocation.0] == payable@);
    if payable.member() != account.member() || !program.scope().same(&account.scope())
        || program.unit() != account.unit() {
        return Err(DistributionError::Billing(BillingError::Conflict));
    }
    match program.prepare_member_payment(allocation, account.bank(), at) {
        Ok(operation) => Ok(operation),
        Err(e) => Err(DistributionError::Program(e)),
    }
}

/// A program with the commands that it has seen.
pub struct ProgramState {
    pub program: FinancialProgram,
    pub financial_commands: BTreeMap<u128, (SignedProgramCommand, ProgramOutcome)>,
}

/// What a program's command came to: an annual allocation, or nothing but its record.
pub open spec fn outcome_model(outcome: ProgramOutcome) -> Option<AllocationModel> {
    match outcome {
        ProgramOutcome::Recorded => None,
        ProgramOutcome::AnnualAllocation(allocation) => Some(allocation@),
    }
}

pub ghost struct ProgramStateModel {
    pub program: ProgramModel,
    pub financial_commands: Map<u128, (SignedProgramCommand, Option<AllocationModel>)>,
}

pub open spec fn financial_models(
    commands: Map<u128, (SignedProgramCommand, ProgramOutcome)>,
) -> Map<u128, (SignedProgramCommand, Option<AllocationModel>)> {
    commands.map_values(
        |entry: (SignedProgramCommand, ProgramOutcome)| (entry.0, outcome_model(entry.1)),
    )
}

impl View for ProgramState {
    type V = ProgramStateModel;

    open spec fn view(&self) -> ProgramStateModel {
        ProgramStateModel {
            program: self.program@,
            financial_commands: financial_models(self.financial_commands@),
        }
    }
}

pub open spec fn program_models(programs: Map<u128, ProgramState>) -> Map<u128, ProgramStateModel> {
    programs.map_values(|state: ProgramState| state@)
}

/// Every program's records can have come about.
pub open spec fn programs_sound(programs: Map<u128, ProgramStateModel>) -> bool {
    forall|unit: u128| #[trigger]
        programs.contains_key(unit) ==> programs[unit].program.records.sound()
}

/// The first of some billing accounts that is a member's.
pub open spec fn account_from(
    accounts: Map<u128, BillingAccount>,
    ids: Seq<u128>,
    member: MemberId,
    i: int,
) -> Option<u128>
    decreases ids.len() - i,
{
    if i >= ids.len() {
        None
    } else if accounts[ids[i]]@.bank.member == member {
        Some(ids[i])
    } else {
        account_from(accounts, ids, member, i + 1)
    }
}

/// The billing account of a member.
pub open spec fn account_of(accounts: Map<u128, BillingAccount>, member: MemberId) -> Option<u128> {
    account_from(accounts, sorted_keys(accounts), member, 0)
}

fn find_account(accounts: &BTreeMap<u128, BillingAccount>, member: MemberId) -> (found: Option<u128>)
    ensures
        found == account_of(accounts@, member),
        found matches Some(id) ==> accounts@.contains_key(id),
{
    let ids = keys_of(accounts);
    let mut i: usize = 0;
    while i < ids.len()
        invariant
            keys_in_order(ids@, accounts@),
            ids@ == sorted_keys(accounts@),
            0 <= i <= ids@.len(),
            account_of(accounts@, member) == account_from(accounts@, ids@, member, i as int),
        decreases ids@.len() - i,
    {
        assert(accounts@.contains_key(ids@[i as int]));
        match lookup(accounts, ids[i]) {
            Some(held) => {
                if held.member() == member {
                    return Some(ids[i]);
                }
            },
            None => {},
        }
        i += 1;
    }
    None
}

pub open spec fn distribution_refused(e: DistributionError) -> EngineError {
    match e {
        DistributionError::Billing(e) => EngineError::Billing(e),
        DistributionError::Program(e) => EngineError::Finance(e),
    }
}

/// The program of a unit and the payouts of a desk after a distribution was prepared, or why it is
/// not. A payout that is there has to be the same one.
pub open spec fn distributed(
    accounts: Map<u128, BillingAccount>,
    programs: Map<u128, ProgramStateModel>,
    payouts: Map<u128, PaymentOperation>,
    unit: SettlementUnit,
    allocation: AllocationId,
    at: CanonicalTime,
) -> Result<(Map<u128, ProgramStateModel>, Map<u128, PaymentOperation>), EngineError> {
    let key = unit.0 as u128;
    if !programs.contains_key(key) || !programs[key].program.records.payables.contains_key(
        allocation.0,
    ) {
        Err(EngineError::Billing(BillingError::MissingRecord))
    } else {
        let state = programs[key];
        match account_of(accounts, state.program.records.payables[allocation.0].member) {
            None => Err(EngineError::Billing(BillingError::MissingRecord)),
            Some(id) => match prepared(
                accounts[id]@,
                accounts[id].bank.proven(),
                state.program,
                allocation,
                at,
            ) {
                Err(e) => Err(distribution_refused(e)),
                Ok((next, operation)) => {
                    let after = if next.revision != state.program.revision {
                        programs.insert(key, ProgramStateModel { program: next, ..state })
                    } else {
                        programs
                    };
                    match operation {
                        None => Ok((after, payouts)),
                        Some(payment) => if payouts.contains_key(payment.id.0)
                            && payouts[payment.id.0] != payment {
                            Err(EngineError::DuplicateConflict)
                        } else {
                            Ok((after, payouts.insert(payment.id.0, payment)))
                        },
                    }
                },
            },
        }
    }
}

/// Prepares the payout of an allocation, program and payment work together, or refuses and changes
/// nothing.
pub fn distribute(
    book: &AccountBook,
    desk: &mut BillingDesk,
    programs: &mut BTreeMap<u128, ProgramState>,
    unit: SettlementUnit,
    allocation: AllocationId,
    at: CanonicalTime,
) -> (result: Result<(), EngineError>)
    requires
        programs_sound(program_models(old(programs)@)),
    ensures
        programs_sound(program_models(final(programs)@)),
        match distributed(
            book.billing_accounts@,
            program_models(old(programs)@),
            old(desk)@.payouts,
            unit,
            allocation,
            at,
        ) {
            Err(e) => result == Err::<(), EngineError>(e) && program_models(final(programs)@)
                == program_models(old(programs)@) && final(desk)@ == old(desk)@,
            Ok((next, payouts)) => result is Ok && program_models(final(programs)@) == next
                && final(desk)@ == (DeskModel { payouts, ..old(desk)@ }),
        },
{
    let ghost before = program_models(programs@);
    let key: u128 = unit.0 as u128;
    let state = match lookup(programs, key) {
        Some(state) => state,
        None => return Err(EngineError::Billing(BillingError::MissingRecord)),
    };
    assert(before.contains_key(key) && before[key] == state@);
    let member = match lookup(&state.program.records().payables, allocation.0) {
        Some(payable) => {
            assert(state@.program.records.payables[allocation.0] == payable@);
            payable.member()
        },
        None => return Err(EngineError::Billing(BillingError::MissingRecord)),
    };
    let account = match find_account(&book.billing_accounts, member) {
        Some(id) => match lookup(&book.billing_accounts, id) {
            Some(account) => account,
            None => return Err(EngineError::Billing(BillingError::MissingRecord)),
        },
        None => return Err(EngineError::Billing(BillingError::MissingRecord)),
    };
    let mut program = state.program.clone();
    let revision: u64 = program.revision();
    let operation = match prepare_distribution(account, &mut program, allocation, at) {
        Ok(operation) => operation,
        Err(e) => {
            return Err(
                match e {
                    DistributionError::Billing(e) => EngineError::Billing(e),
                    DistributionError::Program(e) => EngineError::Finance(e),
                },
            );
        },
    };
    match &operation {
        Some(payment) => match lookup(&desk.payouts, payment.id.0) {
            Some(held) => {
                if !held.same(payment) {
                    return Err(EngineError::DuplicateConflict);
                }
            },
            None => {},
        },
        None => {},
    }
    if program.revision() != revision {
        match take(programs, key) {
            Some(state) => {
                let ghost was = state@;
                let next = ProgramState { program, financial_commands: state.financial_commands };
                put(programs, key, next);
                assert(program_models(programs@) =~= before.insert(
                    key,
                    ProgramStateModel { program: program@, ..was },
                ));
            },
            None => {},
        }
    }
    match operation {
        Some(payment) => put(&mut desk.payouts, payment.id.0, payment),
        None => {},
    }
    Ok(())
}

} // verus!
