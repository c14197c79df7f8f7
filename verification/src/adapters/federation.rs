//! Two-phase reservations between providers.

use crate::bytes::same_32;
use crate::maps::{lookup, put};
use crate::primitives::amounts::{CanonicalTime, Money, SettlementUnit};
use crate::primitives::ids::FederationTransactionRef;
use std::collections::BTreeMap;
use vstd::prelude::*;

verus! {

#[derive(Clone, Copy, Debug, PartialEq, Eq)]
pub struct FederationDigest(pub [u8; 32]);

#[derive(Clone, Copy, Debug, PartialEq, Eq)]
pub struct ReservationCommitment {
    pub transaction: FederationTransactionRef,
    pub sender_provider: [u8; 32],
    pub recipient_provider: [u8; 32],
    pub command_digest: FederationDigest,
    pub amount: Money,
    pub unit: SettlementUnit,
    pub expires_at: CanonicalTime,
}

impl ReservationCommitment {
    fn same(&self, other: &Self) -> (same: bool)
        ensures
            same == (*self == *other),
    {
        self.transaction == other.transaction && same_32(
            &self.sender_provider,
            &other.sender_provider,
        ) && same_32(&self.recipient_provider, &other.recipient_provider) && same_32(
            &self.command_digest.0,
            &other.command_digest.0,
        ) && self.amount == other.amount && self.unit == other.unit && self.expires_at
            == other.expires_at
    }
}

#[derive(Clone, Copy, Debug, PartialEq, Eq)]
pub enum FederationState {
    Prepared,
    Committed { manifest: FederationDigest },
    Aborted,
}

#[derive(Clone, Copy, Debug, PartialEq, Eq)]
pub struct FederationRecord {
    pub commitment: ReservationCommitment,
    pub state: FederationState,
}

#[derive(Clone, Copy, Debug, PartialEq, Eq, Structural)]
pub enum FederationError {
    DuplicateConflict,
    MissingPrepare,
    PrepareExpired,
    CommandMismatch,
    AlreadyFinal,
}

impl FederationError {
    pub open spec fn message(self) -> Seq<char> {
        match self {
            FederationError::DuplicateConflict => "federation transaction conflict"@,
            FederationError::MissingPrepare => "federation prepare is missing"@,
            FederationError::PrepareExpired => "federation prepare expired"@,
            FederationError::CommandMismatch => "commit does not match prepared command"@,
            FederationError::AlreadyFinal => "federation transaction is already final"@,
        }
    }

    /// The error in words.
    pub fn text(&self) -> (text: &'static str)
        ensures
            text@ == self.message(),
    {
        match self {
            FederationError::DuplicateConflict => "federation transaction conflict",
            FederationError::MissingPrepare => "federation prepare is missing",
            FederationError::PrepareExpired => "federation prepare expired",
            FederationError::CommandMismatch => "commit does not match prepared command",
            FederationError::AlreadyFinal => "federation transaction is already final",
        }
    }
}

/// Reservations by transaction.
#[derive(Clone, Debug, PartialEq, Eq)]
pub struct FederationBook {
    pub records: BTreeMap<u128, FederationRecord>,
}

impl Default for FederationBook {
    fn default() -> (book: Self)
        ensures
            book.records@ == Map::<u128, FederationRecord>::empty(),
    {
        FederationBook { records: BTreeMap::new() }
    }
}

/// The records after a reservation is prepared.
pub open spec fn prepared(
    records: Map<u128, FederationRecord>,
    commitment: ReservationCommitment,
) -> Result<Map<u128, FederationRecord>, FederationError> {
    let incoming = FederationRecord { commitment, state: FederationState::Prepared };
    let id = commitment.transaction.0;
    if !records.contains_key(id) {
        Ok(records.insert(id, incoming))
    } else if records[id] == incoming {
        Ok(records)
    } else {
        Err(FederationError::DuplicateConflict)
    }
}

/// The record of a transaction after it is committed.
pub open spec fn committed(
    records: Map<u128, FederationRecord>,
    transaction: FederationTransactionRef,
    command: FederationDigest,
    manifest: FederationDigest,
    now: CanonicalTime,
) -> Result<FederationRecord, FederationError> {
    let record = records[transaction.0];
    if !records.contains_key(transaction.0) {
        Err(FederationError::MissingPrepare)
    } else if record.state != FederationState::Prepared {
        Err(FederationError::AlreadyFinal)
    } else if now.0 > record.commitment.expires_at.0 {
        Err(FederationError::PrepareExpired)
    } else if command != record.commitment.command_digest {
        Err(FederationError::CommandMismatch)
    } else {
        Ok(FederationRecord { state: FederationState::Committed { manifest }, ..record })
    }
}

/// The record of a transaction after it is aborted.
pub open spec fn aborted(
    records: Map<u128, FederationRecord>,
    transaction: FederationTransactionRef,
) -> Result<FederationRecord, FederationError> {
    let record = records[transaction.0];
    if !records.contains_key(transaction.0) {
        Err(FederationError::MissingPrepare)
    } else if record.state != FederationState::Prepared {
        Err(FederationError::AlreadyFinal)
    } else {
        Ok(FederationRecord { state: FederationState::Aborted, ..record })
    }
}

impl FederationBook {
    /// Records an opaque value reservation commitment. Exact replay is idempotent; a transaction
    /// reference reused with different facts is refused.
    pub fn prepare(&mut self, commitment: ReservationCommitment) -> (result: Result<
        (),
        FederationError,
    >)
        ensures
            match prepared(old(self).records@, commitment) {
                Ok(records) => result is Ok && final(self).records@ == records,
                Err(e) => result == Err::<(), FederationError>(e) && *final(self) == *old(self),
            },
    {
        match lookup(&self.records, commitment.transaction.0) {
            Some(existing) => {
                let open = matches!(existing.state, FederationState::Prepared);
                return if open && existing.commitment.same(&commitment) {
                    Ok(())
                } else {
                    Err(FederationError::DuplicateConflict)
                };
            },
            None => {},
        }
        put(
            &mut self.records,
            commitment.transaction.0,
            FederationRecord { commitment, state: FederationState::Prepared },
        );
        Ok(())
    }

    /// Commits only the exact prepared command before expiry. Absent, expired, mismatched, and
    /// already final prepares are refused.
    pub fn commit(
        &mut self,
        transaction: FederationTransactionRef,
        command: FederationDigest,
        manifest: FederationDigest,
        now: CanonicalTime,
    ) -> (result: Result<FederationRecord, FederationError>)
        ensures
            result == committed(old(self).records@, transaction, command, manifest, now),
            result matches Ok(record) ==> final(self).records@ == old(self).records@.insert(
                transaction.0,
                record,
            ),
            result is Err ==> *final(self) == *old(self),
    {
        let mut record = match lookup(&self.records, transaction.0) {
            Some(record) => *record,
            None => return Err(FederationError::MissingPrepare),
        };
        if !matches!(record.state, FederationState::Prepared) {
            return Err(FederationError::AlreadyFinal);
        }
        if now.0 > record.commitment.expires_at.0 {
            return Err(FederationError::PrepareExpired);
        }
        if !same_32(&command.0, &record.commitment.command_digest.0) {
            return Err(FederationError::CommandMismatch);
        }
        record.state = FederationState::Committed { manifest };
        put(&mut self.records, transaction.0, record);
        Ok(record)
    }

    /// Aborts a prepared transaction without changing any protocol manifest. Absent and already
    /// final prepares are refused.
    pub fn abort(&mut self, transaction: FederationTransactionRef) -> (result: Result<
        FederationRecord,
        FederationError,
    >)
        ensures
            result == aborted(old(self).records@, transaction),
            result matches Ok(record) ==> final(self).records@ == old(self).records@.insert(
                transaction.0,
                record,
            ),
            result is Err ==> *final(self) == *old(self),
    {
        let mut record = match lookup(&self.records, transaction.0) {
            Some(record) => *record,
            None => return Err(FederationError::MissingPrepare),
        };
        if !matches!(record.state, FederationState::Prepared) {
            return Err(FederationError::AlreadyFinal);
        }
        record.state = FederationState::Aborted;
        put(&mut self.records, transaction.0, record);
        Ok(record)
    }
}

/// A transaction is decided once: after a commit or an abort, neither is possible again.
pub proof fn federation_is_final(
    records: Map<u128, FederationRecord>,
    transaction: FederationTransactionRef,
    record: FederationRecord,
    command: FederationDigest,
    manifest: FederationDigest,
    now: CanonicalTime,
)
    requires
        record.state is Committed || record.state is Aborted,
    ensures
        committed(records.insert(transaction.0, record), transaction, command, manifest, now)
            == Err::<FederationRecord, FederationError>(FederationError::AlreadyFinal),
        aborted(records.insert(transaction.0, record), transaction) == Err::<
            FederationRecord,
            FederationError,
        >(FederationError::AlreadyFinal),
{
}

/// Preparing the same reservation again changes nothing.
pub proof fn preparation_is_idempotent(
    records: Map<u128, FederationRecord>,
    commitment: ReservationCommitment,
)
    requires
        prepared(records, commitment) is Ok,
    ensures
        prepared(prepared(records, commitment)->Ok_0, commitment) == prepared(records, commitment),
{
}

/// Only the exact prepared command commits, and only until its reservation expires. What has been
/// committed or aborted is never prepared again.
pub proof fn only_prepared_commands_commit(
    records: Map<u128, FederationRecord>,
    transaction: FederationTransactionRef,
    command: FederationDigest,
    manifest: FederationDigest,
    now: CanonicalTime,
    commitment: ReservationCommitment,
)
    ensures
        committed(records, transaction, command, manifest, now) is Ok <==> {
            let record = records[transaction.0];
            &&& records.contains_key(transaction.0)
            &&& record.state is Prepared
            &&& command == record.commitment.command_digest
            &&& now.0 <= record.commitment.expires_at.0
        },
        records.contains_key(commitment.transaction.0) && !(
        records[commitment.transaction.0].state is Prepared) ==> prepared(records, commitment)
            == Err::<Map<u128, FederationRecord>, FederationError>(
            FederationError::DuplicateConflict,
        ),
{
}

/// A new reservation is prepared as it was committed to, under its transaction; every other record
/// stays; and one that is known is prepared again only if it is the same in all its facts and still
/// open.
pub proof fn reservations_are_prepared_as_committed(
    records: Map<u128, FederationRecord>,
    commitment: ReservationCommitment,
    k: u128,
)
    ensures
        ({
            let result = prepared(records, commitment);
            let next = result->Ok_0;
            let id = commitment.transaction.0;
            let known = records[id];
            &&& result is Ok <==> !records.contains_key(id) || (known.state is Prepared
                && known.commitment.transaction == commitment.transaction
                && known.commitment.sender_provider == commitment.sender_provider
                && known.commitment.recipient_provider == commitment.recipient_provider
                && known.commitment.command_digest == commitment.command_digest
                && known.commitment.amount == commitment.amount && known.commitment.unit
                == commitment.unit && known.commitment.expires_at == commitment.expires_at)
            &&& result is Ok ==> {
                &&& next.contains_key(id)
                &&& next[id].commitment == commitment
                &&& next[id].state is Prepared
                &&& k != id ==> (next.contains_key(k) <==> records.contains_key(k)) && next[k]
                    == records[k]
            }
        }),
{
}

/// What a commit or an abort leaves: the reservation as it was, committed to the manifest or
/// aborted; and when either is refused, and why.
pub proof fn reservations_end_one_way(
    records: Map<u128, FederationRecord>,
    transaction: FederationTransactionRef,
    command: FederationDigest,
    manifest: FederationDigest,
    now: CanonicalTime,
)
    ensures
        ({
            let known = records.contains_key(transaction.0);
            let record = records[transaction.0];
            let commit = committed(records, transaction, command, manifest, now);
            let abort = aborted(records, transaction);
            &&& commit matches Ok(done) ==> done.commitment == record.commitment && done.state
                == FederationState::Committed { manifest }
            &&& abort matches Ok(done) ==> done.commitment == record.commitment && done.state
                == FederationState::Aborted
            &&& abort is Ok <==> known && record.state is Prepared
            &&& commit == Err::<FederationRecord, FederationError>(FederationError::MissingPrepare)
                <==> !known
            &&& abort == Err::<FederationRecord, FederationError>(FederationError::MissingPrepare)
                <==> !known
            &&& commit == Err::<FederationRecord, FederationError>(FederationError::AlreadyFinal)
                <==> known && !(record.state is Prepared)
            &&& commit == Err::<FederationRecord, FederationError>(FederationError::PrepareExpired)
                <==> known && record.state is Prepared && now.0 > record.commitment.expires_at.0
        }),
{
}

} // verus!
