//! Transactional execution around the protocol kernel: atomic state, ledger, schedule, journal,
//! outbox, and idempotency.

use super::errors::EngineError;
use super::histories::{put_history, with_history, HistoryEntry};
use crate::bytes::same_bytes;
use crate::crypto::{sha256, sha256_of};
use crate::finance::lot::{Forfeiture, LotLifecycle};
use crate::finance::program::{FinancialProgram, ProgramModel};
use crate::finance::scope::FinancialScope;
use crate::finance::terms::ProgramError;
use crate::ledger::{
    audit, balance_in, net, obligation, posting_changes_balances, Account, LedgerBatch, LedgerError,
    LedgerModel, LedgerState,
};
use crate::maps::{drop_tagged, lookup, put, put_tagged};
use crate::primitives::amounts::{CanonicalTime, Money, SettlementUnit};
use crate::primitives::ids::{IdempotencyKey, PaymentOperationId};
use crate::primitives::schedule::{ScheduleChange, ScheduleTask};
use crate::protocol::ProtocolError;
use std::collections::BTreeMap;
use vstd::prelude::*;

verus! {

/// Tasks in order: by what they are, then by what they are about.
pub open spec fn task_key(task: ScheduleTask) -> (u8, u128) {
    match task {
        ScheduleTask::SubmissionTimeout(request) => (0, request.0),
        ScheduleTask::RequestExpiry(request) => (1, request.0),
        ScheduleTask::LaneHorizon(lane) => (2, lane.0),
    }
}

/// Different tasks have different keys.
pub proof fn tasks_have_keys_of_their_own(a: ScheduleTask, b: ScheduleTask)
    requires
        task_key(a) == task_key(b),
    ensures
        a == b,
{
}

fn key_of_task(task: ScheduleTask) -> (key: (u8, u128))
    ensures
        key == task_key(task),
{
    match task {
        ScheduleTask::SubmissionTimeout(request) => (0, request.0),
        ScheduleTask::RequestExpiry(request) => (1, request.0),
        ScheduleTask::LaneHorizon(lane) => (2, lane.0),
    }
}

/// The schedule after the first `n` changes, one after the other.
pub open spec fn rescheduled(
    schedules: Map<(u8, u128), CanonicalTime>,
    changes: Seq<ScheduleChange>,
    n: nat,
) -> Map<(u8, u128), CanonicalTime>
    decreases n,
{
    if n == 0 {
        schedules
    } else {
        let before = rescheduled(schedules, changes, (n - 1) as nat);
        match changes[n - 1] {
            ScheduleChange::Schedule { task, at } => before.insert(task_key(task), at),
            ScheduleChange::Cancel { task } => before.remove(task_key(task)),
        }
    }
}

fn apply_schedule_changes(
    schedules: &mut BTreeMap<(u8, u128), CanonicalTime>,
    changes: &Vec<ScheduleChange>,
)
    ensures
        final(schedules)@ == rescheduled(old(schedules)@, changes@, changes@.len()),
{
    let ghost before = schedules@;
    let mut i: usize = 0;
    while i < changes.len()
        invariant
            0 <= i <= changes@.len(),
            schedules@ == rescheduled(before, changes@, i as nat),
        decreases changes@.len() - i,
    {
        match changes[i] {
            ScheduleChange::Schedule { task, at } => {
                put_tagged(schedules, key_of_task(task), at);
            },
            ScheduleChange::Cancel { task } => drop_tagged(schedules, key_of_task(task)),
        }
        i += 1;
    }
}

/// What the protocol kernel asks to be committed: the next projection of the protocol's state, the
/// next history that the relationship shares with others, the events and effects that go with it, what becomes of money and of the schedule, and the
/// transition itself as it is reported once it is committed.
pub struct TransitionManifest<S, E, I, T, H> {
    pub expected_snapshot_revision: u64,
    pub expected_ledger_revision: u64,
    pub ledger_batch: LedgerBatch,
    pub forfeitures: Vec<Forfeiture>,
    pub forfeiture_holds: Vec<PaymentOperationId>,
    pub schedule_changes: Vec<ScheduleChange>,
    pub next: S,
    pub next_history: HistoryEntry<H>,
    pub protocol_events: Vec<E>,
    pub outbox_intents: Vec<I>,
    pub transition: T,
}

/// What is kept of an executed command: its digest, where in the journal it stands, and the
/// transition that was reported.
pub struct ExecutionRecord<T> {
    pub fingerprint: [u8; 32],
    pub position: u64,
    pub transition: T,
}

/// Where in the journal a command stands, and whether it had been executed before.
#[derive(Clone, Copy, Debug, PartialEq, Eq, Structural)]
pub struct ExecutionOutcome {
    pub position: u64,
    pub replayed: bool,
}

/// The state of one relationship.
pub struct InMemoryEngine<S, E, I, T> {
    pub revision: u64,
    pub projection: S,
    pub ledger: LedgerState,
    pub journal: Vec<E>,
    pub schedules: BTreeMap<(u8, u128), CanonicalTime>,
    pub outbox: Vec<I>,
    pub idempotency: BTreeMap<u128, ExecutionRecord<T>>,
    pub next_journal_position: u64,
}

pub ghost struct EngineModel<S, E, I, T> {
    pub revision: u64,
    pub projection: S,
    pub ledger: LedgerModel,
    pub journal: Seq<E>,
    pub schedules: Map<(u8, u128), CanonicalTime>,
    pub outbox: Seq<I>,
    pub idempotency: Map<u128, (Seq<u8>, u64, T)>,
    pub next_journal_position: u64,
}

pub open spec fn record_models<T>(records: Map<u128, ExecutionRecord<T>>) -> Map<
    u128,
    (Seq<u8>, u64, T),
> {
    records.map_values(
        |record: ExecutionRecord<T>| (record.fingerprint@, record.position, record.transition),
    )
}

impl<S, E, I, T> View for InMemoryEngine<S, E, I, T> {
    type V = EngineModel<S, E, I, T>;

    open spec fn view(&self) -> EngineModel<S, E, I, T> {
        EngineModel {
            revision: self.revision,
            projection: self.projection,
            ledger: self.ledger.view@,
            journal: self.journal@,
            schedules: self.schedules@,
            outbox: self.outbox@,
            idempotency: record_models(self.idempotency@),
            next_journal_position: self.next_journal_position,
        }
    }
}

/// The program after the first `n` of some forfeitures, or why one is refused.
pub open spec fn all_forfeited(
    program: ProgramModel,
    sources: Seq<Forfeiture>,
    n: nat,
    now: CanonicalTime,
) -> Result<ProgramModel, ProgramError>
    decreases n,
{
    if n == 0 {
        Ok(program)
    } else {
        match all_forfeited(program, sources, (n - 1) as nat, now) {
            Err(e) => Err(e),
            Ok(next) => next.forfeited(sources[n - 1], now),
        }
    }
}

/// The program after the first `n` of some reversals, or why one is refused.
pub open spec fn all_held(
    program: ProgramModel,
    holds: Seq<PaymentOperationId>,
    n: nat,
    now: CanonicalTime,
) -> Result<ProgramModel, ProgramError>
    decreases n,
{
    if n == 0 {
        Ok(program)
    } else {
        match all_held(program, holds, (n - 1) as nat, now) {
            Err(e) => Err(e),
            Ok(next) => next.reversal_noted(holds[n - 1], now),
        }
    }
}

proof fn lemma_forfeited_sticks(
    program: ProgramModel,
    sources: Seq<Forfeiture>,
    m: nat,
    n: nat,
    now: CanonicalTime,
)
    requires
        m <= n,
    ensures
        all_forfeited(program, sources, m, now) matches Err(e) ==> all_forfeited(
            program,
            sources,
            n,
            now,
        ) == Err::<ProgramModel, ProgramError>(e),
    decreases n,
{
    if m < n {
        lemma_forfeited_sticks(program, sources, m, (n - 1) as nat, now);
    }
}

proof fn lemma_held_sticks(
    program: ProgramModel,
    holds: Seq<PaymentOperationId>,
    m: nat,
    n: nat,
    now: CanonicalTime,
)
    requires
        m <= n,
    ensures
        all_held(program, holds, m, now) matches Err(e) ==> all_held(program, holds, n, now)
            == Err::<ProgramModel, ProgramError>(e),
    decreases n,
{
    if m < n {
        lemma_held_sticks(program, holds, m, (n - 1) as nat, now);
    }
}

/// The program with what a manifest forfeits and holds, or why it is refused.
pub open spec fn program_after(
    program: ProgramModel,
    forfeitures: Seq<Forfeiture>,
    holds: Seq<PaymentOperationId>,
    now: CanonicalTime,
) -> Result<ProgramModel, ProgramError> {
    match all_forfeited(program, forfeitures, forfeitures.len(), now) {
        Err(e) => Err(e),
        Ok(next) => all_held(next, holds, holds.len(), now),
    }
}

fn adjust_program(
    program: &FinancialProgram,
    forfeitures: &Vec<Forfeiture>,
    held: &Vec<PaymentOperationId>,
    now: CanonicalTime,
) -> (result: Result<FinancialProgram, ProgramError>)
    requires
        program@.records.sound(),
    ensures
        match program_after(program@, forfeitures@, held@, now) {
            Ok(model) => result matches Ok(next) && next@ == model && model.records.sound(),
            Err(e) => result == Err::<FinancialProgram, ProgramError>(e),
        },
{
    let ghost before = program@;
    let mut next = program.clone();
    let mut i: usize = 0;
    while i < forfeitures.len()
        invariant
            before == program@,
            next@.records.sound(),
            0 <= i <= forfeitures@.len(),
            all_forfeited(before, forfeitures@, i as nat, now) == Ok::<ProgramModel, ProgramError>(
                next@,
            ),
        decreases forfeitures@.len() - i,
    {
        proof {
            lemma_forfeited_sticks(
                before,
                forfeitures@,
                (i + 1) as nat,
                forfeitures@.len(),
                now,
            );
        }
        match next.record_forfeiture(forfeitures[i], now) {
            Ok(()) => {},
            Err(e) => return Err(e),
        }
        i += 1;
    }
    let ghost middle = next@;
    let mut j: usize = 0;
    while j < held.len()
        invariant
            before == program@,
            all_forfeited(before, forfeitures@, forfeitures@.len(), now) == Ok::<
                ProgramModel,
                ProgramError,
            >(middle),
            next@.records.sound(),
            0 <= j <= held@.len(),
            all_held(middle, held@, j as nat, now) == Ok::<ProgramModel, ProgramError>(next@),
        decreases held@.len() - j,
    {
        proof {
            lemma_held_sticks(middle, held@, (j + 1) as nat, held@.len(), now);
        }
        match next.note_reversal(held[j], now) {
            Ok(()) => {},
            Err(e) => return Err(e),
        }
        j += 1;
    }
    Ok(next)
}

pub ghost struct ManifestModel<S, E, I, T, H> {
    pub expected_snapshot_revision: u64,
    pub expected_ledger_revision: u64,
    pub transfers: Seq<crate::ledger::Transfer>,
    pub forfeitures: Seq<Forfeiture>,
    pub forfeiture_holds: Seq<PaymentOperationId>,
    pub schedule_changes: Seq<ScheduleChange>,
    pub next: S,
    pub next_history: HistoryEntry<H>,
    pub protocol_events: Seq<E>,
    pub outbox_intents: Seq<I>,
    pub transition: T,
}

impl<S, E, I, T, H> View for TransitionManifest<S, E, I, T, H> {
    type V = ManifestModel<S, E, I, T, H>;

    open spec fn view(&self) -> ManifestModel<S, E, I, T, H> {
        ManifestModel {
            expected_snapshot_revision: self.expected_snapshot_revision,
            expected_ledger_revision: self.expected_ledger_revision,
            transfers: self.ledger_batch.transfers@,
            forfeitures: self.forfeitures@,
            forfeiture_holds: self.forfeiture_holds@,
            schedule_changes: self.schedule_changes@,
            next: self.next,
            next_history: self.next_history,
            protocol_events: self.protocol_events@,
            outbox_intents: self.outbox_intents@,
            transition: self.transition,
        }
    }
}

impl<S, E, I, T> EngineModel<S, E, I, T> {
    /// Whether a command was executed before, and where it stands in the journal; or why it is
    /// refused before the kernel is asked.
    pub open spec fn replayed(
        self,
        scope: FinancialScope,
        policy_scope: FinancialScope,
        key: IdempotencyKey,
        encoded: Option<Seq<u8>>,
    ) -> Result<Option<u64>, EngineError> {
        if policy_scope != scope {
            Err(EngineError::VersionConflict)
        } else {
            match encoded {
                None => Err(EngineError::CommandEncoding),
                Some(bytes) => if !self.idempotency.contains_key(key.0) {
                    Ok(None)
                } else if self.idempotency[key.0].0 == sha256_of(bytes) {
                    Ok(Some(self.idempotency[key.0].1))
                } else {
                    Err(EngineError::DuplicateConflict)
                },
            }
        }
    }

    /// The state, the program and the shared histories after a transition, all of it or why nothing.
    pub open spec fn committed<H>(
        self,
        program: ProgramModel,
        histories: Seq<HistoryEntry<H>>,
        key: IdempotencyKey,
        fingerprint: Seq<u8>,
        manifest: ManifestModel<S, E, I, T, H>,
        now: CanonicalTime,
    ) -> Result<(Self, ProgramModel, Seq<HistoryEntry<H>>), EngineError> {
        if manifest.expected_snapshot_revision != self.revision {
            Err(EngineError::VersionConflict)
        } else if self.revision == u64::MAX || self.next_journal_position == u64::MAX {
            Err(EngineError::ArithmeticOverflow)
        } else if manifest.expected_ledger_revision != self.ledger.revision {
            Err(EngineError::Ledger(LedgerError::VersionConflict))
        } else {
            match self.ledger.applied(manifest.transfers) {
                Err(e) => Err(EngineError::Ledger(e)),
                Ok(ledger) => match program_after(
                    program,
                    manifest.forfeitures,
                    manifest.forfeiture_holds,
                    now,
                ) {
                    Err(e) => Err(EngineError::Finance(e)),
                    Ok(after) => Ok(
                        (
                            EngineModel {
                                revision: (self.revision + 1) as u64,
                                projection: manifest.next,
                                ledger,
                                journal: self.journal + manifest.protocol_events,
                                schedules: rescheduled(
                                    self.schedules,
                                    manifest.schedule_changes,
                                    manifest.schedule_changes.len(),
                                ),
                                outbox: self.outbox + manifest.outbox_intents,
                                idempotency: self.idempotency.insert(
                                    key.0,
                                    (fingerprint, self.next_journal_position, manifest.transition),
                                ),
                                next_journal_position: (self.next_journal_position + 1) as u64,
                            },
                            after,
                            with_history(histories, manifest.next_history),
                        ),
                    ),
                },
            }
        }
    }

    /// What executing a command comes to, where the kernel returns the given manifest if it is
    /// asked.
    pub open spec fn executed<H>(
        self,
        program: ProgramModel,
        histories: Seq<HistoryEntry<H>>,
        scope: FinancialScope,
        policy_scope: FinancialScope,
        key: IdempotencyKey,
        encoded: Option<Seq<u8>>,
        manifest: Result<ManifestModel<S, E, I, T, H>, ProtocolError>,
        now: CanonicalTime,
    ) -> Result<(ExecutionOutcome, Self, ProgramModel, Seq<HistoryEntry<H>>), EngineError> {
        match self.replayed(scope, policy_scope, key, encoded) {
            Err(e) => Err(e),
            Ok(Some(position)) => Ok(
                (ExecutionOutcome { position, replayed: true }, self, program, histories),
            ),
            Ok(None) => match manifest {
                Err(e) => Err(EngineError::Protocol(e)),
                Ok(asked) => match self.committed(
                    program,
                    histories,
                    key,
                    sha256_of(encoded->Some_0),
                    asked,
                    now,
                ) {
                    Err(e) => Err(e),
                    Ok((next, after, written)) => Ok(
                        (
                            ExecutionOutcome {
                                position: self.next_journal_position,
                                replayed: false,
                            },
                            next,
                            after,
                            written,
                        ),
                    ),
                },
            },
        }
    }
}

pub open spec fn encoded_model(encoded: Option<Vec<u8>>) -> Option<Seq<u8>> {
    match encoded {
        Some(bytes) => Some(bytes@),
        None => None,
    }
}

pub open spec fn manifest_model<S, E, I, T, H>(
    manifest: Result<TransitionManifest<S, E, I, T, H>, ProtocolError>,
) -> Result<ManifestModel<S, E, I, T, H>, ProtocolError> {
    match manifest {
        Ok(asked) => Ok(asked@),
        Err(e) => Err(e),
    }
}

impl<S, E, I, T> InMemoryEngine<S, E, I, T> {
    /// The state of a relationship that nothing has happened in.
    pub fn new(projection: S, unit: SettlementUnit) -> (state: Self)
        ensures
            state@ == (EngineModel::<S, E, I, T> {
                revision: 0,
                projection,
                ledger: LedgerModel { revision: 0, unit, balances: Seq::empty() },
                journal: Seq::empty(),
                schedules: Map::empty(),
                outbox: Seq::empty(),
                idempotency: Map::empty(),
                next_journal_position: 1,
            }),
    {
        let state = InMemoryEngine {
            revision: 0,
            projection,
            ledger: LedgerState::new(unit),
            journal: Vec::new(),
            schedules: BTreeMap::new(),
            outbox: Vec::new(),
            idempotency: BTreeMap::new(),
            next_journal_position: 1,
        };
        assert(state@.idempotency =~= Map::empty());
        state
    }

    /// Whether a command was executed before. The kernel is asked only where it was not.
    pub fn replay(
        &self,
        scope: FinancialScope,
        policy_scope: FinancialScope,
        key: IdempotencyKey,
        encoded: &Option<Vec<u8>>,
    ) -> (result: Result<Option<u64>, EngineError>)
        ensures
            result == self@.replayed(scope, policy_scope, key, encoded_model(*encoded)),
    {
        if !policy_scope.same(&scope) {
            return Err(EngineError::VersionConflict);
        }
        let fingerprint = match encoded {
            Some(bytes) => sha256(bytes.as_slice()),
            None => return Err(EngineError::CommandEncoding),
        };
        match lookup(&self.idempotency, key.0) {
            Some(record) => {
                assert(self@.idempotency[key.0] == (
                    record.fingerprint@,
                    record.position,
                    record.transition,
                ));
                if same_bytes(record.fingerprint.as_slice(), fingerprint.as_slice()) {
                    Ok(Some(record.position))
                } else {
                    Err(EngineError::DuplicateConflict)
                }
            },
            None => Ok(None),
        }
    }

    /// Commits a transition, all of it, or refuses and changes nothing. The ledger and the program
    /// are changed as copies first: neither the projection nor the shared history changes unless the
    /// complete financial batch succeeds.
    pub fn commit<H>(
        &mut self,
        program: &mut FinancialProgram,
        histories: &mut Vec<HistoryEntry<H>>,
        key: IdempotencyKey,
        fingerprint: [u8; 32],
        manifest: TransitionManifest<S, E, I, T, H>,
        now: CanonicalTime,
    ) -> (result: Result<u64, EngineError>)
        requires
            old(program)@.records.sound(),
        ensures
            final(program)@.records.sound(),
            match old(self)@.committed(
                old(program)@,
                old(histories)@,
                key,
                fingerprint@,
                manifest@,
                now,
            ) {
                Err(e) => result == Err::<u64, EngineError>(e) && final(self)@ == old(self)@
                    && final(program)@ == old(program)@ && final(histories)@ == old(histories)@,
                Ok((next, after, written)) => result == Ok::<u64, EngineError>(
                    old(self)@.next_journal_position,
                ) && final(self)@ == next && final(program)@ == after && final(histories)@
                    == written,
            },
    {
        let ghost before = self@;
        if manifest.expected_snapshot_revision != self.revision {
            return Err(EngineError::VersionConflict);
        }
        let next_revision: u64 = match self.revision.checked_add(1) {
            Some(revision) => revision,
            None => return Err(EngineError::ArithmeticOverflow),
        };
        let position: u64 = self.next_journal_position;
        let next_position: u64 = match position.checked_add(1) {
            Some(next) => next,
            None => return Err(EngineError::ArithmeticOverflow),
        };
        let mut next_ledger = self.ledger.clone();
        match next_ledger.apply(manifest.expected_ledger_revision, &manifest.ledger_batch) {
            Ok(()) => {},
            Err(e) => return Err(EngineError::Ledger(e)),
        }
        let next_program = match adjust_program(
            program,
            &manifest.forfeitures,
            &manifest.forfeiture_holds,
            now,
        ) {
            Ok(next) => next,
            Err(e) => return Err(EngineError::Finance(e)),
        };
        *program = next_program;
        put_history(histories, manifest.next_history);
        self.projection = manifest.next;
        self.ledger = next_ledger;
        apply_schedule_changes(&mut self.schedules, &manifest.schedule_changes);
        let mut events = manifest.protocol_events;
        self.journal.append(&mut events);
        let mut intents = manifest.outbox_intents;
        self.outbox.append(&mut intents);
        let transition = manifest.transition;
        put(&mut self.idempotency, key.0, ExecutionRecord { fingerprint, position, transition });
        assert(record_models(self.idempotency@) =~= before.idempotency.insert(
            key.0,
            (fingerprint@, position, transition),
        ));
        self.revision = next_revision;
        self.next_journal_position = next_position;
        Ok(position)
    }

    /// Executes one command against the kernel's manifest for it: a replay finds the earlier
    /// execution, and anything new is committed whole or refused.
    pub fn execute<H>(
        &mut self,
        program: &mut FinancialProgram,
        histories: &mut Vec<HistoryEntry<H>>,
        scope: FinancialScope,
        policy_scope: FinancialScope,
        key: IdempotencyKey,
        encoded: &Option<Vec<u8>>,
        manifest: Result<TransitionManifest<S, E, I, T, H>, ProtocolError>,
        now: CanonicalTime,
    ) -> (result: Result<ExecutionOutcome, EngineError>)
        requires
            old(program)@.records.sound(),
        ensures
            final(program)@.records.sound(),
            match old(self)@.executed(
                old(program)@,
                old(histories)@,
                scope,
                policy_scope,
                key,
                encoded_model(*encoded),
                manifest_model(manifest),
                now,
            ) {
                Err(e) => result == Err::<ExecutionOutcome, EngineError>(e) && final(self)@
                    == old(self)@ && final(program)@ == old(program)@ && final(histories)@ == old(
                    histories)@,
                Ok((outcome, next, after, written)) => result == Ok::<ExecutionOutcome, EngineError>(
                    outcome,
                ) && final(self)@ == next && final(program)@ == after && final(histories)@
                    == written,
            },
    {
        match self.replay(scope, policy_scope, key, encoded) {
            Ok(Some(position)) => return Ok(ExecutionOutcome { position, replayed: true }),
            Ok(None) => {},
            Err(e) => return Err(e),
        }
        let fingerprint = match encoded {
            Some(bytes) => sha256(bytes.as_slice()),
            None => return Err(EngineError::CommandEncoding),
        };
        let asked = match manifest {
            Ok(asked) => asked,
            Err(e) => return Err(EngineError::Protocol(e)),
        };
        match self.commit(program, histories, key, fingerprint, asked, now) {
            Ok(position) => Ok(ExecutionOutcome { position, replayed: false }),
            Err(e) => Err(e),
        }
    }
}

impl<S, E, I, T> InMemoryEngine<S, E, I, T> {
    /// One projected ledger balance.
    pub fn balance(&self, account: Account) -> (balance: Money)
        ensures
            balance == obligation(self@.ledger.balances, account),
    {
        self.ledger.balance(account)
    }

    /// The conserved value across all ledger accounts. Fails where balances cannot be summed.
    pub fn total_value(&self) -> (result: Result<Money, LedgerError>)
        ensures
            result == audit(self@.ledger.balances),
    {
        self.ledger.total_value()
    }

    /// The transition that was reported for an executed command.
    pub fn transition(&self, key: IdempotencyKey) -> (transition: Option<&T>)
        ensures
            match transition {
                Some(found) => self@.idempotency.contains_key(key.0) && *found
                    == self@.idempotency[key.0].2,
                None => !self@.idempotency.contains_key(key.0),
            },
    {
        match lookup(&self.idempotency, key.0) {
            Some(record) => Some(&record.transition),
            None => None,
        }
    }

    /// The canonical protocol event journal.
    pub fn journal(&self) -> (journal: &Vec<E>)
        ensures
            journal@ == self@.journal,
    {
        &self.journal
    }

    /// Durable post-commit effect intents.
    pub fn outbox(&self) -> (outbox: &Vec<I>)
        ensures
            outbox@ == self@.outbox,
    {
        &self.outbox
    }

    /// Currently scheduled protocol work.
    pub fn schedules(&self) -> (schedules: &BTreeMap<(u8, u128), CanonicalTime>)
        ensures
            schedules@ == self@.schedules,
    {
        &self.schedules
    }
}

/// A command is executed once: the same command under its key finds the first execution, with the
/// transition that was reported then, whatever the kernel would say by now, and another command
/// under that key is refused; neither changes anything.
pub proof fn commands_execute_once<S, E, I, T, H>(
    engine: EngineModel<S, E, I, T>,
    program: ProgramModel,
    histories: Seq<HistoryEntry<H>>,
    scope: FinancialScope,
    key: IdempotencyKey,
    bytes: Seq<u8>,
    manifest: Result<ManifestModel<S, E, I, T, H>, ProtocolError>,
    now: CanonicalTime,
    other: Seq<u8>,
    again: Result<ManifestModel<S, E, I, T, H>, ProtocolError>,
    later: CanonicalTime,
)
    requires
        engine.executed(program, histories, scope, scope, key, Some(bytes), manifest, now) is Ok,
    ensures
        ({
            let (outcome, next, after, written) = engine.executed(
                program,
                histories,
                scope,
                scope,
                key,
                Some(bytes),
                manifest,
                now,
            )->Ok_0;
            &&& next.idempotency.contains_key(key.0)
            &&& (!outcome.replayed ==> next.idempotency[key.0].2 == manifest->Ok_0.transition)
            &&& (outcome.replayed ==> next == engine && after == program && written == histories)
            &&& next.executed(after, written, scope, scope, key, Some(bytes), again, later) == Ok::<
                (
                    ExecutionOutcome,
                    EngineModel<S, E, I, T>,
                    ProgramModel,
                    Seq<HistoryEntry<H>>,
                ),
                EngineError,
            >((ExecutionOutcome { replayed: true, ..outcome }, next, after, written))
            &&& sha256_of(other) != sha256_of(bytes) ==> next.executed(
                after,
                written,
                scope,
                scope,
                key,
                Some(other),
                again,
                later,
            ) == Err::<
                (
                    ExecutionOutcome,
                    EngineModel<S, E, I, T>,
                    ProgramModel,
                    Seq<HistoryEntry<H>>,
                ),
                EngineError,
            >(EngineError::DuplicateConflict)
        }),
{
}

/// The journal and the outbox only grow, and a commit counts revision and position up by one.
pub proof fn journals_only_grow<S, E, I, T, H>(
    engine: EngineModel<S, E, I, T>,
    program: ProgramModel,
    histories: Seq<HistoryEntry<H>>,
    key: IdempotencyKey,
    fingerprint: Seq<u8>,
    manifest: ManifestModel<S, E, I, T, H>,
    now: CanonicalTime,
)
    requires
        engine.committed(program, histories, key, fingerprint, manifest, now) is Ok,
    ensures
        ({
            let next = engine.committed(program, histories, key, fingerprint, manifest, now)->Ok_0.0;
            &&& engine.journal.is_prefix_of(next.journal)
            &&& engine.outbox.is_prefix_of(next.outbox)
            &&& next.revision == engine.revision + 1
            &&& next.next_journal_position == engine.next_journal_position + 1
            &&& next.ledger.unit == engine.ledger.unit
        }),
{
    let next = engine.committed(program, histories, key, fingerprint, manifest, now)->Ok_0.0;
    assert(next.journal.take(engine.journal.len() as int) =~= engine.journal);
    assert(next.outbox.take(engine.outbox.len() as int) =~= engine.outbox);
}

proof fn lemma_rescheduled(
    schedules: Map<(u8, u128), CanonicalTime>,
    changes: Seq<ScheduleChange>,
    n: nat,
    i: int,
    task: ScheduleTask,
)
    requires
        0 <= i < n <= changes.len(),
        forall|j: int|
            i < j < n ==> match #[trigger] changes[j] {
                ScheduleChange::Schedule { task: other, .. } => other != task,
                ScheduleChange::Cancel { task: other } => other != task,
            },
    ensures
        ({
            let after = rescheduled(schedules, changes, n);
            match changes[i] {
                ScheduleChange::Schedule { task: named, at } => named == task
                    ==> after.contains_key(task_key(task)) && after[task_key(task)] == at,
                ScheduleChange::Cancel { task: named } => named == task ==> !after.contains_key(
                    task_key(task),
                ),
            }
        }),
    decreases n,
{
    if i < n - 1 {
        lemma_rescheduled(schedules, changes, (n - 1) as nat, i, task);
        assert(match changes[n - 1] {
            ScheduleChange::Schedule { task: other, .. } => other != task,
            ScheduleChange::Cancel { task: other } => other != task,
        });
        match changes[n - 1] {
            ScheduleChange::Schedule { task: other, .. } => {
                if task_key(other) == task_key(task) {
                    tasks_have_keys_of_their_own(other, task);
                }
            },
            ScheduleChange::Cancel { task: other } => {
                if task_key(other) == task_key(task) {
                    tasks_have_keys_of_their_own(other, task);
                }
            },
        }
    }
}

/// The last word on a task counts: after a new command, a task is due when the last change of it
/// says, or not at all if that change cancels it.
pub proof fn the_last_change_of_a_task_counts<S, E, I, T, H>(
    engine: EngineModel<S, E, I, T>,
    program: ProgramModel,
    histories: Seq<HistoryEntry<H>>,
    key: IdempotencyKey,
    fingerprint: Seq<u8>,
    manifest: ManifestModel<S, E, I, T, H>,
    now: CanonicalTime,
    i: int,
    task: ScheduleTask,
)
    requires
        engine.committed(program, histories, key, fingerprint, manifest, now) is Ok,
        0 <= i < manifest.schedule_changes.len(),
        forall|j: int|
            i < j < manifest.schedule_changes.len()
                ==> match #[trigger] manifest.schedule_changes[j] {
                ScheduleChange::Schedule { task: other, .. } => other != task,
                ScheduleChange::Cancel { task: other } => other != task,
            },
    ensures
        ({
            let next = engine.committed(program, histories, key, fingerprint, manifest, now)->Ok_0.0;
            match manifest.schedule_changes[i] {
                ScheduleChange::Schedule { task: named, at } => named == task
                    ==> next.schedules.contains_key(task_key(task))
                    && next.schedules[task_key(task)] == at,
                ScheduleChange::Cancel { task: named } => named == task
                    ==> !next.schedules.contains_key(task_key(task)),
            }
        }),
{
    lemma_rescheduled(
        engine.schedules,
        manifest.schedule_changes,
        manifest.schedule_changes.len(),
        i,
        task,
    );
}

/// What a new command commits: what the kernel asked for against the revisions that it saw, all of
/// it. Each account changes by exactly what the transfers bring it; events and intents follow those
/// that were there; and the command is on record under its key, at its position.
pub proof fn commits_are_what_was_asked_for<S, E, I, T, H>(
    engine: EngineModel<S, E, I, T>,
    program: ProgramModel,
    histories: Seq<HistoryEntry<H>>,
    key: IdempotencyKey,
    fingerprint: Seq<u8>,
    manifest: ManifestModel<S, E, I, T, H>,
    now: CanonicalTime,
    a: Account,
    k: u128,
)
    requires
        engine.committed(program, histories, key, fingerprint, manifest, now) is Ok,
    ensures
        ({
            let next = engine.committed(program, histories, key, fingerprint, manifest, now)->Ok_0.0;
            let ts = manifest.transfers;
            &&& manifest.expected_snapshot_revision == engine.revision
            &&& manifest.expected_ledger_revision == engine.ledger.revision
            &&& next.projection == manifest.next
            &&& next.revision == engine.revision + 1
            &&& next.ledger.revision == engine.ledger.revision + 1
            &&& balance_in(next.ledger.balances, a) == balance_in(engine.ledger.balances, a) + net(
                ts,
                ts.len(),
                a,
            )
            &&& next.journal == engine.journal + manifest.protocol_events
            &&& next.outbox == engine.outbox + manifest.outbox_intents
            &&& next.idempotency.contains_key(key.0)
            &&& next.idempotency[key.0] == (
                fingerprint,
                engine.next_journal_position,
                manifest.transition,
            )
            &&& k != key.0 ==> (next.idempotency.contains_key(k)
                <==> engine.idempotency.contains_key(k)) && next.idempotency[k]
                == engine.idempotency[k]
            &&& next.next_journal_position == engine.next_journal_position + 1
        }),
{
    posting_changes_balances(
        engine.ledger.balances,
        engine.ledger.revision,
        manifest.transfers,
        a,
    );
}

/// When a command is not executed: in another scope than its policy's, without an encoding, under a
/// key that another command has, or where the kernel refuses it; and where it was executed before,
/// nothing changes.
pub proof fn commands_are_refused_or_replayed<S, E, I, T, H>(
    engine: EngineModel<S, E, I, T>,
    program: ProgramModel,
    histories: Seq<HistoryEntry<H>>,
    scope: FinancialScope,
    policy_scope: FinancialScope,
    key: IdempotencyKey,
    encoded: Option<Seq<u8>>,
    manifest: Result<ManifestModel<S, E, I, T, H>, ProtocolError>,
    now: CanonicalTime,
)
    ensures
        ({
            let result = engine.executed(
                program,
                histories,
                scope,
                policy_scope,
                key,
                encoded,
                manifest,
                now,
            );
            let known = engine.idempotency.contains_key(key.0);
            let same = engine.idempotency[key.0].0 == sha256_of(encoded->Some_0);
            &&& scope != policy_scope || encoded is None || (known && !same) || (!known && manifest
                is Err) ==> result is Err
            &&& scope == policy_scope && encoded is Some && known && same ==> {
                &&& result is Ok
                &&& result->Ok_0.0.replayed
                &&& result->Ok_0.0.position == engine.idempotency[key.0].1
                &&& result->Ok_0.1 == engine
                &&& result->Ok_0.2 == program
                &&& result->Ok_0.3 == histories
            }
            &&& result is Ok && !known ==> !result->Ok_0.0.replayed && result->Ok_0.0.position
                == engine.next_journal_position
        }),
{
}

spec fn lots_keyed(program: ProgramModel) -> bool {
    forall|id: u128| #[trigger]
        program.records.funding.contains_key(id) ==> program.records.funding[id].source.id.0 == id
}

proof fn lemma_all_forfeited(
    program: ProgramModel,
    sources: Seq<Forfeiture>,
    n: nat,
    now: CanonicalTime,
    k: u128,
    i: int,
)
    requires
        n <= sources.len(),
        lots_keyed(program),
        all_forfeited(program, sources, n, now) is Ok,
    ensures
        ({
            let after = all_forfeited(program, sources, n, now)->Ok_0;
            &&& lots_keyed(after)
            &&& program.records.funding.contains_key(k) ==> after.records.funding.contains_key(k)
                && after.records.funding[k] == program.records.funding[k]
            &&& 0 <= i < n ==> after.records.funding.contains_key(sources[i].id.0)
                && after.records.funding[sources[i].id.0].source == sources[i]
        }),
    decreases n,
{
    if n > 0 {
        lemma_all_forfeited(program, sources, (n - 1) as nat, now, k, i);
        let before = all_forfeited(program, sources, (n - 1) as nat, now)->Ok_0;
        let after = all_forfeited(program, sources, n, now)->Ok_0;
        assert(before.forfeited(sources[n - 1], now) == Ok::<ProgramModel, ProgramError>(after));
        assert(after.records.funding.contains_key(sources[n - 1].id.0));
        assert(after.records.funding[sources[n - 1].id.0].source == sources[n - 1]);
        if 0 <= i < n - 1 && sources[i].id.0 != sources[n - 1].id.0 {
            assert(after.records.funding[sources[i].id.0]
                == before.records.funding[sources[i].id.0]);
        }
    }
}

proof fn lemma_all_held(
    program: ProgramModel,
    holds: Seq<PaymentOperationId>,
    n: nat,
    now: CanonicalTime,
    k: u128,
    j: int,
)
    requires
        n <= holds.len(),
        lots_keyed(program),
        all_held(program, holds, n, now) is Ok,
    ensures
        ({
            let after = all_held(program, holds, n, now)->Ok_0;
            &&& lots_keyed(after)
            &&& program.records.funding.contains_key(k) ==> after.records.funding.contains_key(k)
                && after.records.funding[k].source == program.records.funding[k].source
            &&& 0 <= j < n ==> after.records.funding.contains_key(holds[j].0) && (
            after.records.funding[holds[j].0].lifecycle is Assessed
                || after.records.funding[holds[j].0].lifecycle == LotLifecycle::Pending {
                held: true,
            })
        }),
    decreases n,
{
    if n > 0 {
        lemma_all_held(program, holds, (n - 1) as nat, now, k, j);
        let before = all_held(program, holds, (n - 1) as nat, now)->Ok_0;
        let after = all_held(program, holds, n, now)->Ok_0;
        assert(before.reversal_noted(holds[n - 1], now) == Ok::<ProgramModel, ProgramError>(after));
    }
}

/// What a command forfeits reaches the program, and what it reverses is held: after a new command
/// every forfeiture that the kernel reported is a lot of the program, and every lot that it had held
/// is held, or was assessed before.
pub proof fn forfeitures_reach_the_program<S, E, I, T, H>(
    engine: EngineModel<S, E, I, T>,
    program: ProgramModel,
    histories: Seq<HistoryEntry<H>>,
    key: IdempotencyKey,
    fingerprint: Seq<u8>,
    manifest: ManifestModel<S, E, I, T, H>,
    now: CanonicalTime,
    i: int,
    j: int,
)
    requires
        program.records.sound(),
        engine.committed(program, histories, key, fingerprint, manifest, now) is Ok,
    ensures
        ({
            let after = engine.committed(
                program,
                histories,
                key,
                fingerprint,
                manifest,
                now,
            )->Ok_0.1;
            let source = manifest.forfeitures[i];
            let held = manifest.forfeiture_holds[j];
            &&& 0 <= i < manifest.forfeitures.len() ==> after.records.funding.contains_key(
                source.id.0,
            ) && after.records.funding[source.id.0].source == source
            &&& 0 <= j < manifest.forfeiture_holds.len() ==> after.records.funding.contains_key(
                held.0,
            ) && (after.records.funding[held.0].lifecycle is Assessed
                || after.records.funding[held.0].lifecycle == LotLifecycle::Pending { held: true })
        }),
{
    let n = manifest.forfeitures.len();
    lemma_all_forfeited(program, manifest.forfeitures, n, now, 0, i);
    let next = all_forfeited(program, manifest.forfeitures, n, now)->Ok_0;
    lemma_all_held(
        next,
        manifest.forfeiture_holds,
        manifest.forfeiture_holds.len(),
        now,
        manifest.forfeitures[i].id.0,
        j,
    );
}

} // verus!
