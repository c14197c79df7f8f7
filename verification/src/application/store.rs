//! The relationships of a deployment, over one program per settlement unit.

use super::distribution::{
    outcome_model, program_models, programs_sound, ProgramState, ProgramStateModel,
};
use super::engine::{
    encoded_model, manifest_model, EngineModel, ExecutionOutcome, InMemoryEngine, ManifestModel,
    TransitionManifest,
};
use super::errors::EngineError;
use super::histories::{
    find_history, histories_are_read_as_written, history_at, history_from, with_history,
    HistoryEntry,
};
use crate::crypto::ed25519_accepts_strictly;
use crate::finance::commands::{ProgramOutcome, SignedProgramCommand};
use crate::finance::distribution::AllocationModel;
use crate::finance::program::{empty_program, FinancialProgram, ProgramModel};
use crate::finance::scope::FinancialScope;
use crate::finance::terms::ProgramError;
use crate::ledger::LedgerView;
use crate::maps::{holds, lookup, put, take};
use crate::primitives::amounts::{CanonicalTime, SettlementUnit};
use crate::primitives::ids::IdempotencyKey;
use crate::primitives::references::RequestHistoryRef;
use crate::protocol::{ProtocolError, Relationship, RelationshipKey};
use std::collections::BTreeMap;
use vstd::prelude::*;

verus! {

/// A relationship, the history it shares with others, and its state.
pub struct Registered<S, E, I, T> {
    pub key: RelationshipKey,
    pub history: RequestHistoryRef,
    pub engine: InMemoryEngine<S, E, I, T>,
}

pub ghost struct RegisteredModel<S, E, I, T> {
    pub key: RelationshipKey,
    pub history: RequestHistoryRef,
    pub engine: EngineModel<S, E, I, T>,
}

/// All relationships of a store share principal-recipient histories and the per-unit programs.
pub struct InMemoryStore<S, E, I, T, H> {
    pub scope: FinancialScope,
    pub relationships: Vec<Registered<S, E, I, T>>,
    pub histories: Vec<HistoryEntry<H>>,
    pub programs: BTreeMap<u128, ProgramState>,
}

pub ghost struct StoreModel<S, E, I, T, H> {
    pub scope: FinancialScope,
    pub relationships: Seq<RegisteredModel<S, E, I, T>>,
    pub histories: Seq<HistoryEntry<H>>,
    pub programs: Map<u128, ProgramStateModel>,
}

pub open spec fn registered_models<S, E, I, T>(all: Seq<Registered<S, E, I, T>>) -> Seq<
    RegisteredModel<S, E, I, T>,
> {
    Seq::new(
        all.len(),
        |i: int| RegisteredModel {
            key: all[i].key,
            history: all[i].history,
            engine: all[i].engine@,
        },
    )
}

impl<S, E, I, T, H> View for InMemoryStore<S, E, I, T, H> {
    type V = StoreModel<S, E, I, T, H>;

    open spec fn view(&self) -> StoreModel<S, E, I, T, H> {
        StoreModel {
            scope: self.scope,
            relationships: registered_models(self.relationships@),
            histories: self.histories@,
            programs: program_models(self.programs@),
        }
    }
}

/// Two relationships under one reference, or between the same two.
pub open spec fn duplicates(a: RelationshipKey, b: RelationshipKey) -> bool {
    a.reference == b.reference || (a.sender == b.sender && a.recipient == b.recipient)
}

impl<S, E, I, T, H> StoreModel<S, E, I, T, H> {
    /// The reference or the pair is taken.
    pub open spec fn taken(self, key: RelationshipKey) -> bool {
        exists|i: int|
            0 <= i < self.relationships.len() && duplicates(
                (#[trigger] self.relationships[i]).key,
                key,
            )
    }

    /// Every relationship has a history and a program, and programs are sound.
    pub open spec fn sound(self) -> bool {
        &&& programs_sound(self.programs)
        &&& forall|i: int|
            0 <= i < self.relationships.len() ==> history_at(
                self.histories,
                (#[trigger] self.relationships[i]).history,
            ) is Some && self.programs.contains_key(
                self.relationships[i].engine.ledger.unit.0 as u128,
            )
    }

    /// The history that a relationship reads.
    pub open spec fn history(self, index: int) -> HistoryEntry<H> {
        history_at(self.histories, self.relationships[index].history)->Some_0
    }

    /// What executing a command in a relationship comes to, and the store after it, where the kernel
    /// returns the given manifest if it is asked.
    pub open spec fn executed(
        self,
        index: int,
        policy_scope: FinancialScope,
        key: IdempotencyKey,
        encoded: Option<Seq<u8>>,
        manifest: Result<ManifestModel<S, E, I, T, H>, ProtocolError>,
        now: CanonicalTime,
    ) -> Result<(ExecutionOutcome, Self), EngineError> {
        let held = self.relationships[index];
        let slot = held.engine.ledger.unit.0 as u128;
        match held.engine.executed(
            self.programs[slot].program,
            self.histories,
            self.scope,
            policy_scope,
            key,
            encoded,
            manifest,
            now,
        ) {
            Err(e) => Err(e),
            Ok((outcome, engine, program, histories)) => Ok(
                (
                    outcome,
                    StoreModel {
                        relationships: self.relationships.update(
                            index,
                            RegisteredModel { engine, ..held },
                        ),
                        histories,
                        programs: self.programs.insert(
                            slot,
                            ProgramStateModel { program, ..self.programs[slot] },
                        ),
                        ..self
                    },
                ),
            ),
        }
    }

    /// The history of a relationship belongs to another recipient.
    pub open spec fn foreign_history(self, relationship: Relationship) -> bool {
        history_from(self.histories, relationship.history, 0) matches Some(i)
            && self.histories[i].recipient != relationship.key.recipient
    }

    /// The store with a new relationship. Existing history and programs stay as they are.
    pub open spec fn with(
        self,
        relationship: Relationship,
        projection: S,
        history: H,
        unit: SettlementUnit,
    ) -> Self {
        StoreModel {
            relationships: self.relationships.push(
                RegisteredModel {
                    key: relationship.key,
                    history: relationship.history,
                    engine: EngineModel {
                        revision: 0,
                        projection,
                        ledger: crate::ledger::LedgerModel {
                            revision: 0,
                            unit,
                            balances: Seq::empty(),
                        },
                        journal: Seq::empty(),
                        schedules: Map::empty(),
                        outbox: Seq::empty(),
                        idempotency: Map::empty(),
                        next_journal_position: 1,
                    },
                },
            ),
            histories: if history_from(self.histories, relationship.history, 0) is Some {
                self.histories
            } else {
                self.histories.push(
                    HistoryEntry {
                        reference: relationship.history,
                        recipient: relationship.key.recipient,
                        history,
                    },
                )
            },
            programs: if self.programs.contains_key(unit.0 as u128) {
                self.programs
            } else {
                self.programs.insert(
                    unit.0 as u128,
                    ProgramStateModel {
                        program: empty_program(self.scope, unit),
                        financial_commands: Map::empty(),
                    },
                )
            },
            ..self
        }
    }
}

impl<S, E, I, T, H> InMemoryStore<S, E, I, T, H> {
    /// A store with no relationships.
    pub fn new(scope: FinancialScope) -> (store: Self)
        ensures
            store@ == (StoreModel::<S, E, I, T, H> {
                scope,
                relationships: Seq::empty(),
                histories: Seq::empty(),
                programs: Map::empty(),
            }),
            store@.sound(),
    {
        let store = InMemoryStore {
            scope,
            relationships: Vec::new(),
            histories: Vec::new(),
            programs: BTreeMap::new(),
        };
        assert(store@.relationships =~= Seq::empty());
        assert(store@.programs =~= Map::empty());
        store
    }

    fn is_taken(&self, key: &RelationshipKey) -> (taken: bool)
        ensures
            taken == self@.taken(*key),
    {
        let mut i: usize = 0;
        while i < self.relationships.len()
            invariant
                0 <= i <= self.relationships@.len(),
                forall|j: int|
                    0 <= j < i ==> !duplicates((#[trigger] self@.relationships[j]).key, *key),
            decreases self.relationships@.len() - i,
        {
            let held = &self.relationships[i].key;
            if held.reference.same(&key.reference) || (held.sender == key.sender && held.recipient
                == key.recipient) {
                assert(duplicates(self@.relationships[i as int].key, *key));
                return true;
            }
            i += 1;
        }
        false
    }

    /// Registers a relationship without replacing existing history or program data; where it
    /// stands in the store. `history` is the empty history that the kernel starts for the
    /// relationship, which is kept only where there is none yet. Duplicate relationships and another
    /// recipient's history are refused.
    pub fn register(
        &mut self,
        relationship: Relationship,
        projection: S,
        history: H,
        unit: SettlementUnit,
    ) -> (result: Result<usize, EngineError>)
        ensures
            if old(self)@.taken(relationship.key) || old(self)@.foreign_history(relationship) {
                result == Err::<usize, EngineError>(EngineError::DuplicateConflict) && final(self)@
                    == old(self)@
            } else {
                result == Ok::<usize, EngineError>(old(self).relationships@.len() as usize)
                    && final(self)@ == old(self)@.with(relationship, projection, history, unit)
            },
            old(self)@.sound() ==> final(self)@.sound(),
            programs_sound(old(self)@.programs) ==> programs_sound(final(self)@.programs),
    {
        let ghost before = self@;
        if self.is_taken(&relationship.key) {
            return Err(EngineError::DuplicateConflict);
        }
        let known = find_history(&self.histories, &relationship.history);
        match known {
            Some(i) => {
                if self.histories[i].recipient != relationship.key.recipient {
                    return Err(EngineError::DuplicateConflict);
                }
            },
            None => {
                self.histories.push(
                    HistoryEntry {
                        reference: relationship.history,
                        recipient: relationship.key.recipient,
                        history,
                    },
                );
            },
        }
        let slot: u128 = unit.0 as u128;
        if !holds(&self.programs, slot) {
            let state = ProgramState {
                program: FinancialProgram::new(self.scope, unit),
                financial_commands: BTreeMap::new(),
            };
            assert(state@.financial_commands =~= Map::empty());
            put(&mut self.programs, slot, state);
            assert(program_models(self.programs@) =~= before.programs.insert(slot, state@));
        }
        let ghost held = self.relationships@;
        let index: usize = self.relationships.len();
        let entry = Registered {
            key: relationship.key,
            history: relationship.history,
            engine: InMemoryEngine::new(projection, unit),
        };
        self.relationships.push(entry);
        proof {
            let added = RegisteredModel {
                key: entry.key,
                history: entry.history,
                engine: entry.engine@,
            };
            assert(registered_models(self.relationships@) =~= registered_models(held).push(added));
            if before.sound() {
                lemma_registered_sound(before, relationship, projection, history, unit);
            }
        }
        Ok(index)
    }
}

/// What a financial command comes to, and the program's state after it; or why it is refused.
pub open spec fn financially_commanded(
    state: ProgramStateModel,
    signed: SignedProgramCommand,
    key: [u8; 32],
    now: CanonicalTime,
) -> Result<(Option<AllocationModel>, ProgramStateModel), EngineError> {
    let prior = signed.idempotency_key.0;
    if !ed25519_accepts_strictly(key@, signed.statement(), signed.signature@) {
        Err(EngineError::Finance(ProgramError::InvalidPayment))
    } else if state.financial_commands.contains_key(prior) {
        if state.financial_commands[prior].0.alike(&signed) {
            Ok((state.financial_commands[prior].1, state))
        } else {
            Err(EngineError::DuplicateConflict)
        }
    } else if signed.scope != state.program.scope || signed.unit != state.program.unit
        || signed.expected_revision != state.program.revision {
        Err(EngineError::VersionConflict)
    } else {
        match state.program.commanded(signed.command, now) {
            Err(e) => Err(EngineError::Finance(e)),
            Ok((program, allocation)) => Ok(
                (
                    allocation,
                    ProgramStateModel {
                        program,
                        financial_commands: state.financial_commands.insert(
                            prior,
                            (signed, allocation),
                        ),
                    },
                ),
            ),
        }
    }
}

impl ProgramState {
    /// Executes a signed command of the program's administration, whose key is given. Bad
    /// signatures, stale revisions, conflicting replay, and invalid program transitions are
    /// refused; an exact retry is answered as before.
    pub fn execute_financial_command(
        &mut self,
        signed: SignedProgramCommand,
        key: &[u8; 32],
        now: CanonicalTime,
    ) -> (result: Result<ProgramOutcome, EngineError>)
        requires
            old(self)@.program.records.sound(),
        ensures
            final(self)@.program.records.sound(),
            match financially_commanded(old(self)@, signed, *key, now) {
                Err(e) => result == Err::<ProgramOutcome, EngineError>(e) && final(self)@ == old(
                    self)@,
                Ok((allocation, next)) => result matches Ok(outcome) && outcome_model(outcome)
                    == allocation && final(self)@ == next,
            },
    {
        let ghost before = self@;
        match signed.verify(key) {
            Ok(()) => {},
            Err(e) => return Err(EngineError::Finance(e)),
        }
        match lookup(&self.financial_commands, signed.idempotency_key.0) {
            Some(entry) => {
                assert(before.financial_commands[signed.idempotency_key.0] == (
                    entry.0,
                    outcome_model(entry.1),
                ));
                return if entry.0.same(&signed) {
                    Ok(entry.1.clone())
                } else {
                    Err(EngineError::DuplicateConflict)
                };
            },
            None => {},
        }
        if !signed.scope.same(&self.program.scope) || signed.unit != self.program.unit
            || signed.expected_revision != self.program.revision {
            return Err(EngineError::VersionConflict);
        }
        let outcome = match self.program.apply(&signed.command, now) {
            Ok(outcome) => outcome,
            Err(e) => return Err(EngineError::Finance(e)),
        };
        let copy = outcome.clone();
        let prior: u128 = signed.idempotency_key.0;
        put(&mut self.financial_commands, prior, (signed, copy));
        assert(self@.financial_commands =~= before.financial_commands.insert(
            prior,
            (signed, outcome_model(outcome)),
        ));
        Ok(outcome)
    }
}

impl<S, E, I, T, H> InMemoryStore<S, E, I, T, H> {
    /// Executes a signed command of the administration of a unit's program. A unit without a
    /// program is refused.
    pub fn execute_financial_command(
        &mut self,
        unit: SettlementUnit,
        signed: SignedProgramCommand,
        key: &[u8; 32],
        now: CanonicalTime,
    ) -> (result: Result<ProgramOutcome, EngineError>)
        requires
            programs_sound(old(self)@.programs),
        ensures
            programs_sound(final(self)@.programs),
            old(self)@.sound() ==> final(self)@.sound(),
            ({
                let slot = unit.0 as u128;
                if !ed25519_accepts_strictly(key@, signed.statement(), signed.signature@) {
                    result == Err::<ProgramOutcome, EngineError>(
                        EngineError::Finance(ProgramError::InvalidPayment),
                    ) && final(self)@ == old(self)@
                } else if !old(self)@.programs.contains_key(slot) {
                    result == Err::<ProgramOutcome, EngineError>(EngineError::VersionConflict)
                        && final(self)@ == old(self)@
                } else {
                    match financially_commanded(old(self)@.programs[slot], signed, *key, now) {
                        Err(e) => result == Err::<ProgramOutcome, EngineError>(e) && final(self)@
                            == old(self)@,
                        Ok((allocation, next)) => result matches Ok(outcome) && outcome_model(
                            outcome,
                        ) == allocation && final(self)@ == (StoreModel {
                            programs: old(self)@.programs.insert(slot, next),
                            ..old(self)@
                        }),
                    }
                }
            }),
    {
        let ghost before = self@;
        match signed.verify(key) {
            Ok(()) => {},
            Err(e) => return Err(EngineError::Finance(e)),
        }
        let slot: u128 = unit.0 as u128;
        match take(&mut self.programs, slot) {
            Some(mut state) => {
                assert(before.programs.contains_key(slot) && before.programs[slot] == state@);
                let result = state.execute_financial_command(signed, key, now);
                put(&mut self.programs, slot, state);
                assert(self@.programs =~= before.programs.insert(slot, state@));
                assert(result is Err ==> self@.programs =~= before.programs);
                proof {
                    if before.sound() {
                        assert forall|i: int| 0 <= i < self@.relationships.len() implies history_at(
                            self@.histories,
                            (#[trigger] self@.relationships[i]).history,
                        ) is Some && self@.programs.contains_key(
                            self@.relationships[i].engine.ledger.unit.0 as u128,
                        ) by {
                            assert(self@.relationships[i] == before.relationships[i]);
                        }
                    }
                }
                result
            },
            None => {
                assert(self@.programs =~= before.programs);
                Err(EngineError::VersionConflict)
            },
        }
    }
}

/// Registering never takes away: relationships, histories and programs that are there stay.
pub proof fn registration_replaces_nothing<S, E, I, T, H>(
    store: StoreModel<S, E, I, T, H>,
    relationship: Relationship,
    projection: S,
    history: H,
    unit: SettlementUnit,
)
    ensures
        ({
            let after = store.with(relationship, projection, history, unit);
            &&& store.relationships.is_prefix_of(after.relationships)
            &&& store.histories.is_prefix_of(after.histories)
            &&& forall|slot: u128| #[trigger]
                store.programs.contains_key(slot) ==> after.programs.contains_key(slot)
                    && after.programs[slot] == store.programs[slot]
            &&& after.programs.contains_key(unit.0 as u128)
        }),
{
    let after = store.with(relationship, projection, history, unit);
    assert(after.relationships.take(store.relationships.len() as int) =~= store.relationships);
    assert(after.histories.take(store.histories.len() as int) =~= store.histories);
}

/// A financial command counts once: an exact retry is answered as before and changes nothing.
pub proof fn financial_commands_count_once(
    state: ProgramStateModel,
    signed: SignedProgramCommand,
    key: [u8; 32],
    now: CanonicalTime,
    later: CanonicalTime,
)
    requires
        financially_commanded(state, signed, key, now) is Ok,
    ensures
        ({
            let (allocation, next) = financially_commanded(state, signed, key, now)->Ok_0;
            financially_commanded(next, signed, key, later) == Ok::<
                (Option<AllocationModel>, ProgramStateModel),
                EngineError,
            >((allocation, next))
        }),
{
}

proof fn lemma_registered_sound<S, E, I, T, H>(
    store: StoreModel<S, E, I, T, H>,
    relationship: Relationship,
    projection: S,
    history: H,
    unit: SettlementUnit,
)
    requires
        store.sound(),
    ensures
        store.with(relationship, projection, history, unit).sound(),
{
    let after = store.with(relationship, projection, history, unit);
    let entry = HistoryEntry {
        reference: relationship.history,
        recipient: relationship.key.recipient,
        history,
    };
    assert forall|i: int| 0 <= i < after.relationships.len() implies history_at(
        after.histories,
        (#[trigger] after.relationships[i]).history,
    ) is Some && after.programs.contains_key(
        after.relationships[i].engine.ledger.unit.0 as u128,
    ) by {
        if i < store.relationships.len() {
            assert(after.relationships[i] == store.relationships[i]);
        }
        if history_from(store.histories, relationship.history, 0) is None {
            histories_are_read_as_written(store.histories, entry, after.relationships[i].history);
        }
    }
}

proof fn lemma_executed_sound<S, E, I, T, H>(
    store: StoreModel<S, E, I, T, H>,
    index: int,
    policy_scope: FinancialScope,
    key: IdempotencyKey,
    encoded: Option<Seq<u8>>,
    manifest: Result<ManifestModel<S, E, I, T, H>, ProtocolError>,
    now: CanonicalTime,
)
    requires
        store.sound(),
        0 <= index < store.relationships.len(),
        store.executed(index, policy_scope, key, encoded, manifest, now) is Ok,
        store.executed(index, policy_scope, key, encoded, manifest, now)->Ok_0.1.programs[
            store.relationships[index].engine.ledger.unit.0 as u128].program.records.sound(),
    ensures
        store.executed(index, policy_scope, key, encoded, manifest, now)->Ok_0.1.sound(),
{
    let (outcome, after) = store.executed(index, policy_scope, key, encoded, manifest, now)->Ok_0;
    assert forall|i: int| 0 <= i < after.relationships.len() implies history_at(
        after.histories,
        (#[trigger] after.relationships[i]).history,
    ) is Some && after.programs.contains_key(
        after.relationships[i].engine.ledger.unit.0 as u128,
    ) by {
        assert(after.relationships[i].history == store.relationships[i].history);
        if !outcome.replayed {
            histories_are_read_as_written(
                store.histories,
                manifest->Ok_0.next_history,
                store.relationships[i].history,
            );
        }
    }
}

/// One store is another after a registration, or after a command that was executed or answered
/// again in one of its relationships.
pub open spec fn follows<S, E, I, T, H>(
    a: StoreModel<S, E, I, T, H>,
    b: StoreModel<S, E, I, T, H>,
) -> bool {
    ||| exists|relationship: Relationship, projection: S, history: H, unit: SettlementUnit|
        b == #[trigger] a.with(relationship, projection, history, unit)
    ||| exists|
        index: int,
        policy_scope: FinancialScope,
        key: IdempotencyKey,
        encoded: Option<Seq<u8>>,
        manifest: Result<ManifestModel<S, E, I, T, H>, ProtocolError>,
        now: CanonicalTime,
    |
        0 <= index < a.relationships.len() && (#[trigger] a.executed(
            index,
            policy_scope,
            key,
            encoded,
            manifest,
            now,
        ) matches Ok((_, next)) && next == b)
}

/// Relationships have the history of their registration, and some history under it.
pub open spec fn histories_kept<S, E, I, T, H>(store: StoreModel<S, E, I, T, H>) -> bool {
    forall|i: int|
        0 <= i < store.relationships.len() ==> history_at(
            store.histories,
            (#[trigger] store.relationships[i]).history,
        ) is Some
}

proof fn lemma_kept<S, E, I, T, H>(a: StoreModel<S, E, I, T, H>, b: StoreModel<S, E, I, T, H>)
    requires
        histories_kept(a),
        follows(a, b),
    ensures
        histories_kept(b),
        b.relationships.len() >= a.relationships.len(),
        forall|i: int|
            0 <= i < a.relationships.len() ==> (#[trigger] b.relationships[i]).history
                == a.relationships[i].history,
{
    if exists|relationship: Relationship, projection: S, history: H, unit: SettlementUnit|
        b == #[trigger] a.with(relationship, projection, history, unit) {
        let (relationship, projection, history, unit) = choose|
            relationship: Relationship,
            projection: S,
            history: H,
            unit: SettlementUnit,
        |
            b == #[trigger] a.with(relationship, projection, history, unit);
        let entry = HistoryEntry {
            reference: relationship.history,
            recipient: relationship.key.recipient,
            history,
        };
        assert forall|i: int| 0 <= i < b.relationships.len() implies history_at(
            b.histories,
            (#[trigger] b.relationships[i]).history,
        ) is Some by {
            if i < a.relationships.len() {
                assert(b.relationships[i] == a.relationships[i]);
            }
            if history_from(a.histories, relationship.history, 0) is None {
                histories_are_read_as_written(a.histories, entry, b.relationships[i].history);
            }
        }
    } else {
        let (index, policy_scope, key, encoded, manifest, now) = choose|
            index: int,
            policy_scope: FinancialScope,
            key: IdempotencyKey,
            encoded: Option<Seq<u8>>,
            manifest: Result<ManifestModel<S, E, I, T, H>, ProtocolError>,
            now: CanonicalTime,
        |
            0 <= index < a.relationships.len() && (#[trigger] a.executed(
                index,
                policy_scope,
                key,
                encoded,
                manifest,
                now,
            ) matches Ok((_, next)) && next == b);
        let outcome = a.executed(index, policy_scope, key, encoded, manifest, now)->Ok_0.0;
        assert forall|i: int| 0 <= i < b.relationships.len() implies history_at(
            b.histories,
            (#[trigger] b.relationships[i]).history,
        ) is Some by {
            assert(b.relationships[i].history == a.relationships[i].history);
            if !outcome.replayed {
                histories_are_read_as_written(
                    a.histories,
                    manifest->Ok_0.next_history,
                    a.relationships[i].history,
                );
            }
        }
    }
}

proof fn lemma_kept_throughout<S, E, I, T, H>(states: Seq<StoreModel<S, E, I, T, H>>, n: nat)
    requires
        n < states.len(),
        states[0].relationships.len() == 0,
        forall|k: int| 0 <= k < states.len() - 1 ==> follows(#[trigger] states[k], states[k + 1]),
    ensures
        histories_kept(states[n as int]),
    decreases n,
{
    if n > 0 {
        lemma_kept_throughout(states, (n - 1) as nat);
        assert(follows(states[n - 1], states[n - 1 + 1]));
        lemma_kept(states[n - 1], states[n as int]);
    }
}

/// Relationships share their histories: in every state that registrations and executed commands
/// reach from an empty store, each relationship has a history to read, and two relationships that
/// were registered with one history read the same.
pub proof fn histories_are_shared<S, E, I, T, H>(
    states: Seq<StoreModel<S, E, I, T, H>>,
    n: int,
    i: int,
    j: int,
)
    requires
        states[0].relationships.len() == 0,
        forall|k: int| 0 <= k < states.len() - 1 ==> follows(#[trigger] states[k], states[k + 1]),
        0 <= n < states.len(),
        0 <= i < states[n].relationships.len(),
        0 <= j < states[n].relationships.len(),
    ensures
        history_at(states[n].histories, states[n].relationships[i].history) is Some,
        states[n].relationships[i].history == states[n].relationships[j].history ==> states[n].history(
            i,
        ) == states[n].history(j),
        n + 1 < states.len() ==> states[n + 1].relationships[i].history
            == states[n].relationships[i].history,
{
    lemma_kept_throughout(states, n as nat);
    assert(histories_kept(states[n]));
    if n + 1 < states.len() {
        assert(follows(states[n], states[n + 1]));
        lemma_kept(states[n], states[n + 1]);
        assert(states[n + 1].relationships[i].history == states[n].relationships[i].history);
    }
}

/// What one relationship commits, all that share its history read: after a new command, the
/// relationships whose history the kernel wrote read what it wrote, and all others read what they
/// read before. A command that was executed before changes nothing.
pub proof fn commits_reach_every_sharer<S, E, I, T, H>(
    store: StoreModel<S, E, I, T, H>,
    index: int,
    policy_scope: FinancialScope,
    key: IdempotencyKey,
    encoded: Option<Seq<u8>>,
    manifest: Result<ManifestModel<S, E, I, T, H>, ProtocolError>,
    now: CanonicalTime,
    j: int,
)
    requires
        store.sound(),
        0 <= index < store.relationships.len(),
        0 <= j < store.relationships.len(),
        store.executed(index, policy_scope, key, encoded, manifest, now) is Ok,
    ensures
        ({
            let (outcome, after) = store.executed(
                index,
                policy_scope,
                key,
                encoded,
                manifest,
                now,
            )->Ok_0;
            let written = manifest->Ok_0.next_history;
            &&& outcome.replayed ==> after == store
            &&& !outcome.replayed ==> after.history(j) == (if store.relationships[j].history
                == written.reference {
                written
            } else {
                store.history(j)
            })
        }),
{
    let (outcome, after) = store.executed(index, policy_scope, key, encoded, manifest, now)->Ok_0;
    let slot = store.relationships[index].engine.ledger.unit.0 as u128;
    assert(after.relationships[j].history == store.relationships[j].history);
    if outcome.replayed {
        assert(store.relationships[index].history == store.relationships[index].history);
        assert(store.programs.contains_key(slot));
        assert(after.relationships =~= store.relationships);
        assert(after.programs =~= store.programs);
    } else {
        histories_are_read_as_written(
            store.histories,
            manifest->Ok_0.next_history,
            store.relationships[j].history,
        );
    }
}

/// A complete point-in-time view of a relationship, as the kernel reads it.
pub struct Snapshot<'a, S, H> {
    pub revision: u64,
    pub projection: &'a S,
    pub history: &'a HistoryEntry<H>,
    pub ledger: LedgerView,
}

impl<S, E, I, T, H> InMemoryStore<S, E, I, T, H> {
    /// What the kernel reads of a relationship.
    pub fn snapshot(&self, index: usize) -> (snapshot: Snapshot<'_, S, H>)
        requires
            self@.sound(),
            index < self@.relationships.len(),
        ensures
            ({
                let engine = self@.relationships[index as int].engine;
                &&& snapshot.revision == engine.revision
                &&& *snapshot.projection == engine.projection
                &&& *snapshot.history == self@.history(index as int)
                &&& snapshot.ledger@ == engine.ledger
            }),
    {
        let history = self.history(index);
        let engine = &self.relationships[index].engine;
        assert(self@.relationships[index as int].engine == engine@);
        Snapshot {
            revision: engine.revision,
            projection: &engine.projection,
            history,
            ledger: engine.ledger.view(),
        }
    }

    /// The history that a relationship reads.
    pub fn history(&self, index: usize) -> (entry: &HistoryEntry<H>)
        requires
            self@.sound(),
            index < self@.relationships.len(),
        ensures
            *entry == self@.history(index as int),
            history_at(self@.histories, self@.relationships[index as int].history) == Some(*entry),
    {
        assert(self@.relationships[index as int].history == self.relationships@[index as int].history);
        let mut at: usize = 0;
        match find_history(&self.histories, &self.relationships[index].history) {
            Some(i) => {
                at = i;
            },
            None => {},
        }
        &self.histories[at]
    }

    /// Executes one command in a relationship against the kernel's manifest for it: a replay finds
    /// the earlier execution, and anything new is committed whole, with the history that the
    /// relationship shares, or refused.
    pub fn execute(
        &mut self,
        index: usize,
        policy_scope: FinancialScope,
        key: IdempotencyKey,
        encoded: &Option<Vec<u8>>,
        manifest: Result<TransitionManifest<S, E, I, T, H>, ProtocolError>,
        now: CanonicalTime,
    ) -> (result: Result<ExecutionOutcome, EngineError>)
        requires
            old(self)@.sound(),
            index < old(self)@.relationships.len(),
        ensures
            final(self)@.sound(),
            match old(self)@.executed(
                index as int,
                policy_scope,
                key,
                encoded_model(*encoded),
                manifest_model(manifest),
                now,
            ) {
                Err(e) => result == Err::<ExecutionOutcome, EngineError>(e) && final(self)@
                    == old(self)@,
                Ok((outcome, next)) => result == Ok::<ExecutionOutcome, EngineError>(outcome)
                    && final(self)@ == next,
            },
            result matches Ok(outcome) ==> final(self)@.histories == (if outcome.replayed {
                old(self)@.histories
            } else {
                with_history(old(self)@.histories, manifest->Ok_0.next_history)
            }),
    {
        let ghost before = self@;
        let mut entry = self.relationships.remove(index);
        let slot: u128 = entry.engine.ledger.view().unit.0 as u128;
        assert(before.relationships[index as int].engine == entry.engine@);
        match take(&mut self.programs, slot) {
            Some(mut state) => {
                assert(before.programs[slot] == state@);
                let ghost asked = manifest_model(manifest);
                let result = entry.engine.execute(
                    &mut state.program,
                    &mut self.histories,
                    self.scope,
                    policy_scope,
                    key,
                    encoded,
                    manifest,
                    now,
                );
                put(&mut self.programs, slot, state);
                self.relationships.insert(index, entry);
                proof {
                    let changed = RegisteredModel {
                        engine: entry.engine@,
                        ..before.relationships[index as int]
                    };
                    assert(self@.relationships =~= before.relationships.update(
                        index as int,
                        changed,
                    ));
                    assert(self@.programs =~= before.programs.insert(slot, state@));
                    if result is Err {
                        assert(self@.relationships =~= before.relationships);
                        assert(self@.programs =~= before.programs);
                    } else {
                        lemma_executed_sound(
                            before,
                            index as int,
                            policy_scope,
                            key,
                            encoded_model(*encoded),
                            asked,
                            now,
                        );
                    }
                }
                result
            },
            None => {
                self.relationships.insert(index, entry);
                Err(EngineError::VersionConflict)
            },
        }
    }
}

/// What happens in one relationship stays there: a command leaves every other relationship as it was,
/// and every program but that of the relationship's unit.
pub proof fn commands_stay_in_their_relationship<S, E, I, T, H>(
    store: StoreModel<S, E, I, T, H>,
    index: int,
    policy_scope: FinancialScope,
    key: IdempotencyKey,
    encoded: Option<Seq<u8>>,
    manifest: Result<ManifestModel<S, E, I, T, H>, ProtocolError>,
    now: CanonicalTime,
    other: int,
    unit: u128,
)
    requires
        0 <= index < store.relationships.len(),
        0 <= other < store.relationships.len(),
        store.executed(index, policy_scope, key, encoded, manifest, now) is Ok,
    ensures
        ({
            let next = store.executed(index, policy_scope, key, encoded, manifest, now)->Ok_0.1;
            &&& next.scope == store.scope
            &&& next.relationships.len() == store.relationships.len()
            &&& next.relationships[other].key == store.relationships[other].key
            &&& next.relationships[other].history == store.relationships[other].history
            &&& other != index ==> next.relationships[other] == store.relationships[other]
            &&& unit != store.relationships[index].engine.ledger.unit.0 ==> (
            next.programs.contains_key(unit) <==> store.programs.contains_key(unit))
                && next.programs[unit] == store.programs[unit]
            &&& policy_scope == store.scope
        }),
{
}

/// A relationship can be registered exactly if no other has its reference, no other is between the
/// same two in the same direction, and its history, if there is one, is its recipient's.
pub proof fn relationships_are_registered_once<S, E, I, T, H>(
    store: StoreModel<S, E, I, T, H>,
    relationship: Relationship,
    i: int,
)
    requires
        !store.taken(relationship.key),
        0 <= i < store.relationships.len(),
    ensures
        store.relationships[i].key.reference != relationship.key.reference,
        store.relationships[i].key.sender != relationship.key.sender
            || store.relationships[i].key.recipient != relationship.key.recipient,
{
    assert(!duplicates(store.relationships[i].key, relationship.key));
}

/// A new relationship starts with nothing: no events, no money, no schedule and no commands.
pub proof fn relationships_start_empty<S, E, I, T, H>(
    store: StoreModel<S, E, I, T, H>,
    relationship: Relationship,
    projection: S,
    history: H,
    unit: SettlementUnit,
)
    ensures
        ({
            let next = store.with(relationship, projection, history, unit);
            let held = next.relationships.last();
            &&& next.relationships.len() == store.relationships.len() + 1
            &&& held.key == relationship.key
            &&& held.history == relationship.history
            &&& held.engine.projection == projection
            &&& held.engine.revision == 0
            &&& held.engine.ledger.unit == unit
            &&& held.engine.ledger.balances.len() == 0
            &&& held.engine.journal.len() == 0
            &&& held.engine.outbox.len() == 0
            &&& held.engine.next_journal_position == 1
            &&& forall|k: (u8, u128)| !(#[trigger] held.engine.schedules.contains_key(k))
            &&& forall|k: u128| !(#[trigger] held.engine.idempotency.contains_key(k))
        }),
{
}

/// A command of the administration takes effect only under its strict signature, in the program's
/// scope and unit and at its revision, and is on record with its answer from then on; an exact retry
/// is answered as before; and another command under its key is refused.
pub proof fn administration_is_signed_and_current(
    state: ProgramStateModel,
    signed: SignedProgramCommand,
    key: [u8; 32],
    now: CanonicalTime,
    k: u128,
)
    ensures
        ({
            let result = financially_commanded(state, signed, key, now);
            let (answer, next) = result->Ok_0;
            let id = signed.idempotency_key.0;
            let known = state.financial_commands.contains_key(id);
            let authentic = ed25519_accepts_strictly(key@, signed.statement(), signed.signature@);
            &&& !authentic ==> result is Err
            &&& known && !state.financial_commands[id].0.alike(&signed) ==> result is Err
            &&& authentic && known && state.financial_commands[id].0.alike(&signed) ==> result
                == Ok::<(Option<AllocationModel>, ProgramStateModel), EngineError>(
                (state.financial_commands[id].1, state),
            )
            &&& result is Ok && !known ==> {
                &&& signed.scope == state.program.scope
                &&& signed.unit == state.program.unit
                &&& signed.expected_revision == state.program.revision
                &&& state.program.commanded(signed.command, now) == Ok::<
                    (ProgramModel, Option<AllocationModel>),
                    ProgramError,
                >((next.program, answer))
                &&& next.financial_commands.contains_key(id)
                &&& next.financial_commands[id] == (signed, answer)
                &&& k != id ==> (next.financial_commands.contains_key(k)
                    <==> state.financial_commands.contains_key(k)) && next.financial_commands[k]
                    == state.financial_commands[k]
            }
            &&& authentic && !known && (signed.scope != state.program.scope || signed.unit
                != state.program.unit || signed.expected_revision != state.program.revision)
                ==> result == Err::<(Option<AllocationModel>, ProgramStateModel), EngineError>(
                EngineError::VersionConflict,
            )
        }),
{
}

/// A history is shared only among the relationships of one recipient: where it is on record under a
/// reference, a relationship with that reference has the history's recipient.
pub proof fn histories_are_their_recipients<S, E, I, T, H>(
    store: StoreModel<S, E, I, T, H>,
    relationship: Relationship,
    i: int,
)
    requires
        !store.foreign_history(relationship),
        0 <= i < store.histories.len(),
        store.histories[i].reference == relationship.history,
        forall|j: int|
            0 <= j < store.histories.len() && j != i ==> (#[trigger] store.histories[j]).reference
                != relationship.history,
    ensures
        store.histories[i].recipient == relationship.key.recipient,
{
    super::histories::lemma_history_from(store.histories, relationship.history, 0);
}

} // verus!
