//! Which sources a message draws on, directly and through others, and whether they may be reused.

use super::correspondence::{owned, Context, ContextModel};
use crate::correspondence::document::{source_models, ManifestModel, MessageManifest, SourceModel};
use crate::correspondence::policy::{
    Conversation, CorrespondenceError, CorrespondenceRef, ReusePolicy,
};
use crate::correspondence::selection::{SelectionElement, SelectionModel};
use crate::maps::{add_member, count_members, is_member, lookup, put};
use crate::primitives::ids::ProtocolIdentity;
use std::collections::{BTreeMap, BTreeSet};
use vstd::prelude::*;

verus! {

/// The most messages that a message may draw on, directly or through others.
pub const MAX_SOURCE_GRAPH: usize = 1024;

/// The numbers of the messages that a manifest draws on, in its order.
pub open spec fn drawn_numbers(sources: Seq<SourceModel>) -> Seq<u128> {
    Seq::new(sources.len(), |i: int| sources[i].selection().message.0)
}

impl ContextModel {
    /// What is wrong with a selection, if anything: its message is unknown, or the reader, where
    /// one is given, takes no part in its conversation, or it does not fit its message.
    pub open spec fn source_fault(
        self,
        source: SelectionModel,
        reader: Option<ProtocolIdentity>,
    ) -> Option<CorrespondenceError> {
        if !self.messages.contains_key(source.message.0) {
            Some(CorrespondenceError::PolicyUnresolved)
        } else {
            let manifest = self.messages[source.message.0].manifest;
            if reader matches Some(actor) && self.owned(manifest.conversation, actor) is None {
                Some(CorrespondenceError::Unauthorized)
            } else if !source.targets(manifest.message, manifest.version, manifest.blocks) {
                Some(CorrespondenceError::Invalid)
            } else {
                None
            }
        }
    }

    /// The fault of the first faulty one among the first `n` sources.
    pub open spec fn first_fault(
        self,
        sources: Seq<SourceModel>,
        n: nat,
        reader: Option<ProtocolIdentity>,
    ) -> Option<CorrespondenceError>
        decreases n,
    {
        if n == 0 {
            None
        } else {
            match self.first_fault(sources, (n - 1) as nat, reader) {
                Some(e) => Some(e),
                None => self.source_fault(sources[n - 1].selection(), reader),
            }
        }
    }

    /// Why a message may not be drawn on towards a destination, if it may not.
    pub open spec fn drawing_fault(self, id: u128, destination: CorrespondenceRef) -> Option<
        CorrespondenceError,
    > {
        if !self.messages.contains_key(id) {
            Some(CorrespondenceError::PolicyUnresolved)
        } else {
            let manifest = self.messages[id].manifest;
            if !self.conversations.contains_key(manifest.conversation.0) {
                Some(CorrespondenceError::PolicyUnresolved)
            } else if !self.conversations[manifest.conversation.0].permitted(destination) {
                Some(CorrespondenceError::PolicyRestricted)
            } else {
                self.first_fault(manifest.sources, manifest.sources.len(), None)
            }
        }
    }

    /// The conversation of a known message.
    pub open spec fn conversation_of(self, id: u128) -> Conversation {
        self.conversations[self.messages[id].manifest.conversation.0]
    }

    /// The numbers of the messages that a known message draws on.
    pub open spec fn drawn_by(self, id: u128) -> Seq<u128> {
        drawn_numbers(self.messages[id].manifest.sources)
    }

    /// Visits the pending messages and all that they draw on, the last pending one first, and
    /// notes the revision of each conversation that is met. The first fault ends the walk, and so
    /// do too many messages.
    pub open spec fn walk(
        self,
        destination: CorrespondenceRef,
        pending: Seq<u128>,
        visited: Set<u128>,
        observed: Map<u128, u64>,
    ) -> Result<(Set<u128>, Map<u128, u64>), CorrespondenceError>
        decreases MAX_SOURCE_GRAPH + 1 - visited.len(), pending.len(),
        when visited.finite()
    {
        if pending.len() == 0 {
            Ok((visited, observed))
        } else {
            let id = pending.last();
            let rest = pending.drop_last();
            if visited.contains(id) {
                self.walk(destination, rest, visited, observed)
            } else if visited.len() >= MAX_SOURCE_GRAPH {
                Err(CorrespondenceError::Invalid)
            } else {
                match self.drawing_fault(id, destination) {
                    Some(e) => Err(e),
                    None => {
                        let met = self.conversation_of(id);
                        self.walk(
                            destination,
                            rest + self.drawn_by(id),
                            visited.insert(id),
                            observed.insert(met.id.0, met.revision),
                        )
                    },
                }
            }
        }
    }

    /// The policy revisions under which a message may be sent, its own conversation's included, or
    /// why it may not.
    pub open spec fn policies(self, manifest: ManifestModel, actor: ProtocolIdentity) -> Result<
        Map<u128, u64>,
        CorrespondenceError,
    > {
        match self.owned(manifest.conversation, actor) {
            None => Err(CorrespondenceError::Unauthorized),
            Some(destination) => match self.first_fault(
                manifest.sources,
                manifest.sources.len(),
                Some(actor),
            ) {
                Some(e) => Err(e),
                None => match self.walk(
                    destination.scope,
                    drawn_numbers(manifest.sources),
                    Set::empty(),
                    Map::empty(),
                ) {
                    Err(e) => Err(e),
                    Ok((_, observed)) => Ok(
                        observed.insert(destination.id.0, destination.revision),
                    ),
                },
            },
        }
    }
}

/// Checks the sources of a manifest in order and queues their messages.
fn queue_sources(
    context: &Context,
    manifest: &MessageManifest,
    reader: Option<ProtocolIdentity>,
    pending: &mut Vec<u128>,
) -> (result: Result<(), CorrespondenceError>)
    ensures
        match context@.first_fault(manifest@.sources, manifest@.sources.len(), reader) {
            Some(e) => result == Err::<(), CorrespondenceError>(e),
            None => result is Ok && final(pending)@ == old(pending)@ + drawn_numbers(
                manifest@.sources,
            ),
        },
{
    let sources = manifest.sources();
    let ghost models = manifest@.sources;
    let ghost before = pending@;
    let ghost all = drawn_numbers(models);
    let mut i: usize = 0;
    assert(pending@ =~= before + all.take(0));
    while i < sources.len()
        invariant
            models == manifest@.sources,
            source_models(sources@) == models,
            all == drawn_numbers(models),
            0 <= i <= sources@.len(),
            context@.first_fault(models, i as nat, reader) is None,
            pending@ == before + all.take(i as int),
        decreases sources@.len() - i,
    {
        let selection = sources[i].selection();
        assert(models[i as int] == sources@[i as int]@);
        proof {
            lemma_first_fault(context@, models, (i + 1) as nat, models.len(), reader);
        }
        let record = match lookup(&context.messages, selection.message().0) {
            Some(record) => record,
            None => return Err(CorrespondenceError::PolicyUnresolved),
        };
        assert(context@.messages[selection@.message.0] == record@);
        match reader {
            Some(actor) => match owned(context, record.manifest.conversation(), actor) {
                Ok(_) => {},
                Err(e) => return Err(e),
            },
            None => {},
        }
        match selection.validate_target(&record.manifest) {
            Ok(()) => {},
            Err(e) => return Err(e),
        }
        pending.push(selection.message().0);
        assert(pending@ =~= before + all.take(i + 1));
        i += 1;
    }
    assert(sources@.len() == models.len());
    assert(all.take(i as int) =~= all);
    Ok(())
}

/// A fault among the first sources is the fault of more.
proof fn lemma_first_fault(
    context: ContextModel,
    sources: Seq<SourceModel>,
    m: nat,
    n: nat,
    reader: Option<ProtocolIdentity>,
)
    requires
        m <= n,
    ensures
        context.first_fault(sources, m, reader) matches Some(e) ==> context.first_fault(
            sources,
            n,
            reader,
        ) == Some(e),
    decreases n,
{
    if m < n {
        lemma_first_fault(context, sources, m, (n - 1) as nat, reader);
    }
}

/// Policy inheritance is a conservative graph walk; intermediate visual grouping cannot remove a
/// source edge. Missing ancestors fail closed.
pub fn policies(context: &Context, manifest: &MessageManifest, actor: ProtocolIdentity) -> (result:
    Result<BTreeMap<u128, u64>, CorrespondenceError>)
    ensures
        match context@.policies(manifest@, actor) {
            Ok(observed) => result matches Ok(revisions) && revisions@ == observed,
            Err(e) => result == Err::<BTreeMap<u128, u64>, CorrespondenceError>(e),
        },
{
    let destination = match owned(context, manifest.conversation(), actor) {
        Ok(conversation) => conversation,
        Err(e) => return Err(e),
    };
    let mut pending: Vec<u128> = Vec::new();
    match queue_sources(context, manifest, Some(actor), &mut pending) {
        Ok(()) => {},
        Err(e) => return Err(e),
    }
    assert(pending@ =~= drawn_numbers(manifest@.sources));
    let mut visited: BTreeSet<u128> = BTreeSet::new();
    let mut observed: BTreeMap<u128, u64> = BTreeMap::new();
    assert(visited@ =~= Set::empty());
    assert(observed@ =~= Map::empty());
    let ghost scope = destination.scope;
    let ghost walked = context@.walk(scope, pending@, visited@, observed@);
    while pending.len() > 0
        invariant
            scope == destination.scope,
            context@.policies(manifest@, actor) == (match walked {
                Err(e) => Err::<Map<u128, u64>, CorrespondenceError>(e),
                Ok((_, noted)) => Ok(noted.insert(destination.id.0, destination.revision)),
            }),
            visited@.finite(),
            visited@.len() <= MAX_SOURCE_GRAPH,
            walked == context@.walk(scope, pending@, visited@, observed@),
        decreases MAX_SOURCE_GRAPH - visited@.len(), pending@.len(),
    {
        let ghost todo = pending@;
        let id = match pending.pop() {
            Some(id) => id,
            None => return Err(CorrespondenceError::Invalid),
        };
        assert(pending@ =~= todo.drop_last() && id == todo.last());
        if is_member(&visited, id) {
            continue ;
        }
        if count_members(&visited) >= MAX_SOURCE_GRAPH {
            return Err(CorrespondenceError::Invalid);
        }
        let record = match lookup(&context.messages, id) {
            Some(record) => record,
            None => return Err(CorrespondenceError::PolicyUnresolved),
        };
        assert(context@.messages[id] == record@);
        let conversation = match lookup(
            &context.conversations,
            record.manifest.conversation().0,
        ) {
            Some(conversation) => conversation,
            None => return Err(CorrespondenceError::PolicyUnresolved),
        };
        if !conversation.permits(destination.scope()) {
            return Err(CorrespondenceError::PolicyRestricted);
        }
        match queue_sources(context, &record.manifest, None, &mut pending) {
            Ok(()) => {},
            Err(e) => return Err(e),
        }
        add_member(&mut visited, id);
        put(&mut observed, conversation.id().0, conversation.revision());
    }
    put(&mut observed, destination.id().0, destination.revision());
    Ok(observed)
}

/// Messages that lead from a manifest from source to source.
pub open spec fn leads(context: ContextModel, manifest: ManifestModel, path: Seq<u128>) -> bool {
    &&& path.len() > 0
    &&& drawn_numbers(manifest.sources).contains(path[0])
    &&& forall|i: int|
        0 <= i < path.len() - 1 ==> context.messages.contains_key(#[trigger] path[i])
            && context.drawn_by(path[i]).contains(path[i + 1])
}

/// Every revision is that of the conversation that it stands under.
pub open spec fn present_revisions(context: ContextModel, observed: Map<u128, u64>) -> bool {
    forall|c: u128| #[trigger]
        observed.contains_key(c) ==> context.conversations.contains_key(c) && observed[c]
            == context.conversations[c].revision
}

/// What a finished walk has seen: all that was pending, and with each message all that it draws
/// on, none of it at fault, every conversation at its present revision.
proof fn lemma_walk(
    context: ContextModel,
    destination: CorrespondenceRef,
    pending: Seq<u128>,
    visited: Set<u128>,
    observed: Map<u128, u64>,
)
    requires
        context.keyed(),
        present_revisions(context, observed),
        visited.finite(),
        context.walk(destination, pending, visited, observed) is Ok,
    ensures
        ({
            let (seen, noted) = context.walk(destination, pending, visited, observed)->Ok_0;
            &&& visited.subset_of(seen)
            &&& forall|i: int| 0 <= i < pending.len() ==> seen.contains(#[trigger] pending[i])
            &&& forall|id: u128| #[trigger]
                seen.contains(id) && !visited.contains(id) ==> context.drawing_fault(
                    id,
                    destination,
                ) is None
            &&& forall|id: u128, next: u128|
                #![trigger seen.contains(id), seen.contains(next)]
                seen.contains(id) && !visited.contains(id) && context.drawn_by(id).contains(next)
                    ==> seen.contains(next)
            &&& present_revisions(context, noted)
            &&& observed.dom().subset_of(noted.dom())
            &&& forall|id: u128| #[trigger]
                seen.contains(id) && !visited.contains(id) ==> noted.contains_key(
                    context.messages[id].manifest.conversation.0,
                )
        }),
    decreases MAX_SOURCE_GRAPH + 1 - visited.len(), pending.len(),
{
    if pending.len() > 0 {
        let id = pending.last();
        let rest = pending.drop_last();
        let (seen, noted) = context.walk(destination, pending, visited, observed)->Ok_0;
        if visited.contains(id) {
            lemma_walk(context, destination, rest, visited, observed);
            assert forall|i: int| 0 <= i < pending.len() implies seen.contains(
                #[trigger] pending[i],
            ) by {
                if i < rest.len() {
                    assert(rest[i] == pending[i]);
                }
            }
        } else {
            let met = context.conversation_of(id);
            let key = context.messages[id].manifest.conversation.0;
            assert(context.conversations.contains_key(key));
            let more = rest + context.drawn_by(id);
            let noting = observed.insert(met.id.0, met.revision);
            assert(visited.insert(id).len() == visited.len() + 1);
            lemma_walk(context, destination, more, visited.insert(id), noting);
            assert(noting.dom().contains(key));
            assert forall|i: int| 0 <= i < pending.len() implies seen.contains(
                #[trigger] pending[i],
            ) by {
                if i < rest.len() {
                    assert(more[i] == pending[i]);
                } else {
                    assert(visited.insert(id).contains(id));
                }
            }
            assert forall|next: u128| context.drawn_by(id).contains(next) implies seen.contains(
                next,
            ) by {
                let k = choose|k: int|
                    0 <= k < context.drawn_by(id).len() && context.drawn_by(id)[k] == next;
                assert(more[rest.len() + k] == next);
            }
            assert forall|c: u128| observed.dom().contains(c) implies noted.dom().contains(c) by {
                assert(noting.dom().contains(c));
            }
            assert forall|other: u128| #[trigger]
                seen.contains(other) && !visited.contains(other) implies noted.contains_key(
                context.messages[other].manifest.conversation.0,
            ) by {
                if other == id {
                    assert(noted.dom().contains(key));
                }
            }
        }
    }
}

/// A message may be sent only where every message that it draws on, directly or through others,
/// is known, fits its selections, and permits the destination now; and the revision of each of
/// their conversations is noted.
pub proof fn reuse_needs_every_source(
    context: ContextModel,
    manifest: ManifestModel,
    actor: ProtocolIdentity,
    path: Seq<u128>,
    i: int,
)
    requires
        context.keyed(),
        context.policies(manifest, actor) is Ok,
        leads(context, manifest, path),
        0 <= i < path.len(),
    ensures
        ({
            let destination = context.conversations[manifest.conversation.0];
            let observed = context.policies(manifest, actor)->Ok_0;
            let met = context.conversation_of(path[i]);
            &&& context.drawing_fault(path[i], destination.scope) is None
            &&& met.permitted(destination.scope)
            &&& observed.contains_key(met.id.0)
            &&& observed[met.id.0] == met.revision
        }),
    decreases i,
{
    let destination = context.conversations[manifest.conversation.0];
    let start = drawn_numbers(manifest.sources);
    lemma_walk(context, destination.scope, start, Set::empty(), Map::empty());
    let (seen, noted) = context.walk(destination.scope, start, Set::empty(), Map::empty())->Ok_0;
    lemma_path_is_seen(context, manifest, destination.scope, path, i);
    let key = context.messages[path[i]].manifest.conversation.0;
    assert(noted.contains_key(key));
}

proof fn lemma_path_is_seen(
    context: ContextModel,
    manifest: ManifestModel,
    destination: CorrespondenceRef,
    path: Seq<u128>,
    i: int,
)
    requires
        context.keyed(),
        context.walk(
            destination,
            drawn_numbers(manifest.sources),
            Set::empty(),
            Map::empty(),
        ) is Ok,
        leads(context, manifest, path),
        0 <= i < path.len(),
    ensures
        context.walk(
            destination,
            drawn_numbers(manifest.sources),
            Set::empty(),
            Map::empty(),
        )->Ok_0.0.contains(path[i]),
    decreases i,
{
    let start = drawn_numbers(manifest.sources);
    lemma_walk(context, destination, start, Set::empty(), Map::empty());
    let (seen, _) = context.walk(destination, start, Set::empty(), Map::empty())->Ok_0;
    if i == 0 {
        let k = choose|k: int| 0 <= k < start.len() && start[k] == path[0];
        assert(seen.contains(start[k]));
    } else {
        lemma_path_is_seen(context, manifest, destination, path, i - 1);
        assert(context.drawn_by(path[i - 1]).contains(path[i - 1 + 1]));
        assert(seen.contains(path[i - 1]));
    }
}

proof fn lemma_walk_succeeds(
    context: ContextModel,
    destination: CorrespondenceRef,
    pending: Seq<u128>,
    visited: Set<u128>,
    observed: Map<u128, u64>,
    reach: Set<u128>,
)
    requires
        reach.finite(),
        reach.len() <= MAX_SOURCE_GRAPH,
        visited.finite(),
        visited.subset_of(reach),
        forall|i: int| 0 <= i < pending.len() ==> reach.contains(#[trigger] pending[i]),
        forall|id: u128| #[trigger]
            reach.contains(id) ==> context.drawing_fault(id, destination) is None,
        forall|id: u128, k: int|
            reach.contains(id) && 0 <= k < context.drawn_by(id).len() ==> reach.contains(
                #[trigger] context.drawn_by(id)[k],
            ),
    ensures
        context.walk(destination, pending, visited, observed) is Ok,
    decreases MAX_SOURCE_GRAPH + 1 - visited.len(), pending.len(),
{
    if pending.len() > 0 {
        let id = pending.last();
        let rest = pending.drop_last();
        assert(reach.contains(pending[pending.len() - 1]));
        assert forall|i: int| 0 <= i < rest.len() implies reach.contains(#[trigger] rest[i]) by {
            assert(rest[i] == pending[i]);
        }
        if visited.contains(id) {
            lemma_walk_succeeds(context, destination, rest, visited, observed, reach);
        } else {
            let met = context.conversation_of(id);
            let more = rest + context.drawn_by(id);
            let seen = visited.insert(id);
            assert(seen.len() == visited.len() + 1);
            assert(seen.subset_of(reach));
            vstd::set_lib::lemma_len_subset(seen, reach);
            assert forall|i: int| 0 <= i < more.len() implies reach.contains(
                #[trigger] more[i],
            ) by {
                if i >= rest.len() {
                    assert(more[i] == context.drawn_by(id)[i - rest.len()]);
                } else {
                    assert(more[i] == rest[i]);
                }
            }
            lemma_walk_succeeds(
                context,
                destination,
                more,
                seen,
                observed.insert(met.id.0, met.revision),
                reach,
            );
        }
    }
}

/// A message may be sent where a bounded set of messages holds all that it draws on, directly or
/// through others, and none of them is at fault.
pub proof fn permitted_sources_are_reusable(
    context: ContextModel,
    manifest: ManifestModel,
    actor: ProtocolIdentity,
    reach: Set<u128>,
)
    requires
        context.owned(manifest.conversation, actor) is Some,
        context.first_fault(manifest.sources, manifest.sources.len(), Some(actor)) is None,
        reach.finite(),
        reach.len() <= MAX_SOURCE_GRAPH,
        forall|k: int|
            0 <= k < manifest.sources.len() ==> reach.contains(
                #[trigger] drawn_numbers(manifest.sources)[k],
            ),
        forall|id: u128| #[trigger]
            reach.contains(id) ==> context.drawing_fault(
                id,
                context.conversations[manifest.conversation.0].scope,
            ) is None,
        forall|id: u128, k: int|
            reach.contains(id) && 0 <= k < context.drawn_by(id).len() ==> reach.contains(
                #[trigger] context.drawn_by(id)[k],
            ),
    ensures
        context.policies(manifest, actor) is Ok,
{
    lemma_walk_succeeds(
        context,
        context.conversations[manifest.conversation.0].scope,
        drawn_numbers(manifest.sources),
        Set::empty(),
        Map::empty(),
        reach,
    );
}

/// A manifest draws on a message: it refers to it, quotes it or shares it.
pub open spec fn draws_on(manifest: ManifestModel, id: u128) -> bool {
    exists|i: int|
        0 <= i < manifest.sources.len() && match #[trigger] manifest.sources[i] {
            SourceModel::Reference(selection) => selection.message.0 == id,
            SourceModel::Quotation(selection) => selection.message.0 == id,
            SourceModel::Sharing(selection) => selection.message.0 == id,
        }
}

proof fn lemma_draws(manifest: ManifestModel, id: u128)
    requires
        draws_on(manifest, id),
    ensures
        drawn_numbers(manifest.sources).contains(id),
{
    let i = choose|i: int|
        0 <= i < manifest.sources.len() && match #[trigger] manifest.sources[i] {
            SourceModel::Reference(selection) => selection.message.0 == id,
            SourceModel::Quotation(selection) => selection.message.0 == id,
            SourceModel::Sharing(selection) => selection.message.0 == id,
        };
    assert(drawn_numbers(manifest.sources)[i] == id);
}

proof fn lemma_no_first_fault(
    context: ContextModel,
    sources: Seq<SourceModel>,
    n: nat,
    reader: Option<ProtocolIdentity>,
    i: int,
)
    requires
        0 <= i < n <= sources.len(),
        context.first_fault(sources, n, reader) is None,
    ensures
        context.source_fault(sources[i].selection(), reader) is None,
    decreases n,
{
    if i < n - 1 {
        lemma_no_first_fault(context, sources, (n - 1) as nat, reader, i);
    }
}

/// A message is sent or found reusable only where each message that it draws on, directly or
/// through a chain of others, is known, and its conversation is known and either open for reuse or
/// between the same two personas as the destination; and the author takes part in the conversation
/// of each direct source.
pub proof fn every_source_permits_its_reuse(
    context: ContextModel,
    manifest: ManifestModel,
    actor: ProtocolIdentity,
    path: Seq<u128>,
    i: int,
)
    requires
        context.keyed(),
        context.policies(manifest, actor) is Ok,
        0 <= i < path.len(),
        draws_on(manifest, path[0]),
        forall|j: int|
            0 <= j < path.len() - 1 ==> context.messages.contains_key(#[trigger] path[j])
                && draws_on(context.messages[path[j]].manifest, path[j + 1]),
    ensures
        ({
            let destination = context.conversations[manifest.conversation.0];
            let home = context.messages[path[i]].manifest.conversation.0;
            let source = context.conversations[home];
            let noted = context.policies(manifest, actor)->Ok_0;
            &&& context.conversations.contains_key(manifest.conversation.0)
            &&& destination.scope.lower == actor || destination.scope.higher == actor
            &&& context.messages.contains_key(path[i])
            &&& context.conversations.contains_key(home)
            &&& source.policy == ReusePolicy::AcrossRelationships || (source.scope.lower
                == destination.scope.lower && source.scope.higher == destination.scope.higher)
            &&& i == 0 ==> source.scope.lower == actor || source.scope.higher == actor
            &&& noted.contains_key(home) && noted[home] == source.revision
            &&& noted.contains_key(manifest.conversation.0) && noted[manifest.conversation.0]
                == destination.revision
        }),
{
    lemma_draws(manifest, path[0]);
    assert forall|j: int| 0 <= j < path.len() - 1 implies context.messages.contains_key(
        #[trigger] path[j],
    ) && context.drawn_by(path[j]).contains(path[j + 1]) by {
        lemma_draws(context.messages[path[j]].manifest, path[j + 1]);
    }
    reuse_needs_every_source(context, manifest, actor, path, i);
    assert(context.conversations.contains_key(context.messages[path[i]].manifest.conversation.0));
    let start = drawn_numbers(manifest.sources);
    let k = choose|k: int| 0 <= k < start.len() && start[k] == path[0];
    lemma_no_first_fault(context, manifest.sources, manifest.sources.len(), Some(actor), k);
}

/// Each direct source is a selection of its message as it stands: of its version, and within its
/// blocks.
pub proof fn sources_are_selections_of_known_messages(
    context: ContextModel,
    manifest: ManifestModel,
    actor: ProtocolIdentity,
    i: int,
)
    requires
        context.policies(manifest, actor) is Ok,
        0 <= i < manifest.sources.len(),
    ensures
        ({
            let selection = match manifest.sources[i] {
                SourceModel::Reference(selection) => selection,
                SourceModel::Quotation(selection) => selection,
                SourceModel::Sharing(selection) => selection,
            };
            let found = context.messages[selection.message.0].manifest;
            &&& context.messages.contains_key(selection.message.0)
            &&& found.message == selection.message
            &&& found.version == selection.version
            &&& forall|j: int|
                0 <= j < selection.elements.len() ==> match #[trigger] selection.elements[j] {
                    SelectionElement::TextRange { block, end, .. } => (block as int)
                        < found.blocks.len() && found.blocks[block as int] is Text && end
                        <= found.blocks[block as int]->Text_bytes,
                    SelectionElement::ImageBlock { block } => (block as int) < found.blocks.len()
                        && found.blocks[block as int] is Image,
                }
        }),
{
    lemma_no_first_fault(context, manifest.sources, manifest.sources.len(), Some(actor), i);
    let selection = manifest.sources[i].selection();
    let found = context.messages[selection.message.0].manifest;
    crate::correspondence::selection::selections_lie_within_their_message(
        selection,
        found.message,
        found.version,
        found.blocks,
    );
}

/// A message may draw on as many as 1024 others, directly or through others: where that many hold all
/// that it draws on and none of them is at fault, it may be sent.
pub proof fn a_thousand_sources_are_not_too_many(
    context: ContextModel,
    manifest: ManifestModel,
    actor: ProtocolIdentity,
    reach: Set<u128>,
)
    requires
        context.owned(manifest.conversation, actor) is Some,
        context.first_fault(manifest.sources, manifest.sources.len(), Some(actor)) is None,
        reach.finite(),
        reach.len() <= 1024,
        forall|k: int|
            0 <= k < manifest.sources.len() ==> reach.contains(
                #[trigger] drawn_numbers(manifest.sources)[k],
            ),
        forall|id: u128| #[trigger]
            reach.contains(id) ==> context.drawing_fault(
                id,
                context.conversations[manifest.conversation.0].scope,
            ) is None,
        forall|id: u128, k: int|
            reach.contains(id) && 0 <= k < context.drawn_by(id).len() ==> reach.contains(
                #[trigger] context.drawn_by(id)[k],
            ),
    ensures
        context.policies(manifest, actor) is Ok,
{
    permitted_sources_are_reusable(context, manifest, actor, reach);
}

} // verus!
