//! Request histories, which the relationships of a store share.

use crate::primitives::ids::ProtocolIdentity;
use crate::primitives::references::RequestHistoryRef;
use vstd::prelude::*;

verus! {

impl RequestHistoryRef {
    /// Whether two references are the same.
    pub fn same_history(&self, other: &Self) -> (same: bool)
        ensures
            same == (*self == *other),
    {
        self.derivation_version == other.derivation_version && crate::bytes::same_32(
            &self.bytes,
            &other.bytes,
        )
    }
}

/// A request history under its reference, and whose it is. What a history says belongs to the
/// protocol kernel.
#[derive(Clone, Copy, PartialEq, Eq)]
pub struct HistoryEntry<H> {
    pub reference: RequestHistoryRef,
    pub recipient: ProtocolIdentity,
    pub history: H,
}

/// The first history of a reference, from one on.
pub open spec fn history_from<H>(
    histories: Seq<HistoryEntry<H>>,
    reference: RequestHistoryRef,
    i: int,
) -> Option<int>
    decreases histories.len() - i,
{
    if i >= histories.len() {
        None
    } else if histories[i].reference == reference {
        Some(i)
    } else {
        history_from(histories, reference, i + 1)
    }
}

/// The history of a reference.
pub open spec fn history_at<H>(histories: Seq<HistoryEntry<H>>, reference: RequestHistoryRef) -> Option<
    HistoryEntry<H>,
> {
    match history_from(histories, reference, 0) {
        Some(i) => Some(histories[i]),
        None => None,
    }
}

/// The histories with one under its reference, in place of an earlier one.
pub open spec fn with_history<H>(histories: Seq<HistoryEntry<H>>, entry: HistoryEntry<H>) -> Seq<
    HistoryEntry<H>,
> {
    match history_from(histories, entry.reference, 0) {
        Some(i) => histories.update(i, entry),
        None => histories.push(entry),
    }
}

pub proof fn lemma_history_from<H>(
    histories: Seq<HistoryEntry<H>>,
    reference: RequestHistoryRef,
    i: int,
)
    requires
        0 <= i,
    ensures
        match history_from(histories, reference, i) {
            Some(k) => i <= k < histories.len() && histories[k].reference == reference,
            None => forall|k: int|
                i <= k < histories.len() ==> (#[trigger] histories[k]).reference != reference,
        },
    decreases histories.len() - i,
{
    if i < histories.len() {
        lemma_history_from(histories, reference, i + 1);
    }
}

proof fn lemma_updated<H>(
    histories: Seq<HistoryEntry<H>>,
    entry: HistoryEntry<H>,
    k: int,
    reference: RequestHistoryRef,
    i: int,
)
    requires
        0 <= i,
        0 <= k < histories.len(),
        histories[k].reference == entry.reference,
    ensures
        history_from(histories.update(k, entry), reference, i) == history_from(
            histories,
            reference,
            i,
        ),
    decreases histories.len() - i,
{
    if i < histories.len() {
        lemma_updated(histories, entry, k, reference, i + 1);
    }
}

proof fn lemma_pushed<H>(
    histories: Seq<HistoryEntry<H>>,
    entry: HistoryEntry<H>,
    reference: RequestHistoryRef,
    i: int,
)
    requires
        0 <= i <= histories.len(),
    ensures
        history_from(histories.push(entry), reference, i) == (match history_from(
            histories,
            reference,
            i,
        ) {
            Some(k) => Some(k),
            None => if entry.reference == reference {
                Some(histories.len() as int)
            } else {
                None
            },
        }),
    decreases histories.len() - i,
{
    if i < histories.len() {
        lemma_pushed(histories, entry, reference, i + 1);
    } else {
        assert(history_from(histories.push(entry), reference, i + 1) is None);
    }
}

/// A history that is written is what is read under its reference from then on, and what is read
/// under any other reference stays as it was.
pub proof fn histories_are_read_as_written<H>(
    histories: Seq<HistoryEntry<H>>,
    entry: HistoryEntry<H>,
    reference: RequestHistoryRef,
)
    ensures
        history_at(with_history(histories, entry), reference) == (if reference == entry.reference {
            Some(entry)
        } else {
            history_at(histories, reference)
        }),
{
    lemma_history_from(histories, entry.reference, 0);
    lemma_history_from(histories, reference, 0);
    match history_from(histories, entry.reference, 0) {
        Some(k) => lemma_updated(histories, entry, k, reference, 0),
        None => lemma_pushed(histories, entry, reference, 0),
    }
}

/// Finds the history of a reference.
pub fn find_history<H>(histories: &Vec<HistoryEntry<H>>, reference: &RequestHistoryRef) -> (found:
    Option<usize>)
    ensures
        match found {
            Some(i) => history_from(histories@, *reference, 0) == Some(i as int) && i
                < histories@.len(),
            None => history_from(histories@, *reference, 0) is None,
        },
{
    let mut i: usize = 0;
    while i < histories.len()
        invariant
            0 <= i <= histories@.len(),
            history_from(histories@, *reference, 0) == history_from(
                histories@,
                *reference,
                i as int,
            ),
        decreases histories@.len() - i,
    {
        if histories[i].reference.same_history(reference) {
            return Some(i);
        }
        i += 1;
    }
    None
}

/// Writes a history under its reference.
pub fn put_history<H>(histories: &mut Vec<HistoryEntry<H>>, entry: HistoryEntry<H>)
    ensures
        final(histories)@ == with_history(old(histories)@, entry),
{
    match find_history(histories, &entry.reference) {
        Some(i) => {
            histories[i] = entry;
        },
        None => {
            histories.push(entry);
        },
    }
}

} // verus!
