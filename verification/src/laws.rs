//! What holds of the registry whatever is done to it.

use crate::frame::Frame;
use crate::ident::ClientId;
use crate::registry::{
    addressed, bound, distinct, holds, lemma_bound_holds, lemma_distinct_occurrences,
    lemma_registered_distinct, lemma_without_keeps, occurrences, registered, without, Delivery,
    Entry,
};
use tokio::sync::mpsc::UnboundedSender;
use vstd::prelude::*;

verus! {

/// One call that changes a registry.
pub ghost enum Call {
    Register { id: ClientId, sender: UnboundedSender<Frame> },
    Deregister { id: ClientId },
}

/// The entries after one call.
pub open spec fn applied(entries: Seq<Entry>, call: Call) -> Seq<Entry> {
    match call {
        Call::Register { id, sender } => registered(entries, id, sender),
        Call::Deregister { id } => without(entries, id),
    }
}

/// The entries of a registry that was empty and then took the calls in turn.
pub open spec fn replayed(calls: Seq<Call>) -> Seq<Entry>
    decreases calls.len(),
{
    if calls.len() == 0 {
        Seq::empty()
    } else {
        applied(replayed(calls.drop_last()), calls.last())
    }
}

/// Whatever registrations and deregistrations a registry has seen, no
/// identifier has more than one entry in it; so there is never more than one
/// controller.
pub proof fn law_one_entry_per_identifier(calls: Seq<Call>)
    ensures
        distinct(replayed(calls)),
        forall|id: ClientId| occurrences(replayed(calls), id) <= 1,
        occurrences(replayed(calls), ClientId::controller_id()) <= 1,
    decreases calls.len(),
{
    if calls.len() > 0 {
        let before = replayed(calls.drop_last());
        law_one_entry_per_identifier(calls.drop_last());
        match calls.last() {
            Call::Register { id, sender } => {
                lemma_registered_distinct(before, id, sender);
            },
            Call::Deregister { id } => {
                lemma_without_keeps(before, id);
            },
        }
    }
    assert forall|id: ClientId| occurrences(replayed(calls), id) <= 1 by {
        lemma_distinct_occurrences(replayed(calls), id);
    }
}

/// A registration under an identifier that has an entry evicts that entry:
/// afterwards the identifier has one entry, with the new channel, and every
/// other identifier has the entries it had.
pub proof fn law_registration_replaces(
    entries: Seq<Entry>,
    id: ClientId,
    sender: UnboundedSender<Frame>,
)
    ensures
        occurrences(registered(entries, id, sender), id) == 1,
        bound(registered(entries, id, sender), id) == Some(sender),
        forall|other: ClientId|
            other != id ==> occurrences(registered(entries, id, sender), other) == occurrences(
                entries,
                other,
            ),
{
    lemma_without_keeps(entries, id);
    let after = registered(entries, id, sender);
    assert(after.drop_last() =~= without(entries, id));
    assert(after.last() == Entry { id, sender });
}

/// A lookup straight after a registration finds the channel that was
/// registered.
pub proof fn law_lookup_after_register(
    entries: Seq<Entry>,
    id: ClientId,
    sender: UnboundedSender<Frame>,
)
    ensures
        bound(registered(entries, id, sender), id) == Some(sender),
{
    let after = registered(entries, id, sender);
    assert(after.last() == Entry { id, sender });
}

/// A lookup straight after a deregistration finds nothing.
pub proof fn law_lookup_after_deregister(entries: Seq<Entry>, id: ClientId)
    ensures
        bound(without(entries, id), id) is None,
{
    lemma_without_keeps(entries, id);
    lemma_bound_holds(without(entries, id), id);
}

/// A broadcast that leaves out the controller is addressed to every client
/// that is registered and is not the controller, to each of them once, and
/// to nobody else, in whatever order they registered.
pub proof fn law_broadcast_reaches_clients(entries: Seq<Entry>, report: Seq<Delivery>)
    requires
        distinct(entries),
        addressed(report, without(entries, ClientId::controller_id())),
    ensures
        forall|i: int|
            0 <= i < entries.len() && (#[trigger] entries[i]).id != ClientId::controller_id()
                ==> exists|k: int| 0 <= k < report.len() && (#[trigger] report[k]).id == entries[i].id,
        forall|k: int|
            0 <= k < report.len() ==> (#[trigger] report[k]).id != ClientId::controller_id()
                && holds(entries, report[k].id),
        forall|k: int, l: int|
            0 <= k < l < report.len() ==> (#[trigger] report[k]).id != (#[trigger] report[l]).id,
{
    let controller = ClientId::controller_id();
    let kept = without(entries, controller);
    lemma_without_keeps(entries, controller);
    assert forall|i: int|
        0 <= i < entries.len() && (#[trigger] entries[i]).id != controller implies exists|k: int|
        0 <= k < report.len() && (#[trigger] report[k]).id == entries[i].id by {
        assert(entries.contains(entries[i]));
        assert(kept.contains(entries[i]));
        let k = choose|k: int| 0 <= k < kept.len() && kept[k] == entries[i];
        assert(report[k].id == entries[i].id);
    }
    assert forall|k: int| 0 <= k < report.len() implies (#[trigger] report[k]).id != controller
        && holds(entries, report[k].id) by {
        assert(kept[k].id == report[k].id);
        assert(kept.contains(kept[k]));
        assert(entries.contains(kept[k]));
        let i = choose|i: int| 0 <= i < entries.len() && entries[i] == kept[k];
        assert(entries[i].id == report[k].id);
    }
    assert forall|k: int, l: int| 0 <= k < l < report.len() implies (#[trigger] report[k]).id != (
    #[trigger] report[l]).id by {
        assert(kept[k].id != kept[l].id);
    }
}

} // verus!
