//! The connection registry: which outbound channel stands for which client.
//!
//! The registry is a list of entries in the order of their registration,
//! with at most one entry per identifier. It is the relay's only shared
//! state; the caller guards it with one lock and calls in here while
//! holding it. Posting to a channel never waits.

use crate::frame::Frame;
use crate::ident::ClientId;
use tokio::sync::mpsc::UnboundedSender;
use vstd::prelude::*;

verus! {

/// `tokio::sync::mpsc::UnboundedSender`, the sending half of a channel
/// without bound. It is taken as it is: a value is carried about and handed
/// back, and nothing is known of what is inside.
#[verifier::external_type_specification]
#[verifier::external_body]
#[verifier::reject_recursive_types(T)]
pub struct ExUnboundedSender<T>(tokio::sync::mpsc::UnboundedSender<T>);

/// Calls `tokio::sync::mpsc::UnboundedSender::send` and tells whether the
/// channel took the frame. Trusted, with nothing claimed of the answer: it
/// depends on whether the receiving half is still there. The call does not
/// wait; it ends the process only where a channel holds more frames than a
/// `usize` can count.
#[verifier::external_body]
fn post(sender: &UnboundedSender<Frame>, frame: Frame) -> (accepted: bool) {
    sender.send(frame).is_ok()
}

/// One registration: an identifier and the channel that stands for it.
pub struct Entry {
    pub id: ClientId,
    pub sender: UnboundedSender<Frame>,
}

/// How one attempt to post a frame ended.
#[derive(Clone, Copy, Debug, PartialEq, Eq)]
pub struct Delivery {
    /// The identifier whose channel was tried.
    pub id: ClientId,
    /// Whether the channel took the frame.
    pub delivered: bool,
}

/// How a frame for the controller fared.
#[derive(Clone, Copy, Debug, PartialEq, Eq)]
pub enum ControllerDelivery {
    /// No controller is registered: the frame was dropped.
    Absent,
    /// The controller's channel took the frame.
    Delivered,
    /// The controller's channel is closed: the frame was dropped.
    Failed,
}

/// Whether some entry stands under the identifier.
pub open spec fn holds(entries: Seq<Entry>, id: ClientId) -> bool {
    exists|i: int| 0 <= i < entries.len() && (#[trigger] entries[i]).id == id
}

/// Whether no two entries share an identifier.
pub open spec fn distinct(entries: Seq<Entry>) -> bool {
    forall|i: int, j: int|
        0 <= i < j < entries.len() ==> (#[trigger] entries[i]).id != (#[trigger] entries[j]).id
}

/// How many entries stand under the identifier.
pub open spec fn occurrences(entries: Seq<Entry>, id: ClientId) -> nat
    decreases entries.len(),
{
    if entries.len() == 0 {
        0
    } else if entries.last().id == id {
        occurrences(entries.drop_last(), id) + 1
    } else {
        occurrences(entries.drop_last(), id)
    }
}

/// The entries without those under the identifier, in their order.
pub open spec fn without(entries: Seq<Entry>, id: ClientId) -> Seq<Entry>
    decreases entries.len(),
{
    if entries.len() == 0 {
        Seq::empty()
    } else if entries.last().id == id {
        without(entries.drop_last(), id)
    } else {
        without(entries.drop_last(), id).push(entries.last())
    }
}

/// The entries after a registration: what stood under the identifier is
/// gone, and the new entry is the last.
pub open spec fn registered(
    entries: Seq<Entry>,
    id: ClientId,
    sender: UnboundedSender<Frame>,
) -> Seq<Entry> {
    without(entries, id).push(Entry { id, sender })
}

/// The channel that stands for the identifier: that of its latest entry.
pub open spec fn bound(entries: Seq<Entry>, id: ClientId) -> Option<UnboundedSender<Frame>>
    decreases entries.len(),
{
    if entries.len() == 0 {
        None
    } else if entries.last().id == id {
        Some(entries.last().sender)
    } else {
        bound(entries.drop_last(), id)
    }
}

/// Whether a report names, one by one and in order, the identifiers of the
/// given entries.
pub open spec fn addressed(report: Seq<Delivery>, targets: Seq<Entry>) -> bool {
    &&& report.len() == targets.len()
    &&& forall|k: int| 0 <= k < report.len() ==> (#[trigger] report[k]).id == targets[k].id
}

/// Without an entry under the identifier, nothing is taken away.
pub proof fn lemma_without_absent(entries: Seq<Entry>, id: ClientId)
    requires
        !holds(entries, id),
    ensures
        without(entries, id) == entries,
    decreases entries.len(),
{
    if entries.len() > 0 {
        let rest = entries.drop_last();
        assert(entries[entries.len() - 1].id != id);
        assert(!holds(rest, id)) by {
            if holds(rest, id) {
                let i = choose|i: int| 0 <= i < rest.len() && (#[trigger] rest[i]).id == id;
                assert(entries[i].id == id);
            }
        }
        lemma_without_absent(rest, id);
        assert(rest.push(entries.last()) =~= entries);
    } else {
        assert(entries =~= Seq::empty());
    }
}

/// Where the identifiers are distinct, taking away an identifier removes
/// the one entry that stands under it.
pub proof fn lemma_without_at(entries: Seq<Entry>, id: ClientId, at: int)
    requires
        distinct(entries),
        0 <= at < entries.len(),
        entries[at].id == id,
    ensures
        without(entries, id) == entries.remove(at),
    decreases entries.len(),
{
    let rest = entries.drop_last();
    let last = entries.len() - 1;
    if at == last {
        assert(!holds(rest, id)) by {
            if holds(rest, id) {
                let i = choose|i: int| 0 <= i < rest.len() && (#[trigger] rest[i]).id == id;
                assert(entries[i].id == id);
                assert(entries[i].id != entries[last].id);
            }
        }
        lemma_without_absent(rest, id);
        assert(rest =~= entries.remove(at));
    } else {
        assert(entries[at].id != entries[last].id);
        assert(distinct(rest)) by {
            assert forall|i: int, j: int| 0 <= i < j < rest.len() implies (#[trigger] rest[i]).id
                != (#[trigger] rest[j]).id by {
                assert(entries[i].id != entries[j].id);
            }
        }
        lemma_without_at(rest, id, at);
        assert(rest.remove(at).push(entries.last()) =~= entries.remove(at));
    }
}

/// What `without` keeps: exactly the entries under other identifiers.
pub proof fn lemma_without_keeps(entries: Seq<Entry>, id: ClientId)
    ensures
        !holds(without(entries, id), id),
        forall|entry: Entry| #[trigger]
            without(entries, id).contains(entry) <==> entries.contains(entry) && entry.id != id,
        forall|other: ClientId|
            other != id ==> occurrences(without(entries, id), other) == occurrences(
                entries,
                other,
            ),
        occurrences(without(entries, id), id) == 0,
        distinct(entries) ==> distinct(without(entries, id)),
    decreases entries.len(),
{
    let kept = without(entries, id);
    if entries.len() == 0 {
        assert forall|entry: Entry| #[trigger]
            kept.contains(entry) <==> entries.contains(entry) && entry.id != id by {}
    } else {
        let rest = entries.drop_last();
        let last = entries.last();
        let inner = without(rest, id);
        lemma_without_keeps(rest, id);
        assert(entries =~= rest.push(last));
        assert forall|entry: Entry| #[trigger]
            kept.contains(entry) <==> entries.contains(entry) && entry.id != id by {
            if kept.contains(entry) {
                let k = choose|k: int| 0 <= k < kept.len() && kept[k] == entry;
                if last.id != id && k == kept.len() - 1 {
                    assert(entries[entries.len() - 1] == entry);
                } else {
                    assert(inner[k] == entry);
                    assert(inner.contains(entry));
                    let r = choose|r: int| 0 <= r < rest.len() && rest[r] == entry;
                    assert(entries[r] == entry);
                }
            }
            if entries.contains(entry) && entry.id != id {
                let r = choose|r: int| 0 <= r < entries.len() && entries[r] == entry;
                if r == entries.len() - 1 {
                    assert(kept[kept.len() - 1] == entry);
                } else {
                    assert(rest[r] == entry);
                    assert(rest.contains(entry));
                    assert(inner.contains(entry));
                    let k = choose|k: int| 0 <= k < inner.len() && inner[k] == entry;
                    assert(kept[k] == entry);
                }
            }
        }
        assert(!holds(kept, id)) by {
            if holds(kept, id) {
                let k = choose|k: int| 0 <= k < kept.len() && (#[trigger] kept[k]).id == id;
                assert(kept.contains(kept[k]));
            }
        }
        assert forall|other: ClientId| other != id implies occurrences(kept, other)
            == occurrences(entries, other) by {
            assert(occurrences(inner, other) == occurrences(rest, other));
            if last.id != id {
                assert(kept.drop_last() =~= inner);
                assert(kept.last() == last);
            } else {
                assert(kept == inner);
            }
        }
        if last.id != id {
            assert(kept.drop_last() =~= inner);
        }
        if distinct(entries) {
            assert(distinct(rest)) by {
                assert forall|i: int, j: int| 0 <= i < j < rest.len() implies (
                #[trigger] rest[i]).id != (#[trigger] rest[j]).id by {
                    assert(entries[i].id != entries[j].id);
                }
            }
            if holds(entries, id) {
                let at = choose|i: int| 0 <= i < entries.len() && (#[trigger] entries[i]).id == id;
                lemma_without_at(entries, id, at);
                assert forall|i: int, j: int| 0 <= i < j < kept.len() implies (
                #[trigger] kept[i]).id != (#[trigger] kept[j]).id by {
                    let a = if i < at { i } else { i + 1 };
                    let b = if j < at { j } else { j + 1 };
                    assert(kept[i] == entries[a]);
                    assert(kept[j] == entries[b]);
                    assert(entries[a].id != entries[b].id);
                }
            } else {
                lemma_without_absent(entries, id);
            }
        }
    }
}

/// Where the identifiers are distinct, the channel of an identifier is that
/// of the one entry under it.
pub proof fn lemma_bound_at(entries: Seq<Entry>, id: ClientId, at: int)
    requires
        distinct(entries),
        0 <= at < entries.len(),
        entries[at].id == id,
    ensures
        bound(entries, id) == Some(entries[at].sender),
    decreases entries.len(),
{
    let rest = entries.drop_last();
    let last = entries.len() - 1;
    if at != last {
        assert(entries[at].id != entries[last].id);
        assert(distinct(rest)) by {
            assert forall|i: int, j: int| 0 <= i < j < rest.len() implies (#[trigger] rest[i]).id
                != (#[trigger] rest[j]).id by {
                assert(entries[i].id != entries[j].id);
            }
        }
        lemma_bound_at(rest, id, at);
    }
}

/// An identifier has a channel exactly where an entry stands under it.
pub proof fn lemma_bound_holds(entries: Seq<Entry>, id: ClientId)
    ensures
        bound(entries, id) is Some <==> holds(entries, id),
        occurrences(entries, id) > 0 <==> holds(entries, id),
    decreases entries.len(),
{
    if entries.len() > 0 {
        let rest = entries.drop_last();
        lemma_bound_holds(rest, id);
        if entries.last().id == id {
            assert(entries[entries.len() - 1].id == id);
        } else {
            if holds(rest, id) {
                let i = choose|i: int| 0 <= i < rest.len() && (#[trigger] rest[i]).id == id;
                assert(entries[i].id == id);
            }
            if holds(entries, id) {
                let i = choose|i: int| 0 <= i < entries.len() && (#[trigger] entries[i]).id == id;
                assert(rest[i].id == id);
            }
        }
    }
}

/// Where the identifiers are distinct, none occurs twice.
pub proof fn lemma_distinct_occurrences(entries: Seq<Entry>, id: ClientId)
    requires
        distinct(entries),
    ensures
        occurrences(entries, id) <= 1,
    decreases entries.len(),
{
    if entries.len() > 0 {
        let rest = entries.drop_last();
        let last = entries.len() - 1;
        assert(distinct(rest)) by {
            assert forall|i: int, j: int| 0 <= i < j < rest.len() implies (#[trigger] rest[i]).id
                != (#[trigger] rest[j]).id by {
                assert(entries[i].id != entries[j].id);
            }
        }
        lemma_distinct_occurrences(rest, id);
        if entries.last().id == id {
            lemma_bound_holds(rest, id);
            if holds(rest, id) {
                let i = choose|i: int| 0 <= i < rest.len() && (#[trigger] rest[i]).id == id;
                assert(entries[i].id != entries[last].id);
            }
        }
    }
}

/// A registration keeps the identifiers distinct.
pub proof fn lemma_registered_distinct(
    entries: Seq<Entry>,
    id: ClientId,
    sender: UnboundedSender<Frame>,
)
    requires
        distinct(entries),
    ensures
        distinct(registered(entries, id, sender)),
{
    lemma_without_keeps(entries, id);
    let kept = without(entries, id);
    let after = registered(entries, id, sender);
    assert forall|i: int, j: int| 0 <= i < j < after.len() implies (#[trigger] after[i]).id != (
    #[trigger] after[j]).id by {
        if j == kept.len() {
            assert(kept[i].id != id);
        } else {
            assert(kept[i].id != kept[j].id);
        }
    }
}

/// The place of the identifier among the entries, if it has one.
fn find(entries: &Vec<Entry>, id: ClientId) -> (place: Option<usize>)
    ensures
        match place {
            Some(at) => at < entries@.len() && entries@[at as int].id == id,
            None => !holds(entries@, id),
        },
{
    let mut i: usize = 0;
    while i < entries.len()
        invariant
            i <= entries@.len(),
            forall|k: int| 0 <= k < i ==> (#[trigger] entries@[k]).id != id,
        decreases entries@.len() - i,
    {
        if entries[i].id == id {
            return Some(i);
        }
        i += 1;
    }
    None
}

/// Takes the entry under the identifier out of the list, if there is one.
fn evict(entries: &mut Vec<Entry>, id: ClientId)
    requires
        distinct(old(entries)@),
    ensures
        final(entries)@ == without(old(entries)@, id),
        distinct(final(entries)@),
{
    proof {
        lemma_without_keeps(entries@, id);
    }
    match find(entries, id) {
        Some(at) => {
            proof {
                lemma_without_at(entries@, id, at as int);
            }
            let _ = entries.remove(at);
        },
        None => {
            proof {
                lemma_without_absent(entries@, id);
            }
        },
    }
}

/// The table of live connections.
pub struct Registry {
    entries: Vec<Entry>,
}

impl View for Registry {
    type V = Seq<Entry>;

    closed spec fn view(&self) -> Seq<Entry> {
        self.entries@
    }
}

impl Registry {
    #[verifier::type_invariant]
    spec fn unique(&self) -> bool {
        distinct(self.entries@)
    }

    /// An empty registry.
    pub fn new() -> (registry: Registry)
        ensures
            registry@ == Seq::<Entry>::empty(),
    {
        Registry { entries: Vec::new() }
    }

    /// The number of entries.
    pub fn len(&self) -> (n: usize)
        ensures
            n == self@.len(),
    {
        self.entries.len()
    }

    /// Whether an entry stands under the identifier.
    pub fn contains(&self, id: ClientId) -> (yes: bool)
        ensures
            yes == holds(self@, id),
    {
        find(&self.entries, id).is_some()
    }

    /// Puts the channel under the identifier. An entry that stood there is
    /// evicted: its channel is left to its connection, which is not closed.
    pub fn register(&mut self, id: ClientId, sender: UnboundedSender<Frame>)
        ensures
            final(self)@ == registered(old(self)@, id, sender),
            distinct(final(self)@),
    {
        proof {
            use_type_invariant(&*self);
        }
        let mut entries: Vec<Entry> = Vec::new();
        std::mem::swap(&mut entries, &mut self.entries);
        evict(&mut entries, id);
        proof {
            lemma_registered_distinct(old(self)@, id, sender);
        }
        entries.push(Entry { id, sender });
        self.entries = entries;
    }

    /// Removes the entry under the identifier, if there is one.
    pub fn deregister(&mut self, id: ClientId)
        ensures
            final(self)@ == without(old(self)@, id),
            distinct(final(self)@),
    {
        proof {
            use_type_invariant(&*self);
        }
        let mut entries: Vec<Entry> = Vec::new();
        std::mem::swap(&mut entries, &mut self.entries);
        evict(&mut entries, id);
        self.entries = entries;
    }

    /// The channel that stands for the identifier, if one does.
    pub fn lookup(&self, id: ClientId) -> (found: Option<&UnboundedSender<Frame>>)
        ensures
            match found {
                Some(sender) => bound(self@, id) == Some(*sender),
                None => bound(self@, id) is None,
            },
    {
        proof {
            use_type_invariant(self);
            lemma_bound_holds(self@, id);
        }
        match find(&self.entries, id) {
            Some(at) => {
                proof {
                    lemma_bound_at(self@, id, at as int);
                }
                Some(&self.entries[at].sender)
            },
            None => None,
        }
    }

    /// Posts a copy of the frame to every entry but the one under the given
    /// identifier, oldest entry first, and reports each attempt. A channel
    /// that does not take the frame is passed over.
    pub fn broadcast_except(&self, id: ClientId, payload: &Frame) -> (report: Vec<Delivery>)
        ensures
            addressed(report@, without(self@, id)),
            distinct(self@),
    {
        proof {
            use_type_invariant(self);
        }
        let mut report: Vec<Delivery> = Vec::new();
        let mut i: usize = 0;
        assert(self.entries@.take(0) =~= Seq::<Entry>::empty());
        while i < self.entries.len()
            invariant
                i <= self.entries@.len(),
                addressed(report@, without(self.entries@.take(i as int), id)),
            decreases self.entries@.len() - i,
        {
            let entry = &self.entries[i];
            proof {
                let next = self.entries@.take(i + 1);
                assert(next.drop_last() =~= self.entries@.take(i as int));
                assert(next.last() == self.entries@[i as int]);
            }
            if entry.id != id {
                let delivered = post(&entry.sender, payload.clone());
                report.push(Delivery { id: entry.id, delivered });
            }
            i += 1;
        }
        assert(self.entries@.take(i as int) =~= self.entries@);
        report
    }

    /// Posts the frame to the controller's channel, if a controller is
    /// registered, and drops it otherwise.
    pub fn send_to_controller(&self, payload: Frame) -> (outcome: ControllerDelivery)
        ensures
            outcome is Absent <==> !holds(self@, ClientId::controller_id()),
    {
        match find(&self.entries, ClientId::controller()) {
            Some(at) => {
                if post(&self.entries[at].sender, payload) {
                    ControllerDelivery::Delivered
                } else {
                    ControllerDelivery::Failed
                }
            },
            None => ControllerDelivery::Absent,
        }
    }
}

} // verus!
