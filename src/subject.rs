use vstd::prelude::*;

use crate::observer::{deliveries_of, ids_below, ObserverId, ObserverTable, SignalObserver};
use crate::snapshot::SignalSnapShot;

verus! {

/// `ids` with every entry equal to `id` removed.
pub open spec fn without(ids: Seq<ObserverId>, id: ObserverId) -> Seq<ObserverId> {
    ids.filter(|x: ObserverId| x != id)
}

/// `ids` with every entry equal to `id` removed and `id` appended: the effect
/// of subscribing `id`.
pub open spec fn subscribed(ids: Seq<ObserverId>, id: ObserverId) -> Seq<ObserverId> {
    without(ids, id).push(id)
}

/// Removes every entry equal to `id` from `ids`, keeping the others in order.
pub fn remove_observer(ids: &mut Vec<ObserverId>, id: ObserverId)
    ensures
        final(ids)@ == without(old(ids)@, id),
{
    let mut kept: Vec<ObserverId> = Vec::new();
    let mut i: usize = 0;
    while i < ids.len()
        invariant
            i <= ids@.len(),
            ids@ == old(ids)@,
            kept@ == without(old(ids)@.take(i as int), id),
        decreases ids@.len() - i,
    {
        proof {
            reveal(Seq::filter);
            assert(ids@.take(i as int + 1).drop_last() == ids@.take(i as int));
        }
        if ids[i] != id {
            kept.push(ids[i]);
        }
        i = i + 1;
    }
    proof {
        assert(old(ids)@.take(old(ids)@.len() as int) == old(ids)@);
    }
    *ids = kept;
}

/// Subscribing an observer leaves it last and present exactly once, keeps the
/// other entries in their order, and subscribing it a second time changes
/// nothing.
pub proof fn lemma_subscribe_twice(ids: Seq<ObserverId>, id: ObserverId)
    ensures
        subscribed(ids, id).last() == id,
        !without(ids, id).contains(id),
        without(subscribed(ids, id), id) == without(ids, id),
        subscribed(subscribed(ids, id), id) == subscribed(ids, id),
{
    reveal(Seq::filter);
    let once = subscribed(ids, id);
    lemma_without_absent(ids, id);
    assert(once.drop_last() == without(ids, id));
    broadcast use vstd::seq_lib::group_filter_ensures;
    assert(without(once, id) == without(once.drop_last(), id));
    lemma_without_of_absent(without(ids, id), id);
}

/// Subscribing keeps a list free of duplicates.
pub proof fn lemma_subscribe_no_duplicates(ids: Seq<ObserverId>, id: ObserverId)
    requires
        ids.no_duplicates(),
    ensures
        subscribed(ids, id).no_duplicates(),
{
    lemma_without_absent(ids, id);
    lemma_without_no_duplicates(ids, id);
}

proof fn lemma_without_no_duplicates(ids: Seq<ObserverId>, id: ObserverId)
    requires
        ids.no_duplicates(),
    ensures
        without(ids, id).no_duplicates(),
        forall|x: ObserverId| #[trigger] without(ids, id).contains(x) ==> ids.contains(x),
    decreases ids.len(),
{
    reveal(Seq::filter);
    if ids.len() > 0 {
        let init = ids.drop_last();
        assert(ids == init.push(ids.last()));
        assert(init.no_duplicates());
        lemma_without_no_duplicates(init, id);
        assert(!init.contains(ids.last())) by {
            if init.contains(ids.last()) {
                let j = choose|j: int| 0 <= j < init.len() && init[j] == ids.last();
                assert(ids[j] == ids[ids.len() - 1]);
            }
        }
        let w0 = without(init, id);
        if ids.last() != id {
            assert(without(ids, id) == w0.push(ids.last()));
            assert(!w0.contains(ids.last()));
            let w = w0.push(ids.last());
            assert forall|a: int, b: int| 0 <= a < w.len() && 0 <= b < w.len() && a != b implies w[a] != w[b] by {
                if a == w.len() - 1 {
                    assert(w0[b] == w[b]);
                } else if b == w.len() - 1 {
                    assert(w0[a] == w[a]);
                }
            }
        } else {
            assert(without(ids, id) == w0);
        }
        assert forall|x: ObserverId| #[trigger] without(ids, id).contains(x) implies ids.contains(x) by {
            let w = without(ids, id);
            let j = choose|j: int| 0 <= j < w.len() && w[j] == x;
            if ids.last() != id && j == w.len() - 1 {
                assert(ids[ids.len() - 1] == x);
            } else {
                assert(without(init, id).contains(x));
                let k = choose|k: int| 0 <= k < init.len() && init[k] == x;
                assert(ids[k] == x);
            }
        }
    }
}

proof fn lemma_without_absent(ids: Seq<ObserverId>, id: ObserverId)
    ensures
        !without(ids, id).contains(id),
{
    broadcast use vstd::seq_lib::group_filter_ensures;
}

proof fn lemma_without_of_absent(ids: Seq<ObserverId>, id: ObserverId)
    requires
        !ids.contains(id),
    ensures
        without(ids, id) == ids,
    decreases ids.len(),
{
    reveal(Seq::filter);
    if ids.len() > 0 {
        assert(!ids.drop_last().contains(id)) by {
            if ids.drop_last().contains(id) {
                let j = choose|j: int| 0 <= j < ids.drop_last().len() && ids.drop_last()[j] == id;
                assert(ids[j] == id);
            }
        }
        lemma_without_of_absent(ids.drop_last(), id);
        assert(ids.drop_last().push(ids.last()) == ids);
    }
}

/// Something that holds an ordered list of observers and dispatches to it.
pub trait SignalSubject {
    /// The observers, in dispatch order.
    spec fn observers_view(&self) -> Seq<ObserverId>;

    fn get_observers(&self) -> (r: &Vec<ObserverId>)
        ensures
            r@ == self.observers_view(),
    ;

    /// Appends `new_observer`, first removing it if it is already present.
    fn subscribe_observer(&mut self, new_observer: ObserverId)
        ensures
            final(self).observers_view() == subscribed(old(self).observers_view(), new_observer),
    ;

    /// A separate copy of the observer list.
    fn copy_observers(&self) -> (r: Vec<ObserverId>)
        ensures
            r@ == self.observers_view(),
    {
        let observers = self.get_observers();
        let mut copy: Vec<ObserverId> = Vec::new();
        let mut i: usize = 0;
        while i < observers.len()
            invariant
                i <= observers@.len(),
                copy@ == observers@.take(i as int),
            decreases observers@.len() - i,
        {
            proof {
                assert(observers@.take(i as int + 1) == observers@.take(i as int).push(observers@[i as int]));
            }
            copy.push(observers[i]);
            i = i + 1;
        }
        proof {
            assert(observers@.take(observers@.len() as int) == observers@);
        }
        copy
    }

    /// Hands `event` to every observer of the list, in order, once each.
    fn send_signal<E, O: SignalObserver<E>>(&self, event: &E, table: &mut ObserverTable<E, O>)
        requires
            ids_below(self.observers_view(), old(table).len()),
        ensures
            final(table).len() == old(table).len(),
            final(table).deliveries() == old(table).deliveries() + deliveries_of(self.observers_view(), *event),
    {
        table.deliver_all(self.get_observers(), event);
    }

    /// A snapshot that pairs `event` with a copy of the current list.
    fn get_signal_snapshot<E>(&self, event: E) -> (r: SignalSnapShot<E>)
        ensures
            r.event() == event,
            r.subscribers() == self.observers_view(),
    {
        SignalSnapShot::new(event, self.copy_observers())
    }

    /// Hands `event` to every observer of the list, then to every entry of
    /// `targets`, in order; an observer found in both receives it twice.
    fn send_signal_to<E, O: SignalObserver<E>>(&self, event: &E, targets: &Vec<ObserverId>, table: &mut ObserverTable<E, O>)
        requires
            ids_below(self.observers_view(), old(table).len()),
            ids_below(targets@, old(table).len()),
        ensures
            final(table).len() == old(table).len(),
            final(table).deliveries() == old(table).deliveries() + deliveries_of(self.observers_view() + targets@, *event),
    {
        table.deliver_all(self.get_observers(), event);
        table.deliver_all(targets, event);
        proof {
            lemma_deliveries_concat(self.observers_view(), targets@, *event);
        }
    }

    /// A snapshot that pairs `event` with a copy of the current list followed
    /// by `targets`.
    fn get_signal_to_snapshot<E>(&self, event: E, targets: &Vec<ObserverId>) -> (r: SignalSnapShot<E>)
        ensures
            r.event() == event,
            r.subscribers() == self.observers_view() + targets@,
    {
        let mut subs = self.copy_observers();
        let mut extra = targets.clone();
        subs.append(&mut extra);
        SignalSnapShot::new(event, subs)
    }
}

/// Delivering to two lists in turn is delivering to their concatenation.
pub proof fn lemma_deliveries_concat<E>(a: Seq<ObserverId>, b: Seq<ObserverId>, event: E)
    ensures
        deliveries_of(a, event) + deliveries_of(b, event) == deliveries_of(a + b, event),
{
    assert(deliveries_of(a, event) + deliveries_of(b, event) =~= deliveries_of(a + b, event));
}

/// A subject: an ordered list of observers in which each appears at most once.
pub struct Subject {
    subs: Vec<ObserverId>,
}

impl Subject {
    /// No observer appears twice. Established by `new`; preserved by
    /// `subscribe_observer` (see `lemma_subscribe_no_duplicates`).
    pub open spec fn wf(&self) -> bool {
        self.observers_view().no_duplicates()
    }

    pub fn new() -> (r: Self)
        ensures
            r.wf(),
            r.observers_view() == Seq::<ObserverId>::empty(),
    {
        Subject { subs: Vec::new() }
    }
}

impl SignalSubject for Subject {
    closed spec fn observers_view(&self) -> Seq<ObserverId> {
        self.subs@
    }

    fn get_observers(&self) -> (r: &Vec<ObserverId>) {
        &self.subs
    }

    fn subscribe_observer(&mut self, new_observer: ObserverId) {
        remove_observer(&mut self.subs, new_observer);
        self.subs.push(new_observer);
    }
}

} // verus!
