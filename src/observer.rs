use vstd::prelude::*;

verus! {

/// Identity of an observer: its position in the [`ObserverTable`] that owns it.
/// Two references are the same observer exactly when their ids are equal.
pub type ObserverId = usize;

/// A receiver of signals. The event is shared: every recipient of one dispatch
/// is handed the same value.
pub trait SignalObserver<E> {
    fn process_signal(&mut self, event: &E);
}

/// True when every id of `ids` names an observer of a table holding `n`.
pub open spec fn ids_below(ids: Seq<ObserverId>, n: nat) -> bool {
    forall|i: int| 0 <= i < ids.len() ==> (#[trigger] ids[i]) < n
}

/// The deliveries of `event` to each of `ids`, in order.
pub open spec fn deliveries_of<E>(ids: Seq<ObserverId>, event: E) -> Seq<(ObserverId, E)> {
    ids.map_values(|id: ObserverId| (id, event))
}

/// Owner of the observers. Every `process_signal` call made by this library
/// goes through [`ObserverTable::deliver`], and `deliveries` records them in
/// the order they were made.
pub struct ObserverTable<E, O> {
    observers: Vec<O>,
    trace: Ghost<Seq<(ObserverId, E)>>,
}

impl<E, O: SignalObserver<E>> ObserverTable<E, O> {
    /// Number of observers held.
    pub closed spec fn len(&self) -> nat {
        self.observers@.len()
    }

    /// Observer held under `id`.
    pub closed spec fn observer(&self, id: ObserverId) -> O {
        self.observers@[id as int]
    }

    /// Every `(recipient, event)` handed to `process_signal` so far, oldest first.
    pub closed spec fn deliveries(&self) -> Seq<(ObserverId, E)> {
        self.trace@
    }

    pub fn new() -> (r: Self)
        ensures
            r.len() == 0,
            r.deliveries() == Seq::<(ObserverId, E)>::empty(),
    {
        ObserverTable { observers: Vec::new(), trace: Ghost(Seq::empty()) }
    }

    /// Takes ownership of `observer` and returns its id, which is the number
    /// of observers held before.
    pub fn add(&mut self, observer: O) -> (id: ObserverId)
        ensures
            id == old(self).len(),
            final(self).len() == old(self).len() + 1,
            final(self).observer(id) == observer,
            forall|i: ObserverId| i < old(self).len() ==> final(self).observer(i) == old(self).observer(i),
            final(self).deliveries() == old(self).deliveries(),
    {
        let id = self.observers.len();
        self.observers.push(observer);
        id
    }

    /// Number of observers held.
    pub fn observer_count(&self) -> (r: usize)
        ensures
            r == self.len(),
    {
        self.observers.len()
    }

    /// The observer held under `id`.
    pub fn get(&self, id: ObserverId) -> (r: &O)
        requires
            id < self.len(),
        ensures
            *r == self.observer(id),
    {
        &self.observers[id]
    }

    /// Hands `event` to the observer `id`.
    pub fn deliver(&mut self, id: ObserverId, event: &E)
        requires
            id < old(self).len(),
        ensures
            final(self).len() == old(self).len(),
            final(self).deliveries() == old(self).deliveries().push((id, *event)),
    {
        self.observers[id].process_signal(event);
        self.trace = Ghost(self.trace@.push((id, *event)));
    }

    /// Hands `event` to each observer of `ids`, in order, once per entry.
    pub fn deliver_all(&mut self, ids: &Vec<ObserverId>, event: &E)
        requires
            ids_below(ids@, old(self).len()),
        ensures
            final(self).len() == old(self).len(),
            final(self).deliveries() == old(self).deliveries() + deliveries_of(ids@, *event),
    {
        let mut i: usize = 0;
        while i < ids.len()
            invariant
                i <= ids@.len(),
                ids_below(ids@, self.len()),
                self.len() == old(self).len(),
                self.deliveries() == old(self).deliveries() + deliveries_of(ids@.take(i as int), *event),
            decreases ids@.len() - i,
        {
            proof {
                assert(ids@.take(i as int + 1) == ids@.take(i as int).push(ids@[i as int]));
            }
            self.deliver(ids[i], event);
            i = i + 1;
        }
        proof {
            assert(ids@.take(ids@.len() as int) == ids@);
        }
    }
}

} // verus!
