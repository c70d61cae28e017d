use vstd::prelude::*;

use crate::observer::{deliveries_of, ids_below, ObserverId, ObserverTable, SignalObserver};
use crate::subject::{remove_observer, SignalSubject};

verus! {

/// An event paired with the list of observers it is meant for. The list is
/// owned by the snapshot, so later changes to the subject it was taken from
/// do not reach it; it can still be extended by subscribing to it.
pub struct SignalSnapShot<E> {
    event: E,
    subs: Vec<ObserverId>,
}

impl<E> SignalSnapShot<E> {
    pub closed spec fn event(&self) -> E {
        self.event
    }

    /// The observers the event is meant for, in dispatch order.
    pub closed spec fn subscribers(&self) -> Seq<ObserverId> {
        self.subs@
    }

    pub fn new(event: E, subs: Vec<ObserverId>) -> (r: Self)
        ensures
            r.event() == event,
            r.subscribers() == subs@,
    {
        SignalSnapShot { event, subs }
    }

    /// The event this snapshot carries.
    pub fn get_event(&self) -> (r: &E)
        ensures
            *r == self.event(),
    {
        &self.event
    }

    /// Hands the event to every observer of the list, in order, once each.
    /// Executing again delivers again.
    pub fn execute<O: SignalObserver<E>>(&self, table: &mut ObserverTable<E, O>)
        requires
            ids_below(self.subscribers(), old(table).len()),
        ensures
            final(table).len() == old(table).len(),
            final(table).deliveries() == old(table).deliveries() + deliveries_of(self.subscribers(), self.event()),
    {
        table.deliver_all(&self.subs, &self.event);
    }
}

impl<E> SignalSubject for SignalSnapShot<E> {
    open spec fn observers_view(&self) -> Seq<ObserverId> {
        self.subscribers()
    }

    fn get_observers(&self) -> (r: &Vec<ObserverId>) {
        &self.subs
    }

    fn subscribe_observer(&mut self, new_observer: ObserverId) {
        remove_observer(&mut self.subs, new_observer);
        self.subs.push(new_observer);
    }
}

} // verus!
