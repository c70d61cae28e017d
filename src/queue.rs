use std::collections::VecDeque;
use vstd::prelude::*;

use crate::observer::{deliveries_of, ids_below, ObserverTable, SignalObserver};
use crate::snapshot::SignalSnapShot;

verus! {

/// A first-in, first-out queue of snapshots, drained one at a time by
/// [`SignalQueue::next_signal`].
pub struct SignalQueue<E> {
    signal_queue: VecDeque<SignalSnapShot<E>>,
}

/// The head of `q` can be executed against a table of `n` observers.
pub open spec fn head_ready<E>(q: Seq<SignalSnapShot<E>>, n: nat) -> bool {
    q.len() > 0 ==> ids_below(q[0].subscribers(), n)
}

/// First in, first out: once the snapshots already queued have left, two
/// snapshots pushed one after the other leave in the order they were pushed.
pub proof fn lemma_fifo<E>(q: Seq<SignalSnapShot<E>>, s1: SignalSnapShot<E>, s2: SignalSnapShot<E>)
    ensures
        q.push(s1).push(s2).skip(q.len() as int) == seq![s1, s2],
        q.len() == 0 ==> q.push(s1).push(s2)[0] == s1 && q.push(s1).push(s2).drop_first()[0] == s2,
{
    assert(q.push(s1).push(s2).skip(q.len() as int) =~= seq![s1, s2]);
}

impl<E> View for SignalQueue<E> {
    type V = Seq<SignalSnapShot<E>>;

    /// The pending snapshots, head first.
    closed spec fn view(&self) -> Seq<SignalSnapShot<E>> {
        self.signal_queue@
    }
}

impl<E> SignalQueue<E> {
    pub fn new() -> (r: Self)
        ensures
            r@ == Seq::<SignalSnapShot<E>>::empty(),
    {
        SignalQueue { signal_queue: VecDeque::new() }
    }

    /// Appends `signal` at the tail.
    pub fn push(&mut self, signal: SignalSnapShot<E>)
        ensures
            final(self)@ == old(self)@.push(signal),
    {
        self.signal_queue.push_back(signal);
    }

    /// Removes the head, if any.
    fn pop(&mut self) -> (r: Option<SignalSnapShot<E>>)
        ensures
            old(self)@.len() == 0 ==> r is None && final(self)@ == old(self)@,
            old(self)@.len() > 0 ==> r == Some(old(self)@[0]) && final(self)@ == old(self)@.drop_first(),
    {
        self.signal_queue.pop_front()
    }

    /// Removes the head snapshot, executes it and returns it; on an empty
    /// queue returns `None` and delivers nothing.
    pub fn next_signal<O: SignalObserver<E>>(&mut self, table: &mut ObserverTable<E, O>) -> (r: Option<SignalSnapShot<E>>)
        requires
            head_ready(old(self)@, old(table).len()),
        ensures
            final(table).len() == old(table).len(),
            old(self)@.len() == 0 ==> {
                &&& r is None
                &&& final(self)@ == old(self)@
                &&& final(table).deliveries() == old(table).deliveries()
            },
            old(self)@.len() > 0 ==> {
                &&& r == Some(old(self)@[0])
                &&& final(self)@ == old(self)@.drop_first()
                &&& final(table).deliveries() == old(table).deliveries()
                    + deliveries_of(old(self)@[0].subscribers(), old(self)@[0].event())
            },
    {
        match self.pop() {
            Some(s) => {
                s.execute(table);
                Some(s)
            },
            None => None,
        }
    }

    pub fn is_empty(&self) -> (r: bool)
        ensures
            r == (self@.len() == 0),
    {
        self.signal_queue.len() == 0
    }

    pub fn len(&self) -> (r: usize)
        ensures
            r == self@.len(),
    {
        self.signal_queue.len()
    }
}

} // verus!
