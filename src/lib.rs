//! In-process publish/subscribe signal dispatch.
//!
//! Observers live in an [`observer::ObserverTable`] and are referred to by a
//! stable [`observer::ObserverId`]; subjects and snapshots hold ordered lists of
//! such ids, and every call of `process_signal` goes through the table, which
//! keeps a ghost record of the deliveries made so far.
//!
//! Dispatch borrows the subject (or snapshot) immutably and the table
//! mutably for the whole pass, so an observer cannot change the list being
//! walked while it is being walked: a pass always reaches exactly the list
//! as it stood when the pass began.
pub mod observer;
pub mod subject;
pub mod snapshot;
pub mod queue;
