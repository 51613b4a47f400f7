//! The subscriber list of a store together with the record of every call
//! made to its subscribers.
//!
//! A subscriber's callback can only be invoked with a [`CallRecord`] to
//! write the call into, and records are made only here: the list's own, and
//! the one a single round of calls returns. So every call of a subscriber
//! that a store makes is written in a record, in the order it was made.

use crate::common::registry::{calls_for, remove_subscriber, without_id};
use crate::single_threaded::subscription::SubscriberCallback;
use crate::common::types::SubscriberId;
use vstd::prelude::*;

verus! {

/// The subscriber calls made so far, in the order they were made: the
/// identifier the subscriber was called under, its callback, and the value
/// handed to it.
#[verifier::reject_recursive_types(T)]
pub struct CallRecord<T: 'static> {
    calls: Ghost<Seq<(SubscriberId, SubscriberCallback<T>, T)>>,
}

impl<T: 'static> CallRecord<T> {
    /// The calls written in the record, in the order they were made.
    pub closed spec fn calls(&self) -> Seq<(SubscriberId, SubscriberCallback<T>, T)> {
        self.calls@
    }

    /// A record with no call in it.
    fn empty() -> (r: Self)
        ensures
            r.calls() == Seq::<(SubscriberId, SubscriberCallback<T>, T)>::empty(),
    {
        CallRecord { calls: Ghost(Seq::empty()) }
    }
}

/// The subscribers of a store, in the order they subscribed, and the record
/// of every call made to them.
#[verifier::reject_recursive_types(T)]
pub struct Subscribers<T: 'static> {
    entries: Vec<(SubscriberId, SubscriberCallback<T>)>,
    record: CallRecord<T>,
}

impl<T: 'static> Subscribers<T> {
    /// The subscribers, in the order they subscribed.
    pub closed spec fn entries(&self) -> Seq<(SubscriberId, SubscriberCallback<T>)> {
        self.entries@
    }

    /// Every call made to the subscribers, in the order it was made.
    pub closed spec fn calls(&self) -> Seq<(SubscriberId, SubscriberCallback<T>, T)> {
        self.record.calls()
    }

    /// No subscriber and no call made.
    pub fn new() -> (r: Self)
        ensures
            r.entries() == Seq::<(SubscriberId, SubscriberCallback<T>)>::empty(),
            r.calls() == Seq::<(SubscriberId, SubscriberCallback<T>, T)>::empty(),
    {
        Subscribers { entries: Vec::new(), record: CallRecord::empty() }
    }

    /// Appends `callback` under `id`; calls nobody.
    pub fn push(&mut self, id: SubscriberId, callback: SubscriberCallback<T>)
        ensures
            final(self).entries() == old(self).entries().push((id, callback)),
            final(self).calls() == old(self).calls(),
    {
        self.entries.push((id, callback));
    }

    /// Removes every entry carrying `id`, keeping the order of the others;
    /// calls nobody.
    pub fn remove_id(&mut self, id: SubscriberId)
        ensures
            final(self).entries() == without_id(old(self).entries(), id),
            final(self).calls() == old(self).calls(),
    {
        remove_subscriber(&mut self.entries, id);
    }

    /// Calls every subscriber once, in list order, with `value`.
    pub fn notify(&mut self, value: &T)
        ensures
            final(self).entries() == old(self).entries(),
            final(self).calls() == old(self).calls() + calls_for(old(self).entries(), *value),
    {
        let n = self.entries.len();
        let mut i: usize = 0;
        let ghost start = self.record.calls();
        while i < n
            invariant
                i <= n,
                n == self.entries@.len(),
                self.entries@ == old(self).entries@,
                self.record.calls() == start + calls_for(self.entries@.take(i as int), *value),
            decreases n - i,
        {
            let entry = &self.entries[i];
            entry.1.call(entry.0, value, &mut self.record);
            assert(self.entries@.take(i + 1) =~= self.entries@.take(i as int).push(self.entries@[i as int]));
            assert(self.record.calls() =~= start + calls_for(self.entries@.take(i + 1), *value));
            i = i + 1;
        }
        assert(self.entries@.take(n as int) =~= self.entries@);
    }

    /// Calls every subscriber once, in list order, with `value`, and returns
    /// the record of those calls.
    pub fn notify_once(&self, value: &T) -> (r: CallRecord<T>)
        ensures
            r.calls() == calls_for(self.entries(), *value),
    {
        let mut record = CallRecord::empty();
        let n = self.entries.len();
        let mut i: usize = 0;
        while i < n
            invariant
                i <= n,
                n == self.entries@.len(),
                record.calls() == calls_for(self.entries@.take(i as int), *value),
            decreases n - i,
        {
            let entry = &self.entries[i];
            entry.1.call(entry.0, value, &mut record);
            assert(self.entries@.take(i + 1) =~= self.entries@.take(i as int).push(self.entries@[i as int]));
            assert(record.calls() =~= calls_for(self.entries@.take(i + 1), *value));
            i = i + 1;
        }
        assert(self.entries@.take(n as int) =~= self.entries@);
        record
    }
}

} // verus!
