use crate::callback::CallBack;
use crate::reminder::priority_order;
use crate::ready_queue::{
    check_outcome, earliest_in, latest_first, placed_in, ReadyQueue, Scheduled,
};
use std::cmp::Ordering;
use vstd::multiset::Multiset;
use vstd::prelude::*;

verus! {

/// A callback, the address (`host:port`) of the process that is to run it,
/// and the time from which it may run, in nanoseconds relative to the Unix
/// epoch (negative before it).
#[derive(Clone, Debug, PartialEq, Eq)]
pub struct Entry {
    callback: CallBack,
    callback_addr: String,
    time: i128,
}

impl Entry {
    /// The entry that `new` builds.
    pub closed spec fn spec_new(callback: CallBack, callback_addr: String, ready_at: i128) -> Entry {
        Entry { callback, callback_addr, time: ready_at }
    }

    pub closed spec fn callback_spec(&self) -> CallBack {
        self.callback
    }

    pub closed spec fn addr_spec(&self) -> Seq<char> {
        self.callback_addr@
    }

    pub fn new(callback: CallBack, callback_addr: String, ready_at: i128) -> (r: Entry)
        ensures
            r == Entry::spec_new(callback, callback_addr, ready_at),
            r.ready_at() == ready_at,
            r.callback_spec() == callback,
            r.addr_spec() == callback_addr@,
    {
        Entry { time: ready_at, callback: callback, callback_addr: callback_addr }
    }

    /// The readiness time.
    pub fn get_time(&self) -> (t: i128)
        ensures
            t == self.ready_at(),
    {
        self.time
    }

    /// The callback to run.
    pub fn callback(&self) -> (c: &CallBack)
        ensures
            *c == self.callback_spec(),
    {
        &self.callback
    }

    /// The address of the process that is to run the callback.
    pub fn callback_addr(&self) -> (a: &String)
        ensures
            a@ == self.addr_spec(),
    {
        &self.callback_addr
    }

    /// Ranks two entries as priorities: the one that is ready earlier is the
    /// greater.
    pub fn cmp(&self, other: &Entry) -> (r: Ordering)
        ensures
            r == priority_order(self.ready_at(), other.ready_at()),
    {
        if self.time > other.time {
            Ordering::Less
        } else if self.time == other.time {
            Ordering::Equal
        } else {
            Ordering::Greater
        }
    }
}

impl Scheduled for Entry {
    closed spec fn ready_at(&self) -> i128 {
        self.time
    }

    fn readiness_time(&self) -> (t: i128) {
        self.time
    }
}

impl PartialOrd for Entry {
    fn partial_cmp(&self, other: &Entry) -> (r: Option<Ordering>) {
        Some(self.cmp(other))
    }
}

impl vstd::std_specs::cmp::PartialOrdSpecImpl for Entry {
    open spec fn obeys_partial_cmp_spec() -> bool {
        true
    }

    open spec fn partial_cmp_spec(&self, other: &Entry) -> Option<Ordering> {
        Some(priority_order(self.ready_at(), other.ready_at()))
    }
}

/// What an entry built from its parts holds.
pub broadcast proof fn lemma_new_entry(callback: CallBack, callback_addr: String, ready_at: i128)
    ensures
        #![trigger Entry::spec_new(callback, callback_addr, ready_at)]
        Entry::spec_new(callback, callback_addr, ready_at).ready_at() == ready_at,
        Entry::spec_new(callback, callback_addr, ready_at).callback_spec() == callback,
        Entry::spec_new(callback, callback_addr, ready_at).addr_spec() == callback_addr@,
{
}

/// Holds callbacks, each with the address of the process that is to run it,
/// until they become ready, and hands each out once it is.
pub struct ReadyReminderServer {
    entries: ReadyQueue<Entry>,
}

impl View for ReadyReminderServer {
    type V = Seq<Entry>;

    /// The pending entries, latest readiness time first.
    closed spec fn view(&self) -> Seq<Entry> {
        self.entries@
    }
}

impl ReadyReminderServer {
    /// Pending entries are kept latest readiness time first.
    pub open spec fn wf(&self) -> bool {
        latest_first(self@)
    }

    /// The pending entries, with no order.
    pub open spec fn pending(&self) -> Multiset<Entry> {
        self@.to_multiset()
    }

    /// A server with nothing pending.
    pub fn new() -> (r: ReadyReminderServer)
        ensures
            r.wf(),
            r@ == Seq::<Entry>::empty(),
    {
        ReadyReminderServer { entries: ReadyQueue::new() }
    }

    /// Adds an entry that has `callback` run at `callback_addr` from
    /// `ready_at` on. A time in the past is accepted: the entry is then ready
    /// at once.
    pub fn submit_event(&mut self, callback: CallBack, callback_addr: String, ready_at: i128)
        requires
            old(self).wf(),
            old(self)@.len() < usize::MAX,
        ensures
            final(self).wf(),
            placed_in(final(self)@, old(self)@, Entry::spec_new(callback, callback_addr, ready_at)),
            final(self).pending() == old(self).pending().insert(
                Entry::spec_new(callback, callback_addr, ready_at),
            ),
            final(self)@.len() == old(self)@.len() + 1,
    {
        let entry = Entry::new(callback, callback_addr, ready_at);
        self.entries.insert(entry);
    }

    /// The number of pending entries.
    pub fn len(&self) -> (n: usize)
        ensures
            n == self@.len(),
    {
        self.entries.len()
    }

    /// The pending entry with the earliest readiness time, left in place.
    pub fn peek(&self) -> (r: Option<&Entry>)
        requires
            self.wf(),
        ensures
            r is None <==> self@.len() == 0,
            r matches Some(e) ==> *e == self@.last() && earliest_in(*e, self@),
    {
        self.entries.peek()
    }

    /// One readiness check at time `now`: the pending entry with the earliest
    /// readiness time leaves and is returned, to be sent to its address, if
    /// that time is not after `now`; otherwise nothing changes.
    pub fn poll(&mut self, now: i128) -> (r: Option<Entry>)
        requires
            old(self).wf(),
        ensures
            final(self).wf(),
            (final(self)@, r) == check_outcome(old(self)@, now),
            r matches Some(e) ==> {
                &&& e.ready_at() <= now
                &&& earliest_in(e, old(self)@)
                &&& final(self)@.len() == old(self)@.len() - 1
                &&& old(self).pending() == final(self).pending().insert(e)
            },
            r is None ==> final(self)@ == old(self)@,
    {
        self.entries.pop_ready(now)
    }
}

} // verus!
