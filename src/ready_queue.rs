use vstd::multiset::Multiset;
use vstd::prelude::*;

verus! {

broadcast use vstd::seq_lib::group_to_multiset_ensures;

/// A value that carries the point in time from which it is ready.
pub trait Scheduled {
    /// The readiness time, in nanoseconds relative to the Unix epoch.
    spec fn ready_at(&self) -> i128;

    fn readiness_time(&self) -> (t: i128)
        ensures
            t == self.ready_at(),
    ;
}

/// `s` is arranged from the latest readiness time down to the earliest.
pub open spec fn latest_first<E: Scheduled>(s: Seq<E>) -> bool {
    forall|i: int, j: int| 0 <= i < j < s.len() ==> s[i].ready_at() >= s[j].ready_at()
}

/// `e` is ready no later than any item of `s`.
pub open spec fn earliest_in<E: Scheduled>(e: E, s: Seq<E>) -> bool {
    forall|i: int| 0 <= i < s.len() ==> e.ready_at() <= #[trigger] s[i].ready_at()
}

/// What one readiness check at time `now` does to a queue laid out as `q`:
/// the earliest value leaves, and is handed out, when it is ready by `now`.
pub open spec fn check_outcome<E: Scheduled>(q: Seq<E>, now: i128) -> (Seq<E>, Option<E>) {
    if q.len() > 0 && q.last().ready_at() <= now {
        (q.drop_last(), Some(q.last()))
    } else {
        (q, None)
    }
}

/// A run of readiness checks at the times `nows`, in turn, from a queue laid
/// out as `q`: what is left in the queue, and the values handed out, in the
/// order they left.
pub open spec fn check_run<E: Scheduled>(q: Seq<E>, nows: Seq<i128>) -> (Seq<E>, Seq<E>)
    decreases nows.len(),
{
    if nows.len() == 0 {
        (q, Seq::empty())
    } else {
        let (q1, r) = check_outcome(q, nows[0]);
        let (rest, fired) = check_run(q1, nows.drop_first());
        match r {
            Some(e) => (rest, seq![e] + fired),
            None => (rest, fired),
        }
    }
}

/// A value held further in than the last place of a well-ordered queue is
/// ready no earlier than the value in the last place.
proof fn lemma_last_is_earliest<E: Scheduled>(q: Seq<E>, x: E)
    requires
        latest_first(q),
        q.len() > 0,
        q.drop_last().to_multiset().count(x) > 0,
    ensures
        q.last().ready_at() <= x.ready_at(),
{
    assert(q.drop_last().contains(x));
    let k = choose|k: int| 0 <= k < q.drop_last().len() && q.drop_last()[k] == x;
    assert(q[k] == x);
}

/// Any run of readiness checks on a well-ordered queue hands out each held
/// value at most once and loses none: what was handed out and what is left
/// together are exactly what was held. The values are handed out in
/// non-decreasing order of readiness time, none of them later than any value
/// that is left, and what is left stays well ordered.
pub proof fn lemma_check_run<E: Scheduled>(q: Seq<E>, nows: Seq<i128>)
    requires
        latest_first(q),
    ensures
        ({
            let (rest, fired) = check_run(q, nows);
            &&& fired.to_multiset().add(rest.to_multiset()) == q.to_multiset()
            &&& latest_first(rest)
            &&& forall|i: int, j: int|
                0 <= i < j < fired.len() ==> fired[i].ready_at() <= fired[j].ready_at()
            &&& forall|i: int, k: int|
                0 <= i < fired.len() && 0 <= k < rest.len() ==> fired[i].ready_at()
                    <= rest[k].ready_at()
        }),
    decreases nows.len(),
{
    broadcast use vstd::multiset::group_multiset_axioms;

    if nows.len() == 0 {
        assert(Seq::<E>::empty().to_multiset().add(q.to_multiset()) =~= q.to_multiset());
    } else {
        let (q1, r) = check_outcome(q, nows[0]);
        assert(latest_first(q1));
        lemma_check_run(q1, nows.drop_first());
        let (rest, fired1) = check_run(q1, nows.drop_first());
        if let Some(e) = r {
            let fired = seq![e] + fired1;
            assert(q1.push(e) == q);
            vstd::seq_lib::lemma_multiset_commutative(seq![e], fired1);
            assert(fired1 + seq![e] == fired1.push(e));
            assert(fired.to_multiset().add(rest.to_multiset()) =~= q.to_multiset());
            assert forall|j: int| 0 <= j < fired1.len() implies e.ready_at()
                <= #[trigger] fired1[j].ready_at() by {
                assert(fired1.to_multiset().count(fired1[j]) > 0);
                lemma_last_is_earliest(q, fired1[j]);
            }
            assert forall|k: int| 0 <= k < rest.len() implies e.ready_at()
                <= #[trigger] rest[k].ready_at() by {
                assert(rest.to_multiset().count(rest[k]) > 0);
                lemma_last_is_earliest(q, rest[k]);
            }
            assert forall|i: int, j: int| 0 <= i < j < fired.len() implies fired[i].ready_at()
                <= fired[j].ready_at() by {
                if i > 0 {
                    assert(fired[i] == fired1[i - 1]);
                }
                assert(fired[j] == fired1[j - 1]);
            }
            assert forall|i: int, k: int|
                0 <= i < fired.len() && 0 <= k < rest.len() implies fired[i].ready_at()
                <= rest[k].ready_at() by {
                if i > 0 {
                    assert(fired[i] == fired1[i - 1]);
                }
            }
        }
    }
}

/// `q2` is `q` with `e` placed after every value that is ready later than
/// `e`, and before the rest.
pub open spec fn placed_in<E: Scheduled>(q2: Seq<E>, q: Seq<E>, e: E) -> bool {
    exists|p: int|
        {
            &&& 0 <= p <= q.len()
            &&& q2 == q.insert(p, e)
            &&& forall|i: int| 0 <= i < p ==> #[trigger] q[i].ready_at() > e.ready_at()
            &&& forall|i: int| p <= i < q.len() ==> #[trigger] q[i].ready_at() <= e.ready_at()
        }
}

/// A priority queue of scheduled values that hands out the value with the
/// earliest readiness time first.
pub struct ReadyQueue<E> {
    items: Vec<E>,
}

impl<E: Scheduled> View for ReadyQueue<E> {
    type V = Seq<E>;

    /// The held values, latest readiness time first.
    closed spec fn view(&self) -> Seq<E> {
        self.items@
    }
}

impl<E: Scheduled> ReadyQueue<E> {
    /// The order that every queue keeps.
    pub open spec fn wf(&self) -> bool {
        latest_first(self@)
    }

    /// The held values, with no order.
    pub open spec fn contents(&self) -> Multiset<E> {
        self@.to_multiset()
    }

    /// The value that the queue hands out next, if it holds any.
    pub open spec fn head(&self) -> Option<E> {
        if self@.len() == 0 {
            None
        } else {
            Some(self@.last())
        }
    }

    /// An empty queue.
    pub fn new() -> (q: ReadyQueue<E>)
        ensures
            q.wf(),
            q@ == Seq::<E>::empty(),
    {
        ReadyQueue { items: Vec::new() }
    }

    /// The number of held values.
    pub fn len(&self) -> (n: usize)
        ensures
            n == self@.len(),
    {
        self.items.len()
    }

    pub fn is_empty(&self) -> (b: bool)
        ensures
            b <==> self@.len() == 0,
    {
        self.items.len() == 0
    }

    /// Adds `e`; values already held with the same readiness time stay ahead
    /// of it.
    pub fn insert(&mut self, e: E)
        requires
            old(self).wf(),
            old(self)@.len() < usize::MAX,
        ensures
            final(self).wf(),
            placed_in(final(self)@, old(self)@, e),
            final(self).contents() == old(self).contents().insert(e),
            final(self)@.len() == old(self)@.len() + 1,
    {
        let t = e.readiness_time();
        let mut lo: usize = 0;
        let mut hi: usize = self.items.len();
        while lo < hi
            invariant
                0 <= lo <= hi <= self.items@.len(),
                self.wf(),
                forall|i: int| 0 <= i < lo ==> #[trigger] self.items@[i].ready_at() > t,
                forall|i: int| hi <= i < self.items@.len() ==> #[trigger] self.items@[i].ready_at() <= t,
            decreases hi - lo,
        {
            let mid = lo + (hi - lo) / 2;
            if self.items[mid].readiness_time() > t {
                lo = mid + 1;
            } else {
                hi = mid;
            }
        }
        let ghost before = self.items@;
        self.items.insert(lo, e);
        proof {
            before.insert_ensures(lo as int, e);
            assert(self.items@ == before.insert(lo as int, e));
            assert(placed_in(self.items@, before, e));
            assert forall|i: int, j: int| 0 <= i < j < self.items@.len() implies
                self.items@[i].ready_at() >= self.items@[j].ready_at() by {
                if j < lo {
                } else if j == lo {
                    assert(before[i].ready_at() > t);
                } else if i < lo {
                    assert(self.items@[j] == before[j - 1]);
                } else if i == lo {
                    assert(self.items@[j] == before[j - 1]);
                    assert(before[j - 1].ready_at() <= t);
                } else {
                    assert(self.items@[i] == before[i - 1]);
                    assert(self.items@[j] == before[j - 1]);
                }
            }
        }
    }

    /// The value with the earliest readiness time, left in place.
    pub fn peek(&self) -> (r: Option<&E>)
        requires
            self.wf(),
        ensures
            r matches Some(e) ==> self.head() == Some(*e),
            r is None <==> self.head() is None,
            self.head() matches Some(h) ==> earliest_in(h, self@),
    {
        let n = self.items.len();
        if n == 0 {
            None
        } else {
            Some(&self.items[n - 1])
        }
    }

    /// Removes and returns the value with the earliest readiness time.
    pub fn pop(&mut self) -> (r: Option<E>)
        requires
            old(self).wf(),
        ensures
            final(self).wf(),
            r == old(self).head(),
            r is None ==> final(self)@ == old(self)@,
            r matches Some(e) ==> {
                &&& final(self)@ == old(self)@.drop_last()
                &&& earliest_in(e, old(self)@)
                &&& final(self).contents() == old(self).contents().remove(e)
            },
    {
        let ghost before = self.items@;
        let r = self.items.pop();
        proof {
            if before.len() > 0 {
                assert(before.drop_last() == before.remove(before.len() - 1));
            }
        }
        r
    }

    /// One readiness check at time `now`: removes and returns the value with
    /// the earliest readiness time if that time is not after `now`.
    pub fn pop_ready(&mut self, now: i128) -> (r: Option<E>)
        requires
            old(self).wf(),
        ensures
            final(self).wf(),
            (final(self)@, r) == check_outcome(old(self)@, now),
            r matches Some(e) ==> {
                &&& e.ready_at() <= now
                &&& earliest_in(e, old(self)@)
                &&& final(self)@.len() == old(self)@.len() - 1
                &&& old(self).contents() == final(self).contents().insert(e)
            },
            r is None ==> final(self)@ == old(self)@,
    {
        let n = self.items.len();
        if n == 0 {
            return None;
        }
        if self.items[n - 1].readiness_time() <= now {
            let r = self.pop();
            proof {
                let e = r.unwrap();
                assert(old(self)@.drop_last().push(e) == old(self)@);
            }
            r
        } else {
            None
        }
    }
}

} // verus!
