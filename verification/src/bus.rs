use vstd::prelude::*;

verus! {

/// One receiver's slot on the bus: a bounded pending queue, live until the
/// owning session releases it.
struct SubSlot {
    live: bool,
    queue: Vec<String>,
}

/// The shared fanout bus. Every published frame is delivered to the queue of
/// every live subscriber, in publish-call order; a subscriber that has
/// fallen behind past its queue's capacity loses its oldest pending frame
/// instead of stalling the publisher (lagging-consumer policy). A slow or
/// released receiver never blocks anyone: publish touches each queue once.
pub struct Broadcaster {
    capacity: usize,
    slots: Vec<SubSlot>,
}

/// What one receiver's queue holds after a frame is delivered to it: the
/// frame is appended; at capacity, the oldest pending frame is dropped
/// first.
pub open spec fn delivered(queue: Seq<Seq<char>>, frame: Seq<char>, cap: nat) -> Seq<Seq<char>> {
    if queue.len() < cap {
        queue.push(frame)
    } else {
        queue.drop_first().push(frame)
    }
}

/// A queue's deep view is its strings' views, index by index.
proof fn lemma_string_vec_deep_view(v: Vec<String>)
    ensures
        v.deep_view().len() == v@.len(),
        forall|k: int| 0 <= k < v@.len() ==> v.deep_view()[k] == v@[k]@,
{
}

impl Broadcaster {
    /// The bound on each receiver's pending queue.
    pub closed spec fn cap(self) -> nat {
        self.capacity as nat
    }

    /// How many subscriptions were ever taken (slots, live or released).
    pub closed spec fn sub_count(self) -> nat {
        self.slots@.len()
    }

    /// Whether receiver `i` is currently subscribed.
    pub closed spec fn is_live(self, i: int) -> bool {
        0 <= i < self.slots@.len() && self.slots@[i].live
    }

    /// The frames pending for receiver `i`, oldest first.
    pub closed spec fn pending(self, i: int) -> Seq<Seq<char>> {
        self.slots@[i].queue.deep_view()
    }

    pub open spec fn wf(self) -> bool {
        &&& self.cap() >= 1
        &&& forall|i: int| 0 <= i < self.sub_count() ==> (#[trigger] self.pending(i)).len() <= self.cap()
    }

    pub fn new(capacity: usize) -> (b: Self)
        requires
            capacity >= 1,
        ensures
            b.wf(),
            b.sub_count() == 0,
            b.cap() == capacity,
    {
        Broadcaster { capacity, slots: Vec::new() }
    }

    /// Registers a new receiver with an empty queue and returns its handle.
    /// Callable at any time: existing receivers are untouched.
    pub fn subscribe(&mut self) -> (i: usize)
        requires
            old(self).wf(),
            old(self).sub_count() < usize::MAX,
        ensures
            final(self).wf(),
            final(self).cap() == old(self).cap(),
            i as nat == old(self).sub_count(),
            final(self).sub_count() == old(self).sub_count() + 1,
            final(self).is_live(i as int),
            final(self).pending(i as int) == Seq::<Seq<char>>::empty(),
            forall|j: int|
                0 <= j < old(self).sub_count() ==> final(self).is_live(j) == old(self).is_live(j)
                    && final(self).pending(j) == old(self).pending(j),
    {
        let i = self.slots.len();
        self.slots.push(SubSlot { live: true, queue: Vec::new() });
        proof {
            assert(self.pending(i as int) =~= Seq::<Seq<char>>::empty());
            assert forall|j: int| 0 <= j < self.sub_count() implies (#[trigger] self.pending(
                j,
            )).len() <= self.cap() by {
                if j < old(self).sub_count() {
                    assert(self.slots@[j] == old(self).slots@[j]);
                    assert(old(self).pending(j).len() <= old(self).cap());
                }
            }
        }
        i
    }

    /// Releases receiver `i`'s subscription: its queue is discarded and
    /// nothing is delivered to it any longer.
    pub fn unsubscribe(&mut self, i: usize)
        requires
            old(self).wf(),
            (i as int) < old(self).sub_count(),
        ensures
            final(self).wf(),
            final(self).cap() == old(self).cap(),
            final(self).sub_count() == old(self).sub_count(),
            !final(self).is_live(i as int),
            final(self).pending(i as int) == Seq::<Seq<char>>::empty(),
            forall|j: int|
                0 <= j < old(self).sub_count() && j != i ==> final(self).is_live(j) == old(
                    self,
                ).is_live(j) && final(self).pending(j) == old(self).pending(j),
    {
        let slot = &mut self.slots[i];
        slot.live = false;
        slot.queue.clear();
        proof {
            assert(self.pending(i as int) =~= Seq::<Seq<char>>::empty());
            assert forall|j: int| 0 <= j < self.sub_count() implies (#[trigger] self.pending(
                j,
            )).len() <= self.cap() by {
                if j != i {
                    assert(self.slots@[j] == old(self).slots@[j]);
                    assert(old(self).pending(j).len() <= old(self).cap());
                }
            }
        }
    }

    /// Delivers the frame to every live receiver's queue. No receiver's
    /// state stalls another's: a full queue drops its oldest entry, a
    /// released slot is skipped, and everyone else is untouched by both.
    pub fn publish(&mut self, frame: &String)
        requires
            old(self).wf(),
        ensures
            final(self).wf(),
            final(self).cap() == old(self).cap(),
            final(self).sub_count() == old(self).sub_count(),
            forall|j: int|
                0 <= j < old(self).sub_count() ==> final(self).is_live(j) == old(self).is_live(j),
            forall|j: int|
                0 <= j < old(self).sub_count() && old(self).is_live(j) ==> final(self).pending(j)
                    == delivered(old(self).pending(j), frame@, old(self).cap()),
            forall|j: int|
                0 <= j < old(self).sub_count() && !old(self).is_live(j) ==> final(self).pending(j)
                    == old(self).pending(j),
    {
        let cap = self.capacity;
        let n = self.slots.len();
        let mut i: usize = 0;
        while i < n
            invariant
                old(self).wf(),
                cap == old(self).cap(),
                n == old(self).sub_count(),
                0 <= i <= n,
                self.cap() == old(self).cap(),
                self.sub_count() == old(self).sub_count(),
                forall|j: int| i <= j < n ==> self.slots@[j] == old(self).slots@[j],
                forall|j: int|
                    0 <= j < n ==> self.is_live(j) == old(self).is_live(j),
                forall|j: int|
                    0 <= j < i && old(self).is_live(j) ==> self.pending(j) == delivered(
                        old(self).pending(j),
                        frame@,
                        old(self).cap(),
                    ),
                forall|j: int|
                    0 <= j < i && !old(self).is_live(j) ==> self.pending(j) == old(self).pending(j),
                self.wf(),
            decreases n - i,
        {
            let ghost prev = *self;
            let slot = &mut self.slots[i];
            if slot.live {
                if slot.queue.len() == cap {
                    slot.queue.remove(0);
                }
                slot.queue.push(frame.clone());
            }
            proof {
                assert(forall|j: int|
                    0 <= j < n && j != i ==> self.slots@[j] == prev.slots@[j]);
                assert(prev.slots@[i as int] == old(self).slots@[i as int]);
                let oldq = old(self).slots@[i as int].queue;
                let newq = self.slots@[i as int].queue;
                let oldd = oldq.deep_view();
                let newd = newq.deep_view();
                lemma_string_vec_deep_view(oldq);
                lemma_string_vec_deep_view(newq);
                if old(self).is_live(i as int) {
                    let want = delivered(oldd, frame@, old(self).cap());
                    if oldq@.len() < cap {
                        assert(newq@.len() == oldq@.len() + 1);
                        assert(newq@.last()@ == frame@);
                        assert forall|k: int| 0 <= k < newd.len() implies newd[k] == want[k] by {
                            if k < oldq@.len() {
                                assert(newq@[k] == oldq@[k]);
                            } else {
                                assert(newq@[k] == newq@.last());
                            }
                        }
                        assert(newd =~= want);
                    } else {
                        assert(prev.pending(i as int).len() <= prev.cap());
                        assert(oldq@.len() == cap);
                        let mid = oldq@.remove(0);
                        oldq@.remove_ensures(0);
                        assert(newq@ == mid.push(newq@.last()));
                        assert(newq@.len() == oldq@.len());
                        assert(newq@.last()@ == frame@);
                        assert forall|k: int| 0 <= k < newd.len() implies newd[k] == want[k] by {
                            if k < oldq@.len() - 1 {
                                assert(newq@[k] == mid[k]);
                                assert(mid[k] == oldq@[k + 1]);
                                assert(want[k] == oldd.drop_first()[k]);
                                assert(oldd.drop_first()[k] == oldd[k + 1]);
                            } else {
                                assert(newq@[k] == newq@.last());
                            }
                        }
                        assert(newd =~= want);
                    }
                }
                assert forall|j: int| 0 <= j < self.sub_count() implies (#[trigger] self.pending(
                    j,
                )).len() <= self.cap() by {
                    if j != i {
                        assert(self.slots@[j] == prev.slots@[j]);
                        assert(prev.pending(j).len() <= prev.cap());
                    }
                }
            }
            i = i + 1;
        }
    }

    /// Takes the oldest pending frame for receiver `i`, if any. Repeated
    /// calls drain the queue front to back, so frames come out in the order
    /// they were delivered.
    pub fn receive(&mut self, i: usize) -> (r: Option<String>)
        requires
            old(self).wf(),
            old(self).is_live(i as int),
        ensures
            final(self).wf(),
            final(self).cap() == old(self).cap(),
            final(self).sub_count() == old(self).sub_count(),
            forall|j: int|
                0 <= j < old(self).sub_count() ==> final(self).is_live(j) == old(self).is_live(j),
            forall|j: int|
                0 <= j < old(self).sub_count() && j != i ==> final(self).pending(j) == old(
                    self,
                ).pending(j),
            (r is Some) <==> old(self).pending(i as int).len() > 0,
            r matches Some(f) ==> f@ == old(self).pending(i as int)[0] && final(self).pending(
                i as int,
            ) == old(self).pending(i as int).drop_first(),
            r is None ==> final(self).pending(i as int) == old(self).pending(i as int),
    {
        proof {
            lemma_string_vec_deep_view(self.slots@[i as int].queue);
        }
        let slot = &mut self.slots[i];
        if slot.queue.len() == 0 {
            proof {
                assert(self.slots@[i as int] == old(self).slots@[i as int]);
                assert forall|j: int| 0 <= j < self.sub_count() implies (#[trigger] self.pending(
                    j,
                )).len() <= self.cap() by {
                    assert(self.slots@[j] == old(self).slots@[j]);
                    assert(old(self).pending(j).len() <= old(self).cap());
                }
            }
            None
        } else {
            let f = slot.queue.remove(0);
            proof {
                let oldq = old(self).slots@[i as int].queue;
                let newq = self.slots@[i as int].queue;
                lemma_string_vec_deep_view(oldq);
                lemma_string_vec_deep_view(newq);
                oldq@.remove_ensures(0);
                assert(newq@ == oldq@.remove(0));
                assert forall|k: int| 0 <= k < newq.deep_view().len() implies newq.deep_view()[k]
                    == oldq.deep_view().drop_first()[k] by {
                    assert(newq@[k] == oldq@[k + 1]);
                    assert(oldq.deep_view().drop_first()[k] == oldq.deep_view()[k + 1]);
                }
                assert(newq.deep_view() =~= oldq.deep_view().drop_first());
                assert forall|j: int| 0 <= j < self.sub_count() implies (#[trigger] self.pending(
                    j,
                )).len() <= self.cap() by {
                    if j != i {
                        assert(self.slots@[j] == old(self).slots@[j]);
                        assert(old(self).pending(j).len() <= old(self).cap());
                    }
                }
            }
            Some(f)
        }
    }
}

/// Fanout correctness: one publish hands the frame to a receiver within its
/// backlog capacity exactly once — the receiver keeps every frame it had,
/// in order, and sees the published frame after all of them. Frames from
/// one publisher are therefore observed in the order they were published.
pub proof fn lemma_fanout(queue: Seq<Seq<char>>, frame: Seq<char>, cap: nat)
    requires
        queue.len() < cap,
    ensures
        delivered(queue, frame, cap).len() == queue.len() + 1,
        delivered(queue, frame, cap)[queue.len() as int] == frame,
        forall|j: int| 0 <= j < queue.len() ==> delivered(queue, frame, cap)[j] == queue[j],
        delivered(queue, frame, cap).to_multiset().count(frame) == queue.to_multiset().count(frame)
            + 1,
{
    broadcast use vstd::seq_lib::group_to_multiset_ensures;

    assert(delivered(queue, frame, cap) == queue.push(frame));
    assert(queue.push(frame).to_multiset() =~= queue.to_multiset().insert(frame));
}

/// The lagging-consumer policy loses only what it must: a receiver already
/// at capacity drops exactly its oldest pending frame, keeps the rest in
/// order, and still sees the published frame after them.
pub proof fn lemma_lagging_receiver(queue: Seq<Seq<char>>, frame: Seq<char>, cap: nat)
    requires
        queue.len() == cap,
        cap >= 1,
    ensures
        delivered(queue, frame, cap).len() == cap,
        delivered(queue, frame, cap)[cap - 1] == frame,
        forall|j: int| 0 <= j < cap - 1 ==> delivered(queue, frame, cap)[j] == queue[j + 1],
{
}

} // verus!
