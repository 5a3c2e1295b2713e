//! Broadcast fan-out: every successfully created or updated message is
//! copied to every live subscriber. Each subscriber owns an independent
//! bounded queue; a publish never blocks on a slow subscriber — once a
//! queue is full its oldest pending message is dropped, which that
//! subscriber observes as a gap.

use vstd::prelude::*;

use crate::registry::Message;
use crate::registry::MessageModel;

verus! {

/// Mathematical model of one subscription: its handle and the messages
/// published since it subscribed that it has not yet taken out, oldest
/// first.
#[verifier::ext_equal]
pub ghost struct SubscriptionModel {
    pub handle: nat,
    pub pending: Seq<MessageModel>,
}

/// Mathematical model of the fan-out: the live subscriptions in the order
/// they subscribed, the next handle to hand out, and the bound every
/// pending queue respects.
#[verifier::ext_equal]
pub ghost struct BroadcasterModel {
    pub subs: Seq<SubscriptionModel>,
    pub next_handle: nat,
    pub capacity: nat,
}

/// No two subscriptions in `s` carry the same handle.
pub open spec fn unique_handles(s: Seq<SubscriptionModel>) -> bool {
    forall|a: int, b: int|
        0 <= a < s.len() && 0 <= b < s.len() && a != b ==> s[a].handle != s[b].handle
}

/// Some subscription in `s` carries the handle `h`.
pub open spec fn contains_handle(s: Seq<SubscriptionModel>, h: nat) -> bool {
    exists|k: int| 0 <= k < s.len() && s[k].handle == h
}

/// The position of the subscription carrying `h` (meaningful when
/// `contains_handle` holds; under `unique_handles` it is the only one).
pub open spec fn index_of_handle(s: Seq<SubscriptionModel>, h: nat) -> int {
    choose|k: int| 0 <= k < s.len() && s[k].handle == h
}

/// Under `unique_handles`, any position whose subscription carries `h` is
/// the position that `index_of_handle` picks.
pub proof fn lemma_subscription_at(s: Seq<SubscriptionModel>, h: nat, k: int)
    requires
        unique_handles(s),
        0 <= k < s.len(),
        s[k].handle == h,
    ensures
        contains_handle(s, h),
        index_of_handle(s, h) == k,
{
    assert(contains_handle(s, h));
    let k2 = index_of_handle(s, h);
    assert(0 <= k2 < s.len() && s[k2].handle == h);
    assert(k2 == k);
}

impl BroadcasterModel {
    /// Well-formedness: handles are pairwise distinct and were all handed
    /// out before `next_handle`; every pending queue respects the bound;
    /// the bound leaves room for at least one message.
    pub open spec fn wf(self) -> bool {
        &&& unique_handles(self.subs)
        &&& forall|k: int|
            0 <= k < self.subs.len() ==> #[trigger] self.subs[k].handle < self.next_handle
        &&& forall|k: int|
            0 <= k < self.subs.len() ==> #[trigger] self.subs[k].pending.len() <= self.capacity
        &&& self.capacity >= 1
    }
}

/// What one publish does to one pending queue: the message is appended,
/// and when the queue is already at `cap` its oldest entry makes room.
pub open spec fn bounded_push(q: Seq<MessageModel>, m: MessageModel, cap: nat) -> Seq<MessageModel> {
    if q.len() < cap {
        q.push(m)
    } else {
        q.subrange(1, q.len() as int).push(m)
    }
}

/// How one publish changes the fan-out: every subscription keeps its
/// handle and place, and its pending queue takes the published message
/// under the bound.
pub open spec fn publish_step(
    pre: BroadcasterModel,
    post: BroadcasterModel,
    m: MessageModel,
) -> bool {
    &&& post.next_handle == pre.next_handle
    &&& post.capacity == pre.capacity
    &&& post.subs.len() == pre.subs.len()
    &&& forall|k: int|
        0 <= k < pre.subs.len() ==> #[trigger] post.subs[k] == (SubscriptionModel {
            handle: pre.subs[k].handle,
            pending: bounded_push(pre.subs[k].pending, m, pre.capacity),
        })
}

/// Law: a subscriber keeps every message published after it subscribed,
/// in publish order, as long as the run of publishes fits its queue; in
/// particular it holds none of the messages published before.
pub proof fn lemma_subscriber_receives_in_order(
    states: Seq<BroadcasterModel>,
    ms: Seq<MessageModel>,
    i: int,
)
    requires
        states.len() == ms.len() + 1,
        forall|k: int| 0 <= k < ms.len() ==> publish_step(states[k], states[k + 1], ms[k]),
        0 <= i < states[0].subs.len(),
        states[0].subs[i].pending.len() == 0,
        ms.len() <= states[0].capacity,
    ensures
        states[ms.len() as int].subs.len() == states[0].subs.len(),
        states[ms.len() as int].capacity == states[0].capacity,
        states[ms.len() as int].subs[i].handle == states[0].subs[i].handle,
        states[ms.len() as int].subs[i].pending == ms,
    decreases ms.len(),
{
    let n = ms.len() as int;
    if n == 0 {
        assert(states[0].subs[i].pending =~= ms);
    } else {
        let states2 = states.drop_last();
        let ms2 = ms.drop_last();
        assert forall|k: int| 0 <= k < ms2.len() implies publish_step(
            states2[k],
            states2[k + 1],
            ms2[k],
        ) by {
            assert(publish_step(states[k], states[k + 1], ms[k]));
        }
        lemma_subscriber_receives_in_order(states2, ms2, i);
        assert(publish_step(states[n - 1], states[n], ms[n - 1]));
        assert(states[n - 1].subs[i].pending.len() < states[n - 1].capacity);
        assert(states[n].subs[i].pending =~= ms);
    }
}

/// One live subscription: the handle it was given and the published
/// messages it has not yet taken out.
struct Subscription {
    handle: u64,
    pending: Vec<Message>,
}

impl View for Subscription {
    type V = SubscriptionModel;

    closed spec fn view(&self) -> SubscriptionModel {
        SubscriptionModel {
            handle: self.handle as nat,
            pending: self.pending@.map_values(|m: Message| m@),
        }
    }
}

/// The fan-out itself: one bounded queue per live subscriber.
pub struct Broadcaster {
    subs: Vec<Subscription>,
    next_handle: u64,
    capacity: usize,
}

impl View for Broadcaster {
    type V = BroadcasterModel;

    closed spec fn view(&self) -> BroadcasterModel {
        BroadcasterModel {
            subs: self.subs@.map_values(|s: Subscription| s@),
            next_handle: self.next_handle as nat,
            capacity: self.capacity as nat,
        }
    }
}

impl Broadcaster {
    /// Well-formedness of the running fan-out.
    pub open spec fn wf(&self) -> bool {
        self@.wf()
    }

    /// A fan-out with no subscribers yet, whose queues will hold at most
    /// `capacity` pending messages each.
    pub fn new(capacity: usize) -> (r: Broadcaster)
        requires
            capacity >= 1,
        ensures
            r.wf(),
            r@.subs =~= Seq::<SubscriptionModel>::empty(),
            r@.next_handle == 0,
            r@.capacity == capacity,
    {
        Broadcaster { subs: Vec::new(), next_handle: 0, capacity }
    }

    /// Whether a fresh handle can still be generated (a machine limit:
    /// the handle counter must not exhaust its word size).
    pub fn can_subscribe(&self) -> (r: bool)
        ensures
            r == (self@.next_handle < u64::MAX),
    {
        self.next_handle < u64::MAX
    }

    /// Registers a new listener. Its queue starts empty: a subscription
    /// sees only messages published after this call, never history.
    pub fn subscribe(&mut self) -> (h: u64)
        requires
            old(self).wf(),
            old(self)@.next_handle < u64::MAX,
        ensures
            final(self).wf(),
            h as nat == old(self)@.next_handle,
            final(self)@.subs == old(self)@.subs.push(
                SubscriptionModel { handle: h as nat, pending: Seq::empty() },
            ),
            final(self)@.next_handle == old(self)@.next_handle + 1,
            final(self)@.capacity == old(self)@.capacity,
            !contains_handle(old(self)@.subs, h as nat),
    {
        let h = self.next_handle;
        self.next_handle = self.next_handle + 1;
        self.subs.push(Subscription { handle: h, pending: Vec::new() });
        proof {
            assert(self@.subs =~~= old(self)@.subs.push(
                SubscriptionModel { handle: h as nat, pending: Seq::empty() },
            ));
        }
        h
    }

    /// The position of the subscription carrying `h`, if any.
    fn position_of_handle(&self, h: u64) -> (r: Option<usize>)
        requires
            self.wf(),
        ensures
            match r {
                Some(i) => {
                    &&& contains_handle(self@.subs, h as nat)
                    &&& index_of_handle(self@.subs, h as nat) == i as int
                    &&& i < self@.subs.len()
                    &&& self@.subs[i as int].handle == h as nat
                },
                None => !contains_handle(self@.subs, h as nat),
            },
    {
        let mut i: usize = 0;
        while i < self.subs.len()
            invariant
                self.wf(),
                0 <= i <= self.subs.len(),
                forall|k: int| 0 <= k < i ==> #[trigger] self@.subs[k].handle != h as nat,
            decreases self.subs.len() - i,
        {
            if self.subs[i].handle == h {
                proof {
                    lemma_subscription_at(self@.subs, h as nat, i as int);
                }
                return Some(i);
            }
            i += 1;
        }
        None
    }

    /// Delivers `m` to every live subscription: appended to each pending
    /// queue, dropping that queue's oldest entry when it is already full.
    /// The publisher never waits on a subscriber.
    pub fn publish(&mut self, m: &Message)
        requires
            old(self).wf(),
        ensures
            final(self).wf(),
            publish_step(old(self)@, final(self)@, m@),
    {
        let ghost pre = self@;
        let n = self.subs.len();
        let mut i: usize = 0;
        while i < n
            invariant
                pre.wf(),
                0 <= i <= n,
                n == self.subs.len(),
                n == pre.subs.len(),
                self.next_handle as nat == pre.next_handle,
                self.capacity as nat == pre.capacity,
                forall|k: int|
                    0 <= k < i ==> (#[trigger] self.subs@[k])@ == (SubscriptionModel {
                        handle: pre.subs[k].handle,
                        pending: bounded_push(pre.subs[k].pending, m@, pre.capacity),
                    }),
                forall|k: int| i <= k < n ==> (#[trigger] self.subs@[k])@ == pre.subs[k],
            decreases n - i,
        {
            let ghost before: Seq<Subscription> = self.subs@;
            proof {
                assert(before[i as int]@ == pre.subs[i as int]);
                assert(pre.subs[i as int].pending.len() <= pre.capacity);
            }
            let cap = self.capacity;
            let mut sub = self.subs.remove(i);
            if sub.pending.len() == cap {
                sub.pending.remove(0);
            }
            sub.pending.push(m.clone());
            let ghost newsub: Subscription = sub;
            self.subs.insert(i, sub);
            proof {
                let target = SubscriptionModel {
                    handle: pre.subs[i as int].handle,
                    pending: bounded_push(pre.subs[i as int].pending, m@, pre.capacity),
                };
                assert(self.subs@ =~= before.update(i as int, newsub));
                assert(newsub@.pending =~= target.pending);
                assert forall|k: int| 0 <= k < i + 1 implies (#[trigger] self.subs@[k])@
                    == (SubscriptionModel {
                    handle: pre.subs[k].handle,
                    pending: bounded_push(pre.subs[k].pending, m@, pre.capacity),
                }) by {
                    if k < i {
                        assert(self.subs@[k] == before[k]);
                        assert(before[k]@ == (SubscriptionModel {
                            handle: pre.subs[k].handle,
                            pending: bounded_push(pre.subs[k].pending, m@, pre.capacity),
                        }));
                    } else {
                        assert(self.subs@[k] == newsub);
                        assert(newsub@ =~= target);
                    }
                }
                assert forall|k: int| i + 1 <= k < n implies (#[trigger] self.subs@[k])@
                    == pre.subs[k] by {
                    assert(self.subs@[k] == before[k]);
                    assert(before[k]@ == pre.subs[k]);
                }
            }
            i += 1;
        }
        proof {
            assert forall|k: int| 0 <= k < pre.subs.len() implies #[trigger] self@.subs[k]
                == (SubscriptionModel {
                handle: pre.subs[k].handle,
                pending: bounded_push(pre.subs[k].pending, m@, pre.capacity),
            }) by {
                assert((self.subs@[k])@ == (SubscriptionModel {
                    handle: pre.subs[k].handle,
                    pending: bounded_push(pre.subs[k].pending, m@, pre.capacity),
                }));
            }
            assert forall|k: int|
                0 <= k < self@.subs.len() implies #[trigger] self@.subs[k].pending.len()
                <= self@.capacity by {
                assert(self@.subs[k].pending == bounded_push(
                    pre.subs[k].pending,
                    m@,
                    pre.capacity,
                ));
                assert(pre.subs[k].pending.len() <= pre.capacity);
            }
            assert forall|k: int|
                0 <= k < self@.subs.len() implies #[trigger] self@.subs[k].handle
                < self@.next_handle by {
                assert(self@.subs[k].handle == pre.subs[k].handle);
            }
            assert forall|a: int, b: int|
                0 <= a < self@.subs.len() && 0 <= b < self@.subs.len() && a != b
                implies self@.subs[a].handle != self@.subs[b].handle by {
                assert(self@.subs[a].handle == pre.subs[a].handle);
                assert(self@.subs[b].handle == pre.subs[b].handle);
            }
        }
    }

    /// Removes the subscription carrying `h`, freeing its queue; tells the
    /// caller whether there was one. Disconnected listeners are dropped
    /// through this, explicitly or implicitly.
    pub fn unsubscribe(&mut self, h: u64) -> (removed: bool)
        requires
            old(self).wf(),
        ensures
            final(self).wf(),
            final(self)@.next_handle == old(self)@.next_handle,
            final(self)@.capacity == old(self)@.capacity,
            removed ==> {
                &&& contains_handle(old(self)@.subs, h as nat)
                &&& final(self)@.subs == old(self)@.subs.remove(
                    index_of_handle(old(self)@.subs, h as nat),
                )
            },
            !removed ==> {
                &&& !contains_handle(old(self)@.subs, h as nat)
                &&& final(self)@ == old(self)@
            },
    {
        match self.position_of_handle(h) {
            None => false,
            Some(i) => {
                self.subs.remove(i);
                proof {
                    let pre = old(self)@;
                    let post = self@;
                    assert(post.subs =~= pre.subs.remove(i as int));
                    assert forall|a: int| 0 <= a < post.subs.len() implies #[trigger] post.subs[a]
                        == pre.subs[if a < i { a } else { a + 1 }] by {}
                }
                true
            },
        }
    }

    /// Hands the subscriber of `h` everything published to it since it last
    /// looked, oldest first, and leaves its queue empty; `None` when no
    /// subscription carries `h`.
    pub fn drain(&mut self, h: u64) -> (r: Option<Vec<Message>>)
        requires
            old(self).wf(),
        ensures
            final(self).wf(),
            final(self)@.next_handle == old(self)@.next_handle,
            final(self)@.capacity == old(self)@.capacity,
            match r {
                Some(v) => {
                    &&& contains_handle(old(self)@.subs, h as nat)
                    &&& v@.map_values(|m: Message| m@) == old(self)@.subs[index_of_handle(
                        old(self)@.subs,
                        h as nat,
                    )].pending
                    &&& final(self)@.subs == old(self)@.subs.update(
                        index_of_handle(old(self)@.subs, h as nat),
                        SubscriptionModel { handle: h as nat, pending: Seq::empty() },
                    )
                },
                None => {
                    &&& !contains_handle(old(self)@.subs, h as nat)
                    &&& final(self)@ == old(self)@
                },
            },
    {
        match self.position_of_handle(h) {
            None => None,
            Some(i) => {
                let sub = self.subs.remove(i);
                let Subscription { handle, pending } = sub;
                self.subs.insert(i, Subscription { handle, pending: Vec::new() });
                proof {
                    let pre = old(self)@;
                    let post = self@;
                    assert(post.subs =~~= pre.subs.update(
                        i as int,
                        SubscriptionModel { handle: h as nat, pending: Seq::empty() },
                    ));
                    assert forall|a: int| 0 <= a < post.subs.len() implies #[trigger] post.subs[a].handle
                        == pre.subs[a].handle by {}
                }
                Some(pending)
            },
        }
    }
}

} // verus!
