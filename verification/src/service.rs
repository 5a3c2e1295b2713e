//! The service object: one registry and one broadcast fan-out, wired the
//! way the request handlers drive them — a record is committed only after
//! the durable send succeeded, and every committed insert or overwrite is
//! published to the subscribers exactly once, after the commit.

use vstd::prelude::*;

use crate::feed::Broadcaster;
use crate::feed::SubscriptionModel;
use crate::feed::contains_handle;
use crate::feed::index_of_handle;
use crate::feed::publish_step;
use crate::registry::Message;
use crate::registry::MessageModel;
use crate::registry::Registry;
use crate::registry::RegistryError;
use crate::registry::contains_id;
use crate::registry::create_step;
use crate::registry::index_of_id;

verus! {

/// The whole in-process state: the registry of stored messages and the
/// live subscriptions. One instance is constructed at process start and
/// shared (behind one lock) by every request handler.
pub struct Service {
    pub registry: Registry,
    pub feed: Broadcaster,
}

impl Service {
    /// Well-formedness of both halves.
    pub open spec fn wf(&self) -> bool {
        &&& self.registry.wf()
        &&& self.feed.wf()
    }

    /// A fresh service: no records, no subscribers; each subscriber queue
    /// will hold at most `capacity` pending messages.
    pub fn new(capacity: usize) -> (s: Service)
        requires
            capacity >= 1,
        ensures
            s.wf(),
            s.registry@.entries =~= Seq::<MessageModel>::empty(),
            s.registry@.next_id == 0,
            s.feed@.subs =~= Seq::<SubscriptionModel>::empty(),
            s.feed@.next_handle == 0,
            s.feed@.capacity == capacity,
    {
        Service { registry: Registry::new(), feed: Broadcaster::new(capacity) }
    }

    /// Commits a freshly created record and publishes it to every
    /// subscriber. To be called only once the durable send of `key`/`body`
    /// to the broker succeeded; on a failed send nothing is committed
    /// because this is never reached.
    pub fn produce(&mut self, key: String, body: String) -> (m: Message)
        requires
            old(self).wf(),
            old(self).registry@.next_id < u64::MAX,
        ensures
            final(self).wf(),
            create_step(old(self).registry@, final(self).registry@, m@),
            m@.key == key@,
            m@.body == body@,
            !contains_id(old(self).registry@.entries, m@.id),
            publish_step(old(self).feed@, final(self).feed@, m@),
    {
        let m = self.registry.create(key, body);
        self.feed.publish(&m);
        m
    }

    /// Looks a record up by identifier.
    pub fn fetch(&self, id: u64) -> (r: Result<Message, RegistryError>)
        requires
            self.wf(),
        ensures
            match r {
                Ok(m) => {
                    &&& contains_id(self.registry@.entries, id as nat)
                    &&& m@ == self.registry@.entries[index_of_id(self.registry@.entries, id as nat)]
                    &&& m@.id == id as nat
                },
                Err(e) => {
                    &&& e == RegistryError::NotFound
                    &&& !contains_id(self.registry@.entries, id as nat)
                },
            },
    {
        self.registry.get(id)
    }

    /// Overwrites a record and, only when the overwrite committed,
    /// publishes the new content to every subscriber. `send_ok` is the
    /// outcome of the durable send of the new content, which precedes the
    /// commit; on a failed send, and on an unknown identifier, neither the
    /// registry nor any subscriber queue changes.
    pub fn update(
        &mut self,
        id: u64,
        key: String,
        body: String,
        send_ok: bool,
    ) -> (r: Result<Message, RegistryError>)
        requires
            old(self).wf(),
        ensures
            final(self).wf(),
            final(self).registry@.next_id == old(self).registry@.next_id,
            match r {
                Ok(m) => {
                    &&& send_ok
                    &&& contains_id(old(self).registry@.entries, id as nat)
                    &&& m@ == (MessageModel { id: id as nat, key: key@, body: body@ })
                    &&& final(self).registry@.entries == old(self).registry@.entries.update(
                        index_of_id(old(self).registry@.entries, id as nat),
                        m@,
                    )
                    &&& publish_step(old(self).feed@, final(self).feed@, m@)
                },
                Err(RegistryError::NotFound) => {
                    &&& !contains_id(old(self).registry@.entries, id as nat)
                    &&& final(self).registry@ == old(self).registry@
                    &&& final(self).feed@ == old(self).feed@
                },
                Err(RegistryError::UpstreamSendFailed) => {
                    &&& !send_ok
                    &&& contains_id(old(self).registry@.entries, id as nat)
                    &&& final(self).registry@ == old(self).registry@
                    &&& final(self).feed@ == old(self).feed@
                },
                Err(RegistryError::InvalidInput) => false,
            },
    {
        match self.registry.update(id, key, body, send_ok) {
            Ok(m) => {
                self.feed.publish(&m);
                Ok(m)
            },
            Err(e) => Err(e),
        }
    }

    /// Removes a record; subscribers are not told (removal never reaches
    /// the broker or the fan-out).
    pub fn delete(&mut self, id: u64) -> (r: Result<(), RegistryError>)
        requires
            old(self).wf(),
        ensures
            final(self).wf(),
            final(self).registry@.next_id == old(self).registry@.next_id,
            final(self).feed@ == old(self).feed@,
            match r {
                Ok(()) => {
                    &&& contains_id(old(self).registry@.entries, id as nat)
                    &&& final(self).registry@.entries == old(self).registry@.entries.remove(
                        index_of_id(old(self).registry@.entries, id as nat),
                    )
                },
                Err(e) => {
                    &&& e == RegistryError::NotFound
                    &&& !contains_id(old(self).registry@.entries, id as nat)
                    &&& final(self).registry@ == old(self).registry@
                },
            },
    {
        self.registry.delete(id)
    }

    /// Registers a live listener; it will see exactly the messages
    /// committed after this call, none before.
    pub fn subscribe(&mut self) -> (h: u64)
        requires
            old(self).wf(),
            old(self).feed@.next_handle < u64::MAX,
        ensures
            final(self).wf(),
            final(self).registry@ == old(self).registry@,
            h as nat == old(self).feed@.next_handle,
            final(self).feed@.subs == old(self).feed@.subs.push(
                SubscriptionModel { handle: h as nat, pending: Seq::empty() },
            ),
            final(self).feed@.next_handle == old(self).feed@.next_handle + 1,
            final(self).feed@.capacity == old(self).feed@.capacity,
    {
        self.feed.subscribe()
    }

    /// Hands a subscriber its pending messages, oldest first, emptying its
    /// queue; `None` when the handle is not live.
    pub fn drain(&mut self, h: u64) -> (r: Option<Vec<Message>>)
        requires
            old(self).wf(),
        ensures
            final(self).wf(),
            final(self).registry@ == old(self).registry@,
            final(self).feed@.next_handle == old(self).feed@.next_handle,
            final(self).feed@.capacity == old(self).feed@.capacity,
            match r {
                Some(v) => {
                    &&& contains_handle(old(self).feed@.subs, h as nat)
                    &&& v@.map_values(|m: Message| m@) == old(self).feed@.subs[index_of_handle(
                        old(self).feed@.subs,
                        h as nat,
                    )].pending
                    &&& final(self).feed@.subs == old(self).feed@.subs.update(
                        index_of_handle(old(self).feed@.subs, h as nat),
                        SubscriptionModel { handle: h as nat, pending: Seq::empty() },
                    )
                },
                None => {
                    &&& !contains_handle(old(self).feed@.subs, h as nat)
                    &&& final(self).feed@ == old(self).feed@
                },
            },
    {
        self.feed.drain(h)
    }

    /// Drops a listener, freeing its queue.
    pub fn unsubscribe(&mut self, h: u64) -> (removed: bool)
        requires
            old(self).wf(),
        ensures
            final(self).wf(),
            final(self).registry@ == old(self).registry@,
            final(self).feed@.next_handle == old(self).feed@.next_handle,
            final(self).feed@.capacity == old(self).feed@.capacity,
            removed ==> {
                &&& contains_handle(old(self).feed@.subs, h as nat)
                &&& final(self).feed@.subs == old(self).feed@.subs.remove(
                    index_of_handle(old(self).feed@.subs, h as nat),
                )
            },
            !removed ==> {
                &&& !contains_handle(old(self).feed@.subs, h as nat)
                &&& final(self).feed@ == old(self).feed@
            },
    {
        self.feed.unsubscribe(h)
    }
}

} // verus!
