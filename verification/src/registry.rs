//! The message registry: an insertion-ordered collection of message records,
//! each holding a unique generated identifier and a mutable `key` and `body`.

use vstd::prelude::*;

verus! {

/// Mathematical model of one stored message.
#[verifier::ext_equal]
pub ghost struct MessageModel {
    pub id: nat,
    pub key: Seq<char>,
    pub body: Seq<char>,
}

/// Mathematical model of the registry: the stored records in insertion
/// order, plus the next identifier that will be handed out.
#[verifier::ext_equal]
pub ghost struct RegistryModel {
    pub entries: Seq<MessageModel>,
    pub next_id: nat,
}

/// No two records in `s` carry the same identifier.
pub open spec fn unique_ids(s: Seq<MessageModel>) -> bool {
    forall|a: int, b: int|
        0 <= a < s.len() && 0 <= b < s.len() && a != b ==> s[a].id != s[b].id
}

/// Some record in `s` carries the identifier `id`.
pub open spec fn contains_id(s: Seq<MessageModel>, id: nat) -> bool {
    exists|k: int| 0 <= k < s.len() && s[k].id == id
}

/// The position of the record carrying `id` (meaningful when `contains_id`
/// holds; under `unique_ids` that position is the only one).
pub open spec fn index_of_id(s: Seq<MessageModel>, id: nat) -> int {
    choose|k: int| 0 <= k < s.len() && s[k].id == id
}

/// The record of `s` carrying `id` (meaningful when `contains_id` holds).
pub open spec fn record_of(s: Seq<MessageModel>, id: nat) -> MessageModel {
    s[index_of_id(s, id)]
}

impl RegistryModel {
    /// Well-formedness: identifiers are pairwise distinct and every stored
    /// identifier was handed out before `next_id`.
    pub open spec fn wf(self) -> bool {
        &&& unique_ids(self.entries)
        &&& forall|k: int| 0 <= k < self.entries.len() ==> #[trigger] self.entries[k].id < self.next_id
    }
}

/// Under `unique_ids`, any position whose record carries `id` is the
/// position that `index_of_id` picks, so `record_of` is that record.
pub proof fn lemma_record_at(s: Seq<MessageModel>, id: nat, k: int)
    requires
        unique_ids(s),
        0 <= k < s.len(),
        s[k].id == id,
    ensures
        contains_id(s, id),
        index_of_id(s, id) == k,
        record_of(s, id) == s[k],
{
    assert(contains_id(s, id));
    let k2 = index_of_id(s, id);
    assert(0 <= k2 < s.len() && s[k2].id == id);
    assert(k2 == k);
}

/// How one successful `create` changes the registry: the new record takes
/// the next identifier, is appended at the end, and the identifier counter
/// advances.
pub open spec fn create_step(pre: RegistryModel, post: RegistryModel, m: MessageModel) -> bool {
    &&& m.id == pre.next_id
    &&& post.entries == pre.entries.push(m)
    &&& post.next_id == pre.next_id + 1
}

/// Over a run of consecutive `create` steps, the identifier counter grows
/// by at least one per step.
pub proof fn lemma_next_id_grows(
    states: Seq<RegistryModel>,
    ms: Seq<MessageModel>,
    i: int,
    j: int,
)
    requires
        states.len() == ms.len() + 1,
        forall|k: int| 0 <= k < ms.len() ==> create_step(states[k], states[k + 1], ms[k]),
        0 <= i <= j <= ms.len(),
    ensures
        states[j].next_id >= states[i].next_id + (j - i),
    decreases j - i,
{
    if i < j {
        lemma_next_id_grows(states, ms, i, j - 1);
        assert(create_step(states[j - 1], states[j], ms[j - 1]));
    }
}

/// Law: however many records are created, one after another, the
/// identifiers handed out are pairwise distinct.
pub proof fn lemma_create_ids_pairwise_distinct(states: Seq<RegistryModel>, ms: Seq<MessageModel>)
    requires
        states.len() == ms.len() + 1,
        forall|k: int| 0 <= k < ms.len() ==> create_step(states[k], states[k + 1], ms[k]),
    ensures
        forall|i: int, j: int| 0 <= i < j < ms.len() ==> ms[i].id != ms[j].id,
{
    assert forall|i: int, j: int| 0 <= i < j < ms.len() implies ms[i].id != ms[j].id by {
        assert(create_step(states[i], states[i + 1], ms[i]));
        assert(create_step(states[j], states[j + 1], ms[j]));
        lemma_next_id_grows(states, ms, i + 1, j);
    }
}

/// Law: a record just created is found under its identifier, exactly as it
/// was created, and the registry stays well-formed.
pub proof fn lemma_create_then_get(pre: RegistryModel, post: RegistryModel, m: MessageModel)
    requires
        pre.wf(),
        create_step(pre, post, m),
    ensures
        post.wf(),
        contains_id(post.entries, m.id),
        record_of(post.entries, m.id) == m,
{
    let n = pre.entries.len() as int;
    assert(post.entries[n] == m);
    assert forall|a: int| 0 <= a < n implies #[trigger] post.entries[a] == pre.entries[a] by {}
    lemma_record_at(post.entries, m.id, n);
}

/// Law: deleting a record removes it for good — afterwards no record
/// carries its identifier, so a fetch or a second delete reports
/// `NotFound`, and the registry stays well-formed.
pub proof fn lemma_delete_then_get(pre: RegistryModel, post: RegistryModel, id: nat)
    requires
        pre.wf(),
        contains_id(pre.entries, id),
        post.entries == pre.entries.remove(index_of_id(pre.entries, id)),
        post.next_id == pre.next_id,
    ensures
        post.wf(),
        !contains_id(post.entries, id),
{
    let k = index_of_id(pre.entries, id);
    assert(0 <= k < pre.entries.len() && pre.entries[k].id == id);
    assert forall|a: int| 0 <= a < post.entries.len() implies #[trigger] post.entries[a]
        == pre.entries[if a < k { a } else { a + 1 }] by {}
}

/// Law: two creations in a row both take effect — their identifiers
/// differ and each record is afterwards found under its own identifier
/// (no lost update).
pub proof fn lemma_two_creates_both_found(
    r1: RegistryModel,
    r2: RegistryModel,
    r3: RegistryModel,
    m1: MessageModel,
    m2: MessageModel,
)
    requires
        r1.wf(),
        create_step(r1, r2, m1),
        create_step(r2, r3, m2),
    ensures
        r3.wf(),
        m1.id != m2.id,
        contains_id(r3.entries, m1.id) && record_of(r3.entries, m1.id) == m1,
        contains_id(r3.entries, m2.id) && record_of(r3.entries, m2.id) == m2,
{
    lemma_create_then_get(r1, r2, m1);
    lemma_create_then_get(r2, r3, m2);
    let n1 = r1.entries.len() as int;
    assert(r2.entries[n1] == m1);
    assert(r3.entries[n1] == m1);
    lemma_record_at(r3.entries, m1.id, n1);
}

/// One stored message: an identifier fixed at creation, and the text fields
/// that the most recent successful update chose.
#[derive(Debug)]
pub struct Message {
    pub id: u64,
    pub key: String,
    pub body: String,
}

impl View for Message {
    type V = MessageModel;

    open spec fn view(&self) -> MessageModel {
        MessageModel { id: self.id as nat, key: self.key@, body: self.body@ }
    }
}

impl Clone for Message {
    fn clone(&self) -> (res: Self)
        ensures
            res@ == self@,
    {
        Message { id: self.id, key: self.key.clone(), body: self.body.clone() }
    }
}

/// Why a registry operation did not produce a record.
#[derive(Clone, Copy, Debug, PartialEq, Eq, Structural)]
pub enum RegistryError {
    /// The requested identifier is not in the registry.
    NotFound,
    /// The upstream broker refused the durable send, so nothing was committed.
    UpstreamSendFailed,
    /// The request was malformed (a required field was missing), so neither
    /// the registry nor the broker was touched.
    InvalidInput,
}

/// The registry itself: records in insertion order and the counter from
/// which fresh identifiers are taken.
pub struct Registry {
    entries: Vec<Message>,
    next_id: u64,
}

impl View for Registry {
    type V = RegistryModel;

    closed spec fn view(&self) -> RegistryModel {
        RegistryModel {
            entries: self.entries@.map_values(|m: Message| m@),
            next_id: self.next_id as nat,
        }
    }
}

impl Registry {
    /// Well-formedness of the running registry.
    pub open spec fn wf(&self) -> bool {
        self@.wf()
    }

    /// An empty registry; the first record will take identifier 0.
    pub fn new() -> (r: Registry)
        ensures
            r.wf(),
            r@.entries =~= Seq::<MessageModel>::empty(),
            r@.next_id == 0,
    {
        Registry { entries: Vec::new(), next_id: 0 }
    }

    /// How many records are currently stored.
    pub fn len(&self) -> (n: usize)
        ensures
            n == self@.entries.len(),
    {
        self.entries.len()
    }

    /// Whether a fresh identifier can still be generated (a machine limit:
    /// the identifier counter must not exhaust its word size).
    pub fn can_create(&self) -> (r: bool)
        ensures
            r == (self@.next_id < u64::MAX),
    {
        self.next_id < u64::MAX
    }

    /// Inserts a new record with a fresh identifier and returns a copy of it.
    ///
    /// The caller must only invoke this after the durable send to the broker
    /// succeeded; on a failed send no record is added because `create` is
    /// never reached.
    pub fn create(&mut self, key: String, body: String) -> (m: Message)
        requires
            old(self).wf(),
            old(self)@.next_id < u64::MAX,
        ensures
            final(self).wf(),
            create_step(old(self)@, final(self)@, m@),
            m@.key == key@,
            m@.body == body@,
            !contains_id(old(self)@.entries, m@.id),
    {
        let id = self.next_id;
        self.next_id = self.next_id + 1;
        let m = Message { id, key, body };
        let stored = m.clone();
        self.entries.push(stored);
        proof {
            assert(self@.entries =~= old(self)@.entries.push(m@));
        }
        m
    }

    /// The position of the record carrying `id`, if any. Lookups by
    /// identifier are exact-match; a linear scan is acceptable at the
    /// intended scale.
    fn position_of(&self, id: u64) -> (r: Option<usize>)
        requires
            self.wf(),
        ensures
            match r {
                Some(i) => {
                    &&& contains_id(self@.entries, id as nat)
                    &&& index_of_id(self@.entries, id as nat) == i as int
                    &&& i < self@.entries.len()
                    &&& self@.entries[i as int].id == id as nat
                },
                None => !contains_id(self@.entries, id as nat),
            },
    {
        let mut i: usize = 0;
        while i < self.entries.len()
            invariant
                self.wf(),
                0 <= i <= self.entries.len(),
                forall|k: int| 0 <= k < i ==> #[trigger] self@.entries[k].id != id as nat,
            decreases self.entries.len() - i,
        {
            if self.entries[i].id == id {
                proof {
                    lemma_record_at(self@.entries, id as nat, i as int);
                }
                return Some(i);
            }
            i += 1;
        }
        None
    }

    /// Returns a copy of the record carrying `id`, or `NotFound` when no
    /// such record exists.
    pub fn get(&self, id: u64) -> (r: Result<Message, RegistryError>)
        requires
            self.wf(),
        ensures
            match r {
                Ok(m) => {
                    &&& contains_id(self@.entries, id as nat)
                    &&& m@ == record_of(self@.entries, id as nat)
                    &&& m@.id == id as nat
                },
                Err(e) => {
                    &&& e == RegistryError::NotFound
                    &&& !contains_id(self@.entries, id as nat)
                },
            },
    {
        match self.position_of(id) {
            Some(i) => Ok(self.entries[i].clone()),
            None => Err(RegistryError::NotFound),
        }
    }

    /// Overwrites `key` and `body` of the record carrying `id`.
    ///
    /// `send_ok` is the outcome of the durable send of the new content,
    /// which must precede the commit: on a failed send the stored record is
    /// left exactly as it was and the failure is reported as
    /// `UpstreamSendFailed`, distinct from `NotFound`. Whether the record
    /// exists is decided first, so an absent identifier is `NotFound`
    /// whatever the send outcome.
    pub fn update(
        &mut self,
        id: u64,
        key: String,
        body: String,
        send_ok: bool,
    ) -> (r: Result<Message, RegistryError>)
        requires
            old(self).wf(),
        ensures
            final(self).wf(),
            final(self)@.next_id == old(self)@.next_id,
            match r {
                Ok(m) => {
                    &&& send_ok
                    &&& contains_id(old(self)@.entries, id as nat)
                    &&& m@ == (MessageModel { id: id as nat, key: key@, body: body@ })
                    &&& final(self)@.entries == old(self)@.entries.update(
                        index_of_id(old(self)@.entries, id as nat),
                        m@,
                    )
                },
                Err(RegistryError::NotFound) => {
                    &&& !contains_id(old(self)@.entries, id as nat)
                    &&& final(self)@ == old(self)@
                },
                Err(RegistryError::UpstreamSendFailed) => {
                    &&& !send_ok
                    &&& contains_id(old(self)@.entries, id as nat)
                    &&& final(self)@ == old(self)@
                },
                Err(RegistryError::InvalidInput) => false,
            },
    {
        match self.position_of(id) {
            None => Err(RegistryError::NotFound),
            Some(i) => {
                if !send_ok {
                    return Err(RegistryError::UpstreamSendFailed);
                }
                let m = Message { id, key, body };
                let stored = m.clone();
                self.entries.set(i, stored);
                proof {
                    let pre = old(self)@;
                    let post = self@;
                    assert(post.entries =~= pre.entries.update(i as int, m@));
                    assert forall|a: int| 0 <= a < post.entries.len() implies #[trigger] post.entries[a].id
                        == pre.entries[a].id by {
                        if a != i {
                            assert(post.entries[a] == pre.entries[a]);
                        }
                    }
                }
                Ok(m)
            },
        }
    }

    /// Removes the record carrying `id`; later records keep their relative
    /// order. Removal does not involve the broker: its log is append-only
    /// and unaffected.
    pub fn delete(&mut self, id: u64) -> (r: Result<(), RegistryError>)
        requires
            old(self).wf(),
        ensures
            final(self).wf(),
            final(self)@.next_id == old(self)@.next_id,
            match r {
                Ok(()) => {
                    &&& contains_id(old(self)@.entries, id as nat)
                    &&& final(self)@.entries == old(self)@.entries.remove(
                        index_of_id(old(self)@.entries, id as nat),
                    )
                },
                Err(e) => {
                    &&& e == RegistryError::NotFound
                    &&& !contains_id(old(self)@.entries, id as nat)
                    &&& final(self)@ == old(self)@
                },
            },
    {
        match self.position_of(id) {
            None => Err(RegistryError::NotFound),
            Some(i) => {
                self.entries.remove(i);
                proof {
                    let pre = old(self)@;
                    let post = self@;
                    assert(post.entries =~= pre.entries.remove(i as int));
                    assert forall|a: int| 0 <= a < post.entries.len() implies #[trigger] post.entries[a]
                        == pre.entries[if a < i { a } else { a + 1 }] by {}
                }
                Ok(())
            },
        }
    }
}

/// Accepts a request payload only when both required fields are present;
/// a missing field is rejected as `InvalidInput` before any registry or
/// broker interaction.
pub fn validate_request(
    key: Option<String>,
    body: Option<String>,
) -> (r: Result<(String, String), RegistryError>)
    ensures
        match r {
            Ok(kb) => key == Some(kb.0) && body == Some(kb.1),
            Err(e) => {
                &&& e == RegistryError::InvalidInput
                &&& (key is None || body is None)
            },
        },
{
    match (key, body) {
        (Some(k), Some(b)) => Ok((k, b)),
        _ => Err(RegistryError::InvalidInput),
    }
}

} // verus!
