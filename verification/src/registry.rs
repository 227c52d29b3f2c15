//! The registry of connections: one record per connection id.
//!
//! A record is created when a client registers, gains its outbound queue when
//! the transport is attached, and leaves when the transport closes. The
//! registry is a plain value; the embedding program puts it behind a lock.

use tokio::sync::mpsc::UnboundedSender;
use vstd::prelude::*;

verus! {

/// One connection's record.
#[derive(Debug)]
pub struct Client {
    /// The application-level identity that owns the connection.
    pub user_id: usize,
    /// The topics the connection is subscribed to.
    pub topics: Vec<String>,
    /// The producer half of the outbound queue; `None` until the transport is attached.
    pub sender: Option<UnboundedSender<String>>,
}

/// What a record is to the hub's rules: its owner, its topics, and whether
/// its transport is attached.
pub struct ClientView {
    pub user_id: usize,
    pub topics: Seq<Seq<char>>,
    pub attached: bool,
}

/// The topic names held by a list of strings, in order.
pub open spec fn topic_names(topics: Seq<String>) -> Seq<Seq<char>> {
    Seq::new(topics.len(), |i: int| topics[i]@)
}

impl View for Client {
    type V = ClientView;

    open spec fn view(&self) -> ClientView {
        ClientView {
            user_id: self.user_id,
            topics: topic_names(self.topics@),
            attached: self.sender is Some,
        }
    }
}

impl ClientView {
    /// Whether the record is subscribed to `topic`.
    pub open spec fn subscribed(self, topic: Seq<char>) -> bool {
        self.topics.contains(topic)
    }

    /// The same record once its transport is attached.
    pub open spec fn attach(self) -> ClientView {
        ClientView { attached: true, ..self }
    }

    /// The record that registration leaves: one topic, no transport yet.
    pub open spec fn registered(user_id: usize, topic: Seq<char>) -> ClientView {
        ClientView { user_id, topics: seq![topic], attached: false }
    }
}

/// A copy of a list of topic names.
fn copy_topics(topics: &Vec<String>) -> (copy: Vec<String>)
    ensures
        copy@ == topics@,
{
    let mut copy: Vec<String> = Vec::new();
    let mut i: usize = 0;
    while i < topics.len()
        invariant
            i <= topics.len(),
            copy@ == topics@.take(i as int),
        decreases topics.len() - i,
    {
        copy.push(topics[i].clone());
        i += 1;
    }
    copy
}

impl Clone for Client {
    /// A snapshot of the record: the same owner and topics, and a further
    /// producer for the same outbound queue where there is one.
    fn clone(&self) -> (copy: Client)
        ensures
            copy@ == self@,
    {
        let sender = match &self.sender {
            Some(sender) => Some(sender.clone()),
            None => None,
        };
        Client { user_id: self.user_id, topics: copy_topics(&self.topics), sender }
    }
}

impl Client {
    /// A record as registration leaves it: one topic, no transport yet.
    pub fn registered(user_id: usize, topic: String) -> (client: Client)
        ensures
            client@ == ClientView::registered(user_id, topic@),
    {
        let mut topics: Vec<String> = Vec::new();
        topics.push(topic);
        let client = Client { user_id, topics, sender: None };
        assert(client@.topics == seq![topic@]);
        client
    }

    /// Whether `topic` is among the record's topics.
    pub fn subscribes(&self, topic: &String) -> (found: bool)
        ensures
            found == self@.subscribed(topic@),
    {
        let mut i: usize = 0;
        while i < self.topics.len()
            invariant
                i <= self.topics.len(),
                forall|j: int| 0 <= j < i ==> self.topics@[j]@ != topic@,
            decreases self.topics.len() - i,
        {
            if self.topics[i] == *topic {
                assert(self@.topics[i as int] == topic@);
                return true;
            }
            i += 1;
        }
        false
    }
}

/// The registry: a mapping from connection id to record, keys unique.
pub struct Clients {
    entries: Vec<Entry>,
}

impl View for Clients {
    type V = Map<Seq<char>, ClientView>;

    closed spec fn view(&self) -> Map<Seq<char>, ClientView> {
        slots_map(self.entries@)
    }
}

impl Clients {
    /// No id is held twice.
    #[verifier::type_invariant]
    spec fn distinct(&self) -> bool {
        slot_ids(self.entries@).no_duplicates()
    }

    /// The ids as they are stored, in the order of iteration.
    pub closed spec fn keys(&self) -> Seq<String> {
        Seq::new(self.entries@.len(), |i: int| self.entries@[i].id)
    }

    /// The records as they are stored, in the order of iteration.
    pub closed spec fn records(&self) -> Seq<Client> {
        Seq::new(self.entries@.len(), |i: int| self.entries@[i].client)
    }

    /// The registered ids, in the order of iteration.
    pub open spec fn ids(&self) -> Seq<Seq<char>> {
        Seq::new(self.keys().len(), |i: int| self.keys()[i]@)
    }

    /// The order of iteration lists the mapping: every registered id comes
    /// once, beside its record.
    pub open spec fn listed(&self) -> bool {
        &&& self.keys().len() == self.records().len()
        &&& self.ids().no_duplicates()
        &&& self.ids().to_set() == self@.dom()
        &&& self@.dom().finite()
        &&& self@.dom().len() == self.ids().len()
        &&& (forall|i: int|
            0 <= i < self.records().len() ==> self@[self.ids()[i]] == (#[trigger] self.records()[
                i
            ])@)
    }

    /// An empty registry.
    pub fn new() -> (clients: Clients)
        ensures
            clients@ == Map::<Seq<char>, ClientView>::empty(),
    {
        Clients { entries: Vec::new() }
    }

    /// The number of registered connections.
    pub fn len(&self) -> (count: usize)
        ensures
            count == self@.dom().len(),
            self.listed(),
    {
        proof {
            use_type_invariant(self);
            self.lemma_listed();
        }
        self.entries.len()
    }

    /// With distinct ids, the order of iteration lists the mapping.
    proof fn lemma_listed(&self)
        requires
            slot_ids(self.entries@).no_duplicates(),
        ensures
            self.listed(),
            self.ids() == slot_ids(self.entries@),
            self.keys().len() == self.entries@.len(),
    {
        let slots = self.entries@;
        assert(self.ids() =~= slot_ids(slots));
        assert forall|id: Seq<char>| self.ids().contains(id) == holds(slots, id) by {
            if self.ids().contains(id) {
                let j = choose|j: int| 0 <= j < self.ids().len() && self.ids()[j] == id;
                assert(slots[j].id@ == id);
            }
            if holds(slots, id) {
                let j = slot_of(slots, id);
                assert(self.ids()[j] == id);
            }
        }
        assert(self.ids().to_set() =~= self@.dom());
        self.ids().unique_seq_to_set();
        assert forall|i: int| 0 <= i < self.records().len() implies self@[self.ids()[i]] == (
        #[trigger] self.records()[i])@ by {
            lemma_slot(slots, i);
        }
    }

    /// Inserts the record for `id`, replacing the one that was there.
    pub fn insert(&mut self, id: String, client: Client)
        ensures
            final(self)@ == old(self)@.insert(id@, client@),
    {
        proof {
            use_type_invariant(&*self);
        }
        let mut entries: Vec<Entry> = Vec::new();
        core::mem::swap(&mut entries, &mut self.entries);
        match find(&entries, &id) {
            Some(i) => {
                let entry = Entry { id, client };
                proof {
                    lemma_replace(entries@, i as int, entry);
                }
                entries.set(i, entry);
            },
            None => {
                let entry = Entry { id, client };
                proof {
                    lemma_append(entries@, entry);
                }
                entries.push(entry);
            },
        }
        self.entries = entries;
    }

    /// A snapshot of the record for `id`, or nothing if there is none.
    pub fn lookup(&self, id: &str) -> (found: Option<Client>)
        ensures
            match found {
                Some(client) => self@.dom().contains(id@) && client@ == self@[id@],
                None => !self@.dom().contains(id@),
            },
    {
        proof {
            use_type_invariant(self);
        }
        let wanted = id.to_owned();
        match find(&self.entries, &wanted) {
            Some(i) => {
                proof {
                    lemma_slot(self.entries@, i as int);
                }
                Some(self.entries[i].client.clone())
            },
            None => {
                proof {
                    lemma_absent(self.entries@, id@);
                }
                None
            },
        }
    }

    /// Whether a record is registered under `id`.
    pub fn contains(&self, id: &str) -> (found: bool)
        ensures
            found == self@.dom().contains(id@),
    {
        proof {
            use_type_invariant(self);
        }
        let wanted = id.to_owned();
        match find(&self.entries, &wanted) {
            Some(i) => {
                proof {
                    lemma_slot(self.entries@, i as int);
                }
                true
            },
            None => {
                proof {
                    lemma_absent(self.entries@, id@);
                }
                false
            },
        }
    }

    /// Deletes the record for `id` if there is one, and tells whether there was.
    pub fn remove(&mut self, id: &str) -> (removed: bool)
        ensures
            final(self)@ == old(self)@.remove(id@),
            removed == old(self)@.dom().contains(id@),
    {
        proof {
            use_type_invariant(&*self);
        }
        let wanted = id.to_owned();
        let mut entries: Vec<Entry> = Vec::new();
        core::mem::swap(&mut entries, &mut self.entries);
        let removed = match find(&entries, &wanted) {
            Some(i) => {
                proof {
                    lemma_slot(entries@, i as int);
                    lemma_drop(entries@, i as int);
                }
                entries.remove(i);
                true
            },
            None => {
                proof {
                    lemma_absent(entries@, id@);
                }
                false
            },
        };
        self.entries = entries;
        removed
    }

    /// Applies `action` to every entry whose record `predicate` accepts, in
    /// the order of iteration and to none twice, and returns what `action`
    /// gave. The registry is borrowed for the length of the call, so every
    /// entry is seen as it stood when the call began.
    pub fn for_each_matching<P, A, R>(&self, predicate: P, action: A) -> (results: Vec<R>) where
        P: Fn(&Client) -> bool,
        A: Fn(&String, &Client) -> R,

        requires
            forall|i: int|
                0 <= i < self.records().len() ==> call_requires(
                    predicate,
                    (&#[trigger] self.records()[i],),
                ),
            forall|i: int|
                0 <= i < self.records().len() && call_ensures(
                    predicate,
                    (&#[trigger] self.records()[i],),
                    true,
                ) ==> call_requires(action, (&self.keys()[i], &self.records()[i])),
        ensures
            self.listed(),
            exists|picked: Seq<int>|
                visited(self.keys(), self.records(), predicate, action, picked, results@),
    {
        proof {
            use_type_invariant(self);
            self.lemma_listed();
        }
        let ghost keys = self.keys();
        let ghost records = self.records();
        let ghost mut picked: Seq<int> = Seq::empty();
        let mut results: Vec<R> = Vec::new();
        let mut i: usize = 0;
        while i < self.entries.len()
            invariant
                i <= self.entries.len(),
                keys == self.keys(),
                records == self.records(),
                keys.len() == self.entries@.len(),
                records.len() == self.entries@.len(),
                forall|i: int|
                    0 <= i < records.len() ==> call_requires(predicate, (&#[trigger] records[i],)),
                forall|i: int|
                    0 <= i < records.len() && call_ensures(predicate, (&#[trigger] records[i],), true)
                        ==> call_requires(action, (&keys[i], &records[i])),
                visited(keys.take(i as int), records.take(i as int), predicate, action, picked, results@),
            decreases self.entries.len() - i,
        {
            let entry = &self.entries[i];
            let ghost before = picked;
            assert(entry.id == keys[i as int] && entry.client == records[i as int]);
            if predicate(&entry.client) {
                results.push(action(&entry.id, &entry.client));
                proof {
                    picked = before.push(i as int);
                }
            }
            proof {
                let seen = records.take(i + 1);
                assert forall|j: int| 0 <= j < seen.len() && !picked.contains(j) implies call_ensures(
                    predicate,
                    (&#[trigger] seen[j],),
                    false,
                ) by {
                    if j < i {
                        assert(seen[j] == records.take(i as int)[j]);
                        if before.contains(j) {
                            let k = choose|k: int| 0 <= k < before.len() && before[k] == j;
                            assert(picked[k] == j);
                        }
                    } else {
                        if picked != before {
                            assert(picked[before.len() as int] == i);
                        }
                    }
                }
            }
            i += 1;
        }
        proof {
            assert(keys.take(i as int) == keys);
            assert(records.take(i as int) == records);
        }
        results
    }
}

/// Whether `results` are what a walk over the entries `keys` and `records`
/// gives: `picked` are the places of the entries whose record `predicate`
/// accepted, in rising order, `predicate` refused every other record, and
/// `results` holds what `action` gave on each picked entry, in that order.
pub open spec fn visited<P, A, R>(
    keys: Seq<String>,
    records: Seq<Client>,
    predicate: P,
    action: A,
    picked: Seq<int>,
    results: Seq<R>,
) -> bool where P: Fn(&Client) -> bool, A: Fn(&String, &Client) -> R {
    &&& picked.len() == results.len()
    &&& (forall|k: int| 0 <= k < picked.len() ==> 0 <= #[trigger] picked[k] < records.len())
    &&& (forall|k: int, l: int| 0 <= k < l < picked.len() ==> picked[k] < picked[l])
    &&& (forall|k: int|
        0 <= k < picked.len() ==> call_ensures(predicate, (&records[#[trigger] picked[k]],), true))
    &&& (forall|k: int|
        0 <= k < picked.len() ==> call_ensures(
            action,
            (&keys[picked[k]], &records[picked[k]]),
            #[trigger] results[k],
        ))
    &&& (forall|i: int|
        0 <= i < records.len() && !picked.contains(i) ==> call_ensures(
            predicate,
            (&#[trigger] records[i],),
            false,
        ))
}

/// Cleanup is idempotent: after the removal of an id the id is absent,
/// whether or not it was ever registered; a second removal changes nothing,
/// and neither does the removal of an id that is not registered.
pub proof fn removal_is_idempotent(clients: Map<Seq<char>, ClientView>, id: Seq<char>)
    ensures
        !clients.remove(id).dom().contains(id),
        clients.remove(id).remove(id) == clients.remove(id),
        !clients.dom().contains(id) ==> clients.remove(id) == clients,
{
}

/// One slot of the registry: a connection id and its record.
struct Entry {
    id: String,
    client: Client,
}

/// The ids of a list of slots, in order.
spec fn slot_ids(slots: Seq<Entry>) -> Seq<Seq<char>> {
    Seq::new(slots.len(), |i: int| slots[i].id@)
}

/// Whether some slot holds `id`.
spec fn holds(slots: Seq<Entry>, id: Seq<char>) -> bool {
    exists|i: int| 0 <= i < slots.len() && #[trigger] slots[i].id@ == id
}

/// A slot that holds `id`, where there is one.
spec fn slot_of(slots: Seq<Entry>, id: Seq<char>) -> int {
    choose|i: int| 0 <= i < slots.len() && #[trigger] slots[i].id@ == id
}

/// The mapping that a list of slots stands for.
spec fn slots_map(slots: Seq<Entry>) -> Map<Seq<char>, ClientView> {
    Map::new(|id: Seq<char>| holds(slots, id), |id: Seq<char>| slots[slot_of(slots, id)].client@)
}

/// With distinct ids, the slot at `i` is the one the mapping reads for its id.
proof fn lemma_slot(slots: Seq<Entry>, i: int)
    requires
        slot_ids(slots).no_duplicates(),
        0 <= i < slots.len(),
    ensures
        holds(slots, slots[i].id@),
        slot_of(slots, slots[i].id@) == i,
        slots_map(slots).dom().contains(slots[i].id@),
        slots_map(slots)[slots[i].id@] == slots[i].client@,
{
    let id = slots[i].id@;
    let j = slot_of(slots, id);
    assert(slot_ids(slots)[i] == id);
    assert(slot_ids(slots)[j] == id);
}

/// An id that no slot holds is outside the mapping.
proof fn lemma_absent(slots: Seq<Entry>, id: Seq<char>)
    requires
        forall|j: int| 0 <= j < slots.len() ==> slots[j].id@ != id,
    ensures
        !slots_map(slots).dom().contains(id),
{
}

/// Replacing the record in slot `i` is an insertion under that slot's id.
proof fn lemma_replace(slots: Seq<Entry>, i: int, entry: Entry)
    requires
        slot_ids(slots).no_duplicates(),
        0 <= i < slots.len(),
        entry.id@ == slots[i].id@,
    ensures
        slot_ids(slots.update(i, entry)) == slot_ids(slots),
        slots_map(slots.update(i, entry)) == slots_map(slots).insert(entry.id@, entry.client@),
{
    let after = slots.update(i, entry);
    assert(slot_ids(after) =~= slot_ids(slots));
    assert forall|id: Seq<char>| holds(after, id) == (holds(slots, id) || id == entry.id@) by {
        if holds(after, id) {
            let j = slot_of(after, id);
            assert(slots[j].id@ == id);
        }
        if holds(slots, id) {
            let j = slot_of(slots, id);
            assert(after[j].id@ == id);
        }
        if id == entry.id@ {
            assert(after[i].id@ == id);
        }
    }
    assert forall|id: Seq<char>| holds(after, id) implies #[trigger] slots_map(after)[id] == (
    if id == entry.id@ {
        entry.client@
    } else {
        slots_map(slots)[id]
    }) by {
        let j = slot_of(after, id);
        lemma_slot(after, j);
        lemma_slot(after, i);
        if j != i {
            lemma_slot(slots, j);
        }
    }
    assert(slots_map(after) =~= slots_map(slots).insert(entry.id@, entry.client@));
}

/// Adding a slot under an id that no slot holds is an insertion.
proof fn lemma_append(slots: Seq<Entry>, entry: Entry)
    requires
        slot_ids(slots).no_duplicates(),
        forall|j: int| 0 <= j < slots.len() ==> slots[j].id@ != entry.id@,
    ensures
        slot_ids(slots.push(entry)) == slot_ids(slots).push(entry.id@),
        slot_ids(slots.push(entry)).no_duplicates(),
        slots_map(slots.push(entry)) == slots_map(slots).insert(entry.id@, entry.client@),
{
    let after = slots.push(entry);
    let last = slots.len() as int;
    assert(slot_ids(after) =~= slot_ids(slots).push(entry.id@));
    assert(slot_ids(after).no_duplicates()) by {
        assert forall|a: int, b: int|
            0 <= a < after.len() && 0 <= b < after.len() && a != b implies slot_ids(after)[a]
            != slot_ids(after)[b] by {
            if a < last && b < last {
                assert(slot_ids(slots)[a] != slot_ids(slots)[b]);
            }
        }
    }
    assert forall|id: Seq<char>| holds(after, id) == (holds(slots, id) || id == entry.id@) by {
        if holds(after, id) {
            let j = slot_of(after, id);
            if j < last {
                assert(slots[j].id@ == id);
            }
        }
        if holds(slots, id) {
            let j = slot_of(slots, id);
            assert(after[j].id@ == id);
        }
        if id == entry.id@ {
            assert(after[last].id@ == id);
        }
    }
    assert forall|id: Seq<char>| holds(after, id) implies #[trigger] slots_map(after)[id] == (
    if id == entry.id@ {
        entry.client@
    } else {
        slots_map(slots)[id]
    }) by {
        let j = slot_of(after, id);
        lemma_slot(after, j);
        if j != last {
            lemma_slot(slots, j);
        }
    }
    assert(slots_map(after) =~= slots_map(slots).insert(entry.id@, entry.client@));
}

/// Dropping slot `i` removes its id from the mapping and leaves the rest.
proof fn lemma_drop(slots: Seq<Entry>, i: int)
    requires
        slot_ids(slots).no_duplicates(),
        0 <= i < slots.len(),
    ensures
        slot_ids(slots.remove(i)) == slot_ids(slots).remove(i),
        slot_ids(slots.remove(i)).no_duplicates(),
        slots_map(slots.remove(i)) == slots_map(slots).remove(slots[i].id@),
{
    let after = slots.remove(i);
    let gone = slots[i].id@;
    assert(slot_ids(after) =~= slot_ids(slots).remove(i));
    assert(slot_ids(after).no_duplicates()) by {
        assert forall|a: int, b: int|
            0 <= a < after.len() && 0 <= b < after.len() && a != b implies slot_ids(after)[a]
            != slot_ids(after)[b] by {
            let a0 = if a < i { a } else { a + 1 };
            let b0 = if b < i { b } else { b + 1 };
            assert(slot_ids(after)[a] == slot_ids(slots)[a0]);
            assert(slot_ids(after)[b] == slot_ids(slots)[b0]);
        }
    }
    assert forall|id: Seq<char>| holds(after, id) == (holds(slots, id) && id != gone) by {
        if holds(after, id) {
            let j = slot_of(after, id);
            let j0 = if j < i { j } else { j + 1 };
            assert(slots[j0].id@ == id);
            assert(slot_ids(slots)[j0] == id);
            assert(slot_ids(slots)[i] == gone);
        }
        if holds(slots, id) && id != gone {
            let j = slot_of(slots, id);
            let j1 = if j < i { j } else { j - 1 };
            assert(after[j1].id@ == id);
        }
    }
    assert forall|id: Seq<char>| holds(after, id) implies #[trigger] slots_map(after)[id]
        == slots_map(slots)[id] by {
        let j = slot_of(after, id);
        let j0 = if j < i { j } else { j + 1 };
        lemma_slot(after, j);
        lemma_slot(slots, j0);
    }
    assert(slots_map(after) =~= slots_map(slots).remove(gone));
}

/// The slot that holds `id`, if any.
fn find(slots: &Vec<Entry>, id: &String) -> (found: Option<usize>)
    ensures
        match found {
            Some(i) => i < slots.len() && slots[i as int].id@ == id@,
            None => forall|j: int| 0 <= j < slots.len() ==> slots[j].id@ != id@,
        },
{
    let mut i: usize = 0;
    while i < slots.len()
        invariant
            i <= slots.len(),
            forall|j: int| 0 <= j < i ==> slots[j].id@ != id@,
        decreases slots.len() - i,
    {
        if slots[i].id == *id {
            return Some(i);
        }
        i += 1;
    }
    None
}

} // verus!
