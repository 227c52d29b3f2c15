//! The dispatcher: who receives a published message.
//!
//! A message published to a topic goes to every attached connection that is
//! subscribed to the topic, except those of an owner the publisher asks to
//! leave out. Each of them is offered the message once, on its outbound
//! queue; a queue that no longer takes messages is passed over in silence.

use crate::outbound::enqueue;
use crate::registry::{visited, Client, ClientView, Clients};
use vstd::prelude::*;

verus! {

/// The topic of the hub's own status notices.
pub const DEBUG_TOPIC: &'static str = "debug";

/// Whether a record is a target of a message published to `topic`, with the
/// connections of `exclude_owner` left out when one is given.
pub open spec fn selected(record: ClientView, topic: Seq<char>, exclude_owner: Option<usize>) -> bool {
    &&& record.attached
    &&& record.subscribed(topic)
    &&& exclude_owner != Some(record.user_id)
}

/// The ids of the connections that a message published to `topic` is offered to.
pub open spec fn recipients(
    clients: Map<Seq<char>, ClientView>,
    topic: Seq<char>,
    exclude_owner: Option<usize>,
) -> Set<Seq<char>> {
    Set::new(|id: Seq<char>| clients.dom().contains(id) && selected(clients[id], topic, exclude_owner))
}

/// One connection that was offered a message.
#[derive(Debug)]
pub struct Delivery {
    /// The connection's id.
    pub id: String,
    /// Whether its outbound queue took the message.
    pub accepted: bool,
}

/// The ids named by a list of deliveries, in order.
pub open spec fn offered(report: Seq<Delivery>) -> Seq<Seq<char>> {
    Seq::new(report.len(), |i: int| report[i].id@)
}

/// Whether `client` is a target of a message published to `topic`.
pub fn is_selected(client: &Client, topic: &String, exclude_owner: Option<usize>) -> (chosen: bool)
    ensures
        chosen == selected(client@, topic@, exclude_owner),
{
    if client.sender.is_none() {
        return false;
    }
    let excluded = match exclude_owner {
        Some(owner) => client.user_id == owner,
        None => false,
    };
    !excluded && client.subscribes(topic)
}

/// Offers `payload` to one connection and reports it. A record without a
/// transport takes nothing.
pub fn offer(id: &String, client: &Client, payload: &str) -> (delivery: Delivery)
    ensures
        delivery.id@ == id@,
        !client@.attached ==> !delivery.accepted,
{
    let accepted = match &client.sender {
        Some(sender) => enqueue(sender, payload.to_owned()),
        None => false,
    };
    Delivery { id: id.clone(), accepted }
}

/// Offers `payload` to every connection that `recipients` names, each once,
/// and reports them. Whether a queue took the message is reported as the
/// queue answered; a refusal stops nothing.
pub fn publish(clients: &Clients, topic: &str, payload: &str, exclude_owner: Option<usize>) -> (report:
    Vec<Delivery>)
    ensures
        offered(report@).no_duplicates(),
        offered(report@).to_set() == recipients(clients@, topic@, exclude_owner),
{
    let wanted = topic.to_owned();
    let predicate = |client: &Client| -> (chosen: bool)
        ensures
            chosen == selected(client@, wanted@, exclude_owner),
        { is_selected(client, &wanted, exclude_owner) };
    let action = |id: &String, client: &Client| -> (delivery: Delivery)
        ensures
            delivery.id@ == id@,
        { offer(id, client, payload) };
    let report = clients.for_each_matching(predicate, action);
    proof {
        let keys = clients.keys();
        let records = clients.records();
        let ids = clients.ids();
        let picked = choose|picked: Seq<int>|
            visited(keys, records, predicate, action, picked, report@);
        let named = offered(report@);
        assert forall|k: int| 0 <= k < named.len() implies named[k] == ids[picked[k]] && selected(
            clients@[named[k]],
            topic@,
            exclude_owner,
        ) by {
            let i = picked[k];
            assert(call_ensures(action, (&keys[i], &records[i]), report@[k]));
            assert(call_ensures(predicate, (&records[i],), true));
            assert(clients@[ids[i]] == records[i]@);
        }
        assert forall|k: int, l: int| 0 <= k < named.len() && 0 <= l < named.len() && k != l implies named[k]
            != named[l] by {
            assert(picked[k] != picked[l]) by {
                if k < l {
                    assert(picked[k] < picked[l]);
                } else {
                    assert(picked[l] < picked[k]);
                }
            }
        }
        assert forall|id: Seq<char>| #[trigger]
            named.contains(id) <==> recipients(clients@, topic@, exclude_owner).contains(id) by {
            if named.contains(id) {
                let k = choose|k: int| 0 <= k < named.len() && named[k] == id;
                assert(ids.to_set().contains(ids[picked[k]]));
            }
            if recipients(clients@, topic@, exclude_owner).contains(id) {
                assert(ids.to_set().contains(id));
                let i = choose|i: int| 0 <= i < ids.len() && ids[i] == id;
                assert(clients@[ids[i]] == records[i]@);
                if !picked.contains(i) {
                    assert(call_ensures(predicate, (&records[i],), false));
                }
                let k = choose|k: int| 0 <= k < picked.len() && picked[k] == i;
                assert(named[k] == id);
            }
        }
        assert(named.to_set() =~= recipients(clients@, topic@, exclude_owner));
    }
    report
}

/// Topic isolation: a message published to a topic with no owner left out
/// is offered to an attached connection that is subscribed to the topic,
/// and, whoever is left out, never to a connection that is not subscribed
/// to it. So of two attached connections, one subscribed to a topic alone
/// and one to another topic alone, a message to the first topic reaches the
/// first and not the second.
pub proof fn topic_isolation(
    clients: Map<Seq<char>, ClientView>,
    subscriber: Seq<char>,
    stranger: Seq<char>,
    topic: Seq<char>,
)
    requires
        clients.dom().contains(subscriber),
        clients[subscriber].attached,
        clients[subscriber].subscribed(topic),
        clients.dom().contains(stranger),
        !clients[stranger].subscribed(topic),
    ensures
        recipients(clients, topic, None).contains(subscriber),
        forall|exclude_owner: Option<usize>|
            !(#[trigger] recipients(clients, topic, exclude_owner)).contains(stranger),
{
}

/// Sender exclusion: of two attached connections with distinct owners, both
/// subscribed to a topic, a message published to the topic with the first
/// one's owner left out is offered to the second and not to the first; with
/// no owner left out it is offered to both. Where the registry holds these
/// two alone, the second is the only recipient of the former message.
pub proof fn sender_exclusion(
    clients: Map<Seq<char>, ClientView>,
    first: Seq<char>,
    second: Seq<char>,
    topic: Seq<char>,
)
    requires
        clients.dom().contains(first),
        clients.dom().contains(second),
        clients[first].attached,
        clients[second].attached,
        clients[first].subscribed(topic),
        clients[second].subscribed(topic),
        clients[first].user_id != clients[second].user_id,
    ensures
        !recipients(clients, topic, Some(clients[first].user_id)).contains(first),
        recipients(clients, topic, Some(clients[first].user_id)).contains(second),
        recipients(clients, topic, None).contains(first),
        recipients(clients, topic, None).contains(second),
        clients.dom() == set![first, second] ==> recipients(
            clients,
            topic,
            Some(clients[first].user_id),
        ) == set![second],
{
}

/// Nobody but the owner left out is passed over on the owner's account:
/// every recipient of a message has another owner, and every recipient of
/// the same message with no owner left out that has another owner is a
/// recipient still.
pub proof fn exclusion_is_by_owner(
    clients: Map<Seq<char>, ClientView>,
    topic: Seq<char>,
    owner: usize,
    id: Seq<char>,
)
    ensures
        recipients(clients, topic, Some(owner)).contains(id) <==> recipients(
            clients,
            topic,
            None,
        ).contains(id) && clients[id].user_id != owner,
{
}

/// Pre-attachment exclusion: a connection whose transport is not attached
/// is never a recipient, whatever its topics and whoever is left out; nor
/// is an id that is not registered.
pub proof fn unattached_is_never_selected(
    clients: Map<Seq<char>, ClientView>,
    id: Seq<char>,
    topic: Seq<char>,
    exclude_owner: Option<usize>,
)
    requires
        !clients.dom().contains(id) || !clients[id].attached,
    ensures
        !recipients(clients, topic, exclude_owner).contains(id),
{
}

} // verus!
