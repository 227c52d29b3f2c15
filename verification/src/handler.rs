//! The requests that reach the hub from outside a connection: registration,
//! the opening of a socket, and publishing.

use crate::dispatch::{offered, publish, recipients, Delivery, DEBUG_TOPIC};
use crate::registry::{Client, ClientView, Clients};
use crate::socket::broadcast_debug_message;
use vstd::prelude::*;

verus! {

/// What every socket address starts with; the connection id follows.
pub const SOCKET_URL_PREFIX: &'static str = "ws://127.0.0.1:8000/ws/";

/// The notice sent on the debug topic after a registration.
pub const REGISTERED_NOTICE: &'static str = "A new client was registered";

/// The notice sent on the debug topic after a publish request.
pub const PUBLISHED_NOTICE: &'static str = "A published message was handled";

/// A request to register a client.
#[derive(Debug, PartialEq, Eq)]
pub struct RegisterRequest {
    pub user_id: usize,
    pub topic: String,
}

/// What a registration gave.
#[derive(Debug)]
pub struct Registration {
    /// The id issued to the connection.
    pub id: String,
    /// The address at which the connection's socket is to be opened.
    pub url: String,
    /// The connections that were told of the registration.
    pub notified: Vec<Delivery>,
}

/// What a publish request gave.
#[derive(Debug)]
pub struct Published {
    /// The connections that were offered the message.
    pub delivered: Vec<Delivery>,
    /// The connections that were told of the request.
    pub notified: Vec<Delivery>,
}

/// Why a request was turned down.
#[derive(Debug, Clone, Copy, PartialEq, Eq, Structural)]
pub enum Rejection {
    /// No connection is registered under the id that was asked for.
    NotFound,
}

/// The socket address of a connection id.
pub open spec fn socket_url(id: Seq<char>) -> Seq<char> {
    SOCKET_URL_PREFIX@ + id
}

/// Whether `digit` is a hexadecimal digit in lower case.
pub open spec fn is_lower_hex(digit: char) -> bool {
    ('0' <= digit && digit <= '9') || ('a' <= digit && digit <= 'f')
}

/// The shape of an issued connection id: 32 hexadecimal digits in lower case.
pub open spec fn is_issued_id(id: Seq<char>) -> bool {
    &&& id.len() == 32
    &&& (forall|i: int| 0 <= i < id.len() ==> is_lower_hex(#[trigger] id[i]))
}

/// Draws a fresh connection id: `Uuid::new_v4` draws a random identifier,
/// and its `as_simple` form prints as 32 hexadecimal digits in lower case,
/// without hyphens. The draw fails, by a panic, only where the operating
/// system hands out no random bytes. Which digits come is a matter of
/// chance: nothing is claimed of them but their number and their alphabet.
#[verifier::external_body]
fn fresh_id() -> (id: String)
    ensures
        is_issued_id(id@),
{
    uuid::Uuid::new_v4().as_simple().to_string()
}

/// Registers a client under `id`, subscribed to `topic` and without a
/// transport, in place of whatever was registered under `id`; then tells
/// the debug topic.
pub fn register_client(id: String, user_id: usize, topic: String, clients: &mut Clients) -> (notified:
    Vec<Delivery>)
    ensures
        final(clients)@ == old(clients)@.insert(id@, ClientView::registered(user_id, topic@)),
        offered(notified@).no_duplicates(),
        offered(notified@).to_set() == recipients(final(clients)@, DEBUG_TOPIC@, None),
{
    clients.insert(id, Client::registered(user_id, topic));
    broadcast_debug_message(clients, REGISTERED_NOTICE)
}

/// Registers the client of `body` under the id `id`, and returns the id
/// with the address of its socket.
pub fn register_as(id: String, body: RegisterRequest, clients: &mut Clients) -> (registration:
    Registration)
    ensures
        registration.id@ == id@,
        registration.url@ == socket_url(id@),
        final(clients)@ == old(clients)@.insert(id@, ClientView::registered(body.user_id, body.topic@)),
        offered(registration.notified@).no_duplicates(),
        offered(registration.notified@).to_set() == recipients(
            final(clients)@,
            DEBUG_TOPIC@,
            None,
        ),
{
    let mut url = SOCKET_URL_PREFIX.to_owned();
    url.append(id.as_str());
    let notified = register_client(id.clone(), body.user_id, body.topic, clients);
    Registration { id, url, notified }
}

/// Registers the client of `body` under a fresh id, and returns the id
/// with the address of its socket.
pub fn register_handler(body: RegisterRequest, clients: &mut Clients) -> (registration:
    Registration)
    ensures
        is_issued_id(registration.id@),
        registration.url@ == socket_url(registration.id@),
        final(clients)@ == old(clients)@.insert(
            registration.id@,
            ClientView::registered(body.user_id, body.topic@),
        ),
        offered(registration.notified@).no_duplicates(),
        offered(registration.notified@).to_set() == recipients(
            final(clients)@,
            DEBUG_TOPIC@,
            None,
        ),
{
    register_as(fresh_id(), body, clients)
}

/// Finds the record that a socket is opened for: a snapshot of the record
/// registered under `id`, or `NotFound` where there is none.
pub fn socket_handler(id: &str, clients: &Clients) -> (found: Result<Client, Rejection>)
    ensures
        match found {
            Ok(client) => clients@.dom().contains(id@) && client@ == clients@[id@],
            Err(rejection) => !clients@.dom().contains(id@) && rejection == Rejection::NotFound,
        },
{
    match clients.lookup(id) {
        Some(client) => Ok(client),
        None => Err(Rejection::NotFound),
    }
}

/// Publishes `payload` to `topic`, leaving out the connections of `user_id`
/// where one is given; then tells the debug topic.
pub fn publish_handler(topic: &str, user_id: Option<usize>, payload: &str, clients: &Clients) -> (published:
    Published)
    ensures
        offered(published.delivered@).no_duplicates(),
        offered(published.delivered@).to_set() == recipients(clients@, topic@, user_id),
        offered(published.notified@).no_duplicates(),
        offered(published.notified@).to_set() == recipients(clients@, DEBUG_TOPIC@, None),
{
    let delivered = publish(clients, topic, payload, user_id);
    let notified = broadcast_debug_message(clients, PUBLISHED_NOTICE);
    Published { delivered, notified }
}

} // verus!
