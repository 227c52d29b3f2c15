//! The life of one connection, as decisions.
//!
//! A connection is attached to the registry when its transport is ready, its
//! inbound messages are interpreted one by one, its outbound queue is drained
//! into the transport, and it leaves the registry when the inbound side ends.
//! The embedding program owns the transport: it reports each event to the
//! functions of this module and carries out the action they answer with.

use crate::command::{announcement_for, handle_game_command, Announcement, GameCommandRequest};
use crate::dispatch::{offered, publish, recipients, Delivery, DEBUG_TOPIC};
use crate::registry::{Client, ClientView, Clients};
use tokio::sync::mpsc::UnboundedReceiver;
use vstd::prelude::*;

verus! {

/// Where a connection stands in its life.
#[derive(Debug, Clone, Copy, PartialEq, Eq, Structural)]
pub enum ConnectionState {
    /// The transport is ready; the record has no outbound queue yet.
    Connecting,
    /// The record holds its outbound queue; messages flow.
    Attached,
    /// The inbound side has ended; the record has left the registry.
    Closed,
}

/// What the inbound side of the transport reports.
#[derive(Debug, Clone, Copy, PartialEq, Eq, Structural)]
pub enum SocketEvent {
    /// The transport handshake has completed.
    Upgraded,
    /// An application message has arrived.
    Message,
    /// Reading from the transport has failed.
    ReadFailed,
    /// The peer has closed the transport.
    Finished,
}

/// What is to be done about an event.
#[derive(Debug, Clone, Copy, PartialEq, Eq, Structural)]
pub enum SocketAction {
    /// Attach the connection: see `attach`.
    Attach,
    /// Interpret the message that arrived: see `receive_message`.
    Interpret,
    /// Take the connection out of the registry; `fault` tells whether a
    /// transport fault ended it, which is worth a line in the log.
    Deregister { fault: bool },
    /// Nothing: the event has no meaning in this state.
    Nothing,
}

/// The lifecycle of a connection: it is attached once, interprets messages
/// while attached, and is deregistered when its inbound side ends, by a
/// fault or by a clean close. Nothing else moves it, and nothing moves it
/// once it is closed.
pub open spec fn transition(state: ConnectionState, event: SocketEvent) -> (
    ConnectionState,
    SocketAction,
) {
    match (state, event) {
        (ConnectionState::Connecting, SocketEvent::Upgraded) => (
            ConnectionState::Attached,
            SocketAction::Attach,
        ),
        (ConnectionState::Attached, SocketEvent::Message) => (
            ConnectionState::Attached,
            SocketAction::Interpret,
        ),
        (ConnectionState::Attached, SocketEvent::ReadFailed) => (
            ConnectionState::Closed,
            SocketAction::Deregister { fault: true },
        ),
        (ConnectionState::Attached, SocketEvent::Finished) => (
            ConnectionState::Closed,
            SocketAction::Deregister { fault: false },
        ),
        _ => (state, SocketAction::Nothing),
    }
}

/// Advances a connection by one event of its inbound side.
pub fn receive_connection(state: ConnectionState, event: SocketEvent) -> (step: (
    ConnectionState,
    SocketAction,
))
    ensures
        step == transition(state, event),
{
    match state {
        ConnectionState::Connecting => match event {
            SocketEvent::Upgraded => (ConnectionState::Attached, SocketAction::Attach),
            _ => (state, SocketAction::Nothing),
        },
        ConnectionState::Attached => match event {
            SocketEvent::Upgraded => (state, SocketAction::Nothing),
            SocketEvent::Message => (ConnectionState::Attached, SocketAction::Interpret),
            SocketEvent::ReadFailed => (
                ConnectionState::Closed,
                SocketAction::Deregister { fault: true },
            ),
            SocketEvent::Finished => (
                ConnectionState::Closed,
                SocketAction::Deregister { fault: false },
            ),
        },
        ConnectionState::Closed => (state, SocketAction::Nothing),
    }
}

/// The state a connection reaches from `state` through `events`.
pub open spec fn state_after(state: ConnectionState, events: Seq<SocketEvent>) -> ConnectionState
    decreases events.len(),
{
    if events.len() == 0 {
        state
    } else {
        transition(state_after(state, events.drop_last()), events.last()).0
    }
}

/// How often a connection that starts in `state` is deregistered over `events`.
pub open spec fn deregistrations(state: ConnectionState, events: Seq<SocketEvent>) -> nat
    decreases events.len(),
{
    if events.len() == 0 {
        0
    } else {
        let before = events.drop_last();
        let action = transition(state_after(state, before), events.last()).1;
        deregistrations(state, before) + if action is Deregister {
            1nat
        } else {
            0nat
        }
    }
}

/// Whatever the transport reports, and in whatever order, a connection is
/// deregistered at most once, and exactly once if it ends closed after
/// having been open.
pub proof fn deregistered_once(state: ConnectionState, events: Seq<SocketEvent>)
    ensures
        deregistrations(state, events) <= 1,
        state == ConnectionState::Closed ==> deregistrations(state, events) == 0 && state_after(
            state,
            events,
        ) == ConnectionState::Closed,
        state != ConnectionState::Closed ==> (deregistrations(state, events) == 1 <==> state_after(
            state,
            events,
        ) == ConnectionState::Closed),
    decreases events.len(),
{
    if events.len() > 0 {
        deregistered_once(state, events.drop_last());
    }
}

/// Attaches a connection: opens a fresh outbound queue, stores its producer
/// half in `client`, and puts the record into the registry under
/// `client_key`, in place of the one that registration left there. The
/// consumer half is returned, to be drained into the transport.
pub fn attach(clients: &mut Clients, client_key: &str, client: Client) -> (outbound:
    UnboundedReceiver<String>)
    ensures
        final(clients)@ == old(clients)@.insert(client_key@, client@.attach()),
{
    let (sender, outbound) = tokio::sync::mpsc::unbounded_channel::<String>();
    let attached = Client { user_id: client.user_id, topics: client.topics, sender: Some(sender) };
    clients.insert(client_key.to_owned(), attached);
    outbound
}

/// Takes a connection out of the registry, and tells whether it was there.
/// Doing so again changes nothing.
pub fn detach(clients: &mut Clients, client_key: &str) -> (removed: bool)
    ensures
        final(clients)@ == old(clients)@.remove(client_key@),
        removed == old(clients)@.dom().contains(client_key@),
{
    clients.remove(client_key)
}

/// A record's life, as the dispatcher sees it: registration alone makes it
/// no recipient of its topic, attaching makes it one, and after its removal
/// it is none again.
pub proof fn record_lifecycle(
    clients: Map<Seq<char>, ClientView>,
    client_key: Seq<char>,
    user_id: usize,
    topic: Seq<char>,
)
    ensures
        ({
            let registered = clients.insert(client_key, ClientView::registered(user_id, topic));
            let attached = registered.insert(client_key, registered[client_key].attach());
            let removed = attached.remove(client_key);
            &&& !recipients(registered, topic, None).contains(client_key)
            &&& recipients(attached, topic, None).contains(client_key)
            &&& !recipients(removed, topic, None).contains(client_key)
        }),
{
    let record = ClientView::registered(user_id, topic);
    assert(record.topics[0] == topic);
}

/// An application message, as far as the hub reads it.
#[derive(Debug, PartialEq, Eq)]
pub enum Frame {
    /// A text message that holds a well-formed command.
    Command(GameCommandRequest),
    /// A text message that holds none.
    Malformed,
    /// A message that is no text.
    NotText,
}

/// What became of an application message.
#[derive(Debug, PartialEq, Eq)]
pub enum Reaction {
    /// The command was carried out, and this is to be published.
    Announce(Announcement),
    /// The command was carried out; there is nothing to publish.
    Handled,
    /// The message was malformed: it is dropped, which is worth a line in the log.
    Rejected,
    /// The message was no text: it is passed over.
    Skipped,
}

/// Decides what becomes of one application message. No message ends the
/// connection.
pub fn receive_message(frame: Frame) -> (reaction: Reaction)
    ensures
        match frame {
            Frame::Command(request) => match reaction {
                Reaction::Announce(announcement) => announcement_for(request@) == Some(
                    announcement@,
                ),
                Reaction::Handled => announcement_for(request@) is None,
                _ => false,
            },
            Frame::Malformed => reaction is Rejected,
            Frame::NotText => reaction is Skipped,
        },
{
    match frame {
        Frame::Command(request) => match handle_game_command(request) {
            Some(announcement) => Reaction::Announce(announcement),
            None => Reaction::Handled,
        },
        Frame::Malformed => Reaction::Rejected,
        Frame::NotText => Reaction::Skipped,
    }
}

/// Whether the outbound side of a connection is still at work.
#[derive(Debug, Clone, Copy, PartialEq, Eq, Structural)]
pub enum DrainState {
    /// Payloads are taken from the queue and written to the transport.
    Draining,
    /// The drain has ended, and stays so.
    Stopped,
}

/// What the outbound side of a connection reports.
#[derive(Debug, PartialEq, Eq)]
pub enum DrainEvent {
    /// The queue has handed out its next payload.
    Dequeued(String),
    /// The queue is closed: no producer is left.
    QueueClosed,
    /// Writing to the transport has failed.
    WriteFailed,
}

/// What is to be done about an event of the outbound side.
#[derive(Debug, PartialEq, Eq)]
pub enum DrainAction {
    /// Write this payload to the transport.
    Forward(String),
    /// End the drain; `fault` tells whether a transport fault ended it,
    /// which is worth a line in the log.
    Stop { fault: bool },
    /// Nothing: the drain has ended already.
    Nothing,
}

pub enum DrainEventView {
    Dequeued(Seq<char>),
    QueueClosed,
    WriteFailed,
}

pub enum DrainActionView {
    Forward(Seq<char>),
    Stop { fault: bool },
    Nothing,
}

impl View for DrainEvent {
    type V = DrainEventView;

    open spec fn view(&self) -> DrainEventView {
        match *self {
            DrainEvent::Dequeued(payload) => DrainEventView::Dequeued(payload@),
            DrainEvent::QueueClosed => DrainEventView::QueueClosed,
            DrainEvent::WriteFailed => DrainEventView::WriteFailed,
        }
    }
}

impl View for DrainAction {
    type V = DrainActionView;

    open spec fn view(&self) -> DrainActionView {
        match *self {
            DrainAction::Forward(payload) => DrainActionView::Forward(payload@),
            DrainAction::Stop { fault } => DrainActionView::Stop { fault },
            DrainAction::Nothing => DrainActionView::Nothing,
        }
    }
}

/// The outbound side of a connection: every payload that the queue hands
/// out is written to the transport as it is, until the queue is closed or a
/// write fails; after that nothing is written.
pub open spec fn drain_transition(state: DrainState, event: DrainEventView) -> (
    DrainState,
    DrainActionView,
) {
    match state {
        DrainState::Draining => match event {
            DrainEventView::Dequeued(payload) => (
                DrainState::Draining,
                DrainActionView::Forward(payload),
            ),
            DrainEventView::QueueClosed => (
                DrainState::Stopped,
                DrainActionView::Stop { fault: false },
            ),
            DrainEventView::WriteFailed => (
                DrainState::Stopped,
                DrainActionView::Stop { fault: true },
            ),
        },
        DrainState::Stopped => (DrainState::Stopped, DrainActionView::Nothing),
    }
}

/// Advances the outbound side of a connection by one event.
pub fn drain(state: DrainState, event: DrainEvent) -> (step: (DrainState, DrainAction))
    ensures
        (step.0, step.1@) == drain_transition(state, event@),
{
    match state {
        DrainState::Draining => match event {
            DrainEvent::Dequeued(payload) => (DrainState::Draining, DrainAction::Forward(payload)),
            DrainEvent::QueueClosed => (DrainState::Stopped, DrainAction::Stop { fault: false }),
            DrainEvent::WriteFailed => (DrainState::Stopped, DrainAction::Stop { fault: true }),
        },
        DrainState::Stopped => (DrainState::Stopped, DrainAction::Nothing),
    }
}

/// The state that the outbound side reaches from `state` through `events`.
pub open spec fn drain_state_after(state: DrainState, events: Seq<DrainEventView>) -> DrainState
    decreases events.len(),
{
    if events.len() == 0 {
        state
    } else {
        drain_transition(drain_state_after(state, events.drop_last()), events.last()).0
    }
}

/// The payloads written to the transport over `events`, in the order of writing.
pub open spec fn forwarded(state: DrainState, events: Seq<DrainEventView>) -> Seq<Seq<char>>
    decreases events.len(),
{
    if events.len() == 0 {
        Seq::empty()
    } else {
        let before = events.drop_last();
        let written = forwarded(state, before);
        match drain_transition(drain_state_after(state, before), events.last()).1 {
            DrainActionView::Forward(payload) => written.push(payload),
            _ => written,
        }
    }
}

/// The events of a queue that hands out `payloads`, one after the other.
pub open spec fn dequeued(payloads: Seq<Seq<char>>) -> Seq<DrainEventView> {
    Seq::new(payloads.len(), |i: int| DrainEventView::Dequeued(payloads[i]))
}

/// First in, first out: the payloads that a queue hands out before the
/// drain's first closing event are written to the transport, each once and
/// in the order in which the queue handed them out; whatever is reported
/// after that event, nothing more is written.
pub proof fn drain_keeps_order(payloads: Seq<Seq<char>>, rest: Seq<DrainEventView>)
    requires
        rest.len() > 0 ==> !(rest[0] is Dequeued),
    ensures
        forwarded(DrainState::Draining, dequeued(payloads) + rest) == payloads,
        drain_state_after(DrainState::Draining, dequeued(payloads) + rest) == if rest.len() == 0 {
            DrainState::Draining
        } else {
            DrainState::Stopped
        },
    decreases rest.len(), payloads.len(),
{
    let events = dequeued(payloads) + rest;
    if rest.len() > 0 {
        assert(events.drop_last() =~= dequeued(payloads) + rest.drop_last());
        drain_keeps_order(payloads, rest.drop_last());
    } else if payloads.len() > 0 {
        let empty = Seq::<DrainEventView>::empty();
        assert(events.drop_last() =~= dequeued(payloads.drop_last()) + empty);
        drain_keeps_order(payloads.drop_last(), empty);
    }
}

/// Offers `message` to every attached connection that is subscribed to
/// `topic`, whoever owns it.
pub fn broadcast_message(clients: &Clients, topic: &str, message: &str) -> (report: Vec<Delivery>)
    ensures
        offered(report@).no_duplicates(),
        offered(report@).to_set() == recipients(clients@, topic@, None),
{
    publish(clients, topic, message, None)
}

/// Offers a status notice of the hub to every attached connection that is
/// subscribed to the debug topic.
pub fn broadcast_debug_message(clients: &Clients, message: &str) -> (report: Vec<Delivery>)
    ensures
        offered(report@).no_duplicates(),
        offered(report@).to_set() == recipients(clients@, DEBUG_TOPIC@, None),
{
    publish(clients, DEBUG_TOPIC, message, None)
}

} // verus!
