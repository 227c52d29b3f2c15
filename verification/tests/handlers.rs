use broadcast_hub::handler::{
    publish_handler, register_as, register_client, register_handler, socket_handler,
    RegisterRequest, Rejection, PUBLISHED_NOTICE, REGISTERED_NOTICE, SOCKET_URL_PREFIX,
};
use broadcast_hub::registry::{Client, Clients};
use broadcast_hub::socket::{attach, detach};
use tokio::sync::mpsc::UnboundedReceiver;

fn pending(outbound: &mut UnboundedReceiver<String>) -> Vec<String> {
    let mut payloads = Vec::new();
    while let Ok(payload) = outbound.try_recv() {
        payloads.push(payload);
    }
    payloads
}

fn request(user_id: usize, topic: &str) -> RegisterRequest {
    RegisterRequest { user_id, topic: topic.to_string() }
}

#[test]
fn register_client_leaves_a_record_without_transport() {
    let mut clients = Clients::new();
    let notified = register_client("X".to_string(), 1, "chat".to_string(), &mut clients);
    assert!(notified.is_empty());
    let found = clients.lookup("X").expect("X was registered");
    assert_eq!(found.user_id, 1);
    assert_eq!(found.topics, vec!["chat".to_string()]);
    assert!(found.sender.is_none());
}

#[test]
fn register_client_tells_the_debug_topic() {
    assert_eq!(REGISTERED_NOTICE, "A new client was registered");
    let mut clients = Clients::new();
    let mut watcher = attach(&mut clients, "W", Client::registered(9, "debug".to_string()));
    let mut player = attach(&mut clients, "P", Client::registered(8, "chat".to_string()));
    let notified = register_client("X".to_string(), 1, "debug".to_string(), &mut clients);
    assert_eq!(notified.len(), 1);
    assert_eq!(notified[0].id, "W");
    assert!(notified[0].accepted);
    assert_eq!(pending(&mut watcher), vec!["A new client was registered".to_string()]);
    assert_eq!(pending(&mut player), Vec::<String>::new());
}

#[test]
fn register_client_replaces_an_attached_record_of_the_same_id() {
    let mut clients = Clients::new();
    let _outbound = attach(&mut clients, "X", Client::registered(1, "debug".to_string()));
    let notified = register_client("X".to_string(), 2, "debug".to_string(), &mut clients);
    assert!(notified.is_empty());
    let found = clients.lookup("X").expect("X is registered");
    assert_eq!(found.user_id, 2);
    assert!(found.sender.is_none());
}

#[test]
fn register_as_returns_the_socket_address_of_the_id() {
    assert_eq!(SOCKET_URL_PREFIX, "ws://127.0.0.1:8000/ws/");
    let mut clients = Clients::new();
    let registration = register_as("abc123".to_string(), request(1, "chat"), &mut clients);
    assert_eq!(registration.id, "abc123");
    assert_eq!(registration.url, "ws://127.0.0.1:8000/ws/abc123");
    assert!(registration.notified.is_empty());
    let found = clients.lookup("abc123").expect("abc123 was registered");
    assert_eq!(found.user_id, 1);
    assert_eq!(found.topics, vec!["chat".to_string()]);
    assert!(found.sender.is_none());
}

#[test]
fn register_as_with_an_empty_id_registers_under_it() {
    let mut clients = Clients::new();
    let registration = register_as(String::new(), request(1, "chat"), &mut clients);
    assert_eq!(registration.url, "ws://127.0.0.1:8000/ws/");
    assert!(clients.contains(""));
}

#[test]
fn register_handler_issues_a_fresh_id_each_time() {
    let mut clients = Clients::new();
    let first = register_handler(request(1, "chat"), &mut clients);
    let second = register_handler(request(1, "chat"), &mut clients);
    assert_ne!(first.id, second.id);
    for registration in [&first, &second] {
        assert_eq!(registration.id.chars().count(), 32);
        assert!(registration.id.chars().all(|digit| matches!(digit, '0'..='9' | 'a'..='f')));
        assert_eq!(registration.url, format!("ws://127.0.0.1:8000/ws/{}", registration.id));
        let found = clients.lookup(&registration.id).expect("the id was registered");
        assert_eq!(found.user_id, 1);
        assert_eq!(found.topics, vec!["chat".to_string()]);
        assert!(found.sender.is_none());
    }
    assert_eq!(clients.len(), 2);
}

#[test]
fn socket_handler_finds_the_registered_record() {
    let mut clients = Clients::new();
    register_client("X".to_string(), 1, "chat".to_string(), &mut clients);
    let found = socket_handler("X", &clients).expect("X is registered");
    assert_eq!(found.user_id, 1);
    assert_eq!(found.topics, vec!["chat".to_string()]);
    assert!(found.sender.is_none());
}

#[test]
fn socket_handler_rejects_an_unknown_id() {
    let mut clients = Clients::new();
    assert_eq!(socket_handler("X", &clients).err(), Some(Rejection::NotFound));
    register_client("X".to_string(), 1, "chat".to_string(), &mut clients);
    assert_eq!(socket_handler("Y", &clients).err(), Some(Rejection::NotFound));
    detach(&mut clients, "X");
    assert_eq!(socket_handler("X", &clients).err(), Some(Rejection::NotFound));
}

#[test]
fn publish_handler_publishes_and_tells_the_debug_topic() {
    assert_eq!(PUBLISHED_NOTICE, "A published message was handled");
    let mut clients = Clients::new();
    let mut sender = attach(&mut clients, "S", Client::registered(1, "chat".to_string()));
    let mut reader = attach(&mut clients, "R", Client::registered(2, "chat".to_string()));
    let mut watcher = attach(&mut clients, "W", Client::registered(1, "debug".to_string()));
    let published = publish_handler("chat", Some(1), "{\"moveUnit\":1}", &clients);
    assert_eq!(published.delivered.len(), 1);
    assert_eq!(published.delivered[0].id, "R");
    assert_eq!(published.notified.len(), 1);
    assert_eq!(published.notified[0].id, "W");
    assert_eq!(pending(&mut sender), Vec::<String>::new());
    assert_eq!(pending(&mut reader), vec!["{\"moveUnit\":1}".to_string()]);
    assert_eq!(pending(&mut watcher), vec!["A published message was handled".to_string()]);
}

#[test]
fn publish_handler_without_a_user_reaches_every_subscriber() {
    let mut clients = Clients::new();
    let mut first = attach(&mut clients, "A", Client::registered(1, "chat".to_string()));
    let mut second = attach(&mut clients, "B", Client::registered(2, "chat".to_string()));
    let published = publish_handler("chat", None, "hi", &clients);
    assert_eq!(published.delivered.len(), 2);
    assert!(published.notified.is_empty());
    assert_eq!(pending(&mut first), vec!["hi".to_string()]);
    assert_eq!(pending(&mut second), vec!["hi".to_string()]);
}

#[test]
fn publish_handler_to_the_debug_topic_delivers_before_it_notifies() {
    let mut clients = Clients::new();
    let mut watcher = attach(&mut clients, "W", Client::registered(1, "debug".to_string()));
    publish_handler("debug", None, "payload", &clients);
    assert_eq!(
        pending(&mut watcher),
        vec!["payload".to_string(), "A published message was handled".to_string()]
    );
}

#[test]
fn end_to_end_scenario() {
    let mut clients = Clients::new();

    let x = register_as("X".to_string(), request(1, "chat"), &mut clients);
    assert_eq!(x.id, "X");
    let record = socket_handler("X", &clients).expect("X is registered");
    let mut x_transport = attach(&mut clients, "X", record);

    let y = register_as("Y".to_string(), request(2, "chat"), &mut clients);
    assert_eq!(y.id, "Y");
    let record = socket_handler("Y", &clients).expect("Y is registered");
    let mut y_transport = attach(&mut clients, "Y", record);

    let report = broadcast_hub::dispatch::publish(&clients, "chat", "hello", Some(1));
    assert_eq!(report.len(), 1);
    assert_eq!(report[0].id, "Y");
    assert!(report[0].accepted);
    assert_eq!(pending(&mut y_transport), vec!["hello".to_string()]);
    assert_eq!(pending(&mut x_transport), Vec::<String>::new());

    drop(y_transport);
    assert!(detach(&mut clients, "Y"));
    assert!(!clients.contains("Y"));
    assert!(clients.lookup("Y").is_none());

    let report = broadcast_hub::dispatch::publish(&clients, "chat", "hi", None);
    assert_eq!(report.len(), 1);
    assert_eq!(report[0].id, "X");
    assert!(report[0].accepted);
    assert_eq!(pending(&mut x_transport), vec!["hi".to_string()]);
}
