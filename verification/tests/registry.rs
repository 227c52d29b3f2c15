use broadcast_hub::registry::{Client, Clients};
use tokio::sync::mpsc::unbounded_channel;

fn record(user_id: usize, topic: &str) -> Client {
    Client::registered(user_id, topic.to_string())
}

#[test]
fn new_registry_is_empty() {
    let clients = Clients::new();
    assert_eq!(clients.len(), 0);
    assert!(clients.lookup("X").is_none());
    assert!(!clients.contains("X"));
}

#[test]
fn registered_record_has_one_topic_and_no_transport() {
    let client = record(7, "chat");
    assert_eq!(client.user_id, 7);
    assert_eq!(client.topics, vec!["chat".to_string()]);
    assert!(client.sender.is_none());
}

#[test]
fn insert_then_lookup_returns_a_snapshot() {
    let mut clients = Clients::new();
    clients.insert("X".to_string(), record(1, "chat"));
    let found = clients.lookup("X").expect("X was inserted");
    assert_eq!(found.user_id, 1);
    assert_eq!(found.topics, vec!["chat".to_string()]);
    assert!(found.sender.is_none());
    assert!(clients.contains("X"));
    assert_eq!(clients.len(), 1);
}

#[test]
fn lookup_of_an_absent_id_is_none() {
    let mut clients = Clients::new();
    clients.insert("X".to_string(), record(1, "chat"));
    assert!(clients.lookup("Y").is_none());
    assert!(clients.lookup("").is_none());
    assert!(clients.lookup("x").is_none());
}

#[test]
fn insert_replaces_the_record_of_the_same_id() {
    let mut clients = Clients::new();
    clients.insert("X".to_string(), record(1, "chat"));
    clients.insert("X".to_string(), record(2, "news"));
    assert_eq!(clients.len(), 1);
    let found = clients.lookup("X").expect("X is registered");
    assert_eq!(found.user_id, 2);
    assert_eq!(found.topics, vec!["news".to_string()]);
}

#[test]
fn insert_keeps_the_other_records() {
    let mut clients = Clients::new();
    clients.insert("X".to_string(), record(1, "chat"));
    clients.insert("Y".to_string(), record(2, "news"));
    clients.insert("X".to_string(), record(3, "debug"));
    assert_eq!(clients.len(), 2);
    assert_eq!(clients.lookup("Y").expect("Y is registered").user_id, 2);
    assert_eq!(clients.lookup("X").expect("X is registered").user_id, 3);
}

#[test]
fn remove_deletes_the_record() {
    let mut clients = Clients::new();
    clients.insert("X".to_string(), record(1, "chat"));
    clients.insert("Y".to_string(), record(2, "chat"));
    assert!(clients.remove("X"));
    assert!(!clients.contains("X"));
    assert!(clients.contains("Y"));
    assert_eq!(clients.len(), 1);
}

#[test]
fn remove_twice_is_the_same_as_once() {
    let mut clients = Clients::new();
    clients.insert("X".to_string(), record(1, "chat"));
    clients.insert("Y".to_string(), record(2, "chat"));
    assert!(clients.remove("X"));
    assert!(!clients.remove("X"));
    assert!(!clients.contains("X"));
    assert_eq!(clients.len(), 1);
    assert_eq!(clients.lookup("Y").expect("Y is registered").user_id, 2);
}

#[test]
fn remove_of_an_id_never_inserted_changes_nothing() {
    let mut clients = Clients::new();
    assert!(!clients.remove("ghost"));
    clients.insert("X".to_string(), record(1, "chat"));
    assert!(!clients.remove("ghost"));
    assert_eq!(clients.len(), 1);
    assert!(clients.contains("X"));
}

#[test]
fn subscribes_looks_at_every_topic() {
    let client = Client {
        user_id: 1,
        topics: vec!["chat".to_string(), "debug".to_string()],
        sender: None,
    };
    assert!(client.subscribes(&"chat".to_string()));
    assert!(client.subscribes(&"debug".to_string()));
    assert!(!client.subscribes(&"news".to_string()));
    assert!(!client.subscribes(&"cha".to_string()));
    let none = Client { user_id: 1, topics: Vec::new(), sender: None };
    assert!(!none.subscribes(&"chat".to_string()));
}

#[test]
fn clone_shares_the_outbound_queue() {
    let (sender, mut outbound) = unbounded_channel::<String>();
    let client = Client { user_id: 4, topics: vec!["chat".to_string()], sender: Some(sender) };
    let copy = client.clone();
    assert_eq!(copy.user_id, 4);
    assert_eq!(copy.topics, vec!["chat".to_string()]);
    let handle = copy.sender.expect("the copy is attached");
    handle.send("through the copy".to_string()).expect("the queue is open");
    assert_eq!(outbound.try_recv().ok(), Some("through the copy".to_string()));
    assert!(client.sender.is_some());
}

#[test]
fn lookup_of_an_attached_record_is_attached() {
    let (sender, mut outbound) = unbounded_channel::<String>();
    let mut clients = Clients::new();
    clients.insert(
        "X".to_string(),
        Client { user_id: 1, topics: vec!["chat".to_string()], sender: Some(sender) },
    );
    let found = clients.lookup("X").expect("X is registered");
    let handle = found.sender.expect("X is attached");
    handle.send("hello".to_string()).expect("the queue is open");
    assert_eq!(outbound.try_recv().ok(), Some("hello".to_string()));
}

#[test]
fn for_each_matching_visits_the_matching_entries_once() {
    let mut clients = Clients::new();
    clients.insert("X".to_string(), record(1, "chat"));
    clients.insert("Y".to_string(), record(2, "news"));
    clients.insert("Z".to_string(), record(3, "chat"));
    let chat = "chat".to_string();
    let mut visited = clients.for_each_matching(
        |client| client.subscribes(&chat),
        |id, client| (id.clone(), client.user_id),
    );
    visited.sort();
    assert_eq!(visited, vec![("X".to_string(), 1), ("Z".to_string(), 3)]);
}

#[test]
fn for_each_matching_with_no_match_does_nothing() {
    let mut clients = Clients::new();
    clients.insert("X".to_string(), record(1, "chat"));
    let visited = clients.for_each_matching(|_client| false, |id, _client| id.clone());
    assert!(visited.is_empty());
    let nobody = Clients::new().for_each_matching(|_client| true, |id, _client| id.clone());
    assert!(nobody.is_empty());
}

#[test]
fn for_each_matching_sees_every_entry_when_all_match() {
    let mut clients = Clients::new();
    clients.insert("X".to_string(), record(1, "chat"));
    clients.insert("Y".to_string(), record(2, "news"));
    clients.insert("X".to_string(), record(3, "debug"));
    let mut visited = clients.for_each_matching(|_client| true, |id, client| (id.clone(), client.user_id));
    visited.sort();
    assert_eq!(visited, vec![("X".to_string(), 3), ("Y".to_string(), 2)]);
}
