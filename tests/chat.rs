use direct_chat::chat::{ChatService, SendError};
use direct_chat::models::{Claims, Message, MessageRequest, MessageType, User, WebSocketMessage};
use direct_chat::registry::{ConnectionRegistry, DeliveryOutcome, CHANNEL_CAPACITY};
use direct_chat::store::{MessageStore, StoreError, HISTORY_LIMIT};

fn text(from: i32, to: i32, content: &str) -> MessageRequest {
    MessageRequest {
        from_user_id: from,
        to_user_id: to,
        content: content.to_string(),
        message_type: MessageType::Text,
        file_path: None,
    }
}

fn stored(store: &mut MessageStore, from: i32, to: i32, content: &str, now: i64) -> Message {
    store
        .append(from, to, content.to_string(), MessageType::Text, None, now)
        .ok()
        .unwrap()
}

#[test]
fn register_then_send_delivers_once() {
    let mut svc = ChatService::new();
    svc.connect(7);
    let rc = svc.send_message(3, text(3, 7, "hi"), 1000).ok().unwrap();
    assert_eq!(rc.outcome, DeliveryOutcome::Delivered);
    let pending = svc.take_pending(7);
    assert_eq!(pending.len(), 1);
    assert_eq!(pending[0].from_user_id, 3);
    assert_eq!(pending[0].to_user_id, 7);
    assert_eq!(pending[0].content, "hi");
    assert_eq!(pending[0].id, rc.message.id);
    assert!(svc.take_pending(7).is_empty());
}

#[test]
fn empty_text_is_rejected_and_nothing_stored() {
    let mut svc = ChatService::new();
    let r = svc.send_message(3, text(3, 7, ""), 1000);
    assert_eq!(r.err(), Some(SendError::ValidationError));
    assert_eq!(svc.store().len(), 0);
    let rc = svc.send_message(3, text(3, 7, "next"), 1001).ok().unwrap();
    assert_eq!(rc.message.id, 1);
}

#[test]
fn ids_grow_strictly() {
    let mut svc = ChatService::new();
    let a = svc.send_message(1, text(1, 2, "a"), 10).ok().unwrap().message.id;
    let b = svc.send_message(2, text(2, 1, "b"), 10).ok().unwrap().message.id;
    let c = svc.send_message(5, text(5, 6, "c"), 5).ok().unwrap().message.id;
    assert!(a < b && b < c);
    assert_eq!((a, b, c), (1, 2, 3));
}

#[test]
fn timestamps_never_go_back() {
    let mut store = MessageStore::new();
    let a = stored(&mut store, 1, 2, "a", 500);
    let b = stored(&mut store, 1, 2, "b", 300);
    let c = stored(&mut store, 1, 2, "c", 900);
    assert_eq!(a.created_at, 500);
    assert_eq!(b.created_at, 500);
    assert_eq!(c.created_at, 900);
}

#[test]
fn spoofed_sender_never_reaches_the_store() {
    let mut svc = ChatService::new();
    svc.connect(7);
    let r = svc.send_message(4, text(3, 7, "hi"), 1000);
    assert_eq!(r.err(), Some(SendError::UnauthorizedSender));
    assert_eq!(svc.store().len(), 0);
    assert!(svc.take_pending(7).is_empty());
}

#[test]
fn offline_recipient_still_succeeds() {
    let mut svc = ChatService::new();
    let rc = svc.send_message(3, text(3, 9, "later"), 1000).ok().unwrap();
    assert_eq!(rc.outcome, DeliveryOutcome::NoChannel);
    assert_eq!(svc.store().len(), 1);
    assert_eq!(svc.store().get(0).content, "later");
}

#[test]
fn unregister_twice_is_harmless() {
    let mut reg = ConnectionRegistry::new();
    reg.add_connection(5);
    reg.remove_connection(5);
    reg.remove_connection(5);
    assert!(!reg.is_connected(5));
    reg.remove_connection(6);
    assert!(!reg.is_connected(6));
}

#[test]
fn reregistering_replaces_the_channel() {
    let mut svc = ChatService::new();
    svc.connect(7);
    svc.send_message(3, text(3, 7, "one"), 1).ok().unwrap();
    svc.connect(7);
    assert!(svc.take_pending(7).is_empty());
}

#[test]
fn full_channel_drops_the_oldest() {
    let mut store = MessageStore::new();
    let mut reg = ConnectionRegistry::new();
    reg.add_connection(2);
    let mut i: i64 = 0;
    while i < (CHANNEL_CAPACITY as i64) + 1 {
        let m = stored(&mut store, 1, 2, "x", i);
        assert_eq!(reg.send_message(&m), DeliveryOutcome::Delivered);
        i += 1;
    }
    let pending = reg.take_pending(2);
    assert_eq!(pending.len(), CHANNEL_CAPACITY);
    assert_eq!(pending[0].id, 2);
    assert_eq!(pending[CHANNEL_CAPACITY - 1].id, (CHANNEL_CAPACITY as i32) + 1);
}

#[test]
fn history_is_newest_first_and_only_the_pair() {
    let mut store = MessageStore::new();
    stored(&mut store, 1, 2, "a", 10);
    stored(&mut store, 3, 1, "other", 11);
    stored(&mut store, 2, 1, "b", 12);
    stored(&mut store, 2, 3, "other", 13);
    stored(&mut store, 1, 2, "c", 12);
    let h = store.recent_between(2, 1, 10);
    let got: Vec<&str> = h.iter().map(|m| m.content.as_str()).collect();
    assert_eq!(got, vec!["c", "b", "a"]);
    let two = store.recent_between(1, 2, 2);
    assert_eq!(two.len(), 2);
    assert_eq!(two[0].content, "c");
    assert_eq!(two[1].content, "b");
    assert!(store.recent_between(1, 2, 0).is_empty());
}

#[test]
fn history_is_capped_at_fifty() {
    let mut svc = ChatService::new();
    let mut i: i64 = 0;
    while i < 60 {
        svc.send_message(1, text(1, 2, "m"), i).ok().unwrap();
        i += 1;
    }
    let h = svc.get_messages(2, 1);
    assert_eq!(h.len(), HISTORY_LIMIT);
    assert_eq!(h[0].id, 60);
    assert_eq!(h[49].id, 11);
}

#[test]
fn partners_are_listed_once() {
    let mut svc = ChatService::new();
    svc.send_message(1, text(1, 2, "a"), 1).ok().unwrap();
    svc.send_message(2, text(2, 1, "b"), 2).ok().unwrap();
    svc.send_message(3, text(3, 1, "c"), 3).ok().unwrap();
    svc.send_message(1, text(1, 1, "self"), 4).ok().unwrap();
    svc.send_message(4, text(4, 5, "d"), 5).ok().unwrap();
    let mut chats = svc.get_chats(1);
    chats.sort();
    assert_eq!(chats, vec![2, 3]);
    assert!(svc.get_chats(9).is_empty());
}

#[test]
fn media_needs_a_reference() {
    let mut store = MessageStore::new();
    let r = store.append(1, 2, "".to_string(), MessageType::Audio, None, 1);
    assert_eq!(r.err(), Some(StoreError::ValidationError));
    let ok = store
        .append(1, 2, "".to_string(), MessageType::Audio, Some("/uploads/a.webm".to_string()), 1)
        .ok()
        .unwrap();
    assert_eq!(ok.file_path, Some("/uploads/a.webm".to_string()));
    let r = store.append(1, 2, "x".to_string(), MessageType::Media, None, 1);
    assert_eq!(r.err(), Some(StoreError::ValidationError));
}

#[test]
fn reasons_hide_details() {
    assert_eq!(SendError::UnauthorizedSender.reason(), "Unauthorized sender");
    assert_eq!(SendError::ValidationError.reason(), "Invalid message");
    assert_eq!(SendError::StorageError.reason(), "Failed to save message");
}

#[test]
fn token_claims_last_a_day() {
    let c = Claims::for_user(42, 1_000).unwrap();
    assert_eq!(c.sub, 42);
    assert_eq!(c.exp, 87_400);
    assert!(Claims::for_user(42, -1).is_none());
}

#[test]
fn prepare_then_store_make_the_same_record() {
    let mut svc = ChatService::new();
    svc.connect(7);
    let req = text(3, 7, "hi");
    let p = svc.prepare_message(3, &req, 40).ok().unwrap();
    assert_eq!(svc.store().len(), 0);
    let m = svc.store_message(3, req, 40).ok().unwrap();
    assert_eq!((p.id, p.created_at, p.content.as_str()), (m.id, m.created_at, m.content.as_str()));
    assert_eq!(svc.store().len(), 1);
    assert!(svc.take_pending(7).is_empty());
    assert_eq!(svc.deliver(&m), DeliveryOutcome::Delivered);
    assert_eq!(svc.take_pending(7).len(), 1);
    assert_eq!(svc.prepare_message(4, &text(3, 7, "x"), 1).err(), Some(SendError::UnauthorizedSender));
    assert_eq!(svc.prepare_message(3, &text(3, 7, ""), 1).err(), Some(SendError::ValidationError));
}

#[test]
fn store_rebuilt_from_records_continues_the_sequence() {
    let mut old = MessageStore::new();
    stored(&mut old, 1, 2, "a", 10);
    stored(&mut old, 2, 1, "b", 20);
    let records = vec![old.get(0).clone(), old.get(1).clone()];
    let store = MessageStore::from_records(records).unwrap();
    let mut svc = ChatService::from_store(store);
    assert_eq!(svc.get_messages(1, 2).len(), 2);
    let rc = svc.send_message(1, text(1, 2, "c"), 5).ok().unwrap();
    assert_eq!(rc.message.id, 3);
    assert_eq!(rc.message.created_at, 20);
}

#[test]
fn records_out_of_order_are_refused() {
    let mut old = MessageStore::new();
    let a = stored(&mut old, 1, 2, "a", 10);
    let b = stored(&mut old, 2, 1, "b", 20);
    assert!(MessageStore::from_records(vec![b.clone(), a.clone()]).is_none());
    assert!(MessageStore::from_records(vec![a.clone(), a.clone()]).is_none());
    let mut zero = a.clone();
    zero.id = 0;
    assert!(MessageStore::from_records(vec![zero]).is_none());
    let empty = MessageStore::from_records(Vec::new()).unwrap();
    assert_eq!(empty.len(), 0);
}

#[test]
fn push_form_and_request_form() {
    let mut store = MessageStore::new();
    let m = stored(&mut store, 3, 7, "hi", 1);
    let w = WebSocketMessage::from_message(&m);
    assert_eq!(w.content, "hi");
    assert_eq!(w.to_user_id, 7);
    let req = w.into_request();
    assert_eq!(req.from_user_id, 3);
    assert_eq!(req.message_type, MessageType::Text);
    let u = User { id: 1, username: "ann".to_string(), password: "h".to_string(), created_at: 5 };
    let resp = u.into_response();
    assert_eq!((resp.id, resp.username.as_str(), resp.created_at), (1, "ann", 5));
}
