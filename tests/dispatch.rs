use telegram_bridge::{
    CallbackQuery, Chat, Dispatcher, HandleEvent, Message, PollState, Route, UpdateResponse,
};

fn text_event(chat: u64, text: &str) -> HandleEvent {
    HandleEvent::Message(Message {
        message_id: 1,
        chat: Chat { id: chat },
        text: Some(text.to_string()),
        document: None,
        photo: None,
    })
}

#[test]
fn first_event_spawns_then_delivers_in_order() {
    let mut d = Dispatcher::new(vec![]);
    assert_eq!(d.route(9, text_event(9, "a")), Route::Spawn { actor: 0, event: text_event(9, "a") });
    assert_eq!(d.route(9, text_event(9, "b")), Route::Deliver { actor: 0, event: text_event(9, "b") });
    assert_eq!(d.route(9, text_event(9, "c")), Route::Deliver { actor: 0, event: text_event(9, "c") });
    assert_eq!(d.route(4, text_event(4, "x")), Route::Spawn { actor: 1, event: text_event(4, "x") });
}

#[test]
fn gone_actor_is_replaced_once() {
    let mut d = Dispatcher::new(vec![]);
    d.route(9, text_event(9, "a"));
    let replaced = d.actor_gone(9, text_event(9, "b"));
    assert_eq!(replaced, Route::Spawn { actor: 1, event: text_event(9, "b") });
    assert_eq!(d.route(9, text_event(9, "c")), Route::Deliver { actor: 1, event: text_event(9, "c") });
}

#[test]
fn allow_list_drops_other_conversations() {
    let mut d = Dispatcher::new(vec![5, 6]);
    assert_eq!(d.route(7, text_event(7, "a")), Route::Ignore);
    assert_eq!(d.route(6, text_event(6, "a")), Route::Spawn { actor: 0, event: text_event(6, "a") });
    assert!(d.allows(5));
    assert!(!d.allows(7));
}

#[test]
fn backoff_doubles_up_to_a_cap() {
    let mut p = PollState::new();
    assert_eq!(p.failed(), 2);
    assert_eq!(p.failed(), 4);
    assert_eq!(p.failed(), 8);
    assert_eq!(p.failed(), 16);
    assert_eq!(p.failed(), 32);
    assert_eq!(p.failed(), 32);
    p.succeeded();
    assert_eq!(p.failures, 0);
    assert_eq!(p.failed(), 2);
}

#[test]
fn next_update_id_moves_forward() {
    let mut p = PollState::new();
    p.seen(10);
    assert_eq!(p.next_update_id, 11);
    p.seen(3);
    assert_eq!(p.next_update_id, 11);
    p.seen(u64::MAX);
    assert_eq!(p.next_update_id, u64::MAX);
}

#[test]
fn update_to_event() {
    let update = UpdateResponse { update_id: 1, message: None, callback_query: None };
    assert_eq!(update.into_event(), None);
    let callback = CallbackQuery {
        id: "q".to_string(),
        data: "d".to_string(),
        message: Message { message_id: 2, chat: Chat { id: 77 }, text: None, document: None, photo: None },
    };
    let update = UpdateResponse { update_id: 2, message: None, callback_query: Some(callback) };
    match update.into_event() {
        Some((chat, HandleEvent::Callback(q))) => {
            assert_eq!(chat, 77);
            assert_eq!(q.data, "d");
        }
        other => panic!("unexpected {:?}", other),
    }
    let update = UpdateResponse { update_id: 3, message: None, callback_query: None };
    assert!(update.into_event().is_none());
}
