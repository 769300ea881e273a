use ehyaioess::commands::{
    assistant_prompt, get_conversation, get_conversation_messages, get_conversation_title,
    list_conversation_titles, new_conversation, new_conversation_assistant_message,
    new_conversation_user_message, set_conversation_title, ConversationAddedEvent,
};
use ehyaioess::conversation::Conversation;
use ehyaioess::event::{Author, ConversationEvent};
use ehyaioess::registry::{ConversationManager, StoreError};

fn id_text(id: u128) -> String {
    uuid::Uuid::from_u128(id).to_string()
}

fn fresh() -> u128 {
    uuid::Uuid::new_v4().as_u128()
}

fn title_changes(c: &Conversation) -> usize {
    c.history
        .iter()
        .filter(|r| matches!(r.event, ConversationEvent::TitleChanged { .. }))
        .count()
}

#[test]
fn create_message_and_title_scenario() {
    let mut mgr = ConversationManager::new();
    let c = new_conversation(&mut mgr, fresh());
    assert!(c.history.is_empty());
    let id = id_text(c.id);
    assert_eq!(get_conversation_title(&mgr, &id).unwrap(), "New Conversation");

    new_conversation_user_message(&mut mgr, &id, "hello", 1).unwrap();
    let msgs = get_conversation_messages(&mgr, &id).unwrap();
    assert_eq!(msgs.len(), 1);
    assert_eq!(msgs[0].author, Author::User);
    assert_eq!(msgs[0].content, "hello");

    assert_eq!(set_conversation_title(&mut mgr, &id, "Greeting", 2), Ok(true));
    assert_eq!(get_conversation_title(&mgr, &id).unwrap(), "Greeting");
    assert_eq!(set_conversation_title(&mut mgr, &id, "Greeting", 3), Ok(false));
    let conv = get_conversation(&mgr, &id).unwrap();
    assert_eq!(title_changes(&conv), 1);
    assert_eq!(conv.history.len(), 2);
}

#[test]
fn non_uuid_id_is_bad_id() {
    let mut mgr = ConversationManager::new();
    new_conversation(&mut mgr, fresh());
    assert_eq!(get_conversation(&mgr, "not-a-uuid").unwrap_err(), StoreError::BadId);
    assert_eq!(get_conversation_title(&mgr, "xyz").unwrap_err(), StoreError::BadId);
    assert_eq!(
        new_conversation_user_message(&mut mgr, "", "hi", 0).unwrap_err(),
        StoreError::BadId
    );
}

#[test]
fn unknown_id_is_not_found() {
    let mgr = ConversationManager::new();
    let id = id_text(7);
    assert_eq!(get_conversation(&mgr, &id).unwrap_err(), StoreError::NotFound);
    assert_eq!(get_conversation_messages(&mgr, &id).unwrap_err(), StoreError::NotFound);
}

#[test]
fn title_is_last_title_change() {
    let mut c = Conversation::with_id(1);
    assert_eq!(c.get_title(), "New Conversation");
    c.add_event(ConversationEvent::TitleChanged { new_title: "A".to_string() }, 1);
    c.add_event(ConversationEvent::MessageAdded { author: Author::User, content: "x".to_string() }, 2);
    assert_eq!(c.get_title(), "A");
    c.add_event(ConversationEvent::TitleChanged { new_title: "B".to_string() }, 3);
    c.add_event(ConversationEvent::MessageAdded { author: Author::Assistant, content: "y".to_string() }, 4);
    assert_eq!(c.get_title(), "B");
}

#[test]
fn messages_skip_title_changes_in_order() {
    let mut c = Conversation::with_id(2);
    c.add_event(ConversationEvent::MessageAdded { author: Author::User, content: "one".to_string() }, 1);
    c.add_event(ConversationEvent::TitleChanged { new_title: "T".to_string() }, 2);
    c.add_event(ConversationEvent::MessageAdded { author: Author::Assistant, content: "two".to_string() }, 3);
    c.add_event(ConversationEvent::MessageAdded { author: Author::User, content: "one".to_string() }, 4);
    let m = c.get_messages();
    let got: Vec<(Author, String)> = m.into_iter().map(|p| (p.author, p.content)).collect();
    assert_eq!(
        got,
        vec![
            (Author::User, "one".to_string()),
            (Author::Assistant, "two".to_string()),
            (Author::User, "one".to_string()),
        ]
    );
}

#[test]
fn title_is_trimmed_and_unchanged_title_records_nothing() {
    let mut mgr = ConversationManager::new();
    let c = new_conversation(&mut mgr, fresh());
    let id = id_text(c.id);
    assert_eq!(set_conversation_title(&mut mgr, &id, "  Plans \n", 5), Ok(true));
    assert_eq!(get_conversation_title(&mgr, &id).unwrap(), "Plans");
    assert_eq!(set_conversation_title(&mut mgr, &id, "Plans", 6), Ok(false));
    assert_eq!(set_conversation_title(&mut mgr, &id, "New Conversation", 7), Ok(true));
    assert_eq!(get_conversation(&mgr, &id).unwrap().history.len(), 2);
}

#[test]
fn default_title_on_fresh_conversation_records_nothing() {
    let mut mgr = ConversationManager::new();
    let c = new_conversation(&mut mgr, fresh());
    let id = id_text(c.id);
    assert_eq!(set_conversation_title(&mut mgr, &id, " New Conversation ", 1), Ok(false));
    assert!(get_conversation(&mgr, &id).unwrap().history.is_empty());
}

#[test]
fn assistant_reply_on_empty_conversation_fails() {
    let mut mgr = ConversationManager::new();
    let c = new_conversation(&mut mgr, fresh());
    let id = id_text(c.id);
    assert_eq!(assistant_prompt(&mgr, &id).unwrap_err(), StoreError::EmptyConversation);
    assert_eq!(
        new_conversation_assistant_message(&mut mgr, &id, Some("hi".to_string()), 1),
        Err(StoreError::EmptyConversation)
    );
    assert!(get_conversation(&mgr, &id).unwrap().history.is_empty());
}

#[test]
fn assistant_reply_failure_leaves_history() {
    let mut mgr = ConversationManager::new();
    let c = new_conversation(&mut mgr, fresh());
    let id = id_text(c.id);
    new_conversation_user_message(&mut mgr, &id, "q", 1).unwrap();
    assert_eq!(
        new_conversation_assistant_message(&mut mgr, &id, None, 2),
        Err(StoreError::AIResponseFail)
    );
    assert_eq!(get_conversation(&mgr, &id).unwrap().history.len(), 1);
}

#[test]
fn assistant_prompt_and_reply() {
    let mut mgr = ConversationManager::new();
    let c = new_conversation(&mut mgr, fresh());
    let id = id_text(c.id);
    new_conversation_user_message(&mut mgr, &id, "first", 1).unwrap();
    new_conversation_assistant_message(&mut mgr, &id, Some("answer".to_string()), 2).unwrap();
    set_conversation_title(&mut mgr, &id, "Chat", 3).unwrap();
    new_conversation_user_message(&mut mgr, &id, "second", 4).unwrap();
    let p = assistant_prompt(&mgr, &id).unwrap();
    assert_eq!(p.prompt, "second");
    assert_eq!(p.context.len(), 2);
    assert_eq!(p.context[0].content, "first");
    assert_eq!(p.context[1].author, Author::Assistant);
    assert_eq!(p.context[1].content, "answer");
    new_conversation_assistant_message(&mut mgr, &id, Some("again".to_string()), 5).unwrap();
    let msgs = get_conversation_messages(&mgr, &id).unwrap();
    assert_eq!(msgs.len(), 4);
    assert_eq!(msgs[3].author, Author::Assistant);
    assert_eq!(msgs[3].content, "again");
    assert_eq!(get_conversation(&mgr, &id).unwrap().history[4].timestamp, 5);
}

#[test]
fn list_titles_gives_hyphenated_ids() {
    let mut mgr = ConversationManager::new();
    let a = new_conversation(&mut mgr, fresh());
    let b = new_conversation(&mut mgr, fresh());
    let bid = id_text(b.id);
    set_conversation_title(&mut mgr, &bid, "Second", 1).unwrap();
    let titles = list_conversation_titles(&mgr);
    assert_eq!(titles.len(), 2);
    assert_eq!(titles[0], (id_text(a.id), "New Conversation".to_string()));
    assert_eq!(titles[1], (bid.clone(), "Second".to_string()));
    assert_eq!(titles[1].0.len(), 36);
    assert!(titles[1].0.contains('-'));
}

#[test]
fn uuid_text_in_upper_case_and_simple_form_parses() {
    let mut mgr = ConversationManager::new();
    let c = new_conversation(&mut mgr, fresh());
    let simple = uuid::Uuid::from_u128(c.id).simple().to_string().to_uppercase();
    assert_eq!(get_conversation_title(&mgr, &simple).unwrap(), "New Conversation");
}

#[test]
fn snapshot_round_trip_keeps_registry() {
    let mut mgr = ConversationManager::new();
    let a = new_conversation(&mut mgr, fresh());
    let b = new_conversation(&mut mgr, fresh());
    new_conversation_user_message(&mut mgr, &id_text(a.id), "m", 9).unwrap();
    set_conversation_title(&mut mgr, &id_text(b.id), "T", 10).unwrap();
    let loaded = ConversationManager::from_conversations(mgr.snapshot());
    assert_eq!(loaded.conversations.len(), 2);
    for (x, y) in loaded.conversations.iter().zip(mgr.conversations.iter()) {
        assert_eq!(x.id, y.id);
        assert_eq!(x.get_title(), y.get_title());
        assert_eq!(x.history.len(), y.history.len());
        for (p, q) in x.history.iter().zip(y.history.iter()) {
            assert_eq!(p.timestamp, q.timestamp);
        }
    }
}

#[test]
fn loading_duplicate_ids_keeps_later() {
    let mut first = Conversation::with_id(3);
    first.add_event(ConversationEvent::TitleChanged { new_title: "old".to_string() }, 1);
    let mut second = Conversation::with_id(3);
    second.add_event(ConversationEvent::TitleChanged { new_title: "new".to_string() }, 2);
    let other = Conversation::with_id(4);
    let mgr = ConversationManager::from_conversations(vec![first, other, second]);
    assert_eq!(mgr.conversations.len(), 2);
    assert_eq!(mgr.conversations[0].get_title(), "new");
    assert_eq!(mgr.conversations[1].id, 4);
}

#[test]
fn added_event_carries_id_and_title() {
    let c = Conversation::with_id(11);
    let e = ConversationAddedEvent::of(&c);
    assert_eq!(e.conversation_id, 11);
    assert_eq!(e.title, "New Conversation");
}

#[test]
fn duplicate_user_messages_are_kept() {
    let mut mgr = ConversationManager::new();
    let c = new_conversation(&mut mgr, fresh());
    let id = id_text(c.id);
    new_conversation_user_message(&mut mgr, &id, "same", 1).unwrap();
    new_conversation_user_message(&mut mgr, &id, "same", 2).unwrap();
    assert_eq!(get_conversation_messages(&mgr, &id).unwrap().len(), 2);
}

#[test]
fn prompt_context_of_conversation() {
    let mut c = Conversation::with_id(5);
    assert!(c.to_ai_prompt_context().is_none());
    c.add_event(ConversationEvent::TitleChanged { new_title: "T".to_string() }, 1);
    assert!(c.to_ai_prompt_context().is_none());
    c.add_event(ConversationEvent::MessageAdded { author: Author::User, content: "a".to_string() }, 2);
    let p = c.to_ai_prompt_context().unwrap();
    assert!(p.context.is_empty());
    assert_eq!(p.prompt, "a");
}

#[test]
fn new_conversation_never_reuses_an_identity() {
    let mut mgr = ConversationManager::new();
    let a = new_conversation(&mut mgr, 5);
    assert_eq!(a.id, 5);
    new_conversation_user_message(&mut mgr, &id_text(5), "keep", 1).unwrap();
    let b = new_conversation(&mut mgr, 5);
    assert_eq!(b.id, 0);
    let c = new_conversation(&mut mgr, 0);
    assert_eq!(c.id, 1);
    let d = new_conversation(&mut mgr, 1);
    assert_eq!(d.id, 2);
    assert_eq!(mgr.conversations.len(), 4);
    assert_eq!(get_conversation(&mgr, &id_text(5)).unwrap().history.len(), 1);
    assert!(get_conversation(&mgr, &id_text(0)).unwrap().history.is_empty());
}

#[test]
fn listed_ids_lead_back_to_their_conversation() {
    let mut mgr = ConversationManager::new();
    new_conversation(&mut mgr, fresh());
    new_conversation(&mut mgr, fresh());
    for (id, title) in list_conversation_titles(&mgr) {
        assert_eq!(get_conversation_title(&mgr, &id).unwrap(), title);
    }
}

#[test]
fn tabs_and_unicode_spaces_are_trimmed() {
    let mut mgr = ConversationManager::new();
    let c = new_conversation(&mut mgr, fresh());
    let id = id_text(c.id);
    set_conversation_title(&mut mgr, &id, "\u{3000}\tIdeas\u{a0}", 1).unwrap();
    assert_eq!(get_conversation_title(&mgr, &id).unwrap(), "Ideas");
}
