use vstd::prelude::*;

use crate::conversation::{AiPrompt, Conversation, ConversationView};
use crate::event::{
    message_views, messages_of, title_of, Author, ConversationEvent, ConversationMessagePayload,
    EventView, RecordView,
};
use crate::ids::{trim_of, trim_text, uuid_parse_of, uuid_text, uuid_text_of};
use crate::registry::{holds, with_event, ConversationManager, StoreError};

verus! {

/// The notice that a conversation was created: its identity and its title.
#[derive(Clone, Debug)]
pub struct ConversationAddedEvent {
    pub conversation_id: u128,
    pub title: String,
}

impl ConversationAddedEvent {
    pub fn of(conv: &Conversation) -> (r: ConversationAddedEvent)
        ensures
            r.conversation_id == conv.id,
            r.title@ == title_of(conv@.history),
    {
        ConversationAddedEvent { conversation_id: conv.id, title: conv.get_title() }
    }
}

/// A history after its title is set to `t`: unchanged if that is already its title,
/// else with one title change recorded at `at`.
pub open spec fn after_set_title(h: Seq<RecordView>, t: Seq<char>, at: u64) -> Seq<RecordView> {
    if title_of(h) == t {
        h
    } else {
        h.push(RecordView { event: EventView::TitleChanged { new_title: t }, timestamp: at })
    }
}

/// Setting the same title twice in a row records one event, not two: the second
/// setting finds the title already in place and leaves the history as it was.
pub proof fn lemma_set_title_twice(h: Seq<RecordView>, t: Seq<char>, a1: u64, a2: u64)
    ensures
        title_of(after_set_title(h, t, a1)) == t,
        after_set_title(after_set_title(h, t, a1), t, a2) == after_set_title(h, t, a1),
        after_set_title(h, t, a1).len() <= h.len() + 1,
{
    let r = RecordView { event: EventView::TitleChanged { new_title: t }, timestamp: a1 };
    assert(h.push(r).drop_last() =~= h);
}

/// The identity text and the title of each conversation, in registry order.
pub fn list_conversation_titles(mgr: &ConversationManager) -> (r: Vec<(String, String)>)
    ensures
        r@.len() == mgr@.len(),
        forall|i: int|
            0 <= i < r@.len() ==> (#[trigger] r@[i]).0@ == uuid_text_of(mgr@[i].id) && r@[i].1@
                == title_of(mgr@[i].history) && uuid_parse_of(r@[i].0@) == Some(mgr@[i].id),
{
    let mut out: Vec<(String, String)> = Vec::new();
    let mut i: usize = 0;
    while i < mgr.conversations.len()
        invariant
            i <= mgr.conversations@.len(),
            mgr@.len() == mgr.conversations@.len(),
            out@.len() == i,
            forall|k: int|
                0 <= k < i ==> (#[trigger] out@[k]).0@ == uuid_text_of(mgr@[k].id) && out@[k].1@
                    == title_of(mgr@[k].history) && uuid_parse_of(out@[k].0@) == Some(mgr@[k].id),
        decreases mgr.conversations@.len() - i,
    {
        let c = &mgr.conversations[i];
        assert(mgr@[i as int] == c@);
        out.push((uuid_text(c.id), c.get_title()));
        i = i + 1;
    }
    out
}

/// A copy of the conversation that the identifier text names.
pub fn get_conversation(mgr: &ConversationManager, conversation_id: &str) -> (r: Result<
    Conversation,
    StoreError,
>)
    requires
        mgr.wf(),
    ensures
        match mgr.lookup(conversation_id@) {
            Ok(i) => r is Ok && r->Ok_0@ == mgr@[i],
            Err(e) => r is Err && r->Err_0 == e,
        },
{
    let i = mgr.locate(conversation_id)?;
    Ok(mgr.conversations[i].duplicate())
}

/// The title of the conversation that the identifier text names.
pub fn get_conversation_title(mgr: &ConversationManager, conversation_id: &str) -> (r: Result<
    String,
    StoreError,
>)
    requires
        mgr.wf(),
    ensures
        match mgr.lookup(conversation_id@) {
            Ok(i) => r is Ok && r->Ok_0@ == title_of(mgr@[i].history),
            Err(e) => r is Err && r->Err_0 == e,
        },
{
    let i = mgr.locate(conversation_id)?;
    Ok(mgr.conversations[i].get_title())
}

/// The messages of the conversation that the identifier text names, in order.
pub fn get_conversation_messages(mgr: &ConversationManager, conversation_id: &str) -> (r: Result<
    Vec<ConversationMessagePayload>,
    StoreError,
>)
    requires
        mgr.wf(),
    ensures
        match mgr.lookup(conversation_id@) {
            Ok(i) => r is Ok && message_views(r->Ok_0@) == messages_of(mgr@[i].history),
            Err(e) => r is Err && r->Err_0 == e,
        },
{
    let i = mgr.locate(conversation_id)?;
    Ok(mgr.conversations[i].get_messages())
}

/// Creates a conversation with no events under an identity that no conversation
/// has, stores it at the end of the registry and returns a copy of it. The
/// identity is `id` where that is free, else the smallest free one.
pub fn new_conversation(mgr: &mut ConversationManager, id: u128) -> (r: Conversation)
    requires
        old(mgr).wf(),
    ensures
        final(mgr).wf(),
        r@.history.len() == 0,
        !holds(old(mgr)@, r.id),
        !holds(old(mgr)@, id) ==> r.id == id,
        final(mgr)@ == old(mgr)@.push(r@),
{
    let fresh = match mgr.find(id) {
        None => id,
        Some(_) => mgr.free_id(),
    };
    let conv = Conversation::with_id(fresh);
    let copy = conv.duplicate();
    mgr.insert_conversation(conv);
    copy
}

/// Sets the title of the named conversation to `new_title` with surrounding
/// whitespace removed. Returns whether an event was recorded: none is where the
/// title is already that text.
pub fn set_conversation_title(
    mgr: &mut ConversationManager,
    conversation_id: &str,
    new_title: &str,
    timestamp: u64,
) -> (r: Result<bool, StoreError>)
    requires
        old(mgr).wf(),
    ensures
        final(mgr).wf(),
        match old(mgr).lookup(conversation_id@) {
            Ok(i) => r == Ok::<bool, StoreError>(
                title_of(old(mgr)@[i].history) != trim_of(new_title@),
            ) && final(mgr)@ == old(mgr)@.update(
                i,
                ConversationView {
                    id: old(mgr)@[i].id,
                    history: after_set_title(old(mgr)@[i].history, trim_of(new_title@), timestamp),
                },
            ),
            Err(e) => r == Err::<bool, StoreError>(e) && final(mgr)@ == old(mgr)@,
        },
{
    let i = mgr.locate(conversation_id)?;
    let trimmed = trim_text(new_title);
    let current = mgr.conversations[i].get_title();
    assert(mgr@[i as int] == mgr.conversations@[i as int]@);
    if current == trimmed {
        assert(old(mgr)@.update(i as int, old(mgr)@[i as int]) =~= old(mgr)@);
        return Ok(false);
    }
    mgr.append_event(i, ConversationEvent::TitleChanged { new_title: trimmed }, timestamp);
    Ok(true)
}

/// Records a message by the user in the named conversation.
pub fn new_conversation_user_message(
    mgr: &mut ConversationManager,
    conversation_id: &str,
    content: &str,
    timestamp: u64,
) -> (r: Result<(), StoreError>)
    requires
        old(mgr).wf(),
    ensures
        final(mgr).wf(),
        match old(mgr).lookup(conversation_id@) {
            Ok(i) => r is Ok && final(mgr)@ == old(mgr)@.update(
                i,
                with_event(
                    old(mgr)@[i],
                    EventView::MessageAdded { author: Author::User, content: content@ },
                    timestamp,
                ),
            ),
            Err(e) => r == Err::<(), StoreError>(e) && final(mgr)@ == old(mgr)@,
        },
{
    let i = mgr.locate(conversation_id)?;
    let text = content.to_owned();
    mgr.append_event(
        i,
        ConversationEvent::MessageAdded { author: Author::User, content: text },
        timestamp,
    );
    Ok(())
}

/// What a completion of the named conversation is asked for: the messages before
/// the newest as context, and the newest message's text as prompt.
pub fn assistant_prompt(mgr: &ConversationManager, conversation_id: &str) -> (r: Result<
    AiPrompt,
    StoreError,
>)
    requires
        mgr.wf(),
    ensures
        match mgr.lookup(conversation_id@) {
            Ok(i) => if messages_of(mgr@[i].history).len() == 0 {
                r is Err && r->Err_0 == StoreError::EmptyConversation
            } else {
                r is Ok && message_views(r->Ok_0.context@) == messages_of(
                    mgr@[i].history,
                ).drop_last() && r->Ok_0.prompt@ == messages_of(mgr@[i].history).last().1
            },
            Err(e) => r is Err && r->Err_0 == e,
        },
{
    let i = mgr.locate(conversation_id)?;
    match mgr.conversations[i].to_ai_prompt_context() {
        None => Err(StoreError::EmptyConversation),
        Some(p) => Ok(p),
    }
}

/// Records the completion backend's reply as a message by the assistant in the
/// named conversation. `reply` is `None` where the backend failed; then, as on
/// every error, the registry is left as it was.
pub fn new_conversation_assistant_message(
    mgr: &mut ConversationManager,
    conversation_id: &str,
    reply: Option<String>,
    timestamp: u64,
) -> (r: Result<(), StoreError>)
    requires
        old(mgr).wf(),
    ensures
        final(mgr).wf(),
        match old(mgr).lookup(conversation_id@) {
            Ok(i) => if messages_of(old(mgr)@[i].history).len() == 0 {
                r == Err::<(), StoreError>(StoreError::EmptyConversation) && final(mgr)@ == old(
                    mgr,
                )@
            } else {
                match reply {
                    None => r == Err::<(), StoreError>(StoreError::AIResponseFail) && final(mgr)@
                        == old(mgr)@,
                    Some(text) => r is Ok && final(mgr)@ == old(mgr)@.update(
                        i,
                        with_event(
                            old(mgr)@[i],
                            EventView::MessageAdded { author: Author::Assistant, content: text@ },
                            timestamp,
                        ),
                    ),
                }
            },
            Err(e) => r == Err::<(), StoreError>(e) && final(mgr)@ == old(mgr)@,
        },
{
    let i = mgr.locate(conversation_id)?;
    let messages = mgr.conversations[i].get_messages();
    assert(mgr@[i as int] == mgr.conversations@[i as int]@);
    if messages.len() == 0 {
        return Err(StoreError::EmptyConversation);
    }
    match reply {
        None => Err(StoreError::AIResponseFail),
        Some(text) => {
            mgr.append_event(
                i,
                ConversationEvent::MessageAdded { author: Author::Assistant, content: text },
                timestamp,
            );
            Ok(())
        },
    }
}

} // verus!
