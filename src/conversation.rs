use vstd::prelude::*;

use crate::event::{
    derive_messages, derive_title, message_views, messages_of, record_views, title_of,
    ConversationEvent, ConversationMessagePayload, EventRecord, RecordView,
};

verus! {

/// What the completion backend is handed: the earlier messages, and the newest as prompt.
#[derive(Clone, Debug)]
pub struct AiPrompt {
    pub context: Vec<ConversationMessagePayload>,
    pub prompt: String,
}

/// One conversation: an identity and its append-only history of events.
#[derive(Clone, Debug)]
pub struct Conversation {
    pub id: u128,
    pub history: Vec<EventRecord>,
}

pub struct ConversationView {
    pub id: u128,
    pub history: Seq<RecordView>,
}

impl View for Conversation {
    type V = ConversationView;

    open spec fn view(&self) -> ConversationView {
        ConversationView { id: self.id, history: record_views(self.history@) }
    }
}

impl Conversation {
    /// A conversation with the given identity and no events.
    pub fn with_id(id: u128) -> (r: Conversation)
        ensures
            r.id == id,
            r.history@.len() == 0,
    {
        Conversation { id, history: Vec::new() }
    }

    /// Records `event` at time `timestamp` at the end of the history and returns the record.
    pub fn add_event(&mut self, event: ConversationEvent, timestamp: u64) -> (r: EventRecord)
        ensures
            r@ == (RecordView { event: event@, timestamp }),
            final(self).id == old(self).id,
            final(self)@.history == old(self)@.history.push(r@),
    {
        let record = EventRecord { event, timestamp };
        let copy = record.duplicate();
        let ghost before = self.history@;
        self.history.push(record);
        assert(record_views(self.history@) =~= record_views(before).push(copy@));
        copy
    }

    /// The title projection of the history.
    pub fn get_title(&self) -> (r: String)
        ensures
            r@ == title_of(self@.history),
    {
        derive_title(&self.history)
    }

    /// The message projection of the history.
    pub fn get_messages(&self) -> (r: Vec<ConversationMessagePayload>)
        ensures
            message_views(r@) == messages_of(self@.history),
    {
        derive_messages(&self.history)
    }

    /// The message projection split for the completion backend: all messages but
    /// the newest as context, the newest one's text as prompt; `None` where there
    /// is no message.
    pub fn to_ai_prompt_context(&self) -> (r: Option<AiPrompt>)
        ensures
            r is None <==> messages_of(self@.history).len() == 0,
            r is Some ==> message_views(r->Some_0.context@) == messages_of(
                self@.history,
            ).drop_last() && r->Some_0.prompt@ == messages_of(self@.history).last().1,
    {
        let mut context = self.get_messages();
        let ghost all = context@;
        match context.pop() {
            None => None,
            Some(last) => {
                assert(message_views(context@) =~= message_views(all).drop_last());
                Some(AiPrompt { context, prompt: last.content })
            },
        }
    }

    /// A copy with the same identity and the same history.
    pub fn duplicate(&self) -> (r: Conversation)
        ensures
            r@ == self@,
    {
        let mut h: Vec<EventRecord> = Vec::new();
        let mut i: usize = 0;
        while i < self.history.len()
            invariant
                i <= self.history@.len(),
                record_views(h@) == record_views(self.history@).subrange(0, i as int),
            decreases self.history@.len() - i,
        {
            let ghost before = h@;
            h.push(self.history[i].duplicate());
            assert(record_views(h@) =~= record_views(before).push(self.history@[i as int]@));
            assert(record_views(self.history@).subrange(0, i + 1) =~= record_views(
                self.history@,
            ).subrange(0, i as int).push(self.history@[i as int]@));
            i = i + 1;
        }
        assert(record_views(self.history@).subrange(0, i as int) =~= record_views(
            self.history@,
        ));
        Conversation { id: self.id, history: h }
    }
}

} // verus!
