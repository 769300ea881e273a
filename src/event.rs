use vstd::prelude::*;

verus! {

/// Who wrote a message.
#[derive(Clone, Copy, Debug, PartialEq, Eq, Structural)]
pub enum Author {
    User,
    Assistant,
}

/// A change recorded in a conversation's history.
#[derive(Clone, Debug)]
pub enum ConversationEvent {
    MessageAdded { author: Author, content: String },
    TitleChanged { new_title: String },
}

/// Mathematical model of an event.
pub enum EventView {
    MessageAdded { author: Author, content: Seq<char> },
    TitleChanged { new_title: Seq<char> },
}

impl View for ConversationEvent {
    type V = EventView;

    open spec fn view(&self) -> EventView {
        match self {
            ConversationEvent::MessageAdded { author, content } => EventView::MessageAdded {
                author: *author,
                content: content@,
            },
            ConversationEvent::TitleChanged { new_title } => EventView::TitleChanged {
                new_title: new_title@,
            },
        }
    }
}

impl ConversationEvent {
    /// A copy of this event with the same view.
    pub fn duplicate(&self) -> (r: ConversationEvent)
        ensures
            r@ == self@,
    {
        match self {
            ConversationEvent::MessageAdded { author, content } => ConversationEvent::MessageAdded {
                author: *author,
                content: content.clone(),
            },
            ConversationEvent::TitleChanged { new_title } => ConversationEvent::TitleChanged {
                new_title: new_title.clone(),
            },
        }
    }
}

/// An event together with the time (in seconds) at which it was recorded.
#[derive(Clone, Debug)]
pub struct EventRecord {
    pub event: ConversationEvent,
    pub timestamp: u64,
}

pub struct RecordView {
    pub event: EventView,
    pub timestamp: u64,
}

impl View for EventRecord {
    type V = RecordView;

    open spec fn view(&self) -> RecordView {
        RecordView { event: self.event@, timestamp: self.timestamp }
    }
}

impl EventRecord {
    pub fn duplicate(&self) -> (r: EventRecord)
        ensures
            r@ == self@,
    {
        EventRecord { event: self.event.duplicate(), timestamp: self.timestamp }
    }
}

/// A message as shown to readers: its author and its text.
#[derive(Clone, Debug)]
pub struct ConversationMessagePayload {
    pub author: Author,
    pub content: String,
}

impl View for ConversationMessagePayload {
    type V = (Author, Seq<char>);

    open spec fn view(&self) -> (Author, Seq<char>) {
        (self.author, self.content@)
    }
}

/// The views of a list of messages.
pub open spec fn message_views(v: Seq<ConversationMessagePayload>) -> Seq<(Author, Seq<char>)> {
    v.map_values(|m: ConversationMessagePayload| m@)
}

/// The views of a list of records.
pub open spec fn record_views(v: Seq<EventRecord>) -> Seq<RecordView> {
    v.map_values(|r: EventRecord| r@)
}

/// The title of a conversation that has never been given one.
pub open spec fn default_title() -> Seq<char> {
    "New Conversation"@
}

pub open spec fn is_title_change(r: RecordView) -> bool {
    r.event is TitleChanged
}

pub open spec fn is_message(r: RecordView) -> bool {
    r.event is MessageAdded
}

/// The title projection: the text of the last title change, or the default title.
pub open spec fn title_of(h: Seq<RecordView>) -> Seq<char>
    decreases h.len(),
{
    if h.len() == 0 {
        default_title()
    } else {
        match h.last().event {
            EventView::TitleChanged { new_title } => new_title,
            EventView::MessageAdded { .. } => title_of(h.drop_last()),
        }
    }
}

/// The author and text of a message event.
pub open spec fn message_of(r: RecordView) -> (Author, Seq<char>) {
    match r.event {
        EventView::MessageAdded { author, content } => (author, content),
        EventView::TitleChanged { .. } => (Author::User, Seq::empty()),
    }
}

/// The message projection: the message events of the history, in order.
pub open spec fn messages_of(h: Seq<RecordView>) -> Seq<(Author, Seq<char>)>
    decreases h.len(),
{
    if h.len() == 0 {
        Seq::empty()
    } else if is_message(h.last()) {
        messages_of(h.drop_last()).push(message_of(h.last()))
    } else {
        messages_of(h.drop_last())
    }
}

/// The default title as a string.
pub fn default_title_string() -> (r: String)
    ensures
        r@ == default_title(),
{
    "New Conversation".to_owned()
}

/// The title of a history: the text of its last title change, or the default title.
pub fn derive_title(h: &Vec<EventRecord>) -> (r: String)
    ensures
        r@ == title_of(record_views(h@)),
{
    let ghost hv = record_views(h@);
    let mut i: usize = h.len();
    assert(hv.subrange(0, i as int) =~= hv);
    while i > 0
        invariant
            i <= h@.len(),
            hv == record_views(h@),
            title_of(hv) == title_of(hv.subrange(0, i as int)),
        decreases i,
    {
        let ghost prefix = hv.subrange(0, i as int);
        i = i - 1;
        assert(prefix.drop_last() =~= hv.subrange(0, i as int));
        assert(prefix.last() == h@[i as int]@);
        match &h[i].event {
            ConversationEvent::TitleChanged { new_title } => {
                return new_title.clone();
            },
            ConversationEvent::MessageAdded { .. } => {},
        }
    }
    assert(hv.subrange(0, 0) =~= Seq::<RecordView>::empty());
    default_title_string()
}

/// The messages of a history, in the order they were recorded.
pub fn derive_messages(h: &Vec<EventRecord>) -> (r: Vec<ConversationMessagePayload>)
    ensures
        message_views(r@) == messages_of(record_views(h@)),
{
    let ghost hv = record_views(h@);
    let mut out: Vec<ConversationMessagePayload> = Vec::new();
    let mut i: usize = 0;
    while i < h.len()
        invariant
            i <= h@.len(),
            hv == record_views(h@),
            message_views(out@) == messages_of(hv.subrange(0, i as int)),
        decreases h@.len() - i,
    {
        let ghost before = out@;
        assert(hv.subrange(0, i + 1).drop_last() =~= hv.subrange(0, i as int));
        match &h[i].event {
            ConversationEvent::MessageAdded { author, content } => {
                out.push(ConversationMessagePayload { author: *author, content: content.clone() });
                assert(message_views(out@) =~= message_views(before).push(
                    message_of(hv[i as int]),
                ));
            },
            ConversationEvent::TitleChanged { .. } => {},
        }
        i = i + 1;
    }
    assert(hv.subrange(0, h@.len() as int) =~= hv);
    out
}

/// Appending a record changes the title exactly when the record is a title change,
/// and then to that record's text.
pub proof fn lemma_title_after_append(h: Seq<RecordView>, r: RecordView)
    ensures
        title_of(h.push(r)) == (match r.event {
            EventView::TitleChanged { new_title } => new_title,
            EventView::MessageAdded { .. } => title_of(h),
        }),
{
    assert(h.push(r).drop_last() =~= h);
}

/// The title of any history is the text of its last title change; a history with
/// no title change has the default title.
pub proof fn lemma_title_is_last_change(h: Seq<RecordView>)
    ensures
        (forall|i: int| 0 <= i < h.len() ==> !is_title_change(#[trigger] h[i])) ==> title_of(h)
            == default_title(),
        forall|i: int|
            0 <= i < h.len() && is_title_change(#[trigger] h[i]) && (forall|j: int|
                i < j < h.len() ==> !is_title_change(#[trigger] h[j])) ==> title_of(h)
                == h[i].event->TitleChanged_new_title,
    decreases h.len(),
{
    if h.len() > 0 {
        let p = h.drop_last();
        lemma_title_is_last_change(p);
        assert forall|i: int| 0 <= i < p.len() implies #[trigger] p[i] == h[i] by {}
        if !is_title_change(h.last()) {
            assert forall|i: int|
                0 <= i < h.len() && is_title_change(#[trigger] h[i]) && (forall|j: int|
                    i < j < h.len() ==> !is_title_change(#[trigger] h[j])) implies title_of(h)
                == h[i].event->TitleChanged_new_title by {
                assert(i != h.len() - 1);
                assert(p[i] == h[i]);
                assert forall|j: int| i < j < p.len() implies !is_title_change(#[trigger] p[j]) by {
                    assert(p[j] == h[j]);
                }
            }
        } else {
            assert forall|i: int|
                0 <= i < h.len() && is_title_change(#[trigger] h[i]) && (forall|j: int|
                    i < j < h.len() ==> !is_title_change(#[trigger] h[j])) implies title_of(h)
                == h[i].event->TitleChanged_new_title by {
                if i < h.len() - 1 {
                    assert(!is_title_change(h[h.len() - 1]));
                }
            }
            assert(!(forall|i: int| 0 <= i < h.len() ==> !is_title_change(#[trigger] h[i]))) by {
                assert(is_title_change(h[h.len() - 1]));
            }
        }
    }
}

/// The message projection keeps exactly the message events of a history, in their
/// original order, and leaves out every title change.
pub proof fn lemma_messages_are_message_events(h: Seq<RecordView>)
    ensures
        messages_of(h) == h.filter(|r: RecordView| is_message(r)).map_values(
            |r: RecordView| message_of(r),
        ),
    decreases h.len(),
{
    reveal(Seq::filter);
    if h.len() > 0 {
        lemma_messages_are_message_events(h.drop_last());
        let f = h.drop_last().filter(|r: RecordView| is_message(r));
        if is_message(h.last()) {
            assert(f.push(h.last()).map_values(|r: RecordView| message_of(r)) =~= f.map_values(
                |r: RecordView| message_of(r),
            ).push(message_of(h.last())));
        }
    }
}

/// Appending a title change leaves the message projection as it was.
pub proof fn lemma_messages_ignore_title_change(h: Seq<RecordView>, r: RecordView)
    requires
        is_title_change(r),
    ensures
        messages_of(h.push(r)) == messages_of(h),
{
    assert(h.push(r).drop_last() =~= h);
}

/// The positions of the message events of a history, in increasing order.
pub open spec fn message_positions(h: Seq<RecordView>) -> Seq<int>
    decreases h.len(),
{
    if h.len() == 0 {
        Seq::empty()
    } else if is_message(h.last()) {
        message_positions(h.drop_last()).push(h.len() - 1)
    } else {
        message_positions(h.drop_last())
    }
}

/// The message projection takes each message event of the history exactly once,
/// in the order recorded: its `k`-th entry comes from the `k`-th message event,
/// the positions of those events increase strictly, and every message event has one.
pub proof fn lemma_messages_by_position(h: Seq<RecordView>)
    ensures
        message_positions(h).len() == messages_of(h).len(),
        forall|k: int|
            0 <= k < message_positions(h).len() ==> 0 <= #[trigger] message_positions(h)[k] < h.len()
                && is_message(h[message_positions(h)[k]]) && messages_of(h)[k] == message_of(
                h[message_positions(h)[k]],
            ),
        forall|a: int, b: int|
            0 <= a < b < message_positions(h).len() ==> #[trigger] message_positions(h)[a]
                < #[trigger] message_positions(h)[b],
        forall|i: int|
            0 <= i < h.len() && is_message(#[trigger] h[i]) ==> exists|k: int|
                0 <= k < message_positions(h).len() && message_positions(h)[k] == i,
    decreases h.len(),
{
    if h.len() > 0 {
        let p = h.drop_last();
        lemma_messages_by_position(p);
        let q = message_positions(p);
        assert forall|j: int| 0 <= j < p.len() implies #[trigger] p[j] == h[j] by {}
        if is_message(h.last()) {
            let r = q.push(h.len() - 1);
            assert(message_positions(h) == r);
            assert forall|k: int| 0 <= k < r.len() implies 0 <= #[trigger] r[k] < h.len()
                && is_message(h[r[k]]) && messages_of(h)[k] == message_of(h[r[k]]) by {
                if k < q.len() {
                    assert(p[q[k]] == h[q[k]]);
                }
            }
            assert forall|i: int| 0 <= i < h.len() && is_message(#[trigger] h[i]) implies exists|
                k: int,
            | 0 <= k < r.len() && r[k] == i by {
                if i == h.len() - 1 {
                    assert(r[q.len() as int] == i);
                } else {
                    assert(p[i] == h[i]);
                    let k = choose|k: int| 0 <= k < q.len() && q[k] == i;
                    assert(r[k] == i);
                }
            }
        } else {
            assert forall|k: int| 0 <= k < q.len() implies 0 <= #[trigger] q[k] < h.len()
                && is_message(h[q[k]]) && messages_of(h)[k] == message_of(h[q[k]]) by {
                assert(p[q[k]] == h[q[k]]);
            }
            assert forall|i: int| 0 <= i < h.len() && is_message(#[trigger] h[i]) implies exists|
                k: int,
            | 0 <= k < q.len() && q[k] == i by {
                assert(i != h.len() - 1);
                assert(p[i] == h[i]);
            }
        }
    }
}

} // verus!
