use vstd::prelude::*;
use vstd::set_lib::{lemma_len_subset, lemma_int_range, set_int_range};
use vstd::seq_lib::seq_to_set_is_finite;

use crate::conversation::{Conversation, ConversationView};
use crate::event::{ConversationEvent, RecordView};
use crate::ids::{parse_uuid, uuid_parse_of};

verus! {

/// Why an operation on the store did not succeed.
#[derive(Clone, Copy, Debug, PartialEq, Eq, Structural)]
pub enum StoreError {
    /// The identifier text is not a UUID.
    BadId,
    /// The identifier is well formed but no conversation has it.
    NotFound,
    /// There is no message to use as a prompt.
    EmptyConversation,
    /// The completion backend failed.
    AIResponseFail,
    /// The snapshot could not be written.
    DiskWriteFail,
    /// The snapshot could not be read.
    DiskReadFail,
    /// The notification channel failed.
    NotifyFail,
}

/// No two conversations share an identity.
pub open spec fn ids_unique(s: Seq<ConversationView>) -> bool {
    forall|i: int, j: int| 0 <= i < s.len() && 0 <= j < s.len() && i != j ==> s[i].id != s[j].id
}

pub open spec fn holds(s: Seq<ConversationView>, id: u128) -> bool {
    exists|i: int| 0 <= i < s.len() && s[i].id == id
}

/// Where the conversation with identity `id` stands.
pub open spec fn position(s: Seq<ConversationView>, id: u128) -> int {
    choose|i: int| 0 <= i < s.len() && s[i].id == id
}

/// A registry after `c` is stored: it replaces the conversation with the same
/// identity, or is added at the end.
pub open spec fn insert_view(s: Seq<ConversationView>, c: ConversationView) -> Seq<
    ConversationView,
> {
    if holds(s, c.id) {
        s.update(position(s, c.id), c)
    } else {
        s.push(c)
    }
}

/// A registry after each of `v` is stored in turn.
pub open spec fn insert_all(s: Seq<ConversationView>, v: Seq<ConversationView>) -> Seq<
    ConversationView,
>
    decreases v.len(),
{
    if v.len() == 0 {
        s
    } else {
        insert_view(insert_all(s, v.drop_last()), v.last())
    }
}

/// The conversation appended with one record.
pub open spec fn with_event(c: ConversationView, e: crate::event::EventView, at: u64) -> ConversationView {
    ConversationView { id: c.id, history: c.history.push(RecordView { event: e, timestamp: at }) }
}

/// The registry of conversations, keyed by identity.
#[derive(Clone, Debug)]
pub struct ConversationManager {
    pub conversations: Vec<Conversation>,
}

impl View for ConversationManager {
    type V = Seq<ConversationView>;

    open spec fn view(&self) -> Seq<ConversationView> {
        self.conversations@.map_values(|c: Conversation| c@)
    }
}

impl ConversationManager {
    pub open spec fn wf(&self) -> bool {
        ids_unique(self@)
    }

    /// Where identifier text leads: `BadId` for a text that is not a UUID, `NotFound`
    /// for one that no conversation has, else the conversation's position.
    pub open spec fn lookup(&self, s: Seq<char>) -> Result<int, StoreError> {
        match uuid_parse_of(s) {
            None => Err(StoreError::BadId),
            Some(id) => if holds(self@, id) {
                Ok(position(self@, id))
            } else {
                Err(StoreError::NotFound)
            },
        }
    }

    /// An empty registry.
    pub fn new() -> (r: ConversationManager)
        ensures
            r.wf(),
            r@ == Seq::<ConversationView>::empty(),
    {
        let r = ConversationManager { conversations: Vec::new() };
        assert(r@ =~= Seq::<ConversationView>::empty());
        r
    }

    /// An identity that no conversation has: the smallest one not in use.
    pub fn free_id(&self) -> (r: u128)
        requires
            self.wf(),
        ensures
            !holds(self@, r),
    {
        let n = self.conversations.len();
        let mut c: u128 = 0;
        loop
            invariant
                self.wf(),
                n == self@.len(),
                c <= n,
                forall|k: int| 0 <= k < c ==> #[trigger] holds(self@, k as u128),
            decreases n - c,
        {
            match self.find(c) {
                None => {
                    return c;
                },
                Some(_) => {
                    proof {
                        assert forall|k: int| 0 <= k < c + 1 implies #[trigger] holds(
                            self@,
                            k as u128,
                        ) by {
                            if k == c as int {
                                assert(k as u128 == c);
                            }
                        }
                        lemma_held_range_fits(self@, c + 1);
                    }
                    c = c + 1;
                },
            }
        }
    }

    /// Whether no two conversations share an identity.
    pub fn is_well_formed(&self) -> (r: bool)
        ensures
            r == self.wf(),
    {
        let n = self.conversations.len();
        let mut i: usize = 0;
        while i < n
            invariant
                n == self@.len(),
                n == self.conversations@.len(),
                i <= n,
                forall|a: int, b: int| 0 <= a < i && 0 <= b < n && a != b ==> self@[a].id != self@[b].id,
            decreases n - i,
        {
            let mut j: usize = 0;
            while j < n
                invariant
                    n == self@.len(),
                    n == self.conversations@.len(),
                    i < n,
                    j <= n,
                    forall|a: int, b: int| 0 <= a < i && 0 <= b < n && a != b ==> self@[a].id != self@[b].id,
                    forall|b: int| 0 <= b < j && i != b ==> self@[i as int].id != self@[b].id,
                decreases n - j,
            {
                assert(self@[i as int] == self.conversations@[i as int]@);
                assert(self@[j as int] == self.conversations@[j as int]@);
                if i != j && self.conversations[i].id == self.conversations[j].id {
                    return false;
                }
                j = j + 1;
            }
            i = i + 1;
        }
        true
    }

    /// The position of the conversation with identity `id`, if there is one.
    pub fn find(&self, id: u128) -> (r: Option<usize>)
        requires
            self.wf(),
        ensures
            r is None <==> !holds(self@, id),
            r is Some ==> r->Some_0 == position(self@, id) && r->Some_0 < self@.len(),
    {
        let mut i: usize = 0;
        while i < self.conversations.len()
            invariant
                i <= self.conversations@.len(),
                self.wf(),
                self@.len() == self.conversations@.len(),
                forall|k: int| 0 <= k < i ==> self@[k].id != id,
            decreases self.conversations@.len() - i,
        {
            assert(self@[i as int] == self.conversations@[i as int]@);
            if self.conversations[i].id == id {
                assert(holds(self@, id));
                let ghost p = position(self@, id);
                assert(0 <= p < self@.len() && self@[p].id == id);
                assert(self@[i as int].id == id);
                proof {
                    if p != i as int {
                        assert(self@[p].id != self@[i as int].id);
                    }
                }
                return Some(i);
            }
            i = i + 1;
        }
        None
    }

    /// The position to which identifier text leads, with the error of `lookup`.
    pub fn locate(&self, conversation_id: &str) -> (r: Result<usize, StoreError>)
        requires
            self.wf(),
        ensures
            match self.lookup(conversation_id@) {
                Ok(i) => r is Ok && r->Ok_0 == i && i < self@.len(),
                Err(e) => r == Err::<usize, StoreError>(e),
            },
    {
        match parse_uuid(conversation_id) {
            None => Err(StoreError::BadId),
            Some(id) => match self.find(id) {
                Some(i) => Ok(i),
                None => Err(StoreError::NotFound),
            },
        }
    }

    /// Stores `conv`, replacing the conversation with the same identity if there is one.
    pub fn insert_conversation(&mut self, conv: Conversation)
        requires
            old(self).wf(),
        ensures
            final(self).wf(),
            final(self)@ == insert_view(old(self)@, conv@),
    {
        let ghost cv = conv@;
        match self.find(conv.id) {
            Some(i) => {
                self.conversations.set(i, conv);
                assert(self@ =~= old(self)@.update(i as int, cv));
                assert forall|a: int, b: int|
                    0 <= a < self@.len() && 0 <= b < self@.len() && a != b implies self@[a].id
                    != self@[b].id by {
                    assert(old(self)@[i as int].id == cv.id);
                }
            },
            None => {
                self.conversations.push(conv);
                assert(self@ =~= old(self)@.push(cv));
            },
        }
    }

    /// A registry holding the given conversations; of two with the same identity
    /// the later one stays.
    pub fn from_conversations(v: Vec<Conversation>) -> (r: ConversationManager)
        ensures
            r.wf(),
            r@ == insert_all(Seq::empty(), v@.map_values(|c: Conversation| c@)),
    {
        let ghost vv = v@.map_values(|c: Conversation| c@);
        let mut m = ConversationManager::new();
        let mut i: usize = 0;
        let n = v.len();
        while i < n
            invariant
                n == vv.len(),
                n == v@.len(),
                i <= n,
                vv == v@.map_values(|c: Conversation| c@),
                m.wf(),
                m@ == insert_all(Seq::empty(), vv.subrange(0, i as int)),
            decreases n - i,
        {
            let c = v[i].duplicate();
            assert(c@ == vv[i as int]);
            assert(vv.subrange(0, i + 1).drop_last() =~= vv.subrange(0, i as int));
            m.insert_conversation(c);
            i = i + 1;
        }
        assert(vv.subrange(0, n as int) =~= vv);
        m
    }

    /// Copies of all conversations, in registry order: what is saved to disk.
    pub fn snapshot(&self) -> (r: Vec<Conversation>)
        ensures
            r@.map_values(|c: Conversation| c@) == self@,
    {
        let mut out: Vec<Conversation> = Vec::new();
        let mut i: usize = 0;
        while i < self.conversations.len()
            invariant
                i <= self.conversations@.len(),
                self@.len() == self.conversations@.len(),
                out@.map_values(|c: Conversation| c@) == self@.subrange(0, i as int),
            decreases self.conversations@.len() - i,
        {
            let ghost before = out@;
            let c = self.conversations[i].duplicate();
            out.push(c);
            assert(out@.map_values(|c: Conversation| c@) =~= before.map_values(
                |c: Conversation| c@,
            ).push(self@[i as int]));
            assert(self@.subrange(0, i + 1) =~= self@.subrange(0, i as int).push(self@[i as int]));
            i = i + 1;
        }
        assert(self@.subrange(0, i as int) =~= self@);
        out
    }

    /// Appends one record to the conversation at position `i`.
    pub fn append_event(&mut self, i: usize, event: ConversationEvent, timestamp: u64)
        requires
            old(self).wf(),
            i < old(self)@.len(),
        ensures
            final(self).wf(),
            final(self)@ == old(self)@.update(i as int, with_event(old(self)@[i as int], event@, timestamp)),
    {
        let ghost ev = event@;
        let mut c = self.conversations[i].duplicate();
        c.add_event(event, timestamp);
        let ghost cv = c@;
        self.conversations.set(i, c);
        assert(cv == with_event(old(self)@[i as int], ev, timestamp));
        assert(self@ =~= old(self)@.update(i as int, cv));
        assert forall|a: int, b: int|
            0 <= a < self@.len() && 0 <= b < self@.len() && a != b implies self@[a].id
            != self@[b].id by {
            assert(old(self)@[i as int].id == cv.id);
        }
    }
}

/// Saving a registry's conversations and loading them back gives the same
/// registry: the same identities, in the same order, with the same histories.
pub proof fn lemma_load_after_save(s: Seq<ConversationView>)
    requires
        ids_unique(s),
    ensures
        insert_all(Seq::empty(), s) == s,
    decreases s.len(),
{
    if s.len() > 0 {
        let p = s.drop_last();
        assert(ids_unique(p)) by {
            assert forall|i: int, j: int|
                0 <= i < p.len() && 0 <= j < p.len() && i != j implies p[i].id != p[j].id by {
                assert(p[i] == s[i] && p[j] == s[j]);
            }
        }
        lemma_load_after_save(p);
        assert(!holds(p, s.last().id)) by {
            if holds(p, s.last().id) {
                let k = choose|k: int| 0 <= k < p.len() && p[k].id == s.last().id;
                assert(p[k] == s[k]);
                assert(s[k].id != s[s.len() - 1].id);
            }
        }
        assert(p.push(s.last()) =~= s);
    }
}

/// A registry of `s.len()` conversations cannot hold every identity below `m`
/// unless `m <= s.len()`.
proof fn lemma_held_range_fits(s: Seq<ConversationView>, m: int)
    requires
        0 <= m <= s.len() + 1,
        s.len() <= usize::MAX,
        forall|k: int| 0 <= k < m ==> #[trigger] holds(s, k as u128),
    ensures
        m <= s.len(),
{
    let ids = s.map_values(|c: ConversationView| c.id as int);
    let held = ids.to_set();
    ids.lemma_cardinality_of_set();
    seq_to_set_is_finite(ids);
    lemma_int_range(0, m);
    assert forall|k: int| #[trigger] set_int_range(0, m).contains(k) implies held.contains(k) by {
        assert(holds(s, k as u128));
        let i = choose|i: int| 0 <= i < s.len() && s[i].id == k as u128;
        assert((k as u128) as int == k);
        assert(ids[i] == k);
        assert(ids.contains(k));
    }
    lemma_len_subset(set_int_range(0, m), held);
}

} // verus!
