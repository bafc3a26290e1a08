use vstd::prelude::*;

use crate::chat::{
    ChatMessage, MessageView, assistant_message, message_views, system_message, user_message,
};

verus! {

/// A conversation with a language model: an optional system prompt that is
/// always sent first, and the most recent turns, at most `max_turns` of them.
pub struct ConversationHistory {
    system: Option<ChatMessage>,
    turns: Vec<ChatMessage>,
    max_turns: usize,
}

/// The abstract value of a [`ConversationHistory`].
pub ghost struct HistoryView {
    pub system: Option<MessageView>,
    pub turns: Seq<MessageView>,
    pub max_turns: nat,
}

impl HistoryView {
    /// The cap is at least one turn and is respected.
    pub open spec fn wf(self) -> bool {
        self.max_turns >= 1 && self.turns.len() <= self.max_turns
    }

    /// The messages sent for a request: the system prompt, if any, then the
    /// turns, oldest first.
    pub open spec fn snapshot(self) -> Seq<MessageView> {
        match self.system {
            Some(m) => seq![m] + self.turns,
            None => self.turns,
        }
    }
}

/// The last `n` elements of `s` (all of them when there are fewer).
pub open spec fn keep_last<A>(s: Seq<A>, n: nat) -> Seq<A> {
    if s.len() > n {
        s.skip(s.len() - n)
    } else {
        s
    }
}

/// A cap of zero turns is taken as one.
pub open spec fn clamp_cap(max_turns: usize) -> nat {
    if max_turns >= 1 {
        max_turns as nat
    } else {
        1
    }
}

/// The history after one more turn: appended, then the oldest turns evicted
/// beyond the cap.
pub open spec fn with_turn(h: HistoryView, m: MessageView) -> HistoryView {
    HistoryView { turns: keep_last(h.turns.push(m), h.max_turns), ..h }
}

/// The history without its last turn when that turn is the user's.
pub open spec fn without_last_user(h: HistoryView) -> HistoryView {
    if h.turns.len() > 0 && h.turns.last().role == "user"@ {
        HistoryView { turns: h.turns.drop_last(), ..h }
    } else {
        h
    }
}

/// The history after a sequence of turns, oldest first.
pub open spec fn with_turns(h: HistoryView, ms: Seq<MessageView>) -> HistoryView
    decreases ms.len(),
{
    if ms.len() == 0 {
        h
    } else {
        with_turn(with_turns(h, ms.drop_last()), ms.last())
    }
}

proof fn lemma_keep_last_push<A>(s: Seq<A>, m: A, n: nat)
    requires
        n >= 1,
    ensures
        keep_last(keep_last(s, n).push(m), n) == keep_last(s.push(m), n),
{
    assert(keep_last(keep_last(s, n).push(m), n) =~= keep_last(s.push(m), n));
}

/// However many turns are recorded, the system prompt and the cap stay, and
/// the turns are the newest `max_turns` of all turns recorded, in order.
pub proof fn lemma_turns_are_newest(h: HistoryView, ms: Seq<MessageView>)
    requires
        h.wf(),
    ensures
        with_turns(h, ms).wf(),
        with_turns(h, ms).system == h.system,
        with_turns(h, ms).max_turns == h.max_turns,
        with_turns(h, ms).turns == keep_last(h.turns + ms, h.max_turns),
    decreases ms.len(),
{
    if ms.len() == 0 {
        assert(h.turns + ms =~= h.turns);
    } else {
        let prev = ms.drop_last();
        lemma_turns_are_newest(h, prev);
        lemma_keep_last_push(h.turns + prev, ms.last(), h.max_turns);
        assert((h.turns + prev).push(ms.last()) =~= h.turns + ms);
    }
}

/// The turn just recorded is the last one, and the number of turns grows by
/// one up to the cap.
pub proof fn lemma_push_appends(h: HistoryView, m: MessageView)
    requires
        h.wf(),
    ensures
        with_turn(h, m).turns.last() == m,
        with_turn(h, m).turns.len() == (if h.turns.len() < h.max_turns {
            h.turns.len() + 1
        } else {
            h.max_turns
        }),
{
}

/// Below the cap, taking back the user's turn undoes recording it.
pub proof fn lemma_pop_undoes_push_user(h: HistoryView, content: Seq<char>)
    requires
        h.wf(),
        h.turns.len() < h.max_turns,
    ensures
        without_last_user(with_turn(h, user_message(content))) == h,
{
    assert(with_turn(h, user_message(content)).turns.drop_last() =~= h.turns);
}

/// A snapshot holds the system prompt, if any, and every turn.
pub proof fn lemma_snapshot_len(h: HistoryView)
    ensures
        h.snapshot().len() == h.turns.len() + (if h.system is Some { 1int } else { 0 }),
        h.system matches Some(m) ==> h.snapshot()[0] == m,
{
}

/// Recording a turn keeps the newest turns: the new turns are the old ones
/// followed by the new turn, less as many of the oldest as the cap demands
/// (at most one), so no turn but the oldest is ever lost.
pub proof fn lemma_push_keeps_newest_turns(h: HistoryView, m: MessageView)
    requires
        h.wf(),
    ensures
        ({
            let t = with_turn(h, m).turns;
            let dropped: int = h.turns.len() + 1 - t.len();
            &&& 0 <= dropped <= 1
            &&& (dropped == 1 <==> h.turns.len() == h.max_turns)
            &&& t.drop_last() == h.turns.skip(dropped)
            &&& t.last() == m
        }),
{
    let t = with_turn(h, m).turns;
    let dropped: int = h.turns.len() + 1 - t.len();
    assert(t.drop_last() =~= h.turns.skip(dropped));
}

/// Taking back the user's turn removes at most the last turn, and only when
/// it is the user's; the system prompt and cap stay.
pub proof fn lemma_pop_only_takes_back_a_user_turn(h: HistoryView)
    requires
        h.wf(),
    ensures
        without_last_user(h).wf(),
        without_last_user(h).system == h.system,
        without_last_user(h).max_turns == h.max_turns,
        h.turns.len() > 0 && h.turns.last().role == "user"@ ==> without_last_user(h).turns
            == h.turns.take(h.turns.len() - 1),
        !(h.turns.len() > 0 && h.turns.last().role == "user"@) ==> without_last_user(h).turns
            == h.turns,
{
    if h.turns.len() > 0 {
        assert(h.turns.drop_last() =~= h.turns.take(h.turns.len() - 1));
    }
}

/// A snapshot is the system prompt, if any, followed by exactly the recorded
/// turns, each with its own role and content.
pub proof fn lemma_snapshot_is_system_then_turns(h: HistoryView)
    ensures
        ({
            let off: int = if h.system is Some { 1 } else { 0 };
            &&& h.snapshot().len() == off + h.turns.len()
            &&& h.snapshot().subrange(off, h.snapshot().len() as int) == h.turns
            &&& forall|i: int| 0 <= i < h.turns.len() ==> #[trigger] h.snapshot()[off + i] == h.turns[i]
        }),
        h.system matches Some(m) ==> h.snapshot()[0] == m,
{
    let off: int = if h.system is Some { 1 } else { 0 };
    assert(h.snapshot().subrange(off, h.snapshot().len() as int) =~= h.turns);
}

/// After a turn is recorded, the snapshot ends with that turn, with the role
/// and content it was recorded with.
pub proof fn lemma_snapshot_ends_with_new_turn(h: HistoryView, m: MessageView)
    requires
        h.wf(),
    ensures
        with_turn(h, m).snapshot().last() == m,
        with_turn(h, m).snapshot().len() >= 1,
{
    lemma_push_appends(h, m);
    lemma_snapshot_is_system_then_turns(with_turn(h, m));
    let h2 = with_turn(h, m);
    let off: int = if h2.system is Some { 1 } else { 0 };
    assert(h2.snapshot()[off + h2.turns.len() - 1] == h2.turns[h2.turns.len() - 1]);
}

/// A change to a history, as the mutating methods make it.
pub ghost enum HistoryOp {
    User(Seq<char>),
    Assistant(Seq<char>),
    Clear,
    PopLastUser,
}

/// The history after one change.
pub open spec fn apply_op(h: HistoryView, op: HistoryOp) -> HistoryView {
    match op {
        HistoryOp::User(c) => with_turn(h, user_message(c)),
        HistoryOp::Assistant(c) => with_turn(h, assistant_message(c)),
        HistoryOp::Clear => HistoryView { turns: Seq::empty(), ..h },
        HistoryOp::PopLastUser => without_last_user(h),
    }
}

/// The history after a sequence of changes, oldest first.
pub open spec fn apply_ops(h: HistoryView, ops: Seq<HistoryOp>) -> HistoryView
    decreases ops.len(),
{
    if ops.len() == 0 {
        h
    } else {
        apply_op(apply_ops(h, ops.drop_last()), ops.last())
    }
}

/// Whatever changes are made, the system prompt and the cap stay and the
/// cap is respected; so a history without a system prompt never gains one,
/// and its snapshot is just its turns.
pub proof fn lemma_changes_keep_system_prompt(h: HistoryView, ops: Seq<HistoryOp>)
    requires
        h.wf(),
    ensures
        apply_ops(h, ops).wf(),
        apply_ops(h, ops).system == h.system,
        apply_ops(h, ops).max_turns == h.max_turns,
        h.system is None ==> apply_ops(h, ops).snapshot() == apply_ops(h, ops).turns,
    decreases ops.len(),
{
    if ops.len() > 0 {
        lemma_changes_keep_system_prompt(h, ops.drop_last());
    }
}

impl View for ConversationHistory {
    type V = HistoryView;

    closed spec fn view(&self) -> HistoryView {
        HistoryView {
            system: match self.system {
                Some(m) => Some(m@),
                None => None,
            },
            turns: message_views(self.turns@),
            max_turns: self.max_turns as nat,
        }
    }
}

impl ConversationHistory {
    /// A history whose requests start with the given system prompt.
    pub fn new(system_prompt: &str, max_turns: usize) -> (h: Self)
        ensures
            h@.wf(),
            h@ == (HistoryView {
                system: Some(system_message(system_prompt@)),
                turns: Seq::empty(),
                max_turns: clamp_cap(max_turns),
            }),
    {
        let h = ConversationHistory {
            system: Some(ChatMessage::system(system_prompt)),
            turns: Vec::new(),
            max_turns: if max_turns >= 1 { max_turns } else { 1 },
        };
        assert(h@.turns =~= Seq::<MessageView>::empty());
        h
    }

    /// A history without a system prompt.
    pub fn without_system(max_turns: usize) -> (h: Self)
        ensures
            h@.wf(),
            h@ == (HistoryView {
                system: None,
                turns: Seq::empty(),
                max_turns: clamp_cap(max_turns),
            }),
    {
        let h = ConversationHistory {
            system: None,
            turns: Vec::new(),
            max_turns: if max_turns >= 1 { max_turns } else { 1 },
        };
        assert(h@.turns =~= Seq::<MessageView>::empty());
        h
    }

    /// Appends a turn and evicts the oldest turns beyond the cap.
    fn push_turn(&mut self, m: ChatMessage)
        requires
            old(self)@.wf(),
        ensures
            final(self)@.wf(),
            final(self)@ == with_turn(old(self)@, m@),
    {
        self.turns.push(m);
        assert(message_views(self.turns@) =~= old(self)@.turns.push(m@));
        self.truncate();
    }

    /// Records what the user said.
    pub fn push_user(&mut self, content: &str)
        requires
            old(self)@.wf(),
        ensures
            final(self)@.wf(),
            final(self)@ == with_turn(old(self)@, user_message(content@)),
    {
        self.push_turn(ChatMessage::user(content));
    }

    /// Records what the assistant answered.
    pub fn push_assistant(&mut self, content: &str)
        requires
            old(self)@.wf(),
        ensures
            final(self)@.wf(),
            final(self)@ == with_turn(old(self)@, assistant_message(content@)),
    {
        self.push_turn(ChatMessage::assistant(content));
    }

    /// The messages to send: the system prompt, if any, then the turns.
    pub fn snapshot(&self) -> (out: Vec<ChatMessage>)
        ensures
            message_views(out@) == self@.snapshot(),
    {
        let mut out: Vec<ChatMessage> = Vec::with_capacity(self.turns.len());
        if let Some(s) = &self.system {
            out.push(s.duplicate());
        }
        let ghost start = message_views(out@);
        let n = self.turns.len();
        let mut i: usize = 0;
        while i < n
            invariant
                n == self.turns@.len(),
                i <= n,
                message_views(out@) == start + message_views(self.turns@.take(i as int)),
            decreases n - i,
        {
            let ghost before = out@;
            let m = self.turns[i].duplicate();
            out.push(m);
            assert(message_views(out@) =~= message_views(before).push(m@));
            assert(self.turns@.take(i + 1) =~= self.turns@.take(i as int).push(self.turns@[i as int]));
            assert(message_views(self.turns@.take(i + 1)) =~= message_views(
                self.turns@.take(i as int),
            ).push(self.turns@[i as int]@));
            assert(message_views(out@) =~= start + message_views(self.turns@.take(i + 1)));
            i = i + 1;
        }
        assert(self.turns@.take(n as int) =~= self.turns@);
        assert(message_views(out@) =~= self@.snapshot());
        out
    }

    /// The recorded turns, oldest first, without the system prompt.
    pub fn turns(&self) -> (r: &[ChatMessage])
        ensures
            message_views(r@) == self@.turns,
    {
        self.turns.as_slice()
    }

    /// Forgets all turns; the system prompt and the cap stay.
    pub fn clear(&mut self)
        ensures
            final(self)@ == (HistoryView { turns: Seq::empty(), ..old(self)@ }),
    {
        self.turns.clear();
        assert(message_views(self.turns@) =~= Seq::<MessageView>::empty());
    }

    /// Takes back the last turn when it is the user's (a question that got
    /// no answer); otherwise leaves the history as it is.
    pub fn pop_last_user(&mut self)
        requires
            old(self)@.wf(),
        ensures
            final(self)@.wf(),
            final(self)@ == without_last_user(old(self)@),
    {
        let n = self.turns.len();
        if n > 0 && self.turns[n - 1].role == String::from_str("user") {
            self.turns.pop();
            assert(message_views(self.turns@) =~= old(self)@.turns.drop_last());
        }
    }

    /// Evicts the oldest turns beyond the cap.
    fn truncate(&mut self)
        requires
            old(self).max_turns >= 1,
            old(self).turns@.len() <= old(self).max_turns + 1,
        ensures
            final(self)@ == (HistoryView {
                turns: keep_last(old(self)@.turns, old(self)@.max_turns),
                ..old(self)@
            }),
            final(self)@.wf(),
    {
        if self.turns.len() > self.max_turns {
            let drop = self.turns.len() - self.max_turns;
            self.turns = self.turns.split_off(drop);
            assert(message_views(self.turns@) =~= keep_last(old(self)@.turns, old(self)@.max_turns));
        }
    }
}

} // verus!
