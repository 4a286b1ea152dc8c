//! Conversation turns and the bounded history buffer.
//!
//! A `ChatHistory` pins one system message and keeps a rolling window of
//! at most `HISTORY_CAPACITY` turns: appending an eleventh turn evicts the
//! oldest one. Producing a prompt for a new utterance never mutates the
//! buffer.

use vstd::prelude::*;

verus! {

/// The greatest number of turns a history retains.
pub const HISTORY_CAPACITY: usize = 10;

/// Who a conversation turn is attributed to.
#[derive(Clone, Copy, Debug, PartialEq, Eq, Structural)]
pub enum Role {
    System,
    User,
    Assistant,
}

/// One conversation turn: a role and its text.
#[derive(Debug, PartialEq, Eq)]
pub struct PromptMessage {
    pub role: Role,
    pub content: String,
}

impl Clone for PromptMessage {
    fn clone(&self) -> (r: Self)
        ensures
            r == *self,
    {
        PromptMessage { role: self.role, content: self.content.clone() }
    }
}

/// A pinned system message plus a rolling window of turns.
#[derive(Debug)]
pub struct ChatHistory {
    system_prompt: PromptMessage,
    messages: Vec<PromptMessage>,
}

impl ChatHistory {
    /// The stored turns, oldest first.
    pub closed spec fn turns(&self) -> Seq<PromptMessage> {
        self.messages@
    }

    /// The pinned system message.
    pub closed spec fn system(&self) -> PromptMessage {
        self.system_prompt
    }

    /// The buffer never holds more than `HISTORY_CAPACITY` turns, and the
    /// pinned message always carries the system role.
    pub closed spec fn wf(&self) -> bool {
        &&& self.messages@.len() <= HISTORY_CAPACITY
        &&& self.system_prompt.role == Role::System
    }

    /// One append step of the rolling window: push the new turn, then
    /// drop the oldest turn if the window would overflow.
    pub open spec fn window_push(turns: Seq<PromptMessage>, m: PromptMessage) -> Seq<PromptMessage> {
        let t = turns.push(m);
        if t.len() > HISTORY_CAPACITY {
            t.subrange(1, t.len() as int)
        } else {
            t
        }
    }

    /// The window a whole sequence of appended turns leaves behind: the
    /// most recent `HISTORY_CAPACITY` of them, in order.
    pub open spec fn window(all: Seq<PromptMessage>) -> Seq<PromptMessage> {
        if all.len() <= HISTORY_CAPACITY {
            all
        } else {
            all.subrange(all.len() - HISTORY_CAPACITY, all.len() as int)
        }
    }

    /// Law: appending to the window of all previously appended turns gives
    /// the window of all appended turns. By induction over a sequence of
    /// appends, the turns a history retains are therefore exactly the most
    /// recently appended `HISTORY_CAPACITY` turns, in their original order.
    pub proof fn lemma_window_push_window(all: Seq<PromptMessage>, m: PromptMessage)
        ensures
            Self::window_push(Self::window(all), m) == Self::window(all.push(m)),
    {
        assert(Self::window_push(Self::window(all), m) =~= Self::window(all.push(m)));
    }

    /// What a returned prompt looks like: the system message, the stored
    /// turns in order, then a transient user turn for the new utterance.
    pub open spec fn prompt_shape(&self, utterance: Seq<char>, r: Seq<PromptMessage>) -> bool {
        &&& r.len() == self.turns().len() + 2
        &&& r[0] == self.system()
        &&& r.subrange(1, r.len() - 1) == self.turns()
        &&& r[r.len() - 1].role == Role::User
        &&& r[r.len() - 1].content@ == utterance
    }

    /// Constructs a history with the given system instruction and no turns.
    pub fn new(system_prompt: &str) -> (h: Self)
        ensures
            h.wf(),
            h.turns() == Seq::<PromptMessage>::empty(),
            h.system().role == Role::System,
            h.system().content@ == system_prompt@,
    {
        let h = ChatHistory {
            system_prompt: PromptMessage { role: Role::System, content: system_prompt.to_owned() },
            messages: Vec::new(),
        };
        proof {
            assert(h.messages@ =~= Seq::<PromptMessage>::empty());
        }
        h
    }

    /// A copy of the stored turns, oldest first.
    pub fn get_messages(&self) -> (r: Vec<PromptMessage>)
        ensures
            r@ == self.turns(),
    {
        let mut r: Vec<PromptMessage> = Vec::new();
        let mut i: usize = 0;
        while i < self.messages.len()
            invariant
                i <= self.messages@.len(),
                r@ == self.messages@.subrange(0, i as int),
            decreases self.messages@.len() - i,
        {
            r.push(self.messages[i].clone());
            proof {
                assert(r@ =~= self.messages@.subrange(0, i + 1 as int));
            }
            i = i + 1;
        }
        proof {
            assert(r@ =~= self.messages@);
        }
        r
    }

    /// The full prompt for a new utterance: system message, stored turns,
    /// then a transient user turn. Pure: the history is not changed, and
    /// the transient turn is not stored.
    pub fn generate_messages(&self, prompt: &str) -> (r: Vec<PromptMessage>)
        ensures
            self.prompt_shape(prompt@, r@),
    {
        let mut r: Vec<PromptMessage> = Vec::new();
        r.push(self.system_prompt.clone());
        let mut i: usize = 0;
        while i < self.messages.len()
            invariant
                i <= self.messages@.len(),
                r@.len() == i + 1,
                r@[0] == self.system_prompt,
                r@.subrange(1, r@.len() as int) == self.messages@.subrange(0, i as int),
            decreases self.messages@.len() - i,
        {
            r.push(self.messages[i].clone());
            proof {
                assert(r@.subrange(1, r@.len() as int) =~= self.messages@.subrange(0, i + 1 as int));
            }
            i = i + 1;
        }
        proof {
            assert(r@.subrange(1, r@.len() as int) =~= self.messages@);
        }
        let ghost rprev = r@;
        r.push(PromptMessage { role: Role::User, content: prompt.to_owned() });
        proof {
            assert(r@.subrange(1, r@.len() - 1) =~= rprev.subrange(1, rprev.len() as int));
        }
        r
    }

    /// Law: two prompts produced from the same history state and the same
    /// utterance are identical, message for message; producing a prompt
    /// takes the history by shared reference, so it cannot change what a
    /// later append sees.
    pub proof fn lemma_prompt_deterministic(
        &self,
        utterance: Seq<char>,
        r1: Seq<PromptMessage>,
        r2: Seq<PromptMessage>,
    )
        requires
            self.prompt_shape(utterance, r1),
            self.prompt_shape(utterance, r2),
        ensures
            r1.len() == r2.len(),
            forall|i: int| 0 <= i < r1.len() - 1 ==> r1[i] == r2[i],
            r1[r1.len() - 1].role == r2[r2.len() - 1].role,
            r1[r1.len() - 1].content@ == r2[r2.len() - 1].content@,
    {
        assert forall|i: int| 0 <= i < r1.len() - 1 implies r1[i] == r2[i] by {
            if i > 0 {
                assert(r1[i] == r1.subrange(1, r1.len() - 1)[i - 1]);
                assert(r2[i] == r2.subrange(1, r2.len() - 1)[i - 1]);
            }
        }
    }

    /// Law: right after `clear`, a prompt holds exactly the original system
    /// message and the transient user turn, in that order.
    pub proof fn lemma_prompt_after_clear(
        before: Self,
        after: Self,
        utterance: Seq<char>,
        r: Seq<PromptMessage>,
    )
        requires
            after.turns() == Seq::<PromptMessage>::empty(),
            after.system() == before.system(),
            after.prompt_shape(utterance, r),
        ensures
            r.len() == 2,
            r[0] == before.system(),
            r[1].role == Role::User,
            r[1].content@ == utterance,
    {
    }

    /// Appends a user turn, evicting the oldest turn if the window is full.
    pub fn append_user_prompt(&mut self, prompt: &str)
        requires
            old(self).wf(),
        ensures
            final(self).wf(),
            final(self).system() == old(self).system(),
            final(self).turns().len() != 0,
            final(self).turns().last().role == Role::User,
            final(self).turns().last().content@ == prompt@,
            final(self).turns() == Self::window_push(
                old(self).turns(),
                final(self).turns().last(),
            ),
    {
        let m = PromptMessage { role: Role::User, content: prompt.to_owned() };
        self.push_turn(m);
    }

    /// Appends an assistant turn, evicting the oldest turn if the window is
    /// full.
    pub fn append_assistant_prompt(&mut self, prompt: &str)
        requires
            old(self).wf(),
        ensures
            final(self).wf(),
            final(self).system() == old(self).system(),
            final(self).turns().len() != 0,
            final(self).turns().last().role == Role::Assistant,
            final(self).turns().last().content@ == prompt@,
            final(self).turns() == Self::window_push(
                old(self).turns(),
                final(self).turns().last(),
            ),
    {
        let m = PromptMessage { role: Role::Assistant, content: prompt.to_owned() };
        self.push_turn(m);
    }

    /// Pushes one turn and clamps the window to its capacity.
    fn push_turn(&mut self, m: PromptMessage)
        requires
            old(self).wf(),
        ensures
            final(self).wf(),
            final(self).system() == old(self).system(),
            final(self).turns().len() != 0,
            final(self).turns().last() == m,
            final(self).turns() == Self::window_push(old(self).turns(), m),
    {
        self.messages.push(m);
        if self.messages.len() > HISTORY_CAPACITY {
            self.messages.remove(0);
            proof {
                assert(self.messages@ =~= Self::window_push(old(self).turns(), m));
            }
        }
    }

    /// Empties the turn window; the system message is untouched.
    pub fn clear(&mut self)
        ensures
            final(self).wf() == (old(self).system().role == Role::System),
            final(self).system() == old(self).system(),
            final(self).turns() == Seq::<PromptMessage>::empty(),
    {
        self.messages.clear();
        proof {
            assert(self.messages@ =~= Seq::<PromptMessage>::empty());
        }
    }
}

} // verus!
