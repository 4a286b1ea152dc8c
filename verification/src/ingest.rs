//! Conversion of an incoming front-end conversation into prompt messages.
//!
//! The front-end hands over turns as author/text pairs; only turns whose
//! author is `user` or `assistant` become prompt messages, everything
//! else is dropped, and a pinned system instruction is placed in front.

use vstd::prelude::*;
use vstd::string::StrSliceExecFns;

use crate::history::PromptMessage;
use crate::history::Role;

verus! {

/// One turn as the front-end delivers it: an author tag and its text.
pub struct IncomingTurn {
    pub author: String,
    pub text: String,
}

/// The role an author tag names, if any.
pub open spec fn spec_author_role(a: Seq<char>) -> Option<Role> {
    if a == ("user")@ {
        Some(Role::User)
    } else if a == ("assistant")@ {
        Some(Role::Assistant)
    } else {
        None
    }
}

/// What one message contributes to the observable prompt: its role and
/// its text.
pub open spec fn turn_view(m: PromptMessage) -> (Role, Seq<char>) {
    (m.role, m.content@)
}

/// What one incoming turn contributes: one message for a recognised
/// author, nothing otherwise.
pub open spec fn collected_one(t: IncomingTurn) -> Seq<(Role, Seq<char>)> {
    match spec_author_role(t.author@) {
        Some(role) => seq![(role, t.text@)],
        None => Seq::empty(),
    }
}

/// The messages a whole sequence of incoming turns contributes, in order.
pub open spec fn collected(ts: Seq<IncomingTurn>) -> Seq<(Role, Seq<char>)>
    decreases ts.len(),
{
    if ts.len() == 0 {
        Seq::empty()
    } else {
        collected_one(ts[0]) + collected(ts.drop_first())
    }
}

proof fn lemma_collected_snoc(s: Seq<IncomingTurn>, t: IncomingTurn)
    ensures
        collected(s.push(t)) == collected(s) + collected_one(t),
    decreases s.len(),
{
    if s.len() == 0 {
        assert(s.push(t)[0] == t);
        assert(s.push(t).drop_first() =~= Seq::<IncomingTurn>::empty());
        assert(collected(s.push(t).drop_first()) == Seq::<(Role, Seq<char>)>::empty());
        assert(collected(s.push(t)) == collected_one(t) + Seq::<(Role, Seq<char>)>::empty());
        assert(collected(s.push(t)) =~= collected(s) + collected_one(t));
    } else {
        assert(s.push(t)[0] == s[0]);
        assert(s.push(t).drop_first() =~= s.drop_first().push(t));
        lemma_collected_snoc(s.drop_first(), t);
        assert(collected(s.push(t)) == collected_one(s[0]) + (collected(s.drop_first())
            + collected_one(t)));
        assert(collected(s.push(t)) =~= collected(s) + collected_one(t));
    }
}

/// The role an author tag names: `user`, `assistant`, or nothing.
pub fn author_role(author: &str) -> (r: Option<Role>)
    ensures
        r == spec_author_role(author@),
{
    proof {
        reveal_strlit("user");
        reveal_strlit("assistant");
    }
    let n = author.unicode_len();
    if n == 4 && author.get_char(0) == 'u' && author.get_char(1) == 's' && author.get_char(2)
        == 'e' && author.get_char(3) == 'r' {
        proof {
            assert(author@ =~= ("user")@);
        }
        Some(Role::User)
    } else if n == 9 && author.get_char(0) == 'a' && author.get_char(1) == 's' && author.get_char(
        2,
    ) == 's' && author.get_char(3) == 'i' && author.get_char(4) == 's' && author.get_char(5) == 't'
        && author.get_char(6) == 'a' && author.get_char(7) == 'n' && author.get_char(8) == 't' {
        proof {
            assert(author@ =~= ("assistant")@);
        }
        Some(Role::Assistant)
    } else {
        proof {
            if author@ == ("user")@ {
                assert(author@[0] == 'u' && author@[1] == 's' && author@[2] == 'e' && author@[3]
                    == 'r');
                assert(false);
            }
            if author@ == ("assistant")@ {
                assert(author@[0] == 'a' && author@[1] == 's' && author@[2] == 's' && author@[3]
                    == 'i' && author@[4] == 's' && author@[5] == 't' && author@[6] == 'a'
                    && author@[7] == 'n' && author@[8] == 't');
                assert(false);
            }
        }
        None
    }
}

/// Turns the front-end conversation into the outgoing message list: the
/// system instruction first, then one message per turn whose author is
/// recognised, in arrival order.
pub fn assemble_chat(system_text: &str, turns: &Vec<IncomingTurn>) -> (r: Vec<PromptMessage>)
    ensures
        r@.map_values(|m: PromptMessage| turn_view(m)) == seq![(Role::System, system_text@)]
            + collected(turns@),
{
    let mut r: Vec<PromptMessage> = Vec::new();
    r.push(PromptMessage { role: Role::System, content: system_text.to_owned() });
    proof {
        assert(turns@.subrange(0, 0) =~= Seq::<IncomingTurn>::empty());
        assert(r@.map_values(|m: PromptMessage| turn_view(m)) =~= seq![
            (Role::System, system_text@),
        ] + collected(turns@.subrange(0, 0)));
    }
    let mut i: usize = 0;
    while i < turns.len()
        invariant
            i <= turns@.len(),
            r@.map_values(|m: PromptMessage| turn_view(m)) == seq![(Role::System, system_text@)]
                + collected(turns@.subrange(0, i as int)),
        decreases turns@.len() - i,
    {
        let ghost prev = r@;
        match author_role(turns[i].author.as_str()) {
            Some(role) => {
                r.push(PromptMessage { role, content: turns[i].text.clone() });
                proof {
                    assert(r@.map_values(|m: PromptMessage| turn_view(m)) =~= prev.map_values(
                        |m: PromptMessage| turn_view(m),
                    ) + collected_one(turns@[i as int]));
                }
            },
            None => {
                proof {
                    assert(collected_one(turns@[i as int]) == Seq::<(Role, Seq<char>)>::empty());
                }
            },
        }
        proof {
            assert(turns@.subrange(0, i as int).push(turns@[i as int]) =~= turns@.subrange(
                0,
                i as int + 1,
            ));
            lemma_collected_snoc(turns@.subrange(0, i as int), turns@[i as int]);
            assert(r@.map_values(|m: PromptMessage| turn_view(m)) =~= seq![
                (Role::System, system_text@),
            ] + collected(turns@.subrange(0, i as int + 1)));
        }
        i = i + 1;
    }
    proof {
        assert(turns@.subrange(0, turns@.len() as int) =~= turns@);
    }
    r
}

} // verus!
