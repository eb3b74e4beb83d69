//! The chat bot's state and command dispatch; sending messages happens outside.
use crate::models::text_is;
use crate::records::{clone_texts, texts_view};
use vstd::prelude::*;
use vstd::string::*;

verus! {

/// An admin command the bot understands.
#[derive(Clone, Copy, Debug, PartialEq, Eq, Structural)]
pub enum BotCommand {
    Status,
    Positions,
    Settings,
    Unknown,
}

/// The command named by `command`.
pub open spec fn command_of(command: Seq<char>) -> BotCommand {
    if command == "/status"@ {
        BotCommand::Status
    } else if command == "/positions"@ {
        BotCommand::Positions
    } else if command == "/settings"@ {
        BotCommand::Settings
    } else {
        BotCommand::Unknown
    }
}

/// The keyboard shown under message `id`: the first entry for it.
pub open spec fn keyboard_of(k: Seq<(i32, Seq<Seq<char>>)>, id: i32) -> Option<Seq<Seq<char>>>
    decreases k.len(),
{
    if k.len() == 0 {
        None
    } else if k[0].0 == id {
        Some(k[0].1)
    } else {
        keyboard_of(k.drop_first(), id)
    }
}

/// The bot's state: the inline keyboard shown under each message.
pub struct Bot {
    inline_keyboards: Vec<(i32, Vec<String>)>,
}

impl View for Bot {
    type V = Seq<(i32, Seq<Seq<char>>)>;

    closed spec fn view(&self) -> Seq<(i32, Seq<Seq<char>>)> {
        self.inline_keyboards@.map_values(|e: (i32, Vec<String>)| (e.0, texts_view(e.1@)))
    }
}

proof fn lemma_keyboard_update(k: Seq<(i32, Seq<Seq<char>>)>, i: int, id: i32, v: Seq<Seq<char>>)
    requires
        0 <= i < k.len(),
        k[i].0 == id,
        forall|j: int| 0 <= j < i ==> k[j].0 != id,
    ensures
        keyboard_of(k.update(i, (id, v)), id) == Some(v),
        forall|o: i32| o != id ==> keyboard_of(k.update(i, (id, v)), o) == keyboard_of(k, o),
    decreases i,
{
    let u = k.update(i, (id, v));
    if i > 0 {
        lemma_keyboard_update(k.drop_first(), i - 1, id, v);
        assert(u.drop_first() =~= k.drop_first().update(i - 1, (id, v)));
        assert(u[0] == k[0]);
    } else {
        assert(u.drop_first() =~= k.drop_first());
    }
    assert forall|o: i32| o != id implies keyboard_of(u, o) == keyboard_of(k, o) by {
        if i > 0 {
            if k[0].0 != o {
                assert(keyboard_of(u, o) == keyboard_of(u.drop_first(), o));
                assert(keyboard_of(k.drop_first().update(i - 1, (id, v)), o) == keyboard_of(
                    k.drop_first(),
                    o,
                ));
            }
        } else {
            assert(keyboard_of(u, o) == keyboard_of(u.drop_first(), o));
            assert(keyboard_of(k, o) == keyboard_of(k.drop_first(), o));
        }
    }
}

proof fn lemma_keyboard_push(k: Seq<(i32, Seq<Seq<char>>)>, id: i32, v: Seq<Seq<char>>)
    requires
        keyboard_of(k, id) is None,
    ensures
        keyboard_of(k.push((id, v)), id) == Some(v),
        forall|o: i32| o != id ==> keyboard_of(k.push((id, v)), o) == keyboard_of(k, o),
    decreases k.len(),
{
    if k.len() > 0 {
        lemma_keyboard_push(k.drop_first(), id, v);
        let p = k.push((id, v));
        assert(p.drop_first() =~= k.drop_first().push((id, v)));
        assert(p[0] == k[0]);
        assert forall|o: i32| o != id implies keyboard_of(p, o) == keyboard_of(k, o) by {
            if k[0].0 != o {
                assert(keyboard_of(p, o) == keyboard_of(p.drop_first(), o));
                assert(keyboard_of(k.drop_first().push((id, v)), o) == keyboard_of(
                    k.drop_first(),
                    o,
                ));
            }
        }
    } else {
        assert forall|o: i32| o != id implies keyboard_of(k.push((id, v)), o) == keyboard_of(
            k,
            o,
        ) by {
            assert(k.push((id, v)).drop_first() =~= k);
        }
    }
}

proof fn lemma_keyboard_absent(k: Seq<(i32, Seq<Seq<char>>)>, id: i32)
    requires
        forall|j: int| 0 <= j < k.len() ==> k[j].0 != id,
    ensures
        keyboard_of(k, id) is None,
    decreases k.len(),
{
    if k.len() > 0 {
        lemma_keyboard_absent(k.drop_first(), id);
    }
}

impl Bot {
    pub fn new() -> (r: Bot)
        ensures
            forall|id: i32| keyboard_of(r@, id) is None,
    {
        let r = Bot { inline_keyboards: Vec::new() };
        proof {
            assert(r@.len() == 0);
        }
        r
    }

    /// Live reactions: nothing is kept for them yet.
    pub fn handle_reactions(&self) {
    }

    /// Shows `keyboard_data` under message `message_id`, replacing what was there.
    pub fn update_inline_keyboard(&mut self, message_id: i32, keyboard_data: Vec<String>)
        ensures
            keyboard_of(final(self)@, message_id) == Some(texts_view(keyboard_data@)),
            forall|o: i32| o != message_id ==> keyboard_of(final(self)@, o) == keyboard_of(old(self)@, o),
    {
        let ghost k = self@;
        let ghost v = texts_view(keyboard_data@);
        let n = self.inline_keyboards.len();
        let mut i: usize = 0;
        while i < n && self.inline_keyboards[i].0 != message_id
            invariant
                n == self.inline_keyboards@.len(),
                k == self@,
                i <= n,
                forall|j: int| 0 <= j < i ==> k[j].0 != message_id,
            decreases n - i,
        {
            i = i + 1;
        }
        if i < n {
            proof {
                lemma_keyboard_update(k, i as int, message_id, v);
            }
            self.inline_keyboards.set(i, (message_id, keyboard_data));
            proof {
                assert(self@ =~= k.update(i as int, (message_id, v)));
            }
        } else {
            proof {
                lemma_keyboard_absent(k, message_id);
                lemma_keyboard_push(k, message_id, v);
            }
            self.inline_keyboards.push((message_id, keyboard_data));
            proof {
                assert(self@ =~= k.push((message_id, v)));
            }
        }
    }

    /// The keyboard shown under message `message_id`.
    pub fn inline_keyboard(&self, message_id: i32) -> (r: Option<Vec<String>>)
        ensures
            match keyboard_of(self@, message_id) {
                Some(v) => r is Some && texts_view(r->0@) == v,
                None => r is None,
            },
    {
        let ghost k = self@;
        let n = self.inline_keyboards.len();
        let mut i: usize = 0;
        proof {
            assert(k.skip(0) =~= k);
        }
        while i < n
            invariant
                n == self.inline_keyboards@.len(),
                k == self@,
                i <= n,
                keyboard_of(k, message_id) == keyboard_of(k.skip(i as int), message_id),
            decreases n - i,
        {
            proof {
                assert(k.skip(i + 1) =~= k.skip(i as int).drop_first());
                assert(k.skip(i as int)[0] == k[i as int]);
            }
            if self.inline_keyboards[i].0 == message_id {
                return Some(clone_texts(&self.inline_keyboards[i].1));
            }
            i = i + 1;
        }
        proof {
            assert(k.skip(n as int).len() == 0);
        }
        None
    }

    /// The admin command named by `command`.
    pub fn handle_command(&self, command: &str) -> (r: BotCommand)
        ensures
            r == command_of(command@),
    {
        if text_is(command, "/status") {
            BotCommand::Status
        } else if text_is(command, "/positions") {
            BotCommand::Positions
        } else if text_is(command, "/settings") {
            BotCommand::Settings
        } else {
            BotCommand::Unknown
        }
    }
}

} // verus!
