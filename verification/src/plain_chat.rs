//! The plain chat: a conversation without commands, attachments or
//! streaming.

use crate::prompt::{create_plain_prompt, plain_chat_prompt};
use crate::text::{deep, from_chars, join, join_chars, push_str, to_chars, trim, trim_str, views};
use vstd::prelude::*;

verus! {

/// A plain chat: the lines of the dialogue so far.
pub struct PlainChat {
    pub history: Vec<String>,
}

/// The line that records what the user said.
pub open spec fn user_line(input: Seq<char>) -> Seq<char> {
    "USER: "@ + input
}

/// The line that records what the model replied.
pub open spec fn assistant_line(reply: Seq<char>) -> Seq<char> {
    "ASSISTANT: "@ + reply + "\n"@
}

/// The dialogue so far as one text.
pub open spec fn plain_dialog(history: Seq<Seq<char>>) -> Seq<char> {
    join(history, "\n"@)
}

impl PlainChat {
    /// A chat in which nothing was said yet.
    pub fn new() -> (c: PlainChat)
        ensures
            c.history@.len() == 0,
    {
        PlainChat { history: Vec::new() }
    }

    /// The prompt for the line `line` of the user, or nothing where the
    /// line is blank.
    pub fn prompt(&self, user: &str, datetime: &str, line: &str) -> (out: Option<String>)
        ensures
            match out {
                Some(p) => trim(line@).len() > 0 && p@ == plain_chat_prompt(
                    user@,
                    datetime@,
                    plain_dialog(views(self.history@)),
                    trim(line@),
                ),
                None => trim(line@).len() == 0,
            },
    {
        let input = trim_str(line);
        if input.len() == 0 {
            return None;
        }
        let mut lines: Vec<Vec<char>> = Vec::new();
        let mut i: usize = 0;
        while i < self.history.len()
            invariant
                i <= self.history@.len(),
                deep(lines@) == views(self.history@).take(i as int),
            decreases self.history@.len() - i,
        {
            let ghost before = deep(lines@);
            lines.push(to_chars(self.history[i].as_str()));
            i += 1;
            proof {
                let all = views(self.history@);
                assert(deep(lines@) =~= before.push(all[i - 1]));
                assert(all.take(i as int) =~= all.take(i - 1).push(all[i - 1]));
            }
        }
        proof {
            assert(views(self.history@).take(i as int) =~= views(self.history@));
        }
        let dialog = join_chars(&lines, "\n");
        Some(
            create_plain_prompt(
                user,
                datetime,
                from_chars(dialog.as_slice()).as_str(),
                from_chars(input.as_slice()).as_str(),
            ),
        )
    }

    /// Records a turn: what the user said, trimmed, and what the model
    /// replied.
    pub fn record(&mut self, line: &str, reply: &str)
        ensures
            views(final(self).history@) == views(old(self).history@).push(
                user_line(trim(line@)),
            ).push(assistant_line(reply@)),
    {
        let input = trim_str(line);
        let mut said: Vec<char> = Vec::new();
        push_str(&mut said, "USER: ");
        crate::text::push_all(&mut said, input.as_slice());
        let mut heard: Vec<char> = Vec::new();
        push_str(&mut heard, "ASSISTANT: ");
        push_str(&mut heard, reply);
        push_str(&mut heard, "\n");
        let ghost before = views(self.history@);
        self.history.push(from_chars(said.as_slice()));
        self.history.push(from_chars(heard.as_slice()));
        proof {
            assert(views(self.history@) =~= before.push(said@).push(heard@));
        }
    }
}

} // verus!
