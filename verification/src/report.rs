//! The shell executor's reports: what running an embedded command gave, and
//! the text block that tells the model about it.

use crate::text::{
    contains_text, decode_lossy, deep, from_chars, join, join_chars, push_all, push_str,
    signed_decimal, signed_decimal_chars, to_chars, trim_end, trim_end_len, utf8_lossy,
};
use vstd::prelude::*;

verus! {

/// What running one command gave, before any formatting.
pub enum Captured {
    /// The process ran; `code` is its exit code.
    Output { stdout: Vec<u8>, stderr: Vec<u8>, code: i32 },
    /// The process could not be started.
    SpawnError(String),
}

/// How a command ended.
pub enum CommandStatus {
    Success,
    Failure(i32),
    SpawnError(String),
}

/// The outcome of one embedded command.
pub struct CommandReport {
    pub command: String,
    pub stdout: String,
    pub stderr: String,
    pub status: CommandStatus,
}

/// What stands in the place of an output that is empty.
pub open spec fn placeholder() -> Seq<char> {
    "<empty>"@
}

/// What is handed on between two entries of a turn's report.
pub open spec fn entry_separator() -> Seq<char> {
    "\n\n"@
}

/// `s`, or the placeholder where `s` is empty.
pub open spec fn shown(s: Seq<char>) -> Seq<char> {
    if s.len() == 0 {
        placeholder()
    } else {
        s
    }
}

/// The entry for a command that succeeded.
pub open spec fn success_section(command: Seq<char>, stdout: Seq<char>) -> Seq<char> {
    "[section]\n[command]\n"@ + command + "\n\n[stdout]\n"@ + shown(stdout) + "\n[end section]"@
}

/// The entry for the error output of a command that succeeded.
pub open spec fn stderr_section(stderr: Seq<char>) -> Seq<char> {
    "[stderr]\n"@ + stderr
}

/// The entry for a command that ended with a code other than zero.
pub open spec fn failure_section(
    command: Seq<char>,
    code: int,
    stderr: Seq<char>,
    stdout: Seq<char>,
) -> Seq<char> {
    "$("@ + command + ")\n[exit status]\n"@ + "exit status: "@ + signed_decimal(code)
        + "\n[stderr]\n"@ + shown(stderr) + "\n[stdout]\n"@ + shown(stdout)
}

/// The entry for a command that could not be started.
pub open spec fn error_section(command: Seq<char>, message: Seq<char>) -> Seq<char> {
    "$("@ + command + ")\n[error]\n"@ + message
}

impl CommandReport {
    /// The entries that this report contributes to the turn's block.
    pub open spec fn entries(&self) -> Seq<Seq<char>> {
        match self.status {
            CommandStatus::Success => if self.stderr@.len() == 0 {
                seq![success_section(self.command@, self.stdout@)]
            } else {
                seq![success_section(self.command@, self.stdout@), stderr_section(self.stderr@)]
            },
            CommandStatus::Failure(code) => seq![
                failure_section(self.command@, code as int, self.stderr@, self.stdout@),
            ],
            CommandStatus::SpawnError(message) => seq![error_section(self.command@, message@)],
        }
    }

    /// This report as one text.
    pub open spec fn rendered(&self) -> Seq<char> {
        join(self.entries(), entry_separator())
    }

    /// Makes the report of one command from what running it gave. Output is
    /// decoded leniently and loses its trailing whitespace; exit code zero
    /// is success.
    pub fn new(command: &str, captured: &Captured) -> (r: CommandReport)
        ensures
            r.command@ == command@,
            match *captured {
                Captured::Output { stdout, stderr, code } => {
                    &&& r.stdout@ == trim_end(utf8_lossy(stdout@))
                    &&& r.stderr@ == trim_end(utf8_lossy(stderr@))
                    &&& code == 0 ==> r.status == CommandStatus::Success
                    &&& code != 0 ==> r.status == CommandStatus::Failure(code)
                },
                Captured::SpawnError(message) => {
                    &&& r.stdout@.len() == 0
                    &&& r.stderr@.len() == 0
                    &&& r.status matches CommandStatus::SpawnError(m)
                    &&& m@ == message@
                },
            },
    {
        match captured {
            Captured::Output { stdout, stderr, code } => {
                let out = trimmed_end(decode_lossy(stdout.as_slice()).as_str());
                let err = trimmed_end(decode_lossy(stderr.as_slice()).as_str());
                let status = if *code == 0 {
                    CommandStatus::Success
                } else {
                    CommandStatus::Failure(*code)
                };
                CommandReport { command: command.to_owned(), stdout: out, stderr: err, status }
            },
            Captured::SpawnError(message) => CommandReport {
                command: command.to_owned(),
                stdout: String::new(),
                stderr: String::new(),
                status: CommandStatus::SpawnError(message.clone()),
            },
        }
    }

    /// The entries that this report contributes to the turn's block.
    pub fn render_entries(&self) -> (out: Vec<Vec<char>>)
        ensures
            deep(out@) == self.entries(),
    {
        let mut out: Vec<Vec<char>> = Vec::new();
        match &self.status {
            CommandStatus::Success => {
                let mut entry: Vec<char> = Vec::new();
                push_str(&mut entry, "[section]\n[command]\n");
                push_str(&mut entry, self.command.as_str());
                push_str(&mut entry, "\n\n[stdout]\n");
                push_shown(&mut entry, self.stdout.as_str());
                push_str(&mut entry, "\n[end section]");
                out.push(entry);
                if !self.stderr.as_str().is_empty() {
                    let mut extra: Vec<char> = Vec::new();
                    push_str(&mut extra, "[stderr]\n");
                    push_str(&mut extra, self.stderr.as_str());
                    out.push(extra);
                }
            },
            CommandStatus::Failure(code) => {
                let mut entry: Vec<char> = Vec::new();
                push_str(&mut entry, "$(");
                push_str(&mut entry, self.command.as_str());
                push_str(&mut entry, ")\n[exit status]\n");
                push_str(&mut entry, "exit status: ");
                let digits = signed_decimal_chars(*code);
                push_all(&mut entry, digits.as_slice());
                push_str(&mut entry, "\n[stderr]\n");
                push_shown(&mut entry, self.stderr.as_str());
                push_str(&mut entry, "\n[stdout]\n");
                push_shown(&mut entry, self.stdout.as_str());
                out.push(entry);
            },
            CommandStatus::SpawnError(message) => {
                let mut entry: Vec<char> = Vec::new();
                push_str(&mut entry, "$(");
                push_str(&mut entry, self.command.as_str());
                push_str(&mut entry, ")\n[error]\n");
                push_str(&mut entry, message.as_str());
                out.push(entry);
            },
        }
        proof {
            assert(deep(out@) =~= self.entries());
        }
        out
    }

    /// This report as one text.
    pub fn render(&self) -> (out: String)
        ensures
            out@ == self.rendered(),
    {
        let entries = self.render_entries();
        let text = join_chars(&entries, "\n\n");
        from_chars(text.as_slice())
    }
}

/// `s` without its trailing whitespace.
pub fn trimmed_end(s: &str) -> (out: String)
    ensures
        out@ == trim_end(s@),
{
    let v = to_chars(s);
    let k = trim_end_len(v.as_slice());
    let mut kept = v;
    kept.truncate(k);
    from_chars(kept.as_slice())
}

/// Appends `s` to `dst`, or the placeholder where `s` is empty.
fn push_shown(dst: &mut Vec<char>, s: &str)
    ensures
        final(dst)@ == old(dst)@ + shown(s@),
{
    if s.is_empty() {
        push_str(dst, "<empty>");
    } else {
        push_str(dst, s);
    }
}

/// The entries of all the reports of a turn, in command order.
pub open spec fn all_entries(reports: Seq<CommandReport>) -> Seq<Seq<char>>
    decreases reports.len(),
{
    if reports.len() == 0 {
        Seq::empty()
    } else {
        all_entries(reports.drop_last()) + reports.last().entries()
    }
}

/// The block that tells of a turn's commands: nothing where the turn ran
/// none, else every entry in command order with a blank line between two.
pub open spec fn command_block(reports: Seq<CommandReport>) -> Option<Seq<char>> {
    if reports.len() == 0 {
        None
    } else {
        Some(join(all_entries(reports), entry_separator()))
    }
}

/// Renders the reports of one turn as the block that goes into the prompt.
pub fn render_reports(reports: &Vec<CommandReport>) -> (out: Option<String>)
    ensures
        match out {
            Some(text) => command_block(reports@) == Some(text@),
            None => command_block(reports@) is None,
        },
{
    if reports.len() == 0 {
        return None;
    }
    let mut entries: Vec<Vec<char>> = Vec::new();
    let mut k: usize = 0;
    while k < reports.len()
        invariant
            k <= reports@.len(),
            deep(entries@) == all_entries(reports@.take(k as int)),
        decreases reports@.len() - k,
    {
        let ghost before = deep(entries@);
        let mut fresh = reports[k].render_entries();
        let ghost added = deep(fresh@);
        entries.append(&mut fresh);
        k += 1;
        proof {
            let now = reports@.take(k as int);
            assert(now.drop_last() =~= reports@.take(k - 1));
            assert(now.last() == reports@[k - 1]);
            assert(deep(entries@) =~= before + added);
        }
    }
    proof {
        assert(reports@.take(k as int) =~= reports@);
    }
    let text = join_chars(&entries, "\n\n");
    Some(from_chars(text.as_slice()))
}

/// A report of a command that ran and wrote nothing to its standard output
/// shows the placeholder in the place of that output.
pub proof fn lemma_empty_stdout_shows_placeholder(report: CommandReport)
    requires
        !(report.status is SpawnError),
        report.stdout@.len() == 0,
    ensures
        contains_text(report.rendered(), "[stdout]\n"@ + placeholder()),
        forall|k: int|
            0 <= k < report.entries().len() ==> (#[trigger] report.entries()[k]).len() > 0,
{
    let needle = "[stdout]\n"@ + placeholder();
    reveal_strlit("[stdout]\n");
    reveal_strlit("<empty>");
    reveal_strlit("\n\n[stdout]\n");
    reveal_strlit("\n[stdout]\n");
    reveal_strlit("[stderr]\n");
    reveal_strlit("$(");
    let text = report.rendered();
    match report.status {
        CommandStatus::Success => {
            let head = "[section]\n[command]\n"@ + report.command@ + "\n\n"@;
            reveal_strlit("\n\n");
            let first = success_section(report.command@, report.stdout@);
            let at = head.len() as int;
            assert(first.subrange(at, at + needle.len()) =~= needle);
            if report.stderr@.len() == 0 {
                assert(text == first);
            } else {
                let all = report.entries();
                assert(all.drop_last() =~= seq![first]);
                assert(join(all.drop_last(), entry_separator()) == first);
                assert(text == first + entry_separator() + stderr_section(report.stderr@));
                assert(text.subrange(at, at + needle.len()) =~= needle);
            }
        },
        CommandStatus::Failure(code) => {
            let head = "$("@ + report.command@ + ")\n[exit status]\n"@ + "exit status: "@
                + signed_decimal(code as int) + "\n[stderr]\n"@ + shown(report.stderr@) + "\n"@;
            reveal_strlit("\n");
            let at = head.len() as int;
            assert(text == failure_section(
                report.command@,
                code as int,
                report.stderr@,
                report.stdout@,
            ));
            assert(text.subrange(at, at + needle.len()) =~= needle);
        },
        CommandStatus::SpawnError(_) => {},
    }
}

} // verus!
