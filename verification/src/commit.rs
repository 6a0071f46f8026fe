//! The commit message task: the prompt that asks for a message, the
//! repository status that goes into it, and the form of what comes back.

use crate::report::Captured;
use crate::text::{
    contains_chars, contains_text, copy_range, decode_lossy, deep, find_from, from_chars, join,
    join_chars, lemma_position, lemma_position_unique, lemma_trim_end_settles, lines_of,
    position, push_all, push_str, split_lines, to_chars, trim_end, trim_end_len, utf8_lossy,
    views,
};
use crate::utils::upper_ascii;
use vstd::prelude::*;

verus! {

/// The fixed texts of the commit prompt.
pub struct CommitPrompts {
    /// What the model is to do.
    pub instruction: String,
    /// The convention that commit messages follow.
    pub convention: String,
    /// The skeleton of a commit message.
    pub skeleton: String,
}

/// One command of the repository status, with what running it gave.
pub struct Ran {
    pub command: String,
    pub captured: Captured,
}

/// `s` with its ASCII small letters as capitals.
pub open spec fn upper_text(s: Seq<char>) -> Seq<char> {
    Seq::new(s.len(), |i: int| upper_ascii(s[i]))
}

/// A section of the prompt: the content between a start line and an end
/// line that bear the title in capitals.
pub open spec fn section(title: Seq<char>, content: Seq<char>) -> Seq<char> {
    ":: START "@ + upper_text(title) + " ::\n"@ + content + "\n:: END "@ + upper_text(title)
        + " ::"@
}

/// What stands between two sections.
pub open spec fn section_gap() -> Seq<char> {
    "\n\n"@
}

/// The sections of the commit prompt, in order.
pub open spec fn commit_sections(
    hint: Option<Seq<char>>,
    instruction: Seq<char>,
    convention: Seq<char>,
    skeleton: Seq<char>,
    status: Seq<char>,
) -> Seq<Seq<char>> {
    seq![
        section("INSTRUCTION"@, instruction),
        section("CONVENTION"@, convention),
        section("SKELETON"@, skeleton),
        section("PROJECT CONTEXT"@, "repository context"@),
        section(
            "USER HINT"@,
            match hint {
                Some(h) => h,
                None => Seq::empty(),
            },
        ),
        section("REPOSITORY STATUS"@, status),
    ]
}

/// The commit prompt.
pub open spec fn commit_prompt(
    hint: Option<Seq<char>>,
    instruction: Seq<char>,
    convention: Seq<char>,
    skeleton: Seq<char>,
    status: Seq<char>,
) -> Seq<char> {
    join(commit_sections(hint, instruction, convention, skeleton, status), section_gap())
}

/// `text` as a comment: `# ` before each of its lines.
pub open spec fn commented(text: Seq<char>) -> Seq<char> {
    join(comment_lines(lines_of(text)), "\n"@)
}

/// Each of `lines` after `# `.
pub open spec fn comment_lines(lines: Seq<Seq<char>>) -> Seq<Seq<char>> {
    Seq::new(lines.len(), |i: int| "# "@ + lines[i])
}

/// The section that tells of a command that ran: what it wrote to its
/// standard output and then to its standard error, without trailing
/// whitespace.
pub open spec fn output_section(command: Seq<char>, stdout: Seq<char>, stderr: Seq<char>) -> Seq<
    char,
> {
    "[section]\n[command]\n"@ + command + "\n[output]\n"@ + trim_end(stdout + stderr)
        + "\n[end section]"@
}

/// The section that tells of a command that could not be started.
pub open spec fn failed_section(command: Seq<char>, reason: Seq<char>) -> Seq<char> {
    "[section]\n[command]\n"@ + command + "\n[error]\n"@ + reason + "\n[end section]"@
}

impl Ran {
    /// The section that tells of this command. What the command wrote is
    /// decoded leniently.
    pub open spec fn section(&self) -> Seq<char> {
        match self.captured {
            Captured::Output { stdout, stderr, code } => output_section(
                self.command@,
                utf8_lossy(stdout@),
                utf8_lossy(stderr@),
            ),
            Captured::SpawnError(reason) => failed_section(self.command@, reason@),
        }
    }
}

/// The sections of a list of commands, in order.
pub open spec fn sections_of(runs: Seq<Ran>) -> Seq<Seq<char>> {
    Seq::new(runs.len(), |i: int| runs[i].section())
}

/// The commands that tell the state of the repository, in the order in
/// which they run.
pub open spec fn status_command_list() -> Seq<Seq<char>> {
    seq![
        "cat $(find . -type f -name 'README.md' -not -path '*/target/*' -not -path '*/docs/*' | xargs -I {} realpath {})"@,
        "git branch -v"@,
        "git remote -v"@,
        "git log --stat -1"@,
        "git status -s"@,
        "git status"@,
        "git diff --cached --quiet && echo 'No staged changes' || echo 'Staged changes present' && git diff --staged"@,
    ]
}

/// The commit message in its normal form: without trailing whitespace, and
/// with an empty line after the first line where more lines follow.
pub open spec fn normalized(message: Seq<char>) -> Seq<char> {
    let t = trim_end(message);
    let i = position(t, '\n');
    if 0 <= i && i + 1 < t.len() && t[i + 1] != '\n' {
        t.take(i) + "\n\n"@ + t.skip(i + 1)
    } else {
        t
    }
}

/// What the model says where nothing is staged.
pub open spec fn nothing_staged() -> Seq<char> {
    "Error: no changes staged for commit"@
}

/// What is shown for the model's reply: the message in its normal form;
/// after it, unless the reply tells that nothing is staged, the convention
/// as a comment.
pub open spec fn commit_output(reply: Seq<char>, convention: Seq<char>) -> Seq<char> {
    let message = normalized(reply);
    if contains_text(message, nothing_staged()) {
        message
    } else {
        trim_end(message) + "\n\n\n"@ + commented(convention)
    }
}

/// A message in its normal form stays as it is when it is brought into
/// normal form again.
pub proof fn lemma_normalized_idempotent(message: Seq<char>)
    ensures
        normalized(normalized(message)) == normalized(message),
{
    let t = trim_end(message);
    lemma_trim_end_settles(message);
    let i = position(t, '\n');
    lemma_position(t, '\n');
    if 0 <= i && i + 1 < t.len() && t[i + 1] != '\n' {
        reveal_strlit("\n\n");
        let r = t.take(i) + "\n\n"@ + t.skip(i + 1);
        assert(r.last() == t.last());
        assert(trim_end(r) == r);
        assert(r[i] == '\n');
        assert(r[i + 1] == '\n');
        lemma_position_unique(r, '\n', i);
    } else {
        assert(trim_end(t) == t);
    }
}

/// Appends `title` in capitals to `dst`.
fn push_upper(dst: &mut Vec<char>, title: &str)
    ensures
        final(dst)@ == old(dst)@ + upper_text(title@),
{
    let v = to_chars(title);
    let mut i: usize = 0;
    while i < v.len()
        invariant
            i <= v.len(),
            dst@ == old(dst)@ + upper_text(v@).take(i as int),
        decreases v.len() - i,
    {
        let c = v[i];
        let upper: char = if 'a' <= c && c <= 'z' {
            ((c as u8) - 32) as char
        } else {
            c
        };
        dst.push(upper);
        i += 1;
        assert(upper_text(v@).take(i as int) =~= upper_text(v@).take(i - 1).push(upper));
    }
    assert(upper_text(v@).take(v.len() as int) =~= upper_text(v@));
}

/// Wraps `content` as the section `title` of the prompt.
fn cover(title: &str, content: &str) -> (out: Vec<char>)
    ensures
        out@ == section(title@, content@),
{
    let mut out: Vec<char> = Vec::new();
    push_str(&mut out, ":: START ");
    push_upper(&mut out, title);
    push_str(&mut out, " ::\n");
    push_str(&mut out, content);
    push_str(&mut out, "\n:: END ");
    push_upper(&mut out, title);
    push_str(&mut out, " ::");
    out
}

/// Builds the commit prompt from the user's hint, the fixed texts and the
/// repository status.
pub fn generate(hint: Option<&str>, prompts: &CommitPrompts, status: &str) -> (out: String)
    ensures
        out@ == commit_prompt(
            match hint {
                Some(h) => Some(h@),
                None => None,
            },
            prompts.instruction@,
            prompts.convention@,
            prompts.skeleton@,
            status@,
        ),
{
    let user_hint: &str = match hint {
        Some(h) => h,
        None => "",
    };
    proof {
        reveal_strlit("");
        assert(""@ =~= Seq::<char>::empty());
    }
    let mut sections: Vec<Vec<char>> = Vec::new();
    sections.push(cover("INSTRUCTION", prompts.instruction.as_str()));
    sections.push(cover("CONVENTION", prompts.convention.as_str()));
    sections.push(cover("SKELETON", prompts.skeleton.as_str()));
    sections.push(cover("PROJECT CONTEXT", "repository context"));
    sections.push(cover("USER HINT", user_hint));
    sections.push(cover("REPOSITORY STATUS", status));
    proof {
        assert(deep(sections@) =~= commit_sections(
            match hint {
                Some(h) => Some(h@),
                None => None,
            },
            prompts.instruction@,
            prompts.convention@,
            prompts.skeleton@,
            status@,
        ));
    }
    let text = join_chars(&sections, "\n\n");
    from_chars(text.as_slice())
}

/// Writes `text` as a comment.
pub fn comment(text: &str) -> (out: String)
    ensures
        out@ == commented(text@),
{
    let v = to_chars(text);
    let lines = split_lines(v.as_slice());
    let mut marked: Vec<Vec<char>> = Vec::new();
    let mut i: usize = 0;
    while i < lines.len()
        invariant
            i <= lines@.len(),
            deep(marked@) == comment_lines(deep(lines@)).take(i as int),
        decreases lines@.len() - i,
    {
        let mut line: Vec<char> = Vec::new();
        push_str(&mut line, "# ");
        push_all(&mut line, lines[i].as_slice());
        let ghost before = deep(marked@);
        marked.push(line);
        i += 1;
        proof {
            let all = comment_lines(deep(lines@));
            assert(deep(marked@) =~= before.push(all[i - 1]));
            assert(all.take(i as int) =~= all.take(i - 1).push(all[i - 1]));
        }
    }
    proof {
        assert(comment_lines(deep(lines@)).take(i as int) =~= comment_lines(deep(lines@)));
    }
    let joined = join_chars(&marked, "\n");
    from_chars(joined.as_slice())
}

/// The commands that tell the state of the repository.
pub fn status_commands() -> (out: Vec<String>)
    ensures
        views(out@) == status_command_list(),
{
    let mut out: Vec<String> = Vec::new();
    out.push(
        "cat $(find . -type f -name 'README.md' -not -path '*/target/*' -not -path '*/docs/*' | xargs -I {} realpath {})".to_owned(),
    );
    out.push("git branch -v".to_owned());
    out.push("git remote -v".to_owned());
    out.push("git log --stat -1".to_owned());
    out.push("git status -s".to_owned());
    out.push("git status".to_owned());
    out.push(
        "git diff --cached --quiet && echo 'No staged changes' || echo 'Staged changes present' && git diff --staged".to_owned(),
    );
    assert(views(out@) =~= status_command_list());
    out
}

/// Writes the section that tells of a command that ran.
pub fn render_output_section(command: &str, stdout: &str, stderr: &str) -> (out: Vec<char>)
    ensures
        out@ == output_section(command@, stdout@, stderr@),
{
    let mut combined: Vec<char> = Vec::new();
    push_str(&mut combined, stdout);
    push_str(&mut combined, stderr);
    let kept = trim_end_len(combined.as_slice());
    combined.truncate(kept);
    let mut out: Vec<char> = Vec::new();
    push_str(&mut out, "[section]\n[command]\n");
    push_str(&mut out, command);
    push_str(&mut out, "\n[output]\n");
    push_all(&mut out, combined.as_slice());
    push_str(&mut out, "\n[end section]");
    out
}

/// Writes the section that tells of a command that could not be started.
pub fn render_failed_section(command: &str, reason: &str) -> (out: Vec<char>)
    ensures
        out@ == failed_section(command@, reason@),
{
    let mut out: Vec<char> = Vec::new();
    push_str(&mut out, "[section]\n[command]\n");
    push_str(&mut out, command);
    push_str(&mut out, "\n[error]\n");
    push_str(&mut out, reason);
    push_str(&mut out, "\n[end section]");
    out
}

/// Writes the repository status: one section for each command, in order,
/// with an empty line between two.
pub fn render_status(runs: &Vec<Ran>) -> (out: String)
    ensures
        out@ == join(sections_of(runs@), section_gap()),
{
    let mut sections: Vec<Vec<char>> = Vec::new();
    let mut i: usize = 0;
    while i < runs.len()
        invariant
            i <= runs@.len(),
            deep(sections@) == sections_of(runs@).take(i as int),
        decreases runs@.len() - i,
    {
        let run = &runs[i];
        let part = match &run.captured {
            Captured::Output { stdout, stderr, code } => {
                let out_text = decode_lossy(stdout.as_slice());
                let err_text = decode_lossy(stderr.as_slice());
                render_output_section(run.command.as_str(), out_text.as_str(), err_text.as_str())
            },
            Captured::SpawnError(reason) => render_failed_section(
                run.command.as_str(),
                reason.as_str(),
            ),
        };
        let ghost before = deep(sections@);
        sections.push(part);
        i += 1;
        proof {
            let all = sections_of(runs@);
            assert(deep(sections@) =~= before.push(all[i - 1]));
            assert(all.take(i as int) =~= all.take(i - 1).push(all[i - 1]));
        }
    }
    proof {
        assert(sections_of(runs@).take(i as int) =~= sections_of(runs@));
    }
    let text = join_chars(&sections, "\n\n");
    from_chars(text.as_slice())
}

/// Brings a commit message into its normal form.
fn normalize_chars(message: &[char]) -> (out: Vec<char>)
    ensures
        out@ == normalized(message@),
{
    let kept = trim_end_len(message);
    let t = copy_range(message, 0, kept);
    assert(t@ =~= trim_end(message@));
    let i = find_from(t.as_slice(), 0, '\n');
    assert(t@.skip(0) =~= t@);
    if i < t.len() && i + 1 < t.len() && t[i + 1] != '\n' {
        let mut out = copy_range(t.as_slice(), 0, i);
        push_str(&mut out, "\n\n");
        let rest = copy_range(t.as_slice(), i + 1, t.len());
        push_all(&mut out, rest.as_slice());
        proof {
            assert(t@.subrange(0, i as int) =~= t@.take(i as int));
            assert(t@.subrange(i + 1, t.len() as int) =~= t@.skip(i + 1));
        }
        out
    } else {
        t
    }
}

/// Brings a commit message into its normal form.
pub fn normalize_commit_message(message: &str) -> (out: String)
    ensures
        out@ == normalized(message@),
{
    let v = to_chars(message);
    let out = normalize_chars(v.as_slice());
    from_chars(out.as_slice())
}

/// Writes what is shown for the model's reply to the commit prompt.
pub fn render_commit_output(reply: &str, convention: &str) -> (out: String)
    ensures
        out@ == commit_output(reply@, convention@),
{
    let v = to_chars(reply);
    let message = normalize_chars(v.as_slice());
    let marker = to_chars("Error: no changes staged for commit");
    if contains_chars(message.as_slice(), marker.as_slice()) {
        return from_chars(message.as_slice());
    }
    let kept = trim_end_len(message.as_slice());
    let mut out = copy_range(message.as_slice(), 0, kept);
    assert(out@ =~= trim_end(message@));
    push_str(&mut out, "\n\n\n");
    let notes = comment(convention);
    push_str(&mut out, notes.as_str());
    from_chars(out.as_slice())
}

} // verus!
