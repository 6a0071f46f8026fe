//! The session loop of the chat, as a state machine.
//!
//! The machine reads nothing and sends nothing. Each of its steps takes
//! what happened outside (a line was read, files were read, commands ran,
//! the model replied) and gives back what is to happen next. The history
//! changes only where a turn has completed, a file was attached, or the
//! user asked for a clean slate.

use crate::args::arguments;
use crate::extract::{cleaned_text, command_texts, commands, extract};
use crate::prompt::{
    chat_prompt, create_prompt, create_translation_prompt, translation_prompt,
};
use crate::report::{command_block, render_reports, CommandReport};
use crate::slash::{
    kind_of, read_line, stream_mode, translation_of, Input, InputKind, SlashCommand,
    TransRequest, TransRequestView,
};
use crate::text::{
    deep, from_chars, is_blank_str, join, join_chars, push_str, trim, views,
};
use crate::trace::{PayloadView, TracePayload};
use crate::utils::current_datetime;
use vstd::prelude::*;

verus! {

/// Who an entry of the history is by.
#[derive(PartialEq, Eq, Clone, Copy, Debug, Structural)]
pub enum Speaker {
    User,
    Assistant,
    /// A file that the user attached.
    Attachment,
}

/// One entry of the conversation.
pub struct HistoryEntry {
    pub speaker: Speaker,
    pub text: String,
}

/// An entry of the conversation over mathematical text.
pub struct EntryView {
    pub speaker: Speaker,
    pub text: Seq<char>,
}

impl View for HistoryEntry {
    type V = EntryView;

    open spec fn view(&self) -> EntryView {
        EntryView { speaker: self.speaker, text: self.text@ }
    }
}

/// The outside work that a slash command waits for.
#[derive(PartialEq, Eq, Clone, Copy, Debug, Structural)]
pub enum SlashWork {
    ReadingFiles,
    Translating,
}

/// Where the loop stands.
#[derive(PartialEq, Eq, Clone, Copy, Debug, Structural)]
pub enum LoopState {
    /// The next line is awaited.
    AwaitingInput,
    /// A slash command waits for its outside work.
    SlashCommand(SlashWork),
    /// A turn waits for a reply that comes in one piece.
    Completing,
    /// A turn waits for a reply that is streamed.
    StreamCompleting,
    /// The session is over.
    Closed,
}

/// What the session is told of its surroundings when it begins.
pub struct Environment {
    /// The user's display name.
    pub username: String,
    /// The user's language.
    pub user_lang: String,
}

/// One chat session.
pub struct Session {
    pub env: Environment,
    /// The conversation so far, oldest entry first.
    pub history: Vec<HistoryEntry>,
    /// What is attached to the next prompt, and to that one only.
    pub pending_attachment: Option<String>,
    /// Whether replies are streamed.
    pub streaming: bool,
    pub state: LoopState,
    /// The user's text of the turn that is under way.
    pub turn: Option<String>,
}

/// A session as mathematics.
pub struct SessionView {
    pub username: Seq<char>,
    pub user_lang: Seq<char>,
    pub history: Seq<EntryView>,
    pub pending: Option<Seq<char>>,
    pub streaming: bool,
    pub state: LoopState,
    pub turn: Option<Seq<char>>,
}

/// The views of the entries of a history.
pub open spec fn entries(history: Seq<HistoryEntry>) -> Seq<EntryView> {
    Seq::new(history.len(), |i: int| history[i]@)
}

/// The view of an optional text.
pub open spec fn text_view(text: Option<String>) -> Option<Seq<char>> {
    match text {
        Some(t) => Some(t@),
        None => None,
    }
}

impl View for Session {
    type V = SessionView;

    open spec fn view(&self) -> SessionView {
        SessionView {
            username: self.env.username@,
            user_lang: self.env.user_lang@,
            history: entries(self.history@),
            pending: text_view(self.pending_attachment),
            streaming: self.streaming,
            state: self.state,
            turn: text_view(self.turn),
        }
    }
}

/// What the caller is to do next.
pub enum Action {
    /// Read the next line.
    Continue,
    /// Clear the screen, then read the next line.
    ClearScreen,
    /// Print the text, then read the next line.
    Print(String),
    /// Read these files, then call `files_read`.
    ReadFiles(Vec<String>),
    /// Evaluate the expression and print what it gives, then read the next
    /// line.
    Evaluate(String),
    /// Ask the model for one reply to this prompt, then call `translated`.
    Translate(String),
    /// Run these commands in order, then call `assemble`.
    RunCommands(Vec<String>),
}

/// An action over mathematical text.
pub enum ActionView {
    Continue,
    ClearScreen,
    Print(Seq<char>),
    ReadFiles(Seq<Seq<char>>),
    Evaluate(Seq<char>),
    Translate(Seq<char>),
    RunCommands(Seq<Seq<char>>),
}

impl View for Action {
    type V = ActionView;

    open spec fn view(&self) -> ActionView {
        match *self {
            Action::Continue => ActionView::Continue,
            Action::ClearScreen => ActionView::ClearScreen,
            Action::Print(text) => ActionView::Print(text@),
            Action::ReadFiles(paths) => ActionView::ReadFiles(views(paths@)),
            Action::Evaluate(expr) => ActionView::Evaluate(expr@),
            Action::Translate(prompt) => ActionView::Translate(prompt@),
            Action::RunCommands(list) => ActionView::RunCommands(views(list@)),
        }
    }
}

/// What reading one file gave.
pub struct FileRead {
    pub path: String,
    /// The content, or why it could not be read.
    pub content: Result<String, String>,
}

/// What reading one file gave, over mathematical text.
pub struct FileReadView {
    pub path: Seq<char>,
    pub content: Result<Seq<char>, Seq<char>>,
}

impl View for FileRead {
    type V = FileReadView;

    open spec fn view(&self) -> FileReadView {
        FileReadView {
            path: self.path@,
            content: match self.content {
                Ok(c) => Ok(c@),
                Err(e) => Err(e@),
            },
        }
    }
}

/// The views of a list of file reads.
pub open spec fn reads_view(reads: Seq<FileRead>) -> Seq<FileReadView> {
    Seq::new(reads.len(), |i: int| reads[i]@)
}

/// A line for the user.
pub struct Notice {
    pub text: String,
    /// Whether the line tells of an error.
    pub is_error: bool,
}

/// A line for the user, over mathematical text.
pub struct NoticeView {
    pub text: Seq<char>,
    pub is_error: bool,
}

impl View for Notice {
    type V = NoticeView;

    open spec fn view(&self) -> NoticeView {
        NoticeView { text: self.text@, is_error: self.is_error }
    }
}

/// The views of a list of notices.
pub open spec fn notices_view(notices: Seq<Notice>) -> Seq<NoticeView> {
    Seq::new(notices.len(), |i: int| notices[i]@)
}

/// A prompt that is ready to go out.
pub struct Request {
    pub prompt: String,
    /// Whether the reply is to be streamed.
    pub stream: bool,
    /// What the trace relay is told of it.
    pub trace: TracePayload,
}

/// A request over mathematical text.
pub struct RequestView {
    pub prompt: Seq<char>,
    pub stream: bool,
}

/// What became of a reply.
pub enum Reply {
    /// The reply stands in the history, or, for a translation, is only
    /// shown. `streamed` tells that the user has seen it already.
    Answer { text: String, streamed: bool, trace: TracePayload },
    /// The call failed and the session is over; the text tells the user.
    Fatal(String),
    /// No reply was awaited.
    Ignored,
}

/// A reply over mathematical text.
pub enum ReplyView {
    Answer { text: Seq<char>, streamed: bool },
    Fatal(Seq<char>),
    Ignored,
}

impl View for Reply {
    type V = ReplyView;

    open spec fn view(&self) -> ReplyView {
        match *self {
            Reply::Answer { text, streamed, trace } => ReplyView::Answer { text: text@, streamed },
            Reply::Fatal(text) => ReplyView::Fatal(text@),
            Reply::Ignored => ReplyView::Ignored,
        }
    }
}

/// The help text.
pub open spec fn help_text() -> Seq<char> {
    "\nCommands:\n/help  Show this help message\n/clean Clear chat history\n/add   Attach file contents to chat context\n/trans Translate text (uses LLM)\n/eval  Evaluate arithmetic expression\n/stream [on|off] Toggle streaming output\n"@
}

/// The usage line of `/add`.
pub open spec fn add_usage() -> Seq<char> {
    "\nUsage: /add <path> [path2 path3 ...]"@
}

/// The usage line of `/trans`.
pub open spec fn trans_usage() -> Seq<char> {
    "\nUsage: /trans [INPUT_LANG:OUTPUT_LANG] <text>"@
}

/// What `/stream` answers.
pub open spec fn stream_notice(mode: Option<bool>) -> Seq<char> {
    match mode {
        Some(true) => "\nstream: on"@,
        Some(false) => "\nstream: off"@,
        None => "\nUsage: /stream on|off"@,
    }
}

/// What a failed call tells the user.
pub open spec fn failure_notice(reason: Seq<char>) -> Seq<char> {
    "AI error: "@ + reason
}

/// The line of the dialogue that an entry makes.
pub open spec fn entry_line(e: EntryView, username: Seq<char>) -> Seq<char> {
    match e.speaker {
        Speaker::User => username + ": "@ + e.text,
        Speaker::Assistant => "Assistant: "@ + e.text + "\n"@,
        Speaker::Attachment => "Attachment: "@ + e.text + "\n"@,
    }
}

/// The lines of the dialogue, oldest first.
pub open spec fn dialog_lines(history: Seq<EntryView>, username: Seq<char>) -> Seq<Seq<char>> {
    Seq::new(history.len(), |i: int| entry_line(history[i], username))
}

/// The dialogue so far as one text, a newline between two entries.
pub open spec fn dialog(history: Seq<EntryView>, username: Seq<char>) -> Seq<char> {
    join(dialog_lines(history, username), "\n"@)
}

/// The text after the name of a slash command.
pub open spec fn after(t: Seq<char>, name: Seq<char>) -> Seq<char> {
    t.skip(name.len() as int)
}

/// Whether a turn is under way.
pub open spec fn in_turn(v: SessionView) -> bool {
    (v.state == LoopState::Completing || v.state == LoopState::StreamCompleting) && v.turn is Some
}

/// The session after the line `line` was read. A session that does not
/// await input takes no line.
pub open spec fn submitted(v: SessionView, line: Seq<char>) -> SessionView {
    let t = trim(line);
    if v.state != LoopState::AwaitingInput {
        v
    } else {
        match kind_of(t) {
            InputKind::Blank | InputKind::Help | InputKind::Eval => v,
            InputKind::Clean => SessionView { history: Seq::empty(), ..v },
            InputKind::Add => if arguments(trim(after(t, "/add"@))).len() > 0 {
                SessionView { state: LoopState::SlashCommand(SlashWork::ReadingFiles), ..v }
            } else {
                v
            },
            InputKind::Stream => match stream_mode(after(t, "/stream"@)) {
                Some(on) => SessionView { streaming: on, ..v },
                None => v,
            },
            InputKind::Trans => match translation_of(after(t, "/trans"@)) {
                TransRequestView::Text { .. } => SessionView {
                    state: LoopState::SlashCommand(SlashWork::Translating),
                    ..v
                },
                _ => v,
            },
            InputKind::Message => SessionView {
                state: if v.streaming {
                    LoopState::StreamCompleting
                } else {
                    LoopState::Completing
                },
                turn: Some(cleaned_text(t)),
                ..v
            },
        }
    }
}

/// What is to happen after the line `line` was read.
pub open spec fn submit_action(v: SessionView, line: Seq<char>) -> ActionView {
    let t = trim(line);
    if v.state != LoopState::AwaitingInput {
        ActionView::Continue
    } else {
        match kind_of(t) {
            InputKind::Blank => ActionView::Continue,
            InputKind::Clean => ActionView::ClearScreen,
            InputKind::Help => ActionView::Print(help_text()),
            InputKind::Add => {
                let paths = arguments(trim(after(t, "/add"@)));
                if paths.len() > 0 {
                    ActionView::ReadFiles(paths)
                } else {
                    ActionView::Print(add_usage())
                }
            },
            InputKind::Stream => ActionView::Print(
                stream_notice(stream_mode(after(t, "/stream"@))),
            ),
            InputKind::Trans => match translation_of(after(t, "/trans"@)) {
                TransRequestView::Usage => ActionView::Print(trans_usage()),
                TransRequestView::Empty => ActionView::Continue,
                TransRequestView::Text { source, target, text } => {
                    let into = match target {
                        Some(lang) => lang,
                        None => v.user_lang,
                    };
                    ActionView::Translate(translation_prompt(source, into, into, text))
                },
            },
            InputKind::Eval => {
                let expr = trim(cleaned_text(after(t, "/eval"@)));
                if expr.len() > 0 {
                    ActionView::Evaluate(expr)
                } else {
                    ActionView::Continue
                }
            },
            InputKind::Message => ActionView::RunCommands(commands(t)),
        }
    }
}

/// What the files that were read add to the next prompt.
pub open spec fn attachment_of(reads: Seq<FileReadView>) -> Seq<char>
    decreases reads.len(),
{
    if reads.len() == 0 {
        Seq::empty()
    } else {
        let last = reads.last();
        attachment_of(reads.drop_last()) + match last.content {
            Ok(content) => "\n-- FILE: "@ + last.path + " --\n"@ + content + "\n"@,
            Err(_) => Seq::empty(),
        }
    }
}

/// What the files that were read add to the history.
pub open spec fn records_of(reads: Seq<FileReadView>) -> Seq<EntryView>
    decreases reads.len(),
{
    if reads.len() == 0 {
        Seq::empty()
    } else {
        let last = reads.last();
        records_of(reads.drop_last()) + match last.content {
            Ok(content) => seq![
                EntryView { speaker: Speaker::Attachment, text: last.path + "\n"@ + content },
            ],
            Err(_) => Seq::empty(),
        }
    }
}

/// What the user is told of one file.
pub open spec fn notice_of(read: FileReadView) -> NoticeView {
    match read.content {
        Ok(_) => NoticeView { text: "\nadded: "@ + read.path, is_error: false },
        Err(reason) => NoticeView {
            text: "\nError reading "@ + read.path + ": "@ + reason,
            is_error: true,
        },
    }
}

/// What the user is told of the files, one notice for each.
pub open spec fn notices_of(reads: Seq<FileReadView>) -> Seq<NoticeView> {
    Seq::new(reads.len(), |i: int| notice_of(reads[i]))
}

/// The session after the files of `/add` were read: each file that could be
/// read stands in the history, and together they are what is attached to the
/// next prompt; where none could be read, what was attached before stays.
pub open spec fn files_added(v: SessionView, reads: Seq<FileReadView>) -> SessionView {
    if v.state == LoopState::SlashCommand(SlashWork::ReadingFiles) {
        SessionView {
            history: v.history + records_of(reads),
            pending: if attachment_of(reads).len() > 0 {
                Some(attachment_of(reads))
            } else {
                v.pending
            },
            state: LoopState::AwaitingInput,
            ..v
        }
    } else {
        v
    }
}

/// The prompt of the turn that is under way.
pub open spec fn request_of(v: SessionView, block: Option<Seq<char>>, datetime: Seq<char>) -> Option<
    RequestView,
> {
    if in_turn(v) {
        Some(
            RequestView {
                prompt: chat_prompt(
                    v.username,
                    datetime,
                    v.user_lang,
                    dialog(v.history, v.username),
                    v.turn->0,
                    block,
                    v.pending,
                ),
                stream: v.state == LoopState::StreamCompleting,
            },
        )
    } else {
        None
    }
}

/// The session after the prompt of its turn was assembled: what was
/// attached is used up.
pub open spec fn assembled(v: SessionView) -> SessionView {
    if in_turn(v) {
        SessionView { pending: None, ..v }
    } else {
        v
    }
}

/// The session after the model was heard from: a reply completes the turn,
/// which then stands in the history; a failure ends the session.
pub open spec fn completed(v: SessionView, result: Result<Seq<char>, Seq<char>>) -> SessionView {
    if in_turn(v) {
        match result {
            Ok(text) => SessionView {
                history: v.history.push(
                    EntryView { speaker: Speaker::User, text: v.turn->0 },
                ).push(EntryView { speaker: Speaker::Assistant, text }),
                state: LoopState::AwaitingInput,
                turn: None,
                ..v
            },
            Err(_) => SessionView { state: LoopState::Closed, turn: None, ..v },
        }
    } else {
        v
    }
}

/// What became of the reply to a turn.
pub open spec fn completion_reply(
    v: SessionView,
    result: Result<Seq<char>, Seq<char>>,
) -> ReplyView {
    if in_turn(v) {
        match result {
            Ok(text) => ReplyView::Answer {
                text,
                streamed: v.state == LoopState::StreamCompleting,
            },
            Err(reason) => ReplyView::Fatal(failure_notice(reason)),
        }
    } else {
        ReplyView::Ignored
    }
}

/// The session after the model was heard from about a translation.
pub open spec fn translation_done(
    v: SessionView,
    result: Result<Seq<char>, Seq<char>>,
) -> SessionView {
    if v.state == LoopState::SlashCommand(SlashWork::Translating) {
        match result {
            Ok(_) => SessionView { state: LoopState::AwaitingInput, ..v },
            Err(_) => SessionView { state: LoopState::Closed, ..v },
        }
    } else {
        v
    }
}

/// What became of the reply to a translation.
pub open spec fn translation_reply(
    v: SessionView,
    result: Result<Seq<char>, Seq<char>>,
) -> ReplyView {
    if v.state == LoopState::SlashCommand(SlashWork::Translating) {
        match result {
            Ok(text) => ReplyView::Answer { text, streamed: false },
            Err(reason) => ReplyView::Fatal(failure_notice(reason)),
        }
    } else {
        ReplyView::Ignored
    }
}

/// The view of what the model gave.
pub open spec fn result_view(result: Result<String, String>) -> Result<Seq<char>, Seq<char>> {
    match result {
        Ok(text) => Ok(text@),
        Err(reason) => Err(reason@),
    }
}

/// The line `/clean` is the command to clean.
pub proof fn lemma_clean_line()
    ensures
        kind_of(trim("/clean"@)) == InputKind::Clean,
{
    reveal_strlit("/clean");
    let t = "/clean"@;
    assert(crate::text::trim_start(t) == t);
    assert(crate::text::trim_end(t) == t);
}

/// Asking for a clean slate twice in a row leaves what asking once leaves:
/// the same session, with an empty history.
pub proof fn lemma_clean_idempotent(v: SessionView, first: Seq<char>, second: Seq<char>)
    requires
        kind_of(trim(first)) == InputKind::Clean,
        kind_of(trim(second)) == InputKind::Clean,
    ensures
        submitted(submitted(v, first), second) == submitted(v, first),
        v.state == LoopState::AwaitingInput ==> submitted(v, first).history == Seq::<
            EntryView,
        >::empty(),
        submitted(v, first) == (SessionView { history: submitted(v, first).history, ..v }),
{
}

/// No line but the command to clean changes the history, and no line
/// changes what is attached.
pub proof fn lemma_lines_keep_history(v: SessionView, line: Seq<char>)
    ensures
        kind_of(trim(line)) != InputKind::Clean ==> submitted(v, line).history == v.history,
        submitted(v, line).pending == v.pending,
        submitted(v, line).history == v.history || submitted(v, line).history.len() == 0,
{
}

/// A slash command begins no turn: only a message makes the session wait
/// for a reply of the model to a turn.
pub proof fn lemma_slash_commands_begin_no_turn(v: SessionView, line: Seq<char>)
    requires
        v.state == LoopState::AwaitingInput,
        kind_of(trim(line)) != InputKind::Message,
    ensures
        !in_turn(submitted(v, line)),
        submitted(v, line).state == LoopState::AwaitingInput || submitted(v, line).state
            is SlashCommand,
{
}

/// A turn that fails leaves no trace in the history, and ends the session.
pub proof fn lemma_failed_turn_keeps_history(v: SessionView, reason: Seq<char>)
    ensures
        completed(v, Err(reason)).history == v.history,
        in_turn(v) ==> completed(v, Err(reason)).state == LoopState::Closed,
{
}

/// What is attached goes into one prompt and no further: the prompt that is
/// assembled next holds it, and once that is assembled nothing is attached.
pub proof fn lemma_attachment_used_once(
    v: SessionView,
    block: Option<Seq<char>>,
    datetime: Seq<char>,
)
    requires
        in_turn(v),
    ensures
        assembled(v).pending is None,
        assembled(assembled(v)) == assembled(v),
        request_of(v, block, datetime)->0.prompt == chat_prompt(
            v.username,
            datetime,
            v.user_lang,
            dialog(v.history, v.username),
            v.turn->0,
            block,
            v.pending,
        ),
        request_of(assembled(v), block, datetime)->0.prompt == chat_prompt(
            v.username,
            datetime,
            v.user_lang,
            dialog(v.history, v.username),
            v.turn->0,
            block,
            None,
        ),
{
}

/// A whole turn: a message is read, its prompt is assembled, the model
/// replies. The session then awaits input again, the history has grown by
/// the user's text without its commands and by the reply, in that order, and
/// nothing is attached any more.
pub proof fn lemma_turn(v: SessionView, line: Seq<char>, reply: Seq<char>)
    requires
        v.state == LoopState::AwaitingInput,
        kind_of(trim(line)) == InputKind::Message,
    ensures
        completed(assembled(submitted(v, line)), Ok(reply)) == (SessionView {
            history: v.history.push(
                EntryView { speaker: Speaker::User, text: cleaned_text(trim(line)) },
            ).push(EntryView { speaker: Speaker::Assistant, text: reply }),
            pending: None,
            turn: None,
            ..v
        }),
{
}

/// The history is never reordered and never loses an entry but by the
/// command to clean: whatever the session is told, what it held stays at the
/// front, in order, or the history is empty.
pub proof fn lemma_history_only_grows(
    v: SessionView,
    line: Seq<char>,
    reads: Seq<FileReadView>,
    result: Result<Seq<char>, Seq<char>>,
)
    ensures
        v.history.is_prefix_of(submitted(v, line).history) || (kind_of(trim(line))
            == InputKind::Clean && submitted(v, line).history.len() == 0),
        v.history.is_prefix_of(files_added(v, reads).history),
        assembled(v).history == v.history,
        v.history.is_prefix_of(completed(v, result).history),
        translation_done(v, result).history == v.history,
{
}

/// Whether state and turn agree: the session holds the user's text of a
/// turn exactly while it waits for the reply to one.
pub open spec fn coherent(v: SessionView) -> bool {
    (v.state == LoopState::Completing || v.state == LoopState::StreamCompleting) <==> v.turn
        is Some
}

/// State and turn agree from the first line on: no step of the session
/// makes them disagree.
pub proof fn lemma_steps_keep_coherence(
    v: SessionView,
    line: Seq<char>,
    reads: Seq<FileReadView>,
    result: Result<Seq<char>, Seq<char>>,
)
    requires
        coherent(v),
    ensures
        coherent(submitted(v, line)),
        coherent(files_added(v, reads)),
        coherent(assembled(v)),
        coherent(completed(v, result)),
        coherent(translation_done(v, result)),
        coherent(SessionView { state: LoopState::Closed, turn: None, ..v }),
{
}

/// A session that is over stays over, whatever it is told.
pub proof fn lemma_closed_is_final(
    v: SessionView,
    line: Seq<char>,
    reads: Seq<FileReadView>,
    result: Result<Seq<char>, Seq<char>>,
)
    requires
        v.state == LoopState::Closed,
    ensures
        submitted(v, line) == v,
        files_added(v, reads) == v,
        assembled(v) == v,
        completed(v, result) == v,
        translation_done(v, result) == v,
{
}

/// The text that tells the user of a failed call.
fn fatal_text(reason: &str) -> (out: String)
    ensures
        out@ == failure_notice(reason@),
{
    let mut out: Vec<char> = Vec::new();
    push_str(&mut out, "AI error: ");
    push_str(&mut out, reason);
    from_chars(out.as_slice())
}

impl Session {
    /// A session that begins with an empty history. Piped input that is not
    /// blank is attached to the first prompt.
    pub fn new(env: Environment, piped: String) -> (s: Session)
        ensures
            s@ == (SessionView {
                username: env.username@,
                user_lang: env.user_lang@,
                history: Seq::empty(),
                pending: if trim(piped@).len() == 0 {
                    None
                } else {
                    Some(piped@)
                },
                streaming: false,
                state: LoopState::AwaitingInput,
                turn: None,
            }),
            coherent(s@),
    {
        let pending = if is_blank_str(piped.as_str()) {
            None
        } else {
            Some(piped)
        };
        let s = Session {
            env,
            history: Vec::new(),
            pending_attachment: pending,
            streaming: false,
            state: LoopState::AwaitingInput,
            turn: None,
        };
        assert(s@.history =~= Seq::empty());
        s
    }

    /// Whether the session is over.
    pub fn is_closed(&self) -> (r: bool)
        ensures
            r == (self@.state == LoopState::Closed),
    {
        match self.state {
            LoopState::Closed => true,
            _ => false,
        }
    }

    /// The dialogue so far as one text.
    pub fn dialog(&self) -> (out: String)
        ensures
            out@ == dialog(self@.history, self@.username),
    {
        let mut lines: Vec<Vec<char>> = Vec::new();
        let mut i: usize = 0;
        while i < self.history.len()
            invariant
                i <= self.history@.len(),
                deep(lines@) == dialog_lines(self@.history, self@.username).take(i as int),
            decreases self.history@.len() - i,
        {
            let entry = &self.history[i];
            let mut line: Vec<char> = Vec::new();
            match entry.speaker {
                Speaker::User => {
                    push_str(&mut line, self.env.username.as_str());
                    push_str(&mut line, ": ");
                    push_str(&mut line, entry.text.as_str());
                },
                Speaker::Assistant => {
                    push_str(&mut line, "Assistant: ");
                    push_str(&mut line, entry.text.as_str());
                    push_str(&mut line, "\n");
                },
                Speaker::Attachment => {
                    push_str(&mut line, "Attachment: ");
                    push_str(&mut line, entry.text.as_str());
                    push_str(&mut line, "\n");
                },
            }
            let ghost before = deep(lines@);
            lines.push(line);
            i += 1;
            proof {
                let all = dialog_lines(self@.history, self@.username);
                assert(line@ == all[i - 1]);
                assert(deep(lines@) =~= before.push(line@));
                assert(all.take(i as int) =~= all.take(i - 1).push(all[i - 1]));
            }
        }
        proof {
            let all = dialog_lines(self@.history, self@.username);
            assert(all.take(i as int) =~= all);
        }
        let text = join_chars(&lines, "\n");
        from_chars(text.as_slice())
    }

    /// Takes one line of input and says what is to happen next.
    pub fn submit(&mut self, line: &str) -> (action: Action)
        ensures
            final(self)@ == submitted(old(self)@, line@),
            action@ == submit_action(old(self)@, line@),
    {
        match self.state {
            LoopState::AwaitingInput => {},
            _ => {
                return Action::Continue;
            },
        }
        match read_line(line) {
            Input::Blank => Action::Continue,
            Input::Command(SlashCommand::Clean) => {
                self.history = Vec::new();
                assert(self@.history =~= Seq::empty());
                Action::ClearScreen
            },
            Input::Command(SlashCommand::Help) => Action::Print(
                "\nCommands:\n/help  Show this help message\n/clean Clear chat history\n/add   Attach file contents to chat context\n/trans Translate text (uses LLM)\n/eval  Evaluate arithmetic expression\n/stream [on|off] Toggle streaming output\n".to_owned(),
            ),
            Input::Command(SlashCommand::Add { paths }) => {
                if paths.len() > 0 {
                    self.state = LoopState::SlashCommand(SlashWork::ReadingFiles);
                    Action::ReadFiles(paths)
                } else {
                    Action::Print("\nUsage: /add <path> [path2 path3 ...]".to_owned())
                }
            },
            Input::Command(SlashCommand::Stream { mode }) => match mode {
                Some(true) => {
                    self.streaming = true;
                    Action::Print("\nstream: on".to_owned())
                },
                Some(false) => {
                    self.streaming = false;
                    Action::Print("\nstream: off".to_owned())
                },
                None => Action::Print("\nUsage: /stream on|off".to_owned()),
            },
            Input::Command(SlashCommand::Trans { request }) => match request {
                TransRequest::Usage => Action::Print(
                    "\nUsage: /trans [INPUT_LANG:OUTPUT_LANG] <text>".to_owned(),
                ),
                TransRequest::Empty => Action::Continue,
                TransRequest::Text { source, target, text } => {
                    let into: &str = match &target {
                        Some(lang) => lang.as_str(),
                        None => self.env.user_lang.as_str(),
                    };
                    let from: Option<&str> = match &source {
                        Some(lang) => Some(lang.as_str()),
                        None => None,
                    };
                    let prompt = create_translation_prompt(from, into, into, text.as_str());
                    self.state = LoopState::SlashCommand(SlashWork::Translating);
                    Action::Translate(prompt)
                },
            },
            Input::Command(SlashCommand::Eval { expr }) => {
                if expr.as_str().is_empty() {
                    Action::Continue
                } else {
                    Action::Evaluate(expr)
                }
            },
            Input::Message(text) => {
                let extraction = extract(text.as_str());
                let found = extraction.commands;
                let mut list: Vec<String> = Vec::new();
                let mut k: usize = 0;
                while k < found.len()
                    invariant
                        k <= found@.len(),
                        views(list@) == command_texts(found@).take(k as int),
                    decreases found@.len() - k,
                {
                    let ghost before = views(list@);
                    list.push(found[k].raw_text.clone());
                    k += 1;
                    proof {
                        let all = command_texts(found@);
                        assert(views(list@) =~= before.push(all[k - 1]));
                        assert(all.take(k as int) =~= all.take(k - 1).push(all[k - 1]));
                    }
                }
                proof {
                    assert(command_texts(found@).take(k as int) =~= command_texts(found@));
                }
                self.state = if self.streaming {
                    LoopState::StreamCompleting
                } else {
                    LoopState::Completing
                };
                self.turn = Some(extraction.cleaned_text);
                Action::RunCommands(list)
            },
        }
    }

    /// Takes what reading the files of `/add` gave, and says what the user
    /// is to be told of each file. Where no files were awaited, nothing
    /// changes.
    pub fn files_read(&mut self, reads: Vec<FileRead>) -> (notices: Vec<Notice>)
        ensures
            final(self)@ == files_added(old(self)@, reads_view(reads@)),
            old(self)@.state == LoopState::SlashCommand(SlashWork::ReadingFiles) ==> notices_view(
                notices@,
            ) == notices_of(reads_view(reads@)),
            old(self)@.state != LoopState::SlashCommand(SlashWork::ReadingFiles)
                ==> notices@.len() == 0,
    {
        let mut notices: Vec<Notice> = Vec::new();
        match self.state {
            LoopState::SlashCommand(SlashWork::ReadingFiles) => {},
            _ => {
                return notices;
            },
        }
        let ghost all = reads_view(reads@);
        let mut attachment: Vec<char> = Vec::new();
        let mut i: usize = 0;
        assert(all.take(0) =~= Seq::<FileReadView>::empty());
        assert(entries(self.history@) + records_of(all.take(0)) =~= entries(self.history@));
        while i < reads.len()
            invariant
                i <= reads@.len(),
                all == reads_view(reads@),
                attachment@ == attachment_of(all.take(i as int)),
                entries(self.history@) == old(self)@.history + records_of(all.take(i as int)),
                notices_view(notices@) == notices_of(all).take(i as int),
                self.env == old(self).env,
                self.pending_attachment == old(self).pending_attachment,
                self.streaming == old(self).streaming,
                self.state == old(self).state,
                self.turn == old(self).turn,
            decreases reads@.len() - i,
        {
            let read = &reads[i];
            let ghost told = notices_view(notices@);
            let ghost known = entries(self.history@);
            let mut text: Vec<char> = Vec::new();
            match &read.content {
                Ok(content) => {
                    push_str(&mut attachment, "\n-- FILE: ");
                    push_str(&mut attachment, read.path.as_str());
                    push_str(&mut attachment, " --\n");
                    push_str(&mut attachment, content.as_str());
                    push_str(&mut attachment, "\n");
                    let mut record: Vec<char> = Vec::new();
                    push_str(&mut record, read.path.as_str());
                    push_str(&mut record, "\n");
                    push_str(&mut record, content.as_str());
                    let entry = HistoryEntry {
                        speaker: Speaker::Attachment,
                        text: from_chars(record.as_slice()),
                    };
                    self.history.push(entry);
                    push_str(&mut text, "\nadded: ");
                    push_str(&mut text, read.path.as_str());
                    notices.push(Notice { text: from_chars(text.as_slice()), is_error: false });
                    proof {
                        assert(entries(self.history@) =~= known.push(entry@));
                    }
                },
                Err(reason) => {
                    push_str(&mut text, "\nError reading ");
                    push_str(&mut text, read.path.as_str());
                    push_str(&mut text, ": ");
                    push_str(&mut text, reason.as_str());
                    notices.push(Notice { text: from_chars(text.as_slice()), is_error: true });
                },
            }
            i += 1;
            proof {
                let now = all.take(i as int);
                assert(now.drop_last() =~= all.take(i - 1));
                assert(now.last() == all[i - 1]);
                assert(all[i - 1] == reads@[i - 1]@);
                assert(notices_view(notices@) =~= told.push(notice_of(all[i - 1])));
                assert(notices_of(all).take(i as int) =~= notices_of(all).take(i - 1).push(
                    notice_of(all[i - 1]),
                ));
                assert(entries(self.history@) =~= old(self)@.history + records_of(now));
            }
        }
        proof {
            assert(all.take(i as int) =~= all);
            assert(notices_of(all).take(i as int) =~= notices_of(all));
        }
        if attachment.len() > 0 {
            self.pending_attachment = Some(from_chars(attachment.as_slice()));
        }
        self.state = LoopState::AwaitingInput;
        notices
    }

    /// Assembles the prompt of the turn that is under way, from the history,
    /// what is attached, the reports of the turn's commands, and the user's
    /// text. What was attached is used up. Where no turn is under way,
    /// nothing is assembled and nothing changes.
    pub fn assemble(&mut self, reports: &Vec<CommandReport>, datetime: &str) -> (request: Option<
        Request,
    >)
        ensures
            final(self)@ == assembled(old(self)@),
            match request {
                Some(r) => {
                    &&& request_of(old(self)@, command_block(reports@), datetime@) == Some(
                        RequestView { prompt: r.prompt@, stream: r.stream },
                    )
                    &&& r.trace@ == (PayloadView { kind: "REQUEST"@, body: r.prompt@ })
                },
                None => request_of(old(self)@, command_block(reports@), datetime@) is None,
            },
    {
        let stream = match self.state {
            LoopState::Completing => false,
            LoopState::StreamCompleting => true,
            _ => {
                return None;
            },
        };
        let text: &str = match &self.turn {
            Some(t) => t.as_str(),
            None => {
                return None;
            },
        };
        let block = render_reports(reports);
        let output: Option<&str> = match &block {
            Some(b) => Some(b.as_str()),
            None => None,
        };
        let attached: Option<&str> = match &self.pending_attachment {
            Some(a) => Some(a.as_str()),
            None => None,
        };
        let history = self.dialog();
        let prompt = create_prompt(
            self.env.username.as_str(),
            datetime,
            self.env.user_lang.as_str(),
            history.as_str(),
            text,
            output,
            attached,
        );
        self.pending_attachment = None;
        let trace = TracePayload::request(prompt.as_str());
        Some(Request { prompt, stream, trace })
    }

    /// Assembles the prompt of the turn that is under way, dated now.
    pub fn assemble_now(&mut self, reports: &Vec<CommandReport>) -> (request: Option<Request>)
        ensures
            final(self)@ == assembled(old(self)@),
            request is Some <==> in_turn(old(self)@),
            request matches Some(r) ==> exists|datetime: Seq<char>|
                request_of(old(self)@, command_block(reports@), datetime) == Some(
                    RequestView { prompt: r.prompt@, stream: r.stream },
                ),
    {
        let datetime = current_datetime();
        self.assemble(reports, datetime.as_str())
    }

    /// Takes what the model gave for the turn that is under way. A reply
    /// puts the turn into the history; a failure ends the session and
    /// leaves the history as it was. Where no turn is under way, nothing
    /// changes.
    pub fn complete(&mut self, result: Result<String, String>) -> (reply: Reply)
        ensures
            final(self)@ == completed(old(self)@, result_view(result)),
            reply@ == completion_reply(old(self)@, result_view(result)),
            reply matches Reply::Answer { text, trace, .. } ==> trace@ == (PayloadView {
                kind: "RESPONSE"@,
                body: text@,
            }),
    {
        let streamed = match self.state {
            LoopState::Completing => false,
            LoopState::StreamCompleting => true,
            _ => {
                return Reply::Ignored;
            },
        };
        let asked = match self.turn.take() {
            Some(t) => t,
            None => {
                return Reply::Ignored;
            },
        };
        match result {
            Ok(text) => {
                let ghost known = entries(self.history@);
                let user = HistoryEntry { speaker: Speaker::User, text: asked };
                let model = HistoryEntry { speaker: Speaker::Assistant, text: text.clone() };
                self.history.push(user);
                self.history.push(model);
                proof {
                    assert(entries(self.history@) =~= known.push(user@).push(model@));
                }
                self.state = LoopState::AwaitingInput;
                let trace = TracePayload::response(text.as_str());
                Reply::Answer { text, streamed, trace }
            },
            Err(reason) => {
                self.state = LoopState::Closed;
                Reply::Fatal(fatal_text(reason.as_str()))
            },
        }
    }

    /// Takes what the model gave for a translation. A reply is shown and
    /// leaves the history alone; a failure ends the session. Where no
    /// translation was awaited, nothing changes.
    pub fn translated(&mut self, result: Result<String, String>) -> (reply: Reply)
        ensures
            final(self)@ == translation_done(old(self)@, result_view(result)),
            reply@ == translation_reply(old(self)@, result_view(result)),
            reply matches Reply::Answer { text, trace, .. } ==> trace@ == (PayloadView {
                kind: "RESPONSE"@,
                body: text@,
            }),
    {
        match self.state {
            LoopState::SlashCommand(SlashWork::Translating) => {},
            _ => {
                return Reply::Ignored;
            },
        }
        match result {
            Ok(text) => {
                self.state = LoopState::AwaitingInput;
                let trace = TracePayload::response(text.as_str());
                Reply::Answer { text, streamed: false, trace }
            },
            Err(reason) => {
                self.state = LoopState::Closed;
                Reply::Fatal(fatal_text(reason.as_str()))
            },
        }
    }

    /// Ends the session: the input has ended, or the user has interrupted.
    pub fn close(&mut self)
        ensures
            final(self)@ == (SessionView { state: LoopState::Closed, turn: None, ..old(self)@ }),
    {
        self.state = LoopState::Closed;
        self.turn = None;
    }
}

} // verus!
