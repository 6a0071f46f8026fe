//! The slash commands of the chat: a closed set, recognised by the text
//! that a line begins with.

use crate::args::{arguments, split_args};
use crate::extract::{cleaned_text, strip_inline_commands};
use crate::text::{
    copy_range, from_chars, has_prefix, is_space, is_whitespace, position, find_from, same_text,
    to_chars, trim, trim_str, trimmed, views,
};
use vstd::prelude::*;

verus! {

/// What kind of input a line is, once trimmed.
#[derive(PartialEq, Eq, Clone, Copy, Debug, Structural)]
pub enum InputKind {
    Blank,
    Clean,
    Help,
    Add,
    Stream,
    Trans,
    Eval,
    Message,
}

/// What `/trans` was asked to do.
pub enum TransRequest {
    /// No text was given: the usage line is due.
    Usage,
    /// A language pair was given, and no text after it.
    Empty,
    /// Translate `text`, from `source` into `target` where they are named.
    Text { source: Option<String>, target: Option<String>, text: String },
}

/// A `/trans` request over mathematical text.
pub enum TransRequestView {
    Usage,
    Empty,
    Text { source: Option<Seq<char>>, target: Option<Seq<char>>, text: Seq<char> },
}

impl View for TransRequest {
    type V = TransRequestView;

    open spec fn view(&self) -> TransRequestView {
        match *self {
            TransRequest::Usage => TransRequestView::Usage,
            TransRequest::Empty => TransRequestView::Empty,
            TransRequest::Text { source, target, text } => TransRequestView::Text {
                source: match source {
                    Some(s) => Some(s@),
                    None => None,
                },
                target: match target {
                    Some(s) => Some(s@),
                    None => None,
                },
                text: text@,
            },
        }
    }
}

/// A slash command with its arguments.
pub enum SlashCommand {
    /// `/clean`
    Clean,
    /// `/help`
    Help,
    /// `/add <path>...`; without a path the usage line is due.
    Add { paths: Vec<String> },
    /// `/stream on|off`; with anything else the usage line is due.
    Stream { mode: Option<bool> },
    /// `/trans [source:target] <text>`
    Trans { request: TransRequest },
    /// `/eval <expression>`; the expression may be empty.
    Eval { expr: String },
}

/// One line of input, read.
pub enum Input {
    /// Nothing but whitespace.
    Blank,
    /// A slash command.
    Command(SlashCommand),
    /// A message for the model: the line, trimmed.
    Message(String),
}

/// The kind of a trimmed line. `/clean` and `/help` are whole lines; the
/// other commands are recognised by how the line begins.
pub open spec fn kind_of(t: Seq<char>) -> InputKind {
    if t.len() == 0 {
        InputKind::Blank
    } else if t == "/clean"@ {
        InputKind::Clean
    } else if t == "/help"@ {
        InputKind::Help
    } else if "/add"@.is_prefix_of(t) {
        InputKind::Add
    } else if "/stream"@.is_prefix_of(t) {
        InputKind::Stream
    } else if "/trans"@.is_prefix_of(t) {
        InputKind::Trans
    } else if "/eval"@.is_prefix_of(t) {
        InputKind::Eval
    } else {
        InputKind::Message
    }
}

/// `c` in lower case where it is an ASCII capital, else `c`.
pub open spec fn lower_ascii(c: char) -> char {
    if 'A' <= c <= 'Z' {
        ((c as u8) + 32) as char
    } else {
        c
    }
}

/// `s` with its ASCII capitals in lower case.
pub open spec fn lowered(s: Seq<char>) -> Seq<char> {
    Seq::new(s.len(), |i: int| lower_ascii(s[i]))
}

/// The mode that `/stream` names: on, off, or neither.
pub open spec fn stream_mode(rest: Seq<char>) -> Option<bool> {
    let mode = lowered(trim(rest));
    if mode == "on"@ {
        Some(true)
    } else if mode == "off"@ {
        Some(false)
    } else {
        None
    }
}

/// The index of the first whitespace in `s`, or `s.len()`.
pub open spec fn first_space(s: Seq<char>) -> int
    decreases s.len(),
{
    if s.len() == 0 || is_space(s[0]) {
        0
    } else {
        1 + first_space(s.skip(1))
    }
}

/// `first_space` finds the first whitespace and none before it.
pub proof fn lemma_first_space(s: Seq<char>)
    ensures
        0 <= first_space(s) <= s.len(),
        first_space(s) < s.len() ==> is_space(s[first_space(s)]),
        forall|j: int| 0 <= j < first_space(s) ==> !is_space(s[j]),
    decreases s.len(),
{
    if s.len() == 0 || is_space(s[0]) {
    } else {
        lemma_first_space(s.skip(1));
        let p = first_space(s.skip(1));
        assert forall|j: int| 0 <= j < 1 + p implies !is_space(s[j]) by {
            if j > 0 {
                assert(s.skip(1)[j - 1] == s[j]);
            }
        }
    }
}

/// A position with whitespace at it and none before it is `first_space(s)`.
pub proof fn lemma_first_space_unique(s: Seq<char>, p: int)
    requires
        0 <= p <= s.len(),
        p < s.len() ==> is_space(s[p]),
        forall|j: int| 0 <= j < p ==> !is_space(s[j]),
    ensures
        first_space(s) == p,
{
    lemma_first_space(s);
    let q = first_space(s);
    if q < p {
        assert(!is_space(s[q]));
    } else if p < q {
        assert(is_space(s[p]));
    }
}

/// Whether `c` may stand in a language pair.
pub open spec fn is_tag_char(c: char) -> bool {
    ('a' <= c <= 'z') || ('A' <= c <= 'Z') || ('0' <= c <= '9') || c == '_' || c == '-' || c
        == ':'
}

/// Whether `word` is a language pair: a colon in it, and nothing but
/// letters, digits, `_`, `-` and `:`.
pub open spec fn is_language_pair(word: Seq<char>) -> bool {
    &&& position(word, ':') < word.len()
    &&& forall|i: int| 0 <= i < word.len() ==> is_tag_char(#[trigger] word[i])
}

/// `s`, or nothing where `s` is empty.
pub open spec fn nonempty(s: Seq<char>) -> Option<Seq<char>> {
    if s.len() == 0 {
        None
    } else {
        Some(s)
    }
}

/// What `/trans` is asked to do by the text after it. Embedded commands are
/// cut out first. A first word that is a language pair naming at least one
/// language is taken off the text.
pub open spec fn translation_of(rest: Seq<char>) -> TransRequestView {
    let raw = trim(cleaned_text(rest));
    let w = first_space(raw);
    let word = raw.take(w);
    let source = nonempty(word.take(position(word, ':')));
    let target = nonempty(word.skip(position(word, ':') + 1));
    if raw.len() == 0 {
        TransRequestView::Usage
    } else if is_language_pair(word) && (source is Some || target is Some) {
        let text = if w < raw.len() {
            trim(raw.skip(w + 1))
        } else {
            Seq::empty()
        };
        if text.len() == 0 {
            TransRequestView::Empty
        } else {
            TransRequestView::Text { source, target, text }
        }
    } else {
        TransRequestView::Text { source: None, target: None, text: raw }
    }
}

/// Whether `input` is what `line` reads as.
pub open spec fn is_reading_of(input: Input, line: Seq<char>) -> bool {
    let t = trim(line);
    match input {
        Input::Blank => kind_of(t) == InputKind::Blank,
        Input::Command(SlashCommand::Clean) => kind_of(t) == InputKind::Clean,
        Input::Command(SlashCommand::Help) => kind_of(t) == InputKind::Help,
        Input::Command(SlashCommand::Add { paths }) => {
            &&& kind_of(t) == InputKind::Add
            &&& views(paths@) == arguments(trim(t.skip("/add"@.len() as int)))
        },
        Input::Command(SlashCommand::Stream { mode }) => {
            &&& kind_of(t) == InputKind::Stream
            &&& mode == stream_mode(t.skip("/stream"@.len() as int))
        },
        Input::Command(SlashCommand::Trans { request }) => {
            &&& kind_of(t) == InputKind::Trans
            &&& request@ == translation_of(t.skip("/trans"@.len() as int))
        },
        Input::Command(SlashCommand::Eval { expr }) => {
            &&& kind_of(t) == InputKind::Eval
            &&& expr@ == trim(cleaned_text(t.skip("/eval"@.len() as int)))
        },
        Input::Message(text) => kind_of(t) == InputKind::Message && text@ == t,
    }
}

/// `c` in lower case where it is an ASCII capital, else `c`.
fn to_lower_ascii(c: char) -> (r: char)
    ensures
        r == lower_ascii(c),
{
    if 'A' <= c && c <= 'Z' {
        ((c as u8) + 32) as char
    } else {
        c
    }
}

/// Reads the mode that `/stream` names.
fn read_stream_mode(rest: &[char]) -> (mode: Option<bool>)
    ensures
        mode == stream_mode(rest@),
{
    let t = trimmed(rest);
    let mut low: Vec<char> = Vec::new();
    let mut i: usize = 0;
    while i < t.len()
        invariant
            i <= t.len(),
            low@ == lowered(t@).take(i as int),
        decreases t.len() - i,
    {
        low.push(to_lower_ascii(t[i]));
        i += 1;
        assert(lowered(t@).take(i as int) =~= lowered(t@).take(i - 1).push(lower_ascii(t@[i - 1])));
    }
    assert(lowered(t@).take(t.len() as int) =~= lowered(t@));
    let on = to_chars("on");
    let off = to_chars("off");
    if same_text(low.as_slice(), on.as_slice()) {
        Some(true)
    } else if same_text(low.as_slice(), off.as_slice()) {
        Some(false)
    } else {
        None
    }
}

/// Whether `c` may stand in a language pair.
fn tag_char(c: char) -> (r: bool)
    ensures
        r == is_tag_char(c),
{
    ('a' <= c && c <= 'z') || ('A' <= c && c <= 'Z') || ('0' <= c && c <= '9') || c == '_' || c
        == '-' || c == ':'
}

/// The index of the first whitespace in `v`, or `v.len()`.
fn find_space(v: &[char]) -> (k: usize)
    ensures
        k == first_space(v@),
        k <= v.len(),
{
    let mut k: usize = 0;
    while k < v.len() && !is_whitespace(v[k])
        invariant
            k <= v.len(),
            forall|j: int| 0 <= j < k ==> !is_space(v@[j]),
        decreases v.len() - k,
    {
        k += 1;
    }
    proof {
        lemma_first_space_unique(v@, k as int);
    }
    k
}

/// A string of `v`, or nothing where `v` is empty.
fn nonempty_string(v: &[char]) -> (r: Option<String>)
    ensures
        match r {
            Some(s) => nonempty(v@) == Some(s@),
            None => nonempty(v@) is None,
        },
{
    if v.len() == 0 {
        None
    } else {
        Some(from_chars(v))
    }
}

/// Reads what `/trans` is asked to do by the text after it.
pub fn read_translation(rest: &str) -> (request: TransRequest)
    ensures
        request@ == translation_of(rest@),
{
    let stripped = strip_inline_commands(rest);
    let raw = trim_str(stripped.as_str());
    if raw.len() == 0 {
        return TransRequest::Usage;
    }
    let w = find_space(raw.as_slice());
    let word = copy_range(raw.as_slice(), 0, w);
    assert(word@ =~= raw@.take(w as int));
    let colon = find_from(word.as_slice(), 0, ':');
    assert(word@.skip(0) =~= word@);
    let mut all_tag: bool = true;
    let mut i: usize = 0;
    while i < word.len()
        invariant
            i <= word.len(),
            all_tag == (forall|j: int| 0 <= j < i ==> is_tag_char(#[trigger] word@[j])),
        decreases word.len() - i,
    {
        if !tag_char(word[i]) {
            all_tag = false;
        }
        i += 1;
    }
    if colon < word.len() && all_tag {
        let before = copy_range(word.as_slice(), 0, colon);
        let after = copy_range(word.as_slice(), colon + 1, word.len());
        assert(before@ =~= word@.take(colon as int));
        assert(after@ =~= word@.skip(colon + 1));
        let source = nonempty_string(before.as_slice());
        let target = nonempty_string(after.as_slice());
        if source.is_some() || target.is_some() {
            if w == raw.len() {
                return TransRequest::Empty;
            }
            let tail = after_prefix(raw.as_slice(), w + 1);
            let text = trimmed(tail.as_slice());
            if text.len() == 0 {
                return TransRequest::Empty;
            }
            return TransRequest::Text { source, target, text: from_chars(text.as_slice()) };
        }
    }
    TransRequest::Text { source: None, target: None, text: from_chars(raw.as_slice()) }
}

/// The characters of `v` after its first `n`.
fn after_prefix(v: &[char], n: usize) -> (out: Vec<char>)
    requires
        n <= v.len(),
    ensures
        out@ == v@.skip(n as int),
{
    let out = copy_range(v, n, v.len());
    assert(v@.subrange(n as int, v.len() as int) =~= v@.skip(n as int));
    out
}

/// Reads one line of input.
pub fn read_line(line: &str) -> (input: Input)
    ensures
        is_reading_of(input, line@),
{
    let t = trim_str(line);
    let clean = to_chars("/clean");
    let help = to_chars("/help");
    let add = to_chars("/add");
    let stream = to_chars("/stream");
    let trans = to_chars("/trans");
    let eval = to_chars("/eval");
    if t.len() == 0 {
        Input::Blank
    } else if same_text(t.as_slice(), clean.as_slice()) {
        Input::Command(SlashCommand::Clean)
    } else if same_text(t.as_slice(), help.as_slice()) {
        Input::Command(SlashCommand::Help)
    } else if has_prefix(t.as_slice(), add.as_slice()) {
        let rest = after_prefix(t.as_slice(), add.len());
        let given = trimmed(rest.as_slice());
        let paths = split_args(from_chars(given.as_slice()).as_str());
        Input::Command(SlashCommand::Add { paths })
    } else if has_prefix(t.as_slice(), stream.as_slice()) {
        let rest = after_prefix(t.as_slice(), stream.len());
        Input::Command(SlashCommand::Stream { mode: read_stream_mode(rest.as_slice()) })
    } else if has_prefix(t.as_slice(), trans.as_slice()) {
        let rest = after_prefix(t.as_slice(), trans.len());
        let request = read_translation(from_chars(rest.as_slice()).as_str());
        Input::Command(SlashCommand::Trans { request })
    } else if has_prefix(t.as_slice(), eval.as_slice()) {
        let rest = after_prefix(t.as_slice(), eval.len());
        let stripped = strip_inline_commands(from_chars(rest.as_slice()).as_str());
        let expr = trim_str(stripped.as_str());
        Input::Command(SlashCommand::Eval { expr: from_chars(expr.as_slice()) })
    } else {
        Input::Message(from_chars(t.as_slice()))
    }
}

} // verus!
