//! The stream decoder: reads a chat completion that arrives as server-sent
//! events, in chunks cut at arbitrary places, and gathers the content deltas.
//!
//! The decoder holds no terminal and no socket. Its caller hands it each
//! chunk as it arrives and writes out, one by one, the fragments that the
//! call gives back.

use crate::text::{
    concat, copy_range, decode_lossy, find_from, from_chars, has_prefix, lemma_position,
    position, push_all, push_str, same_text, to_chars, trim, trimmed, utf8_lossy, views,
};
use vstd::prelude::*;
use vstd::utf8::{decode_utf8, valid_utf8};

verus! {

/// The error type of `serde_json`.
#[verifier::external_type_specification]
#[verifier::external_body]
pub struct ExJsonError(serde_json::Error);

/// What `serde_json` reads in `payload` at `choices[0].delta.content`:
/// `None` where `payload` is no JSON document, `Some(None)` where the
/// document holds no string at that place, else the string.
pub uninterp spec fn json_delta(payload: Seq<char>) -> Option<Option<Seq<char>>>;

/// Parses `payload` with `serde_json::from_str` into a `serde_json::Value`,
/// and reads the string at `choices[0].delta.content` with the value's index
/// operator and `Value::as_str`. The index operator gives `null` where a key
/// or an element is missing, and `as_str` gives nothing for what is no
/// string. The contract names the outcome as a function of the payload.
#[verifier::external_body]
fn parse_delta(payload: &str) -> (r: Result<Option<String>, serde_json::Error>)
    ensures
        match r {
            Ok(Some(content)) => json_delta(payload@) == Some(Some(content@)),
            Ok(None) => json_delta(payload@) == Some(None::<Seq<char>>),
            Err(_) => json_delta(payload@) is None,
        },
{
    let value: serde_json::Value = serde_json::from_str(payload)?;
    Ok(value["choices"][0]["delta"]["content"].as_str().map(str::to_owned))
}

/// The message of a `serde_json::Error`, as its `Display` writes it.
#[verifier::external_body]
fn describe(error: &serde_json::Error) -> (message: String) {
    error.to_string()
}

/// Why a stream gave no message.
pub enum StreamError {
    /// A data line held no JSON document; the text says what was wrong.
    Malformed(String),
    /// The stream ended before its terminator.
    Incomplete,
}

/// How far a stream has come.
#[derive(PartialEq, Eq, Clone, Copy, Debug, Structural)]
pub enum Phase {
    /// More frames may come.
    Active,
    /// The terminator was read.
    Done,
    /// A malformed frame was read.
    Failed,
}

/// How far a stream has come, with the reason where it failed.
pub enum Progress {
    Active,
    Done,
    Failed(String),
}

impl Progress {
    /// The phase, without the reason.
    pub open spec fn phase(&self) -> Phase {
        match *self {
            Progress::Active => Phase::Active,
            Progress::Done => Phase::Done,
            Progress::Failed(_) => Phase::Failed,
        }
    }

    /// The reason, where the stream has failed.
    pub open spec fn reason(&self) -> Option<Seq<char>> {
        match *self {
            Progress::Failed(reason) => Some(reason@),
            _ => None,
        }
    }
}

/// What one line of the stream is.
pub enum Frame {
    /// A line that carries nothing: blank, or without the data prefix.
    Skip,
    /// The terminator.
    Done,
    /// A data line, with its payload.
    Data(Seq<char>),
}

/// What one line of the stream is, with an owned payload.
pub enum LineKind {
    Skip,
    Done,
    Data(String),
}

impl View for LineKind {
    type V = Frame;

    open spec fn view(&self) -> Frame {
        match *self {
            LineKind::Skip => Frame::Skip,
            LineKind::Done => Frame::Done,
            LineKind::Data(payload) => Frame::Data(payload@),
        }
    }
}

/// The prefix of a data line.
pub open spec fn data_prefix() -> Seq<char> {
    "data:"@
}

/// The payload that ends a stream.
pub open spec fn terminator() -> Seq<char> {
    "[DONE]"@
}

/// What the line `line` is: trimmed, it must begin with the data prefix;
/// what follows the prefix, trimmed again, is the terminator or a payload.
pub open spec fn frame_of(line: Seq<char>) -> Frame {
    let t = trim(line);
    if t.len() == 0 || !data_prefix().is_prefix_of(t) {
        Frame::Skip
    } else {
        let payload = trim(t.skip(data_prefix().len() as int));
        if payload == terminator() {
            Frame::Done
        } else {
            Frame::Data(payload)
        }
    }
}

/// The state of a decoder, as mathematics.
pub struct DecoderView {
    /// The text of the line that is not complete yet.
    pub pending: Seq<char>,
    /// The content deltas, in the order in which they arrived.
    pub deltas: Seq<Seq<char>>,
    /// How far the stream has come.
    pub phase: Phase,
}

/// The state of a decoder before the first chunk.
pub open spec fn initial() -> DecoderView {
    DecoderView { pending: Seq::empty(), deltas: Seq::empty(), phase: Phase::Active }
}

/// The state after a data line whose payload `serde_json` read as `parsed`:
/// a payload that is no JSON fails the stream, a delta that is missing or
/// empty changes nothing, any other delta is added.
pub open spec fn accepted(v: DecoderView, parsed: Option<Option<Seq<char>>>) -> DecoderView {
    match parsed {
        None => DecoderView { pending: Seq::empty(), phase: Phase::Failed, ..v },
        Some(None) => v,
        Some(Some(content)) => if content.len() == 0 {
            v
        } else {
            DecoderView { deltas: v.deltas.push(content), ..v }
        },
    }
}

/// The state after one complete line.
pub open spec fn step_line(v: DecoderView, line: Seq<char>) -> DecoderView {
    match frame_of(line) {
        Frame::Skip => v,
        Frame::Done => DecoderView { pending: Seq::empty(), phase: Phase::Done, ..v },
        Frame::Data(payload) => accepted(v, json_delta(payload)),
    }
}

/// The state after every complete line of the pending text: each line up to
/// a newline is taken off and read, until the text holds no newline or the
/// stream has ended.
pub open spec fn drained(v: DecoderView) -> DecoderView
    decreases v.pending.len(),
{
    let i = position(v.pending, '\n');
    if v.phase == Phase::Active && 0 <= i < v.pending.len() {
        drained(
            step_line(DecoderView { pending: v.pending.skip(i + 1), ..v }, v.pending.take(i)),
        )
    } else {
        v
    }
}

/// The state after the text `text` has arrived. A stream that has ended
/// takes no more text.
pub open spec fn fed(v: DecoderView, text: Seq<char>) -> DecoderView {
    if v.phase == Phase::Active {
        drained(DecoderView { pending: v.pending + text, ..v })
    } else {
        v
    }
}

/// The state after the texts `chunks` have arrived one after the other.
pub open spec fn fed_all(v: DecoderView, chunks: Seq<Seq<char>>) -> DecoderView
    decreases chunks.len(),
{
    if chunks.len() == 0 {
        v
    } else {
        fed(fed_all(v, chunks.drop_last()), chunks.last())
    }
}

/// Whether the state holds no complete line that is still to be read.
pub open spec fn settled(v: DecoderView) -> bool {
    v.phase == Phase::Active ==> position(v.pending, '\n') == v.pending.len()
}

/// The message that the deltas make: their concatenation, in order.
pub open spec fn message(v: DecoderView) -> Seq<char> {
    concat(v.deltas)
}

/// The bytes of `chunks`, one chunk after the other.
pub open spec fn concat_bytes(chunks: Seq<Seq<u8>>) -> Seq<u8>
    decreases chunks.len(),
{
    if chunks.len() == 0 {
        Seq::empty()
    } else {
        concat_bytes(chunks.drop_last()) + chunks.last()
    }
}

/// The text that each of `chunks` encodes.
pub open spec fn decoded(chunks: Seq<Seq<u8>>) -> Seq<Seq<char>> {
    Seq::new(chunks.len(), |k: int| decode_utf8(chunks[k]))
}

/// Reading the complete lines of a text and then taking more text gives
/// what reading both in one piece gives.
pub proof fn lemma_drained_then_fed(w: DecoderView, more: Seq<char>)
    requires
        w.phase == Phase::Active,
    ensures
        fed(drained(w), more) == drained(DecoderView { pending: w.pending + more, ..w }),
    decreases w.pending.len(),
{
    let i = position(w.pending, '\n');
    lemma_position(w.pending, '\n');
    if 0 <= i < w.pending.len() {
        let line = w.pending.take(i);
        let rest = w.pending.skip(i + 1);
        let whole = DecoderView { pending: w.pending + more, ..w };
        assert(position(whole.pending, '\n') == i) by {
            crate::text::lemma_position_unique(whole.pending, '\n', i);
        }
        assert(whole.pending.take(i) =~= line);
        assert(whole.pending.skip(i + 1) =~= rest + more);
        let next = step_line(DecoderView { pending: rest, ..w }, line);
        let whole_next = step_line(DecoderView { pending: rest + more, ..w }, line);
        assert(drained(w) == drained(next));
        assert(drained(whole) == drained(whole_next));
        if next.phase == Phase::Active {
            assert(whole_next == DecoderView { pending: next.pending + more, ..next });
            lemma_drained_then_fed(next, more);
        } else {
            assert(whole_next == next);
        }
    }
}

/// A stream cut in two at any place is read as the stream in one piece.
pub proof fn lemma_split_independent(v: DecoderView, a: Seq<char>, b: Seq<char>)
    ensures
        fed(fed(v, a), b) == fed(v, a + b),
{
    if v.phase == Phase::Active {
        let w = DecoderView { pending: v.pending + a, ..v };
        lemma_drained_then_fed(w, b);
        assert((v.pending + a) + b =~= v.pending + (a + b));
    }
}

/// Once text has been taken, no complete line is left unread.
pub proof fn lemma_drained_settled(v: DecoderView)
    ensures
        settled(drained(v)),
    decreases v.pending.len(),
{
    let i = position(v.pending, '\n');
    lemma_position(v.pending, '\n');
    if v.phase == Phase::Active && 0 <= i < v.pending.len() {
        lemma_drained_settled(
            step_line(DecoderView { pending: v.pending.skip(i + 1), ..v }, v.pending.take(i)),
        );
    }
}

/// Taking text keeps a decoder settled.
pub proof fn lemma_fed_settled(v: DecoderView, text: Seq<char>)
    requires
        settled(v),
    ensures
        settled(fed(v, text)),
{
    if v.phase == Phase::Active {
        lemma_drained_settled(DecoderView { pending: v.pending + text, ..v });
    }
}

/// However a stream is cut into pieces, the decoder ends in the state in
/// which it ends when the stream comes in one piece: the same deltas, the
/// same phase, the same unfinished line.
pub proof fn lemma_chunking_independent(v: DecoderView, chunks: Seq<Seq<char>>)
    requires
        settled(v),
    ensures
        fed_all(v, chunks) == fed(v, concat(chunks)),
    decreases chunks.len(),
{
    if chunks.len() == 0 {
        assert(v.pending + concat(chunks) =~= v.pending);
    } else {
        lemma_chunking_independent(v, chunks.drop_last());
        lemma_split_independent(v, concat(chunks.drop_last()), chunks.last());
    }
}

/// Well-formed UTF-8 decodes piece by piece.
pub proof fn lemma_decode_concat(a: Seq<u8>, b: Seq<u8>)
    requires
        valid_utf8(a),
        valid_utf8(b),
    ensures
        valid_utf8(a + b),
        decode_utf8(a + b) == decode_utf8(a) + decode_utf8(b),
{
    vstd::utf8::valid_utf8_concat(a, b);
    let whole = a + b;
    assert(whole.subrange(0, a.len() as int) =~= a);
    assert(whole.subrange(a.len() as int, whole.len() as int) =~= b);
    lemma_boundary_after_valid(a, b);
    vstd::utf8::decode_utf8_split(whole, a.len() as int);
}

/// The end of a well-formed piece is a character boundary of what it begins.
proof fn lemma_boundary_after_valid(a: Seq<u8>, b: Seq<u8>)
    requires
        valid_utf8(a),
        valid_utf8(b),
        valid_utf8(a + b),
    ensures
        vstd::utf8::is_char_boundary(a + b, a.len() as int),
    decreases a.len(),
{
    if a.len() > 0 {
        let rest = vstd::utf8::pop_first_scalar(a);
        assert(vstd::utf8::pop_first_scalar(a + b) =~= rest + b);
        assert(vstd::utf8::length_of_first_scalar(a + b) == vstd::utf8::length_of_first_scalar(a));
        assert(rest.len() == a.len() - vstd::utf8::length_of_first_scalar(a));
        vstd::utf8::valid_utf8_concat(rest, b);
        lemma_boundary_after_valid(rest, b);
    }
}

/// Well-formed pieces decode to the pieces of what the whole decodes to.
pub proof fn lemma_decode_chunks(chunks: Seq<Seq<u8>>)
    requires
        forall|k: int| 0 <= k < chunks.len() ==> valid_utf8(#[trigger] chunks[k]),
    ensures
        valid_utf8(concat_bytes(chunks)),
        decode_utf8(concat_bytes(chunks)) == concat(decoded(chunks)),
    decreases chunks.len(),
{
    if chunks.len() == 0 {
        assert(decode_utf8(concat_bytes(chunks)) =~= Seq::<char>::empty());
    } else {
        let head = chunks.drop_last();
        lemma_decode_chunks(head);
        lemma_decode_concat(concat_bytes(head), chunks.last());
        assert(decoded(chunks).drop_last() =~= decoded(head));
    }
}

/// A byte stream cut into pieces between characters, anywhere in a line or
/// in a JSON document, is read as the stream in one piece.
pub proof fn lemma_byte_chunking_independent(v: DecoderView, chunks: Seq<Seq<u8>>)
    requires
        settled(v),
        forall|k: int| 0 <= k < chunks.len() ==> valid_utf8(#[trigger] chunks[k]),
    ensures
        fed_all(v, decoded(chunks)) == fed(v, decode_utf8(concat_bytes(chunks))),
{
    lemma_decode_chunks(chunks);
    lemma_chunking_independent(v, decoded(chunks));
}

/// A stream read from its beginning in well-formed pieces, however it is
/// cut, gives what the stream read in one piece gives.
pub proof fn lemma_stream_in_pieces(chunks: Seq<Seq<u8>>)
    requires
        forall|k: int| 0 <= k < chunks.len() ==> valid_utf8(#[trigger] chunks[k]),
    ensures
        fed_all(initial(), decoded(chunks)) == fed(
            initial(),
            decode_utf8(concat_bytes(chunks)),
        ),
        message(fed_all(initial(), decoded(chunks))) == message(
            fed(initial(), decode_utf8(concat_bytes(chunks))),
        ),
{
    assert(position(initial().pending, '\n') == 0);
    lemma_byte_chunking_independent(initial(), chunks);
}

/// Reading lines adds deltas and takes none away.
pub proof fn lemma_drained_keeps_deltas(v: DecoderView)
    ensures
        v.deltas.is_prefix_of(drained(v).deltas),
    decreases v.pending.len(),
{
    let i = position(v.pending, '\n');
    lemma_position(v.pending, '\n');
    if v.phase == Phase::Active && 0 <= i < v.pending.len() {
        let next = step_line(
            DecoderView { pending: v.pending.skip(i + 1), ..v },
            v.pending.take(i),
        );
        lemma_drained_keeps_deltas(next);
        assert(v.deltas.is_prefix_of(next.deltas));
    }
}

/// The message grows at its end only: what was gathered before a piece of
/// text arrived begins what is gathered after it.
pub proof fn lemma_message_grows(v: DecoderView, text: Seq<char>)
    ensures
        v.deltas.is_prefix_of(fed(v, text).deltas),
        message(v).is_prefix_of(message(fed(v, text))),
{
    if v.phase == Phase::Active {
        lemma_drained_keeps_deltas(DecoderView { pending: v.pending + text, ..v });
    }
    lemma_concat_prefix(v.deltas, fed(v, text).deltas);
}

/// The concatenation of the first parts begins the concatenation of all.
pub proof fn lemma_concat_prefix(a: Seq<Seq<char>>, b: Seq<Seq<char>>)
    requires
        a.is_prefix_of(b),
    ensures
        concat(a).is_prefix_of(concat(b)),
    decreases b.len(),
{
    if a.len() == b.len() {
        assert(a =~= b);
    } else {
        assert(a.is_prefix_of(b.drop_last()));
        lemma_concat_prefix(a, b.drop_last());
    }
}

/// A decoder for one streamed response.
pub struct StreamDecoder {
    /// The text of the line that is not complete yet.
    pub pending: Vec<char>,
    /// The content deltas, in the order in which they arrived.
    pub deltas: Vec<String>,
    /// How far the stream has come.
    pub progress: Progress,
}

impl View for StreamDecoder {
    type V = DecoderView;

    open spec fn view(&self) -> DecoderView {
        DecoderView {
            pending: self.pending@,
            deltas: views(self.deltas@),
            phase: self.progress.phase(),
        }
    }
}

/// Reads what the line `line` is.
pub fn classify_line(line: &[char]) -> (kind: LineKind)
    ensures
        kind@ == frame_of(line@),
{
    let t = trimmed(line);
    let prefix = to_chars("data:");
    if t.len() == 0 || !has_prefix(t.as_slice(), prefix.as_slice()) {
        return LineKind::Skip;
    }
    let rest = copy_range(t.as_slice(), prefix.len(), t.len());
    assert(rest@ =~= t@.skip(prefix.len() as int));
    let payload = trimmed(rest.as_slice());
    let done = to_chars("[DONE]");
    if same_text(payload.as_slice(), done.as_slice()) {
        LineKind::Done
    } else {
        LineKind::Data(from_chars(payload.as_slice()))
    }
}

/// The view of what the parser made of a payload.
pub open spec fn parsed_view(parsed: Result<Option<String>, String>) -> Option<
    Option<Seq<char>>,
> {
    match parsed {
        Ok(Some(content)) => Some(Some(content@)),
        Ok(None) => Some(None),
        Err(_) => None,
    }
}

impl StreamDecoder {
    /// A decoder that has seen nothing yet.
    pub fn new() -> (d: StreamDecoder)
        ensures
            d@ == initial(),
    {
        let d = StreamDecoder {
            pending: Vec::new(),
            deltas: Vec::new(),
            progress: Progress::Active,
        };
        assert(d@.deltas =~= initial().deltas);
        d
    }

    /// Whether more frames may come.
    pub fn is_active(&self) -> (r: bool)
        ensures
            r == (self@.phase == Phase::Active),
    {
        match &self.progress {
            Progress::Active => true,
            _ => false,
        }
    }

    /// Whether the terminator was read.
    pub fn is_done(&self) -> (r: bool)
        ensures
            r == (self@.phase == Phase::Done),
    {
        match &self.progress {
            Progress::Done => true,
            _ => false,
        }
    }

    /// Takes what the parser made of the payload of a data line: the delta,
    /// nothing, or the parser's complaint. Gives back the fragment that is
    /// to be written out, if the line brought one. A stream that has ended
    /// takes nothing.
    pub fn accept(&mut self, parsed: Result<Option<String>, String>) -> (emitted: Option<String>)
        ensures
            old(self)@.phase == Phase::Active ==> final(self)@ == accepted(
                old(self)@,
                parsed_view(parsed),
            ),
            old(self)@.phase != Phase::Active ==> final(self)@ == old(self)@ && emitted is None,
            match emitted {
                Some(fragment) => fragment@.len() > 0 && final(self)@.deltas == old(
                    self,
                )@.deltas.push(fragment@),
                None => final(self)@.deltas == old(self)@.deltas,
            },
            old(self)@.phase == Phase::Active ==> match parsed {
                Err(reason) => final(self).progress.reason() == Some(reason@),
                _ => final(self).progress.reason() is None,
            },
            old(self)@.phase != Phase::Active ==> final(self).progress.reason() == old(
                self,
            ).progress.reason(),
    {
        if !self.is_active() {
            return None;
        }
        match parsed {
            Ok(Some(content)) => {
                if content.as_str().is_empty() {
                    None
                } else {
                    let ghost before = views(self.deltas@);
                    let fragment = content.clone();
                    self.deltas.push(content);
                    assert(views(self.deltas@) =~= before.push(fragment@));
                    Some(fragment)
                }
            },
            Ok(None) => None,
            Err(reason) => {
                self.pending = Vec::new();
                self.progress = Progress::Failed(reason);
                None
            },
        }
    }

    /// Reads one complete line of the stream. Gives back the fragment that
    /// is to be written out, if the line brought one. A stream that has
    /// ended takes nothing.
    pub fn accept_line(&mut self, line: &[char]) -> (emitted: Option<String>)
        ensures
            old(self)@.phase == Phase::Active ==> final(self)@ == step_line(old(self)@, line@),
            old(self)@.phase != Phase::Active ==> final(self)@ == old(self)@ && emitted is None,
            match emitted {
                Some(fragment) => fragment@.len() > 0 && final(self)@.deltas == old(
                    self,
                )@.deltas.push(fragment@),
                None => final(self)@.deltas == old(self)@.deltas,
            },
    {
        if !self.is_active() {
            return None;
        }
        match classify_line(line) {
            LineKind::Skip => None,
            LineKind::Done => {
                self.pending = Vec::new();
                self.progress = Progress::Done;
                None
            },
            LineKind::Data(payload) => {
                let parsed = match parse_delta(payload.as_str()) {
                    Ok(delta) => Ok(delta),
                    Err(error) => Err(describe(&error)),
                };
                self.accept(parsed)
            },
        }
    }

    /// Takes the next piece of text of the stream, reads every line that it
    /// completes, and keeps the rest for the next piece. Gives back the
    /// fragments that are to be written out, in order: exactly the deltas
    /// that this piece added.
    pub fn feed_text(&mut self, text: &str) -> (emitted: Vec<String>)
        ensures
            final(self)@ == fed(old(self)@, text@),
            old(self)@.deltas.len() <= final(self)@.deltas.len(),
            final(self)@.deltas == old(self)@.deltas + views(emitted@),
            forall|k: int| 0 <= k < emitted@.len() ==> (#[trigger] emitted@[k])@.len() > 0,
    {
        let mut emitted: Vec<String> = Vec::new();
        assert(old(self)@.deltas + views(emitted@) =~= old(self)@.deltas);
        if !self.is_active() {
            return emitted;
        }
        let mut buf: Vec<char> = Vec::new();
        push_all(&mut buf, self.pending.as_slice());
        push_str(&mut buf, text);
        self.pending = Vec::new();
        let mut start: usize = 0;
        let ghost first = DecoderView { pending: buf@, ..old(self)@ };
        assert(buf@.skip(0) =~= buf@);
        loop
            invariant_except_break
                start <= buf.len(),
                self.pending@.len() == 0,
                self@.phase == Phase::Active,
                drained(first) == drained(
                    DecoderView { pending: buf@.skip(start as int), ..self@ },
                ),
            invariant
                self@.deltas == old(self)@.deltas + views(emitted@),
                forall|k: int| 0 <= k < emitted@.len() ==> (#[trigger] emitted@[k])@.len() > 0,
            ensures
                self@ == drained(first),
                self@.deltas == old(self)@.deltas + views(emitted@),
                forall|k: int| 0 <= k < emitted@.len() ==> (#[trigger] emitted@[k])@.len() > 0,
            decreases buf.len() - start,
        {
            let end = find_from(buf.as_slice(), start, '\n');
            let ghost rest = buf@.skip(start as int);
            let ghost here = DecoderView { pending: rest, ..self@ };
            if end >= buf.len() {
                self.pending = copy_range(buf.as_slice(), start, buf.len());
                proof {
                    assert(self.pending@ =~= rest);
                    assert(self@ == here);
                }
                break ;
            }
            let line = copy_range(buf.as_slice(), start, end);
            proof {
                lemma_position(rest, '\n');
                assert(line@ =~= rest.take(end - start));
                assert(buf@.skip(end + 1) =~= rest.skip(end - start + 1));
            }
            let ghost before = self@;
            let ghost shown = views(emitted@);
            let fragment = self.accept_line(line.as_slice());
            match fragment {
                Some(f) => {
                    emitted.push(f);
                    proof {
                        assert(views(emitted@) =~= shown.push(f@));
                        assert(self@.deltas =~= old(self)@.deltas + views(emitted@));
                    }
                },
                None => {},
            }
            start = end + 1;
            proof {
                let next = DecoderView { pending: buf@.skip(start as int), ..before };
                assert(drained(here) == drained(step_line(next, line@)));
            }
            if !self.is_active() {
                proof {
                    let next = DecoderView { pending: buf@.skip(start as int), ..before };
                    assert(self@ == step_line(next, line@));
                }
                break ;
            }
            proof {
                let next = DecoderView { pending: buf@.skip(start as int), ..before };
                assert(step_line(next, line@) == DecoderView {
                    pending: buf@.skip(start as int),
                    ..self@
                });
            }
        }
        emitted
    }

    /// Takes the next chunk of the stream as it came from the network:
    /// decodes it leniently as UTF-8 and takes the text.
    pub fn feed(&mut self, chunk: &[u8]) -> (emitted: Vec<String>)
        ensures
            final(self)@ == fed(old(self)@, utf8_lossy(chunk@)),
            valid_utf8(chunk@) ==> final(self)@ == fed(old(self)@, decode_utf8(chunk@)),
            final(self)@.deltas == old(self)@.deltas + views(emitted@),
            forall|k: int| 0 <= k < emitted@.len() ==> (#[trigger] emitted@[k])@.len() > 0,
    {
        let text = decode_lossy(chunk);
        self.feed_text(text.as_str())
    }

    /// The outcome once the stream has run out of bytes: the message if the
    /// terminator was read, else the reason why there is none.
    pub fn finish(self) -> (r: Result<String, StreamError>)
        ensures
            match r {
                Ok(content) => self@.phase == Phase::Done && content@ == message(self@),
                Err(StreamError::Incomplete) => self@.phase == Phase::Active,
                Err(StreamError::Malformed(reason)) => self@.phase == Phase::Failed
                    && self.progress.reason() == Some(reason@),
            },
    {
        match self.progress {
            Progress::Done => {
                let mut content: Vec<char> = Vec::new();
                let mut k: usize = 0;
                while k < self.deltas.len()
                    invariant
                        k <= self.deltas@.len(),
                        content@ == concat(views(self.deltas@).take(k as int)),
                    decreases self.deltas@.len() - k,
                {
                    push_str(&mut content, self.deltas[k].as_str());
                    k += 1;
                    proof {
                        let now = views(self.deltas@).take(k as int);
                        assert(now.drop_last() =~= views(self.deltas@).take(k - 1));
                    }
                }
                proof {
                    assert(views(self.deltas@).take(k as int) =~= views(self.deltas@));
                }
                Ok(from_chars(content.as_slice()))
            },
            Progress::Active => Err(StreamError::Incomplete),
            Progress::Failed(reason) => Err(StreamError::Malformed(reason)),
        }
    }
}

} // verus!
