//! The trace relay: the payloads that the session hands to it, where it
//! listens, and what its server prints for each datagram.

use crate::text::{
    copy_range, decimal, decimal_chars, decode_lossy, find_from, from_chars, is_set,
    lemma_position_unique, position, push_all, push_str, setting, text_of, to_chars, trim,
    utf8_lossy,
};
use crate::utils::current_datetime;
use vstd::prelude::*;

verus! {

/// One request or response on its way to the relay.
pub struct TracePayload {
    /// What kind of traffic this is, `REQUEST` or `RESPONSE`.
    pub kind: String,
    /// The traffic itself.
    pub body: String,
}

/// A payload over mathematical text.
pub struct PayloadView {
    pub kind: Seq<char>,
    pub body: Seq<char>,
}

impl View for TracePayload {
    type V = PayloadView;

    open spec fn view(&self) -> PayloadView {
        PayloadView { kind: self.kind@, body: self.body@ }
    }
}

/// The text of a datagram that carries `p`: the kind, a newline, the body.
pub open spec fn encoded(p: PayloadView) -> Seq<char> {
    p.kind + seq!['\n'] + p.body
}

/// The payload that the text of a datagram carries: the kind up to the
/// first newline, the body after it. A text without a newline is all kind.
pub open spec fn parsed(message: Seq<char>) -> PayloadView {
    let i = position(message, '\n');
    if 0 <= i < message.len() {
        PayloadView { kind: message.take(i), body: message.skip(i + 1) }
    } else {
        PayloadView { kind: message, body: Seq::empty() }
    }
}

/// A payload whose kind holds no newline comes out of its datagram as it
/// went in.
pub proof fn lemma_payload_round_trip(p: PayloadView)
    requires
        forall|i: int| 0 <= i < p.kind.len() ==> p.kind[i] != '\n',
    ensures
        parsed(encoded(p)) == p,
{
    let message = encoded(p);
    lemma_position_unique(message, '\n', p.kind.len() as int);
    assert(message.take(p.kind.len() as int) =~= p.kind);
    assert(message.skip(p.kind.len() as int + 1) =~= p.body);
}

impl TracePayload {
    /// The payload for a prompt on its way to the model.
    pub fn request(body: &str) -> (p: TracePayload)
        ensures
            p@ == (PayloadView { kind: "REQUEST"@, body: body@ }),
    {
        TracePayload { kind: "REQUEST".to_owned(), body: body.to_owned() }
    }

    /// The payload for a reply of the model.
    pub fn response(body: &str) -> (p: TracePayload)
        ensures
            p@ == (PayloadView { kind: "RESPONSE"@, body: body@ }),
    {
        TracePayload { kind: "RESPONSE".to_owned(), body: body.to_owned() }
    }

    /// The text of the datagram that carries this payload.
    pub fn encode(&self) -> (out: String)
        ensures
            out@ == encoded(self@),
    {
        let mut out: Vec<char> = Vec::new();
        push_str(&mut out, self.kind.as_str());
        out.push('\n');
        push_str(&mut out, self.body.as_str());
        from_chars(out.as_slice())
    }

    /// Reads the payload that the text of a datagram carries.
    pub fn parse(message: &str) -> (p: TracePayload)
        ensures
            p@ == parsed(message@),
    {
        let v = to_chars(message);
        let i = find_from(v.as_slice(), 0, '\n');
        assert(v@.skip(0) =~= v@);
        if i < v.len() {
            let kind = copy_range(v.as_slice(), 0, i);
            let body = copy_range(v.as_slice(), i + 1, v.len());
            assert(kind@ =~= v@.take(i as int));
            assert(body@ =~= v@.skip(i + 1));
            TracePayload { kind: from_chars(kind.as_slice()), body: from_chars(body.as_slice()) }
        } else {
            TracePayload { kind: message.to_owned(), body: String::new() }
        }
    }
}

/// Where the relay listens.
pub enum TraceEndpoint {
    /// At this path.
    Path(String),
    /// At the file `name` in the directory `dir`.
    InDirectory { dir: String, name: String },
}

/// Where the relay listens, over mathematical text.
pub enum EndpointView {
    Path(Seq<char>),
    InDirectory { dir: Seq<char>, name: Seq<char> },
}

impl View for TraceEndpoint {
    type V = EndpointView;

    open spec fn view(&self) -> EndpointView {
        match *self {
            TraceEndpoint::Path(p) => EndpointView::Path(p@),
            TraceEndpoint::InDirectory { dir, name } => EndpointView::InDirectory {
                dir: dir@,
                name: name@,
            },
        }
    }
}

/// The name of the relay's socket in a runtime directory.
pub open spec fn socket_name() -> Seq<char> {
    "netero.trace.sock"@
}

/// The path of the relay's socket where nothing else is configured.
pub open spec fn fallback_path() -> Seq<char> {
    "/tmp/netero.trace.sock"@
}

/// Where the relay listens: at the path that overrides all else, if one is
/// set; else in the runtime directory, if one is set; else at the fallback.
pub open spec fn endpoint_of(
    override_path: Option<Seq<char>>,
    runtime_dir: Option<Seq<char>>,
) -> EndpointView {
    if is_set(override_path) {
        EndpointView::Path(trim(override_path->0))
    } else if is_set(runtime_dir) {
        EndpointView::InDirectory { dir: trim(runtime_dir->0), name: socket_name() }
    } else {
        EndpointView::Path(fallback_path())
    }
}

/// Resolves where the relay listens from the two settings that the
/// environment may hold: the path that overrides all else, and the runtime
/// directory.
pub fn resolve_trace_socket_path(override_path: Option<&str>, runtime_dir: Option<&str>) -> (e:
    TraceEndpoint)
    ensures
        e@ == endpoint_of(text_of(override_path), text_of(runtime_dir)),
{
    if let Some(path) = setting(override_path) {
        return TraceEndpoint::Path(from_chars(path.as_slice()));
    }
    if let Some(dir) = setting(runtime_dir) {
        return TraceEndpoint::InDirectory {
            dir: from_chars(dir.as_slice()),
            name: "netero.trace.sock".to_owned(),
        };
    }
    TraceEndpoint::Path("/tmp/netero.trace.sock".to_owned())
}

/// The number of columns that is assumed where the terminal tells none.
pub open spec fn default_columns() -> nat {
    80
}

/// The number of dots in the separator line of a terminal with `columns`
/// columns: one less than the columns, and none for no columns.
pub open spec fn separator_dots(columns: Option<u16>) -> nat {
    let width: nat = match columns {
        Some(w) => w as nat,
        None => default_columns(),
    };
    if width == 0 {
        0
    } else {
        (width - 1) as nat
    }
}

/// The separator line: dots, then a newline.
pub open spec fn separator(columns: Option<u16>) -> Seq<char> {
    Seq::new(separator_dots(columns), |i: int| '.') + seq!['\n']
}

/// The number of columns of the terminal, as `terminal_size::terminal_size`
/// tells it: nothing where no terminal is attached. Nothing is claimed of
/// the number: it depends on the terminal.
#[verifier::external_body]
fn terminal_columns() -> (columns: Option<u16>) {
    terminal_size::terminal_size().map(|(width, _)| width.0)
}

/// Draws the separator line for a terminal with `columns` columns.
pub fn separator_for(columns: Option<u16>) -> (out: String)
    ensures
        out@ == separator(columns),
{
    let width: u16 = match columns {
        Some(w) => w,
        None => 80,
    };
    let count: u16 = if width == 0 {
        0
    } else {
        width - 1
    };
    let mut out: Vec<char> = Vec::new();
    let mut i: u16 = 0;
    while i < count
        invariant
            i <= count,
            out@ == Seq::new(i as nat, |k: int| '.'),
        decreases count - i,
    {
        out.push('.');
        i += 1;
        assert(out@ =~= Seq::new(i as nat, |k: int| '.'));
    }
    out.push('\n');
    from_chars(out.as_slice())
}

/// Draws the separator line for the terminal that is attached, as wide as
/// it is, and for 80 columns where its width cannot be told.
pub fn separator_line() -> (out: String)
    ensures
        exists|columns: Option<u16>| out@ == separator(columns),
{
    let columns = terminal_columns();
    separator_for(columns)
}

/// The block that the server prints for one message: the separator line
/// between blank lines, a header with the sequence number and the time, the
/// kind, and the payload, which ends with a newline of its own or gets one.
pub open spec fn block(id: u64, timestamp: Seq<char>, line: Seq<char>, message: Seq<char>) -> Seq<
    char,
> {
    let p = parsed(message);
    let ending: Seq<char> = if p.body.len() > 0 && p.body.last() == '\n' {
        Seq::empty()
    } else {
        seq!['\n']
    };
    "\n\n"@ + line + "\n\n"@ + "[id="@ + decimal(id as nat) + " ts="@ + timestamp + "]\n"@ + p.kind
        + seq!['\n'] + p.body + ending
}

/// The sequence number after `counter`: one more, and zero after the last.
pub open spec fn next_id(counter: u64) -> u64 {
    if counter == u64::MAX {
        0
    } else {
        (counter + 1) as u64
    }
}

/// The sequence number after `n` messages.
pub open spec fn id_after(n: nat) -> u64
    decreases n,
{
    if n == 0 {
        0
    } else {
        next_id(id_after((n - 1) as nat))
    }
}

/// As long as the numbers have not run out, the `n`th message bears `n`.
pub proof fn lemma_ids_count_up(n: nat)
    requires
        n <= u64::MAX,
    ensures
        id_after(n) == n,
    decreases n,
{
    if n > 0 {
        lemma_ids_count_up((n - 1) as nat);
    }
}

/// The server side of the relay: numbers the messages that arrive.
pub struct TraceServer {
    /// The number of the last message.
    pub counter: u64,
}

impl TraceServer {
    /// A server that has seen no message.
    pub fn new() -> (s: TraceServer)
        ensures
            s.counter == 0,
    {
        TraceServer { counter: 0 }
    }

    /// Takes the text of one datagram, gives it the next sequence number,
    /// and draws the block to print, with the time `timestamp` and the
    /// separator line `line`.
    pub fn receive_text(&mut self, message: &str, timestamp: &str, line: &str) -> (out: String)
        ensures
            final(self).counter == next_id(old(self).counter),
            out@ == block(final(self).counter, timestamp@, line@, message@),
    {
        self.counter = self.counter.wrapping_add(1);
        let payload = TracePayload::parse(message);
        let mut out: Vec<char> = Vec::new();
        push_str(&mut out, "\n\n");
        push_str(&mut out, line);
        push_str(&mut out, "\n\n");
        push_str(&mut out, "[id=");
        let id = decimal_chars(self.counter);
        push_all(&mut out, id.as_slice());
        push_str(&mut out, " ts=");
        push_str(&mut out, timestamp);
        push_str(&mut out, "]\n");
        push_str(&mut out, payload.kind.as_str());
        out.push('\n');
        let body = to_chars(payload.body.as_str());
        push_all(&mut out, body.as_slice());
        if !(body.len() > 0 && body[body.len() - 1] == '\n') {
            out.push('\n');
        }
        from_chars(out.as_slice())
    }

    /// Takes one datagram as it came from the socket: decodes it leniently
    /// as UTF-8 and takes the text.
    pub fn receive(&mut self, datagram: &[u8], timestamp: &str, line: &str) -> (out: String)
        ensures
            final(self).counter == next_id(old(self).counter),
            out@ == block(final(self).counter, timestamp@, line@, utf8_lossy(datagram@)),
    {
        let message = decode_lossy(datagram);
        self.receive_text(message.as_str(), timestamp, line)
    }

    /// Takes one datagram now: stamps it with the local time and draws the
    /// separator as wide as the terminal.
    pub fn receive_now(&mut self, datagram: &[u8]) -> (out: String)
        ensures
            final(self).counter == next_id(old(self).counter),
            exists|timestamp: Seq<char>, columns: Option<u16>|
                out@ == block(
                    final(self).counter,
                    timestamp,
                    separator(columns),
                    utf8_lossy(datagram@),
                ),
    {
        let timestamp = current_datetime();
        let line = separator_line();
        let out = self.receive(datagram, timestamp.as_str(), line.as_str());
        proof {
            let columns = choose|columns: Option<u16>| line@ == separator(columns);
            assert(out@ == block(
                self.counter,
                timestamp@,
                separator(columns),
                utf8_lossy(datagram@),
            ));
        }
        out
    }
}

} // verus!
