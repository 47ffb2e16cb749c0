//! How the upstream's answer becomes the client's.

use crate::format::Protocol;
use crate::json;
use crate::lists;
use crate::text::find_char;
use crate::transform;
use crate::transform::common;
use crate::transform::common::rewrite_model_in_response;
use crate::transform::{transform_response_body_with, Fresh, FreshView, StreamTransformer, StreamView};
use vstd::prelude::*;
use vstd::slice::slice_to_vec;

verus! {

/// The body that goes to the client. Only a success is converted, and where that
/// fails the body goes as it is. Any other body only gets the name by which the
/// client calls the model.
pub open spec fn relayed_body(
    success: bool,
    upstream: Protocol,
    inbound: Protocol,
    body: Seq<u8>,
    client_model: Option<Seq<char>>,
    fresh: FreshView,
) -> Seq<u8> {
    if success && upstream != inbound {
        match transform::response_outcome(upstream, inbound, body, client_model, fresh) {
            Ok(converted) => converted,
            Err(_) => body,
        }
    } else {
        common::with_client_model(body, client_model)
    }
}

/// The body that goes to the client, under given identifiers and a given time.
pub fn relay_body_with(
    success: bool,
    upstream: Protocol,
    inbound: Protocol,
    body: &[u8],
    client_model: Option<&str>,
    fresh: &Fresh,
) -> (r: Vec<u8>)
    ensures
        r@ == relayed_body(
            success,
            upstream,
            inbound,
            body@,
            json::text_of(client_model),
            fresh@,
        ),
{
    if success && upstream != inbound {
        match transform_response_body_with(upstream, inbound, body, client_model, fresh) {
            Ok(converted) => converted,
            Err(_) => slice_to_vec(body),
        }
    } else {
        rewrite_model_in_response(body, client_model)
    }
}

/// The body that goes to the client, under fresh identifiers and the current
/// time.
pub fn relay_body(
    success: bool,
    upstream: Protocol,
    inbound: Protocol,
    body: &[u8],
    client_model: Option<&str>,
) -> (r: Vec<u8>)
    ensures
        exists|fresh: FreshView|
            fresh.wf() && r@ == #[trigger] relayed_body(
                success,
                upstream,
                inbound,
                body@,
                json::text_of(client_model),
                fresh,
            ),
{
    relay_body_with(success, upstream, inbound, body, client_model, &Fresh::new())
}

/// What `String::from_utf8_lossy` makes of some bytes.
pub uninterp spec fn lossy_text(bytes: Seq<u8>) -> Seq<char>;

/// Calls `String::from_utf8_lossy`. Bytes that are UTF-8 give their text; what
/// is not UTF-8 is replaced.
#[verifier::external_body]
fn from_utf8_lossy(bytes: &[u8]) -> (r: String)
    ensures
        r@ == lossy_text(bytes@),
        vstd::utf8::valid_utf8(bytes@) ==> r@ == vstd::utf8::decode_utf8(bytes@),
{
    String::from_utf8_lossy(bytes).into_owned()
}

/// Where the first line of a text ends, its line break included. `None` where no
/// line is complete.
pub open spec fn line_end(s: Seq<char>) -> Option<int> {
    let at = lists::first_where(s, |c: char| c == '\n');
    if at < s.len() {
        Some(at + 1)
    } else {
        None
    }
}

/// The state of a stream after a text, and what was sent to the client.
pub struct RelayedView {
    pub stream: StreamView,
    /// What follows the last complete line.
    pub rest: Seq<char>,
    pub sent: Seq<Seq<char>>,
}

pub open spec fn with_output(sent: Seq<Seq<char>>, output: Option<Seq<char>>) -> Seq<Seq<char>> {
    match output {
        Some(s) => sent.push(s),
        None => sent,
    }
}

impl RelayedView {
    /// The complete lines of the rest go through the converter, one by one.
    pub open spec fn relayed(self) -> RelayedView
        decreases self.rest.len(),
    {
        match line_end(self.rest) {
            Some(end) => if 0 < end <= self.rest.len() {
                let (stream, output) = self.stream.after_line(self.rest.take(end));
                (RelayedView {
                    stream,
                    rest: self.rest.skip(end),
                    sent: with_output(self.sent, output),
                }).relayed()
            } else {
                self
            },
            None => self,
        }
    }

    /// The end of the stream: an incomplete line counts as a line, and the
    /// client's stream is ended properly.
    pub open spec fn ended(self) -> RelayedView {
        let (stream, output) = if self.rest.len() > 0 {
            self.stream.after_line(self.rest)
        } else {
            (self.stream, None)
        };
        let (last, flushed) = stream.flushed();
        RelayedView {
            stream: last,
            rest: Seq::empty(),
            sent: with_output(with_output(self.sent, output), flushed),
        }
    }
}

/// A stream on its way from the upstream to the client.
pub struct StreamRelay {
    transformer: StreamTransformer,
    buffer: String,
}

pub struct StreamRelayView {
    pub stream: StreamView,
    pub buffer: Seq<char>,
}

impl View for StreamRelay {
    type V = StreamRelayView;

    closed spec fn view(&self) -> StreamRelayView {
        StreamRelayView { stream: self.transformer@, buffer: self.buffer@ }
    }
}

impl StreamRelayView {
    /// The stream after some bytes of the upstream, and what is sent for them.
    pub open spec fn after(self, chunk: Seq<u8>) -> RelayedView {
        (RelayedView {
            stream: self.stream,
            rest: self.buffer + lossy_text(chunk),
            sent: Seq::empty(),
        }).relayed()
    }

    /// The stream after its end, and what is sent for it.
    pub open spec fn ended(self) -> RelayedView {
        (RelayedView { stream: self.stream, rest: self.buffer, sent: Seq::empty() }).ended()
    }
}

fn keep_output(sent: &mut Vec<String>, output: Option<String>)
    ensures
        crate::text::texts(final(sent)@) == with_output(
            crate::text::texts(old(sent)@),
            json::string_of(output),
        ),
{
    let ghost before = sent@;
    match output {
        Some(s) => {
            sent.push(s);
            assert(crate::text::texts(sent@) =~= crate::text::texts(before).push(s@));
        },
        None => {},
    }
}

impl StreamRelay {
    /// A stream that has not begun. Only a success is converted.
    pub fn new(
        success: bool,
        upstream: Protocol,
        inbound: Protocol,
        client_model: Option<&str>,
    ) -> (r: StreamRelay)
        ensures
            r@.buffer == Seq::<char>::empty(),
            r@.stream.begins(
                upstream,
                if success {
                    inbound
                } else {
                    upstream
                },
                json::text_of(client_model),
            ),
    {
        let to = if success {
            inbound
        } else {
            upstream
        };
        StreamRelay {
            transformer: StreamTransformer::new(upstream, to, client_model),
            buffer: String::new(),
        }
    }

    /// Takes the first complete line out of the buffer.
    fn take_line(&mut self) -> (r: Option<String>)
        ensures
            final(self)@.stream == old(self)@.stream,
            match line_end(old(self)@.buffer) {
                Some(end) => 0 < end <= old(self)@.buffer.len() && r is Some && r->0@ == old(
                    self,
                )@.buffer.take(end) && final(self)@.buffer == old(self)@.buffer.skip(end),
                None => r is None && final(self)@.buffer == old(self)@.buffer,
            },
    {
        let at: usize = find_char(self.buffer.as_str(), '\n');
        let len: usize = self.buffer.as_str().unicode_len();
        proof {
            lists::lemma_first_where(self.buffer@, |c: char| c == '\n', at as int);
        }
        if at == len {
            return None;
        }
        let ghost text = self.buffer@;
        let line = self.buffer.as_str().substring_char(0, at + 1).to_string();
        let rest = self.buffer.as_str().substring_char(at + 1, len).to_string();
        assert(line@ =~= text.take(at + 1));
        assert(rest@ =~= text.skip(at + 1));
        self.buffer = rest;
        Some(line)
    }

    /// Takes bytes of the upstream's stream, and gives what is sent to the
    /// client for them.
    pub fn push(&mut self, chunk: &[u8]) -> (r: Vec<String>)
        ensures
            ({
                let relayed = old(self)@.after(chunk@);
                &&& final(self)@ == (StreamRelayView {
                    stream: relayed.stream,
                    buffer: relayed.rest,
                })
                &&& crate::text::texts(r@) == relayed.sent
            }),
    {
        self.buffer.append(from_utf8_lossy(chunk).as_str());
        let mut sent: Vec<String> = Vec::new();
        assert(crate::text::texts(sent@) =~= Seq::empty());
        let ghost goal = old(self)@.after(chunk@);
        loop
            invariant
                goal == old(self)@.after(chunk@),
                goal == (RelayedView {
                    stream: self@.stream,
                    rest: self@.buffer,
                    sent: crate::text::texts(sent@),
                }).relayed(),
            decreases self@.buffer.len(),
        {
            match self.take_line() {
                Some(line) => {
                    let output = self.transformer.transform_sse_line(line.as_str());
                    keep_output(&mut sent, output);
                },
                None => {
                    return sent;
                },
            }
        }
    }

    /// Ends the stream, and gives what is sent to the client for it.
    pub fn finish(&mut self) -> (r: Vec<String>)
        ensures
            ({
                let ended = old(self)@.ended();
                &&& final(self)@ == (StreamRelayView { stream: ended.stream, buffer: ended.rest })
                &&& crate::text::texts(r@) == ended.sent
            }),
    {
        let mut sent: Vec<String> = Vec::new();
        assert(crate::text::texts(sent@) =~= Seq::empty());
        if self.buffer.as_str().unicode_len() > 0 {
            let output = self.transformer.transform_sse_line(self.buffer.as_str());
            keep_output(&mut sent, output);
        }
        self.buffer = String::new();
        assert(self.buffer@ =~= Seq::empty());
        let output = self.transformer.flush_if_incomplete();
        keep_output(&mut sent, output);
        sent
    }
}

// ── What holds of every stream ─────────────────────────────────────────────

/// Lines with their breaks, and what follows the last of them.
pub struct SplitView {
    pub lines: Seq<Seq<char>>,
    pub rest: Seq<char>,
}

/// A text cut into its complete lines and the rest.
pub open spec fn split(s: Seq<char>) -> SplitView
    decreases s.len(),
{
    match line_end(s) {
        Some(end) => if 0 < end <= s.len() {
            let later = split(s.skip(end));
            SplitView { lines: seq![s.take(end)] + later.lines, rest: later.rest }
        } else {
            SplitView { lines: Seq::empty(), rest: s }
        },
        None => SplitView { lines: Seq::empty(), rest: s },
    }
}

proof fn lemma_line_end(s: Seq<char>)
    ensures
        match line_end(s) {
            Some(end) => 0 < end <= s.len() && s[end - 1] == '\n' && forall|i: int|
                0 <= i < end - 1 ==> s[i] != '\n',
            None => !s.contains('\n'),
        },
{
    let wanted = |c: char| c == '\n';
    lists::lemma_first_where_found(s, wanted);
    let at = lists::first_where(s, wanted);
    assert forall|i: int| 0 <= i < at implies s[i] != '\n' by {
        assert(!wanted(s[i]));
    }
}

proof fn lemma_line_end_at(s: Seq<char>, end: int)
    requires
        0 < end <= s.len(),
        s[end - 1] == '\n',
        forall|i: int| 0 <= i < end - 1 ==> s[i] != '\n',
    ensures
        line_end(s) == Some(end),
{
    let wanted = |c: char| c == '\n';
    assert forall|i: int| 0 <= i < end - 1 implies !wanted(#[trigger] s[i]) by {}
    lists::lemma_first_where(s, wanted, end - 1);
}

/// A complete line: one line break, at its end.
pub open spec fn is_line(s: Seq<char>) -> bool {
    s.len() > 0 && s.last() == '\n' && !s.drop_last().contains('\n')
}

/// Cutting a text loses nothing and adds nothing: the lines and the rest, put
/// together, are the text; each line is complete, and the rest holds no line
/// break.
pub proof fn lemma_split(s: Seq<char>)
    ensures
        split(s).lines.flatten() + split(s).rest == s,
        forall|i: int| 0 <= i < split(s).lines.len() ==> is_line(#[trigger] split(s).lines[i]),
        !split(s).rest.contains('\n'),
    decreases s.len(),
{
    lemma_line_end(s);
    match line_end(s) {
        Some(end) => {
            let line = s.take(end);
            let later = split(s.skip(end));
            lemma_split(s.skip(end));
            let lines = seq![line] + later.lines;
            assert(lines.drop_first() =~= later.lines);
            assert(lines.first() == line);
            assert(lines.flatten() == line + later.lines.flatten());
            assert(line + later.lines.flatten() + later.rest =~= line + (later.lines.flatten()
                + later.rest));
            assert(s =~= line + s.skip(end));
            assert(is_line(line)) by {
                assert(line.last() == s[end - 1]);
                assert forall|i: int| 0 <= i < line.drop_last().len() implies line.drop_last()[i]
                    != '\n' by {
                    assert(line.drop_last()[i] == s[i]);
                }
            }
            assert forall|i: int| 0 <= i < lines.len() implies is_line(#[trigger] lines[i]) by {
                if i > 0 {
                    assert(lines[i] == later.lines[i - 1]);
                }
            }
        },
        None => {
            assert(split(s).lines.flatten() =~= Seq::empty());
            assert(Seq::<char>::empty() + s =~= s);
        },
    }
}

/// A line of the stream goes through the converter.
pub open spec fn step(r: RelayedView, line: Seq<char>) -> RelayedView {
    let (stream, output) = r.stream.after_line(line);
    RelayedView { stream, rest: r.rest, sent: with_output(r.sent, output) }
}

/// The text of the upstream's stream may come in pieces cut anywhere: what is
/// sent for two pieces, one after the other, is what is sent for both at once.
pub proof fn lemma_pieces(stream: StreamView, a: Seq<char>, b: Seq<char>, sent: Seq<Seq<char>>)
    ensures
        ({
            let first = (RelayedView { stream, rest: a, sent }).relayed();
            (RelayedView { stream: first.stream, rest: first.rest + b, sent: first.sent }).relayed()
                == (RelayedView { stream, rest: a + b, sent }).relayed()
        }),
    decreases a.len(),
{
    lemma_line_end(a);
    match line_end(a) {
        Some(end) => {
            let (next, output) = stream.after_line(a.take(end));
            assert forall|i: int| 0 <= i < end - 1 implies (a + b)[i] != '\n' by {
                assert((a + b)[i] == a[i]);
            }
            lemma_line_end_at(a + b, end);
            assert((a + b).take(end) =~= a.take(end));
            assert((a + b).skip(end) =~= a.skip(end) + b);
            lemma_pieces(next, a.skip(end), b, with_output(sent, output));
        },
        None => {},
    }
}

/// What is sent for a piece of the stream comes line by line: the converter gets
/// the complete lines in their order, and the rest waits.
pub proof fn lemma_line_by_line(stream: StreamView, s: Seq<char>, sent: Seq<Seq<char>>)
    ensures
        ({
            let relayed = (RelayedView { stream, rest: s, sent }).relayed();
            let stepped = split(s).lines.fold_left_alt(
                RelayedView { stream, rest: split(s).rest, sent },
                |r: RelayedView, line: Seq<char>| step(r, line),
            );
            relayed == stepped
        }),
    decreases s.len(),
{
    let f = |r: RelayedView, line: Seq<char>| step(r, line);
    lemma_line_end(s);
    match line_end(s) {
        Some(end) => {
            let line = s.take(end);
            let later = split(s.skip(end));
            let (next, output) = stream.after_line(line);
            lemma_line_by_line(next, s.skip(end), with_output(sent, output));
            let lines = seq![line] + later.lines;
            assert(lines.subrange(1, lines.len() as int) =~= later.lines);
        },
        None => {},
    }
}

/// A body that is no success is passed on, and so is one in the client's protocol:
/// at most its model is renamed. Another is converted, or passed on as it is where
/// it cannot be.
pub proof fn lemma_relayed_body(
    success: bool,
    upstream: Protocol,
    inbound: Protocol,
    body: Seq<u8>,
    client_model: Option<Seq<char>>,
    fresh: FreshView,
)
    ensures
        ({
            let relayed = relayed_body(success, upstream, inbound, body, client_model, fresh);
            let outcome = transform::response_outcome(
                upstream,
                inbound,
                body,
                client_model,
                fresh,
            );
            &&& !success || upstream == inbound ==> relayed == common::with_client_model(
                body,
                client_model,
            )
            &&& success && upstream != inbound && outcome is Ok ==> relayed == outcome->Ok_0
            &&& success && upstream != inbound && outcome is Err ==> relayed == body
        }),
{
}

/// At the end of a stream, what is left over goes through the converter as a line,
/// and the converter is told that the stream has ended: what was sent before stays,
/// and what the two bring follows.
pub proof fn lemma_ended(r: RelayedView)
    ensures
        ({
            let line = r.stream.after_line(r.rest);
            let stream = if r.rest.len() > 0 {
                line.0
            } else {
                r.stream
            };
            let flushed = stream.flushed();
            let more = (if r.rest.len() > 0 && line.1 is Some {
                seq![line.1->0]
            } else {
                Seq::empty()
            }) + (if flushed.1 is Some {
                seq![flushed.1->0]
            } else {
                Seq::empty()
            });
            &&& r.ended().sent == r.sent + more
            &&& r.ended().stream == flushed.0
            &&& r.ended().rest.len() == 0
        }),
{
    let line = r.stream.after_line(r.rest);
    let stream = if r.rest.len() > 0 {
        line.0
    } else {
        r.stream
    };
    let flushed = stream.flushed();
    let more = (if r.rest.len() > 0 && line.1 is Some {
        seq![line.1->0]
    } else {
        Seq::empty()
    }) + (if flushed.1 is Some {
        seq![flushed.1->0]
    } else {
        Seq::empty()
    });
    assert(r.ended().sent =~= r.sent + more);
}

/// A piece of the upstream's bytes is read after what was left over, line by line.
pub proof fn lemma_piece_read(r: StreamRelayView, chunk: Seq<u8>)
    ensures
        ({
            let s = r.buffer + lossy_text(chunk);
            let after = r.after(chunk);
            &&& after.rest == split(s).rest
            &&& after == split(s).lines.fold_left_alt(
                RelayedView { stream: r.stream, rest: split(s).rest, sent: Seq::empty() },
                |r: RelayedView, line: Seq<char>| step(r, line),
            )
        }),
{
    let s = r.buffer + lossy_text(chunk);
    lemma_line_by_line(r.stream, s, Seq::empty());
    lemma_steps_keep_rest(
        split(s).lines,
        RelayedView { stream: r.stream, rest: split(s).rest, sent: Seq::empty() },
    );
}

proof fn lemma_steps_keep_rest(lines: Seq<Seq<char>>, r: RelayedView)
    ensures
        lines.fold_left_alt(r, |r: RelayedView, line: Seq<char>| step(r, line)).rest == r.rest,
    decreases lines.len(),
{
    if lines.len() > 0 {
        lemma_steps_keep_rest(lines.subrange(1, lines.len() as int), step(r, lines[0]));
    }
}

} // verus!
