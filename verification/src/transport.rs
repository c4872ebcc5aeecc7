//! The stdio transport, as a deterministic state machine.
//!
//! One transport stands for one spawned child process.  It keeps the queue
//! of output lines the reader task has delivered and not yet consumed, a
//! flag for the child's output stream having closed, and the log of request
//! lines written to the child's input, oldest first.  The process plumbing
//! around the runtime spawns the child, writes out each line `send_request`
//! produces, feeds every line the reader task reads into `deliver_line`,
//! calls `close` when the output stream ends, and reports an elapsed
//! deadline by calling `receive_response` with `timed_out` set.
//!
//! Correlation between a request and its response is purely positional: the
//! nth call receives the nth line the child emits after it, and the id
//! field is not consulted.  A call that times out does not cancel its
//! request nor drain a late response: the late line stays at the head of
//! the queue and is delivered to the next call on this transport.

use vstd::prelude::*;
use crate::error::{McpError, McpErrorView};
use crate::json::{json_text, JsonValue};
use crate::protocol::{
    decode_response, encode_request, opt_view, request_doc, spec_decode_response, JsonRpcRequest,
    JsonRpcResponse, RequestView, ResponseView,
};

verus! {

/// How many delivered output lines the transport may hold; a full queue
/// stalls the reader task (and eventually the child) until a consumer
/// takes a line.
pub const QUEUE_CAPACITY: usize = 100;

/// The handshake deadline, in milliseconds.
pub const INITIALIZE_TIMEOUT_MS: u64 = 30000;

/// The tool-listing deadline, in milliseconds.
pub const LIST_TOOLS_TIMEOUT_MS: u64 = 10000;

/// The tool-invocation deadline, in milliseconds; tool execution may be
/// slow.
pub const CALL_TOOL_TIMEOUT_MS: u64 = 60000;

/// The transport over one child process's standard streams.
pub struct StdioTransport {
    /// Output lines delivered by the reader task and not yet consumed.
    pub queue: Vec<String>,
    /// Whether the child's output stream has closed.
    pub closed: bool,
    /// Every request line written to the child's input, oldest first.
    pub outbox: Vec<String>,
}

/// The mathematical shape of a transport.
pub struct TransportModel {
    pub queue: Seq<Seq<char>>,
    pub closed: bool,
    pub outbox: Seq<Seq<char>>,
}

impl View for StdioTransport {
    type V = TransportModel;

    open spec fn view(&self) -> TransportModel {
        TransportModel {
            queue: self.queue@.map_values(|s: String| s@),
            closed: self.closed,
            outbox: self.outbox@.map_values(|s: String| s@),
        }
    }
}

/// A fresh transport: nothing queued, stream open, nothing written.
pub open spec fn fresh_transport() -> TransportModel {
    TransportModel { queue: Seq::empty(), closed: false, outbox: Seq::empty() }
}

/// One line from the child joins the queue.
pub open spec fn model_deliver(t: TransportModel, line: Seq<char>) -> TransportModel {
    TransportModel { queue: t.queue.push(line), closed: t.closed, outbox: t.outbox }
}

/// The child's output stream closes.
pub open spec fn model_close(t: TransportModel) -> TransportModel {
    TransportModel { queue: t.queue, closed: true, outbox: t.outbox }
}

/// A request is serialized and written: its line joins the outbox.
pub open spec fn model_send(t: TransportModel, req: RequestView) -> TransportModel {
    TransportModel {
        queue: t.queue,
        closed: t.closed,
        outbox: t.outbox.push(json_text(request_doc(req))),
    }
}

/// What waiting for the next response yields, and the transport it leaves.
/// A queued line is consumed and decoded, good or bad; with nothing queued
/// a closed stream is reported, and otherwise the elapsed deadline.
pub open spec fn model_receive(t: TransportModel) -> (TransportModel, Result<
    ResponseView,
    McpErrorView,
>) {
    if t.queue.len() > 0 {
        let line = t.queue[0];
        let t2 = TransportModel { queue: t.queue.drop_first(), closed: t.closed, outbox: t.outbox };
        match spec_decode_response(line) {
            Some(resp) => (t2, Ok(resp)),
            None => (t2, Err(McpErrorView::Decode(line))),
        }
    } else if t.closed {
        (t, Err(McpErrorView::Closed))
    } else {
        (t, Err(McpErrorView::Timeout))
    }
}

/// Send then receive, as one step.
pub open spec fn model_call(
    t: TransportModel,
    method: Seq<char>,
    params: Option<crate::json::JsonView>,
    id: crate::json::JsonView,
) -> (TransportModel, Result<ResponseView, McpErrorView>) {
    model_receive(
        model_send(t, RequestView { jsonrpc: "2.0"@, method: method, params: params, id: id }),
    )
}

impl StdioTransport {
    /// A transport for a freshly spawned child: nothing queued, stream
    /// open, nothing written.
    pub fn new() -> (t: Self)
        ensures
            t@ == fresh_transport(),
    {
        let t = StdioTransport { queue: Vec::new(), closed: false, outbox: Vec::new() };
        proof {
            assert(t@.queue =~= fresh_transport().queue);
            assert(t@.outbox =~= fresh_transport().outbox);
        }
        t
    }

    /// The reader task delivers one output line.  The queue is bounded: a
    /// full queue stalls the reader instead, so delivery asks for room.
    pub fn deliver_line(&mut self, line: String)
        requires
            old(self)@.queue.len() < QUEUE_CAPACITY as int,
        ensures
            final(self)@ == model_deliver(old(self)@, line@),
    {
        let ghost l = line@;
        self.queue.push(line);
        proof {
            assert(self@.queue =~= old(self)@.queue.push(l));
        }
    }

    /// The reader task reports that the child's output stream closed.
    pub fn close(&mut self)
        ensures
            final(self)@ == model_close(old(self)@),
    {
        self.closed = true;
    }

    /// Serializes the request to one line and logs it as written to the
    /// child's input; the line is handed back for the plumbing to write,
    /// flushed.
    pub fn send_request(&mut self, request: &JsonRpcRequest) -> (line: String)
        ensures
            final(self)@ == model_send(old(self)@, request@),
            line@ == json_text(request_doc(request@)),
    {
        let line = encode_request(request);
        let line2 = line.clone();
        self.outbox.push(line2);
        proof {
            assert(self@.outbox =~= old(self)@.outbox.push(line@));
        }
        line
    }

    /// Takes the next response within the deadline.  `timed_out` reports
    /// that the deadline elapsed while the queue stayed empty; a queued
    /// line — even a stale one left by an earlier timeout — is consumed
    /// first.  A line that does not decode yields `Decode` carrying it and
    /// is still consumed, so later lines are unaffected.  A delivered
    /// response carries exactly one of a result and an error, never both.
    pub fn receive_response(&mut self, timed_out: bool) -> (r: Result<JsonRpcResponse, McpError>)
        requires
            timed_out || old(self)@.queue.len() > 0 || old(self)@.closed,
        ensures
            final(self)@ == model_receive(old(self)@).0,
            (match r {
                Ok(resp) => model_receive(old(self)@).1 == Ok::<ResponseView, McpErrorView>(
                    resp@,
                ) && ((resp.result is Some) != (resp.error is Some)),
                Err(e) => model_receive(old(self)@).1 == Err::<ResponseView, McpErrorView>(e@),
            }),
    {
        if self.queue.len() > 0 {
            let line = self.queue.remove(0);
            proof {
                assert(self@.queue =~= old(self)@.queue.drop_first());
                crate::protocol::lemma_decoded_response_exactly_one(line@);
            }
            match decode_response(line.as_str()) {
                Ok(resp) => Ok(resp),
                Err(e) => Err(e),
            }
        } else if self.closed {
            Err(McpError::Closed)
        } else {
            Err(McpError::Timeout)
        }
    }

    /// Send a request built from the pieces, then wait for the response:
    /// atomic with respect to other calls on this transport.
    pub fn call(
        &mut self,
        method: &str,
        params: Option<JsonValue>,
        id: JsonValue,
        timed_out: bool,
    ) -> (r: Result<JsonRpcResponse, McpError>)
        requires
            timed_out || old(self)@.queue.len() > 0 || old(self)@.closed,
        ensures
            final(self)@ == model_call(old(self)@, method@, opt_view(params), crate::json::view_of(
                id,
            )).0,
            (match r {
                Ok(resp) => model_call(old(self)@, method@, opt_view(params), crate::json::view_of(
                    id,
                )).1 == Ok::<ResponseView, McpErrorView>(resp@) && ((resp.result is Some) != (
                resp.error is Some)),
                Err(e) => model_call(old(self)@, method@, opt_view(params), crate::json::view_of(
                    id,
                )).1 == Err::<ResponseView, McpErrorView>(e@),
            }),
    {
        let request = JsonRpcRequest::new(method, params, id);
        self.send_request(&request);
        self.receive_response(timed_out)
    }
}

/// A line that fails decoding is consumed and reported, and every later
/// line stays queued in order: one malformed response does not take the
/// reader down nor displace what follows it.
pub proof fn lemma_decode_failure_keeps_tail(t: TransportModel)
    requires
        t.queue.len() > 0,
        spec_decode_response(t.queue[0]) is None,
    ensures
        model_receive(t).0.queue == t.queue.drop_first(),
        model_receive(t).1 == Err::<ResponseView, McpErrorView>(McpErrorView::Decode(t.queue[0])),
{
}

/// A call that times out consumes nothing, and the late response that
/// arrives afterwards is delivered, stale, to the next call on the same
/// transport: correlation is positional, not by id.
pub proof fn lemma_stale_response_goes_to_next_call(t: TransportModel, late: Seq<char>)
    requires
        t.queue.len() == 0,
        !t.closed,
    ensures
        model_receive(t).0 == t,
        model_receive(t).1 == Err::<ResponseView, McpErrorView>(McpErrorView::Timeout),
        model_receive(model_deliver(t, late)).1 == (match spec_decode_response(late) {
            Some(resp) => Ok::<ResponseView, McpErrorView>(resp),
            None => Err::<ResponseView, McpErrorView>(McpErrorView::Decode(late)),
        }),
{
    assert(model_deliver(t, late).queue[0] == late);
}

} // verus!
