//! The error kinds that the runtime surfaces to its callers.

use vstd::prelude::*;
use crate::json::int_text;

verus! {

/// Every failure of the runtime, as a typed value.
///
/// Nothing is retried and nothing is swallowed: each operation either returns
/// its result or one of these.
#[derive(Debug, Clone, PartialEq, Eq)]
pub enum McpError {
    /// The child process could not be launched; fatal to that start only.
    Spawn(String),
    /// A pipe write or read failed; the server must be stopped and restarted.
    Io(String),
    /// The deadline elapsed before a response line arrived.  The server is
    /// not presumed dead, but a late response stays queued and will be
    /// delivered to the next call on the same transport.
    Timeout,
    /// A line on the wire was not a well-formed JSON-RPC response; carries
    /// the offending text.
    Decode(String),
    /// The child's output stream closed with nothing left in the queue.
    Closed,
    /// A well-formed JSON-RPC error response; carries the remote code and
    /// message verbatim.  The server remains usable.
    Protocol { code: i32, message: String },
    /// A tool operation was attempted before the handshake completed.
    NotInitialized,
    /// A server with this id is already registered; carries the id.
    AlreadyRunning(String),
    /// No server with this id is registered; carries the id.
    NotFound(String),
}

/// The mathematical shape of an error.
pub enum McpErrorView {
    Spawn(Seq<char>),
    Io(Seq<char>),
    Timeout,
    Decode(Seq<char>),
    Closed,
    Protocol { code: int, message: Seq<char> },
    NotInitialized,
    AlreadyRunning(Seq<char>),
    NotFound(Seq<char>),
}

impl View for McpError {
    type V = McpErrorView;

    open spec fn view(&self) -> McpErrorView {
        match self {
            McpError::Spawn(s) => McpErrorView::Spawn(s@),
            McpError::Io(s) => McpErrorView::Io(s@),
            McpError::Timeout => McpErrorView::Timeout,
            McpError::Decode(s) => McpErrorView::Decode(s@),
            McpError::Closed => McpErrorView::Closed,
            McpError::Protocol { code, message } => McpErrorView::Protocol {
                code: *code as int,
                message: message@,
            },
            McpError::NotInitialized => McpErrorView::NotInitialized,
            McpError::AlreadyRunning(s) => McpErrorView::AlreadyRunning(s@),
            McpError::NotFound(s) => McpErrorView::NotFound(s@),
        }
    }
}

impl McpError {
    /// The error as one line of text, for the boundary that reports
    /// failures to a caller as plain strings.
    pub fn message(&self) -> (r: String)
        ensures
            r@ == (match self@ {
                McpErrorView::Spawn(m) => "failed to spawn process: "@ + m,
                McpErrorView::Io(m) => "pipe error: "@ + m,
                McpErrorView::Timeout => "timeout waiting for response"@,
                McpErrorView::Decode(t) => "failed to parse JSON-RPC response: "@ + t,
                McpErrorView::Closed => "process stdout closed"@,
                McpErrorView::Protocol { code, message } => "JSON-RPC error (code: "@ + int_text(
                    code,
                ) + "): "@ + message,
                McpErrorView::NotInitialized => "session not initialized"@,
                McpErrorView::AlreadyRunning(id) => "server with ID '"@ + id
                    + "' already running"@,
                McpErrorView::NotFound(id) => "server '"@ + id + "' not found"@,
            }),
    {
        match self {
            McpError::Spawn(m) => {
                let mut s = String::from_str("failed to spawn process: ");
                s.append(m.as_str());
                s
            },
            McpError::Io(m) => {
                let mut s = String::from_str("pipe error: ");
                s.append(m.as_str());
                s
            },
            McpError::Timeout => String::from_str("timeout waiting for response"),
            McpError::Decode(t) => {
                let mut s = String::from_str("failed to parse JSON-RPC response: ");
                s.append(t.as_str());
                s
            },
            McpError::Closed => String::from_str("process stdout closed"),
            McpError::Protocol { code, message } => {
                let mut s = String::from_str("JSON-RPC error (code: ");
                let code_text = crate::json::int_to_string(*code as i64);
                s.append(code_text.as_str());
                s.append("): ");
                s.append(message.as_str());
                s
            },
            McpError::NotInitialized => String::from_str("session not initialized"),
            McpError::AlreadyRunning(id) => {
                let mut s = String::from_str("server with ID '");
                s.append(id.as_str());
                s.append("' already running");
                s
            },
            McpError::NotFound(id) => {
                let mut s = String::from_str("server '");
                s.append(id.as_str());
                s.append("' not found");
                s
            },
        }
    }

    /// True for the errors that leave the transport unusable.
    pub fn is_fatal_to_transport(&self) -> (r: bool)
        ensures
            r == (self is Io || self is Decode || self is Closed),
    {
        match self {
            McpError::Io(_) => true,
            McpError::Decode(_) => true,
            McpError::Closed => true,
            _ => false,
        }
    }
}

} // verus!
