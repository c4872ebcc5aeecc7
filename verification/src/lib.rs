//! Client runtime for the Model Context Protocol (MCP): it speaks JSON-RPC
//! 2.0 with spawned tool-provider processes over their standard streams,
//! performs the capability handshake, discovers the tools each process
//! exposes, and invokes those tools on behalf of a caller.
//!
//! The protocol logic is modelled as deterministic state machines over plain
//! values: the transport keeps the queue of lines read from the child and the
//! log of lines written to it, the session keeps the request counter and the
//! negotiated handshake result, and the registry keeps the map from server id
//! to session.  The surrounding process plumbing (spawning, pipes, deadlines)
//! feeds lines and wait outcomes into these machines and writes out the lines
//! they produce.

pub mod error;
pub mod json;
pub mod protocol;
pub mod server;
pub mod storage;
pub mod transport;
