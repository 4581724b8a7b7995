//! Per-connection dispatch: the decisions a connection makes about one
//! received message buffer, separated from the socket reads and writes that
//! carry them out.
//!
//! A connection repeatedly reads one newline-delimited buffer, plans what to
//! do with it, performs the planned I/O (an `ERR` reply, a line fetch and
//! its `OK` reply, closing the write side, or requesting global shutdown)
//! and either keeps reading or closes.

use vstd::prelude::*;
use crate::frame::{Command, Frame, FrameError, spec_decode};
use crate::db::DbError;

verus! {

/// Whether the connection keeps reading messages or closes after handling
/// the current one.
#[derive(Clone, Copy, Debug, PartialEq, Eq, Structural)]
pub enum FrameAction {
    Continue,
    EndConnection,
}

/// The planned handling of one received message buffer.
#[derive(Clone, Copy, Debug, PartialEq, Eq, Structural)]
pub enum Plan {
    /// The peer closed the stream: close silently, sending nothing.
    Disconnect,
    /// The message is malformed or its checksum is wrong: reply `ERR` and
    /// keep reading.
    Reject,
    /// A validated GET: fetch the line and reply, then keep reading.
    Fetch(u32),
    /// A validated QUIT: close the socket's write side and end.
    Quit,
    /// A validated SHUTDOWN: ask the server to shut everything down and end.
    Shutdown,
}

/// The plan a buffer's decoding dictates: disconnection closes silently,
/// every other decode error is rejected with `ERR`, and each command maps to
/// its own handling.
pub open spec fn spec_plan(bytes: Seq<u8>) -> Plan {
    match spec_decode(bytes) {
        Err(FrameError::ClientDisconnected) => Plan::Disconnect,
        Err(_) => Plan::Reject,
        Ok(frame) => match frame.cmd {
            Command::Get(n) => Plan::Fetch(n),
            Command::Quit => Plan::Quit,
            Command::Shutdown => Plan::Shutdown,
        },
    }
}

/// Decodes one message buffer and plans its handling. A zero-length read
/// (the peer is gone) always plans a silent close, never an `ERR` reply.
pub fn plan_frame(buf: &[u8]) -> (r: Plan)
    ensures
        r == spec_plan(buf@),
        buf@.len() == 0 ==> r is Disconnect,
{
    match Frame::decode(buf) {
        Err(FrameError::ClientDisconnected) => Plan::Disconnect,
        Err(_) => Plan::Reject,
        Ok(frame) => match frame.cmd {
            Command::Get(n) => Plan::Fetch(n),
            Command::Quit => Plan::Quit,
            Command::Shutdown => Plan::Shutdown,
        },
    }
}

/// The banner that precedes a successfully fetched line.
pub open spec fn ok_banner() -> Seq<u8> {
    seq![79u8, 75u8, 13u8, 10u8]
}

/// The reply to any decode error or failed fetch.
pub open spec fn err_banner() -> Seq<u8> {
    seq![69u8, 82u8, 82u8, 13u8, 10u8]
}

/// The notice written to a connection when the global shutdown signal is
/// observed before its next command.
pub open spec fn shutdown_banner() -> Seq<u8> {
    seq![83u8, 72u8, 85u8, 84u8, 68u8, 79u8, 87u8, 78u8, 13u8, 10u8]
}

/// The `ERR` reply bytes.
pub fn err_response() -> (r: Vec<u8>)
    ensures
        r@ == err_banner(),
{
    let mut r: Vec<u8> = Vec::new();
    r.push(69);
    r.push(82);
    r.push(82);
    r.push(13);
    r.push(10);
    proof {
        assert(r@ =~= err_banner());
    }
    r
}

/// The `SHUTDOWN` notice bytes.
pub fn shutdown_response() -> (r: Vec<u8>)
    ensures
        r@ == shutdown_banner(),
{
    let mut r: Vec<u8> = Vec::new();
    r.push(83);
    r.push(72);
    r.push(85);
    r.push(84);
    r.push(68);
    r.push(79);
    r.push(87);
    r.push(78);
    r.push(13);
    r.push(10);
    proof {
        assert(r@ =~= shutdown_banner());
    }
    r
}

/// The full reply to a planned fetch, given the fetch's outcome: the `OK`
/// banner followed by the line's literal bytes on success, the `ERR` banner
/// when the line was not found or could not be read.
pub fn get_response(fetched: &Result<Vec<u8>, DbError>) -> (r: Vec<u8>)
    ensures
        match fetched {
            Ok(line) => r@ == ok_banner().add(line@),
            Err(_) => r@ == err_banner(),
        },
{
    match fetched {
        Ok(line) => {
            let mut r: Vec<u8> = Vec::new();
            r.push(79);
            r.push(75);
            r.push(13);
            r.push(10);
            let mut i: usize = 0;
            while i < line.len()
                invariant
                    i <= line@.len(),
                    r@ == ok_banner().add(line@.take(i as int)),
                decreases line@.len() - i,
            {
                let b: u8 = line[i];
                r.push(b);
                proof {
                    assert(r@ =~= ok_banner().add(line@.take(i + 1)));
                }
                i = i + 1;
            }
            proof {
                assert(line@.take(line@.len() as int) =~= line@);
            }
            r
        },
        Err(_) => err_response(),
    }
}

} // verus!
