//! The per-connection session: one socket's read buffer, pending response
//! and readiness interest, with the state transitions the multiplexer's event
//! loop drives. A session is interested in reading or in writing, never both
//! and never neither, while live; the response drains from the front across
//! partial writes; and once it has drained, the protocol version decides
//! whether the connection closes or is recycled for the next request.

use vstd::prelude::*;
use crate::framer::{contains_terminator, is_request_complete};
use crate::http::Proto;

verus! {

/// A finished response: the bytes to send and the protocol version that
/// decides the connection's disposition afterwards.
pub struct Response {
    pub data: Vec<u8>,
    pub proto: Proto,
}

/// The one readiness interest a live session holds.
#[derive(Clone, Copy, PartialEq, Eq, Structural, Debug)]
pub enum Interest {
    Reading,
    Writing,
}

/// What becomes of the connection once a response has fully drained.
#[derive(Clone, Copy, PartialEq, Eq, Structural, Debug)]
pub enum Disposition {
    Close,
    KeepAlive,
}

/// One live connection's record.
pub struct Session {
    pub read_buf: Vec<u8>,
    pub response: Option<Response>,
    pub interest: Interest,
}

impl Session {
    /// A session reads exactly while it has no pending response and writes
    /// exactly while it has one: read xor write, decided by the response.
    pub open spec fn wf(&self) -> bool {
        (self.interest == Interest::Reading) <==> (self.response is None)
    }

    /// A fresh session: empty read buffer, nothing to write, reading.
    pub fn new() -> (s: Session)
        ensures
            s.wf(),
            s.read_buf@ == Seq::<u8>::empty(),
            s.response is None,
            s.interest == Interest::Reading,
    {
        Session { read_buf: Vec::new(), response: None, interest: Interest::Reading }
    }

    /// Appends one chunk drained from the socket to the read buffer; nothing
    /// else moves.
    pub fn append_read(&mut self, chunk: &[u8])
        ensures
            final(self).read_buf@ == old(self).read_buf@ + chunk@,
            final(self).response is Some <==> old(self).response is Some,
            final(self).interest == old(self).interest,
            old(self).wf() ==> final(self).wf(),
    {
        self.read_buf.extend_from_slice(chunk);
    }

    /// A complete request header block has arrived in the read buffer.
    pub fn request_ready(&self) -> (r: bool)
        ensures
            r == contains_terminator(self.read_buf@),
    {
        is_request_complete(self.read_buf.as_slice())
    }

    /// Stores the produced response, clears the read buffer, and turns the
    /// session's interest to writing.
    pub fn install_response(&mut self, resp: Response)
        requires
            old(self).wf(),
            old(self).interest == Interest::Reading,
        ensures
            final(self).wf(),
            final(self).interest == Interest::Writing,
            final(self).read_buf@ == Seq::<u8>::empty(),
            final(self).response matches Some(r) && r.data@ == resp.data@ && r.proto
                == resp.proto,
    {
        self.read_buf.clear();
        self.response = Some(resp);
        self.interest = Interest::Writing;
    }

    /// The bytes still waiting to be written, front first.
    pub fn pending_write(&self) -> (b: &[u8])
        requires
            self.response is Some,
        ensures
            self.response matches Some(r) && b@ == r.data@,
    {
        self.response.as_ref().unwrap().data.as_slice()
    }

    /// Consumes `written` bytes from the front of the pending response after
    /// a (possibly partial) write: exactly the unwritten remainder stays, in
    /// order, and nothing else moves.
    pub fn consume_written(&mut self, written: usize)
        requires
            old(self).wf(),
            old(self).response matches Some(r) && written <= r.data@.len(),
        ensures
            final(self).wf(),
            final(self).interest == old(self).interest,
            final(self).read_buf@ == old(self).read_buf@,
            old(self).response matches Some(r1) && final(self).response matches Some(r2)
                && r2.data@ == r1.data@.skip(written as int) && r2.proto == r1.proto,
    {
        match &mut self.response {
            Some(r) => {
                let rest = r.data.split_off(written);
                r.data = rest;
            },
            None => {},
        }
    }

    /// The pending response has fully drained.
    pub fn write_done(&self) -> (r: bool)
        requires
            self.response is Some,
        ensures
            self.response matches Some(resp) && r == (resp.data@.len() == 0),
    {
        self.response.as_ref().unwrap().data.len() == 0
    }

    /// Ends a fully drained response: an HTTP/1.0 connection is to be closed;
    /// an HTTP/1.1 connection is kept alive, and the session turns back to
    /// reading so the same connection can carry the next request.
    pub fn finish_response(&mut self) -> (d: Disposition)
        requires
            old(self).wf(),
            old(self).response matches Some(r) && r.data@.len() == 0,
        ensures
            final(self).wf(),
            final(self).interest == Interest::Reading,
            final(self).response is None,
            final(self).read_buf@ == old(self).read_buf@,
            old(self).response matches Some(r) && d == (if r.proto == Proto::Http11 {
                Disposition::KeepAlive
            } else {
                Disposition::Close
            }),
    {
        let d = match &self.response {
            Some(r) => {
                if r.proto == Proto::Http11 {
                    Disposition::KeepAlive
                } else {
                    Disposition::Close
                }
            },
            None => Disposition::Close,
        };
        self.response = None;
        self.interest = Interest::Reading;
        d
    }
}

/// Issues the tokens that key a worker's session table: unique and
/// monotonically assigned, never reused while the worker lives, and never
/// zero — token zero names the listening socket.
pub struct TokenAllocator {
    pub last: usize,
}

impl TokenAllocator {
    /// A fresh allocator; nothing has been issued, so the next token is 1.
    pub fn new() -> (a: TokenAllocator)
        ensures
            a.last == 0,
    {
        TokenAllocator { last: 0 }
    }

    /// Issues the next token: strictly above every token issued before it,
    /// and never the listener's zero.
    pub fn fresh(&mut self) -> (t: usize)
        requires
            old(self).last < usize::MAX,
        ensures
            t == final(self).last,
            final(self).last == old(self).last + 1,
            t > old(self).last,
            t > 0,
    {
        self.last = self.last + 1;
        self.last
    }
}

/// The lengths a transport accepted, one per write-ready wake-up, summed.
pub open spec fn sum_writes(ws: Seq<nat>) -> nat
    decreases ws.len(),
{
    if ws.len() == 0 {
        0
    } else {
        ws[0] + sum_writes(ws.drop_first())
    }
}

/// The bytes the peer receives when a buffer drains from the front: each
/// wake-up sends the front `ws[i]` bytes of what is still pending, and
/// `consume_written` keeps exactly the remainder.
pub open spec fn delivered_bytes(data: Seq<u8>, ws: Seq<nat>) -> Seq<u8>
    decreases ws.len(),
{
    if ws.len() == 0 {
        Seq::<u8>::empty()
    } else {
        data.take(ws[0] as int) + delivered_bytes(data.skip(ws[0] as int), ws.drop_first())
    }
}

/// Partial writes deliver the response byte-exactly: however the transport
/// splits the buffer across write-ready wake-ups, once the accepted lengths
/// sum to the buffer's length, the concatenation of what was sent is the
/// whole buffer — no loss, corruption or duplication.
pub proof fn lemma_partial_writes_deliver(data: Seq<u8>, ws: Seq<nat>)
    requires
        sum_writes(ws) == data.len(),
    ensures
        delivered_bytes(data, ws) == data,
    decreases ws.len(),
{
    if ws.len() == 0 {
        assert(data =~= Seq::<u8>::empty());
    } else {
        let w0 = ws[0] as int;
        assert(sum_writes(ws.drop_first()) == data.skip(w0).len());
        lemma_partial_writes_deliver(data.skip(w0), ws.drop_first());
        assert(delivered_bytes(data, ws) =~= data);
    }
}

} // verus!
