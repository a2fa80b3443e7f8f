//! Incoming bytes and descriptors of one connection, cut into messages.
use crate::message::{arg_values, decode_args, decode_request, drop_fds, fd_count, take_fds, Arg, ArgType};
use crate::wire::{copy_range, parse_frame, read_header, Framed, MessageHeader, MAX_MESSAGE_SIZE};
use std::collections::VecDeque;
use vstd::prelude::*;

verus! {

/// Room for the largest message plus the remainder of one that straddles it.
pub const BUFFER_SIZE: usize = 2 * MAX_MESSAGE_SIZE;

/// What one attempt to read from the socket gave.
#[derive(Clone, Copy, Debug, PartialEq, Eq, Structural)]
pub enum ReadResult {
    /// Bytes arrived.
    ReadData,
    /// Nothing to read now; try again on the next readiness event.
    NoMoreData,
    /// The peer closed the stream, or reading failed for good.
    EndOfStream,
}

/// Classifies the return value of one receive call: `would_block` tells
/// whether a negative value came with `EAGAIN` or `EWOULDBLOCK`.
pub fn read_result(received: isize, would_block: bool) -> (r: ReadResult)
    ensures
        received > 0 ==> r == ReadResult::ReadData,
        received == 0 ==> r == ReadResult::EndOfStream,
        received < 0 && would_block ==> r == ReadResult::NoMoreData,
        received < 0 && !would_block ==> r == ReadResult::EndOfStream,
{
    if received > 0 {
        ReadResult::ReadData
    } else if received == 0 {
        ReadResult::EndOfStream
    } else if would_block {
        ReadResult::NoMoreData
    } else {
        ReadResult::EndOfStream
    }
}

/// Why the bytes at the front of the stream are not a message.
#[derive(Clone, Copy, Debug, PartialEq, Eq, Structural)]
pub enum ReadError {
    /// The header's object id is zero, or its size is smaller than a header.
    InvalidHeader,
}

/// Bytes received and not yet handled, and the descriptors received with them.
pub struct Reader {
    buffer: Vec<u8>,
    current_offset: usize,
    fds: VecDeque<i32>,
}

impl Reader {
    pub closed spec fn wf(&self) -> bool {
        self.current_offset <= self.buffer@.len() <= BUFFER_SIZE
    }

    /// The bytes received and not yet handled.
    pub closed spec fn pending(&self) -> Seq<u8> {
        self.buffer@.skip(self.current_offset as int)
    }

    /// The descriptors received and not yet taken by a request.
    pub closed spec fn fd_queue(&self) -> Seq<i32> {
        self.fds@
    }

    /// How many more bytes the buffer can take now.
    pub closed spec fn free(&self) -> nat {
        (BUFFER_SIZE - self.buffer@.len()) as nat
    }

    pub fn new() -> (r: Reader)
        ensures
            r.wf(),
            r.pending() == Seq::<u8>::empty(),
            r.fd_queue() == Seq::<i32>::empty(),
            r.free() == BUFFER_SIZE,
    {
        let r = Reader { buffer: Vec::new(), current_offset: 0, fds: VecDeque::new() };
        assert(r.buffer@.skip(0) =~= Seq::<u8>::empty());
        r
    }

    /// How many more bytes the buffer can take now.
    pub fn free_space(&self) -> (r: usize)
        requires
            self.wf(),
        ensures
            r == self.free(),
            r + self.pending().len() <= BUFFER_SIZE,
    {
        BUFFER_SIZE - self.buffer.len()
    }

    /// Appends received bytes and descriptors.
    pub fn receive(&mut self, data: &[u8], fds: &[i32])
        requires
            old(self).wf(),
            data@.len() <= old(self).free(),
        ensures
            final(self).wf(),
            final(self).pending() == old(self).pending() + data@,
            final(self).fd_queue() == old(self).fd_queue() + fds@,
            final(self).free() == old(self).free() - data@.len(),
    {
        let mut i: usize = 0;
        while i < data.len()
            invariant
                i <= data@.len(),
                self.current_offset == old(self).current_offset,
                self.buffer@ == old(self).buffer@ + data@.take(i as int),
                data@.len() <= BUFFER_SIZE - old(self).buffer@.len(),
                self.fds@ == old(self).fds@,
            decreases data@.len() - i,
        {
            self.buffer.push(data[i]);
            i = i + 1;
            assert(self.buffer@ =~= old(self).buffer@ + data@.take(i as int));
        }
        let mut j: usize = 0;
        while j < fds.len()
            invariant
                j <= fds@.len(),
                self.current_offset == old(self).current_offset,
                self.buffer@ == old(self).buffer@ + data@,
                self.fds@ == old(self).fds@ + fds@.take(j as int),
            decreases fds@.len() - j,
        {
            self.fds.push_back(fds[j]);
            j = j + 1;
            assert(self.fds@ =~= old(self).fds@ + fds@.take(j as int));
        }
        assert(data@.take(data@.len() as int) =~= data@);
        assert(fds@.take(fds@.len() as int) =~= fds@);
        assert(self.buffer@.skip(self.current_offset as int) =~= old(self).buffer@.skip(
            self.current_offset as int,
        ) + data@);
    }

    /// The first message of the pending bytes, without consuming it: `None` when
    /// it has not arrived whole, an error when its header is invalid.
    pub fn next(&self) -> (r: Result<Option<(MessageHeader, Vec<u8>)>, ReadError>)
        requires
            self.wf(),
        ensures
            match parse_frame(self.pending()) {
                Framed::Incomplete => r == Ok::<Option<(MessageHeader, Vec<u8>)>, ReadError>(None),
                Framed::Invalid => r == Err::<Option<(MessageHeader, Vec<u8>)>, ReadError>(
                    ReadError::InvalidHeader,
                ),
                Framed::Message(h, body) => r is Ok && r->Ok_0 is Some && r->Ok_0->Some_0.0 == h
                    && r->Ok_0->Some_0.1@ == body,
            },
    {
        let off = self.current_offset;
        let b = self.buffer.as_slice();
        let ghost p = b@.skip(off as int);
        match read_header(b, off) {
            None => Ok(None),
            Some(h) => {
                if h.object_id == 0 || h.size < 8 {
                    return Err(ReadError::InvalidHeader);
                }
                if h.size as usize > b.len() - off {
                    return Ok(None);
                }
                let body = copy_range(b, off + 8, off + h.size as usize);
                assert(body@ =~= p.subrange(8, h.size as int));
                Ok(Some((h, body)))
            },
        }
    }

    /// Advances past a handled message of `n` bytes. When everything is
    /// handled the buffer starts over; when it is within one message of full
    /// the remainder moves to the front.
    pub fn message_handled(&mut self, n: usize)
        requires
            old(self).wf(),
            n <= old(self).pending().len(),
        ensures
            final(self).wf(),
            final(self).pending() == old(self).pending().skip(n as int),
            final(self).fd_queue() == old(self).fd_queue(),
            final(self).free() >= MAX_MESSAGE_SIZE || final(self).free()
                + final(self).pending().len() == BUFFER_SIZE,
            old(self).pending().len() == n ==> final(self).free() == BUFFER_SIZE,
    {
        self.current_offset = self.current_offset + n;
        assert(self.buffer@.skip(self.current_offset as int) =~= old(self).pending().skip(
            n as int,
        ));
        if self.current_offset == self.buffer.len() {
            self.buffer.clear();
            self.current_offset = 0;
            assert(self.buffer@.skip(0) =~= old(self).pending().skip(n as int));
        } else if BUFFER_SIZE - self.buffer.len() < MAX_MESSAGE_SIZE {
            let rest = copy_range(self.buffer.as_slice(), self.current_offset, self.buffer.len());
            self.buffer = rest;
            self.current_offset = 0;
            assert(self.buffer@.skip(0) =~= old(self).pending().skip(n as int));
        }
    }

    /// Decodes a request body against its signature, taking the signature's
    /// descriptors from the front of the queue.
    pub fn decode_args(&mut self, sig: &[ArgType], body: &[u8]) -> (r: Vec<Arg>)
        requires
            old(self).wf(),
        ensures
            final(self).wf(),
            final(self).pending() == old(self).pending(),
            final(self).free() == old(self).free(),
            final(self).fd_queue() == drop_fds(old(self).fd_queue(), fd_count(sig@)),
            arg_values(r@) == decode_args(sig@, body@, take_fds(old(self).fd_queue(), fd_count(sig@))),
    {
        decode_request(sig, body, &mut self.fds)
    }
}

} // verus!
