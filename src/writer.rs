//! Outgoing messages: framing into a send buffer, the descriptors that go
//! with them, and the latched error.
use crate::message::{arg_values, encode_arg, encode_args, fds_of, Arg, ArgValue};
use crate::wire::{frame, push_padded, push_u16, push_u32, u16_le, u32_le, MAX_MESSAGE_SIZE};
use vstd::prelude::*;
use vstd::slice::slice_subrange;

verus! {

/// The most descriptors that one send can carry.
pub const MAX_FDS_IN_CMSG: usize = 253;

/// Why a writer stopped accepting messages.
#[derive(Clone, Copy, Debug, PartialEq, Eq, Structural)]
pub enum WriteError {
    /// A message would be longer than a frame can state.
    MessageTooLarge,
    /// Sending buffered bytes to the peer failed.
    SendFailed,
}

/// A message body fits in one frame.
pub open spec fn fits(args: Seq<ArgValue>) -> bool {
    8 + encode_args(args).len() <= MAX_MESSAGE_SIZE
}

/// Appends the body bytes of one argument; `false`, with nothing appended, when
/// the argument alone is longer than a frame.
fn encode_arg_into(out: &mut Vec<u8>, a: &Arg) -> (ok: bool)
    ensures
        ok ==> final(out)@ == old(out)@ + encode_arg(a@),
        !ok ==> final(out)@ == old(out)@ && encode_arg(a@).len() > MAX_MESSAGE_SIZE,
        a@ matches ArgValue::Str(Some(s)) ==> (ok <==> s.len() < MAX_MESSAGE_SIZE),
{
    match a {
        Arg::Int(v) => push_u32(out, *v as u32),
        Arg::Uint(v) => push_u32(out, *v),
        Arg::Fixed(v) => push_u32(out, *v as u32),
        Arg::Object(v) => push_u32(out, *v),
        Arg::NewId(v) => push_u32(out, *v),
        Arg::Str(None) => push_u32(out, 0),
        Arg::Str(Some(s)) => {
            if s.len() >= MAX_MESSAGE_SIZE {
                return false;
            }
            push_u32(out, (s.len() + 1) as u32);
            let mut t = s.clone();
            t.push(0u8);
            proof {
                assert(t@ =~= s@.push(0));
            }
            push_padded(out, t.as_slice());
            assert(out@ =~= old(out)@ + encode_arg(a@));
        },
        Arg::Array(b) => {
            if b.len() >= MAX_MESSAGE_SIZE {
                return false;
            }
            push_u32(out, b.len() as u32);
            push_padded(out, b.as_slice());
            assert(out@ =~= old(out)@ + encode_arg(a@));
        },
        Arg::Fd(_) => {
            assert(out@ =~= old(out)@ + encode_arg(a@));
        },
    }
    true
}

/// How a writer changes when it is asked to send one message: nothing changes
/// while an error is latched; a message too long for a frame latches
/// `MessageTooLarge`; otherwise the frame and the message's descriptors are
/// appended.
pub open spec fn wrote(before: Writer, after: Writer, object_id: u32, opcode: u16, args: Seq<ArgValue>) -> bool {
    if before.error() is Some {
        after == before
    } else if fits(args) {
        &&& after.bytes() == before.bytes() + frame(object_id, opcode, encode_args(args))
        &&& after.fd_queue() == before.fd_queue() + fds_of(args)
        &&& after.error() is None
    } else {
        &&& after.bytes() == before.bytes()
        &&& after.fd_queue() == before.fd_queue()
        &&& after.error() == Some(WriteError::MessageTooLarge)
    }
}

/// A buffer of framed outgoing messages and the descriptors that go with them.
/// Once an error is latched every further write is ignored, until the error
/// is taken.
pub struct Writer {
    buffer: Vec<u8>,
    fds: Vec<i32>,
    last_err: Option<WriteError>,
    message_start: Option<usize>,
}

impl Writer {
    /// The bytes waiting to be sent.
    pub closed spec fn bytes(&self) -> Seq<u8> {
        self.buffer@
    }

    /// The descriptors waiting to be sent.
    pub closed spec fn fd_queue(&self) -> Seq<i32> {
        self.fds@
    }

    /// The latched error, if any.
    pub closed spec fn error(&self) -> Option<WriteError> {
        self.last_err
    }

    /// Where the message being built by `start_message` begins, if one is open.
    pub closed spec fn open_message(&self) -> Option<nat> {
        match self.message_start {
            Some(i) => Some(i as nat),
            None => None,
        }
    }

    /// An empty writer.
    pub fn new() -> (w: Writer)
        ensures
            w.open_message() is None,
            w.bytes() == Seq::<u8>::empty(),
            w.fd_queue() == Seq::<i32>::empty(),
            w.error() is None,
    {
        Writer { buffer: Vec::new(), fds: Vec::new(), last_err: None, message_start: None }
    }

    /// Appends one framed message with the given arguments. A message too long
    /// for a frame latches `MessageTooLarge` instead.
    pub fn write_message(&mut self, object_id: u32, opcode: u16, args: &Vec<Arg>)
        ensures
            wrote(*old(self), *final(self), object_id, opcode, arg_values(args@)),
    {
        if self.last_err.is_some() {
            return;
        }
        let ghost all = arg_values(args@);
        let mut body: Vec<u8> = Vec::new();
        let mut new_fds: Vec<i32> = Vec::new();
        let mut i: usize = 0;
        assert(all.skip(0) =~= all);
        while i < args.len()
            invariant
                i <= args@.len(),
                all == arg_values(args@),
                body@.len() <= MAX_MESSAGE_SIZE - 8,
                encode_args(all) == body@ + encode_args(all.skip(i as int)),
                fds_of(all) == new_fds@ + fds_of(all.skip(i as int)),
                self.last_err is None,
                *self == *old(self),
            decreases args@.len() - i,
        {
            let ghost rest = all.skip(i as int);
            assert(rest.drop_first() =~= all.skip(i + 1));
            assert(rest[0] == args@[i as int]@);
            let ghost before = body@;
            let ok = encode_arg_into(&mut body, &args[i]);
            if !ok || body.len() > MAX_MESSAGE_SIZE - 8 {
                proof {
                    assert(encode_args(rest) == encode_arg(rest[0]) + encode_args(rest.drop_first()));
                    assert(encode_args(all).len() >= before.len() + encode_arg(rest[0]).len());
                }
                self.last_err = Some(WriteError::MessageTooLarge);
                return;
            }
            assert(encode_args(all) == body@ + encode_args(all.skip(i + 1))) by {
                assert(encode_args(rest) == encode_arg(rest[0]) + encode_args(rest.drop_first()));
                assert(before + (encode_arg(rest[0]) + encode_args(all.skip(i + 1))) =~= body@
                    + encode_args(all.skip(i + 1)));
            }
            match &args[i] {
                Arg::Fd(fd) => {
                    new_fds.push(*fd);
                    assert(fds_of(rest) == seq![*fd] + fds_of(rest.drop_first()));
                },
                _ => {
                    assert(fds_of(rest) == fds_of(rest.drop_first()));
                },
            }
            assert(fds_of(all) =~= new_fds@ + fds_of(all.skip(i + 1)));
            i = i + 1;
        }
        assert(all.skip(i as int) =~= Seq::<ArgValue>::empty());
        assert(body@ + Seq::<u8>::empty() =~= body@);
        assert(new_fds@ + Seq::<i32>::empty() =~= new_fds@);
        push_u32(&mut self.buffer, object_id);
        push_u16(&mut self.buffer, (8 + body.len()) as u16);
        push_u16(&mut self.buffer, opcode);
        self.buffer.append(&mut body);
        self.fds.append(&mut new_fds);
        assert(self.buffer@ =~= old(self).buffer@ + frame(object_id, opcode, encode_args(all)));
    }

    /// Whether the buffered bytes or descriptors have grown enough to be sent now.
    pub fn needs_flush(&self) -> (r: bool)
        ensures
            r == (self.bytes().len() >= MAX_MESSAGE_SIZE || self.fd_queue().len()
                > MAX_FDS_IN_CMSG / 2),
    {
        self.buffer.len() >= MAX_MESSAGE_SIZE || self.fds.len() > MAX_FDS_IN_CMSG / 2
    }

    /// The bytes to hand to the next send: at most one frame's worth.
    pub fn outgoing_bytes(&self) -> (r: &[u8])
        ensures
            r@ == self.bytes().take(
                if self.bytes().len() < MAX_MESSAGE_SIZE {
                    self.bytes().len() as int
                } else {
                    MAX_MESSAGE_SIZE as int
                },
            ),
    {
        let n = if self.buffer.len() < MAX_MESSAGE_SIZE {
            self.buffer.len()
        } else {
            MAX_MESSAGE_SIZE
        };
        let r = slice_subrange(self.buffer.as_slice(), 0, n);
        assert(r@ =~= self.buffer@.take(n as int));
        r
    }

    /// The descriptors to hand to the next send.
    pub fn outgoing_fds(&self) -> (r: &[i32])
        ensures
            r@ == self.fd_queue(),
    {
        self.fds.as_slice()
    }

    /// Records that a send took the first `n` buffered bytes; the descriptors
    /// travel with the first byte sent.
    pub fn mark_sent(&mut self, n: usize)
        requires
            n <= old(self).bytes().len(),
        ensures
            final(self).bytes() == old(self).bytes().skip(n as int),
            n > 0 ==> final(self).fd_queue() == Seq::<i32>::empty() && final(self).open_message() is None,
            n == 0 ==> final(self).fd_queue() == old(self).fd_queue(),
            final(self).error() == old(self).error(),
    {
        if n == 0 {
            return;
        }
        let rest = crate::wire::copy_range(self.buffer.as_slice(), n, self.buffer.len());
        self.buffer = rest;
        self.fds.clear();
        self.message_start = None;
        assert(self.buffer@ =~= old(self).buffer@.skip(n as int));
    }

    /// Latches an error; later writes are ignored until it is taken.
    pub fn latch_error(&mut self, e: WriteError)
        ensures
            final(self).error() == Some(e),
            final(self).bytes() == old(self).bytes(),
            final(self).fd_queue() == old(self).fd_queue(),
    {
        self.last_err = Some(e);
    }

    /// Takes the latched error, if any, and clears it.
    pub fn last_err(&mut self) -> (r: Option<WriteError>)
        ensures
            r == old(self).error(),
            final(self).error() is None,
            final(self).bytes() == old(self).bytes(),
            final(self).fd_queue() == old(self).fd_queue(),
    {
        let r = self.last_err;
        self.last_err = None;
        r
    }

    /// The bytes waiting to be sent.
    pub fn buffered(&self) -> (r: &[u8])
        ensures
            r@ == self.bytes(),
    {
        self.buffer.as_slice()
    }

    /// Starts a message: the object id, a size to be patched, the opcode.
    pub fn start_message(&mut self, object_id: u32, opcode: u16)
        ensures
            old(self).error() is Some ==> *final(self) == *old(self),
            old(self).error() is None ==> {
                &&& final(self).bytes() == old(self).bytes() + u32_le(object_id) + u16_le(0) + u16_le(opcode)
                &&& final(self).open_message() == Some(old(self).bytes().len())
                &&& final(self).fd_queue() == old(self).fd_queue()
                &&& final(self).error() is None
            },
    {
        if self.last_err.is_some() {
            return;
        }
        self.message_start = Some(self.buffer.len());
        push_u32(&mut self.buffer, object_id);
        push_u16(&mut self.buffer, 0);
        push_u16(&mut self.buffer, opcode);
        assert(self.buffer@ =~= old(self).buffer@ + u32_le(object_id) + u16_le(0) + u16_le(opcode));
    }

    /// Appends a `uint`, object or new id argument to the open message.
    pub fn write_u32(&mut self, value: u32)
        ensures
            old(self).error() is Some ==> *final(self) == *old(self),
            old(self).error() is None ==> {
                &&& final(self).bytes() == old(self).bytes() + u32_le(value)
                &&& final(self).open_message() == old(self).open_message()
                &&& final(self).fd_queue() == old(self).fd_queue()
                &&& final(self).error() is None
            },
    {
        if self.last_err.is_some() {
            return;
        }
        push_u32(&mut self.buffer, value);
    }

    /// Appends an `int` or `fixed` argument to the open message.
    pub fn write_i32(&mut self, value: i32)
        ensures
            old(self).error() is Some ==> *final(self) == *old(self),
            old(self).error() is None ==> {
                &&& final(self).bytes() == old(self).bytes() + u32_le(value as u32)
                &&& final(self).open_message() == old(self).open_message()
                &&& final(self).fd_queue() == old(self).fd_queue()
                &&& final(self).error() is None
            },
    {
        self.write_u32(value as u32);
    }

    /// Appends a string argument to the open message: its length with the
    /// terminating NUL, its bytes, the NUL and padding. A string too long for
    /// a frame latches `MessageTooLarge`.
    pub fn write_str(&mut self, value: &[u8])
        ensures
            old(self).error() is Some ==> *final(self) == *old(self),
            old(self).error() is None && value@.len() < MAX_MESSAGE_SIZE ==> {
                &&& final(self).bytes() == old(self).bytes() + encode_arg(ArgValue::Str(Some(value@)))
                &&& final(self).open_message() == old(self).open_message()
                &&& final(self).fd_queue() == old(self).fd_queue()
                &&& final(self).error() is None
            },
            old(self).error() is None && value@.len() >= MAX_MESSAGE_SIZE ==> final(self).error() == Some(
                WriteError::MessageTooLarge,
            ) && final(self).bytes() == old(self).bytes(),
    {
        if self.last_err.is_some() {
            return;
        }
        let arg = Arg::Str(Some(vstd::slice::slice_to_vec(value)));
        if !encode_arg_into(&mut self.buffer, &arg) {
            self.last_err = Some(WriteError::MessageTooLarge);
        }
    }

    /// Attaches a descriptor to the open message.
    pub fn write_fd(&mut self, fd: i32)
        ensures
            old(self).error() is Some ==> *final(self) == *old(self),
            old(self).error() is None ==> {
                &&& final(self).bytes() == old(self).bytes()
                &&& final(self).fd_queue() == old(self).fd_queue().push(fd)
                &&& final(self).open_message() == old(self).open_message()
                &&& final(self).error() is None
            },
    {
        if self.last_err.is_some() {
            return;
        }
        self.fds.push(fd);
    }

    /// Closes the open message by patching its size field; a message longer
    /// than a frame latches `MessageTooLarge`. Without an open message
    /// nothing changes.
    pub fn write_message_length(&mut self)
        ensures
            old(self).error() is Some ==> *final(self) == *old(self),
            old(self).error() is None ==> match old(self).open_message() {
                Some(start) => if start + 8 <= old(self).bytes().len() && old(self).bytes().len() - start <= MAX_MESSAGE_SIZE {
                    &&& final(self).bytes() == patched(old(self).bytes(), start + 4 as int, (old(self).bytes().len() - start) as u16)
                    &&& final(self).open_message() is None
                    &&& final(self).fd_queue() == old(self).fd_queue()
                    &&& final(self).error() is None
                } else {
                    &&& final(self).bytes() == old(self).bytes()
                    &&& final(self).error() == Some(WriteError::MessageTooLarge)
                },
                None => *final(self) == *old(self),
            },
    {
        if self.last_err.is_some() {
            return;
        }
        let start = match self.message_start {
            Some(start) => start,
            None => {
                return;
            },
        };
        let len = self.buffer.len();
        if start > len || len - start < 8 || len - start > MAX_MESSAGE_SIZE {
            self.last_err = Some(WriteError::MessageTooLarge);
            return;
        }
        let size = (len - start) as u16;
        self.buffer.set(start + 4, (size % 256) as u8);
        self.buffer.set(start + 5, (size / 256) as u8);
        self.message_start = None;
        assert(self.buffer@ =~= patched(old(self).buffer@, start + 4, size));
    }
}

/// A message to send: object id, opcode and arguments.
pub type Outgoing = (u32, u16, Seq<ArgValue>);

/// Writer states, one before each message and one after the last, each
/// following from the one before as by `write_message`.
pub open spec fn steps(states: Seq<Writer>, msgs: Seq<Outgoing>) -> bool {
    &&& states.len() == msgs.len() + 1
    &&& forall|i: int|
        0 <= i < msgs.len() ==> wrote(
            #[trigger] states[i],
            states[i + 1],
            msgs[i].0,
            msgs[i].1,
            msgs[i].2,
        )
}

/// How a writer changes when asked to send the messages in order, each as by
/// `write_message`.
pub open spec fn wrote_all(before: Writer, after: Writer, msgs: Seq<Outgoing>) -> bool {
    exists|states: Seq<Writer>|
        #[trigger] steps(states, msgs) && states[0] == before && states.last() == after
}

pub proof fn lemma_wrote_all_push(a: Writer, b: Writer, c: Writer, msgs: Seq<Outgoing>, m: Outgoing)
    requires
        wrote_all(a, b, msgs),
        wrote(b, c, m.0, m.1, m.2),
    ensures
        wrote_all(a, c, msgs.push(m)),
{
    let states = choose|states: Seq<Writer>| #[trigger] steps(states, msgs) && states[0] == a && states.last() == b;
    let ns = states.push(c);
    let nm = msgs.push(m);
    assert forall|i: int| 0 <= i < nm.len() implies wrote(#[trigger] ns[i], ns[i + 1], nm[i].0, nm[i].1, nm[i].2) by {
        if i < msgs.len() {
            assert(ns[i] == states[i] && ns[i + 1] == states[i + 1] && nm[i] == msgs[i]);
        }
    }
    assert(steps(ns, nm));
}

pub proof fn lemma_wrote_all_empty(a: Writer)
    ensures
        wrote_all(a, a, Seq::empty()),
{
    assert(steps(seq![a], Seq::empty()));
}

pub proof fn lemma_wrote_all_one(a: Writer, b: Writer, m: Outgoing)
    requires
        wrote(a, b, m.0, m.1, m.2),
    ensures
        wrote_all(a, b, seq![m]),
{
    lemma_wrote_all_empty(a);
    lemma_wrote_all_push(a, a, b, Seq::empty(), m);
    assert(Seq::<Outgoing>::empty().push(m) =~= seq![m]);
}

/// Bytes with the 16-bit value `v` written over positions `i` and `i + 1`.
pub open spec fn patched(b: Seq<u8>, i: int, v: u16) -> Seq<u8> {
    b.take(i) + u16_le(v) + b.skip(i + 2)
}

/// Starting a message, appending its body and patching its size gives the
/// same bytes as framing the body.
pub proof fn lemma_patched_frame(prefix: Seq<u8>, object_id: u32, opcode: u16, body: Seq<u8>)
    requires
        8 + body.len() <= MAX_MESSAGE_SIZE,
    ensures
        patched(
            prefix + u32_le(object_id) + u16_le(0) + u16_le(opcode) + body,
            prefix.len() + 4 as int,
            (8 + body.len()) as u16,
        ) == prefix + frame(object_id, opcode, body),
{
    let b = prefix + u32_le(object_id) + u16_le(0) + u16_le(opcode) + body;
    assert(b.take(prefix.len() + 4 as int) =~= prefix + u32_le(object_id));
    assert(b.skip(prefix.len() + 6 as int) =~= u16_le(opcode) + body);
    assert(patched(b, prefix.len() + 4 as int, (8 + body.len()) as u16) =~= prefix + frame(object_id, opcode, body));
}

} // verus!
