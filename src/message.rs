//! Typed request and event arguments, and their encoding in a message body.
use crate::wire::{
    copy_range, lemma_padded, lemma_u32_round_trip, pad4, padded, read_u32, u32_at, u32_le,
};
use std::collections::VecDeque;
use vstd::prelude::*;

verus! {

/// The wire type of one argument.
#[derive(Clone, Copy, Debug, PartialEq, Eq, Structural)]
pub enum ArgType {
    Int,
    Uint,
    Fixed,
    Str,
    Object,
    NewId,
    Array,
    Fd,
}

/// One argument value. A string is held without its terminating NUL; a null
/// string is `Str(None)`. An `Fd` travels out of band, not in the body.
#[derive(Clone, Debug)]
pub enum Arg {
    Int(i32),
    Uint(u32),
    Fixed(i32),
    Str(Option<Vec<u8>>),
    Object(u32),
    NewId(u32),
    Array(Vec<u8>),
    Fd(i32),
}

/// The mathematical value of an argument.
pub enum ArgValue {
    Int(i32),
    Uint(u32),
    Fixed(i32),
    Str(Option<Seq<u8>>),
    Object(u32),
    NewId(u32),
    Array(Seq<u8>),
    Fd(i32),
}

impl View for Arg {
    type V = ArgValue;

    open spec fn view(&self) -> ArgValue {
        match self {
            Arg::Int(v) => ArgValue::Int(*v),
            Arg::Uint(v) => ArgValue::Uint(*v),
            Arg::Fixed(v) => ArgValue::Fixed(*v),
            Arg::Str(None) => ArgValue::Str(None),
            Arg::Str(Some(s)) => ArgValue::Str(Some(s@)),
            Arg::Object(v) => ArgValue::Object(*v),
            Arg::NewId(v) => ArgValue::NewId(*v),
            Arg::Array(a) => ArgValue::Array(a@),
            Arg::Fd(v) => ArgValue::Fd(*v),
        }
    }
}

/// The values of a sequence of arguments.
pub open spec fn arg_values(args: Seq<Arg>) -> Seq<ArgValue> {
    Seq::new(args.len(), |i: int| args[i]@)
}

/// The wire type of an argument value.
pub open spec fn type_of(a: ArgValue) -> ArgType {
    match a {
        ArgValue::Int(_) => ArgType::Int,
        ArgValue::Uint(_) => ArgType::Uint,
        ArgValue::Fixed(_) => ArgType::Fixed,
        ArgValue::Str(_) => ArgType::Str,
        ArgValue::Object(_) => ArgType::Object,
        ArgValue::NewId(_) => ArgType::NewId,
        ArgValue::Array(_) => ArgType::Array,
        ArgValue::Fd(_) => ArgType::Fd,
    }
}

/// An argument whose length prefix fits in 32 bits.
pub open spec fn encodable(a: ArgValue) -> bool {
    match a {
        ArgValue::Str(Some(s)) => s.len() + 4 < u32::MAX,
        ArgValue::Array(b) => b.len() + 4 < u32::MAX,
        _ => true,
    }
}

/// Arguments that have the types of a signature, one for one.
pub open spec fn conforms(args: Seq<ArgValue>, sig: Seq<ArgType>) -> bool {
    &&& args.len() == sig.len()
    &&& forall|i: int| 0 <= i < args.len() ==> type_of(#[trigger] args[i]) == sig[i]
    &&& forall|i: int| 0 <= i < args.len() ==> encodable(#[trigger] args[i])
}

/// The body bytes of one argument.
pub open spec fn encode_arg(a: ArgValue) -> Seq<u8> {
    match a {
        ArgValue::Int(v) => u32_le(v as u32),
        ArgValue::Uint(v) => u32_le(v),
        ArgValue::Fixed(v) => u32_le(v as u32),
        ArgValue::Str(None) => u32_le(0),
        ArgValue::Str(Some(s)) => u32_le((s.len() + 1) as u32) + padded(s.push(0)),
        ArgValue::Object(v) => u32_le(v),
        ArgValue::NewId(v) => u32_le(v),
        ArgValue::Array(b) => u32_le(b.len() as u32) + padded(b),
        ArgValue::Fd(_) => Seq::empty(),
    }
}

/// The body bytes of a sequence of arguments, in order.
pub open spec fn encode_args(args: Seq<ArgValue>) -> Seq<u8>
    decreases args.len(),
{
    if args.len() == 0 {
        Seq::empty()
    } else {
        encode_arg(args[0]) + encode_args(args.drop_first())
    }
}

/// The file descriptors that travel with a sequence of arguments, in order.
pub open spec fn fds_of(args: Seq<ArgValue>) -> Seq<i32>
    decreases args.len(),
{
    if args.len() == 0 {
        Seq::empty()
    } else {
        match args[0] {
            ArgValue::Fd(fd) => seq![fd] + fds_of(args.drop_first()),
            _ => fds_of(args.drop_first()),
        }
    }
}

/// The number of fd-typed arguments of a signature.
pub open spec fn fd_count(sig: Seq<ArgType>) -> nat
    decreases sig.len(),
{
    if sig.len() == 0 {
        0
    } else {
        (if sig[0] == ArgType::Fd {
            1nat
        } else {
            0nat
        }) + fd_count(sig.drop_first())
    }
}

/// The first `k` descriptors of a queue, with `-1` standing for each one missing.
pub open spec fn take_fds(q: Seq<i32>, k: nat) -> Seq<i32> {
    Seq::new(k, |i: int| if i < q.len() { q[i] } else { -1i32 })
}

/// The queue left after taking `k` descriptors from its front.
pub open spec fn drop_fds(q: Seq<i32>, k: nat) -> Seq<i32> {
    if k <= q.len() {
        q.skip(k as int)
    } else {
        Seq::empty()
    }
}

/// The 32-bit value at the front of `b`, or zero where `b` is shorter than that.
pub open spec fn word_at_front(b: Seq<u8>) -> u32 {
    if b.len() >= 4 {
        u32_at(b, 0)
    } else {
        0
    }
}

/// One inline argument read from the front of `b`, with the number of bytes
/// it takes. Where the body is too short, a number reads as zero, a string as
/// null and an array as empty: a missing length prefix takes four bytes, and
/// a length prefix whose bytes are missing takes its padded length.
#[verifier::opaque]
pub open spec fn decode_arg(t: ArgType, b: Seq<u8>) -> (ArgValue, nat) {
    let w = word_at_front(b);
    match t {
        ArgType::Int => (ArgValue::Int(w as i32), 4),
        ArgType::Uint => (ArgValue::Uint(w), 4),
        ArgType::Fixed => (ArgValue::Fixed(w as i32), 4),
        ArgType::Object => (ArgValue::Object(w), 4),
        ArgType::NewId => (ArgValue::NewId(w), 4),
        ArgType::Str => if b.len() < 4 || w == 0 {
            (ArgValue::Str(None), 4)
        } else if 4 + w - 1 <= b.len() {
            (ArgValue::Str(Some(b.subrange(4, 4 + w - 1))), 4 + pad4(w as nat))
        } else {
            (ArgValue::Str(None), 4 + pad4(w as nat))
        },
        ArgType::Array => if b.len() < 4 {
            (ArgValue::Array(Seq::empty()), 4)
        } else if 4 + w <= b.len() {
            (ArgValue::Array(b.subrange(4, 4 + w)), 4 + pad4(w as nat))
        } else {
            (ArgValue::Array(Seq::empty()), 4 + pad4(w as nat))
        },
        ArgType::Fd => (ArgValue::Fd(-1i32), 0),
    }
}

/// What is left of `b` after its first `n` bytes.
pub open spec fn advance(b: Seq<u8>, n: nat) -> Seq<u8> {
    if n <= b.len() {
        b.skip(n as int)
    } else {
        Seq::empty()
    }
}

/// The arguments of a signature read from a body, each fd-typed argument taking
/// the next descriptor of `fds`, or `-1` when none is left.
pub open spec fn decode_args(sig: Seq<ArgType>, b: Seq<u8>, fds: Seq<i32>) -> Seq<ArgValue>
    decreases sig.len(),
{
    if sig.len() == 0 {
        Seq::empty()
    } else if sig[0] == ArgType::Fd {
        if fds.len() == 0 {
            seq![ArgValue::Fd(-1i32)] + decode_args(sig.drop_first(), b, fds)
        } else {
            seq![ArgValue::Fd(fds[0])] + decode_args(sig.drop_first(), b, fds.drop_first())
        }
    } else {
        seq![decode_arg(sig[0], b).0] + decode_args(sig.drop_first(), advance(b, decode_arg(sig[0], b).1), fds)
    }
}

proof fn lemma_i32_bits(v: i32)
    ensures
        (v as u32) as i32 == v,
{
    assert((v as u32) as i32 == v) by (bit_vector);
}

proof fn lemma_decode_arg_round_trip(a: ArgValue, rest: Seq<u8>)
    requires
        encodable(a),
        !(a is Fd),
    ensures
        decode_arg(type_of(a), encode_arg(a) + rest) == (a, encode_arg(a).len()),
        advance(encode_arg(a) + rest, encode_arg(a).len()) == rest,
{
    reveal(decode_arg);
    let e = encode_arg(a);
    assert((e + rest).skip(e.len() as int) =~= rest);
    match a {
        ArgValue::Int(v) => {
            lemma_u32_round_trip(v as u32, rest);
            lemma_i32_bits(v);
        },
        ArgValue::Fixed(v) => {
            lemma_u32_round_trip(v as u32, rest);
            lemma_i32_bits(v);
        },
        ArgValue::Uint(v) => lemma_u32_round_trip(v, rest),
        ArgValue::Object(v) => lemma_u32_round_trip(v, rest),
        ArgValue::NewId(v) => lemma_u32_round_trip(v, rest),
        ArgValue::Str(None) => lemma_u32_round_trip(0, rest),
        ArgValue::Str(Some(s)) => {
            let w = (s.len() + 1) as u32;
            let tail = padded(s.push(0)) + rest;
            lemma_u32_round_trip(w, tail);
            lemma_padded(s.push(0));
            assert(e + rest =~= u32_le(w) + tail);
            assert((e + rest).subrange(4, 4 + w - 1) =~= s) by {
                assert(padded(s.push(0)).subrange(0, s.len() + 1 as int) == s.push(0));
                assert forall|i: int| 0 <= i < s.len() implies (e + rest).subrange(
                    4,
                    4 + w - 1,
                )[i] == s[i] by {
                    assert((e + rest)[4 + i] == padded(s.push(0))[i]);
                    assert(padded(s.push(0)).subrange(0, s.len() + 1 as int)[i] == s.push(0)[i]);
                }
            }
        },
        ArgValue::Array(b) => {
            let w = b.len() as u32;
            let tail = padded(b) + rest;
            lemma_u32_round_trip(w, tail);
            lemma_padded(b);
            assert(e + rest =~= u32_le(w) + tail);
            assert((e + rest).subrange(4, 4 + w) =~= b) by {
                assert forall|i: int| 0 <= i < b.len() implies (e + rest).subrange(4, 4 + w)[i]
                    == b[i] by {
                    assert((e + rest)[4 + i] == padded(b)[i]);
                    assert(padded(b).subrange(0, b.len() as int)[i] == b[i]);
                }
            }
        },
        ArgValue::Fd(_) => {},
    }
}

proof fn lemma_conforms_tail(sig: Seq<ArgType>, args: Seq<ArgValue>)
    requires
        conforms(args, sig),
        args.len() > 0,
    ensures
        conforms(args.drop_first(), sig.drop_first()),
        type_of(args[0]) == sig[0],
        encodable(args[0]),
{
    let tail = args.drop_first();
    let stail = sig.drop_first();
    assert forall|i: int| 0 <= i < tail.len() implies type_of(#[trigger] tail[i]) == stail[i] by {
        assert(tail[i] == args[i + 1]);
    }
    assert forall|i: int| 0 <= i < tail.len() implies encodable(#[trigger] tail[i]) by {
        assert(tail[i] == args[i + 1]);
    }
}

proof fn lemma_decode_step_fd(sig: Seq<ArgType>, args: Seq<ArgValue>, rest: Seq<u8>)
    requires
        args.len() > 0,
        sig.len() > 0,
        args[0] is Fd,
        sig[0] == ArgType::Fd,
        decode_args(sig.drop_first(), encode_args(args.drop_first()) + rest, fds_of(args.drop_first()))
            == args.drop_first(),
    ensures
        decode_args(sig, encode_args(args) + rest, fds_of(args)) == args,
{
    let fd = args[0]->Fd_0;
    let tail = args.drop_first();
    assert(encode_arg(args[0]) =~= Seq::<u8>::empty());
    assert(encode_args(args) + rest =~= encode_args(tail) + rest);
    assert(fds_of(args) == seq![fd] + fds_of(tail));
    assert((seq![fd] + fds_of(tail)).drop_first() =~= fds_of(tail));
    assert(seq![ArgValue::Fd(fd)] + tail =~= args);
}

proof fn lemma_decode_step_inline(sig: Seq<ArgType>, args: Seq<ArgValue>, rest: Seq<u8>)
    requires
        args.len() > 0,
        sig.len() > 0,
        !(args[0] is Fd),
        sig[0] == type_of(args[0]),
        encodable(args[0]),
        decode_args(sig.drop_first(), encode_args(args.drop_first()) + rest, fds_of(args.drop_first()))
            == args.drop_first(),
    ensures
        decode_args(sig, encode_args(args) + rest, fds_of(args)) == args,
{
    let a = args[0];
    let tail = args.drop_first();
    let x = encode_args(tail) + rest;
    let b = encode_args(args) + rest;
    let f = fds_of(args);
    lemma_decode_arg_round_trip(a, x);
    assert(b =~= encode_arg(a) + x);
    assert(f == fds_of(tail));
    assert(decode_arg(sig[0], b) == (a, encode_arg(a).len()));
    assert(advance(b, decode_arg(sig[0], b).1) == x);
    assert(seq![a] + tail =~= args);
}

/// Decoding the body and descriptors that a list of arguments encodes to gives
/// back the same arguments, whatever bytes follow the body.
pub proof fn lemma_args_round_trip(sig: Seq<ArgType>, args: Seq<ArgValue>, rest: Seq<u8>)
    requires
        conforms(args, sig),
    ensures
        decode_args(sig, encode_args(args) + rest, fds_of(args)) == args,
    decreases args.len(),
{
    if args.len() == 0 {
        assert(args =~= Seq::<ArgValue>::empty());
    } else {
        lemma_conforms_tail(sig, args);
        lemma_args_round_trip(sig.drop_first(), args.drop_first(), rest);
        if args[0] is Fd {
            lemma_decode_step_fd(sig, args, rest);
        } else {
            lemma_decode_step_inline(sig, args, rest);
        }
    }
}

/// Reads one inline argument of type `t` at `off`, with the number of bytes it takes.
fn decode_one(t: ArgType, body: &[u8], off: usize) -> (r: (Arg, u64))
    requires
        t != ArgType::Fd,
        off <= body@.len(),
    ensures
        decode_arg(t, body@.skip(off as int)) == (r.0@, r.1 as nat),
{
    let ghost b = body@.skip(off as int);
    reveal(decode_arg);
    let avail = body.len() - off;
    let w: u32 = if avail >= 4 {
        let w = read_u32(body, off);
        assert(u32_at(b, 0) == w) by {
            assert(b[0] == body@[off as int] && b[1] == body@[off + 1] && b[2] == body@[off + 2]
                && b[3] == body@[off + 3]);
        }
        w
    } else {
        0
    };
    assert(w == word_at_front(b));
    match t {
        ArgType::Int => (Arg::Int(w as i32), 4),
        ArgType::Uint => (Arg::Uint(w), 4),
        ArgType::Fixed => (Arg::Fixed(w as i32), 4),
        ArgType::Object => (Arg::Object(w), 4),
        ArgType::NewId => (Arg::NewId(w), 4),
        ArgType::Str => {
            if avail < 4 || w == 0 {
                return (Arg::Str(None), 4);
            }
            let need: u64 = 4 + (w as u64 + 3) / 4 * 4;
            if (w as u64) + 3 > avail as u64 {
                return (Arg::Str(None), need);
            }
            assert((w as usize) + 3 <= avail);
            let start = off + 4;
            let s = copy_range(body, start, start + ((w as usize) - 1));
            assert(s@ =~= b.subrange(4, 4 + w - 1));
            (Arg::Str(Some(s)), need)
        },
        ArgType::Array => {
            if avail < 4 {
                return (Arg::Array(Vec::new()), 4);
            }
            let need: u64 = 4 + (w as u64 + 3) / 4 * 4;
            if (w as u64) + 4 > avail as u64 {
                return (Arg::Array(Vec::new()), need);
            }
            assert((w as usize) + 4 <= avail);
            let start = off + 4;
            let a = copy_range(body, start, start + (w as usize));
            assert(a@ =~= b.subrange(4, 4 + w));
            (Arg::Array(a), need)
        },
        ArgType::Fd => (Arg::Fd(-1), 0),
    }
}

/// Counts the fd-typed arguments of a signature.
pub fn count_fds(sig: &[ArgType]) -> (k: usize)
    ensures
        k == fd_count(sig@),
{
    let mut k: usize = 0;
    let mut i: usize = 0;
    assert(sig@ =~= sig@.skip(0));
    while i < sig.len()
        invariant
            i <= sig@.len(),
            k <= i,
            k + fd_count(sig@.skip(i as int)) == fd_count(sig@),
        decreases sig@.len() - i,
    {
        assert(sig@.skip(i as int).drop_first() =~= sig@.skip(i + 1));
        if sig[i] == ArgType::Fd {
            k = k + 1;
        }
        i = i + 1;
    }
    assert(sig@.skip(i as int) =~= Seq::<ArgType>::empty());
    k
}

/// Takes `k` descriptors from the front of the queue; `-1` stands for each one missing.
pub fn take_front_fds(fds: &mut VecDeque<i32>, k: usize) -> (taken: Vec<i32>)
    ensures
        taken@ == take_fds(old(fds)@, k as nat),
        final(fds)@ == drop_fds(old(fds)@, k as nat),
{
    let ghost q = old(fds)@;
    let mut taken: Vec<i32> = Vec::with_capacity(k);
    let mut j: usize = 0;
    while j < k
        invariant
            j <= k,
            taken@ == take_fds(q, j as nat),
            fds@ == drop_fds(q, j as nat),
        decreases k - j,
    {
        match fds.pop_front() {
            Some(fd) => {
                taken.push(fd);
            },
            None => {
                taken.push(-1);
            },
        }
        j = j + 1;
        assert(taken@ =~= take_fds(q, j as nat));
        assert(fds@ =~= drop_fds(q, j as nat));
    }
    taken
}


/// Decodes a request body against its signature. Each fd-typed argument takes
/// the next descriptor from the front of `fds`, or `-1` where none is left;
/// the signature's descriptors leave the queue. A body too short for the
/// signature reads as zeros, null strings and empty arrays.
pub fn decode_request(sig: &[ArgType], body: &[u8], fds: &mut VecDeque<i32>) -> (r: Vec<Arg>)
    ensures
        final(fds)@ == drop_fds(old(fds)@, fd_count(sig@)),
        arg_values(r@) == decode_args(sig@, body@, take_fds(old(fds)@, fd_count(sig@))),
{
    let k = count_fds(sig);
    let taken = take_front_fds(fds, k);
    let ghost full = decode_args(sig@, body@, taken@);
    let mut out: Vec<Arg> = Vec::new();
    let mut i: usize = 0;
    let mut off: usize = 0;
    let mut j: usize = 0;
    let blen = body.len();
    assert(sig@.skip(0) =~= sig@);
    assert(body@.skip(0) =~= body@);
    assert(taken@.skip(0) =~= taken@);
    assert(arg_values(out@) =~= Seq::<ArgValue>::empty());
    while i < sig.len()
        invariant
            i <= sig@.len(),
            off <= body@.len(),
            blen == body@.len(),
            j <= taken@.len(),
            full == decode_args(sig@, body@, taken@),
            full == arg_values(out@) + decode_args(sig@.skip(i as int), body@.skip(off as int), taken@.skip(j as int)),
        decreases sig@.len() - i,
    {
        let ghost s = sig@.skip(i as int);
        let ghost b = body@.skip(off as int);
        let ghost f = taken@.skip(j as int);
        assert(s.drop_first() =~= sig@.skip(i + 1));
        let ghost before = arg_values(out@);
        if sig[i] == ArgType::Fd {
            if j < taken.len() {
                let fd = taken[j];
                assert(f.drop_first() =~= taken@.skip(j + 1));
                out.push(Arg::Fd(fd));
                j = j + 1;
                assert(arg_values(out@) =~= before + seq![ArgValue::Fd(fd)]);
            } else {
                assert(f.len() == 0);
                out.push(Arg::Fd(-1));
                assert(arg_values(out@) =~= before + seq![ArgValue::Fd(-1i32)]);
            }
        } else {
            let (a, n) = decode_one(sig[i], body, off);
            let ghost av = a@;
            out.push(a);
            assert(arg_values(out@) =~= before + seq![av]);
            if n <= (blen - off) as u64 {
                assert(b.skip(n as int) =~= body@.skip(off + n));
                off = off + n as usize;
            } else {
                assert(body@.skip(blen as int) =~= Seq::<u8>::empty());
                off = blen;
            }
        }
        proof {
            let rest = decode_args(sig@.skip(i + 1), body@.skip(off as int), taken@.skip(j as int));
            assert(before + (seq![arg_values(out@).last()] + rest) =~= arg_values(out@) + rest);
        }
        i = i + 1;
    }
    proof {
        assert(sig@.skip(i as int) =~= Seq::<ArgType>::empty());
        assert(arg_values(out@) + Seq::<ArgValue>::empty() =~= arg_values(out@));
    }
    out
}

/// A body that starts with four bytes decodes, as a lone new id, to the
/// 32-bit value of those bytes.
pub proof fn lemma_decode_new_id(b: Seq<u8>, fds: Seq<i32>)
    requires
        b.len() >= 4,
    ensures
        decode_args(seq![ArgType::NewId], b, fds) == seq![ArgValue::NewId(u32_at(b, 0))],
{
    reveal(decode_arg);
    let sig = seq![ArgType::NewId];
    assert(sig.drop_first() =~= Seq::<ArgType>::empty());
    assert(sig[0] != ArgType::Fd);
    assert(decode_arg(ArgType::NewId, b) == (ArgValue::NewId(u32_at(b, 0)), 4nat));
    assert(decode_args(sig.drop_first(), advance(b, 4), fds) == Seq::<ArgValue>::empty());
    assert(seq![ArgValue::NewId(u32_at(b, 0))] + Seq::<ArgValue>::empty() =~= seq![ArgValue::NewId(u32_at(b, 0))]);
}

} // verus!
