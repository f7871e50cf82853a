//! The protocol laws, proved against the transcript semantics
//! [`conn_output`].
//!
//! Each law speaks of every connection: a connection's output is a pure
//! function of the anchor address, the served memory region, and that
//! connection's own incoming bytes — never of another connection's — so
//! sessions are independent by construction, and whatever holds of
//! `conn_output` holds of every session [`crate::protocol::handle_connection`]
//! services.

use crate::anchor::{
    anchor_wf, block_bytes, lemma_anchor_header_bytes, ANCHOR_BYTE_SIZE, ANCHOR_MAGIC_HI,
    ANCHOR_MAGIC_LO,
};
use crate::memory::{span_bytes, span_in_bounds};
use crate::protocol::{conn_output, read_request, CMD_ANCHOR, CMD_NOOP, CMD_READ};
use vstd::bytes::{
    lemma_auto_spec_u64_to_from_le_bytes, spec_u32_to_le_bytes, spec_u64_to_le_bytes,
};
use vstd::prelude::*;

verus! {

/// An anchor command at the head of the stream answers with the anchor
/// address as 8 little-endian bytes and leaves the rest of the session
/// unchanged.
pub proof fn lemma_anchor_command(anchor_addr: u64, base: u64, mem: Seq<u8>, rest: Seq<u8>)
    ensures
        conn_output(anchor_addr, base, mem, seq![CMD_ANCHOR] + rest) == spec_u64_to_le_bytes(
            anchor_addr,
        ) + conn_output(anchor_addr, base, mem, rest),
{
    let input = seq![CMD_ANCHOR] + rest;
    assert(input[0] == CMD_ANCHOR);
    assert(input.skip(1) =~= rest);
}

/// A whole read command at the head of the stream answers with exactly the
/// requested span when it lies inside the served region, and ends the
/// session with no further output when it does not (the model's
/// memory-access fault).
pub proof fn lemma_read_command(
    anchor_addr: u64,
    base: u64,
    mem: Seq<u8>,
    addr: u64,
    len: u64,
    rest: Seq<u8>,
)
    ensures
        span_in_bounds(base, mem.len(), addr, len) ==> conn_output(
            anchor_addr,
            base,
            mem,
            read_request(addr, len) + rest,
        ) == span_bytes(base, mem, addr, len) + conn_output(anchor_addr, base, mem, rest),
        !span_in_bounds(base, mem.len(), addr, len) ==> conn_output(
            anchor_addr,
            base,
            mem,
            read_request(addr, len) + rest,
        ) == Seq::<u8>::empty(),
{
    lemma_auto_spec_u64_to_from_le_bytes();
    let input = read_request(addr, len) + rest;
    assert(input[0] == CMD_READ);
    assert(input.len() == 17 + rest.len());
    assert(input.subrange(1, 9) =~= spec_u64_to_le_bytes(addr));
    assert(input.subrange(9, 17) =~= spec_u64_to_le_bytes(len));
    assert(input.skip(17) =~= rest);
}

/// A command byte other than anchor and read draws no response and leaves
/// the session where it was: the loop goes straight back to the next
/// command byte.
pub proof fn lemma_ignored_command(
    anchor_addr: u64,
    base: u64,
    mem: Seq<u8>,
    c: u8,
    rest: Seq<u8>,
)
    requires
        c != CMD_ANCHOR,
        c != CMD_READ,
    ensures
        conn_output(anchor_addr, base, mem, seq![c] + rest) == conn_output(
            anchor_addr,
            base,
            mem,
            rest,
        ),
{
    let input = seq![c] + rest;
    assert(input[0] == c);
    assert(input.skip(1) =~= rest);
}

/// Bootstrapping a session: an anchor command followed by a read of the
/// first 12 bytes at the anchor address returns the address itself and then
/// the block's fixed header — the two magic words and the block's byte
/// size, each as 4 little-endian bytes.
pub proof fn lemma_anchor_bootstrap(anchor_addr: u64, w: Seq<u32>)
    requires
        anchor_wf(w),
    ensures
        conn_output(
            anchor_addr,
            anchor_addr,
            block_bytes(w),
            seq![CMD_ANCHOR] + read_request(anchor_addr, 12),
        ) == spec_u64_to_le_bytes(anchor_addr) + spec_u32_to_le_bytes(ANCHOR_MAGIC_LO)
            + spec_u32_to_le_bytes(ANCHOR_MAGIC_HI) + spec_u32_to_le_bytes(ANCHOR_BYTE_SIZE),
{
    let mem = block_bytes(w);
    let req = read_request(anchor_addr, 12);
    lemma_anchor_command(anchor_addr, anchor_addr, mem, req);
    assert(req + Seq::<u8>::empty() =~= req);
    lemma_read_command(anchor_addr, anchor_addr, mem, anchor_addr, 12, Seq::<u8>::empty());
    assert(span_in_bounds(anchor_addr, mem.len(), anchor_addr, 12));
    let span = span_bytes(anchor_addr, mem, anchor_addr, 12);
    assert(span =~= mem.subrange(0, 12));
    lemma_anchor_header_bytes(w);
    assert(span + Seq::<u8>::empty() =~= span);
    assert(spec_u64_to_le_bytes(anchor_addr) + span =~= spec_u64_to_le_bytes(anchor_addr)
        + spec_u32_to_le_bytes(ANCHOR_MAGIC_LO) + spec_u32_to_le_bytes(ANCHOR_MAGIC_HI)
        + spec_u32_to_le_bytes(ANCHOR_BYTE_SIZE));
}

/// Reading the same in-bounds range twice in one session (the served region
/// does not change between the two) answers twice, and the two responses
/// are byte-for-byte identical.
pub proof fn lemma_read_twice_identical(
    anchor_addr: u64,
    base: u64,
    mem: Seq<u8>,
    addr: u64,
    len: u64,
)
    requires
        span_in_bounds(base, mem.len(), addr, len),
    ensures
        ({
            let out = conn_output(
                anchor_addr,
                base,
                mem,
                read_request(addr, len) + read_request(addr, len),
            );
            &&& out == span_bytes(base, mem, addr, len) + span_bytes(base, mem, addr, len)
            &&& out.subrange(0, len as int) == out.subrange(len as int, 2 * (len as int))
        }),
{
    let req = read_request(addr, len);
    let span = span_bytes(base, mem, addr, len);
    lemma_read_command(anchor_addr, base, mem, addr, len, req);
    assert(req + Seq::<u8>::empty() =~= req);
    lemma_read_command(anchor_addr, base, mem, addr, len, Seq::<u8>::empty());
    assert(span + Seq::<u8>::empty() =~= span);
    let out = conn_output(anchor_addr, base, mem, req + req);
    assert(out == span + span);
    assert(span.len() == len);
    assert(out.subrange(0, len as int) =~= span);
    assert(out.subrange(len as int, 2 * (len as int)) =~= span);
}

/// For every in-bounds request, the response length equals the requested
/// length exactly.
pub proof fn lemma_read_response_length(
    anchor_addr: u64,
    base: u64,
    mem: Seq<u8>,
    addr: u64,
    len: u64,
)
    requires
        span_in_bounds(base, mem.len(), addr, len),
    ensures
        conn_output(anchor_addr, base, mem, read_request(addr, len)).len() == len,
{
    let req = read_request(addr, len);
    assert(req + Seq::<u8>::empty() =~= req);
    lemma_read_command(anchor_addr, base, mem, addr, len, Seq::<u8>::empty());
}

/// Any number of no-op commands draw zero bytes of response and leave the
/// session open and responsive: the output of the stream that follows them
/// is untouched.
pub proof fn lemma_noop_keeps_session(
    anchor_addr: u64,
    base: u64,
    mem: Seq<u8>,
    n: nat,
    rest: Seq<u8>,
)
    ensures
        conn_output(anchor_addr, base, mem, Seq::new(n, |i: int| CMD_NOOP) + rest) == conn_output(
            anchor_addr,
            base,
            mem,
            rest,
        ),
    decreases n,
{
    if n == 0 {
        assert(Seq::new(0, |i: int| CMD_NOOP) + rest =~= rest);
    } else {
        let input = Seq::new(n, |i: int| CMD_NOOP) + rest;
        assert(input[0] == CMD_NOOP);
        lemma_ignored_command(anchor_addr, base, mem, CMD_NOOP, input.skip(1));
        assert(seq![CMD_NOOP] + input.skip(1) =~= input);
        assert(input.skip(1) =~= Seq::new((n - 1) as nat, |i: int| CMD_NOOP) + rest);
        lemma_noop_keeps_session(anchor_addr, base, mem, (n - 1) as nat, rest);
    }
}

/// An unrecognized command byte draws no response and does not end the
/// session: the next command is serviced as if the byte had never arrived.
pub proof fn lemma_unknown_command_ignored(
    anchor_addr: u64,
    base: u64,
    mem: Seq<u8>,
    c: u8,
    rest: Seq<u8>,
)
    requires
        c != CMD_ANCHOR,
        c != CMD_READ,
        c != CMD_NOOP,
    ensures
        conn_output(anchor_addr, base, mem, seq![c] + rest) == conn_output(
            anchor_addr,
            base,
            mem,
            rest,
        ),
{
    lemma_ignored_command(anchor_addr, base, mem, c, rest);
}

/// A read command whose 16 argument bytes never arrive in full ends the
/// session with no output at all. Only that session is touched: any other
/// connection's output is `conn_output` of its own stream, in which this
/// one's truncation does not occur.
pub proof fn lemma_truncated_read_closes(anchor_addr: u64, base: u64, mem: Seq<u8>, args: Seq<u8>)
    requires
        args.len() < 16,
    ensures
        conn_output(anchor_addr, base, mem, seq![CMD_READ] + args) == Seq::<u8>::empty(),
{
    let input = seq![CMD_READ] + args;
    assert(input[0] == CMD_READ);
    assert(input.len() < 17);
}

/// Two simultaneous sessions that each issue the anchor command receive
/// the same 8 bytes — the one anchor address — whatever memory regions
/// their reads would be served from.
pub proof fn lemma_two_connections_same_anchor(
    anchor_addr: u64,
    base1: u64,
    mem1: Seq<u8>,
    base2: u64,
    mem2: Seq<u8>,
)
    ensures
        conn_output(anchor_addr, base1, mem1, seq![CMD_ANCHOR]) == spec_u64_to_le_bytes(
            anchor_addr,
        ),
        conn_output(anchor_addr, base2, mem2, seq![CMD_ANCHOR]) == conn_output(
            anchor_addr,
            base1,
            mem1,
            seq![CMD_ANCHOR],
        ),
{
    assert(seq![CMD_ANCHOR] + Seq::<u8>::empty() =~= seq![CMD_ANCHOR]);
    lemma_anchor_command(anchor_addr, base1, mem1, Seq::<u8>::empty());
    lemma_anchor_command(anchor_addr, base2, mem2, Seq::<u8>::empty());
    assert(spec_u64_to_le_bytes(anchor_addr) + Seq::<u8>::empty() =~= spec_u64_to_le_bytes(
        anchor_addr,
    ));
}

} // verus!

