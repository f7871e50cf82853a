//! The wire protocol and the per-connection command loop.
//!
//! Each connection is an independent session: read one command byte,
//! dispatch, optionally answer, and loop until the transport fails. The
//! dispatch decisions live in [`Connection::step`], a total state machine
//! that an embedding drives with transport events; [`handle_connection`]
//! drives the same machine over an in-memory transcript and realizes the
//! pure semantics [`conn_output`], against which the protocol laws are
//! proved.
//!
//! All transport errors are connection-fatal and silent: a failed or short
//! read simply ends that session. An unrecognized command byte is ignored
//! and the loop continues. A read of memory outside the served image stands
//! for a memory-access fault and ends the session (in the live host it would
//! end the process; the deliberate lack of bounds checking there is a stated
//! design property of the stub, not of this model).

use crate::memory::{span_bytes, span_in_bounds, MemoryImage};
use vstd::bytes::{spec_u64_from_le_bytes, spec_u64_to_le_bytes};
use vstd::prelude::*;

verus! {

/// Command byte: reply with the anchor block's address, 8 bytes little-endian.
pub const CMD_ANCHOR: u8 = 0;

/// Command byte: read host memory; 16 argument bytes follow (address and
/// length, each little-endian u64), the response is the raw span.
pub const CMD_READ: u8 = 1;

/// Command byte: no-op / keep-alive; no response.
pub const CMD_NOOP: u8 = 2;

/// The closed set of operations a command byte can select.
#[derive(Clone, Copy, Debug, PartialEq, Eq, Structural)]
pub enum Command {
    /// Reply with the anchor block's starting address.
    Anchor,
    /// Dump a span of host memory.
    Read,
    /// Do nothing; keep the connection open.
    NoOp,
    /// Any other byte: ignored, the loop continues.
    Unknown,
}

/// What a command byte selects.
pub open spec fn classify_spec(c: u8) -> Command {
    if c == CMD_ANCHOR {
        Command::Anchor
    } else if c == CMD_READ {
        Command::Read
    } else if c == CMD_NOOP {
        Command::NoOp
    } else {
        Command::Unknown
    }
}

/// Decode one command byte.
pub fn classify(c: u8) -> (r: Command)
    ensures
        r == classify_spec(c),
{
    if c == CMD_ANCHOR {
        Command::Anchor
    } else if c == CMD_READ {
        Command::Read
    } else if c == CMD_NOOP {
        Command::NoOp
    } else {
        Command::Unknown
    }
}

/// The state of one connection's command loop.
#[derive(Clone, Copy, Debug, PartialEq, Eq, Structural)]
pub enum ConnState {
    /// Blocked reading the next command byte.
    AwaitingCommand,
    /// A read command arrived; blocked reading its 16 argument bytes.
    AwaitingArgs,
    /// Terminal: the session is over; the listener and every other
    /// connection are unaffected.
    Closed,
}

/// A transport event the embedding hands to the state machine.
pub enum Event {
    /// One command byte was read.
    CommandByte(u8),
    /// The 16 argument bytes of a read command were read in full.
    Args(Vec<u8>),
    /// A read or write on the transport failed or came up short.
    Failure,
}

/// What the embedding must do next.
pub enum Action {
    /// Nothing to send; read the next command byte (or stop, once closed).
    Idle,
    /// Write these bytes on the connection; a failed or short write is a
    /// `Failure` event.
    Send(Vec<u8>),
    /// Read exactly 16 argument bytes; a short read is a `Failure` event.
    FetchArgs,
    /// Read this span of host memory and write it back in one logical
    /// write; a fault or a failed write ends the session.
    ReadSpan(u64, u64),
}

/// One client connection's command loop, as a state machine the embedding
/// drives with transport events. Connections share nothing: stepping one
/// value can touch no other, so one session's failure is invisible to the
/// rest.
pub struct Connection {
    /// Where the command loop stands.
    pub state: ConnState,
}

impl Connection {
    /// A fresh session, about to read its first command byte.
    pub fn new() -> (c: Connection)
        ensures
            c.state == ConnState::AwaitingCommand,
    {
        Connection { state: ConnState::AwaitingCommand }
    }

    /// True once the session is over.
    pub fn is_closed(&self) -> (b: bool)
        ensures
            b == (self.state is Closed),
    {
        match self.state {
            ConnState::Closed => true,
            _ => false,
        }
    }

    /// Advance the session by one transport event and say what to do next.
    ///
    /// The machine is total: an event that the current state cannot expect
    /// from a faithful transport (argument bytes while awaiting a command,
    /// or the wrong number of them) is treated as a broken transport and
    /// closes the session, exactly as a `Failure` does.
    pub fn step(&mut self, anchor_addr: u64, ev: Event) -> (a: Action)
        ensures
            old(self).state is Closed ==> final(self).state is Closed && a is Idle,
            old(self).state is AwaitingCommand ==> match ev {
                Event::CommandByte(c) => {
                    if c == CMD_ANCHOR {
                        &&& final(self).state is AwaitingCommand
                        &&& a matches Action::Send(v) && v@ == spec_u64_to_le_bytes(anchor_addr)
                    } else if c == CMD_READ {
                        final(self).state is AwaitingArgs && a is FetchArgs
                    } else {
                        final(self).state is AwaitingCommand && a is Idle
                    }
                },
                _ => final(self).state is Closed && a is Idle,
            },
            old(self).state is AwaitingArgs ==> match ev {
                Event::Args(args) => {
                    if args@.len() == 16 {
                        &&& final(self).state is AwaitingCommand
                        &&& a matches Action::ReadSpan(ad, ln) && ad == spec_u64_from_le_bytes(
                            args@.subrange(0, 8),
                        ) && ln == spec_u64_from_le_bytes(args@.subrange(8, 16))
                    } else {
                        final(self).state is Closed && a is Idle
                    }
                },
                _ => final(self).state is Closed && a is Idle,
            },
    {
        match self.state {
            ConnState::Closed => Action::Idle,
            ConnState::AwaitingCommand => match ev {
                Event::CommandByte(c) => match classify(c) {
                    Command::Anchor => Action::Send(vstd::bytes::u64_to_le_bytes(anchor_addr)),
                    Command::Read => {
                        self.state = ConnState::AwaitingArgs;
                        Action::FetchArgs
                    },
                    Command::NoOp | Command::Unknown => Action::Idle,
                },
                _ => {
                    self.state = ConnState::Closed;
                    Action::Idle
                },
            },
            ConnState::AwaitingArgs => match ev {
                Event::Args(args) => {
                    if args.len() == 16 {
                        self.state = ConnState::AwaitingCommand;
                        let lo = vstd::slice::slice_subrange(args.as_slice(), 0, 8);
                        let hi = vstd::slice::slice_subrange(args.as_slice(), 8, 16);
                        let ad = vstd::bytes::u64_from_le_bytes(lo);
                        let ln = vstd::bytes::u64_from_le_bytes(hi);
                        Action::ReadSpan(ad, ln)
                    } else {
                        self.state = ConnState::Closed;
                        Action::Idle
                    }
                },
                _ => {
                    self.state = ConnState::Closed;
                    Action::Idle
                },
            },
        }
    }
}

/// Everything one connection writes back, as a function of the anchor
/// address, the served memory region, and the connection's whole incoming
/// byte stream.
///
/// A command byte is consumed and dispatched as the wire protocol says; a
/// read command consumes 16 further bytes. The output ends where the
/// session ends: at the end of the input, at a truncated read command, or
/// at a read outside the served region (the model's memory-access fault).
pub open spec fn conn_output(anchor_addr: u64, base: u64, mem: Seq<u8>, input: Seq<u8>) -> Seq<u8>
    decreases input.len(),
{
    if input.len() == 0 {
        Seq::<u8>::empty()
    } else {
        let c = input[0];
        if c == CMD_ANCHOR {
            spec_u64_to_le_bytes(anchor_addr) + conn_output(anchor_addr, base, mem, input.skip(1))
        } else if c == CMD_READ {
            if input.len() < 17 {
                Seq::<u8>::empty()
            } else {
                let addr = spec_u64_from_le_bytes(input.subrange(1, 9));
                let len = spec_u64_from_le_bytes(input.subrange(9, 17));
                if span_in_bounds(base, mem.len(), addr, len) {
                    span_bytes(base, mem, addr, len) + conn_output(
                        anchor_addr,
                        base,
                        mem,
                        input.skip(17),
                    )
                } else {
                    Seq::<u8>::empty()
                }
            }
        } else {
            conn_output(anchor_addr, base, mem, input.skip(1))
        }
    }
}

/// The 17 request bytes of one read command: the command byte, then the
/// address and the length, each as 8 little-endian bytes.
pub open spec fn read_request(addr: u64, len: u64) -> Seq<u8> {
    seq![CMD_READ] + spec_u64_to_le_bytes(addr) + spec_u64_to_le_bytes(len)
}

/// Service one whole connection over an in-memory transcript: drive the
/// state machine over `input` exactly as an embedding drives it over a
/// socket, serving reads from `mem`, and return everything written back.
pub fn handle_connection(anchor_addr: u64, mem: &MemoryImage, input: &Vec<u8>) -> (out: Vec<u8>)
    ensures
        out@ == conn_output(anchor_addr, mem.base(), mem.bytes(), input@),
{
    let ghost base = mem.base();
    let ghost data = mem.bytes();
    let ghost full = conn_output(anchor_addr, base, data, input@);
    let mut conn = Connection::new();
    let mut out: Vec<u8> = Vec::new();
    let mut i: usize = 0;
    proof {
        assert(input@.skip(0) =~= input@);
    }
    while i < input.len() && !conn.is_closed()
        invariant
            i <= input@.len(),
            base == mem.base(),
            data == mem.bytes(),
            full == conn_output(anchor_addr, base, data, input@),
            conn.state is AwaitingCommand || conn.state is Closed,
            conn.state is AwaitingCommand ==> full == out@ + conn_output(
                anchor_addr,
                base,
                data,
                input@.skip(i as int),
            ),
            conn.state is Closed ==> full == out@,
        decreases input@.len() - i + (if conn.state is Closed { 0int } else { 1int }),
    {
        let ghost rest = input@.skip(i as int);
        proof {
            assert(rest[0] == input@[i as int]);
        }
        let c = input[i];
        let act = conn.step(anchor_addr, Event::CommandByte(c));
        match act {
            Action::Send(mut v) => {
                proof {
                    assert(rest.skip(1) =~= input@.skip(i as int + 1));
                }
                out.append(&mut v);
                i = i + 1;
            },
            Action::FetchArgs => {
                if input.len() - i >= 17 {
                    let args = vstd::slice::slice_to_vec(
                        vstd::slice::slice_subrange(input.as_slice(), i + 1, i + 17),
                    );
                    let act2 = conn.step(anchor_addr, Event::Args(args));
                    match act2 {
                        Action::ReadSpan(ad, ln) => {
                            proof {
                                assert(input@.subrange(i as int + 1, i as int + 17).subrange(0, 8)
                                    =~= rest.subrange(1, 9));
                                assert(input@.subrange(i as int + 1, i as int + 17).subrange(8, 16)
                                    =~= rest.subrange(9, 17));
                            }
                            match mem.read_span(ad, ln) {
                                Some(mut v) => {
                                    proof {
                                        assert(rest.skip(17) =~= input@.skip(i as int + 17));
                                    }
                                    out.append(&mut v);
                                    i = i + 17;
                                },
                                None => {
                                    let _ = conn.step(anchor_addr, Event::Failure);
                                    proof {
                                        assert(conn_output(anchor_addr, base, data, rest)
                                            =~= Seq::<u8>::empty());
                                        assert(out@ + Seq::<u8>::empty() =~= out@);
                                    }
                                },
                            }
                        },
                        _ => {
                            assert(false);
                        },
                    }
                } else {
                    let _ = conn.step(anchor_addr, Event::Failure);
                    proof {
                        assert(conn_output(anchor_addr, base, data, rest) =~= Seq::<u8>::empty());
                        assert(out@ + Seq::<u8>::empty() =~= out@);
                    }
                }
            },
            Action::Idle => {
                proof {
                    assert(rest.skip(1) =~= input@.skip(i as int + 1));
                }
                i = i + 1;
            },
            Action::ReadSpan(_, _) => {
                assert(false);
            },
        }
    }
    proof {
        if !(conn.state is Closed) {
            assert(input@.skip(i as int) =~= Seq::<u8>::empty());
            assert(out@ + Seq::<u8>::empty() =~= out@);
        }
    }
    out
}

} // verus!
