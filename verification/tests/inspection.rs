use meminspect::anchor::AnchorBlock;
use meminspect::memory::MemoryImage;
use meminspect::protocol::{classify, handle_connection, Action, Command, ConnState, Connection, Event};

fn le64(v: u64) -> Vec<u8> {
    v.to_le_bytes().to_vec()
}

fn read_req(addr: u64, len: u64) -> Vec<u8> {
    let mut v = vec![1u8];
    v.extend_from_slice(&addr.to_le_bytes());
    v.extend_from_slice(&len.to_le_bytes());
    v
}

#[test]
fn anchor_block_header() {
    let block = AnchorBlock::new();
    assert_eq!(block.word_count(), 16384);
    assert_eq!(block.byte_size(), 65536);
    let bytes = block.to_bytes();
    assert_eq!(bytes.len(), 65536);
    assert_eq!(&bytes[0..4], &[0xa1, 0x07, 0x23, 0x45]);
    assert_eq!(&bytes[4..8], &[0xf0, 0x5c, 0xae, 0x4c]);
    assert_eq!(&bytes[8..12], &[0x00, 0x00, 0x01, 0x00]);
    assert!(bytes[12..].iter().all(|b| *b == 0));
}

#[test]
fn classify_commands() {
    assert_eq!(classify(0), Command::Anchor);
    assert_eq!(classify(1), Command::Read);
    assert_eq!(classify(2), Command::NoOp);
    assert_eq!(classify(3), Command::Unknown);
    assert_eq!(classify(0xff), Command::Unknown);
}

#[test]
fn anchor_command_answers_address() {
    let mem = MemoryImage::new(0, Vec::new());
    let out = handle_connection(0x1122334455667788, &mem, &vec![0u8]);
    assert_eq!(out, vec![0x88, 0x77, 0x66, 0x55, 0x44, 0x33, 0x22, 0x11]);
}

#[test]
fn read_command_returns_exact_span() {
    let mem = MemoryImage::new(1000, vec![10, 20, 30, 40, 50]);
    let out = handle_connection(7, &mem, &read_req(1002, 3));
    assert_eq!(out, vec![30, 40, 50]);
}

#[test]
fn read_response_length_equals_request() {
    let data: Vec<u8> = (0..100u8).collect();
    let mem = MemoryImage::new(5000, data);
    for len in [0u64, 1, 17, 100] {
        let out = handle_connection(7, &mem, &read_req(5000, len));
        assert_eq!(out.len() as u64, len);
    }
}

#[test]
fn read_twice_yields_identical_bytes() {
    let mem = MemoryImage::new(64, vec![9, 8, 7, 6, 5, 4]);
    let mut input = read_req(66, 4);
    input.extend_from_slice(&read_req(66, 4));
    let out = handle_connection(7, &mem, &input);
    assert_eq!(out.len(), 8);
    assert_eq!(out[0..4], out[4..8]);
    assert_eq!(&out[0..4], &[7, 6, 5, 4]);
}

#[test]
fn noop_draws_no_response_and_keeps_session() {
    let mem = MemoryImage::new(0, Vec::new());
    let quiet = handle_connection(42, &mem, &vec![2u8; 50]);
    assert!(quiet.is_empty());
    let mut input = vec![2u8; 50];
    input.push(0);
    let out = handle_connection(42, &mem, &input);
    assert_eq!(out, le64(42));
}

#[test]
fn unknown_byte_draws_no_response_and_keeps_session() {
    let mem = MemoryImage::new(0, Vec::new());
    let quiet = handle_connection(42, &mem, &vec![0xffu8]);
    assert!(quiet.is_empty());
    let out = handle_connection(42, &mem, &vec![0xff, 0xfe, 3, 0]);
    assert_eq!(out, le64(42));
}

#[test]
fn truncated_read_closes_only_that_connection() {
    let mem = MemoryImage::new(0, vec![1, 2, 3]);
    let broken = handle_connection(9, &mem, &vec![1u8, 0xaa, 0xbb]);
    assert!(broken.is_empty());
    let healthy = handle_connection(9, &mem, &vec![0u8]);
    assert_eq!(healthy, le64(9));
}

#[test]
fn commands_after_truncated_read_are_dead() {
    let mem = MemoryImage::new(0, vec![1, 2, 3]);
    let mut input = vec![1u8, 0xaa];
    input.push(0);
    input.push(0);
    let out = handle_connection(9, &mem, &input);
    assert!(out.is_empty());
}

#[test]
fn two_connections_same_anchor() {
    let mem1 = MemoryImage::new(0, Vec::new());
    let mem2 = MemoryImage::new(512, vec![1, 2, 3, 4]);
    let out1 = handle_connection(0xdeadbeef, &mem1, &vec![0u8]);
    let out2 = handle_connection(0xdeadbeef, &mem2, &vec![0u8]);
    assert_eq!(out1, out2);
    assert_eq!(out1, le64(0xdeadbeef));
}

#[test]
fn anchor_bootstrap_reads_header() {
    let block = AnchorBlock::new();
    let addr: u64 = 4096;
    let mem = MemoryImage::new(addr, block.to_bytes());
    let mut input = vec![0u8];
    input.extend_from_slice(&read_req(addr, 12));
    let out = handle_connection(addr, &mem, &input);
    let mut expected = le64(addr);
    expected.extend_from_slice(&[0xa1, 0x07, 0x23, 0x45]);
    expected.extend_from_slice(&[0xf0, 0x5c, 0xae, 0x4c]);
    expected.extend_from_slice(&[0x00, 0x00, 0x01, 0x00]);
    assert_eq!(out, expected);
}

#[test]
fn out_of_bounds_read_ends_session() {
    let mem = MemoryImage::new(100, vec![1, 2, 3, 4]);
    let out = handle_connection(7, &mem, &read_req(103, 2));
    assert!(out.is_empty());
    let mut input = read_req(200, 1);
    input.push(0);
    let out2 = handle_connection(7, &mem, &input);
    assert!(out2.is_empty());
}

#[test]
fn read_span_bounds() {
    let mem = MemoryImage::new(100, vec![1, 2, 3, 4]);
    assert_eq!(mem.read_span(100, 4), Some(vec![1, 2, 3, 4]));
    assert_eq!(mem.read_span(102, 2), Some(vec![3, 4]));
    assert_eq!(mem.read_span(104, 0), Some(Vec::new()));
    assert_eq!(mem.read_span(99, 1), None);
    assert_eq!(mem.read_span(103, 2), None);
    assert_eq!(mem.read_span(u64::MAX, 1), None);
}

#[test]
fn step_machine_anchor_and_noop() {
    let mut conn = Connection::new();
    assert_eq!(conn.state, ConnState::AwaitingCommand);
    let act = conn.step(77, Event::CommandByte(0));
    match act {
        Action::Send(v) => assert_eq!(v, le64(77)),
        _ => panic!("anchor command must answer"),
    }
    assert_eq!(conn.state, ConnState::AwaitingCommand);
    assert!(matches!(conn.step(77, Event::CommandByte(2)), Action::Idle));
    assert!(matches!(conn.step(77, Event::CommandByte(0xff)), Action::Idle));
    assert_eq!(conn.state, ConnState::AwaitingCommand);
}

#[test]
fn step_machine_read_arguments() {
    let mut conn = Connection::new();
    assert!(matches!(conn.step(0, Event::CommandByte(1)), Action::FetchArgs));
    assert_eq!(conn.state, ConnState::AwaitingArgs);
    let mut args = 300u64.to_le_bytes().to_vec();
    args.extend_from_slice(&16u64.to_le_bytes());
    match conn.step(0, Event::Args(args)) {
        Action::ReadSpan(addr, len) => {
            assert_eq!(addr, 300);
            assert_eq!(len, 16);
        },
        _ => panic!("full arguments must yield a read"),
    }
    assert_eq!(conn.state, ConnState::AwaitingCommand);
}

#[test]
fn step_machine_failure_closes() {
    let mut conn = Connection::new();
    assert!(matches!(conn.step(0, Event::Failure), Action::Idle));
    assert!(conn.is_closed());
    assert!(matches!(conn.step(0, Event::CommandByte(0)), Action::Idle));
    assert!(conn.is_closed());

    let mut late = Connection::new();
    let _ = late.step(0, Event::CommandByte(1));
    assert!(matches!(late.step(0, Event::Args(vec![1, 2, 3])), Action::Idle));
    assert!(late.is_closed());
}
