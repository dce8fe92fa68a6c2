use panic_itm::handler::{opening_words, plan_move, Action, MOVES, REPORT_PORT};
use panic_itm::stim::{wire_bytes, ByteCursor, Chunk, Step, Transfer, WordBuffer, WordCursor};
use panic_itm::wire::{decimal_chunk, location_chunk, quote_chunk, separator_chunk};

/// A stimulus port that is busy on every third poll and records what it receives.
struct SimPort {
    polls: u32,
    ready: bool,
    wire: Vec<u8>,
    transfers: Vec<Transfer>,
}

impl SimPort {
    fn new() -> SimPort {
        SimPort { polls: 0, ready: false, wire: Vec::new(), transfers: Vec::new() }
    }

    fn poll(&mut self) -> bool {
        self.polls += 1;
        self.ready = self.polls % 3 != 0;
        self.ready
    }

    fn put(&mut self, t: Transfer) {
        assert!(self.ready, "write while the port was busy");
        self.ready = false;
        self.wire.extend_from_slice(wire_bytes(&t).as_slice());
        self.transfers.push(t);
    }

    fn send_bytes(&mut self, data: &[u8]) {
        let mut c = ByteCursor::new();
        loop {
            let ready = self.poll();
            match c.step(data, ready) {
                Step::Wait => assert!(!ready),
                Step::Send(t) => self.put(t),
                Step::Done => break,
            }
        }
    }

    fn send_words<const N: usize>(&mut self, buf: &WordBuffer<N>) {
        let mut c = WordCursor::new();
        loop {
            let ready = self.poll();
            match c.step(buf, ready) {
                Step::Wait => assert!(!ready),
                Step::Send(t) => {
                    assert!(matches!(t, Transfer::Word(_)));
                    self.put(t)
                }
                Step::Done => break,
            }
        }
    }
}

fn run(message: &str, file: &str, line: u32, col: u32) -> Vec<u8> {
    let mut port = SimPort::new();
    let mut disabled = false;
    let mut acquired = false;
    let mut halted = false;
    for k in 0..MOVES {
        assert!(!halted);
        let action = plan_move(line, col, k);
        match action {
            Action::DisableInterrupts => disabled = true,
            Action::AcquirePort(p) => {
                assert!(disabled);
                assert_eq!(p, REPORT_PORT);
                acquired = true;
            }
            Action::WriteAligned(b) => {
                assert!(acquired);
                port.send_words(&b)
            }
            Action::WriteBytes(c) => {
                assert!(acquired);
                port.send_bytes(c.as_slice())
            }
            Action::WriteFile => {
                assert!(acquired);
                port.send_bytes(file.as_bytes())
            }
            Action::WriteMessage => {
                assert!(acquired);
                port.send_bytes(message.as_bytes())
            }
            Action::Halt => halted = true,
        }
    }
    assert!(halted);
    port.wire
}

#[test]
fn report_of_foo() {
    assert_eq!(run("FOO", "src/main.rs", 6, 5), b"panicked at 'FOO', src/main.rs:6:5\n".to_vec());
}

#[test]
fn report_of_empty_message() {
    assert_eq!(run("", "src/main.rs", 6, 5), b"panicked at '', src/main.rs:6:5\n".to_vec());
}

#[test]
fn report_with_zero_and_largest_location() {
    assert_eq!(
        run("x", "a.rs", 0, u32::MAX),
        b"panicked at 'x', a.rs:0:4294967295\n".to_vec()
    );
}

#[test]
fn report_with_empty_file_and_long_message() {
    let msg = "index out of bounds: the len is 3 but the index is 7";
    let expected = format!("panicked at '{}', :12:34\n", msg);
    assert_eq!(run(msg, "", 12, 34), expected.into_bytes());
}

#[test]
fn plan_has_fixed_shape() {
    assert_eq!(MOVES, 9);
    assert!(matches!(plan_move(1, 2, 0), Action::DisableInterrupts));
    assert!(matches!(plan_move(1, 2, 1), Action::AcquirePort(0)));
    assert!(matches!(plan_move(1, 2, 4), Action::WriteMessage));
    assert!(matches!(plan_move(1, 2, 6), Action::WriteFile));
    assert!(matches!(plan_move(1, 2, 8), Action::Halt));
    match plan_move(1, 2, 2) {
        Action::WriteAligned(b) => assert_eq!(b.as_slice(), b"panicked at "),
        _ => panic!("opening is not an aligned write"),
    }
    match plan_move(1, 2, 3) {
        Action::WriteBytes(c) => assert_eq!(c.as_slice(), b"'"),
        _ => panic!("quote is not a byte write"),
    }
    match plan_move(1, 2, 5) {
        Action::WriteBytes(c) => assert_eq!(c.as_slice(), b"', "),
        _ => panic!("separator is not a byte write"),
    }
    match plan_move(1, 2, 7) {
        Action::WriteBytes(c) => assert_eq!(c.as_slice(), b":1:2\n"),
        _ => panic!("location is not a byte write"),
    }
}

#[test]
fn opening_is_written_as_three_words() {
    let mut port = SimPort::new();
    port.send_words(&opening_words());
    assert_eq!(port.transfers.len(), 3);
    assert_eq!(port.wire, b"panicked at ".to_vec());
}

#[test]
fn decimal_rendering() {
    assert_eq!(decimal_chunk(0).as_slice(), b"0");
    assert_eq!(decimal_chunk(9).as_slice(), b"9");
    assert_eq!(decimal_chunk(10).as_slice(), b"10");
    assert_eq!(decimal_chunk(4294967295).as_slice(), b"4294967295");
    assert_eq!(location_chunk(6, 5).as_slice(), b":6:5\n");
    assert_eq!(location_chunk(u32::MAX, u32::MAX).as_slice(), b":4294967295:4294967295\n");
    assert_eq!(quote_chunk().as_slice(), b"'");
    assert_eq!(separator_chunk().as_slice(), b"', ");
}

#[test]
fn word_buffer_rejects_partial_words() {
    assert!(WordBuffer::new([1u8, 2, 3]).is_none());
    assert!(WordBuffer::new([1u8, 2, 3, 4, 5]).is_none());
    assert_eq!(WordBuffer::new([0u8; 0]).unwrap().len(), 0);
    assert_eq!(WordBuffer::new([0u8; 8]).unwrap().len(), 8);
}

#[test]
fn chunk_keeps_its_prefix() {
    let mut a = [0u8; 23];
    a[0] = 7;
    a[1] = 8;
    let c = Chunk::new(a, 2).unwrap();
    assert_eq!(c.len(), 2);
    assert_eq!(c.as_slice(), &[7u8, 8][..]);
    assert!(Chunk::new(a, 24).is_none());
    assert_eq!(Chunk::new(a, 23).unwrap().len(), 23);
}

#[test]
fn word_is_little_endian() {
    let buf = WordBuffer::new([1u8, 2, 3, 4]).unwrap();
    let mut c = WordCursor::new();
    assert_eq!(c.step(&buf, true), Step::Send(Transfer::Word(0x0403_0201)));
    assert_eq!(c.step(&buf, true), Step::Done);
    assert_eq!(wire_bytes(&Transfer::Word(0x0403_0201)).as_slice(), &[1u8, 2, 3, 4][..]);
    assert_eq!(wire_bytes(&Transfer::Byte(7)).as_slice(), &[7u8][..]);
}

#[test]
fn busy_port_gets_nothing() {
    let data = b"ab";
    let mut c = ByteCursor::new();
    assert_eq!(c.step(data, false), Step::Wait);
    assert_eq!(c.step(data, false), Step::Wait);
    assert_eq!(c.step(data, true), Step::Send(Transfer::Byte(b'a')));
    assert_eq!(c.step(data, false), Step::Wait);
    assert_eq!(c.step(data, true), Step::Send(Transfer::Byte(b'b')));
    assert_eq!(c.step(data, false), Step::Done);

    let buf = WordBuffer::new([9u8, 9, 9, 9]).unwrap();
    let mut w = WordCursor::new();
    assert_eq!(w.step(&buf, false), Step::Wait);
    assert_eq!(w.step(&buf, true), Step::Send(Transfer::Word(0x0909_0909)));
    assert_eq!(w.step(&buf, false), Step::Done);
}

#[test]
fn empty_data_is_done_at_once() {
    let mut c = ByteCursor::new();
    assert_eq!(c.step(b"", true), Step::Done);
    let mut w = WordCursor::new();
    assert_eq!(w.step(&WordBuffer::new([0u8; 0]).unwrap(), true), Step::Done);
}
