use vstd::prelude::*;
use crate::stim::{WordBuffer, Chunk, Transfer, stream_bytes};
use crate::wire::{opening, separator, location, report, location_chunk, quote_chunk, separator_chunk, QUOTE};

verus! {

/// The stimulus port that carries reports.
pub const REPORT_PORT: usize = 0;

/// How many moves the fault handler makes.
pub const MOVES: usize = 9;

/// One move of the fault handler, in the order the handler makes them.
pub enum Action {
    /// Mask every maskable interrupt, for good.
    DisableInterrupts,
    /// Take exclusive hold of the given stimulus port.
    AcquirePort(usize),
    /// Write whole words from an aligned buffer.
    WriteAligned(WordBuffer<12>),
    /// Write these bytes one at a time.
    WriteBytes(Chunk),
    /// Render the fault's message and write its bytes one at a time.
    WriteMessage,
    /// Write the fault's source file name one byte at a time.
    WriteFile,
    /// Spin forever.
    Halt,
}

/// The bytes an action puts on the wire when the rendered message is `msg`
/// and the file name is `file`.
pub open spec fn action_bytes(a: Action, msg: Seq<u8>, file: Seq<u8>) -> Seq<u8> {
    match a {
        Action::WriteAligned(b) => b@,
        Action::WriteBytes(c) => c@,
        Action::WriteMessage => msg,
        Action::WriteFile => file,
        _ => Seq::empty(),
    }
}

/// The bytes a sequence of actions puts on the wire, in order.
pub open spec fn plan_bytes(s: Seq<Action>, msg: Seq<u8>, file: Seq<u8>) -> Seq<u8>
    decreases s.len(),
{
    if s.len() == 0 {
        Seq::empty()
    } else {
        plan_bytes(s.drop_last(), msg, file) + action_bytes(s.last(), msg, file)
    }
}

/// The handler's move number `k` for a fault at `line`, `col`: interrupts
/// off, the report port taken, the opening as whole words and its closing
/// quote, the message, the separator, the file, the location, then the halt.
pub open spec fn move_at(a: Action, k: nat, line: nat, col: nat) -> bool {
    if k == 0 {
        a is DisableInterrupts
    } else if k == 1 {
        a == Action::AcquirePort(REPORT_PORT)
    } else if k == 2 {
        a matches Action::WriteAligned(b) && b@ == opening().take(12)
    } else if k == 3 {
        a matches Action::WriteBytes(c) && c@ == seq![QUOTE]
    } else if k == 4 {
        a is WriteMessage
    } else if k == 5 {
        a matches Action::WriteBytes(c) && c@ == separator()
    } else if k == 6 {
        a is WriteFile
    } else if k == 7 {
        a matches Action::WriteBytes(c) && c@ == location(line, col)
    } else {
        k == 8 && a is Halt
    }
}

/// The handler's moves, in order, for a fault at `line`, `col`.
pub open spec fn is_plan(s: Seq<Action>, line: nat, col: nat) -> bool {
    &&& s.len() == MOVES
    &&& forall|k: int| 0 <= k < MOVES ==> move_at(#[trigger] s[k], k as nat, line, col)
}

/// Carried out in order, the handler's moves put exactly the report on the
/// wire, whatever the message renders to.
pub proof fn lemma_plan_writes_report(s: Seq<Action>, msg: Seq<u8>, file: Seq<u8>, line: nat, col: nat)
    requires
        is_plan(s, line, col),
    ensures
        plan_bytes(s, msg, file) == report(msg, file, line, col),
{
    assert(move_at(s[2], 2, line, col));
    assert(move_at(s[3], 3, line, col));
    assert(move_at(s[5], 5, line, col));
    assert(move_at(s[7], 7, line, col));
    reveal_with_fuel(plan_bytes, 10);
    assert(opening() =~= opening().take(12) + seq![QUOTE]);
    assert(plan_bytes(s, msg, file) =~= opening().take(12) + seq![QUOTE] + msg + separator() + file + location(line, col));
    assert(report(msg, file, line, col) =~= opening().take(12) + seq![QUOTE] + msg + separator() + file + location(line, col));
}

/// The opening without its closing quote, `panicked at `: three whole words.
pub fn opening_words() -> (r: WordBuffer<12>)
    ensures
        r@ == opening().take(12),
{
    let a: [u8; 12] = [112u8, 97, 110, 105, 99, 107, 101, 100, 32, 97, 116, 32];
    assert(a@ =~= opening().take(12));
    WordBuffer::new(a).unwrap()
}

/// The handler's move number `k` for a fault at `line`, `col`.
pub fn plan_move(line: u32, col: u32, k: usize) -> (r: Action)
    requires
        k < MOVES,
    ensures
        move_at(r, k as nat, line as nat, col as nat),
{
    if k == 0 {
        Action::DisableInterrupts
    } else if k == 1 {
        Action::AcquirePort(REPORT_PORT)
    } else if k == 2 {
        Action::WriteAligned(opening_words())
    } else if k == 3 {
        Action::WriteBytes(quote_chunk())
    } else if k == 4 {
        Action::WriteMessage
    } else if k == 5 {
        Action::WriteBytes(separator_chunk())
    } else if k == 6 {
        Action::WriteFile
    } else if k == 7 {
        Action::WriteBytes(location_chunk(line, col))
    } else {
        Action::Halt
    }
}

/// The transfers of several writes, one after the other.
pub open spec fn joined(parts: Seq<Seq<Transfer>>) -> Seq<Transfer>
    decreases parts.len(),
{
    if parts.len() == 0 {
        Seq::empty()
    } else {
        joined(parts.drop_last()) + parts.last()
    }
}

proof fn lemma_stream_append(a: Seq<Transfer>, b: Seq<Transfer>)
    ensures
        stream_bytes(a + b) == stream_bytes(a) + stream_bytes(b),
    decreases b.len(),
{
    if b.len() == 0 {
        assert(a + b =~= a);
        assert(stream_bytes(b) =~= Seq::empty());
        assert(stream_bytes(a) + stream_bytes(b) =~= stream_bytes(a));
    } else {
        lemma_stream_append(a, b.drop_last());
        assert((a + b).drop_last() =~= a + b.drop_last());
        assert((a + b).last() == b.last());
        assert(stream_bytes(a + b) =~= stream_bytes(a) + stream_bytes(b));
    }
}

proof fn lemma_joined_follows_plan(s: Seq<Action>, parts: Seq<Seq<Transfer>>, msg: Seq<u8>, file: Seq<u8>)
    requires
        parts.len() == s.len(),
        forall|i: int| 0 <= i < s.len() ==> stream_bytes(#[trigger] parts[i]) == action_bytes(s[i], msg, file),
    ensures
        stream_bytes(joined(parts)) == plan_bytes(s, msg, file),
    decreases s.len(),
{
    if s.len() == 0 {
        assert(stream_bytes(Seq::<Transfer>::empty()) =~= Seq::empty());
    } else {
        let n = s.len() - 1;
        assert forall|i: int| 0 <= i < n implies stream_bytes(#[trigger] parts.drop_last()[i]) == action_bytes(s.drop_last()[i], msg, file) by {
            assert(parts.drop_last()[i] == parts[i]);
        }
        lemma_joined_follows_plan(s.drop_last(), parts.drop_last(), msg, file);
        lemma_stream_append(joined(parts.drop_last()), parts.last());
        assert(stream_bytes(parts[n]) == action_bytes(s[n], msg, file));
    }
}

/// When each of the handler's moves is carried out by transfers that put
/// that move's bytes on the wire (the message's moves putting `msg`), the
/// whole stream of transfers puts exactly the report on the wire: nothing
/// more, nothing less, in order.
pub proof fn lemma_transfers_write_report(
    s: Seq<Action>,
    parts: Seq<Seq<Transfer>>,
    msg: Seq<u8>,
    file: Seq<u8>,
    line: nat,
    col: nat,
)
    requires
        is_plan(s, line, col),
        parts.len() == s.len(),
        forall|i: int| 0 <= i < s.len() ==> stream_bytes(#[trigger] parts[i]) == action_bytes(s[i], msg, file),
    ensures
        stream_bytes(joined(parts)) == report(msg, file, line, col),
{
    lemma_joined_follows_plan(s, parts, msg, file);
    lemma_plan_writes_report(s, msg, file, line, col);
}

} // verus!
