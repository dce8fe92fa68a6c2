use vstd::prelude::*;
use vstd::array::ArrayAdditionalExecFns;
use crate::stim::Chunk;

verus! {

/// ASCII `0`.
pub const ZERO: u8 = 48;
/// ASCII `:`.
pub const COLON: u8 = 58;
/// ASCII `'`.
pub const QUOTE: u8 = 39;
/// ASCII `,`.
pub const COMMA: u8 = 44;
/// ASCII space.
pub const SPACE: u8 = 32;
/// ASCII line feed.
pub const NEWLINE: u8 = 10;

/// The ASCII digit for `d < 10`.
pub open spec fn digit(d: nat) -> u8 {
    (ZERO + d) as u8
}

/// The decimal digits of `n`, most significant first, without leading zeros.
pub open spec fn decimal(n: nat) -> Seq<u8>
    decreases n,
{
    if n < 10 {
        seq![digit(n)]
    } else {
        decimal(n / 10).push(digit(n % 10))
    }
}

/// What opens a report and stands before the message: `panicked at '`.
pub open spec fn opening() -> Seq<u8> {
    // `panicked at ` and the quote
    seq![112u8, 97, 110, 105, 99, 107, 101, 100, 32, 97, 116, 32].push(QUOTE)
}

/// What closes the message and stands before the file: `', `.
pub open spec fn separator() -> Seq<u8> {
    seq![QUOTE, COMMA, SPACE]
}

/// The line and column suffix: `:<line>:<col>` and a newline.
pub open spec fn location(line: nat, col: nat) -> Seq<u8> {
    seq![COLON] + decimal(line) + seq![COLON] + decimal(col) + seq![NEWLINE]
}

/// The full report of a fault with message `msg` at `file`, `line`, `col`.
pub open spec fn report(msg: Seq<u8>, file: Seq<u8>, line: nat, col: nat) -> Seq<u8> {
    opening() + msg + separator() + file + location(line, col)
}

/// Ten to the power `k`.
pub open spec fn pow10(k: nat) -> nat
    decreases k,
{
    if k == 0 {
        1
    } else {
        10 * pow10((k - 1) as nat)
    }
}

proof fn lemma_decimal_len(n: nat, k: nat)
    requires
        1 <= k,
        n < pow10(k),
    ensures
        decimal(n).len() <= k,
    decreases n,
{
    if n >= 10 {
        if k == 1 {
            reveal_with_fuel(pow10, 2);
        } else {
            let p = pow10((k - 1) as nat);
            assert(n / 10 < p) by (nonlinear_arith)
                requires
                    n < 10 * p,
            ;
            lemma_decimal_len(n / 10, (k - 1) as nat);
        }
    }
}

/// A `u32` has at most ten decimal digits.
pub proof fn lemma_u32_digits(n: u32)
    ensures
        decimal(n as nat).len() <= 10,
{
    reveal_with_fuel(pow10, 11);
    lemma_decimal_len(n as nat, 10);
}

/// Writes the decimal digits of `n` into `buf` from index `at` on; returns
/// where they end.
fn put_decimal(n: u32, buf: &mut [u8; 23], at: usize) -> (end: usize)
    requires
        at + decimal(n as nat).len() <= 23,
    ensures
        end == at + decimal(n as nat).len(),
        final(buf)@.take(end as int) == old(buf)@.take(at as int) + decimal(n as nat),
    decreases n,
{
    broadcast use vstd::array::group_array_axioms;
    let mut mid = at;
    if n >= 10 {
        mid = put_decimal(n / 10, buf, at);
    }
    let ghost before = buf@;
    buf.set(mid, ZERO + (n % 10) as u8);
    assert(buf@.take(mid + 1) =~= before.take(mid as int).push(digit((n % 10) as nat)));
    assert(buf@.take(mid + 1) =~= old(buf)@.take(at as int) + decimal(n as nat));
    mid + 1
}

/// Writes `b` into `buf` at index `at`; returns the index after it.
pub(crate) fn put_byte(b: u8, buf: &mut [u8; 23], at: usize) -> (end: usize)
    requires
        at < 23,
    ensures
        end == at + 1,
        final(buf)@.take(end as int) == old(buf)@.take(at as int).push(b),
{
    broadcast use vstd::array::group_array_axioms;
    buf.set(at, b);
    assert(buf@.take(at + 1) =~= old(buf)@.take(at as int).push(b));
    at + 1
}

/// The quote that closes the opening: `'`.
pub fn quote_chunk() -> (r: Chunk)
    ensures
        r@ == seq![QUOTE],
{
    let mut buf: [u8; 23] = [0u8; 23];
    let ghost b0 = buf@;
    let at = put_byte(QUOTE, &mut buf, 0);
    assert(b0.take(0) =~= Seq::<u8>::empty());
    assert(buf@.take(at as int) =~= seq![QUOTE]);
    Chunk::new(buf, at).unwrap()
}

/// The separator between the message and the file: `', `.
pub fn separator_chunk() -> (r: Chunk)
    ensures
        r@ == separator(),
{
    let mut buf: [u8; 23] = [0u8; 23];
    let ghost b0 = buf@;
    let at = put_byte(QUOTE, &mut buf, 0);
    let at = put_byte(COMMA, &mut buf, at);
    let at = put_byte(SPACE, &mut buf, at);
    assert(b0.take(0) =~= Seq::<u8>::empty());
    assert(buf@.take(at as int) =~= separator());
    Chunk::new(buf, at).unwrap()
}

/// The decimal digits of `n`.
pub fn decimal_chunk(n: u32) -> (r: Chunk)
    ensures
        r@ == decimal(n as nat),
{
    let mut buf: [u8; 23] = [0u8; 23];
    proof {
        lemma_u32_digits(n);
    }
    let end = put_decimal(n, &mut buf, 0);
    assert(buf@.take(0) =~= Seq::<u8>::empty());
    assert(buf@.take(end as int) =~= decimal(n as nat));
    Chunk::new(buf, end).unwrap()
}

/// The line and column suffix, `:<line>:<col>` and a newline.
pub fn location_chunk(line: u32, col: u32) -> (r: Chunk)
    ensures
        r@ == location(line as nat, col as nat),
{
    let mut buf: [u8; 23] = [0u8; 23];
    proof {
        lemma_u32_digits(line);
        lemma_u32_digits(col);
    }
    let ghost b0 = buf@;
    let at = put_byte(COLON, &mut buf, 0);
    let at = put_decimal(line, &mut buf, at);
    let at = put_byte(COLON, &mut buf, at);
    let at = put_decimal(col, &mut buf, at);
    let at = put_byte(NEWLINE, &mut buf, at);
    assert(b0.take(0) =~= Seq::<u8>::empty());
    assert(buf@.take(at as int) =~= location(line as nat, col as nat));
    Chunk::new(buf, at).unwrap()
}

} // verus!
