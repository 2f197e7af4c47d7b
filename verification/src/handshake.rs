//! The integers that parent and child exchange over the socket pair.
//!
//! An integer travels as four bytes, the low-order byte first. That is the byte order of x86_64,
//! the only machine that the runtime accepts.

use vstd::prelude::*;
use vstd::string::*;
use crate::action::{Outcome, OutcomeView};

verus! {

/// The value of `value` as an unsigned number: a negative one wraps around.
pub open spec fn wrapped(value: i32) -> int {
    if value < 0 {
        value + 0x1_0000_0000
    } else {
        value as int
    }
}

/// The four bytes of `value`: its digits in base 256, the low-order one first.
pub open spec fn int_bytes(value: i32) -> Seq<u8> {
    let n = wrapped(value);
    seq![
        (n % 0x100) as u8,
        (n / 0x100 % 0x100) as u8,
        (n / 0x1_0000 % 0x100) as u8,
        (n / 0x100_0000 % 0x100) as u8,
    ]
}

/// The integer that four bytes stand for.
pub open spec fn bytes_int(bytes: Seq<u8>) -> i32 {
    let n = bytes[0] + 0x100 * bytes[1] + 0x1_0000 * bytes[2] + 0x100_0000 * bytes[3];
    if n >= 0x8000_0000 {
        (n - 0x1_0000_0000) as i32
    } else {
        n as i32
    }
}

/// The bytes to write for an integer.
pub fn write_int(value: i32) -> (bytes: [u8; 4])
    ensures
        bytes@ == int_bytes(value),
{
    let bits: u32 = value as u32;
    assert(value >= 0 ==> bits == value) by (bit_vector)
        requires
            bits == value as u32,
    ;
    assert(value < 0 ==> bits == value + 0x1_0000_0000) by (bit_vector)
        requires
            bits == value as u32,
    ;
    let bytes: [u8; 4] = [
        (bits % 0x100) as u8,
        (bits / 0x100 % 0x100) as u8,
        (bits / 0x1_0000 % 0x100) as u8,
        (bits / 0x100_0000 % 0x100) as u8,
    ];
    assert(bytes@ =~= int_bytes(value));
    bytes
}

/// What a write of an integer comes to, where `count` is what the system says was written: a
/// short write is a failure.
pub fn int_written(count: isize, cause: &str) -> (outcome: Outcome)
    ensures
        outcome@ == (if count == 4 {
            OutcomeView::Done
        } else {
            OutcomeView::Failed("couldn't write: "@ + cause@)
        }),
{
    if count != 4 {
        return Outcome::Failed("couldn't write: ".to_string().concat(cause));
    }
    Outcome::Done
}

/// What a read of an integer comes to, where `count` is what the system says was read and
/// `bytes` is where it went: a short read is a failure.
pub fn read_int(count: isize, bytes: &[u8; 4], cause: &str) -> (outcome: Outcome)
    ensures
        outcome@ == (if count == 4 {
            OutcomeView::Int(bytes_int(bytes@))
        } else {
            OutcomeView::Failed("couldn't read: "@ + cause@)
        }),
{
    if count != 4 {
        return Outcome::Failed("couldn't read: ".to_string().concat(cause));
    }
    let bits: u32 = bytes[0] as u32 + 0x100 * bytes[1] as u32 + 0x1_0000 * bytes[2] as u32
        + 0x100_0000 * bytes[3] as u32;
    let value: i32 = bits as i32;
    assert(bits < 0x8000_0000 ==> value == bits) by (bit_vector)
        requires
            value == bits as i32,
    ;
    assert(bits >= 0x8000_0000 ==> value == bits - 0x1_0000_0000) by (bit_vector)
        requires
            value == bits as i32,
    ;
    Outcome::Int(value)
}

/// What is read from what was written is the integer that was written.
pub proof fn law_integers_survive_the_socket(value: i32)
    ensures
        int_bytes(value).len() == 4,
        bytes_int(int_bytes(value)) == value,
{
}

/// What is written from what was read is what was read.
pub proof fn law_bytes_survive_reading(bytes: Seq<u8>)
    requires
        bytes.len() == 4,
    ensures
        int_bytes(bytes_int(bytes)) == bytes,
{
    assert(int_bytes(bytes_int(bytes)) =~= bytes);
}

/// The byte order: each byte counts 256 times as much as the one before it, and a negative integer
/// counts as what it is above the least number that four bytes cannot hold.
pub proof fn law_byte_order(value: i32)
    ensures
        ({
            let bytes = int_bytes(value);
            let sum = bytes[0] + 256 * (bytes[1] + 256 * (bytes[2] + 256 * bytes[3]));
            &&& value >= 0 ==> sum == value
            &&& value < 0 ==> sum == value + 256 * 256 * 256 * 256
        }),
{
}

} // verus!
