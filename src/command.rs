use vstd::prelude::*;

verus! {

/// Command id that starts a new position (and, for lines and polygons, a new ring).
pub const MOVE_TO: u32 = 1;

/// Command id that extends the current ring.
pub const LINE_TO: u32 = 2;

/// The signed value that a zigzag-encoded integer stands for: even values map
/// to non-negative numbers, odd values to negative ones.
pub open spec fn zigzag(v: u32) -> i32 {
    if v % 2 == 0 {
        (v / 2) as i32
    } else {
        (-((v / 2) as int) - 1) as i32
    }
}

/// The zigzag encoding of a signed 32-bit value.
pub open spec fn zigzag_encode(d: i32) -> u32 {
    if d >= 0 {
        (2 * d) as u32
    } else {
        (-2 * d - 1) as u32
    }
}

/// Zigzag decoding undoes zigzag encoding for every signed 32-bit value.
pub proof fn lemma_zigzag_round_trip(d: i32)
    ensures
        zigzag(zigzag_encode(d)) == d,
{
}

/// Decodes a zigzag-encoded integer: `(value >> 1) ^ -(value & 1)`.
pub fn decode_zigzag(value: u32) -> (r: i32)
    ensures
        r == zigzag(value),
        r as int == if value % 2 == 0 { (value / 2) as int } else { -((value / 2) as int) - 1 },
{
    let h: u32 = value >> 1;
    let b: u32 = value & 1;
    assert(h == value / 2 && h <= 0x7fff_ffff && b <= 1 && (b == 0 <==> value % 2 == 0)) by (bit_vector)
        requires
            h == value >> 1,
            b == value & 1,
    ;
    let half: i32 = h as i32;
    let sign: i32 = -(b as i32);
    let r: i32 = half ^ sign;
    assert((sign == 0i32 ==> half ^ sign == half) && (sign == -1i32 ==> half ^ sign == -half - 1))
        by (bit_vector)
        requires
            0 <= half,
    ;
    r
}

/// Splits a command integer into its command id (low three bits) and its
/// repeat count (the remaining bits).
pub fn parse_command(cmd_int: u32) -> (r: (u32, usize))
    ensures
        r.0 == cmd_int & 7,
        r.1 == (cmd_int >> 3) as usize,
        r.0 == cmd_int % 8,
        r.1 == cmd_int / 8,
{
    let cmd: u32 = cmd_int & 0x7;
    let count: u32 = cmd_int >> 3;
    assert(cmd == cmd_int % 8 && count == cmd_int / 8) by (bit_vector)
        requires
            cmd == cmd_int & 0x7,
            count == cmd_int >> 3,
    ;
    (cmd, count as usize)
}

} // verus!
