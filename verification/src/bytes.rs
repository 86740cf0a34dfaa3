//! Byte buffers and little-endian numbers.
use vstd::arithmetic::power::pow;
use vstd::prelude::*;

verus! {

/// Sets every byte of a buffer.
pub fn fill(data: &mut [u8], value: u8)
    ensures
        final(data)@ == Seq::new(old(data)@.len(), |i: int| value),
{
    let n: usize = data.len();
    let mut i: usize = 0;
    while i < n
        invariant
            n == data@.len(),
            n == old(data)@.len(),
            i <= n,
            forall|k: int| 0 <= k < i ==> #[trigger] data@[k] == value,
        decreases n - i,
    {
        data[i] = value;
        i = i + 1;
    }
    assert(data@ =~= Seq::new(old(data)@.len(), |i: int| value));
}

/// The number that four bytes spell has these bytes.
pub proof fn lemma_le_bytes_of(b: Seq<u8>)
    requires
        b.len() == 4,
    ensures
        forall|i: int| 0 <= i < 4 ==> #[trigger] le_byte(le_u32(b), i) == b[i],
{
    let (b0, b1, b2, b3) = (b[0] as int, b[1] as int, b[2] as int, b[3] as int);
    let v = b0 + b1 * 0x100 + b2 * 0x1_0000 + b3 * 0x100_0000;
    assert(v % 0x100 == b0 && v / 0x100 % 0x100 == b1 && v / 0x1_0000 % 0x100 == b2 && v
        / 0x100_0000 == b3) by (nonlinear_arith)
        requires
            v == b0 + b1 * 0x100 + b2 * 0x1_0000 + b3 * 0x100_0000,
            0 <= b0 < 0x100,
            0 <= b1 < 0x100,
            0 <= b2 < 0x100,
            0 <= b3 < 0x100,
    ;
}

/// Byte `i` of a 32-bit number, lowest first.
pub open spec fn le_byte(value: u32, i: int) -> u8 {
    if i == 0 {
        (value % 0x100) as u8
    } else if i == 1 {
        (value / 0x100 % 0x100) as u8
    } else if i == 2 {
        (value / 0x1_0000 % 0x100) as u8
    } else {
        (value / 0x100_0000) as u8
    }
}

/// The four bytes of a 32-bit number, lowest first.
pub open spec fn le_bytes(value: u32) -> Seq<u8> {
    seq![le_byte(value, 0), le_byte(value, 1), le_byte(value, 2), le_byte(value, 3)]
}

/// The number that four bytes spell, lowest first.
pub open spec fn le_u32(b: Seq<u8>) -> u32 {
    (b[0] + b[1] * 0x100 + b[2] * 0x1_0000 + b[3] * 0x100_0000) as u32
}

/// Four bytes read as a number give the number whose bytes they are.
pub proof fn law_le_round_trip(value: u32)
    ensures
        le_u32(le_bytes(value)) == value,
{
    assert(value % 0x100 + (value / 0x100 % 0x100) * 0x100 + (value / 0x1_0000 % 0x100) * 0x1_0000
        + (value / 0x100_0000) * 0x100_0000 == value) by (nonlinear_arith);
    assert(value / 0x100_0000 < 0x100) by (nonlinear_arith);
}

/// Byte `i` of a 32-bit number, lowest first.
pub fn byte_of(value: u32, i: usize) -> (r: u8)
    requires
        i < 4,
    ensures
        r == le_byte(value, i as int),
{
    if i == 0 {
        (value % 0x100) as u8
    } else if i == 1 {
        (value / 0x100 % 0x100) as u8
    } else if i == 2 {
        (value / 0x1_0000 % 0x100) as u8
    } else {
        (value / 0x100_0000) as u8
    }
}

/// The four bytes of a 32-bit number, lowest first.
pub fn to_le_bytes(value: u32) -> (r: [u8; 4])
    ensures
        r@ == le_bytes(value),
{
    let r: [u8; 4] = [
        byte_of(value, 0),
        byte_of(value, 1),
        byte_of(value, 2),
        byte_of(value, 3),
    ];
    assert(r@ =~= le_bytes(value));
    r
}

/// The number that four bytes spell, lowest first.
pub fn from_le_bytes(b0: u8, b1: u8, b2: u8, b3: u8) -> (r: u32)
    ensures
        r == le_u32(seq![b0, b1, b2, b3]),
{
    (b0 as u32) + (b1 as u32) * 0x100 + (b2 as u32) * 0x1_0000 + (b3 as u32) * 0x100_0000
}

/// Byte `i` of a number stands for its multiples of the `i`-th power of 256.
pub proof fn law_bytes_go_from_low_to_high(value: u32, b: Seq<u8>, i: nat)
    requires
        i < 4,
        b.len() == 4,
    ensures
        le_byte(value, i as int) == value as int / pow(256, i) % 256,
        le_u32(b) == b[0] * pow(256, 0) + b[1] * pow(256, 1) + b[2] * pow(256, 2) + b[3] * pow(
            256,
            3,
        ),
        le_bytes(value)[i as int] == value as int / pow(256, i) % 256,
{
    reveal(pow);
    assert(pow(256, 0) == 1);
    assert(pow(256, 1) == 256 * pow(256, 0));
    assert(pow(256, 2) == 256 * pow(256, 1));
    assert(pow(256, 3) == 256 * pow(256, 2));
    assert(value as int / 0x100_0000 < 0x100) by (nonlinear_arith)
        requires
            0 <= value <= 0xffff_ffff,
    ;
}

} // verus!
