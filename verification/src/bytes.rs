//! Fixed-width integers as bytes, in both byte orders.

use vstd::prelude::*;

verus! {

/// Two bytes, the more significant first.
pub open spec fn big_endian_16(value: u16) -> Seq<u8> {
    seq![(value / 256) as u8, (value % 256) as u8]
}

/// Four bytes, the most significant first.
pub open spec fn big_endian_32(value: u32) -> Seq<u8> {
    seq![
        (value / 0x100_0000) as u8,
        (value / 0x1_0000 % 256) as u8,
        (value / 0x100 % 256) as u8,
        (value % 256) as u8,
    ]
}

/// Two bytes, the less significant first.
pub open spec fn little_endian_16(value: u16) -> Seq<u8> {
    seq![(value % 256) as u8, (value / 256) as u8]
}

/// Four bytes, the least significant first.
pub open spec fn little_endian_32(value: u32) -> Seq<u8> {
    seq![
        (value % 256) as u8,
        (value / 0x100 % 256) as u8,
        (value / 0x1_0000 % 256) as u8,
        (value / 0x100_0000) as u8,
    ]
}

/// The number that two bytes stand for, the more significant first.
pub open spec fn number_16(high: u8, low: u8) -> u16 {
    (high * 256 + low) as u16
}

/// The number that four bytes stand for, the most significant first.
pub open spec fn number_32(first: u8, second: u8, third: u8, fourth: u8) -> u32 {
    (first * 0x100_0000 + second * 0x1_0000 + third * 0x100 + fourth) as u32
}

/// Appends two bytes, the more significant first.
pub fn push_big_endian_16(output: &mut Vec<u8>, value: u16)
    ensures
        final(output)@ == old(output)@ + big_endian_16(value),
{
    output.push((value / 256) as u8);
    output.push((value % 256) as u8);
    assert(output@ =~= old(output)@ + big_endian_16(value));
}

/// Appends four bytes, the most significant first.
pub fn push_big_endian_32(output: &mut Vec<u8>, value: u32)
    ensures
        final(output)@ == old(output)@ + big_endian_32(value),
{
    output.push((value / 0x100_0000) as u8);
    output.push((value / 0x1_0000 % 256) as u8);
    output.push((value / 0x100 % 256) as u8);
    output.push((value % 256) as u8);
    assert(output@ =~= old(output)@ + big_endian_32(value));
}

/// Appends two bytes, the less significant first.
pub fn push_little_endian_16(output: &mut Vec<u8>, value: u16)
    ensures
        final(output)@ == old(output)@ + little_endian_16(value),
{
    output.push((value % 256) as u8);
    output.push((value / 256) as u8);
    assert(output@ =~= old(output)@ + little_endian_16(value));
}

/// Appends four bytes, the least significant first.
pub fn push_little_endian_32(output: &mut Vec<u8>, value: u32)
    ensures
        final(output)@ == old(output)@ + little_endian_32(value),
{
    output.push((value % 256) as u8);
    output.push((value / 0x100 % 256) as u8);
    output.push((value / 0x1_0000 % 256) as u8);
    output.push((value / 0x100_0000) as u8);
    assert(output@ =~= old(output)@ + little_endian_32(value));
}

/// Joins two bytes.
pub fn join_16(high: u8, low: u8) -> (value: u16)
    ensures
        value == number_16(high, low),
{
    high as u16 * 256 + low as u16
}

/// Joins four bytes.
pub fn join_32(first: u8, second: u8, third: u8, fourth: u8) -> (value: u32)
    ensures
        value == number_32(first, second, third, fourth),
{
    first as u32 * 0x100_0000 + second as u32 * 0x1_0000 + third as u32 * 0x100 + fourth as u32
}

/// Joining the two bytes of a number gives the number back.
pub proof fn bytes_of_16_join(value: u16)
    ensures
        number_16(big_endian_16(value)[0], big_endian_16(value)[1]) == value,
        number_16(little_endian_16(value)[1], little_endian_16(value)[0]) == value,
{
}

/// Joining the four bytes of a number gives the number back.
pub proof fn bytes_of_32_join(value: u32)
    ensures
        ({
            let bytes = big_endian_32(value);
            number_32(bytes[0], bytes[1], bytes[2], bytes[3]) == value
        }),
        ({
            let bytes = little_endian_32(value);
            number_32(bytes[3], bytes[2], bytes[1], bytes[0]) == value
        }),
{
}

/// Splitting a joined number gives its bytes back.
pub proof fn joined_bytes_split(first: u8, second: u8, third: u8, fourth: u8)
    ensures
        big_endian_16(number_16(first, second)) == seq![first, second],
        big_endian_32(number_32(first, second, third, fourth)) == seq![
            first,
            second,
            third,
            fourth,
        ],
{
    assert(big_endian_16(number_16(first, second)) =~= seq![first, second]);
    assert(big_endian_32(number_32(first, second, third, fourth)) =~= seq![
        first,
        second,
        third,
        fourth,
    ]);
}

/// Appends a run of bytes.
pub fn append_bytes(output: &mut Vec<u8>, bytes: &[u8])
    ensures
        final(output)@ == old(output)@ + bytes@,
{
    let mut i: usize = 0;
    assert(output@ =~= old(output)@ + bytes@.take(0));
    while i < bytes.len()
        invariant
            i <= bytes@.len(),
            output@ == old(output)@ + bytes@.take(i as int),
        decreases bytes@.len() - i,
    {
        output.push(bytes[i]);
        assert(bytes@.take(i as int).push(bytes@[i as int]) =~= bytes@.take(i + 1));
        assert(output@ =~= old(output)@ + bytes@.take(i + 1));
        i += 1;
    }
    assert(bytes@.take(bytes@.len() as int) =~= bytes@);
}

} // verus!
