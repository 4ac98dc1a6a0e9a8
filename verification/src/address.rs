//! Device addresses, and the random one that the device takes.
//!
//! A BLE static random address is 48 bits long. Its two most significant bits are ones, and the 46
//! bits below them are neither all zeros nor all ones.

use vstd::prelude::*;

verus! {

/// A Bluetooth device address, least significant byte first.
#[derive(Clone, Copy, Debug, PartialEq, Eq)]
pub struct BtAddr(pub [u8; 6]);

/// The address that the first six bytes of `raw` hold.
pub fn to_bt_addr(raw: &[u8]) -> (addr: BtAddr)
    requires
        raw@.len() >= 6,
    ensures
        addr.0@ == raw@.take(6),
{
    BtAddr([raw[0], raw[1], raw[2], raw[3], raw[4], raw[5]])
}

/// The number that `bytes` write down, least significant byte first.
pub open spec fn le_value(bytes: Seq<u8>) -> nat
    decreases bytes.len(),
{
    if bytes.len() == 0 {
        0
    } else {
        bytes[0] as nat + 256 * le_value(bytes.drop_first())
    }
}

/// Whether `address`, least significant byte first, is a static random address.
pub open spec fn is_static_random(address: Seq<u8>) -> bool {
    &&& address.len() == 6
    &&& address[5] >= 0xc0
    &&& le_value(address) != 0xc000_0000_0000
    &&& le_value(address) != 0xffff_ffff_ffff
}

/// The six bytes that write `value` down, least significant byte first.
pub open spec fn le_bytes48(value: nat) -> Seq<u8> {
    seq![
        (value % 256) as u8,
        (value / 0x100 % 256) as u8,
        (value / 0x1_0000 % 256) as u8,
        (value / 0x100_0000 % 256) as u8,
        (value / 0x1_0000_0000 % 256) as u8,
        (value / 0x100_0000_0000 % 256) as u8,
    ]
}

/// The static random address that the lower 46 bits of `draw` make, if they make one.
pub open spec fn drawn_address(draw: u64) -> Option<Seq<u8>> {
    let low = draw as nat % 0x4000_0000_0000;
    if low == 0 || low == 0x3fff_ffff_ffff {
        None
    } else {
        Some(le_bytes48(0xc000_0000_0000 + low))
    }
}

/// Makes an address of a random number. There is none if the lower 46 bits of the number are all
/// zeros or all ones: another number has to be drawn.
pub fn static_random_address(draw: u64) -> (address: Option<[u8; 6]>)
    ensures
        address matches Some(bytes) ==> drawn_address(draw) == Some(bytes@),
        address is None ==> drawn_address(draw) is None,
{
    let low: u64 = draw & 0x3fff_ffff_ffff;
    assert(low == draw % 0x4000_0000_0000) by (bit_vector)
        requires
            low == draw & 0x3fff_ffff_ffff,
    ;
    if low == 0 || low == 0x3fff_ffff_ffff {
        return None;
    }
    let value: u64 = low | 0xc000_0000_0000;
    // The type bits lie above the drawn ones, in the last of the six bytes.
    assert(value == low + 0xc000_0000_0000) by (bit_vector)
        requires
            low <= 0x3fff_ffff_ffff,
            value == low | 0xc000_0000_0000,
    ;
    let bytes: [u8; 6] = [
        (value % 256) as u8,
        (value / 0x100 % 256) as u8,
        (value / 0x1_0000 % 256) as u8,
        (value / 0x100_0000 % 256) as u8,
        (value / 0x1_0000_0000 % 256) as u8,
        (value / 0x100_0000_0000 % 256) as u8,
    ];
    assert(bytes@ =~= le_bytes48(value as nat));
    Some(bytes)
}

/// What six bytes write down.
proof fn lemma_six_bytes(bytes: Seq<u8>)
    requires
        bytes.len() == 6,
    ensures
        le_value(bytes) == bytes[0] + 0x100 * bytes[1] + 0x1_0000 * bytes[2] + 0x100_0000 * bytes[3]
            + 0x1_0000_0000 * bytes[4] + 0x100_0000_0000 * bytes[5],
{
    reveal_with_fuel(le_value, 7);
}

/// A number of 48 bits that is written down is read back.
#[verifier::spinoff_prover]
proof fn lemma_read_what_was_written(value: nat)
    requires
        value < 0x1_0000_0000_0000,
    ensures
        le_value(le_bytes48(value)) == value,
{
    lemma_six_bytes(le_bytes48(value));
    let from1 = value / 0x100;
    let from2 = from1 / 0x100;
    let from3 = from2 / 0x100;
    let from4 = from3 / 0x100;
    let from5 = from4 / 0x100;
    assert(value / 0x1_0000 == from2);
    assert(value / 0x100_0000 == from3);
    assert(value / 0x1_0000_0000 == from4);
    assert(value / 0x100_0000_0000 == from5);
}

/// The number that six bytes write down has 48 bits, and is written down by them.
#[verifier::spinoff_prover]
proof fn lemma_write_what_was_read(bytes: Seq<u8>)
    requires
        bytes.len() == 6,
    ensures
        le_value(bytes) < 0x1_0000_0000_0000,
        le_bytes48(le_value(bytes)) == bytes,
{
    lemma_six_bytes(bytes);
    let value = le_value(bytes);
    let from5 = bytes[5] as nat;
    let from4 = bytes[4] + 0x100 * from5;
    let from3 = bytes[3] + 0x100 * from4;
    let from2 = bytes[2] + 0x100 * from3;
    let from1 = bytes[1] + 0x100 * from2;
    assert(value == bytes[0] + 0x100 * from1);
    assert(value / 0x100 == from1);
    assert(value / 0x1_0000 == from2);
    assert(value / 0x100_0000 == from3);
    assert(value / 0x1_0000_0000 == from4);
    assert(value / 0x100_0000_0000 == from5);
    assert(le_bytes48(value) =~= bytes);
}

/// An address that was drawn is a static random address.
pub proof fn law_drawn_address_is_static_random(draw: u64, address: Seq<u8>)
    requires
        drawn_address(draw) == Some(address),
    ensures
        is_static_random(address),
{
    let value = 0xc000_0000_0000 + draw as nat % 0x4000_0000_0000;
    lemma_read_what_was_written(value);
    lemma_six_bytes(address);
}

/// Every static random address can be drawn.
pub proof fn law_every_static_random_address_can_be_drawn(address: Seq<u8>)
    requires
        is_static_random(address),
    ensures
        exists|draw: u64| #[trigger] drawn_address(draw) == Some(address),
{
    lemma_six_bytes(address);
    lemma_write_what_was_read(address);
    let draw = le_value(address) as u64;
    assert(drawn_address(draw) == Some(address));
}

/// Draws make the same address only if they agree in their lower 46 bits: none of the randomness
/// that an address can hold is lost.
pub proof fn law_address_keeps_the_draw(one: u64, other: u64)
    requires
        drawn_address(one) is Some,
        drawn_address(one) == drawn_address(other),
    ensures
        one as nat % 0x4000_0000_0000 == other as nat % 0x4000_0000_0000,
{
    lemma_read_what_was_written(0xc000_0000_0000 + one as nat % 0x4000_0000_0000);
    lemma_read_what_was_written(0xc000_0000_0000 + other as nat % 0x4000_0000_0000);
}

/// A draw makes an address unless its lower 46 bits are all zeros or all ones, whatever the bits
/// above them are, and the address is those 46 bits under two bits that are ones.
pub proof fn law_address_is_of_the_draw(draw: u64)
    ensures
        ({
            let low = draw as nat % 0x4000_0000_0000;
            if low == 0 || low == 0x3fff_ffff_ffff {
                drawn_address(draw) is None
            } else {
                drawn_address(draw) matches Some(address) && address.len() == 6 && le_value(
                    address,
                ) == 0xc000_0000_0000 + low
            }
        }),
{
    lemma_read_what_was_written(0xc000_0000_0000 + draw as nat % 0x4000_0000_0000);
}

} // verus!
