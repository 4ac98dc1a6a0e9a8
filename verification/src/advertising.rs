//! What the device advertises.
//!
//! An advertisement is a sequence of AD structures. Each of them starts with a byte that counts the
//! bytes after it and a byte that tells its type. The Matter service advertises the capabilities of
//! the device, the service data that a commissioner recognises it by, and its name.

use crate::error::{to_matter_err, ServiceError};
use trouble_host::advertise::AdStructure as HostStructure;
use vstd::prelude::*;
use vstd::utf8::encode_utf8;

verus! {

/// The 16-bit UUID of the Matter service.
pub const MATTER_BLE_SERVICE_UUID16: u16 = 0xfff6;

/// The bytes that a legacy advertisement has room for.
pub const ADV_DATA_SIZE: usize = 31;

/// The bytes that the service data takes at most.
pub const SERVICE_PAYLOAD_SIZE: usize = 8;

/// An error of the BLE host.
#[verifier::external_type_specification]
#[verifier::external_body]
pub struct ExHostError(trouble_host::Error);

/// The bytes of `value`, least significant byte first.
pub open spec fn le_bytes16(value: u16) -> Seq<u8> {
    seq![(value % 256) as u8, (value / 256) as u8]
}

/// One structure of an advertisement.
#[derive(Clone, Copy, Debug, PartialEq, Eq)]
pub enum AdStructure<'a> {
    /// The capabilities of the device.
    Flags(u8),
    /// Data of the service with the given UUID, whose bytes go out as they stand.
    ServiceData16 { uuid: [u8; 2], data: &'a [u8] },
    /// The unabbreviated name of the device.
    CompleteLocalName(&'a [u8]),
}

impl<'a> AdStructure<'a> {
    /// The bytes that the structure takes in an advertisement.
    pub open spec fn encoded(self) -> Seq<u8> {
        match self {
            AdStructure::Flags(flags) => seq![0x02u8, 0x01u8, flags],
            AdStructure::ServiceData16 { uuid, data } => seq![
                ((data@.len() + 3) % 256) as u8,
                0x16u8,
            ] + uuid@ + data@,
            AdStructure::CompleteLocalName(name) => seq![
                ((name@.len() + 1) % 256) as u8,
                0x09u8,
            ] + name@,
        }
    }
}

/// The bytes of `structures`, one after the other.
pub open spec fn encoded(structures: Seq<AdStructure>) -> Seq<u8>
    decreases structures.len(),
{
    if structures.len() == 0 {
        Seq::empty()
    } else {
        encoded(structures.drop_last()) + structures.last().encoded()
    }
}

/// Calls `trouble_host::advertise::AdStructure::encode_slice`. It writes the structures to the front
/// of `dest` one after the other, the count of each cut to a byte, leaves the rest of `dest` alone
/// and returns how many bytes it wrote. It fails exactly when they do not fit; the failure is handed
/// on as an error of the host, and what such a call leaves in `dest` is not stated.
#[verifier::external_body]
fn encode_slice(structures: &[AdStructure<'_>], dest: &mut [u8]) -> (len: Result<
    usize,
    trouble_host::Error,
>)
    ensures
        final(dest)@.len() == old(dest)@.len(),
        len is Ok <==> encoded(structures@).len() <= old(dest)@.len(),
        len matches Ok(n) ==> n == encoded(structures@).len() && final(dest)@ == encoded(
            structures@,
        ) + old(dest)@.skip(n as int),
{
    let items: Vec<HostStructure<'_>> = structures.iter().map(
        |structure| match *structure {
            AdStructure::Flags(flags) => HostStructure::Flags(flags),
            AdStructure::ServiceData16 { uuid, data } => HostStructure::ServiceData16 { uuid, data },
            AdStructure::CompleteLocalName(name) => HostStructure::CompleteLocalName(name),
        },
    ).collect();
    Ok(HostStructure::encode_slice(&items, dest)?)
}

/// Reads `trouble_host::advertise::LE_GENERAL_DISCOVERABLE`, the flag of a device that can be
/// discovered at any time.
#[verifier::external_body]
fn le_general_discoverable() -> (flag: u8)
    ensures
        flag == 0b010,
{
    trouble_host::advertise::LE_GENERAL_DISCOVERABLE
}

/// Reads `trouble_host::advertise::BR_EDR_NOT_SUPPORTED`, the flag of a device without classic
/// Bluetooth.
#[verifier::external_body]
fn br_edr_not_supported() -> (flag: u8)
    ensures
        flag == 0b100,
{
    trouble_host::advertise::BR_EDR_NOT_SUPPORTED
}

/// What the device sends out while it waits for a peer: a connectable, scannable and undirected
/// advertisement.
#[derive(Debug, PartialEq, Eq)]
pub struct Advertisement {
    pub adv_data: Vec<u8>,
    /// What a scanning peer gets on request.
    pub scan_data: Vec<u8>,
}

/// The advertisement of the Matter service: a device that is generally discoverable and without
/// classic Bluetooth, the service data, and the name in UTF-8.
pub open spec fn advertised(service_name: Seq<char>, service_payload: Seq<u8>) -> Seq<u8> {
    let name = encode_utf8(service_name);
    seq![0x02u8, 0x01u8, 0x06u8] + (seq![((service_payload.len() + 3) % 256) as u8, 0x16u8]
        + le_bytes16(MATTER_BLE_SERVICE_UUID16) + service_payload) + (seq![
        ((name.len() + 1) % 256) as u8,
        0x09u8,
    ] + name)
}

/// Whether the name fits in an advertisement beside the service data and the rest.
pub open spec fn can_advertise(service_name: Seq<char>, service_payload: Seq<u8>) -> bool {
    9 + service_payload.len() + encode_utf8(service_name).len() <= ADV_DATA_SIZE
}

/// Puts the advertisement of the Matter service together. `service_payload` is the service data,
/// which takes at most eight bytes. It fails if the name does not fit beside the rest.
pub fn advertise<E>(service_name: &str, service_payload: &[u8]) -> (advertisement: Result<
    Advertisement,
    ServiceError<E>,
>)
    requires
        service_payload@.len() <= SERVICE_PAYLOAD_SIZE,
    ensures
        advertisement is Ok <==> can_advertise(service_name@, service_payload@),
        advertisement matches Ok(sent) ==> {
            &&& sent.adv_data@ == advertised(service_name@, service_payload@)
            &&& sent.scan_data@ == Seq::<u8>::empty()
        },
        advertisement matches Err(error) ==> error == ServiceError::<E>::BtpError,
{
    let structures: [AdStructure<'_>; 3] = [
        AdStructure::Flags(le_general_discoverable() | br_edr_not_supported()),
        AdStructure::ServiceData16 {
            uuid: [
                (MATTER_BLE_SERVICE_UUID16 % 256) as u8,
                (MATTER_BLE_SERVICE_UUID16 / 256) as u8,
            ],
            data: service_payload,
        },
        AdStructure::CompleteLocalName(service_name.as_bytes()),
    ];
    let mut adv_data: Vec<u8> = vec![0; ADV_DATA_SIZE];
    proof {
        assert(0b010u8 | 0b100u8 == 0x06u8) by (bit_vector);
        lemma_encoded_three(structures@);
        assert(encoded(structures@) =~= advertised(service_name@, service_payload@));
    }
    match encode_slice(structures.as_slice(), adv_data.as_mut_slice()) {
        Ok(len) => {
            adv_data.truncate(len);
            assert(adv_data@ =~= encoded(structures@));
            Ok(Advertisement { adv_data, scan_data: Vec::new() })
        },
        Err(err) => Err(to_matter_err(err)),
    }
}

proof fn lemma_encoded_three(structures: Seq<AdStructure>)
    requires
        structures.len() == 3,
    ensures
        encoded(structures) == structures[0].encoded() + structures[1].encoded()
            + structures[2].encoded(),
{
    reveal_with_fuel(encoded, 4);
    assert(encoded(structures) =~= structures[0].encoded() + structures[1].encoded()
        + structures[2].encoded());
}

/// What a scanner reads out of an advertisement: the type and the data of each structure. It can
/// read nothing where a count is zero or runs past the end.
pub open spec fn read_structures(bytes: Seq<u8>) -> Option<Seq<(u8, Seq<u8>)>>
    decreases bytes.len(),
{
    if bytes.len() == 0 {
        Some(Seq::empty())
    } else {
        let end = bytes[0] + 1;
        if end < 2 || end > bytes.len() {
            None
        } else {
            match read_structures(bytes.skip(end)) {
                Some(rest) => Some(seq![(bytes[1], bytes.subrange(2, end))] + rest),
                None => None,
            }
        }
    }
}

proof fn lemma_read_first(ty: u8, data: Seq<u8>, rest: Seq<u8>)
    requires
        data.len() < 255,
    ensures
        ({
            let first = seq![(data.len() + 1) as u8, ty] + data;
            read_structures(first + rest) == match read_structures(rest) {
                Some(others) => Some(seq![(ty, data)] + others),
                None => None,
            }
        }),
{
    let bytes = seq![(data.len() + 1) as u8, ty] + data + rest;
    let end = bytes[0] + 1;
    assert(bytes.skip(end) =~= rest);
    assert(bytes.subrange(2, end) =~= data);
}

/// A scanner reads back what the device advertises: that it is generally discoverable and without
/// classic Bluetooth, the service data under the UUID of the Matter service, and the whole name.
pub proof fn law_scanner_reads_back(service_name: Seq<char>, service_payload: Seq<u8>)
    requires
        can_advertise(service_name, service_payload),
    ensures
        read_structures(advertised(service_name, service_payload)) == Some(
            seq![
                (0x01u8, seq![0x06u8]),
                (0x16u8, le_bytes16(MATTER_BLE_SERVICE_UUID16) + service_payload),
                (0x09u8, encode_utf8(service_name)),
            ],
        ),
{
    let flags = seq![0x06u8];
    let service = le_bytes16(MATTER_BLE_SERVICE_UUID16) + service_payload;
    let name = encode_utf8(service_name);
    let empty = Seq::<u8>::empty();
    let named = seq![(name.len() + 1) as u8, 0x09u8] + name;
    let served = seq![(service.len() + 1) as u8, 0x16u8] + service;
    lemma_read_first(0x09, name, empty);
    assert(named + empty =~= named);
    lemma_read_first(0x16, service, named);
    lemma_read_first(0x01, flags, served + named);
    assert(advertised(service_name, service_payload) =~= seq![(flags.len() + 1) as u8, 0x01u8]
        + flags + (served + named));
    assert(read_structures(advertised(service_name, service_payload))->Some_0 =~= seq![
        (0x01u8, flags),
        (0x16u8, service),
        (0x09u8, name),
    ]);
}

/// Two devices advertise the same only if they have the same name and the same service data.
pub proof fn law_advertisement_tells_devices_apart(
    one_name: Seq<char>,
    one: Seq<u8>,
    other_name: Seq<char>,
    other: Seq<u8>,
)
    requires
        can_advertise(one_name, one),
        can_advertise(other_name, other),
        advertised(one_name, one) == advertised(other_name, other),
    ensures
        one_name == other_name,
        one == other,
{
    law_scanner_reads_back(one_name, one);
    law_scanner_reads_back(other_name, other);
    let read = read_structures(advertised(one_name, one))->Some_0;
    let uuid = le_bytes16(MATTER_BLE_SERVICE_UUID16);
    assert(read[1].1 == uuid + one);
    assert(read[1].1 == uuid + other);
    assert(read[2].1 == encode_utf8(one_name));
    assert(read[2].1 == encode_utf8(other_name));
    vstd::utf8::encode_utf8_decode_utf8(one_name);
    vstd::utf8::encode_utf8_decode_utf8(other_name);
    assert(one =~= read[1].1.skip(2));
    assert(other =~= read[1].1.skip(2));
}

/// An advertisement is refused only for want of room: it fits exactly when name and service data
/// take at most 22 of its 31 bytes.
pub proof fn law_refused_for_want_of_room(service_name: Seq<char>, service_payload: Seq<u8>)
    ensures
        can_advertise(service_name, service_payload) <==> encode_utf8(service_name).len()
            + service_payload.len() <= 22,
        can_advertise(service_name, service_payload) <==> advertised(
            service_name,
            service_payload,
        ).len() <= 31,
{
}

/// A scanner finds the service data under the UUID 0xfff6, least significant byte first.
pub proof fn law_scanner_finds_the_matter_service(service_name: Seq<char>, service_payload: Seq<u8>)
    requires
        encode_utf8(service_name).len() + service_payload.len() <= 22,
    ensures
        read_structures(advertised(service_name, service_payload)) == Some(
            seq![
                (0x01u8, seq![0x06u8]),
                (0x16u8, seq![0xf6u8, 0xffu8] + service_payload),
                (0x09u8, encode_utf8(service_name)),
            ],
        ),
{
    law_scanner_reads_back(service_name, service_payload);
    assert(le_bytes16(MATTER_BLE_SERVICE_UUID16) =~= seq![0xf6u8, 0xffu8]);
}

} // verus!
