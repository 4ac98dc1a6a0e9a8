use trouble_btp::address::{static_random_address, to_bt_addr, BtAddr};

#[test]
fn address_carries_the_type_bits_in_its_last_byte() {
    assert_eq!(
        static_random_address(0x0000_0102_0304_0506),
        Some([0x06, 0x05, 0x04, 0x03, 0x02, 0xc1])
    );
    assert_eq!(
        static_random_address(1),
        Some([0x01, 0x00, 0x00, 0x00, 0x00, 0xc0])
    );
    assert_eq!(
        static_random_address(0x3fff_ffff_fffe),
        Some([0xfe, 0xff, 0xff, 0xff, 0xff, 0xff])
    );
}

#[test]
fn address_ignores_the_upper_bits_of_the_draw() {
    assert_eq!(
        static_random_address(0xffff_c000_0000_0001),
        Some([0x01, 0x00, 0x00, 0x00, 0x00, 0xc0])
    );
    assert_eq!(
        static_random_address(0xabcd_1234_5678_9abc),
        static_random_address(0x1234_5678_9abc)
    );
}

#[test]
fn uniform_draws_make_no_address() {
    assert_eq!(static_random_address(0), None);
    assert_eq!(static_random_address(0x3fff_ffff_ffff), None);
    assert_eq!(static_random_address(u64::MAX), None);
    assert_eq!(static_random_address(0xffff_c000_0000_0000), None);
}

#[test]
fn every_static_random_address_can_be_drawn() {
    for address in [
        [0x01, 0x00, 0x00, 0x00, 0x00, 0xc0],
        [0xff, 0x9f, 0x1a, 0x05, 0xe4, 0xff],
        [0x00, 0x00, 0x00, 0x00, 0x00, 0xe0],
    ] {
        let mut bytes = [0; 8];
        bytes[..6].copy_from_slice(&address);
        assert_eq!(
            static_random_address(u64::from_le_bytes(bytes)),
            Some(address)
        );
    }
}

#[test]
fn different_low_bits_make_different_addresses() {
    assert_ne!(static_random_address(2), static_random_address(3));
}

#[test]
fn peer_address_is_taken_over() {
    assert_eq!(to_bt_addr(&[1, 2, 3, 4, 5, 6]), BtAddr([1, 2, 3, 4, 5, 6]));
    assert_eq!(
        to_bt_addr(&[1, 2, 3, 4, 5, 6, 7]),
        BtAddr([1, 2, 3, 4, 5, 6])
    );
}
