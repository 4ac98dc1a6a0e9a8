use trouble_btp::advertising::{advertise, Advertisement, SERVICE_PAYLOAD_SIZE};
use trouble_btp::error::ServiceError;
use trouble_host::advertise::AdStructure;

const DEVICE: &[u8] = &[0x00, 0x00, 0x0f, 0xf1, 0xff, 0x01, 0x80, 0x00];

fn advertised(name: &str, payload: &[u8]) -> Result<Advertisement, ServiceError<()>> {
    advertise(name, payload)
}

#[test]
fn advertisement_is_laid_out() {
    let sent = advertised("BT", DEVICE).unwrap();
    assert_eq!(
        sent.adv_data,
        vec![
            0x02, 0x01, 0x06, // flags
            0x0b, 0x16, 0xf6, 0xff, // service data
            0x00, 0x00, 0x0f, 0xf1, 0xff, 0x01, 0x80, 0x00, // payload
            0x03, 0x09, b'B', b'T', // name
        ]
    );
    assert!(sent.scan_data.is_empty());
}

#[test]
fn empty_name_is_advertised() {
    let sent = advertised("", DEVICE).unwrap();
    assert_eq!(sent.adv_data.len(), 17);
    assert_eq!(sent.adv_data[15..], [0x01, 0x09]);
}

#[test]
fn name_of_fourteen_bytes_fills_the_advertisement() {
    let sent = advertised("12345678901234", DEVICE).unwrap();
    assert_eq!(sent.adv_data.len(), 31);
    assert_eq!(sent.adv_data[15], 15);
    assert_eq!(&sent.adv_data[17..], b"12345678901234");
}

#[test]
fn longer_name_is_refused() {
    assert_eq!(
        advertised("123456789012345", DEVICE),
        Err(ServiceError::BtpError)
    );
    let very_long = "x".repeat(300);
    assert_eq!(
        advertised(&very_long, DEVICE),
        Err(ServiceError::BtpError)
    );
}

#[test]
fn name_counts_in_bytes() {
    // Seven characters of two bytes each fit, eight do not
    assert_eq!(advertised("ééééééé", DEVICE).unwrap().adv_data.len(), 31);
    assert_eq!(
        advertised("éééééééé", DEVICE),
        Err(ServiceError::BtpError)
    );
}

#[test]
fn scanner_reads_the_advertisement_back() {
    let sent = advertised("Matter", DEVICE).unwrap();
    let mut read = AdStructure::decode(&sent.adv_data);
    assert!(matches!(read.next(), Some(Ok(AdStructure::Flags(0x06)))));
    match read.next() {
        Some(Ok(AdStructure::ServiceData16 { uuid, data })) => {
            assert_eq!(uuid, [0xf6, 0xff]);
            assert_eq!(data, DEVICE);
        }
        _ => panic!("no service data"),
    }
    assert!(matches!(
        read.next(),
        Some(Ok(AdStructure::CompleteLocalName(b"Matter")))
    ));
    assert!(read.next().is_none());
}

#[test]
fn devices_are_told_apart() {
    let other: &[u8] = &[0x00, 0x01, 0x0f, 0xf1, 0xff, 0x01, 0x80, 0x00];
    assert_ne!(advertised("A", DEVICE), advertised("A", other));
    assert_ne!(advertised("A", DEVICE), advertised("B", DEVICE));
    assert_ne!(advertised("A", DEVICE), advertised("A", &DEVICE[..7]));
}

#[test]
fn shorter_service_data_leaves_room_for_the_name() {
    assert_eq!(SERVICE_PAYLOAD_SIZE, 8);
    for len in 0..=SERVICE_PAYLOAD_SIZE {
        let payload = &DEVICE[..len];
        let longest = "x".repeat(22 - len);
        let sent = advertised(&longest, payload).unwrap();
        assert_eq!(sent.adv_data.len(), 31);
        assert_eq!(sent.adv_data[..3], [0x02, 0x01, 0x06]);
        assert_eq!(sent.adv_data[3..7], [len as u8 + 3, 0x16, 0xf6, 0xff]);
        assert_eq!(&sent.adv_data[7..7 + len], payload);
        assert_eq!(sent.adv_data[7 + len..9 + len], [23 - len as u8, 0x09]);
        assert_eq!(&sent.adv_data[9 + len..], longest.as_bytes());
        assert_eq!(
            advertised(&"x".repeat(23 - len), payload),
            Err(ServiceError::BtpError)
        );
    }
}
