use trouble_btp::context::{IndBuffer, TroubleBtpGattContext, TroubleBtpGattIndContext};
use trouble_host::prelude::{DefaultPacketPool, PacketPool};

const MTU: usize = DefaultPacketPool::MTU;

fn assert_fresh(buffer: &mut IndBuffer<MTU>) {
    assert_eq!(buffer.len(), 0);
    assert!(buffer.as_slice().is_empty());
    assert_eq!(buffer.capacity(), MTU);
    buffer.resize_to_mtu();
    assert_eq!(buffer.as_slice(), vec![0; MTU]);
}

#[test]
fn contexts_start_empty() {
    assert_fresh(&mut TroubleBtpGattContext::new().ind_buf);
    assert_fresh(&mut TroubleBtpGattContext::init().ind_buf);
    assert_fresh(&mut TroubleBtpGattContext::default().ind_buf);
    assert_fresh(&mut TroubleBtpGattIndContext::new().ind_buf);
    assert_fresh(&mut TroubleBtpGattIndContext::init().ind_buf);
    assert_fresh(&mut TroubleBtpGattIndContext::default().ind_buf);
}

#[test]
fn buffer_keeps_its_bytes_over_a_second_run() {
    let mut context = TroubleBtpGattIndContext::<MTU>::new();
    context.ind_buf.resize_to_mtu();
    context.ind_buf.as_mut_slice()[0] = 7;
    context.ind_buf.resize_to_mtu();
    assert_eq!(context.ind_buf.len(), MTU);
    assert_eq!(context.ind_buf.as_slice()[0], 7);
    assert_eq!(context.ind_buf.as_slice()[1], 0);
}

#[test]
fn buffer_is_cut_and_filled() {
    let mut buffer = IndBuffer::<3>::new();
    buffer.resize_to_mtu();
    buffer.as_mut_slice().copy_from_slice(&[1, 2, 3]);
    assert_eq!(buffer.resize_default(2), Ok(()));
    assert_eq!(buffer.as_slice(), [1, 2]);
    assert_eq!(buffer.resize_default(3), Ok(()));
    assert_eq!(buffer.as_slice(), [1, 2, 0]);
    assert_eq!(buffer.resize_default(0), Ok(()));
    assert!(buffer.as_slice().is_empty());
    buffer.resize_to_mtu();
    assert_eq!(buffer.as_slice(), [0, 0, 0]);
}

#[test]
fn buffer_does_not_outgrow_its_room() {
    let mut buffer = IndBuffer::<2>::new();
    assert_eq!(buffer.resize_default(1), Ok(()));
    assert_eq!(buffer.resize_default(3), Err(()));
    assert_eq!(buffer.as_slice(), [0]);
    assert_eq!(buffer.resize_default(usize::MAX), Err(()));
    assert_eq!(buffer.len(), 1);
    assert_eq!(buffer.capacity(), 2);
}
