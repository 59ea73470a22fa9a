use bytes::{BufMut, BytesMut};
use relay8x::codec::{Relay8xCmdSet, RelayError};
use relay8x::session::{
    default_settings, init_poll, FlowControl, InitPoll, Parity, Relay8x, INIT_ACK,
};

fn frame(bytes: &[u8]) -> BytesMut {
    let mut b = BytesMut::with_capacity(bytes.len());
    for &x in bytes {
        b.put_u8(x);
    }
    b
}

#[test]
fn command_frames_covers_each_card() {
    let session = Relay8x::new(1);
    let frames = session
        .command_frames(Relay8xCmdSet::SetOn, &vec![1u8, 2, 3], &vec![1u8])
        .unwrap();
    assert_eq!(frames.len(), 3);
    assert_eq!(&frames[0][..], &[6, 1, 1, 6 ^ 1 ^ 1][..]);
    assert_eq!(&frames[1][..], &[6, 2, 1, 6 ^ 2 ^ 1][..]);
    assert_eq!(&frames[2][..], &[6, 3, 1, 6 ^ 3 ^ 1][..]);
}

#[test]
fn command_frames_defaults_to_base_card() {
    let session = Relay8x::new(4);
    let frames = session
        .command_frames(Relay8xCmdSet::Reset, &vec![], &vec![2u8, 4])
        .unwrap();
    assert_eq!(frames.len(), 1);
    assert_eq!(&frames[0][..], &[7, 4, 0b0000_1010, 7 ^ 4 ^ 0b0000_1010][..]);
}

#[test]
fn command_frames_rejects_invalid_relay() {
    let session = Relay8x::new(1);
    let err = session
        .command_frames(Relay8xCmdSet::Toggle, &vec![1u8], &vec![9u8])
        .unwrap_err();
    assert_eq!(err, RelayError::InvalidRelayNumber);
}

#[test]
fn session_keeps_its_base_address() {
    let session = Relay8x::new(17);
    assert_eq!(session.start_address(), 17);
}

#[test]
fn init_poll_completes_on_acknowledgement() {
    let resp = frame(&[0, 0, INIT_ACK, 4]);
    assert_eq!(init_poll(&resp, 0, 10), InitPoll::Complete);
    assert_eq!(init_poll(&resp, 10, 10), InitPoll::Complete);
}

#[test]
fn init_poll_retries_until_budget_runs_out() {
    let resp = frame(&[0, 0, 0, 0]);
    assert_eq!(init_poll(&resp, 0, 10), InitPoll::Retry);
    assert_eq!(init_poll(&resp, 9, 10), InitPoll::Retry);
    assert_eq!(init_poll(&resp, 10, 10), InitPoll::TimedOut);
    assert_eq!(init_poll(&frame(&[]), 11, 10), InitPoll::TimedOut);
}

#[test]
fn init_frame_addresses_the_base_card() {
    let session = Relay8x::new(1);
    let f = session.init_frame();
    assert_eq!(&f[..], &[1, 1, 0, 0][..]);
    let session = Relay8x::new(9);
    let f = session.init_frame();
    assert_eq!(&f[..], &[1, 9, 0, 1 ^ 9][..]);
}

#[test]
fn default_settings_match_card_requirements() {
    let s = default_settings();
    assert_eq!(s.baud, 19200);
    assert_eq!(s.data_bits, 8);
    assert_eq!(s.parity, Parity::ParityNone);
    assert_eq!(s.stop_bits, 1);
    assert_eq!(s.flow_control, FlowControl::FlowNone);
    assert_eq!(s.timeout_ms, 1000);
}
