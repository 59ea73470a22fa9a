use bytes::{BufMut, BytesMut};
use relay8x::codec::{Relay8xCmdSet, RelayError};

fn frame(bytes: &[u8]) -> BytesMut {
    let mut b = BytesMut::with_capacity(bytes.len());
    for &x in bytes {
        b.put_u8(x);
    }
    b
}

fn encode_frame(
    cmd: Relay8xCmdSet,
    start_address: u8,
    card: Option<u8>,
    relays: Option<&Vec<u8>>,
) -> Result<BytesMut, RelayError> {
    let mut b = BytesMut::with_capacity(4);
    cmd.encode(&mut b, start_address, card, relays)?;
    Ok(b)
}

#[test]
fn frame_checksum_is_xor_of_leading_bytes() {
    let relays = vec![2u8, 5];
    let f = encode_frame(Relay8xCmdSet::SetOn, 3, Some(2), Some(&relays)).unwrap();
    assert_eq!(f.len(), 4);
    assert_eq!(f[3], f[0] ^ f[1] ^ f[2]);
    assert_eq!(&f[..], &[6, 4, 0b0001_0010, 6 ^ 4 ^ 0b0001_0010][..]);
    assert_eq!(Relay8xCmdSet::checksummed(&f[..3]), f[3]);
    assert_eq!(Relay8xCmdSet::checksummed(&f[..]), 0);
}

#[test]
fn relay_mask_counts_each_selected_relay() {
    let mask = Relay8xCmdSet::relay_as_u8(&vec![2u8, 5, 7]);
    assert_eq!(mask.count_ones(), 3);
    let union = Relay8xCmdSet::relay_as_u8(&vec![1u8, 2, 3]);
    let left = Relay8xCmdSet::relay_as_u8(&vec![1u8, 2]);
    let right = Relay8xCmdSet::relay_as_u8(&vec![2u8, 3]);
    assert_eq!(union, left | right);
}

#[test]
fn relay_mask_empty_and_full() {
    assert_eq!(Relay8xCmdSet::relay_as_u8(&vec![]), 0);
    assert_eq!(Relay8xCmdSet::relay_as_u8(&vec![1u8, 2, 3, 4, 5, 6, 7, 8]), 0xFF);
}

#[test]
fn encode_is_selector_order_independent() {
    let a = encode_frame(Relay8xCmdSet::SetOn, 1, Some(1), Some(&vec![3u8, 1])).unwrap();
    let b = encode_frame(Relay8xCmdSet::SetOn, 1, Some(1), Some(&vec![1u8, 3])).unwrap();
    assert_eq!(&a[..], &b[..]);
    assert_eq!(a[2], 0b0000_0101);
}

#[test]
fn address_applies_card_offset() {
    assert_eq!(Relay8xCmdSet::addressed(5, Some(3)), 7);
    assert_eq!(Relay8xCmdSet::addressed(5, Some(1)), 5);
    assert_eq!(Relay8xCmdSet::addressed(5, None), 5);
    assert_eq!(Relay8xCmdSet::addressed(255, Some(1)), 255);
    assert_eq!(Relay8xCmdSet::addressed(1, Some(255)), 255);
    let f = encode_frame(Relay8xCmdSet::Toggle, 10, Some(4), Some(&vec![8u8])).unwrap();
    assert_eq!(f[1], 13);
    assert_eq!(f[0], 8);
    let f = encode_frame(Relay8xCmdSet::Reset, 10, None, Some(&vec![])).unwrap();
    assert_eq!(f[1], 10);
    assert_eq!(f[0], 7);
    assert_eq!(f[2], 0);
}

#[test]
fn relay_zero_and_nine_rejected() {
    let err = encode_frame(Relay8xCmdSet::SetOn, 1, Some(1), Some(&vec![0u8])).unwrap_err();
    assert_eq!(err, RelayError::InvalidRelayNumber);
    let err = encode_frame(Relay8xCmdSet::SetOn, 1, Some(1), Some(&vec![9u8])).unwrap_err();
    assert_eq!(err, RelayError::InvalidRelayNumber);
    let err = encode_frame(Relay8xCmdSet::Reset, 1, Some(1), Some(&vec![1u8, 0, 3])).unwrap_err();
    assert_eq!(err, RelayError::InvalidRelayNumber);
}

#[test]
fn missing_selector_rejected() {
    let err = encode_frame(Relay8xCmdSet::SetOn, 1, Some(1), None).unwrap_err();
    assert_eq!(err, RelayError::MissingRelaySelector);
    let err = encode_frame(Relay8xCmdSet::Toggle, 1, None, None).unwrap_err();
    assert_eq!(err, RelayError::MissingRelaySelector);
}

#[test]
fn init_ignores_missing_selector() {
    let f = encode_frame(Relay8xCmdSet::Init, 7, None, None).unwrap();
    assert_eq!(&f[..], &[1, 7, 0, 1 ^ 7][..]);
}

#[test]
fn init_frame_for_base_address_one() {
    let f = encode_frame(Relay8xCmdSet::Init, 1, None, None).unwrap();
    assert_eq!(&f[..], &[1, 1, 0, 0][..]);
}

#[test]
fn set_frame_for_card_one_relays_one_three() {
    let f = encode_frame(Relay8xCmdSet::SetOn, 1, Some(1), Some(&vec![1u8, 3])).unwrap();
    assert_eq!(&f[..], &[6, 1, 0b0000_0101, 2][..]);
}

#[test]
fn validate_accepts_matching_response() {
    let sent = frame(&[6, 1, 5, 2]);
    let resp = frame(&[!6, 1, 5, !6 ^ 1 ^ 5]);
    assert_eq!(relay8x::codec::check_response(&resp, &sent), Ok(()));
}

#[test]
fn validate_accepts_init_response() {
    let sent = frame(&[1, 1, 0, 0]);
    let resp = frame(&[254, 1, 11, 254 ^ 1 ^ 11]);
    assert_eq!(relay8x::codec::check_response(&resp, &sent), Ok(()));
}

#[test]
fn validate_rejects_wrong_opcode() {
    let sent = frame(&[6, 1, 5, 2]);
    let resp = frame(&[6, 1, 5, 2]);
    assert_eq!(
        relay8x::codec::check_response(&resp, &sent),
        Err(RelayError::UnexpectedOpcode { got: 6, expected: !6 })
    );
}

#[test]
fn validate_rejects_wrong_address() {
    let sent = frame(&[6, 2, 5, 6 ^ 2 ^ 5]);
    let resp = frame(&[!6, 3, 5, !6 ^ 3 ^ 5]);
    assert_eq!(
        relay8x::codec::check_response(&resp, &sent),
        Err(RelayError::AddressMismatch { got: 3, expected: 2 })
    );
}

#[test]
fn validate_skips_address_check_for_broadcast() {
    let sent = frame(&[6, 0, 5, 6 ^ 0 ^ 5]);
    let resp = frame(&[!6, 42, 5, !6 ^ 42 ^ 5]);
    assert_eq!(relay8x::codec::check_response(&resp, &sent), Ok(()));
}

#[test]
fn corrupted_checksum_reports_checksum_mismatch() {
    let sent = frame(&[1, 1, 0, 0]);
    let good = 254 ^ 1 ^ 11;
    let resp = frame(&[254, 1, 11, good ^ 0x40]);
    assert_eq!(
        relay8x::codec::check_response(&resp, &sent),
        Err(RelayError::ChecksumMismatch { got: good ^ 0x40, expected: good })
    );
}
