//! Frame codec for the 8-channel relay card protocol.
//!
//! A command frame is exactly 4 bytes: `[opcode, address, data, checksum]`,
//! where `checksum` is the XOR of the three bytes before it. The codec
//! builds such frames from a command, a base address, an optional card
//! offset and an optional relay selector, and validates a response frame
//! against the frame that was sent.

use vstd::prelude::*;
use bytes::BytesMut;
use crate::bytebuf::{buf_view, buf_put_u8, buf_as_slice, buf_get};

verus! {

/// Relay numbers selected on one card, each in `1..=8`.
pub type RelayIndex = Vec<u8>;
/// Card offsets within a daisy chain, 1-based.
pub type CardIndex = Vec<u8>;

/// The commands the relay card understands.
#[derive(Debug, Clone, Copy, PartialEq, Eq, Structural)]
pub enum Relay8xCmdSet {
    /// Initialisation command.
    Init,
    /// Switch relays on.
    SetOn,
    /// Toggle relays.
    Toggle,
    /// Switch relays off.
    Reset,
}

/// Everything that can go wrong while encoding a frame or validating a
/// response. The validation variants carry the observed and the expected
/// byte for diagnostics.
#[derive(Debug, Clone, Copy, PartialEq, Eq, Structural)]
pub enum RelayError {
    /// A relay number outside `1..=8` was supplied.
    InvalidRelayNumber,
    /// A command other than Init was encoded without a relay selector.
    MissingRelaySelector,
    /// The response opcode is not the complement of the sent opcode.
    UnexpectedOpcode { got: u8, expected: u8 },
    /// The response address differs from the sent address.
    AddressMismatch { got: u8, expected: u8 },
    /// The response checksum does not match its own first three bytes.
    ChecksumMismatch { got: u8, expected: u8 },
}

/// The opcode byte of each command.
pub open spec fn opcode_spec(c: Relay8xCmdSet) -> u8 {
    match c {
        Relay8xCmdSet::Init => 1u8,
        Relay8xCmdSet::SetOn => 6u8,
        Relay8xCmdSet::Toggle => 8u8,
        Relay8xCmdSet::Reset => 7u8,
    }
}

/// A relay number is valid when it lies in `1..=8`.
pub open spec fn relay_in_range(n: u8) -> bool {
    1 <= n && n <= 8
}

/// Every relay number of a selector is valid.
pub open spec fn valid_relays(s: Seq<u8>) -> bool {
    forall|i: int| 0 <= i < s.len() ==> relay_in_range(s[i])
}

/// The data-byte bit that stands for relay `n`: bit `n - 1`.
pub open spec fn mask_bit(n: u8) -> u8 {
    1u8 << ((n - 1) as u8)
}

/// The data byte for a relay selector: bit `n - 1` set for each selected
/// relay `n`, folded left to right.
pub open spec fn relay_mask(s: Seq<u8>) -> u8
    decreases s.len(),
{
    if s.len() == 0 {
        0u8
    } else {
        relay_mask(s.drop_last()) | mask_bit(s.last())
    }
}

/// XOR of all bytes of a sequence, folded left to right.
pub open spec fn xor_fold(s: Seq<u8>) -> u8
    decreases s.len(),
{
    if s.len() == 0 {
        0u8
    } else {
        xor_fold(s.drop_last()) ^ s.last()
    }
}

/// The address byte: base address plus card offset minus one; a missing
/// offset defaults to the first card.
pub open spec fn addressed_spec(address: u8, card: Option<u8>) -> int {
    address + (match card {
        Some(c) => c as int,
        None => 1int,
    }) - 1
}

/// A well-formed 4-byte frame for the given opcode, address and data.
pub open spec fn frame_spec(op: u8, addr: u8, data: u8) -> Seq<u8> {
    seq![op, addr, data, op ^ addr ^ data]
}

/// The address byte a command puts in its frame: Init always addresses
/// the base card; the other commands apply the card offset.
pub open spec fn addr_byte(c: Relay8xCmdSet, start_address: u8, card: Option<u8>) -> u8 {
    if c is Init {
        start_address
    } else {
        addressed_spec(start_address, card) as u8
    }
}

/// The data byte a command puts in its frame: 0 for Init, the relay mask
/// for the others.
pub open spec fn data_byte(c: Relay8xCmdSet, relays: Option<Seq<u8>>) -> u8 {
    if c is Init {
        0u8
    } else {
        match relays {
            Some(s) => relay_mask(s),
            None => 0u8,
        }
    }
}

/// The full frame a command encodes to.
pub open spec fn encoded_frame(
    c: Relay8xCmdSet,
    start_address: u8,
    card: Option<u8>,
    relays: Option<Seq<u8>>,
) -> Seq<u8> {
    frame_spec(opcode_spec(c), addr_byte(c, start_address, card), data_byte(c, relays))
}

/// Encoding succeeds exactly when the command is Init, or a selector is
/// present and all its relay numbers are valid.
pub open spec fn encode_ok(c: Relay8xCmdSet, relays: Option<Seq<u8>>) -> bool {
    c is Init || (relays matches Some(s) && valid_relays(s))
}

/// The selector argument of `encode`, seen as an optional sequence.
pub open spec fn relays_view(relays: Option<&RelayIndex>) -> Option<Seq<u8>> {
    match relays {
        Some(v) => Some(v@),
        None => None,
    }
}

/// A response is accepted against a sent frame when its opcode is the
/// complement of the sent opcode, its address matches the sent address
/// (skipped when the sent address is 0), and its checksum is the XOR of
/// its own first three bytes.
pub open spec fn response_valid(resp: Seq<u8>, sent: Seq<u8>) -> bool
    recommends
        resp.len() == 4,
        sent.len() == 4,
{
    &&& resp[0] == !sent[0]
    &&& (sent[1] == 0 || resp[1] == sent[1])
    &&& resp[3] == (resp[0] ^ resp[1] ^ resp[2])
}

impl Relay8xCmdSet {
    /// The data byte for the relays to be switched.
    pub fn relay_as_u8(vec: &RelayIndex) -> (r: u8)
        requires
            valid_relays(vec@),
        ensures
            r == relay_mask(vec@),
    {
        let mut relay_bin: u8 = 0;
        let mut i: usize = 0;
        while i < vec.len()
            invariant
                valid_relays(vec@),
                i <= vec@.len(),
                relay_bin == relay_mask(vec@.take(i as int)),
            decreases vec@.len() - i,
        {
            let x = vec[i];
            proof {
                assert(relay_in_range(vec@[i as int]));
                assert(vec@.take(i + 1).drop_last() =~= vec@.take(i as int));
            }
            relay_bin = relay_bin | (1u8 << (x - 1));
            i = i + 1;
        }
        proof {
            assert(vec@.take(vec@.len() as int) =~= vec@);
        }
        relay_bin
    }

    /// The XOR checksum for the last byte of a frame, computed over the
    /// bytes before it.
    pub fn checksummed(x: &[u8]) -> (r: u8)
        ensures
            r == xor_fold(x@),
    {
        let mut acc: u8 = 0;
        let mut i: usize = 0;
        while i < x.len()
            invariant
                i <= x@.len(),
                acc == xor_fold(x@.take(i as int)),
            decreases x@.len() - i,
        {
            proof {
                assert(x@.take(i + 1).drop_last() =~= x@.take(i as int));
            }
            acc = acc ^ x[i];
            i = i + 1;
        }
        proof {
            assert(x@.take(x@.len() as int) =~= x@);
        }
        acc
    }

    /// The address of one card in the chain, from the base address and the
    /// card's 1-based offset.
    pub fn addressed(address: u8, card: Option<u8>) -> (r: u8)
        requires
            card matches Some(c) ==> 1 <= c && address + c - 1 <= 255,
        ensures
            r as int == addressed_spec(address, card),
    {
        let c = match card {
            Some(c) => c,
            None => 1u8,
        };
        address + (c - 1)
    }

    /// Every relay number of the selector lies in `1..=8`.
    fn relays_ok(vec: &RelayIndex) -> (r: bool)
        ensures
            r == valid_relays(vec@),
    {
        let mut i: usize = 0;
        while i < vec.len()
            invariant
                i <= vec@.len(),
                forall|j: int| 0 <= j < i ==> relay_in_range(vec@[j]),
            decreases vec@.len() - i,
        {
            if vec[i] < 1 || vec[i] > 8 {
                return false;
            }
            i = i + 1;
        }
        true
    }

    /// Appends the 4-byte command frame for this command to an empty
    /// buffer: opcode, card address, data byte, XOR checksum.
    pub fn encode(
        self,
        bytes: &mut BytesMut,
        start_address: u8,
        card: Option<u8>,
        relays: Option<&RelayIndex>,
    ) -> (r: Result<(), RelayError>)
        requires
            buf_view(*old(bytes)).len() == 0,
            !(self is Init) ==> (card matches Some(c) ==> 1 <= c && start_address + c - 1 <= 255),
        ensures
            match r {
                Ok(_) => encode_ok(self, relays_view(relays)) && buf_view(*final(bytes))
                    == encoded_frame(self, start_address, card, relays_view(relays)),
                Err(e) => {
                    &&& buf_view(*final(bytes)) == buf_view(*old(bytes))
                    &&& !(self is Init)
                    &&& !encode_ok(self, relays_view(relays))
                    &&& match e {
                        RelayError::MissingRelaySelector => relays is None,
                        RelayError::InvalidRelayNumber => relays matches Some(v)
                            && !valid_relays(v@),
                        _ => false,
                    }
                },
            },
    {
        match self {
            Relay8xCmdSet::Init => {
                let cmd: u8 = 1;
                buf_put_u8(bytes, cmd);
                buf_put_u8(bytes, start_address);
                buf_put_u8(bytes, 0);
                let checksum = Relay8xCmdSet::checksummed(buf_as_slice(bytes));
                proof {
                    lemma_checksum_fold(cmd, start_address, 0);
                    assert(buf_view(*bytes) =~= seq![cmd, start_address, 0u8]);
                }
                buf_put_u8(bytes, checksum);
                proof {
                    assert(buf_view(*bytes) =~= frame_spec(cmd, start_address, 0u8));
                }
                Ok(())
            },
            _ => {
                let cmd: u8 = match self {
                    Relay8xCmdSet::Init => 1,
                    Relay8xCmdSet::SetOn => 6,
                    Relay8xCmdSet::Toggle => 8,
                    Relay8xCmdSet::Reset => 7,
                };
                let rel = match relays {
                    Some(rel) => rel,
                    None => {
                        return Err(RelayError::MissingRelaySelector);
                    },
                };
                if !Relay8xCmdSet::relays_ok(rel) {
                    return Err(RelayError::InvalidRelayNumber);
                }
                buf_put_u8(bytes, cmd);
                let address = Relay8xCmdSet::addressed(start_address, card);
                buf_put_u8(bytes, address);
                let relay_bin = Relay8xCmdSet::relay_as_u8(rel);
                buf_put_u8(bytes, relay_bin);
                let checksum = Relay8xCmdSet::checksummed(buf_as_slice(bytes));
                proof {
                    lemma_checksum_fold(cmd, address, relay_bin);
                    assert(buf_view(*bytes) =~= seq![cmd, address, relay_bin]);
                }
                buf_put_u8(bytes, checksum);
                proof {
                    assert(buf_view(*bytes) =~= frame_spec(cmd, address, relay_bin));
                }
                Ok(())
            },
        }
    }
}

/// Validates a response frame against the frame that was sent: the first
/// byte must be the complement of the sent opcode, the second must match
/// the sent address unless the sent address is 0 (the broadcast case, in
/// which the address check is skipped -- a protocol quirk kept on purpose),
/// and the fourth must be the XOR of the response's own first three bytes.
/// The checks run in that order and the first failure is returned.
pub fn check_response(msg: &BytesMut, sent_msg: &BytesMut) -> (r: Result<(), RelayError>)
    requires
        buf_view(*msg).len() == 4,
        buf_view(*sent_msg).len() == 4,
    ensures
        match r {
            Ok(_) => response_valid(buf_view(*msg), buf_view(*sent_msg)),
            Err(e) => {
                let resp = buf_view(*msg);
                let sent = buf_view(*sent_msg);
                &&& !response_valid(resp, sent)
                &&& match e {
                    RelayError::UnexpectedOpcode { got, expected } => got == resp[0] && expected
                        == !sent[0] && got != expected,
                    RelayError::AddressMismatch { got, expected } => resp[0] == !sent[0] && got
                        == resp[1] && expected == sent[1] && got != expected && expected != 0,
                    RelayError::ChecksumMismatch { got, expected } => resp[0] == !sent[0] && (
                    sent[1] == 0 || resp[1] == sent[1]) && got == resp[3] && expected == (resp[0]
                        ^ resp[1] ^ resp[2]) && got != expected,
                    _ => false,
                }
            },
        },
{
    let checker_byte = buf_get(sent_msg, 0);
    let checked_byte = buf_get(msg, 0);
    if checked_byte != !checker_byte {
        return Err(RelayError::UnexpectedOpcode { got: checked_byte, expected: !checker_byte });
    }
    let resp_addr = buf_get(msg, 1);
    let sent_addr = buf_get(sent_msg, 1);
    if resp_addr != sent_addr && sent_addr != 0 {
        return Err(RelayError::AddressMismatch { got: resp_addr, expected: sent_addr });
    }
    let expected = buf_get(msg, 0) ^ buf_get(msg, 1) ^ buf_get(msg, 2);
    let got = buf_get(msg, 3);
    if got != expected {
        return Err(RelayError::ChecksumMismatch { got, expected });
    }
    Ok(())
}

/// Law: the checksum of a frame is the XOR fold of the bytes before it,
/// which for the three bytes of a command frame is their in-place XOR;
/// the fold is commutative and associative, so it is order-independent.
pub proof fn lemma_checksum_fold(a: u8, b: u8, c: u8)
    ensures
        xor_fold(seq![a, b, c]) == (a ^ b ^ c),
        a ^ b == b ^ a,
        (a ^ b) ^ c == a ^ (b ^ c),
{
    assert(a ^ b == b ^ a) by (bit_vector);
    assert((a ^ b) ^ c == a ^ (b ^ c)) by (bit_vector);
    let s = seq![a, b, c];
    assert(s.drop_last() =~= seq![a, b]);
    assert(seq![a, b].drop_last() =~= seq![a]);
    assert(seq![a].drop_last() =~= Seq::<u8>::empty());
    assert(0u8 ^ a == a) by (bit_vector);
    assert(xor_fold(Seq::<u8>::empty()) == 0u8);
    assert(seq![a].last() == a);
    assert(xor_fold(seq![a]) == xor_fold(seq![a].drop_last()) ^ seq![a].last());
    assert(xor_fold(seq![a]) == a);
    assert(xor_fold(seq![a, b]) == a ^ b);
    assert(xor_fold(s) == (a ^ b) ^ c);
}

/// Law: the XOR fold of a whole well-formed frame is 0, since the
/// checksum byte cancels the three bytes before it.
pub proof fn lemma_frame_checksum_self_cancels(op: u8, addr: u8, data: u8)
    ensures
        xor_fold(frame_spec(op, addr, data)) == 0u8,
{
    lemma_checksum_fold(op, addr, data);
    let f = frame_spec(op, addr, data);
    assert(f.drop_last() =~= seq![op, addr, data]);
    assert(f.last() == (op ^ addr ^ data));
    assert((op ^ addr ^ data) ^ (op ^ addr ^ data) == 0u8) by (bit_vector);
}

} // verus!
