//! Session logic for a chain of relay cards: which frames a logical
//! operation sends, in what order, and how the initialisation poll
//! decides when it is done. The serial transport itself is an outside
//! collaborator; it writes the planned frames, reads the replies, and
//! hands them back to `codec::check_response` and `init_poll`.

use vstd::prelude::*;
use bytes::BytesMut;
use crate::bytebuf::{buf_view, buf_with_capacity, buf_len, buf_get};
use crate::codec::{Relay8xCmdSet, RelayError, RelayIndex, CardIndex, encoded_frame, valid_relays};

verus! {

/// The acknowledgement byte a card sends when initialisation completed.
pub const INIT_ACK: u8 = 9;

/// A session with a chain of relay cards: the address of the first card.
/// The duplex channel that carries the frames is owned by the caller.
pub struct Relay8x {
    start_address: u8,
}

/// The serial-line parity setting.
#[derive(Debug, Clone, Copy, PartialEq, Eq, Structural)]
pub enum Parity {
    ParityNone,
    ParityOdd,
    ParityEven,
}

/// The serial-line flow-control setting.
#[derive(Debug, Clone, Copy, PartialEq, Eq, Structural)]
pub enum FlowControl {
    FlowNone,
    FlowSoftware,
    FlowHardware,
}

/// The settings the transport collaborator must configure before the
/// first frame is written.
#[derive(Debug, Clone, Copy, PartialEq, Eq, Structural)]
pub struct PortSettings {
    pub baud: u32,
    pub data_bits: u8,
    pub parity: Parity,
    pub stop_bits: u8,
    pub flow_control: FlowControl,
    pub timeout_ms: u64,
}

/// The serial settings the relay card requires: 19200 baud, 8 data bits,
/// no parity, 1 stop bit, no flow control, 1000 ms timeout.
pub fn default_settings() -> (s: PortSettings)
    ensures
        s.baud == 19200,
        s.data_bits == 8,
        s.parity == Parity::ParityNone,
        s.stop_bits == 1,
        s.flow_control == FlowControl::FlowNone,
        s.timeout_ms == 1000,
{
    PortSettings {
        baud: 19200,
        data_bits: 8,
        parity: Parity::ParityNone,
        stop_bits: 1,
        flow_control: FlowControl::FlowNone,
        timeout_ms: 1000,
    }
}

/// The card offsets an operation addresses: the selected ones, or the
/// base card alone when none is selected.
pub open spec fn card_plan(cards: Seq<u8>) -> Seq<u8> {
    if cards.len() == 0 {
        seq![1u8]
    } else {
        cards
    }
}

/// Whether a response read so far holds the initialisation
/// acknowledgement byte.
pub open spec fn contains_ack(resp: Seq<u8>) -> bool {
    exists|i: int| 0 <= i < resp.len() && resp[i] == INIT_ACK
}

/// What the initialisation poll should do next.
#[derive(Debug, Clone, Copy, PartialEq, Eq, Structural)]
pub enum InitPoll {
    /// The acknowledgement byte arrived; initialisation is complete.
    Complete,
    /// Not yet seen; read more.
    Retry,
    /// Not seen within the allowed number of reads; give up.
    TimedOut,
}

/// Decides, after each read of the initialisation response, whether the
/// poll is complete, should read again, or has exhausted its budget. The
/// budget keeps the wait for the acknowledgement byte bounded.
pub fn init_poll(resp: &BytesMut, attempts: u32, max_attempts: u32) -> (r: InitPoll)
    ensures
        r == InitPoll::Complete <==> contains_ack(buf_view(*resp)),
        r == InitPoll::TimedOut <==> !contains_ack(buf_view(*resp)) && attempts >= max_attempts,
        r == InitPoll::Retry <==> !contains_ack(buf_view(*resp)) && attempts < max_attempts,
{
    let n = buf_len(resp);
    let mut i: usize = 0;
    while i < n
        invariant
            n == buf_view(*resp).len(),
            i <= n,
            forall|j: int| 0 <= j < i ==> buf_view(*resp)[j] != INIT_ACK,
        decreases n - i,
    {
        if buf_get(resp, i) == INIT_ACK {
            return InitPoll::Complete;
        }
        i = i + 1;
    }
    if attempts >= max_attempts {
        InitPoll::TimedOut
    } else {
        InitPoll::Retry
    }
}

impl Relay8x {
    /// The address of the first card of the chain.
    pub closed spec fn address_spec(self) -> u8 {
        self.start_address
    }

    /// A session for a chain whose first card has the given address.
    pub fn new(address: u8) -> (r: Self)
        ensures
            r.address_spec() == address,
    {
        Relay8x { start_address: address }
    }

    /// The address of the first card of the chain.
    pub fn start_address(&self) -> (r: u8)
        ensures
            r == self.address_spec(),
    {
        self.start_address
    }

    /// The initialisation frame: opcode 1, the base address, data 0, and
    /// the checksum. Initialisation always addresses the base card and
    /// takes no relay selector.
    pub fn init_frame(&self) -> (r: BytesMut)
        ensures
            buf_view(r) == encoded_frame(Relay8xCmdSet::Init, self.address_spec(), None, None),
    {
        let mut bytes = buf_with_capacity(4);
        let encoded = Relay8xCmdSet::encode(Relay8xCmdSet::Init, &mut bytes, self.start_address, None, None);
        match encoded {
            Ok(_) => bytes,
            Err(_) => {
                proof {
                    assert(false);
                }
                bytes
            },
        }
    }

    /// One command frame per selected card, in selector order; an empty
    /// card selector means the base card alone. The whole batch is
    /// planned before anything is written, so an invalid relay number is
    /// rejected before any I/O.
    pub fn command_frames(&self, cmd: Relay8xCmdSet, cards: &CardIndex, relays: &RelayIndex) -> (r:
        Result<Vec<BytesMut>, RelayError>)
        requires
            !(cmd is Init),
            forall|i: int|
                0 <= i < cards@.len() ==> 1 <= cards@[i] && self.address_spec() + cards@[i] - 1
                    <= 255,
        ensures
            match r {
                Ok(frames) => valid_relays(relays@) && frames@.len() == card_plan(cards@).len()
                    && forall|i: int|
                    0 <= i < frames@.len() ==> buf_view(frames@[i]) == encoded_frame(
                        cmd,
                        self.address_spec(),
                        Some(card_plan(cards@)[i]),
                        Some(relays@),
                    ),
                Err(e) => e == RelayError::InvalidRelayNumber && !valid_relays(relays@),
            },
    {
        let mut frames: Vec<BytesMut> = Vec::new();
        if cards.len() == 0 {
            let mut bytes = buf_with_capacity(4);
            match Relay8xCmdSet::encode(cmd, &mut bytes, self.start_address, None, Some(relays)) {
                Ok(_) => {
                    frames.push(bytes);
                    proof {
                        assert(encoded_frame(cmd, self.address_spec(), None, Some(relays@))
                            =~= encoded_frame(cmd, self.address_spec(), Some(1u8), Some(relays@)));
                        assert(card_plan(cards@) =~= seq![1u8]);
                    }
                    Ok(frames)
                },
                Err(e) => Err(e),
            }
        } else {
            let mut i: usize = 0;
            while i < cards.len()
                invariant
                    !(cmd is Init),
                    cards@.len() > 0,
                    i <= cards@.len(),
                    frames@.len() == i,
                    i > 0 ==> valid_relays(relays@),
                    forall|ii: int|
                        0 <= ii < cards@.len() ==> 1 <= cards@[ii] && self.address_spec()
                            + cards@[ii] - 1 <= 255,
                    forall|j: int|
                        0 <= j < i ==> buf_view(frames@[j]) == encoded_frame(
                            cmd,
                            self.address_spec(),
                            Some(cards@[j]),
                            Some(relays@),
                        ),
                decreases cards@.len() - i,
            {
                let mut bytes = buf_with_capacity(4);
                let card = cards[i];
                match Relay8xCmdSet::encode(cmd, &mut bytes, self.start_address, Some(card), Some(
                    relays,
                )) {
                    Ok(_) => {
                        frames.push(bytes);
                    },
                    Err(e) => {
                        return Err(e);
                    },
                }
                i = i + 1;
            }
            Ok(frames)
        }
    }
}

} // verus!
