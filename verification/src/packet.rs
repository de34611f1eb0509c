//! The two kinds of packet that a message is cut into.
//!
//! A message travels as one initial packet, which announces the length of the whole message,
//! followed by as many subsequent packets as it takes.
use vstd::prelude::*;

use crate::error::{outcome, ErrorView, LedgerBleError};
use crate::wire::{be16, be16_bytes, be16_bytes_of, be16_of_bytes, read_u16, write_u16, write_u8};

verus! {

/// Length of the header of an initial packet: tag, sequence index, length of the message.
pub const INITIAL_HEADER: usize = 5;

/// Length of the header of a subsequent packet: tag, sequence index.
pub const SUBSEQUENT_HEADER: usize = 3;

/// The first packet of a message.
#[derive(Debug)]
pub struct InitialPacket {
    pub command_tag: u8,
    /// Length of the whole message, over all its packets.
    pub data_length: u16,
    pub payload: Vec<u8>,
}

/// A packet that continues a message.
#[derive(Debug)]
pub struct SubsequentPacket {
    pub command_tag: u8,
    pub _packet_sequence_index: u16,
    pub payload: Vec<u8>,
}

/// The mathematical value of an [`InitialPacket`].
#[verifier::ext_equal]
pub struct InitialPacketView {
    pub command_tag: u8,
    pub data_length: u16,
    pub payload: Seq<u8>,
}

/// The mathematical value of a [`SubsequentPacket`].
#[verifier::ext_equal]
pub struct SubsequentPacketView {
    pub command_tag: u8,
    pub packet_sequence_index: u16,
    pub payload: Seq<u8>,
}

impl View for InitialPacket {
    type V = InitialPacketView;

    open spec fn view(&self) -> InitialPacketView {
        InitialPacketView {
            command_tag: self.command_tag,
            data_length: self.data_length,
            payload: self.payload@,
        }
    }
}

impl View for SubsequentPacket {
    type V = SubsequentPacketView;

    open spec fn view(&self) -> SubsequentPacketView {
        SubsequentPacketView {
            command_tag: self.command_tag,
            packet_sequence_index: self._packet_sequence_index,
            payload: self.payload@,
        }
    }
}

impl InitialPacketView {
    /// The packet as it travels: tag, sequence index zero, length of the message, payload.
    pub open spec fn bytes(self) -> Seq<u8> {
        seq![self.command_tag] + be16_bytes(0) + be16_bytes(self.data_length) + self.payload
    }

    /// The packet that some bytes stand for; the sequence index is not looked at.
    pub open spec fn parse(bytes: Seq<u8>) -> Result<InitialPacketView, ErrorView> {
        if bytes.len() < INITIAL_HEADER {
            Err(ErrorView::InvalidPacket)
        } else {
            Ok(
                InitialPacketView {
                    command_tag: bytes[0],
                    data_length: be16(bytes[3], bytes[4]),
                    payload: bytes.skip(INITIAL_HEADER as int),
                },
            )
        }
    }
}

impl SubsequentPacketView {
    /// The packet as it travels: tag, sequence index zero, payload. The index that the packet
    /// holds is not sent.
    pub open spec fn bytes(self) -> Seq<u8> {
        seq![self.command_tag] + be16_bytes(0) + self.payload
    }

    /// The packet that some bytes stand for.
    pub open spec fn parse(bytes: Seq<u8>) -> Result<SubsequentPacketView, ErrorView> {
        if bytes.len() < SUBSEQUENT_HEADER {
            Err(ErrorView::InvalidPacket)
        } else {
            Ok(
                SubsequentPacketView {
                    command_tag: bytes[0],
                    packet_sequence_index: be16(bytes[1], bytes[2]),
                    payload: bytes.skip(SUBSEQUENT_HEADER as int),
                },
            )
        }
    }
}

impl InitialPacket {
    /// The bytes of the packet.
    pub fn serialize(self) -> (buf: Vec<u8>)
        requires
            self@.payload.len() + INITIAL_HEADER <= isize::MAX,
        ensures
            buf@ == self@.bytes(),
            buf@.len() == 5 + self.payload@.len(),
            buf@[0] == self.command_tag,
            buf@[1] == 0 && buf@[2] == 0,
            256 * buf@[3] + buf@[4] == self.data_length,
            buf@.skip(5) == self.payload@,
    {
        let mut payload = self.payload;
        let mut buf: Vec<u8> = Vec::with_capacity(payload.len() + INITIAL_HEADER);
        write_u8(&mut buf, self.command_tag);
        write_u16(&mut buf, 0);
        write_u16(&mut buf, self.data_length);
        buf.append(&mut payload);
        assert(buf@ == self@.bytes());
        buf
    }
}

impl SubsequentPacket {
    /// The bytes of the packet.
    pub fn serialize(self) -> (buf: Vec<u8>)
        requires
            self@.payload.len() + SUBSEQUENT_HEADER <= isize::MAX,
        ensures
            buf@ == self@.bytes(),
            buf@.len() == 3 + self.payload@.len(),
            buf@[0] == self.command_tag,
            buf@[1] == 0 && buf@[2] == 0,
            buf@.skip(3) == self.payload@,
    {
        let mut payload = self.payload;
        let mut buf: Vec<u8> = Vec::with_capacity(payload.len() + SUBSEQUENT_HEADER);
        write_u8(&mut buf, self.command_tag);
        write_u16(&mut buf, 0);
        buf.append(&mut payload);
        assert(buf@ == self@.bytes());
        buf
    }
}

impl TryFrom<Vec<u8>> for InitialPacket {
    type Error = LedgerBleError;

    /// Reads a packet; one that is shorter than its header is invalid.
    fn try_from(value: Vec<u8>) -> (packet: Result<Self, LedgerBleError>)
        ensures
            outcome(packet) == InitialPacketView::parse(value@),
            packet is Ok <==> value@.len() >= 5,
            packet matches Ok(p) ==> {
                &&& p.command_tag == value@[0]
                &&& p.data_length == 256 * value@[3] + value@[4]
                &&& p.payload@ == value@.skip(5)
            },
            packet matches Err(e) ==> e is InvalidPacket,
    {
        let mut value = value;
        if value.len() < INITIAL_HEADER {
            return Err(LedgerBleError::InvalidPacket);
        }
        let payload = value.split_off(INITIAL_HEADER);
        Ok(
            InitialPacket {
                command_tag: value[0],
                data_length: read_u16(value[3], value[4]),
                payload,
            },
        )
    }
}

impl vstd::std_specs::convert::TryFromSpecImpl<Vec<u8>> for InitialPacket {
    /// What `try_from` returns is stated on the method, over views.
    open spec fn obeys_try_from_spec() -> bool {
        false
    }

    open spec fn try_from_spec(value: Vec<u8>) -> Result<Self, LedgerBleError> {
        arbitrary()
    }
}

impl TryFrom<Vec<u8>> for SubsequentPacket {
    type Error = LedgerBleError;

    /// Reads a packet; one that is shorter than its header is invalid.
    fn try_from(value: Vec<u8>) -> (packet: Result<Self, LedgerBleError>)
        ensures
            outcome(packet) == SubsequentPacketView::parse(value@),
            packet is Ok <==> value@.len() >= 3,
            packet matches Ok(p) ==> {
                &&& p.command_tag == value@[0]
                &&& p._packet_sequence_index == 256 * value@[1] + value@[2]
                &&& p.payload@ == value@.skip(3)
            },
            packet matches Err(e) ==> e is InvalidPacket,
    {
        let mut value = value;
        if value.len() < SUBSEQUENT_HEADER {
            return Err(LedgerBleError::InvalidPacket);
        }
        let payload = value.split_off(SUBSEQUENT_HEADER);
        Ok(
            SubsequentPacket {
                command_tag: value[0],
                _packet_sequence_index: read_u16(value[1], value[2]),
                payload,
            },
        )
    }
}

impl vstd::std_specs::convert::TryFromSpecImpl<Vec<u8>> for SubsequentPacket {
    /// What `try_from` returns is stated on the method, over views.
    open spec fn obeys_try_from_spec() -> bool {
        false
    }

    open spec fn try_from_spec(value: Vec<u8>) -> Result<Self, LedgerBleError> {
        arbitrary()
    }
}

/// An initial packet that is sent is read back as it was.
pub proof fn initial_packet_round_trip(packet: InitialPacketView)
    ensures
        InitialPacketView::parse(packet.bytes()) == Ok::<InitialPacketView, ErrorView>(packet),
{
    be16_of_bytes(packet.data_length);
    assert(packet.bytes().skip(INITIAL_HEADER as int) == packet.payload);
}

/// A subsequent packet that is sent is read back as it was, but for its sequence index, which
/// comes back as zero.
pub proof fn subsequent_packet_round_trip(packet: SubsequentPacketView)
    ensures
        SubsequentPacketView::parse(packet.bytes()) == Ok::<SubsequentPacketView, ErrorView>(
            SubsequentPacketView { packet_sequence_index: 0, ..packet },
        ),
{
    assert(packet.bytes().skip(SUBSEQUENT_HEADER as int) == packet.payload);
}

/// Bytes that are read as an initial packet are the bytes of that packet, but for the sequence
/// index, which is sent as zero.
pub proof fn initial_packet_bytes_round_trip(bytes: Seq<u8>)
    requires
        bytes.len() >= INITIAL_HEADER,
    ensures
        InitialPacketView::parse(bytes) is Ok,
        InitialPacketView::parse(bytes)->Ok_0.bytes() == bytes.update(1, 0).update(2, 0),
{
    be16_bytes_of(bytes[3], bytes[4]);
    assert(InitialPacketView::parse(bytes)->Ok_0.bytes() =~= bytes.update(1, 0).update(2, 0));
}

/// Bytes that are read as a subsequent packet are the bytes of that packet, but for the sequence
/// index, which is sent as zero.
pub proof fn subsequent_packet_bytes_round_trip(bytes: Seq<u8>)
    requires
        bytes.len() >= SUBSEQUENT_HEADER,
    ensures
        SubsequentPacketView::parse(bytes) is Ok,
        SubsequentPacketView::parse(bytes)->Ok_0.bytes() == bytes.update(1, 0).update(2, 0),
{
    assert(SubsequentPacketView::parse(bytes)->Ok_0.bytes() =~= bytes.update(1, 0).update(2, 0));
}

/// Where the parts of an initial packet stand in its bytes: the tag first, then two zeros, then the length
/// of the message with its more significant byte first, and then the payload to the end.
pub proof fn initial_packet_layout(packet: InitialPacketView)
    ensures
        packet.bytes().len() == 5 + packet.payload.len(),
        packet.bytes()[0] == packet.command_tag,
        packet.bytes()[1] == 0,
        packet.bytes()[2] == 0,
        256 * packet.bytes()[3] + packet.bytes()[4] == packet.data_length,
        forall|i: int|
            0 <= i < packet.payload.len() ==> packet.bytes()[5 + i] == #[trigger] packet.payload[i],
{
}

/// Which bytes are read as an initial packet, namely all of at least five, and what each byte
/// of them says.
pub proof fn initial_packet_reading(bytes: Seq<u8>)
    ensures
        bytes.len() < 5 ==> InitialPacketView::parse(bytes) == Err::<InitialPacketView, ErrorView>(
            ErrorView::InvalidPacket,
        ),
        bytes.len() >= 5 ==> {
            &&& InitialPacketView::parse(bytes) matches Ok(packet)
            &&& packet.command_tag == bytes[0]
            &&& packet.data_length == 256 * bytes[3] + bytes[4]
            &&& packet.payload.len() + 5 == bytes.len()
            &&& forall|i: int|
                0 <= i < packet.payload.len() ==> #[trigger] packet.payload[i] == bytes[5 + i]
        },
{
}

/// Where the parts of a subsequent packet stand in its bytes: the tag first, then two zeros
/// and then the payload to the end.
pub proof fn subsequent_packet_layout(packet: SubsequentPacketView)
    ensures
        packet.bytes().len() == 3 + packet.payload.len(),
        packet.bytes()[0] == packet.command_tag,
        packet.bytes()[1] == 0,
        packet.bytes()[2] == 0,
        forall|i: int|
            0 <= i < packet.payload.len() ==> packet.bytes()[3 + i] == #[trigger] packet.payload[i],
{
}

/// Which bytes are read as a subsequent packet, namely all of at least three, and what each byte
/// of them says.
pub proof fn subsequent_packet_reading(bytes: Seq<u8>)
    ensures
        bytes.len() < 3 ==> SubsequentPacketView::parse(bytes) == Err::<SubsequentPacketView, ErrorView>(
            ErrorView::InvalidPacket,
        ),
        bytes.len() >= 3 ==> {
            &&& SubsequentPacketView::parse(bytes) matches Ok(packet)
            &&& packet.command_tag == bytes[0]
            &&& packet.packet_sequence_index == 256 * bytes[1] + bytes[2]
            &&& packet.payload.len() + 3 == bytes.len()
            &&& forall|i: int|
                0 <= i < packet.payload.len() ==> #[trigger] packet.payload[i] == bytes[3 + i]
        },
{
}

} // verus!
