//! Responses, put together from the packets that the device sends.
use vstd::prelude::*;

use crate::error::{outcome, ErrorView, LedgerBleError};
use crate::packet::{
    initial_packet_round_trip, subsequent_packet_round_trip, InitialPacket, InitialPacketView,
    SubsequentPacket, SubsequentPacketView,
};
use crate::request::{chunks, chunks_join, join, join_prefix_is_shorter, RequestView};
use crate::wire::be16;

verus! {

/// A response that is still being received.
#[derive(Debug)]
pub struct Response {
    /// The length that the initial packet announced, once it has come.
    pub data_length: Option<u16>,
    /// What the packets have carried so far.
    pub buffer: Vec<u8>,
}

/// How far a response has come.
#[derive(Debug)]
pub enum Reading {
    /// More packets are needed.
    More(Response),
    /// The announced length is reached; this is all that the packets carried.
    Done(Vec<u8>),
}

/// The mathematical value of a [`Response`].
#[verifier::ext_equal]
pub struct ResponseView {
    pub data_length: Option<u16>,
    pub buffer: Seq<u8>,
}

/// The mathematical value of a [`Reading`].
pub enum ReadingView {
    More(ResponseView),
    Done(Seq<u8>),
}

impl View for Response {
    type V = ResponseView;

    open spec fn view(&self) -> ResponseView {
        ResponseView { data_length: self.data_length, buffer: self.buffer@ }
    }
}

impl View for Reading {
    type V = ReadingView;

    open spec fn view(&self) -> ReadingView {
        match *self {
            Reading::More(response) => ReadingView::More(response@),
            Reading::Done(payload) => ReadingView::Done(payload@),
        }
    }
}

impl ResponseView {
    /// The response before its first packet.
    pub open spec fn start() -> ResponseView {
        ResponseView { data_length: None, buffer: Seq::empty() }
    }

    /// Nothing has come before the initial packet, and after it less than it announced.
    pub open spec fn wf(self) -> bool {
        match self.data_length {
            None => self.buffer.len() == 0,
            Some(data_length) => self.buffer.len() < data_length,
        }
    }

    /// How far the response has come once `payload` has been added to it.
    pub open spec fn add_payload(self, data_length: u16, payload: Seq<u8>) -> ReadingView {
        let buffer = self.buffer + payload;
        if buffer.len() < data_length {
            ReadingView::More(ResponseView { data_length: Some(data_length), buffer })
        } else {
            ReadingView::Done(buffer)
        }
    }

    /// What one more packet does: the first one is read as an initial packet, all others as
    /// subsequent packets.
    pub open spec fn read(self, packet: Seq<u8>) -> Result<ReadingView, ErrorView> {
        match self.data_length {
            None => match InitialPacketView::parse(packet) {
                Ok(p) => Ok(self.add_payload(p.data_length, p.payload)),
                Err(e) => Err(e),
            },
            Some(data_length) => match SubsequentPacketView::parse(packet) {
                Ok(p) => Ok(self.add_payload(data_length, p.payload)),
                Err(e) => Err(e),
            },
        }
    }
}

impl Response {
    /// A response of which no packet has come yet.
    pub fn new() -> (response: Self)
        ensures
            response@.wf(),
            response@ == ResponseView::start(),
    {
        let response = Response { data_length: None, buffer: Vec::new() };
        assert(response@ == ResponseView::start());
        response
    }

    /// Adds a packet to the response.
    pub fn read(self, packet: Vec<u8>) -> (reading: Result<Reading, LedgerBleError>)
        ensures
            outcome(reading) == self@.read(packet@),
            reading matches Ok(Reading::More(response)) ==> response@.wf(),
            reading is Err <==> packet@.len() < if self.data_length is None {
                5int
            } else {
                3int
            },
            reading matches Err(error) ==> error is InvalidPacket,
            reading matches Ok(Reading::More(response)) ==> {
                &&& response.buffer@ == self.buffer@ + packet@.skip(
                    if self.data_length is None {
                        5int
                    } else {
                        3int
                    },
                )
                &&& response.data_length matches Some(length) && response.buffer@.len() < length
                    && length == if self.data_length is None {
                    256 * packet@[3] + packet@[4]
                } else {
                    self.data_length->Some_0 as int
                }
            },
            reading matches Ok(Reading::Done(payload)) ==> {
                &&& payload@ == self.buffer@ + packet@.skip(
                    if self.data_length is None {
                        5int
                    } else {
                        3int
                    },
                )
                &&& payload@.len() >= if self.data_length is None {
                    256 * packet@[3] + packet@[4]
                } else {
                    self.data_length->Some_0 as int
                }
            },
    {
        let (data_length, mut payload): (u16, Vec<u8>) = match self.data_length {
            None => match InitialPacket::try_from(packet) {
                Ok(p) => (p.data_length, p.payload),
                Err(e) => return Err(e),
            },
            Some(data_length) => match SubsequentPacket::try_from(packet) {
                Ok(p) => (data_length, p.payload),
                Err(e) => return Err(e),
            },
        };
        let mut buffer = self.buffer;
        buffer.append(&mut payload);
        if buffer.len() < data_length as usize {
            Ok(Reading::More(Response { data_length: Some(data_length), buffer }))
        } else {
            Ok(Reading::Done(buffer))
        }
    }
}

/// How far a response has come after all of some packets: no packet is looked at once the
/// response is complete or a packet was invalid.
pub open spec fn read_response(packets: Seq<Seq<u8>>) -> Result<ReadingView, ErrorView>
    decreases packets.len(),
{
    if packets.len() == 0 {
        Ok(ReadingView::More(ResponseView::start()))
    } else {
        match read_response(packets.drop_last()) {
            Ok(ReadingView::More(response)) => response.read(packets.last()),
            ended => ended,
        }
    }
}

/// What some packets carry together: all that follows the header of an initial packet in the
/// first, and of a subsequent packet in the others.
pub open spec fn carried(packets: Seq<Seq<u8>>) -> Seq<u8>
    decreases packets.len(),
{
    if packets.len() == 0 {
        Seq::empty()
    } else {
        carried(packets.drop_last()) + packets.last().skip(header(packets.len() - 1))
    }
}

/// Length of the header of the packet at a position.
pub open spec fn header(position: int) -> int {
    if position == 0 {
        5
    } else {
        3
    }
}

/// The length that an initial packet announces.
pub open spec fn announced(packet: Seq<u8>) -> u16 {
    be16(packet[3], packet[4])
}

/// Whether the response that some packets are the beginning of needs more of them.
pub open spec fn needs_more(packets: Seq<Seq<u8>>) -> bool {
    read_response(packets) matches Ok(ReadingView::More(_))
}

/// While a response needs more packets, every packet was long enough for its header, and what
/// they carry is shorter than what the first one announced.
pub proof fn pending_response(packets: Seq<Seq<u8>>)
    requires
        needs_more(packets),
    ensures
        read_response(packets) == Ok::<ReadingView, ErrorView>(
            ReadingView::More(
                ResponseView {
                    data_length: if packets.len() == 0 {
                        None
                    } else {
                        Some(announced(packets[0]))
                    },
                    buffer: carried(packets),
                },
            ),
        ),
        packets.len() > 0 ==> carried(packets).len() < announced(packets[0]),
        forall|i: int| 0 <= i < packets.len() ==> header(i) <= (#[trigger] packets[i]).len(),
    decreases packets.len(),
{
    if packets.len() > 0 {
        let before = packets.drop_last();
        pending_response(before);
        assert forall|i: int| 0 <= i < packets.len() implies header(i) <= (
        #[trigger] packets[i]).len() by {
            if i < before.len() {
                assert(packets[i] == before[i]);
            }
        }
        if before.len() > 0 {
            assert(before[0] == packets[0]);
        }
    }
}

/// A response that is complete is what the packets up to some position carry: up to there and
/// no sooner the announced length is reached.
pub proof fn complete_response(packets: Seq<Seq<u8>>, payload: Seq<u8>)
    requires
        read_response(packets) == Ok::<ReadingView, ErrorView>(ReadingView::Done(payload)),
    ensures
        exists|n: int|
            1 <= n <= packets.len() && #[trigger] needs_more(packets.take(n - 1)) && payload
                == carried(packets.take(n)) && payload.len() >= announced(packets[0]),
    decreases packets.len(),
{
    let before = packets.drop_last();
    if needs_more(before) {
        pending_response(before);
        let n = packets.len() as int;
        assert(packets.take(n) == packets);
        assert(packets.take(n - 1) == before);
        if before.len() > 0 {
            assert(before[0] == packets[0]);
        }
        assert(needs_more(packets.take(n - 1)) && payload == carried(packets.take(n))
            && payload.len() >= announced(packets[0]));
    } else {
        complete_response(before, payload);
        let n = choose|n: int|
            1 <= n <= before.len() && #[trigger] needs_more(before.take(n - 1)) && payload
                == carried(before.take(n)) && payload.len() >= announced(before[0]);
        assert(before.take(n - 1) == packets.take(n - 1));
        assert(before.take(n) == packets.take(n));
        assert(before[0] == packets[0]);
        assert(needs_more(packets.take(n - 1)));
    }
}

/// A response fails only as an invalid packet, and only when a packet that is needed is too
/// short for its header.
pub proof fn invalid_response(packets: Seq<Seq<u8>>, error: ErrorView)
    requires
        read_response(packets) == Err::<ReadingView, ErrorView>(error),
    ensures
        error == ErrorView::InvalidPacket,
        exists|n: int|
            0 <= n < packets.len() && #[trigger] needs_more(packets.take(n)) && packets[n].len()
                < header(n),
    decreases packets.len(),
{
    let before = packets.drop_last();
    if needs_more(before) {
        pending_response(before);
        let n = packets.len() - 1;
        assert(packets.take(n) == before);
        assert(needs_more(packets.take(n)) && packets[n].len() < header(n));
    } else {
        invalid_response(before, error);
        let n = choose|n: int|
            0 <= n < before.len() && #[trigger] needs_more(before.take(n)) && before[n].len()
                < header(n);
        assert(before.take(n) == packets.take(n));
        assert(before[n] == packets[n]);
        assert(needs_more(packets.take(n)));
    }
}

/// If some packets are not enough for a response, fewer of them are not either.
pub proof fn needs_more_prefix(packets: Seq<Seq<u8>>, count: int)
    requires
        needs_more(packets),
        0 <= count <= packets.len(),
    ensures
        needs_more(packets.take(count)),
    decreases packets.len(),
{
    if count == packets.len() {
        assert(packets.take(count) == packets);
    } else {
        needs_more_prefix(packets.drop_last(), count);
        assert(packets.drop_last().take(count) == packets.take(count));
    }
}

/// Packets that come after a response has ended, complete or not, change nothing.
pub proof fn ended_response(packets: Seq<Seq<u8>>, more: Seq<Seq<u8>>)
    requires
        !needs_more(packets),
    ensures
        read_response(packets + more) == read_response(packets),
    decreases more.len(),
{
    if more.len() == 0 {
        assert(packets + more == packets);
    } else {
        ended_response(packets, more.drop_last());
        assert((packets + more).drop_last() == packets + more.drop_last());
    }
}

/// The packets of a message of less than two to the sixteenth bytes are read back as the
/// message: as long as some are missing the response needs more, and with the last one it is
/// the payload of the message.
pub proof fn message_read_back(message: RequestView, mtu: u8, count: int)
    requires
        mtu > 0,
        message.payload.len() < 0x10000,
        0 <= count <= message.packets(mtu).len(),
    ensures
        count < message.packets(mtu).len() ==> needs_more(message.packets(mtu).take(count)),
        count == message.packets(mtu).len() ==> read_response(message.packets(mtu)) == Ok::<
            ReadingView,
            ErrorView,
        >(ReadingView::Done(message.payload)),
{
    message_prefix_reading(message, mtu, count);
    assert(message.packets(mtu).take(message.packets(mtu).len() as int) == message.packets(mtu));
}

proof fn message_prefix_reading(message: RequestView, mtu: u8, count: int)
    requires
        mtu > 0,
        message.payload.len() < 0x10000,
        0 <= count <= message.packets(mtu).len(),
    ensures
        read_response(message.packets(mtu).take(count)) == Ok::<ReadingView, ErrorView>(
            if count == 0 {
                ReadingView::More(ResponseView::start())
            } else if count < message.packets(mtu).len() {
                ReadingView::More(
                    ResponseView {
                        data_length: Some(message.payload.len() as u16),
                        buffer: join(chunks(message.payload, mtu as nat).take(count)),
                    },
                )
            } else {
                ReadingView::Done(message.payload)
            },
        ),
    decreases count,
{
    let pieces = chunks(message.payload, mtu as nat);
    let packets = message.packets(mtu);
    let prefix = packets.take(count);
    chunks_join(message.payload, mtu as nat);
    if count > 0 {
        message_prefix_reading(message, mtu, count - 1);
        assert(prefix.drop_last() == packets.take(count - 1));
        if count == 1 {
            reveal_with_fuel(join, 2);
            initial_packet_round_trip(message.initial_packet(mtu));
            assert(packets[0] == message.initial_packet(mtu).bytes());
            assert(ResponseView::start().buffer + message.initial_packet(mtu).payload
                == message.initial_packet(mtu).payload);
            if pieces.len() > 0 {
                assert(pieces.take(1).drop_last() == Seq::<Seq<u8>>::empty());
                assert(join(pieces.take(1)) == pieces[0]);
            }
        } else {
            subsequent_packet_round_trip(message.subsequent_packet(mtu, count - 2));
            assert(packets[count - 1] == message.subsequent_packet(mtu, count - 2).bytes());
            assert(pieces.take(count).drop_last() == pieces.take(count - 1));
        }
        if pieces.len() > 0 {
            assert(pieces.take(pieces.len() as int) == pieces);
            if count < pieces.len() {
                join_prefix_is_shorter(pieces, count);
            }
        }
    }
}

/// Whether some packets all have their headers and, up to any of them, carry less than the first
/// announces in its fourth and fifth byte.
pub open spec fn falls_short(packets: Seq<Seq<u8>>) -> bool {
    &&& forall|i: int| 0 <= i < packets.len() ==> header(i) <= (#[trigger] packets[i]).len()
    &&& forall|k: int|
        1 <= k <= packets.len() ==> carried(#[trigger] packets.take(k)).len() < 256 * packets[0][3]
            + packets[0][4]
}

/// A response needs more packets if and only if those that have come have their headers and fall
/// short of the announced length.
pub proof fn response_needs_more(packets: Seq<Seq<u8>>)
    ensures
        needs_more(packets) <==> falls_short(packets),
    decreases packets.len(),
{
    if needs_more(packets) {
        pending_response(packets);
        assert forall|k: int| 1 <= k <= packets.len() implies carried(
            #[trigger] packets.take(k),
        ).len() < 256 * packets[0][3] + packets[0][4] by {
            needs_more_prefix(packets, k);
            pending_response(packets.take(k));
            assert(packets.take(k)[0] == packets[0]);
        }
    }
    if falls_short(packets) && packets.len() > 0 {
        let before = packets.drop_last();
        assert forall|k: int| 1 <= k <= before.len() implies carried(
            #[trigger] before.take(k),
        ).len() < 256 * before[0][3] + before[0][4] by {
            assert(before.take(k) == packets.take(k));
            assert(before[0] == packets[0]);
        }
        assert forall|i: int| 0 <= i < before.len() implies header(i) <= (
        #[trigger] before[i]).len() by {
            assert(before[i] == packets[i]);
        }
        response_needs_more(before);
        pending_response(before);
        assert(packets.take(packets.len() as int) == packets);
        assert(header(packets.len() - 1) <= packets[packets.len() - 1].len());
        if before.len() > 0 {
            assert(before[0] == packets[0]);
        }
    }
}

/// The first packet with which the announced length is reached completes the response: it is all
/// that was carried up to there.
pub proof fn response_completes(packets: Seq<Seq<u8>>, n: int)
    requires
        0 <= n < packets.len(),
        falls_short(packets.take(n)),
        header(n) <= packets[n].len(),
        carried(packets.take(n + 1)).len() >= 256 * packets[0][3] + packets[0][4],
    ensures
        read_response(packets) == Ok::<ReadingView, ErrorView>(
            ReadingView::Done(carried(packets.take(n + 1))),
        ),
{
    let before = packets.take(n);
    let until = packets.take(n + 1);
    response_needs_more(before);
    pending_response(before);
    assert(until.drop_last() == before);
    if n > 0 {
        assert(before[0] == packets[0]);
    }
    assert(read_response(until) == Ok::<ReadingView, ErrorView>(ReadingView::Done(carried(until))));
    ended_response(until, packets.skip(n + 1));
    assert(until + packets.skip(n + 1) == packets);
}

/// A packet that is needed but is too short for its header makes the response invalid.
pub proof fn response_is_refused(packets: Seq<Seq<u8>>, n: int)
    requires
        0 <= n < packets.len(),
        falls_short(packets.take(n)),
        packets[n].len() < header(n),
    ensures
        read_response(packets) == Err::<ReadingView, ErrorView>(ErrorView::InvalidPacket),
{
    let before = packets.take(n);
    let until = packets.take(n + 1);
    response_needs_more(before);
    pending_response(before);
    assert(until.drop_last() == before);
    assert(read_response(until) == Err::<ReadingView, ErrorView>(ErrorView::InvalidPacket));
    ended_response(until, packets.skip(n + 1));
    assert(until + packets.skip(n + 1) == packets);
}

/// Responses and readings and their mathematical values hold the same.
pub proof fn responses_keep_their_bytes(response: Response, reading: Reading)
    ensures
        response@.data_length == response.data_length,
        response@.buffer == response.buffer@,
        reading matches Reading::More(r) ==> reading@ == ReadingView::More(r@),
        reading matches Reading::Done(payload) ==> reading@ == ReadingView::Done(payload@),
{
}

} // verus!
