//! Requests, and the packets that carry them to the device.
use vstd::prelude::*;
use vstd::slice::{slice_subrange, slice_to_vec};

use crate::packet::{
    initial_packet_layout, subsequent_packet_layout, InitialPacket, InitialPacketView,
    SubsequentPacket, SubsequentPacketView, INITIAL_HEADER, SUBSEQUENT_HEADER,
};

verus! {

/// Tag of the request for the payload size that the device takes per packet.
pub const MTU_COMMAND_TAG: u8 = 0x08;

/// Tag of a request that carries an APDU.
pub const APDU_COMMAND_TAG: u8 = 0x05;

/// Tag of the packets that continue a request.
pub const CONTINUATION_TAG: u8 = 0x03;

/// A message for the device.
#[derive(Debug)]
pub struct Request {
    pub command_tag: u8,
    pub payload: Vec<u8>,
}

/// The mathematical value of a [`Request`].
#[verifier::ext_equal]
pub struct RequestView {
    pub command_tag: u8,
    pub payload: Seq<u8>,
}

impl View for Request {
    type V = RequestView;

    open spec fn view(&self) -> RequestView {
        RequestView { command_tag: self.command_tag, payload: self.payload@ }
    }
}

/// Data cut into pieces of a size, the last of which may be shorter.
pub open spec fn chunks(data: Seq<u8>, size: nat) -> Seq<Seq<u8>>
    decreases data.len(),
{
    if size == 0 || data.len() == 0 {
        Seq::empty()
    } else if data.len() <= size {
        seq![data]
    } else {
        seq![data.take(size as int)] + chunks(data.skip(size as int), size)
    }
}

/// The bytes of some data from a multiple of a size up to the next one, or to the end.
pub open spec fn piece(data: Seq<u8>, size: int, i: int) -> Seq<u8> {
    data.subrange(
        if i * size <= data.len() {
            i * size
        } else {
            data.len() as int
        },
        if (i + 1) * size <= data.len() {
            (i + 1) * size
        } else {
            data.len() as int
        },
    )
}

/// The views of a sequence of byte vectors.
pub open spec fn views(packets: Seq<Vec<u8>>) -> Seq<Seq<u8>> {
    Seq::new(packets.len(), |i: int| packets[i]@)
}

/// A payload of some length can be cut if the packets hold at least one byte of it each, and if
/// the index of the last one is a 16-bit number.
pub open spec fn is_cuttable(len: nat, mtu: u8) -> bool {
    mtu > 0 && len <= 0x10000 * mtu
}

impl RequestView {
    /// Whether the request can be cut into packets of this size.
    pub open spec fn can_be_cut(self, mtu: u8) -> bool {
        is_cuttable(self.payload.len(), mtu)
    }

    /// The packet that opens the request. It announces the length of the payload modulo two to
    /// the sixteenth.
    pub open spec fn initial_packet(self, mtu: u8) -> InitialPacketView {
        let pieces = chunks(self.payload, mtu as nat);
        InitialPacketView {
            command_tag: self.command_tag,
            data_length: (self.payload.len() % 0x10000) as u16,
            payload: if pieces.len() > 0 {
                pieces[0]
            } else {
                Seq::empty()
            },
        }
    }

    /// The packet at a position among those that continue the request.
    pub open spec fn subsequent_packet(self, mtu: u8, i: int) -> SubsequentPacketView {
        SubsequentPacketView {
            command_tag: CONTINUATION_TAG,
            packet_sequence_index: (i + 1) as u16,
            payload: chunks(self.payload, mtu as nat)[i + 1],
        }
    }

    /// How many packets continue the request: one for each piece of the payload but the first.
    pub open spec fn subsequent_count(self, mtu: u8) -> nat {
        let pieces = chunks(self.payload, mtu as nat).len();
        if pieces > 0 {
            (pieces - 1) as nat
        } else {
            0
        }
    }

    /// The request as it travels, packet by packet.
    pub open spec fn packets(self, mtu: u8) -> Seq<Seq<u8>> {
        seq![self.initial_packet(mtu).bytes()] + Seq::new(
            self.subsequent_count(mtu),
            |i: int| self.subsequent_packet(mtu, i).bytes(),
        )
    }
}

/// Whether a payload of this length can be cut into packets.
pub fn can_be_cut(len: usize, mtu: u8) -> (possible: bool)
    ensures
        possible == is_cuttable(len as nat, mtu),
{
    mtu > 0 && len <= 0x10000 * mtu as usize
}

impl Request {
    /// Cuts the request into packets that carry at most `mtu` bytes of the payload each.
    pub fn cut(self, mtu: u8) -> (packets: (InitialPacket, Vec<SubsequentPacket>))
        requires
            self@.can_be_cut(mtu),
        ensures
            packets.0@ == self@.initial_packet(mtu),
            packets.1@.len() == self@.subsequent_count(mtu),
            forall|i: int|
                0 <= i < packets.1@.len() ==> (#[trigger] packets.1@[i])@
                    == self@.subsequent_packet(mtu, i),
            packets.0@.payload.len() <= mtu,
            forall|i: int|
                0 <= i < packets.1@.len() ==> (#[trigger] packets.1@[i])@.payload.len() <= mtu,
            packets.0.command_tag == self.command_tag,
            packets.0.data_length == self.payload@.len() % 0x10000,
            packets.0.payload@ == piece(self.payload@, mtu as int, 0),
            self.payload@.len() <= (packets.1@.len() + 1) * mtu,
            packets.1@.len() > 0 ==> packets.1@.len() * mtu < self.payload@.len(),
            forall|i: int|
                0 <= i < packets.1@.len() ==> {
                    &&& (#[trigger] packets.1@[i]).command_tag == 0x03
                    &&& packets.1@[i]._packet_sequence_index == i + 1
                    &&& packets.1@[i].payload@ == piece(self.payload@, mtu as int, i + 1)
                },
    {
        let size: usize = mtu as usize;
        let len: usize = self.payload.len();
        let ghost data = self.payload@;
        let ghost pieces = chunks(data, mtu as nat);
        let first: usize = if len < size {
            len
        } else {
            size
        };
        let initial = InitialPacket {
            command_tag: self.command_tag,
            data_length: (len % 0x10000) as u16,
            payload: slice_to_vec(slice_subrange(self.payload.as_slice(), 0, first)),
        };
        let mut subsequent: Vec<SubsequentPacket> = Vec::new();
        let mut offset: usize = first;
        let mut index: u16 = 0;
        proof {
            assert(data.skip(data.len() as int) == Seq::<u8>::empty());
            assert(data.take(data.len() as int) == data);
            if len > 0 {
                assert(pieces.skip(1) =~= chunks(data.skip(first as int), mtu as nat));
            }
        }
        while offset < len
            invariant
                data == self.payload@,
                len == data.len(),
                size == mtu,
                size > 0,
                len <= 0x10000 * size,
                pieces == chunks(data, mtu as nat),
                first <= offset <= len,
                first == (if len < size {
                    len
                } else {
                    size
                }),
                index == subsequent@.len(),
                offset < len ==> offset == (index + 1) * size,
                len == 0 ==> index == 0,
                len > 0 ==> pieces.len() >= index + 1,
                len > 0 ==> pieces.skip(index + 1) == chunks(data.skip(offset as int), mtu as nat),
                forall|i: int|
                    0 <= i < index ==> (#[trigger] subsequent@[i])@ == (SubsequentPacketView {
                        command_tag: CONTINUATION_TAG,
                        packet_sequence_index: (i + 1) as u16,
                        payload: pieces[i + 1],
                    }) && subsequent@[i]@.payload.len() <= mtu,
            decreases len - offset,
        {
            proof {
                assert(index + 1 < 0x10000) by (nonlinear_arith)
                    requires
                        (index + 1) * size == offset,
                        offset < len,
                        len <= 0x10000 * size,
                        size > 0,
                ;
            }
            let end: usize = if len - offset < size {
                len
            } else {
                offset + size
            };
            let ghost rest = data.skip(offset as int);
            let ghost before = index as int;
            index = index + 1;
            let payload = slice_to_vec(slice_subrange(self.payload.as_slice(), offset, end));
            proof {
                assert(payload@ == rest.take(end - offset));
                assert(rest.skip(end - offset) == data.skip(end as int));
                if end == len {
                    assert(rest.take(end - offset) == rest);
                    assert(data.skip(end as int) == Seq::<u8>::empty());
                }
                assert(chunks(rest, mtu as nat) =~= seq![payload@] + chunks(
                    data.skip(end as int),
                    mtu as nat,
                ));
                assert(pieces[before + 1] == pieces.skip(before + 1)[0]);
                assert(pieces.skip(before + 2) =~= pieces.skip(before + 1).skip(1));
                assert(pieces.skip(before + 2) =~= chunks(data.skip(end as int), mtu as nat));
                assert((before + 2) * size == (before + 1) * size + size) by (nonlinear_arith);
            }
            subsequent.push(
                SubsequentPacket {
                    command_tag: CONTINUATION_TAG,
                    _packet_sequence_index: index,
                    payload,
                },
            );
            offset = end;
        }
        assert(data.skip(len as int) == Seq::<u8>::empty());
        assert(len > 0 ==> pieces.skip(index + 1).len() == 0);
        proof {
            pieces_of(data, mtu as nat);
            assert(piece(data, size as int, 0) == data.take(first as int));
            assert forall|i: int| 0 <= i < index implies (#[trigger] subsequent@[i]).payload@ == piece(
                data,
                size as int,
                i + 1,
            ) by {
                assert(subsequent@[i]@.payload == pieces[i + 1]);
            }
        }
        (initial, subsequent)
    }

    /// The bytes of the packets that carry the request, in the order in which they are sent.
    pub fn serialize(self, mtu: u8) -> (packets: Vec<Vec<u8>>)
        requires
            self@.can_be_cut(mtu),
        ensures
            views(packets@) == self@.packets(mtu),
    {
        let ghost request = self@;
        let (initial, subsequent) = self.cut(mtu);
        let ghost cut = subsequent@;
        let mut packets: Vec<Vec<u8>> = Vec::new();
        packets.push(initial.serialize());
        for packet in it: subsequent
            invariant
                it.seq() == cut,
                packets@.len() == it.index() + 1,
                packets@[0]@ == request.initial_packet(mtu).bytes(),
                forall|i: int|
                    0 <= i < cut.len() ==> (#[trigger] cut[i])@ == request.subsequent_packet(mtu, i)
                        && cut[i]@.payload.len() <= mtu,
                forall|i: int|
                    1 <= i < packets@.len() ==> (#[trigger] packets@[i])@
                        == request.subsequent_packet(mtu, i - 1).bytes(),
        {
            packets.push(packet.serialize());
        }
        assert(views(packets@) =~= request.packets(mtu));
        packets
    }
}

/// The pieces of some data put together again.
pub open spec fn join(pieces: Seq<Seq<u8>>) -> Seq<u8>
    decreases pieces.len(),
{
    if pieces.len() == 0 {
        Seq::empty()
    } else {
        join(pieces.drop_last()) + pieces.last()
    }
}

/// Joining a piece and then the others is joining all of them.
pub proof fn join_cons(piece: Seq<u8>, pieces: Seq<Seq<u8>>)
    ensures
        join(seq![piece] + pieces) == piece + join(pieces),
    decreases pieces.len(),
{
    let all = seq![piece] + pieces;
    if pieces.len() == 0 {
        reveal_with_fuel(join, 2);
        assert(all.drop_last() == Seq::<Seq<u8>>::empty());
        assert(join(all) =~= piece + join(pieces));
    } else {
        join_cons(piece, pieces.drop_last());
        assert(all.drop_last() == seq![piece] + pieces.drop_last());
        assert(join(all) =~= piece + join(pieces));
    }
}

/// Some but not all of a number of pieces, none of them empty, are shorter than all of them.
pub proof fn join_prefix_is_shorter(pieces: Seq<Seq<u8>>, count: int)
    requires
        0 <= count < pieces.len(),
        forall|i: int| 0 <= i < pieces.len() ==> 0 < (#[trigger] pieces[i]).len(),
    ensures
        join(pieces.take(count)).len() < join(pieces).len(),
    decreases pieces.len(),
{
    if count == pieces.len() - 1 {
        assert(pieces.take(count) == pieces.drop_last());
    } else {
        join_prefix_is_shorter(pieces.drop_last(), count);
        assert(pieces.drop_last().take(count) == pieces.take(count));
    }
}

/// Cutting loses nothing: the pieces joined are the data. All pieces but the last are of the
/// size asked for, and the last is not empty and not larger.
pub proof fn chunks_join(data: Seq<u8>, size: nat)
    requires
        size > 0,
    ensures
        join(chunks(data, size)) == data,
        forall|i: int|
            0 <= i < chunks(data, size).len() ==> 0 < (#[trigger] chunks(data, size)[i]).len()
                <= size,
        forall|i: int|
            0 <= i < chunks(data, size).len() - 1 ==> (#[trigger] chunks(data, size)[i]).len()
                == size,
    decreases data.len(),
{
    let pieces = chunks(data, size);
    if data.len() == 0 {
        assert(join(pieces) =~= data);
    } else if data.len() <= size {
        reveal_with_fuel(join, 2);
        assert(pieces.drop_last() =~= Seq::<Seq<u8>>::empty());
        assert(join(pieces) =~= data);
    } else {
        let head = data.take(size as int);
        let rest = data.skip(size as int);
        chunks_join(rest, size);
        join_cons(head, chunks(rest, size));
        assert(head + rest == data);
        assert forall|i: int| 0 <= i < pieces.len() implies 0 < (#[trigger] pieces[i]).len()
            <= size && (i < pieces.len() - 1 ==> pieces[i].len() == size) by {
            if i > 0 {
                assert(pieces[i] == chunks(rest, size)[i - 1]);
            }
        }
    }
}

/// No packet of a request carries more than `mtu` bytes of the payload after its header, and
/// every packet that continues a request carries some.
pub proof fn packets_fit(request: RequestView, mtu: u8)
    requires
        mtu > 0,
    ensures
        INITIAL_HEADER <= request.packets(mtu)[0].len() <= INITIAL_HEADER + mtu,
        forall|i: int|
            1 <= i < request.packets(mtu).len() ==> SUBSEQUENT_HEADER < (
            #[trigger] request.packets(mtu)[i]).len() <= SUBSEQUENT_HEADER + mtu,
{
    chunks_join(request.payload, mtu as nat);
    let pieces = chunks(request.payload, mtu as nat);
    assert forall|i: int| 1 <= i < request.packets(mtu).len() implies SUBSEQUENT_HEADER < (
    #[trigger] request.packets(mtu)[i]).len() <= SUBSEQUENT_HEADER + mtu by {
        assert(0 < pieces[i].len() <= mtu);
    }
    if pieces.len() > 0 {
        assert(pieces[0].len() <= mtu);
    }
}

/// Data is cut at the multiples of the size: there are just as many pieces as it takes, and each
/// is what lies between two such multiples.
pub proof fn pieces_of(data: Seq<u8>, size: nat)
    requires
        size > 0,
    ensures
        data.len() <= chunks(data, size).len() * size,
        chunks(data, size).len() > 0 ==> (chunks(data, size).len() - 1) * size < data.len(),
        forall|i: int|
            0 <= i < chunks(data, size).len() ==> #[trigger] chunks(data, size)[i] == piece(
                data,
                size as int,
                i,
            ),
    decreases data.len(),
{
    let pieces = chunks(data, size);
    let n = pieces.len() as int;
    if data.len() == 0 {
    } else if data.len() <= size {
        assert(n == 1);
        assert(pieces[0] == piece(data, size as int, 0));
    } else {
        let rest = data.skip(size as int);
        pieces_of(rest, size);
        let m = chunks(rest, size).len() as int;
        assert(n == m + 1);
        assert(n * size == m * size + size) by (nonlinear_arith)
            requires
                n == m + 1,
        ;
        assert((m - 1) * size == m * size - size) by (nonlinear_arith);
        assert forall|i: int| 0 <= i < n implies #[trigger] pieces[i] == piece(
            data,
            size as int,
            i,
        ) by {
            assert((i + 1) * size == i * size + size) by (nonlinear_arith);
            if i == 0 {
                assert(pieces[0] == piece(data, size as int, 0));
            } else {
                assert(pieces[i] == chunks(rest, size)[i - 1]);
                assert(i * size == (i - 1) * size + size) by (nonlinear_arith);
                assert((i - 1) * size >= 0) by (nonlinear_arith)
                    requires
                        i >= 1,
                        size > 0,
                ;
                assert(piece(rest, size as int, i - 1) =~= piece(data, size as int, i));
            }
        }
    }
}

/// The packets of a request, byte by byte. There are just as many as the payload takes, and at
/// least one. The first opens with the tag of the request, all others with the tag 0x03; two
/// zeros follow. The first then has the length of the payload in two bytes, the more significant
/// one first. All that follows is the payload, at most `mtu` bytes of it in a packet and no less
/// before the last.
pub proof fn request_bytes(request: RequestView, mtu: u8)
    requires
        mtu > 0,
    ensures
        request.packets(mtu).len() >= 1,
        request.payload.len() <= request.packets(mtu).len() * mtu,
        request.packets(mtu).len() > 1 ==> (request.packets(mtu).len() - 1) * mtu
            < request.payload.len(),
        request.packets(mtu)[0][0] == request.command_tag,
        256 * request.packets(mtu)[0][3] + request.packets(mtu)[0][4] == request.payload.len()
            % 0x10000,
        request.packets(mtu)[0].len() >= 5,
        request.packets(mtu)[0].skip(5) == piece(request.payload, mtu as int, 0),
        forall|i: int|
            0 <= i < request.packets(mtu).len() ==> (#[trigger] request.packets(mtu)[i])[1] == 0
                && request.packets(mtu)[i][2] == 0,
        forall|i: int|
            1 <= i < request.packets(mtu).len() ==> {
                &&& (#[trigger] request.packets(mtu)[i])[0] == 0x03
                &&& request.packets(mtu)[i].len() >= 3
                &&& request.packets(mtu)[i].skip(3) == piece(request.payload, mtu as int, i)
            },
{
    let packets = request.packets(mtu);
    let pieces = chunks(request.payload, mtu as nat);
    pieces_of(request.payload, mtu as nat);
    initial_packet_layout(request.initial_packet(mtu));
    assert(packets[0] == request.initial_packet(mtu).bytes());
    assert(packets[0].skip(5) =~= request.initial_packet(mtu).payload);
    assert(piece(request.payload, mtu as int, 0) == request.initial_packet(mtu).payload);
    assert forall|i: int| 1 <= i < packets.len() implies {
        &&& (#[trigger] packets[i])[0] == 0x03
        &&& packets[i][1] == 0
        &&& packets[i][2] == 0
        &&& packets[i].len() >= 3
        &&& packets[i].skip(3) == piece(request.payload, mtu as int, i)
    } by {
        let packet = request.subsequent_packet(mtu, i - 1);
        subsequent_packet_layout(packet);
        assert(packets[i] == packet.bytes());
        assert(packets[i].skip(3) =~= packet.payload);
        assert(packet.payload == pieces[i]);
    }
}

/// A request can be cut if and only if packets hold something and at most two to the sixteenth
/// of them come of it.
pub proof fn cuttable_requests(request: RequestView, mtu: u8)
    ensures
        request.can_be_cut(mtu) <==> mtu > 0 && request.packets(mtu).len() <= 0x10000,
{
    if mtu > 0 {
        request_bytes(request, mtu);
        let n = request.packets(mtu).len() as int;
        let len = request.payload.len() as int;
        assert(n <= 0x10000 ==> n * mtu <= 0x10000 * mtu) by (nonlinear_arith)
            requires
                mtu > 0,
        ;
        assert(n > 0x10000 ==> (n - 1) * mtu >= 0x10000 * mtu) by (nonlinear_arith)
            requires
                mtu > 0,
        ;
    }
}

/// A piece of some data holds what the data holds from the multiple of the size on: a size of it,
/// or all that is left.
pub proof fn piece_bytes(data: Seq<u8>, size: int, i: int)
    requires
        size > 0,
        i >= 0,
        i * size <= data.len(),
    ensures
        piece(data, size, i).len() == size || piece(data, size, i).len() == data.len() - i * size
            < size,
        forall|j: int|
            0 <= j < piece(data, size, i).len() ==> #[trigger] piece(data, size, i)[j] == data[i
                * size + j],
{
    assert((i + 1) * size == i * size + size) by (nonlinear_arith);
    assert(i * size >= 0) by (nonlinear_arith)
        requires
            i >= 0,
            size > 0,
    ;
}

/// Requests and vectors of packets and their mathematical values hold the same bytes.
pub proof fn requests_keep_their_bytes(request: Request, packets: Seq<Vec<u8>>)
    ensures
        request@.command_tag == request.command_tag,
        request@.payload == request.payload@,
        views(packets).len() == packets.len(),
        forall|i: int| 0 <= i < packets.len() ==> views(packets)[i] == (#[trigger] packets[i])@,
{
}

} // verus!
