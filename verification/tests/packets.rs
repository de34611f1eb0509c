use byteorder::{BigEndian, WriteBytesExt};
use ledger_transport_ble::request::can_be_cut;
use ledger_transport_ble::{
    APDUAnswer, APDUCommand, InitialPacket, LedgerBleError, Reading, Request, Response,
    SubsequentPacket,
};

fn read_all(packets: Vec<Vec<u8>>) -> Result<Reading, LedgerBleError> {
    let mut response = Response::new();
    for packet in packets {
        match response.read(packet)? {
            Reading::More(more) => response = more,
            done => return Ok(done),
        }
    }
    Ok(Reading::More(response))
}

fn payload(len: usize) -> Vec<u8> {
    (0..len).map(|i| (i * 7 + 3) as u8).collect()
}

#[test]
fn initial_packet_bytes() {
    let packet = InitialPacket { command_tag: 0x05, data_length: 0x0203, payload: vec![0xaa, 0xbb] };
    assert_eq!(packet.serialize(), vec![0x05, 0x00, 0x00, 0x02, 0x03, 0xaa, 0xbb]);
}

#[test]
fn initial_packet_round_trips() {
    let packet = InitialPacket { command_tag: 0x08, data_length: 0xfffe, payload: vec![1, 2, 3] };
    let read = InitialPacket::try_from(packet.serialize()).unwrap();
    assert_eq!(read.command_tag, 0x08);
    assert_eq!(read.data_length, 0xfffe);
    assert_eq!(read.payload, vec![1, 2, 3]);
}

#[test]
fn initial_packet_ignores_the_sequence_index() {
    let read = InitialPacket::try_from(vec![5, 9, 9, 0, 1, 7]).unwrap();
    assert_eq!(read.serialize(), vec![5, 0, 0, 0, 1, 7]);
}

#[test]
fn initial_packet_needs_five_bytes() {
    for len in 0..5 {
        assert_eq!(InitialPacket::try_from(vec![0; len]).unwrap_err(), LedgerBleError::InvalidPacket);
    }
    let read = InitialPacket::try_from(vec![8, 0, 0, 1, 0]).unwrap();
    assert_eq!(read.data_length, 256);
    assert!(read.payload.is_empty());
}

#[test]
fn subsequent_packet_bytes() {
    let packet =
        SubsequentPacket { command_tag: 0x03, _packet_sequence_index: 4, payload: vec![0xcc] };
    assert_eq!(packet.serialize(), vec![0x03, 0x00, 0x00, 0xcc]);
}

#[test]
fn subsequent_packet_round_trips_without_its_index() {
    let packet =
        SubsequentPacket { command_tag: 3, _packet_sequence_index: 300, payload: vec![1, 2] };
    let read = SubsequentPacket::try_from(packet.serialize()).unwrap();
    assert_eq!(read.command_tag, 3);
    assert_eq!(read._packet_sequence_index, 0);
    assert_eq!(read.payload, vec![1, 2]);
}

#[test]
fn subsequent_packet_reads_its_index() {
    let read = SubsequentPacket::try_from(vec![3, 0x01, 0x02, 9]).unwrap();
    assert_eq!(read._packet_sequence_index, 0x0102);
    assert_eq!(read.serialize(), vec![3, 0, 0, 9]);
}

#[test]
fn subsequent_packet_needs_three_bytes() {
    for len in 0..3 {
        assert_eq!(
            SubsequentPacket::try_from(vec![0; len]).unwrap_err(),
            LedgerBleError::InvalidPacket
        );
    }
    assert!(SubsequentPacket::try_from(vec![3, 0, 0]).unwrap().payload.is_empty());
}

#[test]
fn request_without_payload_is_one_packet() {
    let packets = Request { command_tag: 0x08, payload: vec![] }.serialize(0xff);
    assert_eq!(packets, vec![vec![0x08, 0, 0, 0, 0]]);
}

#[test]
fn request_is_cut() {
    let packets = Request { command_tag: 0x05, payload: vec![1, 2, 3, 4, 5] }.serialize(2);
    assert_eq!(
        packets,
        vec![vec![5, 0, 0, 0, 5, 1, 2], vec![3, 0, 0, 3, 4], vec![3, 0, 0, 5]]
    );
}

#[test]
fn request_that_fills_its_packets() {
    let packets = Request { command_tag: 0x05, payload: vec![1, 2, 3, 4] }.serialize(2);
    assert_eq!(packets, vec![vec![5, 0, 0, 0, 4, 1, 2], vec![3, 0, 0, 3, 4]]);
}

#[test]
fn cut_packets_are_numbered_from_one() {
    let (initial, subsequent) = Request { command_tag: 5, payload: payload(10) }.cut(3);
    assert_eq!(initial.data_length, 10);
    assert_eq!(initial.payload, payload(10)[..3].to_vec());
    let indices: Vec<u16> = subsequent.iter().map(|p| p._packet_sequence_index).collect();
    assert_eq!(indices, vec![1, 2, 3]);
    assert_eq!(subsequent[2].payload, payload(10)[9..].to_vec());
    assert_eq!(subsequent[2].command_tag, 0x03);
}

#[test]
fn which_requests_can_be_cut() {
    assert!(!can_be_cut(0, 0));
    assert!(can_be_cut(0, 1));
    assert!(can_be_cut(0x10000, 1));
    assert!(!can_be_cut(0x10001, 1));
    assert!(can_be_cut(0x10001, 2));
}

#[test]
fn messages_are_read_back() {
    for len in [0, 1, 2, 19, 20, 21, 254, 255, 256, 1000, 0xffff] {
        for mtu in [1, 2, 20, 0xff] {
            let packets = Request { command_tag: 0x05, payload: payload(len) }.serialize(mtu);
            assert!(packets.iter().skip(1).all(|p| p.len() > 3 && p.len() <= 3 + mtu as usize));
            let mut some = packets.clone();
            some.pop();
            assert!(matches!(read_all(some), Ok(Reading::More(_))));
            match read_all(packets) {
                Ok(Reading::Done(read)) => assert_eq!(read, payload(len)),
                other => panic!("{:?}", other),
            }
        }
    }
}

#[test]
fn a_message_of_two_to_the_sixteenth_bytes_is_not_read_back() {
    let packets = Request { command_tag: 0x05, payload: payload(0x10000) }.serialize(100);
    match read_all(packets) {
        Ok(Reading::Done(read)) => assert_eq!(read, payload(100)),
        other => panic!("{:?}", other),
    }
}

#[test]
fn response_may_be_longer_than_announced() {
    match read_all(vec![vec![5, 0, 0, 0, 2, 1], vec![3, 0, 0, 2, 3, 4], vec![]]) {
        Ok(Reading::Done(read)) => assert_eq!(read, vec![1, 2, 3, 4]),
        other => panic!("{:?}", other),
    }
}

#[test]
fn response_with_a_short_packet() {
    assert_eq!(read_all(vec![vec![5, 0, 0, 0]]).unwrap_err(), LedgerBleError::InvalidPacket);
    assert_eq!(
        read_all(vec![vec![5, 0, 0, 0, 9, 1], vec![3, 0]]).unwrap_err(),
        LedgerBleError::InvalidPacket
    );
}

#[test]
fn response_needs_more() {
    match read_all(vec![vec![5, 0, 0, 0, 9, 1, 2], vec![3, 0, 0, 3]]) {
        Ok(Reading::More(response)) => {
            assert_eq!(response.data_length, Some(9));
            assert_eq!(response.buffer, vec![1, 2, 3]);
        }
        other => panic!("{:?}", other),
    }
}

#[test]
fn command_bytes() {
    let command = APDUCommand { cla: 0x55, ins: 0x04, p1: 1, p2: 2, data: vec![0xaa; 3] };
    assert_eq!(command.serialize(), vec![0x55, 0x04, 1, 2, 3, 0xaa, 0xaa, 0xaa]);
}

#[test]
fn command_length_is_cut_to_a_byte() {
    let command = APDUCommand { cla: 0, ins: 0, p1: 0, p2: 0, data: vec![7; 0x102] };
    let bytes = command.serialize();
    assert_eq!(bytes[4], 2);
    assert_eq!(bytes.len(), 5 + 0x102);
}

#[test]
fn answer_is_data_and_return_code() {
    let answer = APDUAnswer::from_answer(vec![0xde, 0xad, 0x90, 0x01]).unwrap();
    assert_eq!(answer.data, vec![0xde, 0xad]);
    assert_eq!(answer.retcode, 0x9001);
}

#[test]
fn answer_is_whole() {
    let bytes = vec![1, 2, 3, 0x6a, 0x80];
    let answer = APDUAnswer::from_answer(bytes.clone()).unwrap();
    let mut again = answer.data;
    again.extend(answer.retcode.to_be_bytes());
    assert_eq!(again, bytes);
}

#[test]
fn short_answers_are_refused() {
    for answer in [vec![], vec![0x90]] {
        assert_eq!(
            APDUAnswer::from_answer(answer).unwrap_err(),
            LedgerBleError::Comm("response was too short")
        );
    }
    assert!(APDUAnswer::from_answer(vec![0x90, 0x00]).unwrap().data.is_empty());
}

#[test]
fn address_request_as_one_packet() {
    let hrp = b"cosmos";
    let mut data: Vec<u8> = Vec::new();
    data.write_u8(hrp.len() as u8).unwrap();
    data.extend(hrp);
    for number in [0x44, 0x118, 0, 0, 0] {
        data.write_u32::<BigEndian>(number).unwrap();
    }
    let command = APDUCommand { cla: 0x55, ins: 0x04, p1: 0, p2: 0, data: data.clone() };
    let mut expected: Vec<u8> = vec![0x05, 0, 0, 0, 32, 0x55, 0x04, 0, 0, 27];
    expected.extend(data);
    let packets = Request { command_tag: 0x05, payload: command.serialize() }.serialize(0xff);
    assert_eq!(packets, vec![expected]);
}
