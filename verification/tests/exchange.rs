use byteorder::{LittleEndian, WriteBytesExt};
use ledger_transport_ble::{
    APDUAnswer, APDUCommand, Action, Event, Exchange, LedgerBleError, Request, TransportNativeBle,
};

const LINK: TransportNativeBle =
    TransportNativeBle { device: 0, write_characteristic: 4, notify_characteristic: 7 };

fn version() -> APDUCommand {
    APDUCommand { cla: 0x55, ins: 0x00, p1: 0x00, p2: 0x00, data: vec![] }
}

fn message(payload: Vec<u8>, mtu: u8) -> Vec<Vec<u8>> {
    Request { command_tag: 0x05, payload }.serialize(mtu)
}

/// Runs an exchange against a device that answers each request with the next of its messages,
/// and returns what was done and what came of it.
fn run(
    mut exchange: Exchange,
    messages: Vec<Vec<Vec<u8>>>,
) -> (Vec<Action>, Result<APDUAnswer, LedgerBleError>) {
    let mut messages = messages.into_iter();
    let mut notifications = Vec::new().into_iter();
    let mut log = Vec::new();
    while let Some(action) = exchange.action() {
        let event = match &action {
            Action::Subscribe(_) | Action::Write(_, _) => Event::Done,
            Action::Notifications => {
                notifications = messages.next().unwrap().into_iter();
                Event::Done
            }
            Action::NextNotification => Event::Notification(notifications.next().unwrap()),
        };
        log.push(action);
        assert!(exchange.accepts(&event));
        exchange = exchange.step(event);
    }
    (log, exchange.finish())
}

fn done(mut exchange: Exchange, times: usize) -> Exchange {
    for _ in 0..times {
        assert!(exchange.accepts(&Event::Done));
        exchange = exchange.step(Event::Done);
    }
    exchange
}

fn written(log: &[Action]) -> Vec<Vec<u8>> {
    log.iter()
        .filter_map(|action| match action {
            Action::Write(4, packet) => Some(packet.clone()),
            Action::Write(_, _) => panic!("wrong characteristic"),
            _ => None,
        })
        .collect()
}

#[test]
fn test_get_mtu() {
    let mut transfer = LINK.get_mtu();
    assert!(matches!(transfer.action(), Some(Action::Subscribe(7))));
    transfer = transfer.step(Event::Done);
    match transfer.action() {
        Some(Action::Write(4, packet)) => assert_eq!(packet, vec![0x08, 0, 0, 0, 0]),
        other => panic!("{:?}", other),
    }
    transfer = transfer.step(Event::Done);
    assert!(matches!(transfer.action(), Some(Action::Notifications)));
    transfer = transfer.step(Event::Done);
    assert!(matches!(transfer.action(), Some(Action::NextNotification)));
    let event = Event::Notification(vec![0x08, 0, 0, 0, 1, 0x99]);
    assert!(transfer.accepts(&event));
    transfer = transfer.step(event);
    assert!(transfer.action().is_none());
    assert_eq!(transfer.finish_mtu().unwrap(), 0x99);
}

#[test]
fn test_get_version() {
    let (log, answer) = run(
        LINK.exchange(&version()),
        vec![message(vec![0x99], 20), message(vec![0, 1, 2, 3, 0x90, 0x00], 20)],
    );
    assert_eq!(
        written(&log),
        vec![vec![0x08, 0, 0, 0, 0], vec![0x05, 0, 0, 0, 5, 0x55, 0, 0, 0, 0]]
    );
    let answer = answer.unwrap();
    assert_eq!(answer.data, vec![0, 1, 2, 3]);
    assert_eq!(answer.retcode, 0x9000);
}

#[test]
fn test_get_pub_key() {
    let hrp = b"cosmos";
    let mut get_addr_payload: Vec<u8> = Vec::new();
    get_addr_payload.write_u8(hrp.len() as u8).unwrap();
    get_addr_payload.extend(hrp);
    get_addr_payload.write_u32::<LittleEndian>(44 + 0x80000000).unwrap();
    get_addr_payload.write_u32::<LittleEndian>(118 + 0x80000000).unwrap();
    get_addr_payload.write_u32::<LittleEndian>(0).unwrap();
    get_addr_payload.write_u32::<LittleEndian>(0).unwrap();
    get_addr_payload.write_u32::<LittleEndian>(0).unwrap();
    let command = APDUCommand { cla: 0x55, ins: 0x04, p1: 0x00, p2: 0x00, data: get_addr_payload };
    let mut reply = vec![0x02; 33];
    reply.extend(b"cosmos1xyz");
    let mut answer_bytes = reply.clone();
    answer_bytes.extend([0x90, 0x00]);
    let (log, answer) = run(
        LINK.exchange(&command),
        vec![message(vec![20], 20), message(answer_bytes, 20)],
    );
    let packets = written(&log);
    assert_eq!(packets.len(), 3);
    assert_eq!(packets[1].len(), 25);
    assert_eq!(packets[1][..6], [0x05, 0, 0, 0, 32, 0x55]);
    assert_eq!(packets[2].len(), 3 + 12);
    let mut command_bytes = packets[1][5..].to_vec();
    command_bytes.extend(&packets[2][3..]);
    assert_eq!(command_bytes, command.serialize());
    let answer = answer.unwrap();
    assert_eq!(answer.data, reply);
    assert_eq!(answer.retcode, 0x9000);
}

#[test]
fn actions_come_in_order() {
    let (log, _) = run(
        LINK.exchange(&version()),
        vec![message(vec![3], 1), message(vec![1, 2, 3, 4], 2)],
    );
    let kinds: String = log
        .iter()
        .map(|action| match action {
            Action::Subscribe(7) => 's',
            Action::Write(4, _) => 'w',
            Action::Notifications => 'o',
            Action::NextNotification => 'n',
            _ => '?',
        })
        .collect();
    assert_eq!(kinds, "swonswwonn");
}

#[test]
fn short_answer_is_refused() {
    let (_, answer) = run(
        LINK.exchange(&version()),
        vec![message(vec![3], 1), message(vec![0x90], 2)],
    );
    assert_eq!(answer.unwrap_err(), LedgerBleError::Comm("response was too short"));
}

#[test]
fn invalid_packet_ends_the_exchange() {
    let (log, answer) = run(LINK.exchange(&version()), vec![vec![vec![1, 2, 3, 4]]]);
    assert_eq!(answer.unwrap_err(), LedgerBleError::InvalidPacket);
    assert_eq!(written(&log).len(), 1);

    let (_, answer) = run(
        LINK.exchange(&version()),
        vec![message(vec![3], 1), vec![vec![5, 0, 0, 0, 9, 1], vec![3, 0]]],
    );
    assert_eq!(answer.unwrap_err(), LedgerBleError::InvalidPacket);
}

#[test]
fn failure_of_the_stack_ends_the_exchange() {
    for steps in 0..3 {
        let exchange = done(LINK.exchange(&version()), steps);
        let event = Event::Failed("not connected".to_string());
        assert!(exchange.accepts(&event));
        let exchange = exchange.step(event);
        assert!(exchange.action().is_none());
        assert!(!exchange.accepts(&Event::Done));
        assert_eq!(
            exchange.finish().unwrap_err(),
            LedgerBleError::Bluetooth("not connected".to_string())
        );
    }
}

#[test]
fn unusable_packet_sizes_are_not_accepted() {
    let notify = |bytes: Vec<u8>| {
        let exchange = done(LINK.exchange(&version()), 3);
        exchange.accepts(&Event::Notification(bytes))
    };
    assert!(!notify(vec![8, 0, 0, 0, 0]));
    assert!(!notify(vec![8, 0, 0, 0, 1, 0]));
    assert!(notify(vec![8, 0, 0, 0, 1, 1]));
    assert!(notify(vec![8, 0, 0, 0, 2, 0]));
    assert!(notify(vec![8, 0]));
}

#[test]
fn long_command_needs_large_packets() {
    let command = APDUCommand { cla: 0, ins: 0, p1: 0, p2: 0, data: vec![0; 0x10000] };
    let exchange = done(LINK.exchange(&command), 3);
    assert!(!exchange.accepts(&Event::Notification(vec![8, 0, 0, 0, 1, 1])));
    assert!(exchange.accepts(&Event::Notification(vec![8, 0, 0, 0, 1, 2])));
}

#[test]
fn only_what_was_asked_for_is_accepted() {
    let exchange = LINK.exchange(&version());
    assert!(!exchange.accepts(&Event::Notification(vec![8, 0, 0, 0, 1, 1])));
    let exchange = done(exchange, 3);
    assert!(!exchange.accepts(&Event::Done));
    assert!(!exchange.accepts(&Event::Failed(String::new())));
}

#[test]
fn apdu_transfer() {
    let mut transfer = LINK.write_apdu(vec![1, 2, 3], 2);
    transfer = transfer.step(Event::Done);
    match transfer.action() {
        Some(Action::Write(4, packet)) => assert_eq!(packet, vec![5, 0, 0, 0, 3, 1, 2]),
        other => panic!("{:?}", other),
    }
}

#[test]
fn request_transfer() {
    let request = Request { command_tag: 9, payload: vec![1] };
    let transfer = LINK.write_request(request, 2).step(Event::Done);
    match transfer.action() {
        Some(Action::Write(4, packet)) => assert_eq!(packet, vec![9, 0, 0, 0, 1, 1]),
        other => panic!("{:?}", other),
    }
}
