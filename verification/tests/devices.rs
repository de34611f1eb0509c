use btleplug::api::CharPropFlags;
use ledger_transport_ble::device::{find_characteristic, find_ledgers, NOTIFY, WRITE};
use ledger_transport_ble::{
    LedgerBleError, ListAction, ListEvent, OpenAction, OpenEvent, TransportNativeBle,
};
use uuid::Uuid;

fn nano_x() -> Option<u128> {
    Some(Uuid::parse_str("9c332c11-e85b-3c29-536c-50c4d347ed4d").unwrap().as_u128())
}

/// Lists the Ledgers among what some adapters find, and returns what was done and what came of
/// it.
fn list(scans: Vec<Vec<Option<u128>>>) -> (Vec<ListAction>, Result<Vec<usize>, LedgerBleError>) {
    let mut listing = TransportNativeBle::list_ledgers();
    let mut log = Vec::new();
    while let Some(action) = listing.action() {
        log.push(action);
        let event = match action {
            ListAction::Adapters => ListEvent::Adapters(scans.len()),
            ListAction::StartScan(_) | ListAction::Sleep(_) => ListEvent::Done,
            ListAction::Peripherals(i) => ListEvent::Peripherals(scans[i].clone()),
        };
        assert!(listing.accepts(&event));
        listing = listing.step(event);
    }
    (log, listing.finish())
}

/// Opens the links to some Ledgers among devices with these connections and characteristics.
fn open(
    ledgers: Vec<usize>,
    devices: Vec<(bool, Vec<u8>)>,
) -> (Vec<OpenAction>, Result<Vec<TransportNativeBle>, LedgerBleError>) {
    let mut opening = TransportNativeBle::new(Ok(ledgers));
    let mut log = Vec::new();
    while let Some(action) = opening.action() {
        log.push(action);
        let event = match action {
            OpenAction::IsConnected(i) => OpenEvent::Connected(devices[i].0),
            OpenAction::Connect(_) | OpenAction::DiscoverServices(_) => OpenEvent::Done,
            OpenAction::Characteristics(i) => OpenEvent::Characteristics(devices[i].1.clone()),
        };
        assert!(opening.accepts(&event));
        opening = opening.step(event);
    }
    (log, opening.finish())
}

#[test]
fn nano_x_is_a_ledger() {
    let id = Uuid::from_fields(
        0x9c332c11,
        0xe85b,
        0x3c29,
        &[0x53, 0x6c, 0x50, 0xc4, 0xd3, 0x47, 0xed, 0x4d],
    );
    assert!(TransportNativeBle::is_ledger(Some(id.as_u128())));
    assert!(TransportNativeBle::is_ledger(nano_x()));
    assert!(!TransportNativeBle::is_ledger(Some(id.as_u128() + 1)));
    assert!(!TransportNativeBle::is_ledger(Some(0)));
    assert!(!TransportNativeBle::is_ledger(None));
}

#[test]
fn properties_are_those_of_the_stack() {
    assert_eq!(WRITE, CharPropFlags::WRITE.bits());
    assert_eq!(NOTIFY, CharPropFlags::NOTIFY.bits());
}

#[test]
fn ledgers_keep_their_order() {
    let ids = vec![None, nano_x(), Some(1), nano_x()];
    assert_eq!(find_ledgers(&ids), vec![1, 3]);
    assert!(find_ledgers(&vec![]).is_empty());
}

#[test]
fn first_characteristic_with_a_property() {
    let read = CharPropFlags::READ.bits();
    let confirmed = CharPropFlags::WRITE.bits();
    let unconfirmed = CharPropFlags::WRITE_WITHOUT_RESPONSE.bits();
    let properties = vec![read, unconfirmed, read | confirmed, confirmed];
    assert_eq!(find_characteristic(&properties, WRITE), Some(2));
    assert_eq!(find_characteristic(&properties, NOTIFY), None);
    assert_eq!(find_characteristic(&vec![0xff], WRITE | NOTIFY), Some(0));
    assert_eq!(find_characteristic(&vec![WRITE, NOTIFY], WRITE | NOTIFY), None);
}

#[test]
fn ledger_device_path() {
    let (log, found) = list(vec![vec![], vec![Some(5), nano_x()], vec![nano_x()]]);
    assert_eq!(found.unwrap(), vec![1]);
    assert_eq!(
        log,
        vec![
            ListAction::Adapters,
            ListAction::StartScan(0),
            ListAction::Sleep(2),
            ListAction::Peripherals(0),
            ListAction::StartScan(1),
            ListAction::Sleep(2),
            ListAction::Peripherals(1),
        ]
    );
}

#[test]
fn first_adapter_with_devices_decides() {
    let (_, found) = list(vec![vec![Some(5)], vec![nano_x()]]);
    assert!(found.unwrap().is_empty());
}

#[test]
fn nothing_in_reach() {
    assert!(list(vec![]).1.unwrap().is_empty());
    assert!(list(vec![vec![], vec![]]).1.unwrap().is_empty());
}

#[test]
fn failure_ends_the_search() {
    let failed = || ListEvent::Failed("no permission".to_string());
    let listing = TransportNativeBle::list_ledgers();
    assert!(listing.accepts(&failed()));
    assert_eq!(
        listing.step(failed()).finish().unwrap_err(),
        LedgerBleError::Bluetooth("no permission".to_string())
    );

    let listing = TransportNativeBle::list_ledgers().step(ListEvent::Adapters(1));
    assert!(!listing.accepts(&failed()));
    let listing = listing.step(ListEvent::Done).step(ListEvent::Done);
    assert!(listing.accepts(&failed()));
    let listing = listing.step(failed());
    assert!(listing.action().is_none());
    assert!(!listing.accepts(&ListEvent::Done));
}

#[test]
fn no_ledger_no_link() {
    let (log, links) = open(vec![], vec![]);
    assert!(log.is_empty());
    assert_eq!(links.unwrap_err(), LedgerBleError::DeviceNotFound);
}

#[test]
fn failed_search_no_link() {
    let reason = || LedgerBleError::Bluetooth("no adapter".to_string());
    let opening = TransportNativeBle::new(Err(reason()));
    assert!(opening.action().is_none());
    assert_eq!(opening.finish().unwrap_err(), reason());
}

#[test]
fn links_are_opened() {
    let (log, links) = open(
        vec![0, 2],
        vec![
            (true, vec![NOTIFY, WRITE]),
            (true, vec![]),
            (false, vec![0x02, WRITE | NOTIFY, WRITE]),
        ],
    );
    assert_eq!(
        links.unwrap(),
        vec![
            TransportNativeBle { device: 0, write_characteristic: 1, notify_characteristic: 0 },
            TransportNativeBle { device: 2, write_characteristic: 1, notify_characteristic: 1 },
        ]
    );
    assert_eq!(
        log,
        vec![
            OpenAction::IsConnected(0),
            OpenAction::DiscoverServices(0),
            OpenAction::Characteristics(0),
            OpenAction::IsConnected(2),
            OpenAction::Connect(2),
            OpenAction::DiscoverServices(2),
            OpenAction::Characteristics(2),
        ]
    );
}

#[test]
fn failure_ends_the_opening() {
    let opening = TransportNativeBle::new(Ok(vec![0, 1])).step(OpenEvent::Connected(false));
    let event = OpenEvent::Failed("out of reach".to_string());
    assert!(opening.accepts(&event));
    let opening = opening.step(event);
    assert!(opening.action().is_none());
    assert!(!opening.accepts(&OpenEvent::Done));
    assert_eq!(
        opening.finish().unwrap_err(),
        LedgerBleError::Bluetooth("out of reach".to_string())
    );
}

#[test]
fn device_without_the_characteristics_is_not_accepted() {
    let opening =
        TransportNativeBle::new(Ok(vec![0])).step(OpenEvent::Connected(true)).step(OpenEvent::Done);
    assert!(!opening.accepts(&OpenEvent::Characteristics(vec![WRITE])));
    assert!(!opening.accepts(&OpenEvent::Characteristics(vec![NOTIFY])));
    assert!(opening.accepts(&OpenEvent::Characteristics(vec![NOTIFY, WRITE])));
    assert!(!opening.accepts(&OpenEvent::Done));
}
