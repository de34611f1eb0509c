//! The opening of links to the Ledgers that were found, step by step.
//!
//! An [`Opening`] does no input or output of its own: it says what is to be done next, and is
//! told what came of it.
use vstd::prelude::*;

use crate::device::{
    find_characteristic, first_with, first_with_is_first, is_first_with, is_ledger, ledgers,
    ledgers_are_found, TransportNativeBle, NOTIFY, WRITE,
};
use crate::error::{outcome, ErrorView, LedgerBleError};

verus! {

/// Something to be done to open the link to the device at a position.
#[derive(Debug, Clone, Copy, PartialEq, Eq)]
pub enum OpenAction {
    /// Find out whether it is connected.
    IsConnected(usize),
    /// Connect to it.
    Connect(usize),
    /// Discover its services.
    DiscoverServices(usize),
    /// List its characteristics.
    Characteristics(usize),
}

/// What came of an [`OpenAction`].
#[derive(Debug)]
pub enum OpenEvent {
    /// It is connected, or is not.
    Connected(bool),
    /// The connection is made, or the services are discovered.
    Done,
    /// It has characteristics with these properties.
    Characteristics(Vec<u8>),
    /// The action failed, for the reason that the Bluetooth stack gave.
    Failed(String),
}

/// What is being done for the Ledger at hand.
#[derive(Debug, Clone, Copy, PartialEq, Eq)]
pub enum OpenStage {
    IsConnected,
    Connect,
    DiscoverServices,
    Characteristics,
}

/// The links that are being opened.
#[derive(Debug)]
pub enum Opening {
    /// The Ledgers are at these positions; the links to the first of them are open; this is
    /// being done for the next one.
    Link(Vec<usize>, Vec<TransportNativeBle>, OpenStage),
    /// All links are open, or one could not be opened.
    Done(Result<Vec<TransportNativeBle>, LedgerBleError>),
}

/// The mathematical value of an [`OpenEvent`].
pub enum OpenEventView {
    Connected(bool),
    Done,
    Characteristics(Seq<u8>),
    Failed(Seq<char>),
}

/// The mathematical value of an [`Opening`].
pub enum OpeningView {
    Link(Seq<usize>, Seq<TransportNativeBle>, OpenStage),
    Done(Result<Seq<TransportNativeBle>, ErrorView>),
}

impl View for OpenEvent {
    type V = OpenEventView;

    open spec fn view(&self) -> OpenEventView {
        match *self {
            OpenEvent::Connected(connected) => OpenEventView::Connected(connected),
            OpenEvent::Done => OpenEventView::Done,
            OpenEvent::Characteristics(properties) => OpenEventView::Characteristics(properties@),
            OpenEvent::Failed(reason) => OpenEventView::Failed(reason@),
        }
    }
}

impl View for Opening {
    type V = OpeningView;

    open spec fn view(&self) -> OpeningView {
        match *self {
            Opening::Link(ledgers, open, stage) => OpeningView::Link(ledgers@, open@, stage),
            Opening::Done(result) => OpeningView::Done(outcome(result)),
        }
    }
}

/// Whether characteristics with these properties make a link: one can be written to, and one
/// notifies.
pub open spec fn makes_link(properties: Seq<u8>) -> bool {
    first_with(properties, WRITE) is Some && first_with(properties, NOTIFY) is Some
}

/// The link to the device at a position: of its characteristics the first that can be written
/// to, and the first that notifies.
pub open spec fn link_of(device: usize, properties: Seq<u8>) -> TransportNativeBle {
    TransportNativeBle {
        device,
        write_characteristic: first_with(properties, WRITE)->Some_0,
        notify_characteristic: first_with(properties, NOTIFY)->Some_0,
    }
}

impl OpeningView {
    /// The opening when these links are open.
    pub open spec fn at(ledgers: Seq<usize>, open: Seq<TransportNativeBle>) -> OpeningView {
        if open.len() < ledgers.len() {
            OpeningView::Link(ledgers, open, OpenStage::IsConnected)
        } else {
            OpeningView::Done(Ok(open))
        }
    }

    /// The opening of the links to the Ledgers that a search came to, of which nothing is done
    /// yet. It has failed as the search did, and also if the search found none.
    pub open spec fn start(found: Result<Seq<usize>, ErrorView>) -> OpeningView {
        match found {
            Err(error) => OpeningView::Done(Err(error)),
            Ok(ledgers) => if ledgers.len() == 0 {
                OpeningView::Done(Err(ErrorView::DeviceNotFound))
            } else {
                OpeningView::at(ledgers, Seq::empty())
            },
        }
    }

    /// As long as the opening is not over, some link is not open.
    pub open spec fn wf(self) -> bool {
        self matches OpeningView::Link(ledgers, open, _) ==> open.len() < ledgers.len()
    }

    /// What is to be done next, if the opening is not over.
    pub open spec fn action(self) -> Option<OpenAction> {
        match self {
            OpeningView::Link(ledgers, open, stage) => {
                let device = ledgers[open.len() as int];
                Some(
                    match stage {
                        OpenStage::IsConnected => OpenAction::IsConnected(device),
                        OpenStage::Connect => OpenAction::Connect(device),
                        OpenStage::DiscoverServices => OpenAction::DiscoverServices(device),
                        OpenStage::Characteristics => OpenAction::Characteristics(device),
                    },
                )
            },
            OpeningView::Done(_) => None,
        }
    }

    /// Whether an event can come of what is to be done next. A device without the
    /// characteristics for a link is not provided for.
    pub open spec fn accepts(self, event: OpenEventView) -> bool {
        match self {
            OpeningView::Link(_, _, OpenStage::IsConnected) => event is Connected
                || event is Failed,
            OpeningView::Link(_, _, OpenStage::Connect) => event is Done || event is Failed,
            OpeningView::Link(_, _, OpenStage::DiscoverServices) => event is Done
                || event is Failed,
            OpeningView::Link(_, _, OpenStage::Characteristics) => event
                matches OpenEventView::Characteristics(properties) && makes_link(properties),
            OpeningView::Done(_) => false,
        }
    }

    /// The opening after an event: a Ledger is connected to unless it is connected already, its
    /// services are discovered, and its characteristics make the link. A failure ends it.
    pub open spec fn after(self, event: OpenEventView) -> OpeningView {
        match (self, event) {
            (_, OpenEventView::Failed(reason)) => OpeningView::Done(
                Err(ErrorView::Bluetooth(reason)),
            ),
            (
                OpeningView::Link(ledgers, open, OpenStage::IsConnected),
                OpenEventView::Connected(connected),
            ) => OpeningView::Link(
                ledgers,
                open,
                if connected {
                    OpenStage::DiscoverServices
                } else {
                    OpenStage::Connect
                },
            ),
            (OpeningView::Link(ledgers, open, OpenStage::Connect), OpenEventView::Done) =>
                OpeningView::Link(ledgers, open, OpenStage::DiscoverServices),
            (OpeningView::Link(ledgers, open, OpenStage::DiscoverServices), OpenEventView::Done) =>
                OpeningView::Link(ledgers, open, OpenStage::Characteristics),
            (
                OpeningView::Link(ledgers, open, OpenStage::Characteristics),
                OpenEventView::Characteristics(properties),
            ) => OpeningView::at(
                ledgers,
                open.push(link_of(ledgers[open.len() as int], properties)),
            ),
            _ => self,
        }
    }

    /// The opening after some events, one after the other.
    pub open spec fn run(self, events: Seq<OpenEventView>) -> OpeningView
        decreases events.len(),
    {
        if events.len() == 0 {
            self
        } else {
            self.run(events.drop_last()).after(events.last())
        }
    }
}

impl TransportNativeBle {
    /// Starts to open the links to the Ledgers that a search came to.
    pub fn new(found: Result<Vec<usize>, LedgerBleError>) -> (opening: Opening)
        ensures
            opening@.wf(),
            opening@ == OpeningView::start(outcome(found)),
    {
        match found {
            Err(error) => Opening::Done(Err(error)),
            Ok(ledgers) => if ledgers.len() == 0 {
                Opening::Done(Err(LedgerBleError::DeviceNotFound))
            } else {
                Opening::at(ledgers, Vec::new())
            },
        }
    }
}

impl Opening {
    fn at(ledgers: Vec<usize>, open: Vec<TransportNativeBle>) -> (opening: Opening)
        ensures
            opening@.wf(),
            opening@ == OpeningView::at(ledgers@, open@),
    {
        if open.len() < ledgers.len() {
            Opening::Link(ledgers, open, OpenStage::IsConnected)
        } else {
            Opening::Done(Ok(open))
        }
    }

    /// What is to be done next; nothing if the opening is over.
    pub fn action(&self) -> (action: Option<OpenAction>)
        requires
            self@.wf(),
        ensures
            action == self@.action(),
    {
        match self {
            Opening::Link(ledgers, open, stage) => {
                let device: usize = ledgers[open.len()];
                Some(
                    match stage {
                        OpenStage::IsConnected => OpenAction::IsConnected(device),
                        OpenStage::Connect => OpenAction::Connect(device),
                        OpenStage::DiscoverServices => OpenAction::DiscoverServices(device),
                        OpenStage::Characteristics => OpenAction::Characteristics(device),
                    },
                )
            },
            Opening::Done(_) => None,
        }
    }

    /// Whether the event can come of what is to be done next.
    pub fn accepts(&self, event: &OpenEvent) -> (accepted: bool)
        ensures
            accepted == self@.accepts(event@),
    {
        match self {
            Opening::Link(_, _, stage) => match (stage, event) {
                (OpenStage::Characteristics, OpenEvent::Characteristics(properties)) => {
                    find_characteristic(properties, WRITE).is_some() && find_characteristic(
                        properties,
                        NOTIFY,
                    ).is_some()
                },
                (OpenStage::Characteristics, _) => false,
                (_, OpenEvent::Failed(_)) => true,
                (OpenStage::IsConnected, OpenEvent::Connected(_)) => true,
                (OpenStage::Connect, OpenEvent::Done) => true,
                (OpenStage::DiscoverServices, OpenEvent::Done) => true,
                _ => false,
            },
            Opening::Done(_) => false,
        }
    }

    /// The opening after an event.
    pub fn step(self, event: OpenEvent) -> (opening: Opening)
        requires
            self@.wf(),
            self@.accepts(event@),
        ensures
            opening@.wf(),
            opening@ == self@.after(event@),
    {
        match (self, event) {
            (_, OpenEvent::Failed(reason)) => Opening::Done(Err(LedgerBleError::Bluetooth(reason))),
            (
                Opening::Link(ledgers, open, OpenStage::IsConnected),
                OpenEvent::Connected(connected),
            ) => {
                if connected {
                    Opening::Link(ledgers, open, OpenStage::DiscoverServices)
                } else {
                    Opening::Link(ledgers, open, OpenStage::Connect)
                }
            },
            (Opening::Link(ledgers, open, OpenStage::Connect), OpenEvent::Done) => Opening::Link(
                ledgers,
                open,
                OpenStage::DiscoverServices,
            ),
            (Opening::Link(ledgers, open, OpenStage::DiscoverServices), OpenEvent::Done) =>
                Opening::Link(ledgers, open, OpenStage::Characteristics),
            (
                Opening::Link(ledgers, open, OpenStage::Characteristics),
                OpenEvent::Characteristics(properties),
            ) => {
                let mut open = open;
                let link = TransportNativeBle {
                    device: ledgers[open.len()],
                    write_characteristic: find_characteristic(&properties, WRITE).unwrap(),
                    notify_characteristic: find_characteristic(&properties, NOTIFY).unwrap(),
                };
                open.push(link);
                Opening::at(ledgers, open)
            },
            (opening, _) => opening,
        }
    }

    /// The links, once the opening is over.
    pub fn finish(self) -> (links: Result<Vec<TransportNativeBle>, LedgerBleError>)
        requires
            self@ is Done,
        ensures
            outcome(links) == self@->Done_0,
    {
        match self {
            Opening::Done(links) => links,
            _ => vstd::pervasive::unreached(),
        }
    }
}

/// An opening is over if and only if there is nothing more to be done, and then nothing more
/// can come of it.
pub proof fn opening_over_is_final(opening: OpeningView, event: OpenEventView)
    ensures
        opening is Done <==> opening.action() is None,
        opening is Done ==> !opening.accepts(event),
{
}

/// Any failure of the Bluetooth stack ends the opening with just that failure: no link is left
/// open for use.
pub proof fn failure_ends_opening(opening: OpeningView, reason: Seq<char>)
    requires
        opening.accepts(OpenEventView::Failed(reason)),
    ensures
        opening.after(OpenEventView::Failed(reason)) == OpeningView::Done(
            Err(ErrorView::Bluetooth(reason)),
        ),
{
}

/// What comes of the opening of links to devices that do not fail: of each it is known whether
/// it is connected beforehand, and what its characteristics are.
pub open spec fn open_events(devices: Seq<(bool, Seq<u8>)>) -> Seq<OpenEventView>
    decreases devices.len(),
{
    if devices.len() == 0 {
        Seq::empty()
    } else {
        let (connected, properties) = devices.last();
        open_events(devices.drop_last()) + seq![OpenEventView::Connected(connected)] + (
        if connected {
            Seq::empty()
        } else {
            seq![OpenEventView::Done]
        }) + seq![OpenEventView::Done, OpenEventView::Characteristics(properties)]
    }
}

/// The links to some of the Ledgers, from the first on, with these characteristics.
pub open spec fn links_to(
    ledgers: Seq<usize>,
    devices: Seq<(bool, Seq<u8>)>,
) -> Seq<TransportNativeBle> {
    Seq::new(devices.len(), |i: int| link_of(ledgers[i], devices[i].1))
}

/// Every Ledger gets its link, in their order.
pub proof fn all_links_are_opened(ledgers: Seq<usize>, devices: Seq<(bool, Seq<u8>)>)
    requires
        0 < ledgers.len(),
        devices.len() <= ledgers.len(),
    ensures
        OpeningView::start(Ok(ledgers)).run(open_events(devices)) == OpeningView::at(
            ledgers,
            links_to(ledgers, devices),
        ),
    decreases devices.len(),
{
    reveal_with_fuel(OpeningView::run, 5);
    let links = links_to(ledgers, devices);
    let events = open_events(devices);
    if devices.len() == 0 {
        assert(links == Seq::<TransportNativeBle>::empty());
    } else {
        let (connected, properties) = devices.last();
        let before = devices.drop_last();
        let base = open_events(before);
        let open = links_to(ledgers, before);
        all_links_are_opened(ledgers, before);
        let asked = base.push(OpenEventView::Connected(connected));
        let linked = if connected {
            asked
        } else {
            asked.push(OpenEventView::Done)
        };
        assert(events =~= linked.push(OpenEventView::Done).push(
            OpenEventView::Characteristics(properties),
        ));
        assert(events.drop_last() == linked.push(OpenEventView::Done));
        assert(events.drop_last().drop_last() == linked);
        assert(asked.drop_last() == base);
        assert(!connected ==> linked.drop_last() == asked);
        assert(open.push(link_of(ledgers[open.len() as int], properties)) == links);
    }
}

/// Whatever comes of an opening, its links are to the Ledgers that it was started with, in their
/// order, and if it succeeds there is one for each.
pub proof fn links_are_to_the_ledgers(ledgers: Seq<usize>, events: Seq<OpenEventView>)
    requires
        0 < ledgers.len(),
    ensures
        match OpeningView::start(Ok(ledgers)).run(events) {
            OpeningView::Link(l, open, _) => {
                &&& l == ledgers
                &&& open.len() < ledgers.len()
                &&& forall|i: int| 0 <= i < open.len() ==> (#[trigger] open[i]).device == ledgers[i]
            },
            OpeningView::Done(Ok(links)) => {
                &&& links.len() == ledgers.len()
                &&& forall|i: int|
                    0 <= i < links.len() ==> (#[trigger] links[i]).device == ledgers[i]
            },
            OpeningView::Done(Err(error)) => error is Bluetooth,
        },
    decreases events.len(),
{
    if events.len() > 0 {
        links_are_to_the_ledgers(ledgers, events.drop_last());
    }
}

/// Whatever comes of an opening after a search among some devices, every link is to one of these
/// devices that is a Ledger, and if the opening succeeds every such device has a link.
pub proof fn links_are_to_ledgers(ids: Seq<Option<u128>>, events: Seq<OpenEventView>)
    requires
        ids.len() <= usize::MAX,
    ensures
        match OpeningView::start(Ok(ledgers(ids))).run(events) {
            OpeningView::Done(Ok(links)) => {
                &&& forall|i: int|
                    0 <= i < links.len() ==> (#[trigger] links[i]).device < ids.len() && is_ledger(
                        ids[links[i].device as int],
                    )
                &&& forall|d: int|
                    0 <= d < ids.len() && is_ledger(#[trigger] ids[d]) ==> exists|i: int|
                        0 <= i < links.len() && (#[trigger] links[i]).device == d
            },
            _ => true,
        },
{
    let found = ledgers(ids);
    ledgers_are_found(ids);
    if found.len() == 0 {
        start_without_ledgers(events);
        assert(found == Seq::<usize>::empty());
    } else {
        links_are_to_the_ledgers(found, events);
        if let OpeningView::Done(Ok(links)) = OpeningView::start(Ok(found)).run(events) {
            assert forall|d: int| 0 <= d < ids.len() && is_ledger(#[trigger] ids[d]) implies exists|
                i: int,
            | 0 <= i < links.len() && (#[trigger] links[i]).device == d by {
                let i = choose|i: int| 0 <= i < found.len() && found[i] == d as usize;
                assert(links[i].device == d);
            }
        }
    }
}

/// An opening without Ledgers never comes to any link.
pub proof fn start_without_ledgers(events: Seq<OpenEventView>)
    ensures
        OpeningView::start(Ok(Seq::empty())) == OpeningView::Done(Err(ErrorView::DeviceNotFound)),
        OpeningView::start(Ok(Seq::empty())).run(events) matches OpeningView::Done(Err(_)),
    decreases events.len(),
{
    if events.len() > 0 {
        start_without_ledgers(events.drop_last());
    }
}

/// What is done to open links, action by action. For each Ledger in turn it is found out whether
/// it is connected, it is connected to if and only if it is not, its services are discovered, and
/// its characteristics are listed. Then it is the turn of the next one, or nothing more is done.
pub proof fn opening_actions(
    ledgers: Seq<usize>,
    devices: Seq<(bool, Seq<u8>)>,
    properties: Seq<u8>,
)
    requires
        devices.len() < ledgers.len(),
    ensures
        ({
            let k = devices.len() as int;
            let d = ledgers[k];
            let at = OpeningView::start(Ok(ledgers)).run(open_events(devices));
            let unconnected = at.after(OpenEventView::Connected(false));
            let connected = at.after(OpenEventView::Connected(true));
            let discovered = connected.after(OpenEventView::Done);
            let listed = discovered.after(OpenEventView::Characteristics(properties));
            &&& at.action() == Some(OpenAction::IsConnected(d))
            &&& unconnected.action() == Some(OpenAction::Connect(d))
            &&& connected.action() == Some(OpenAction::DiscoverServices(d))
            &&& unconnected.after(OpenEventView::Done).action() == Some(
                OpenAction::DiscoverServices(d),
            )
            &&& unconnected.after(OpenEventView::Done).after(OpenEventView::Done) == discovered
            &&& discovered.action() == Some(OpenAction::Characteristics(d))
            &&& k + 1 < ledgers.len() ==> listed.action() == Some(
                OpenAction::IsConnected(ledgers[k + 1]),
            )
            &&& k + 1 == ledgers.len() ==> listed.action() is None
        }),
{
    all_links_are_opened(ledgers, devices);
}

/// The links that come of devices that do not fail: one to each Ledger in turn, with the first of
/// its characteristics that has the bit 0x08 for writing, and the first that has the bit 0x10 for
/// notifications.
pub proof fn opened_links(ledgers: Seq<usize>, devices: Seq<(bool, Seq<u8>)>)
    requires
        0 < ledgers.len(),
        devices.len() == ledgers.len(),
        forall|i: int|
            0 <= i < devices.len() ==> has(#[trigger] devices[i].1, 0x08) && has(devices[i].1, 0x10)
                && devices[i].1.len() <= usize::MAX,
    ensures
        OpeningView::start(Ok(ledgers)).run(open_events(devices)) matches OpeningView::Done(
            Ok(links),
        ) && links.len() == ledgers.len() && forall|i: int|
            0 <= i < links.len() ==> {
                &&& (#[trigger] links[i]).device == ledgers[i]
                &&& is_first_with(devices[i].1, 0x08, links[i].write_characteristic as int)
                &&& is_first_with(devices[i].1, 0x10, links[i].notify_characteristic as int)
            },
{
    all_links_are_opened(ledgers, devices);
    let links = links_to(ledgers, devices);
    assert forall|i: int| 0 <= i < links.len() implies {
        &&& (#[trigger] links[i]).device == ledgers[i]
        &&& is_first_with(devices[i].1, 0x08, links[i].write_characteristic as int)
        &&& is_first_with(devices[i].1, 0x10, links[i].notify_characteristic as int)
    } by {
        assert(has(devices[i].1, 0x08));
        first_with_is_first(devices[i].1, 0x08);
        first_with_is_first(devices[i].1, 0x10);
    }
}

/// Whether one of some characteristics has all bits of a property.
pub open spec fn has(properties: Seq<u8>, property: u8) -> bool {
    exists|j: int| 0 <= j < properties.len() && #[trigger] properties[j] & property == property
}

/// What can come of each action of an opening: of asking whether a Ledger is connected that it is
/// or is not, of connecting and discovering their success, of any of these a failure; of listing
/// the characteristics such as have the bit 0x08 in one and the bit 0x10 in one; and of nothing
/// nothing.
pub proof fn opening_events(opening: OpeningView, event: OpenEventView)
    requires
        event matches OpenEventView::Characteristics(properties) ==> properties.len() <= usize::MAX,
    ensures
        opening.accepts(event) <==> match opening.action() {
            Some(OpenAction::IsConnected(_)) => event is Connected || event is Failed,
            Some(OpenAction::Connect(_)) => event is Done || event is Failed,
            Some(OpenAction::DiscoverServices(_)) => event is Done || event is Failed,
            Some(OpenAction::Characteristics(_)) => event matches OpenEventView::Characteristics(
                properties,
            ) && has(properties, 0x08) && has(properties, 0x10),
            None => false,
        },
{
    if let OpenEventView::Characteristics(properties) = event {
        first_with_is_first(properties, 0x08);
        first_with_is_first(properties, 0x10);
    }
}

/// An opening starts with what the search came to: with its failure it has failed in the same
/// way, and without any Ledger it has failed for want of a device.
pub proof fn opening_starts_from_the_search(error: ErrorView)
    ensures
        OpeningView::start(Err(error)) == OpeningView::Done(Err(error)),
        OpeningView::start(Ok(Seq::empty())) == OpeningView::Done(Err(ErrorView::DeviceNotFound)),
{
}

/// Openings and events and their mathematical values are of one kind, and hold the same.
pub proof fn openings_keep_their_kind(opening: Opening, event: OpenEvent)
    ensures
        opening matches Opening::Link(ledgers, open, stage) ==> opening@ == OpeningView::Link(
            ledgers@,
            open@,
            stage,
        ),
        opening matches Opening::Done(links) ==> opening@ == OpeningView::Done(outcome(links)),
        event is Done <==> event@ is Done,
        event matches OpenEvent::Connected(connected) ==> event@ == OpenEventView::Connected(
            connected,
        ),
        event matches OpenEvent::Characteristics(properties) ==> event@
            == OpenEventView::Characteristics(properties@),
        event matches OpenEvent::Failed(reason) ==> event@ == OpenEventView::Failed(reason@),
{
}

} // verus!
