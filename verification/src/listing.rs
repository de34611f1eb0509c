//! The search for Ledgers in reach, step by step.
//!
//! A [`Listing`] does no input or output of its own: it says what is to be done next, and is
//! told what came of it.
use vstd::prelude::*;

use crate::device::{find_ledgers, ledgers, nano_x_is_found, TransportNativeBle};
use crate::error::{outcome, ErrorView, LedgerBleError};

verus! {

/// For how many seconds an adapter is left to scan.
pub const SCAN_SECONDS: u64 = 2;

/// Something to be done to find devices.
#[derive(Debug, Clone, Copy, PartialEq, Eq)]
pub enum ListAction {
    /// Count the Bluetooth adapters.
    Adapters,
    /// Make the adapter scan for devices of all kinds.
    StartScan(usize),
    /// Wait for so many seconds.
    Sleep(u64),
    /// Ask the adapter for the devices that it has found.
    Peripherals(usize),
}

/// What came of a [`ListAction`].
#[derive(Debug)]
pub enum ListEvent {
    /// There are so many adapters.
    Adapters(usize),
    /// The scan has started, or the time is over.
    Done,
    /// Devices with these identifiers were found.
    Peripherals(Vec<Option<u128>>),
    /// The action failed, for the reason that the Bluetooth stack gave.
    Failed(String),
}

/// A search in progress. The numbers are those of the adapters and of the one at hand.
#[derive(Debug)]
pub enum Listing {
    Adapters,
    StartScan(usize, usize),
    Sleep(usize, usize),
    Peripherals(usize, usize),
    Done(Result<Vec<usize>, LedgerBleError>),
}

/// The mathematical value of a [`ListEvent`].
pub enum ListEventView {
    Adapters(usize),
    Done,
    Peripherals(Seq<Option<u128>>),
    Failed(Seq<char>),
}

/// The mathematical value of a [`Listing`].
pub enum ListingView {
    Adapters,
    StartScan(usize, usize),
    Sleep(usize, usize),
    Peripherals(usize, usize),
    Done(Result<Seq<usize>, ErrorView>),
}

impl View for ListEvent {
    type V = ListEventView;

    open spec fn view(&self) -> ListEventView {
        match *self {
            ListEvent::Adapters(count) => ListEventView::Adapters(count),
            ListEvent::Done => ListEventView::Done,
            ListEvent::Peripherals(ids) => ListEventView::Peripherals(ids@),
            ListEvent::Failed(reason) => ListEventView::Failed(reason@),
        }
    }
}

impl View for Listing {
    type V = ListingView;

    open spec fn view(&self) -> ListingView {
        match *self {
            Listing::Adapters => ListingView::Adapters,
            Listing::StartScan(count, i) => ListingView::StartScan(count, i),
            Listing::Sleep(count, i) => ListingView::Sleep(count, i),
            Listing::Peripherals(count, i) => ListingView::Peripherals(count, i),
            Listing::Done(result) => ListingView::Done(outcome(result)),
        }
    }
}

impl ListingView {
    /// The adapter at hand is one of the adapters.
    pub open spec fn wf(self) -> bool {
        match self {
            ListingView::StartScan(count, i) => i < count,
            ListingView::Sleep(count, i) => i < count,
            ListingView::Peripherals(count, i) => i < count,
            _ => true,
        }
    }

    /// What is to be done next, if the search is not over.
    pub open spec fn action(self) -> Option<ListAction> {
        match self {
            ListingView::Adapters => Some(ListAction::Adapters),
            ListingView::StartScan(_, i) => Some(ListAction::StartScan(i)),
            ListingView::Sleep(_, _) => Some(ListAction::Sleep(SCAN_SECONDS)),
            ListingView::Peripherals(_, i) => Some(ListAction::Peripherals(i)),
            ListingView::Done(_) => None,
        }
    }

    /// Whether an event can come of what is to be done next. An adapter that cannot scan is not
    /// provided for.
    pub open spec fn accepts(self, event: ListEventView) -> bool {
        match self {
            ListingView::Adapters => event is Adapters || event is Failed,
            ListingView::StartScan(_, _) => event is Done,
            ListingView::Sleep(_, _) => event is Done,
            ListingView::Peripherals(_, _) => event is Peripherals || event is Failed,
            ListingView::Done(_) => false,
        }
    }

    /// The search when the adapters before this one have found nothing.
    pub open spec fn at(count: usize, i: int) -> ListingView {
        if i < count {
            ListingView::StartScan(count, i as usize)
        } else {
            ListingView::Done(Ok(Seq::empty()))
        }
    }

    /// The search after an event: the first adapter that finds any devices decides.
    pub open spec fn after(self, event: ListEventView) -> ListingView {
        match (self, event) {
            (_, ListEventView::Failed(reason)) => ListingView::Done(
                Err(ErrorView::Bluetooth(reason)),
            ),
            (ListingView::Adapters, ListEventView::Adapters(count)) => ListingView::at(count, 0),
            (ListingView::StartScan(count, i), ListEventView::Done) => ListingView::Sleep(count, i),
            (ListingView::Sleep(count, i), ListEventView::Done) => ListingView::Peripherals(
                count,
                i,
            ),
            (ListingView::Peripherals(count, i), ListEventView::Peripherals(ids)) => if ids.len()
                > 0 {
                ListingView::Done(Ok(ledgers(ids)))
            } else {
                ListingView::at(count, i + 1)
            },
            _ => self,
        }
    }

    /// The search after some events, one after the other.
    pub open spec fn run(self, events: Seq<ListEventView>) -> ListingView
        decreases events.len(),
    {
        if events.len() == 0 {
            self
        } else {
            self.run(events.drop_last()).after(events.last())
        }
    }
}

impl TransportNativeBle {
    /// Starts to search for Ledgers.
    pub fn list_ledgers() -> (listing: Listing)
        ensures
            listing@.wf(),
            listing@ == ListingView::Adapters,
    {
        Listing::Adapters
    }
}

impl Listing {
    /// What is to be done next; nothing if the search is over.
    pub fn action(&self) -> (action: Option<ListAction>)
        ensures
            action == self@.action(),
    {
        match self {
            Listing::Adapters => Some(ListAction::Adapters),
            Listing::StartScan(_, i) => Some(ListAction::StartScan(*i)),
            Listing::Sleep(_, _) => Some(ListAction::Sleep(SCAN_SECONDS)),
            Listing::Peripherals(_, i) => Some(ListAction::Peripherals(*i)),
            Listing::Done(_) => None,
        }
    }

    /// Whether the event can come of what is to be done next.
    pub fn accepts(&self, event: &ListEvent) -> (accepted: bool)
        ensures
            accepted == self@.accepts(event@),
    {
        match (self, event) {
            (Listing::Adapters, ListEvent::Adapters(_)) => true,
            (Listing::Adapters, ListEvent::Failed(_)) => true,
            (Listing::StartScan(_, _), ListEvent::Done) => true,
            (Listing::Sleep(_, _), ListEvent::Done) => true,
            (Listing::Peripherals(_, _), ListEvent::Peripherals(_)) => true,
            (Listing::Peripherals(_, _), ListEvent::Failed(_)) => true,
            _ => false,
        }
    }

    fn at(count: usize, i: usize) -> (listing: Listing)
        ensures
            listing@.wf(),
            listing@ == ListingView::at(count, i as int),
    {
        if i < count {
            Listing::StartScan(count, i)
        } else {
            Listing::Done(Ok(Vec::new()))
        }
    }

    /// The search after an event.
    pub fn step(self, event: ListEvent) -> (listing: Listing)
        requires
            self@.wf(),
            self@.accepts(event@),
        ensures
            listing@.wf(),
            listing@ == self@.after(event@),
    {
        match (self, event) {
            (_, ListEvent::Failed(reason)) => Listing::Done(
                Err(LedgerBleError::Bluetooth(reason)),
            ),
            (Listing::Adapters, ListEvent::Adapters(count)) => Listing::at(count, 0),
            (Listing::StartScan(count, i), ListEvent::Done) => Listing::Sleep(count, i),
            (Listing::Sleep(count, i), ListEvent::Done) => Listing::Peripherals(count, i),
            (Listing::Peripherals(count, i), ListEvent::Peripherals(ids)) => if ids.len() > 0 {
                Listing::Done(Ok(find_ledgers(&ids)))
            } else {
                Listing::at(count, i + 1)
            },
            (listing, _) => listing,
        }
    }

    /// The positions of the Ledgers among the devices that were found last, once the search is
    /// over.
    pub fn finish(self) -> (found: Result<Vec<usize>, LedgerBleError>)
        requires
            self@ is Done,
        ensures
            outcome(found) == self@->Done_0,
    {
        match self {
            Listing::Done(found) => found,
            _ => vstd::pervasive::unreached(),
        }
    }
}

/// A search is over if and only if there is nothing more to be done, and then nothing more can
/// come of it.
pub proof fn listing_over_is_final(listing: ListingView, event: ListEventView)
    ensures
        listing is Done <==> listing.action() is None,
        listing is Done ==> !listing.accepts(event),
{
}

/// Any failure of the Bluetooth stack that is provided for ends the search with just that
/// failure.
pub proof fn failure_ends_listing(listing: ListingView, reason: Seq<char>)
    requires
        listing.accepts(ListEventView::Failed(reason)),
    ensures
        listing.after(ListEventView::Failed(reason)) == ListingView::Done(
            Err(ErrorView::Bluetooth(reason)),
        ),
{
}

/// What comes of a search with some adapters that all work: `scans` are the devices that they
/// find, for as many of the adapters as are asked.
pub open spec fn scan_events(
    count: usize,
    scans: Seq<Seq<Option<u128>>>,
) -> Seq<ListEventView>
    decreases scans.len(),
{
    if scans.len() == 0 {
        seq![ListEventView::Adapters(count)]
    } else {
        scan_events(count, scans.drop_last()) + seq![
            ListEventView::Done,
            ListEventView::Done,
            ListEventView::Peripherals(scans.last()),
        ]
    }
}

/// As long as the adapters find nothing they are asked one after the other, and if none finds
/// anything the list is empty.
pub proof fn nothing_is_found(count: usize, scans: Seq<Seq<Option<u128>>>)
    requires
        scans.len() <= count,
        forall|i: int| 0 <= i < scans.len() ==> (#[trigger] scans[i]).len() == 0,
    ensures
        ListingView::Adapters.run(scan_events(count, scans)) == ListingView::at(
            count,
            scans.len() as int,
        ),
    decreases scans.len(),
{
    reveal_with_fuel(ListingView::run, 4);
    let events = scan_events(count, scans);
    if scans.len() == 0 {
        assert(events.drop_last() == Seq::<ListEventView>::empty());
    } else {
        let before = scans.drop_last();
        assert(forall|i: int| 0 <= i < before.len() ==> before[i] == scans[i]);
        nothing_is_found(count, before);
        scan_of_an_adapter(count, scans);
    }
}

proof fn scan_of_an_adapter(count: usize, scans: Seq<Seq<Option<u128>>>)
    requires
        scans.len() > 0,
    ensures
        ListingView::Adapters.run(scan_events(count, scans)) == ListingView::Adapters.run(
            scan_events(count, scans.drop_last()),
        ).after(ListEventView::Done).after(ListEventView::Done).after(
            ListEventView::Peripherals(scans.last()),
        ),
{
    reveal_with_fuel(ListingView::run, 4);
    let events = scan_events(count, scans);
    let before = scan_events(count, scans.drop_last());
    assert(events.drop_last() == before + seq![ListEventView::Done, ListEventView::Done]);
    assert(events.drop_last().drop_last() == before + seq![ListEventView::Done]);
    assert(events.drop_last().drop_last().drop_last() == before);
}

/// The list is that of the Ledgers among the devices of the first adapter that finds any, even
/// if none of them is a Ledger and other adapters would find some.
pub proof fn first_adapter_decides(count: usize, scans: Seq<Seq<Option<u128>>>)
    requires
        0 < scans.len() <= count,
        forall|i: int| 0 <= i < scans.len() - 1 ==> (#[trigger] scans[i]).len() == 0,
        scans.last().len() > 0,
    ensures
        ListingView::Adapters.run(scan_events(count, scans)) == ListingView::Done(
            Ok(ledgers(scans.last())),
        ),
{
    let before = scans.drop_last();
    assert(forall|i: int| 0 <= i < before.len() ==> before[i] == scans[i]);
    nothing_is_found(count, before);
    scan_of_an_adapter(count, scans);
}

/// What is done in a search, action by action. First the adapters are counted. Then, for as long
/// as none has found a device, each of them in turn is made to scan, two seconds are waited, and
/// it is asked for the devices that it has found. If it has found any, the search is over, and
/// has come to the positions of those with the identifier of a Nano X. If it has not, the next
/// one is made to scan, or the search is over and has come to nothing.
pub proof fn listing_actions(
    count: usize,
    scans: Seq<Seq<Option<u128>>>,
    ids: Seq<Option<u128>>,
)
    requires
        scans.len() < count,
        forall|i: int| 0 <= i < scans.len() ==> (#[trigger] scans[i]).len() == 0,
        ids.len() <= usize::MAX,
    ensures
        ListingView::Adapters.action() == Some(ListAction::Adapters),
        ({
            let i = scans.len() as usize;
            let at = ListingView::Adapters.run(scan_events(count, scans));
            let scanning = at.after(ListEventView::Done);
            let scanned = scanning.after(ListEventView::Done);
            let asked = scanned.after(ListEventView::Peripherals(ids));
            &&& at.action() == Some(ListAction::StartScan(i))
            &&& scanning.action() == Some(ListAction::Sleep(2))
            &&& scanned.action() == Some(ListAction::Peripherals(i))
            &&& ids.len() == 0 && i + 1 < count ==> asked.action() == Some(
                ListAction::StartScan((i + 1) as usize),
            )
            &&& ids.len() == 0 && i + 1 == count ==> {
                &&& asked.action() is None
                &&& asked == ListingView::Done(Ok(Seq::empty()))
            }
            &&& ids.len() > 0 ==> {
                &&& asked.action() is None
                &&& asked matches ListingView::Done(Ok(found)) && is_list_of_nano_x(ids, found)
            }
        }),
{
    nothing_is_found(count, scans);
    nano_x_is_found(ids);
}

/// Whether some positions are those of the devices with the identifier of a Nano X, each once
/// and in their order.
pub open spec fn is_list_of_nano_x(ids: Seq<Option<u128>>, found: Seq<usize>) -> bool {
    &&& forall|i: int|
        0 <= i < ids.len() ==> (found.contains(i as usize) <==> #[trigger] ids[i] == Some(
            0x9c332c11_e85b_3c29_536c_50c4d347ed4du128,
        ))
    &&& forall|k: int| 0 <= k < found.len() ==> #[trigger] found[k] < ids.len()
    &&& forall|j: int, k: int|
        0 <= j < k < found.len() ==> #[trigger] found[j] < #[trigger] found[k]
}

/// Without any adapter the search is over and has come to nothing.
pub proof fn no_adapter()
    ensures
        ListingView::Adapters.after(ListEventView::Adapters(0)) == ListingView::Done(
            Ok(Seq::empty()),
        ),
{
}

/// What can come of each action of a search: of counting the adapters their number, of asking an
/// adapter the devices, of either a failure; of all others only their success; and of nothing
/// nothing.
pub proof fn listing_events(listing: ListingView, event: ListEventView)
    ensures
        listing.accepts(event) <==> match listing.action() {
            Some(ListAction::Adapters) => event is Adapters || event is Failed,
            Some(ListAction::StartScan(_)) => event is Done,
            Some(ListAction::Sleep(_)) => event is Done,
            Some(ListAction::Peripherals(_)) => event is Peripherals || event is Failed,
            None => false,
        },
{
}

/// Searches and events and their mathematical values are of one kind, and hold the same.
pub proof fn listings_keep_their_kind(listing: Listing, event: ListEvent)
    ensures
        listing is Adapters <==> listing@ is Adapters,
        listing matches Listing::Done(found) ==> listing@ == ListingView::Done(outcome(found)),
        event is Done <==> event@ is Done,
        event matches ListEvent::Adapters(count) ==> event@ == ListEventView::Adapters(count),
        event matches ListEvent::Peripherals(ids) ==> event@ == ListEventView::Peripherals(ids@),
        event matches ListEvent::Failed(reason) ==> event@ == ListEventView::Failed(reason@),
{
}

} // verus!
