//! One request to the device and its response, step by step.
//!
//! A [`Transfer`] does no input or output of its own: it says what is to be done next, and is
//! told what came of it.
use vstd::prelude::*;
use vstd::slice::slice_to_vec;

use crate::device::TransportNativeBle;
use crate::error::{outcome, ErrorView, LedgerBleError};
use crate::request::{
    request_bytes, views, Request, RequestView, APDU_COMMAND_TAG, MTU_COMMAND_TAG,
};
use crate::response::{
    needs_more, needs_more_prefix, read_response, Reading, ReadingView, Response, ResponseView,
};

verus! {

/// The packet size with which the device is asked for the packet size that it takes.
pub const INITIAL_MTU: u8 = 0xff;

/// Something to be done on the link to the device.
#[derive(Debug)]
pub enum Action {
    /// Subscribe to the notifications of the characteristic.
    Subscribe(usize),
    /// Write the packet to the characteristic, and have the device confirm it.
    Write(usize, Vec<u8>),
    /// Open the stream of notifications.
    Notifications,
    /// Wait for the next notification of the stream that was opened last.
    NextNotification,
}

/// What came of an [`Action`].
#[derive(Debug)]
pub enum Event {
    /// The subscription, the write or the opening of the stream succeeded.
    Done,
    /// A notification with this value came.
    Notification(Vec<u8>),
    /// The action failed, for the reason that the Bluetooth stack gave.
    Failed(String),
}

/// The mathematical value of an [`Action`].
pub enum ActionView {
    Subscribe(usize),
    Write(usize, Seq<u8>),
    Notifications,
    NextNotification,
}

/// The mathematical value of an [`Event`].
pub enum EventView {
    Done,
    Notification(Seq<u8>),
    Failed(Seq<char>),
}

impl View for Action {
    type V = ActionView;

    open spec fn view(&self) -> ActionView {
        match *self {
            Action::Subscribe(characteristic) => ActionView::Subscribe(characteristic),
            Action::Write(characteristic, packet) => ActionView::Write(characteristic, packet@),
            Action::Notifications => ActionView::Notifications,
            Action::NextNotification => ActionView::NextNotification,
        }
    }
}

impl View for Event {
    type V = EventView;

    open spec fn view(&self) -> EventView {
        match *self {
            Event::Done => EventView::Done,
            Event::Notification(packet) => EventView::Notification(packet@),
            Event::Failed(reason) => EventView::Failed(reason@),
        }
    }
}

/// The mathematical value of an action that may be there.
pub open spec fn action_view(action: Option<Action>) -> Option<ActionView> {
    match action {
        Some(action) => Some(action@),
        None => None,
    }
}

#[derive(Debug)]
enum Stage {
    Subscribe,
    Write(usize),
    Notifications,
    Read(Response),
    Done(Result<Vec<u8>, LedgerBleError>),
}

/// A request on its way to the device, or its response on the way back.
#[derive(Debug)]
pub struct Transfer {
    link: TransportNativeBle,
    packets: Vec<Vec<u8>>,
    stage: Stage,
}

/// How far a transfer has come.
pub enum StageView {
    /// The notifications are to be subscribed to.
    Subscribe,
    /// The packet at this position is to be written.
    Write(int),
    /// The stream of notifications is to be opened.
    Notifications,
    /// The response is being read.
    Read(ResponseView),
    /// The transfer is over.
    Done(Result<Seq<u8>, ErrorView>),
}

/// The mathematical value of a [`Transfer`].
pub struct TransferView {
    pub link: TransportNativeBle,
    pub packets: Seq<Seq<u8>>,
    pub stage: StageView,
}

impl View for Transfer {
    type V = TransferView;

    closed spec fn view(&self) -> TransferView {
        TransferView {
            link: self.link,
            packets: views(self.packets@),
            stage: match self.stage {
                Stage::Subscribe => StageView::Subscribe,
                Stage::Write(i) => StageView::Write(i as int),
                Stage::Notifications => StageView::Notifications,
                Stage::Read(response) => StageView::Read(response@),
                Stage::Done(Ok(payload)) => StageView::Done(Ok(payload@)),
                Stage::Done(Err(error)) => StageView::Done(Err(error@)),
            },
        }
    }
}

impl StageView {
    /// The stage of a transfer whose response has come this far.
    pub open spec fn of_reading(reading: Result<ReadingView, ErrorView>) -> StageView {
        match reading {
            Ok(ReadingView::More(response)) => StageView::Read(response),
            Ok(ReadingView::Done(payload)) => StageView::Done(Ok(payload)),
            Err(error) => StageView::Done(Err(error)),
        }
    }
}

impl TransferView {
    /// A transfer of some packets of which nothing is done yet.
    pub open spec fn start(link: TransportNativeBle, packets: Seq<Seq<u8>>) -> TransferView {
        TransferView { link, packets, stage: StageView::Subscribe }
    }

    /// There is at least one packet, the one to be written is among them, and a response that
    /// is being read is well formed.
    pub open spec fn wf(self) -> bool {
        &&& self.packets.len() > 0
        &&& self.stage matches StageView::Write(i) ==> 0 <= i < self.packets.len()
        &&& self.stage matches StageView::Read(response) ==> response.wf()
    }

    /// What is to be done next, if the transfer is not over: packets go to the characteristic
    /// for writing, the subscription to the one for notifications.
    pub open spec fn action(self) -> Option<ActionView> {
        match self.stage {
            StageView::Subscribe => Some(ActionView::Subscribe(self.link.notify_characteristic)),
            StageView::Write(i) => Some(
                ActionView::Write(self.link.write_characteristic, self.packets[i]),
            ),
            StageView::Notifications => Some(ActionView::Notifications),
            StageView::Read(_) => Some(ActionView::NextNotification),
            StageView::Done(_) => None,
        }
    }

    /// Whether an event can come of what is to be done next.
    pub open spec fn accepts(self, event: EventView) -> bool {
        match self.stage {
            StageView::Subscribe | StageView::Write(_) | StageView::Notifications => !(
            event is Notification),
            StageView::Read(_) => event is Notification,
            StageView::Done(_) => false,
        }
    }

    /// The transfer after an event: the packets are written one by one once the subscription is
    /// made, and then the response is read. A failure ends the transfer.
    pub open spec fn after(self, event: EventView) -> TransferView {
        TransferView {
            stage: match (event, self.stage) {
                (EventView::Failed(reason), _) => StageView::Done(
                    Err(ErrorView::Bluetooth(reason)),
                ),
                (EventView::Notification(packet), StageView::Read(response)) =>
                    StageView::of_reading(response.read(packet)),
                (EventView::Done, StageView::Subscribe) => StageView::Write(0),
                (EventView::Done, StageView::Write(i)) => if i + 1 < self.packets.len() {
                    StageView::Write(i + 1)
                } else {
                    StageView::Notifications
                },
                (EventView::Done, StageView::Notifications) => StageView::Read(
                    ResponseView::start(),
                ),
                _ => self.stage,
            },
            ..self
        }
    }
}

impl Transfer {
    /// What is to be done next; nothing if the transfer is over.
    pub fn action(&self) -> (action: Option<Action>)
        requires
            self@.wf(),
        ensures
            action_view(action) == self@.action(),
            action matches Some(Action::Write(characteristic, packet)) ==> {
                &&& characteristic == self@.link.write_characteristic
                &&& self@.packets.contains(packet@)
            },
            action matches Some(Action::Subscribe(characteristic)) ==> characteristic
                == self@.link.notify_characteristic,
    {
        match &self.stage {
            Stage::Subscribe => Some(Action::Subscribe(self.link.notify_characteristic)),
            Stage::Write(i) => Some(
                Action::Write(
                    self.link.write_characteristic,
                    slice_to_vec(self.packets[*i].as_slice()),
                ),
            ),
            Stage::Notifications => Some(Action::Notifications),
            Stage::Read(_) => Some(Action::NextNotification),
            Stage::Done(_) => None,
        }
    }

    /// Whether the event can come of what is to be done next.
    pub fn accepts(&self, event: &Event) -> (accepted: bool)
        ensures
            accepted == self@.accepts(event@),
    {
        let notified = match event {
            Event::Notification(_) => true,
            _ => false,
        };
        match &self.stage {
            Stage::Subscribe => !notified,
            Stage::Write(_) => !notified,
            Stage::Notifications => !notified,
            Stage::Read(_) => notified,
            Stage::Done(_) => false,
        }
    }

    /// The transfer after an event.
    pub fn step(self, event: Event) -> (transfer: Transfer)
        requires
            self@.wf(),
            self@.accepts(event@),
        ensures
            transfer@.wf(),
            transfer@ == self@.after(event@),
    {
        let Transfer { link, packets, stage } = self;
        let stage = match event {
            Event::Failed(reason) => Stage::Done(Err(LedgerBleError::Bluetooth(reason))),
            Event::Notification(packet) => match stage {
                Stage::Read(response) => match response.read(packet) {
                    Ok(Reading::More(response)) => Stage::Read(response),
                    Ok(Reading::Done(payload)) => Stage::Done(Ok(payload)),
                    Err(error) => Stage::Done(Err(error)),
                },
                stage => stage,
            },
            Event::Done => match stage {
                Stage::Subscribe => Stage::Write(0),
                Stage::Write(i) => if i < packets.len() - 1 {
                    Stage::Write(i + 1)
                } else {
                    Stage::Notifications
                },
                Stage::Notifications => Stage::Read(Response::new()),
                stage => stage,
            },
        };
        Transfer { link, packets, stage }
    }
}

impl RequestView {
    /// The request for the packet size that the device takes.
    pub open spec fn mtu() -> RequestView {
        RequestView { command_tag: MTU_COMMAND_TAG, payload: Seq::empty() }
    }

    /// The request that carries an APDU.
    pub open spec fn apdu(bytes: Seq<u8>) -> RequestView {
        RequestView { command_tag: APDU_COMMAND_TAG, payload: bytes }
    }
}

impl TransportNativeBle {
    /// Starts to send a request in packets of at most `mtu` bytes of its payload.
    pub fn write_request(&self, request: Request, mtu: u8) -> (transfer: Transfer)
        requires
            request@.can_be_cut(mtu),
        ensures
            transfer@.wf(),
            transfer@ == TransferView::start(*self, request@.packets(mtu)),
            transfer@.link == *self,
            transfer@.packets == request@.packets(mtu),
    {
        Transfer { link: *self, packets: request.serialize(mtu), stage: Stage::Subscribe }
    }

    /// Starts to ask the device for the packet size that it takes. The first byte of the
    /// response is that size.
    pub fn get_mtu(&self) -> (transfer: Transfer)
        ensures
            transfer@.wf(),
            transfer@ == TransferView::start(*self, RequestView::mtu().packets(INITIAL_MTU)),
            transfer@.link == *self,
            transfer@.packets == seq![seq![0x08u8, 0u8, 0u8, 0u8, 0u8]],
    {
        proof {
            mtu_request(INITIAL_MTU);
        }
        let request = Request { command_tag: MTU_COMMAND_TAG, payload: Vec::new() };
        assert(request@ == RequestView::mtu());
        self.write_request(request, INITIAL_MTU)
    }

    /// Starts to send an APDU in packets of at most `mtu` bytes of it.
    pub fn write_apdu(&self, apdu_command: Vec<u8>, mtu: u8) -> (transfer: Transfer)
        requires
            RequestView::apdu(apdu_command@).can_be_cut(mtu),
        ensures
            transfer@.wf(),
            transfer@ == TransferView::start(
                *self,
                RequestView::apdu(apdu_command@).packets(mtu),
            ),
            transfer@.link == *self,
            transfer@.packets == (RequestView {
                command_tag: 0x05,
                payload: apdu_command@,
            }).packets(mtu),
    {
        let request = Request { command_tag: APDU_COMMAND_TAG, payload: apdu_command };
        self.write_request(request, mtu)
    }
}

impl Transfer {
    /// The response, once the transfer is over.
    pub fn finish(self) -> (response: Result<Vec<u8>, LedgerBleError>)
        requires
            self@.stage is Done,
        ensures
            outcome(response) == self@.stage->Done_0,
    {
        match self.stage {
            Stage::Done(response) => response,
            _ => vstd::pervasive::unreached(),
        }
    }
}

impl Transfer {
    /// The packet size that the device takes, once it was asked for it and has answered: the
    /// first byte of its response.
    pub fn finish_mtu(self) -> (mtu: Result<u8, LedgerBleError>)
        requires
            self@.stage is Done,
            self@.stage->Done_0 matches Ok(response) ==> response.len() > 0,
        ensures
            match (mtu, self@.stage->Done_0) {
                (Ok(size), Ok(response)) => size == response[0],
                (Err(e), Err(error)) => e@ == error,
                _ => false,
            },
    {
        match self.finish() {
            Ok(response) => Ok(response[0]),
            Err(error) => Err(error),
        }
    }
}

impl Transfer {
    /// The link that the transfer takes place on.
    pub(crate) fn link(&self) -> (link: TransportNativeBle)
        ensures
            link == self@.link,
    {
        self.link
    }

    /// Whether the transfer is over with a response.
    pub(crate) fn is_answered(&self) -> (answered: bool)
        ensures
            answered == (self@.stage is Done && self@.stage->Done_0 is Ok),
    {
        match &self.stage {
            Stage::Done(Ok(_)) => true,
            _ => false,
        }
    }

    /// The response that a notification would complete, if it would.
    pub(crate) fn response_with(&self, packet: &Vec<u8>) -> (response: Option<Vec<u8>>)
        requires
            self@.stage is Read,
        ensures
            match response {
                Some(payload) => self@.after(EventView::Notification(packet@)).stage
                    == StageView::Done(Ok(payload@)),
                None => !(self@.after(EventView::Notification(packet@)).stage matches StageView::Done(
                    Ok(_),
                )),
            },
    {
        match &self.stage {
            Stage::Read(response) => {
                let copy = Response {
                    data_length: response.data_length,
                    buffer: slice_to_vec(response.buffer.as_slice()),
                };
                match copy.read(slice_to_vec(packet.as_slice())) {
                    Ok(Reading::Done(payload)) => Some(payload),
                    _ => None,
                }
            },
            _ => vstd::pervasive::unreached(),
        }
    }
}

impl TransferView {
    /// The transfer after some events, one after the other.
    pub open spec fn run(self, events: Seq<EventView>) -> TransferView
        decreases events.len(),
    {
        if events.len() == 0 {
            self
        } else {
            self.run(events.drop_last()).after(events.last())
        }
    }
}

/// What comes of a transfer of `count` packets on a link that does not fail, when the device
/// notifies `answers`.
pub open spec fn undisturbed(count: nat, answers: Seq<Seq<u8>>) -> Seq<EventView> {
    Seq::new(
        count + 2 + answers.len(),
        |i: int|
            if i < count + 2 {
                EventView::Done
            } else {
                EventView::Notification(answers[i - count - 2])
            },
    )
}

/// The stage that a transfer of `count` packets has reached after so many events of an
/// undisturbed one.
pub open spec fn undisturbed_stage(count: nat, answers: Seq<Seq<u8>>, events: int) -> StageView {
    if events == 0 {
        StageView::Subscribe
    } else if events <= count {
        StageView::Write(events - 1)
    } else if events == count + 1 {
        StageView::Notifications
    } else {
        StageView::of_reading(read_response(answers.take(events - count - 2)))
    }
}

/// On a link that does not fail a transfer subscribes, writes all packets in order, opens the
/// stream, and then reads notifications until the response that they make up ends. It ends as
/// that response does.
pub proof fn undisturbed_transfer(
    link: TransportNativeBle,
    packets: Seq<Seq<u8>>,
    answers: Seq<Seq<u8>>,
    events: int,
)
    requires
        packets.len() > 0,
        answers.len() > 0 ==> needs_more(answers.drop_last()),
        0 <= events <= undisturbed(packets.len(), answers).len(),
    ensures
        TransferView::start(link, packets).run(
            undisturbed(packets.len(), answers).take(events),
        ) == (TransferView {
            link,
            packets,
            stage: undisturbed_stage(packets.len(), answers, events),
        }),
        events < undisturbed(packets.len(), answers).len() ==> TransferView::start(
            link,
            packets,
        ).run(undisturbed(packets.len(), answers).take(events)).accepts(
            undisturbed(packets.len(), answers)[events],
        ),
    decreases events,
{
    let script = undisturbed(packets.len(), answers);
    let read = events - packets.len() - 2;
    if events > 0 {
        undisturbed_transfer(link, packets, answers, events - 1);
        assert(script.take(events).drop_last() == script.take(events - 1));
        if read == 0 {
            assert(answers.take(0) == Seq::<Seq<u8>>::empty());
        } else if read > 0 {
            needs_more_prefix(answers.drop_last(), read - 1);
            assert(answers.drop_last().take(read - 1) == answers.take(read - 1));
            assert(answers.take(read).drop_last() == answers.take(read - 1));
        }
    }
    if 0 <= read < answers.len() {
        needs_more_prefix(answers.drop_last(), read);
        assert(answers.drop_last().take(read) == answers.take(read));
    }
}

/// What is done on a link that does not fail, action by action: the characteristic for
/// notifications is subscribed to, the packets are written one by one to the characteristic for
/// writing, the stream of notifications is opened, and notifications are awaited for as long as
/// the response that they make up needs more. Then nothing more is done, and the transfer has
/// come to what the response came to.
pub proof fn transfer_actions(
    link: TransportNativeBle,
    packets: Seq<Seq<u8>>,
    answers: Seq<Seq<u8>>,
    events: int,
)
    requires
        packets.len() > 0,
        answers.len() > 0 ==> needs_more(answers.drop_last()),
        0 <= events <= packets.len() + 2 + answers.len(),
    ensures
        ({
            let transfer = TransferView::start(link, packets).run(
                undisturbed(packets.len(), answers).take(events),
            );
            let read = read_response(answers.take(events - packets.len() - 2));
            &&& events == 0 ==> transfer.action() == Some(
                ActionView::Subscribe(link.notify_characteristic),
            )
            &&& 1 <= events <= packets.len() ==> transfer.action() == Some(
                ActionView::Write(link.write_characteristic, packets[events - 1]),
            )
            &&& events == packets.len() + 1 ==> transfer.action() == Some(ActionView::Notifications)
            &&& events >= packets.len() + 2 ==> match read {
                Ok(ReadingView::More(_)) => transfer.action() == Some(ActionView::NextNotification)
                    && !(transfer.stage is Done),
                Ok(ReadingView::Done(payload)) => transfer.action() is None && transfer.stage
                    == StageView::Done(Ok(payload)),
                Err(error) => transfer.action() is None && transfer.stage == StageView::Done(
                    Err(error),
                ),
            }
            &&& events < packets.len() + 2 ==> !(transfer.stage is Done)
        }),
{
    undisturbed_transfer(link, packets, answers, events);
}

/// Whatever state a transfer is in, it writes to the characteristic for writing only, and
/// subscribes to the one for notifications only.
pub proof fn characteristics_are_kept_apart(transfer: TransferView)
    ensures
        transfer.action() matches Some(ActionView::Write(characteristic, packet)) ==> {
            &&& characteristic == transfer.link.write_characteristic
            &&& transfer.wf() ==> transfer.packets.contains(packet)
        },
        transfer.action() matches Some(ActionView::Subscribe(characteristic)) ==> characteristic
            == transfer.link.notify_characteristic,
{
}

/// A step changes neither the link nor the packets.
pub proof fn link_is_kept(transfer: TransferView, event: EventView)
    ensures
        transfer.after(event).link == transfer.link,
        transfer.after(event).packets == transfer.packets,
{
}

/// What can come of each action: of waiting for a notification only a notification, of all
/// others only their success or failure, and of nothing nothing.
pub proof fn transfer_events(transfer: TransferView, event: EventView)
    ensures
        transfer.action() is None ==> !transfer.accepts(event),
        transfer.action() == Some(ActionView::NextNotification) ==> (transfer.accepts(event)
            <==> event is Notification),
        transfer.action() is Some && !(transfer.action() == Some(ActionView::NextNotification))
            ==> (transfer.accepts(event) <==> event is Done || event is Failed),
        transfer.action() is None <==> transfer.stage is Done,
{
}

/// A failure of the Bluetooth stack ends a transfer with just that failure.
pub proof fn failure_ends_transfer(transfer: TransferView, reason: Seq<char>)
    ensures
        transfer.after(EventView::Failed(reason)).stage == StageView::Done(
            Err::<Seq<u8>, ErrorView>(ErrorView::Bluetooth(reason)),
        ),
        transfer.after(EventView::Failed(reason)).action() is None,
{
}

/// The request for the packet size is the one packet 08 00 00 00 00, whatever size it is cut to.
pub proof fn mtu_request(mtu: u8)
    requires
        mtu > 0,
    ensures
        RequestView::mtu().packets(mtu) == seq![seq![0x08u8, 0u8, 0u8, 0u8, 0u8]],
{
    let request = RequestView::mtu();
    request_bytes(request, mtu);
    assert(request.packets(mtu).len() == 1);
    assert(request.packets(mtu)[0].len() == 5);
    assert(request.packets(mtu)[0] =~= seq![0x08u8, 0u8, 0u8, 0u8, 0u8]);
}

/// Actions and events and their mathematical values are of one kind, and hold the same
/// characteristics, bytes and texts.
pub proof fn actions_keep_their_kind(action: Action, event: Event)
    ensures
        action_view(None) is None,
        action_view(Some(action)) == Some(action@),
        action matches Action::Subscribe(c) ==> action@ == ActionView::Subscribe(c),
        action matches Action::Write(c, packet) ==> action@ == ActionView::Write(c, packet@),
        action is Notifications <==> action@ is Notifications,
        action is NextNotification <==> action@ is NextNotification,
        event is Done <==> event@ is Done,
        event matches Event::Notification(packet) ==> event@ == EventView::Notification(packet@),
        event matches Event::Failed(reason) ==> event@ == EventView::Failed(reason@),
{
}

} // verus!
