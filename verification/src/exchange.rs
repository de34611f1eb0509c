//! A command to the device and its answer, step by step.
//!
//! Every exchange consists of two transfers: the device is first asked for the packet size that
//! it takes, and then given the command in packets of that size.
use vstd::prelude::*;

use crate::apdu::{APDUAnswer, APDUCommand, AnswerView};
use crate::device::TransportNativeBle;
use crate::error::{outcome, ErrorView, LedgerBleError};
use crate::request::{can_be_cut, request_bytes, RequestView};
use crate::response::{
    invalid_response, message_read_back, needs_more, needs_more_prefix, read_response, ReadingView,
};
use crate::transfer::{
    action_view, characteristics_are_kept_apart, link_is_kept, mtu_request, transfer_actions,
    transfer_events, undisturbed, undisturbed_stage, undisturbed_transfer, Action, ActionView,
    Event, EventView, StageView, Transfer, TransferView, INITIAL_MTU,
};

verus! {

/// An exchange in progress.
#[derive(Debug)]
pub struct Exchange {
    transfer: Transfer,
    /// The command, until the packet size is known that it can be sent with.
    command: Option<Vec<u8>>,
}

/// The mathematical value of an [`Exchange`].
pub struct ExchangeView {
    pub transfer: TransferView,
    pub command: Option<Seq<u8>>,
}

impl View for Exchange {
    type V = ExchangeView;

    closed spec fn view(&self) -> ExchangeView {
        ExchangeView {
            transfer: self.transfer@,
            command: match self.command {
                Some(command) => Some(command@),
                None => None,
            },
        }
    }
}

/// Whether a response to the request for the packet size lets a command be sent: its first byte
/// is the size, and that size allows for the length of the command.
pub open spec fn is_usable_mtu(response: Seq<u8>, command: Seq<u8>) -> bool {
    response.len() > 0 && RequestView::apdu(command).can_be_cut(response[0])
}

impl ExchangeView {
    /// The exchange of a command of which nothing is done yet.
    pub open spec fn start(link: TransportNativeBle, command: Seq<u8>) -> ExchangeView {
        ExchangeView {
            transfer: TransferView::start(link, RequestView::mtu().packets(INITIAL_MTU)),
            command: Some(command),
        }
    }

    /// The transfer is well formed, and not over with a response as long as the command is not
    /// sent.
    pub open spec fn wf(self) -> bool {
        &&& self.transfer.wf()
        &&& self.command is Some ==> !(self.transfer.stage matches StageView::Done(Ok(_)))
    }

    /// What is to be done next, if the exchange is not over.
    pub open spec fn action(self) -> Option<ActionView> {
        self.transfer.action()
    }

    /// Whether an event can come of what is to be done next. A response to the request for the
    /// packet size has to be one that the command can be sent with.
    pub open spec fn accepts(self, event: EventView) -> bool {
        &&& self.transfer.accepts(event)
        &&& match (self.command, self.transfer.after(event).stage) {
            (Some(command), StageView::Done(Ok(response))) => is_usable_mtu(response, command),
            _ => true,
        }
    }

    /// The exchange after an event: once the packet size is known, the command is sent with it.
    pub open spec fn after(self, event: EventView) -> ExchangeView {
        let transfer = self.transfer.after(event);
        match (self.command, transfer.stage) {
            (Some(command), StageView::Done(Ok(response))) => ExchangeView {
                transfer: TransferView::start(
                    transfer.link,
                    RequestView::apdu(command).packets(response[0]),
                ),
                command: None,
            },
            _ => ExchangeView { transfer, command: self.command },
        }
    }

    /// What the exchange came to, once it is over: the answer that the response to the command
    /// stands for, or what went wrong on the way.
    pub open spec fn result(self) -> Option<Result<AnswerView, ErrorView>> {
        match self.transfer.stage {
            StageView::Done(Ok(response)) => Some(AnswerView::parse(response)),
            StageView::Done(Err(error)) => Some(Err(error)),
            _ => None,
        }
    }

    /// The exchange after some events, one after the other.
    pub open spec fn run(self, events: Seq<EventView>) -> ExchangeView
        decreases events.len(),
    {
        if events.len() == 0 {
            self
        } else {
            self.run(events.drop_last()).after(events.last())
        }
    }
}

impl TransportNativeBle {
    /// Starts to send a command to the device and to receive its answer.
    pub fn exchange(&self, command: &APDUCommand) -> (exchange: Exchange)
        requires
            command@.data.len() + 5 <= isize::MAX,
        ensures
            exchange@.wf(),
            exchange@ == ExchangeView::start(*self, command@.bytes()),
    {
        Exchange { transfer: self.get_mtu(), command: Some(command.serialize()) }
    }
}

impl Exchange {
    /// What is to be done next; nothing if the exchange is over.
    pub fn action(&self) -> (action: Option<Action>)
        requires
            self@.wf(),
        ensures
            action_view(action) == self@.action(),
    {
        self.transfer.action()
    }

    /// Whether the event can come of what is to be done next.
    pub fn accepts(&self, event: &Event) -> (accepted: bool)
        requires
            self@.wf(),
        ensures
            accepted == self@.accepts(event@),
    {
        if !self.transfer.accepts(event) {
            return false;
        }
        match (&self.command, event) {
            (Some(command), Event::Notification(packet)) => match self.transfer.response_with(
                packet,
            ) {
                Some(response) => response.len() > 0 && can_be_cut(command.len(), response[0]),
                None => true,
            },
            _ => true,
        }
    }

    /// The exchange after an event.
    pub fn step(self, event: Event) -> (exchange: Exchange)
        requires
            self@.wf(),
            self@.accepts(event@),
        ensures
            exchange@.wf(),
            exchange@ == self@.after(event@),
    {
        let Exchange { transfer, command } = self;
        let transfer = transfer.step(event);
        match command {
            Some(command) => if transfer.is_answered() {
                let link = transfer.link();
                match transfer.finish_mtu() {
                    Ok(mtu) => Exchange { transfer: link.write_apdu(command, mtu), command: None },
                    Err(_) => vstd::pervasive::unreached(),
                }
            } else {
                Exchange { transfer, command: Some(command) }
            },
            None => Exchange { transfer, command: None },
        }
    }

    /// The answer of the device, once the exchange is over.
    pub fn finish(self) -> (answer: Result<APDUAnswer, LedgerBleError>)
        requires
            self@.result() is Some,
        ensures
            self@.result() == Some(outcome(answer)),
    {
        match self.transfer.finish() {
            Ok(response) => APDUAnswer::from_answer(response),
            Err(error) => Err(error),
        }
    }
}

/// An exchange is over if and only if there is nothing more to be done, and then nothing more
/// can come of it.
pub proof fn over_is_final(exchange: ExchangeView, event: EventView)
    ensures
        exchange.result() is Some <==> exchange.action() is None,
        exchange.result() is Some ==> !exchange.accepts(event),
{
}

/// Any failure of the Bluetooth stack ends the exchange with just that failure.
pub proof fn failure_ends_exchange(exchange: ExchangeView, reason: Seq<char>)
    requires
        exchange.accepts(EventView::Failed(reason)),
    ensures
        exchange.after(EventView::Failed(reason)).result() == Some(
            Err::<AnswerView, ErrorView>(ErrorView::Bluetooth(reason)),
        ),
{
}

/// What comes of an exchange on a link that does not fail: `sizes` are the notifications on the
/// request for the packet size, and `answers` those on the command.
pub open spec fn undisturbed_events(
    command: Seq<u8>,
    mtu: u8,
    sizes: Seq<Seq<u8>>,
    answers: Seq<Seq<u8>>,
) -> Seq<EventView> {
    undisturbed(RequestView::mtu().packets(INITIAL_MTU).len(), sizes) + undisturbed(
        RequestView::apdu(command).packets(mtu).len(),
        answers,
    )
}

/// The state of an exchange on a link that does not fail after so many events: first the
/// request for the packet size is transferred, then the command.
pub open spec fn undisturbed_state(
    link: TransportNativeBle,
    command: Seq<u8>,
    mtu: u8,
    sizes: Seq<Seq<u8>>,
    answers: Seq<Seq<u8>>,
    events: int,
) -> ExchangeView {
    let ask = RequestView::mtu().packets(INITIAL_MTU);
    let tell = RequestView::apdu(command).packets(mtu);
    let asked = undisturbed(ask.len(), sizes).len();
    if events < asked {
        ExchangeView {
            transfer: TransferView {
                link,
                packets: ask,
                stage: undisturbed_stage(ask.len(), sizes, events),
            },
            command: Some(command),
        }
    } else {
        ExchangeView {
            transfer: TransferView {
                link,
                packets: tell,
                stage: undisturbed_stage(tell.len(), answers, events - asked),
            },
            command: None,
        }
    }
}

/// On a link that does not fail, and with a device that names a usable packet size, an exchange
/// transfers the request for that size and then the command, cut to the size. It ends as the
/// response to the command does.
pub proof fn undisturbed_exchange(
    link: TransportNativeBle,
    command: Seq<u8>,
    size: Seq<u8>,
    sizes: Seq<Seq<u8>>,
    answers: Seq<Seq<u8>>,
    events: int,
)
    requires
        sizes.len() > 0,
        needs_more(sizes.drop_last()),
        read_response(sizes) == Ok::<ReadingView, ErrorView>(ReadingView::Done(size)),
        is_usable_mtu(size, command),
        answers.len() > 0 ==> needs_more(answers.drop_last()),
        0 <= events <= undisturbed_events(command, size[0], sizes, answers).len(),
    ensures
        ExchangeView::start(link, command).run(
            undisturbed_events(command, size[0], sizes, answers).take(events),
        ) == undisturbed_state(link, command, size[0], sizes, answers, events),
        events < undisturbed_events(command, size[0], sizes, answers).len() ==> undisturbed_state(
            link,
            command,
            size[0],
            sizes,
            answers,
            events,
        ).accepts(undisturbed_events(command, size[0], sizes, answers)[events]),
    decreases events,
{
    let ask = RequestView::mtu().packets(INITIAL_MTU);
    let tell = RequestView::apdu(command).packets(size[0]);
    let asking = undisturbed(ask.len(), sizes);
    let telling = undisturbed(tell.len(), answers);
    let script = undisturbed_events(command, size[0], sizes, answers);
    assert(sizes.take(sizes.len() as int) == sizes);
    if events > 0 {
        undisturbed_exchange(link, command, size, sizes, answers, events - 1);
        assert(script.take(events).drop_last() == script.take(events - 1));
        if events <= asking.len() {
            undisturbed_transfer(link, ask, sizes, events - 1);
            undisturbed_transfer(link, ask, sizes, events);
            assert(asking.take(events).drop_last() == asking.take(events - 1));
        } else {
            let done = events - asking.len();
            undisturbed_transfer(link, tell, answers, done - 1);
            undisturbed_transfer(link, tell, answers, done);
            assert(telling.take(done).drop_last() == telling.take(done - 1));
        }
    }
    if events < asking.len() {
        undisturbed_transfer(link, ask, sizes, events);
        undisturbed_transfer(link, ask, sizes, events + 1);
        assert(asking.take(events + 1).drop_last() == asking.take(events));
    } else if events < script.len() {
        undisturbed_transfer(link, tell, answers, events - asking.len());
    }
}

/// A device that sends the packet size and the answer as messages of less than two to the
/// sixteenth bytes each, cut as it likes, is understood: the exchange ends with the answer that
/// the second message holds. The packets that were written to it for the command make up the
/// command, if that is not longer either.
pub proof fn exchange_is_answered(
    link: TransportNativeBle,
    command: Seq<u8>,
    size: RequestView,
    size_mtu: u8,
    answer: RequestView,
    answer_mtu: u8,
)
    requires
        size_mtu > 0,
        size.payload.len() < 0x10000,
        is_usable_mtu(size.payload, command),
        answer_mtu > 0,
        answer.payload.len() < 0x10000,
    ensures
        ExchangeView::start(link, command).run(
            undisturbed_events(
                command,
                size.payload[0],
                size.packets(size_mtu),
                answer.packets(answer_mtu),
            ),
        ).result() == Some(AnswerView::parse(answer.payload)),
        command.len() < 0x10000 ==> read_response(
            RequestView::apdu(command).packets(size.payload[0]),
        ) == Ok::<ReadingView, ErrorView>(ReadingView::Done(command)),
{
    let sizes = size.packets(size_mtu);
    let answers = answer.packets(answer_mtu);
    let script = undisturbed_events(command, size.payload[0], sizes, answers);
    message_read_back(size, size_mtu, sizes.len() - 1);
    message_read_back(size, size_mtu, sizes.len() as int);
    message_read_back(answer, answer_mtu, answers.len() - 1);
    message_read_back(answer, answer_mtu, answers.len() as int);
    assert(sizes.take(sizes.len() - 1) == sizes.drop_last());
    assert(answers.take(answers.len() - 1) == answers.drop_last());
    assert(answers.take(answers.len() as int) == answers);
    undisturbed_exchange(link, command, size.payload, sizes, answers, script.len() as int);
    assert(script.take(script.len() as int) == script);
    if command.len() < 0x10000 {
        let request = RequestView::apdu(command);
        message_read_back(request, size.payload[0], request.packets(size.payload[0]).len() as int);
    }
}

/// What is done in an exchange on a link that does not fail, action by action, with a device that
/// names a packet size (the first byte of its first response) that the command takes at most two
/// to the sixteenth packets of. The device is first sent 08 00 00 00 00, and then the packets of the request with the tag 0x05 that holds the command, cut to that size.
/// All packets are written to the characteristic for writing. Before the packets of each request
/// the characteristic for notifications is subscribed to; after them the stream of notifications
/// is opened, and they are awaited for as long as the response needs more. What the exchange
/// comes to is the second response read as an answer.
pub proof fn exchange_actions(
    link: TransportNativeBle,
    command: Seq<u8>,
    size: Seq<u8>,
    sizes: Seq<Seq<u8>>,
    answers: Seq<Seq<u8>>,
    events: int,
)
    requires
        sizes.len() > 0,
        needs_more(sizes.drop_last()),
        read_response(sizes) == Ok::<ReadingView, ErrorView>(ReadingView::Done(size)),
        size.len() > 0,
        size[0] > 0,
        command.len() <= 0x10000 * size[0],
        answers.len() > 0 ==> needs_more(answers.drop_last()),
        0 <= events <= 3 + sizes.len() + (RequestView { command_tag: 0x05, payload: command }).packets(
            size[0],
        ).len() + 2 + answers.len(),
    ensures
        ({
            let packets = (RequestView { command_tag: 0x05, payload: command }).packets(size[0]);
            let exchange = ExchangeView::start(link, command).run(
                (undisturbed(1, sizes) + undisturbed(packets.len(), answers)).take(events),
            );
            let told = events - 3 - sizes.len();
            let read = read_response(answers.take(told - packets.len() - 2));
            &&& events == 0 || told == 0 ==> exchange.action() == Some(
                ActionView::Subscribe(link.notify_characteristic),
            )
            &&& events == 1 ==> exchange.action() == Some(
                ActionView::Write(link.write_characteristic, seq![0x08u8, 0u8, 0u8, 0u8, 0u8]),
            )
            &&& 1 <= told <= packets.len() ==> exchange.action() == Some(
                ActionView::Write(link.write_characteristic, packets[told - 1]),
            )
            &&& events == 2 || told == packets.len() + 1 ==> exchange.action() == Some(
                ActionView::Notifications,
            )
            &&& 3 <= events < 3 + sizes.len() ==> exchange.action() == Some(
                ActionView::NextNotification,
            )
            &&& told >= packets.len() + 2 ==> match read {
                Ok(ReadingView::More(_)) => exchange.action() == Some(ActionView::NextNotification)
                    && exchange.result() is None,
                Ok(ReadingView::Done(payload)) => exchange.action() is None && exchange.result()
                    == Some(AnswerView::parse(payload)),
                Err(error) => exchange.action() is None && exchange.result() == Some(
                    Err::<AnswerView, ErrorView>(error),
                ),
            }
            &&& told < packets.len() + 2 ==> exchange.result() is None
        }),
{
    mtu_request(INITIAL_MTU);
    let ask = RequestView::mtu().packets(INITIAL_MTU);
    let packets = RequestView::apdu(command).packets(size[0]);
    let told = events - 3 - sizes.len();
    request_bytes(RequestView::apdu(command), size[0]);
    assert(undisturbed(1, sizes) + undisturbed(packets.len(), answers) == undisturbed_events(
        command,
        size[0],
        sizes,
        answers,
    ));
    undisturbed_exchange(link, command, size, sizes, answers, events);
    if told < 0 {
        transfer_actions(link, ask, sizes, events);
        undisturbed_transfer(link, ask, sizes, events);
        if events >= 3 {
            needs_more_prefix(sizes.drop_last(), events - 3);
            assert(sizes.drop_last().take(events - 3) == sizes.take(events - 3));
        }
    } else {
        transfer_actions(link, packets, answers, told);
        undisturbed_transfer(link, packets, answers, told);
    }
}

proof fn asking(
    link: TransportNativeBle,
    command: Seq<u8>,
    sizes: Seq<Seq<u8>>,
    events: int,
)
    requires
        needs_more(sizes),
        0 <= events <= 3 + sizes.len(),
    ensures
        ExchangeView::start(link, command).run(undisturbed(1, sizes).take(events)) == (
        ExchangeView {
            transfer: TransferView::start(link, RequestView::mtu().packets(INITIAL_MTU)).run(
                undisturbed(1, sizes).take(events),
            ),
            command: Some(command),
        }),
    decreases events,
{
    mtu_request(INITIAL_MTU);
    let ask = RequestView::mtu().packets(INITIAL_MTU);
    if sizes.len() > 0 {
        needs_more_prefix(sizes, sizes.len() - 1);
        assert(sizes.take(sizes.len() - 1) == sizes.drop_last());
    }
    if events > 0 {
        asking(link, command, sizes, events - 1);
        assert(undisturbed(1, sizes).take(events).drop_last() == undisturbed(1, sizes).take(
            events - 1,
        ));
        transfer_actions(link, ask, sizes, events);
        if events >= 3 {
            needs_more_prefix(sizes, events - 3);
        }
    }
}

/// What is done until the packet size is known, and whatever it will be: the characteristic for
/// notifications is subscribed to, 08 00 00 00 00 is written to the one for writing, the stream
/// of notifications is opened, and they are awaited.
pub proof fn asking_actions(
    link: TransportNativeBle,
    command: Seq<u8>,
    sizes: Seq<Seq<u8>>,
    events: int,
)
    requires
        needs_more(sizes),
        0 <= events <= 3 + sizes.len(),
    ensures
        ({
            let exchange = ExchangeView::start(link, command).run(
                undisturbed(1, sizes).take(events),
            );
            &&& exchange.result() is None
            &&& exchange.action() == Some(
                if events == 0 {
                    ActionView::Subscribe(link.notify_characteristic)
                } else if events == 1 {
                    ActionView::Write(link.write_characteristic, seq![0x08u8, 0u8, 0u8, 0u8, 0u8])
                } else if events == 2 {
                    ActionView::Notifications
                } else {
                    ActionView::NextNotification
                },
            )
        }),
{
    mtu_request(INITIAL_MTU);
    if sizes.len() > 0 {
        needs_more_prefix(sizes, sizes.len() - 1);
        assert(sizes.take(sizes.len() - 1) == sizes.drop_last());
    }
    if events >= 3 {
        needs_more_prefix(sizes, events - 3);
    }
    asking(link, command, sizes, events);
    transfer_actions(link, RequestView::mtu().packets(INITIAL_MTU), sizes, events);
}

/// The packet size that the device names is provided for if and only if it is there, is not zero,
/// and the command takes at most two to the sixteenth packets of it.
pub proof fn usable_sizes(
    link: TransportNativeBle,
    command: Seq<u8>,
    sizes: Seq<Seq<u8>>,
    size: Seq<u8>,
)
    requires
        sizes.len() > 0,
        needs_more(sizes.drop_last()),
        read_response(sizes) == Ok::<ReadingView, ErrorView>(ReadingView::Done(size)),
    ensures
        ExchangeView::start(link, command).run(undisturbed(1, sizes.drop_last())).accepts(
            EventView::Notification(sizes.last()),
        ) <==> size.len() > 0 && size[0] > 0 && command.len() <= 0x10000 * size[0],
{
    size_response(link, command, sizes);
}

/// A response to the request for the packet size that is invalid ends the exchange as invalid:
/// the command is not sent.
pub proof fn invalid_size(link: TransportNativeBle, command: Seq<u8>, sizes: Seq<Seq<u8>>)
    requires
        sizes.len() > 0,
        needs_more(sizes.drop_last()),
        read_response(sizes) is Err,
    ensures
        ({
            let before = ExchangeView::start(link, command).run(undisturbed(1, sizes.drop_last()));
            let event = EventView::Notification(sizes.last());
            &&& before.accepts(event)
            &&& before.after(event).action() is None
            &&& before.after(event).result() == Some(
                Err::<AnswerView, ErrorView>(ErrorView::InvalidPacket),
            )
        }),
{
    size_response(link, command, sizes);
    invalid_response(sizes, read_response(sizes)->Err_0);
}

proof fn size_response(link: TransportNativeBle, command: Seq<u8>, sizes: Seq<Seq<u8>>)
    requires
        sizes.len() > 0,
        needs_more(sizes.drop_last()),
    ensures
        ({
            let before = ExchangeView::start(link, command).run(undisturbed(1, sizes.drop_last()));
            &&& before.command == Some(command)
            &&& before.transfer.stage is Read
            &&& before.transfer.after(EventView::Notification(sizes.last())).stage
                == StageView::of_reading(read_response(sizes))
        }),
{
    mtu_request(INITIAL_MTU);
    let ask = RequestView::mtu().packets(INITIAL_MTU);
    let pending = sizes.drop_last();
    let script = undisturbed(1, pending);
    assert(script.take(script.len() as int) == script);
    if pending.len() > 0 {
        needs_more_prefix(pending, pending.len() - 1);
        assert(pending.take(pending.len() - 1) == pending.drop_last());
    }
    assert(pending.take(pending.len() as int) == pending);
    asking(link, command, pending, script.len() as int);
    undisturbed_transfer(link, ask, pending, script.len() as int);
}

/// What can come of each action of an exchange: of waiting for a notification only a
/// notification, of all others only their success or failure, and of nothing nothing. Once the
/// command is being sent, any notification can come.
pub proof fn exchange_events(exchange: ExchangeView, event: EventView)
    ensures
        exchange.action() is None ==> !exchange.accepts(event),
        exchange.action() == Some(ActionView::NextNotification) && exchange.accepts(event)
            ==> event is Notification,
        exchange.action() == Some(ActionView::NextNotification) && exchange.command is None && event
            is Notification ==> exchange.accepts(event),
        exchange.action() is Some && exchange.action() != Some(ActionView::NextNotification) ==> (
        exchange.accepts(event) <==> event is Done || event is Failed),
{
    transfer_events(exchange.transfer, event);
}

/// Whatever state an exchange is in, it writes to the characteristic for writing only, and
/// subscribes to the one for notifications only; and no event changes the link.
pub proof fn exchange_keeps_its_link(exchange: ExchangeView, event: EventView)
    ensures
        exchange.action() matches Some(ActionView::Write(characteristic, _)) ==> characteristic
            == exchange.transfer.link.write_characteristic,
        exchange.action() matches Some(ActionView::Subscribe(characteristic)) ==> characteristic
            == exchange.transfer.link.notify_characteristic,
        exchange.after(event).transfer.link == exchange.transfer.link,
{
    characteristics_are_kept_apart(exchange.transfer);
    link_is_kept(exchange.transfer, event);
}

} // verus!
