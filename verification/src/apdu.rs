//! The commands that a device is given, and its answers.
use vstd::prelude::*;

use crate::error::{outcome, ErrorView, LedgerBleError};
use crate::wire::{be16, be16_bytes, be16_bytes_of};

verus! {

/// A command for the device.
#[derive(Debug)]
pub struct APDUCommand {
    pub cla: u8,
    pub ins: u8,
    pub p1: u8,
    pub p2: u8,
    pub data: Vec<u8>,
}

/// The answer of the device to a command.
#[derive(Debug)]
pub struct APDUAnswer {
    pub data: Vec<u8>,
    pub retcode: u16,
}

/// The mathematical value of an [`APDUCommand`].
#[verifier::ext_equal]
pub struct CommandView {
    pub cla: u8,
    pub ins: u8,
    pub p1: u8,
    pub p2: u8,
    pub data: Seq<u8>,
}

/// The mathematical value of an [`APDUAnswer`].
#[verifier::ext_equal]
pub struct AnswerView {
    pub data: Seq<u8>,
    pub retcode: u16,
}

impl View for APDUCommand {
    type V = CommandView;

    open spec fn view(&self) -> CommandView {
        CommandView {
            cla: self.cla,
            ins: self.ins,
            p1: self.p1,
            p2: self.p2,
            data: self.data@,
        }
    }
}

impl View for APDUAnswer {
    type V = AnswerView;

    open spec fn view(&self) -> AnswerView {
        AnswerView { data: self.data@, retcode: self.retcode }
    }
}

/// What an answer without room for a return code is refused with.
pub open spec fn too_short() -> ErrorView {
    ErrorView::Comm("response was too short"@)
}

impl CommandView {
    /// The command as it travels: class, instruction, two parameters, the length of the data
    /// modulo two to the eighth, and the data.
    pub open spec fn bytes(self) -> Seq<u8> {
        seq![self.cla, self.ins, self.p1, self.p2, (self.data.len() % 0x100) as u8] + self.data
    }
}

impl AnswerView {
    /// The answer that some bytes stand for: the last two are the return code.
    pub open spec fn parse(bytes: Seq<u8>) -> Result<AnswerView, ErrorView> {
        if bytes.len() < 2 {
            Err(too_short())
        } else {
            Ok(
                AnswerView {
                    data: bytes.take(bytes.len() - 2),
                    retcode: be16(bytes[bytes.len() - 2], bytes[bytes.len() - 1]),
                },
            )
        }
    }
}

/// `ledger_transport::APDUCommand::serialize` on the command with these fields.
///
/// It returns the four fields, the length of the data cut down to a byte, and the data, as long
/// as a vector can hold them.
#[verifier::external_body]
fn serialize_command(cla: u8, ins: u8, p1: u8, p2: u8, data: &[u8]) -> (bytes: Vec<u8>)
    requires
        data@.len() + 5 <= isize::MAX,
    ensures
        bytes@ == (CommandView { cla, ins, p1, p2, data: data@ }).bytes(),
{
    ledger_transport::APDUCommand { cla, ins, p1, p2, data }.serialize()
}

/// `ledger_transport::APDUAnswer::from_answer`, and the `data` and `retcode` of what it returns.
///
/// It refuses what is shorter than two bytes, and nothing else. The last two bytes are the
/// return code, the most significant one first, and all before them is the data.
#[verifier::external_body]
fn parse_answer(answer: Vec<u8>) -> (parsed: Option<APDUAnswer>)
    ensures
        parsed is Some <==> answer@.len() >= 2,
        parsed is Some ==> parsed->Some_0@ == AnswerView::parse(answer@)->Ok_0,
{
    match ledger_transport::APDUAnswer::from_answer(answer) {
        Ok(a) => Some(APDUAnswer { data: a.data().to_vec(), retcode: a.retcode() }),
        Err(_) => None,
    }
}

impl APDUCommand {
    /// The bytes of the command.
    pub fn serialize(&self) -> (bytes: Vec<u8>)
        requires
            self@.data.len() + 5 <= isize::MAX,
        ensures
            bytes@ == self@.bytes(),
            bytes@.len() == 5 + self.data@.len(),
            bytes@[0] == self.cla && bytes@[1] == self.ins,
            bytes@[2] == self.p1 && bytes@[3] == self.p2,
            bytes@[4] == self.data@.len() % 0x100,
            bytes@.skip(5) == self.data@,
    {
        serialize_command(self.cla, self.ins, self.p1, self.p2, self.data.as_slice())
    }
}

impl APDUAnswer {
    /// Reads an answer; one that is shorter than its return code is refused.
    pub fn from_answer(answer: Vec<u8>) -> (parsed: Result<APDUAnswer, LedgerBleError>)
        ensures
            outcome(parsed) == AnswerView::parse(answer@),
            parsed is Ok <==> answer@.len() >= 2,
            parsed matches Ok(a) ==> {
                &&& a.data@ == answer@.take(answer@.len() - 2)
                &&& a.retcode == 256 * answer@[answer@.len() - 2] + answer@[answer@.len() - 1]
            },
            parsed matches Err(e) ==> e matches LedgerBleError::Comm(text) && text@
                == "response was too short"@,
    {
        match parse_answer(answer) {
            Some(answer) => Ok(answer),
            None => Err(LedgerBleError::Comm("response was too short")),
        }
    }
}

/// Nothing of an answer is lost when it is read: its data and then the two bytes of its return
/// code are what was read.
pub proof fn answer_is_whole(bytes: Seq<u8>)
    requires
        bytes.len() >= 2,
    ensures
        AnswerView::parse(bytes) matches Ok(answer) && answer.data + be16_bytes(answer.retcode)
            == bytes,
{
    be16_bytes_of(bytes[bytes.len() - 2], bytes[bytes.len() - 1]);
    let answer = AnswerView::parse(bytes)->Ok_0;
    assert(answer.data + be16_bytes(answer.retcode) =~= bytes);
}

/// Where the parts of a command stand in its bytes: class, instruction and the two parameters,
/// then the length of the data in one byte, and then the data to the end.
pub proof fn command_layout(command: CommandView)
    ensures
        command.bytes().len() == 5 + command.data.len(),
        command.bytes()[0] == command.cla,
        command.bytes()[1] == command.ins,
        command.bytes()[2] == command.p1,
        command.bytes()[3] == command.p2,
        command.bytes()[4] == command.data.len() % 0x100,
        forall|i: int|
            0 <= i < command.data.len() ==> command.bytes()[5 + i] == #[trigger] command.data[i],
{
}

/// Which bytes are read as an answer, namely all of at least two, and what each byte of them
/// says. All others are refused as too short a response.
pub proof fn answer_reading(bytes: Seq<u8>)
    ensures
        bytes.len() < 2 ==> AnswerView::parse(bytes) == Err::<AnswerView, ErrorView>(
            ErrorView::Comm("response was too short"@),
        ),
        bytes.len() >= 2 ==> {
            &&& AnswerView::parse(bytes) matches Ok(answer)
            &&& answer.retcode == 256 * bytes[bytes.len() - 2] + bytes[bytes.len() - 1]
            &&& answer.data.len() + 2 == bytes.len()
            &&& forall|i: int| 0 <= i < answer.data.len() ==> #[trigger] answer.data[i] == bytes[i]
        },
{
}

/// Commands and answers and their mathematical values hold the same.
pub proof fn apdus_keep_their_bytes(command: APDUCommand, answer: APDUAnswer)
    ensures
        command@.cla == command.cla && command@.ins == command.ins,
        command@.p1 == command.p1 && command@.p2 == command.p2,
        command@.data == command.data@,
        answer@.data == answer.data@,
        answer@.retcode == answer.retcode,
{
}

} // verus!
