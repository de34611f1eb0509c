//! The errors of the transport.
use vstd::prelude::*;

verus! {

/// What can go wrong while talking to a device.
#[derive(Debug, PartialEq, Eq)]
pub enum LedgerBleError {
    /// No Ledger device was in reach.
    DeviceNotFound,
    /// A packet is too short to hold its own header.
    InvalidPacket,
    /// The device answered something that is not an answer.
    Comm(&'static str),
    /// The Bluetooth stack failed; the text is its own description of the failure.
    Bluetooth(String),
}

/// The mathematical value of a [`LedgerBleError`].
pub enum ErrorView {
    DeviceNotFound,
    InvalidPacket,
    Comm(Seq<char>),
    Bluetooth(Seq<char>),
}

impl View for LedgerBleError {
    type V = ErrorView;

    open spec fn view(&self) -> ErrorView {
        match *self {
            LedgerBleError::DeviceNotFound => ErrorView::DeviceNotFound,
            LedgerBleError::InvalidPacket => ErrorView::InvalidPacket,
            LedgerBleError::Comm(text) => ErrorView::Comm(text@),
            LedgerBleError::Bluetooth(text) => ErrorView::Bluetooth(text@),
        }
    }
}

/// The mathematical value of what a fallible operation returns.
pub open spec fn outcome<T: View>(result: Result<T, LedgerBleError>) -> Result<T::V, ErrorView> {
    match result {
        Ok(value) => Ok(value@),
        Err(error) => Err(error@),
    }
}

/// An error and its mathematical value are of one kind, and hold the same text. So do results.
pub proof fn errors_keep_their_kind<T: View>(result: Result<T, LedgerBleError>)
    ensures
        result matches Ok(value) ==> outcome(result) == Ok::<T::V, ErrorView>(value@),
        result matches Err(error) ==> outcome(result) == Err::<T::V, ErrorView>(error@) && {
            &&& error is DeviceNotFound <==> error@ is DeviceNotFound
            &&& error is InvalidPacket <==> error@ is InvalidPacket
            &&& error matches LedgerBleError::Comm(text) ==> error@ == ErrorView::Comm(text@)
            &&& error matches LedgerBleError::Bluetooth(text) ==> error@ == ErrorView::Bluetooth(
                text@,
            )
        },
{
}

} // verus!
