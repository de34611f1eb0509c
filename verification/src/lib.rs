//! A transport for APDU commands to a Ledger Nano X over Bluetooth Low Energy.
//!
//! The library holds the protocol: how messages are cut into packets and put together again
//! ([`packet`], [`request`], [`response`]), how a command is exchanged for its answer
//! ([`transfer`], [`exchange`]), and how Ledgers are found and linked to ([`listing`],
//! [`opening`]). It does no input or output. What takes several steps on the Bluetooth stack is
//! a value that says what is to be done next and is told what came of it.
pub mod apdu;
pub mod device;
pub mod error;
pub mod exchange;
pub mod listing;
pub mod opening;
pub mod packet;
pub mod request;
pub mod response;
pub mod transfer;
pub mod wire;

pub use apdu::{APDUAnswer, APDUCommand};
pub use device::TransportNativeBle;
pub use error::LedgerBleError;
pub use exchange::Exchange;
pub use listing::{ListAction, ListEvent, Listing};
pub use opening::{OpenAction, OpenEvent, Opening};
pub use packet::{InitialPacket, SubsequentPacket};
pub use request::Request;
pub use response::{Reading, Response};
pub use transfer::{Action, Event, Transfer};
