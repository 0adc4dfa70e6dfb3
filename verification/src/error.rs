//! Errors of the chip-level operations.
use vstd::prelude::*;
use crate::arc_msg::{ArcMsgError, BtWrapper};
use crate::arc_ready::ArcReadyError;
use crate::axi::AxiError;
use crate::kmd::Arch;

verus! {

/// Why an operation on a chip failed.
#[allow(inconsistent_fields)]
#[derive(Debug)]
pub enum PlatformError {
    /// The chip is of another generation than the one expected.
    WrongChipArch { actual: Arch, expected: Arch, backtrace: BtWrapper },
    /// The chip is of none of the generations expected.
    WrongChipArchs { actual: Arch, expected: Vec<Arch>, backtrace: BtWrapper },
    /// The firmware is older than the operation needs.
    UnsupportedFwVersion { version: u32, required: u32 },
    /// It is not safe to send the ARC firmware a message now.
    ArcNotReady(ArcReadyError, BtWrapper),
    ArcMsgError(ArcMsgError),
    /// Ethernet training has not completed; one flag per port.
    EthernetTrainingNotComplete(Vec<bool>),
    AxiError(AxiError),
    Generic(String, BtWrapper),
    /// An error of another kind, by its message.
    GenericError(String, BtWrapper),
}

impl PlatformError {
    /// A generic error with the given message and the current backtrace.
    pub fn generic(message: String) -> (r: PlatformError)
        ensures
            r matches PlatformError::Generic(m, _) && m == message,
    {
        PlatformError::Generic(message, BtWrapper::capture())
    }
}

} // verus!
