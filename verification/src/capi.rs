//! What the C interface reports for a message sent to the ARC.
use vstd::prelude::*;
use crate::arc_msg::{ArcMsgError, ArcMsgOk, ArcMsgProtocolError};
use crate::error::PlatformError;

verus! {

/// Which half of a C result is set.
#[derive(Clone, Copy, Debug, PartialEq, Eq, Structural)]
pub enum CResultTag {
    Success,
    Failure,
}

/// The outcome of a message as the C interface reports it: a value (and
/// the word for the caller's return register, where there is one), or an
/// error to be described to the caller.
#[derive(Debug)]
pub enum CArcMsgReply {
    Value { value: u32, return_3: Option<u32> },
    Error(PlatformError),
}

impl CArcMsgReply {
    /// The tag of the C result.
    pub fn tag(&self) -> (r: CResultTag)
        ensures
            r == (if *self is Value {
                CResultTag::Success
            } else {
                CResultTag::Failure
            }),
    {
        match self {
            CArcMsgReply::Value { .. } => CResultTag::Success,
            CArcMsgReply::Error(_) => CResultTag::Failure,
        }
    }
}

/// The C outcome of a message: a reply gives its exit code (and its
/// returned word), a message sent without waiting gives 0, and a message
/// the firmware did not recognize gives its code as a value, not an error.
pub fn c_arc_msg_reply(result: Result<ArcMsgOk, PlatformError>) -> (r: CArcMsgReply)
    ensures
        match result {
            Ok(ArcMsgOk::Done { rc, arg }) => r == (CArcMsgReply::Value { value: rc, return_3: Some(arg) }),
            Ok(ArcMsgOk::OkNoWait) => r == (CArcMsgReply::Value { value: 0, return_3: None }),
            Err(PlatformError::ArcMsgError(
                ArcMsgError::ProtocolError { source: ArcMsgProtocolError::MsgNotRecognized(c), .. },
            )) => r == (CArcMsgReply::Value { value: c as u32, return_3: None }),
            Err(e) => r == CArcMsgReply::Error(e),
        },
{
    match result {
        Ok(ArcMsgOk::Done { rc, arg }) => CArcMsgReply::Value { value: rc, return_3: Some(arg) },
        Ok(ArcMsgOk::OkNoWait) => CArcMsgReply::Value { value: 0, return_3: None },
        Err(
            PlatformError::ArcMsgError(
                ArcMsgError::ProtocolError { source: ArcMsgProtocolError::MsgNotRecognized(c), .. },
            ),
        ) => CArcMsgReply::Value { value: c as u32, return_3: None },
        Err(e) => CArcMsgReply::Error(e),
    }
}

} // verus!
