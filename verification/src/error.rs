//! The errors that the library reports.
use vstd::prelude::*;

verus! {

/// What the encoding engine answers to a request.
#[derive(Clone, Copy, Debug, PartialEq, Eq, Structural)]
pub enum EngineStatus {
    Success,
    IllegalDataType,
    IllegalData,
    IllegalParameter,
    OutOfRangeNumber,
    OutOfRangeQuality,
    NotEnoughMemory,
    InvalidHandle,
    NoData,
}

/// Why an operation of this library failed.
#[derive(Debug, PartialEq)]
pub enum SyroError {
    /// `val` was offered for the field `name`, which only takes values from
    /// `lo` to `hi`, both included.
    OutOfBounds { val: u32, name: &'static str, lo: usize, hi: usize },
    /// A stream without a single sample or pattern was submitted.
    EmptyStream,
    /// The engine answered with a status that ends the operation.
    SyroStatus { status: EngineStatus },
}

/// Turns an engine status into success or failure: `Success` alone passes,
/// every other status is handed back inside [`SyroError::SyroStatus`].
pub fn check_syro_status(status: EngineStatus) -> (r: Result<(), SyroError>)
    ensures
        r is Ok <==> status == EngineStatus::Success,
        r matches Err(e) ==> e == (SyroError::SyroStatus { status }),
{
    match status {
        EngineStatus::Success => Ok(()),
        _ => Err(SyroError::SyroStatus { status }),
    }
}

} // verus!
