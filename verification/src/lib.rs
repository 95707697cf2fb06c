//! Test-execution telemetry: a report model of steps and attachments, an
//! aggregator that folds an ordered event stream into one immutable test
//! result, a fetch-before-persist result protocol, and the computable core of
//! the HTTP evidence capture.

use vstd::prelude::*;

pub mod codec;
pub mod evidence;
pub mod handle;
pub mod ids;
pub mod json;
pub mod models;
pub mod reporter;

verus! {

/// The failures a reporting operation can surface to its caller.
#[derive(Clone, Copy, Debug, PartialEq, Eq, Structural)]
pub enum ReportError {
    /// A step was started while another step was still open.
    StepAlreadyOpen,
    /// The aggregator is gone: its event queue is closed.
    ChannelClosed,
    /// Writing an attachment or report file failed.
    WriteError,
    /// The result file was asked for before the result had been fetched.
    ResultNotFetched,
}

} // verus!
