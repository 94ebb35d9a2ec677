//! Error taxonomy: one tagged-variant error type per component, so callers
//! can branch on transience without string matching.

use vstd::prelude::*;

verus! {

/// Errors of the actuation client and the vision resolver.
#[derive(Debug, Clone)]
pub enum DaemonError {
    /// An operation was invoked before a port was assigned.
    NotStarted,
    /// The HTTP request itself failed (network, DNS, protocol).
    RequestFailed(String),
    /// A response body could not be read as the expected JSON shape.
    ParseError(String),
    /// The screenshot bytes could not be decoded as an image.
    ImageDecodingError(String),
    /// No in-range coordinate candidate was found in the model's answer;
    /// the payload carries the raw answer. This is the transient class the
    /// retry layer may poll on.
    FailedToParseCoordinates(String),
    /// No quoted visible-text fragment was found in the model's answer; the
    /// transient analogue of `FailedToParseCoordinates` for visibility.
    FailedToParseExistence(String),
    /// The screenshot endpoint answered with a non-success status.
    ScreenshotFailed(String),
    /// Any other failure, with a diagnostic message.
    Unexpected(String),
    /// The retry budget ran out; the payload names the selector or text.
    SelectorTimeout(String),
}

impl DaemonError {
    /// The single error class the coordinate retry loop may poll on.
    pub open spec fn is_coordinate_transient(self) -> bool {
        self is FailedToParseCoordinates
    }

    /// The single error class the visibility retry loop may poll on.
    pub open spec fn is_visibility_transient(self) -> bool {
        self is FailedToParseExistence
    }
}

/// Errors of the sandbox manager.
#[derive(Debug, Clone)]
pub enum VirtualMachineError {
    /// The container engine refused an operation; the payload carries its
    /// message.
    Docker(String),
    /// A local I/O step failed while preparing the build context.
    Io(String),
    /// The dynamically assigned host port could not be resolved.
    Port,
    /// The image build stream reported an error.
    Build(String),
    /// A command was issued while the container is not running.
    NotRunning,
}

/// Errors of the audit log.
#[derive(Debug, Clone)]
pub enum DaemonOutputError {
    /// Reading or writing the log file failed.
    IoError(String),
    /// The log file did not hold valid entries.
    SerializationError(String),
}

} // verus!
