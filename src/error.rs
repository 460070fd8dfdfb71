use vstd::prelude::*;

verus! {

/// The failures that pipeline construction and request admission report.
#[derive(Debug, Clone, Copy, PartialEq, Eq, Structural)]
pub enum PipelineError {
    /// A backend name was registered twice.
    DuplicateBackend,
    /// A backend name was looked up that no entry holds.
    UnknownBackend,
    /// A backend unit could not be constructed from its routing address.
    BackendInitFailure,
    /// A plugin failed to initialise.
    PluginInitFailure,
    /// The background task of a mailbox has terminated.
    WorkerUnavailable,
}

} // verus!
