//! Failures that the orchestrator reports to its caller.
use vstd::prelude::*;

verus! {

/// Why an operation did not take effect.
#[derive(Clone, Debug, PartialEq, Eq)]
pub enum WmError {
    /// No managed window has the given identifier.
    WindowNotFound,
    /// No workspace has the given identifier.
    WorkspaceNotFound,
    /// A layout name other than `tiling`, `floating` or `monocle`.
    InvalidLayout,
    /// A freshly generated identifier is already taken.
    DuplicateId,
    /// The screen cannot hold the gaps of the tiling grid.
    ScreenTooSmall,
    /// The platform driver refused the call, with its own reason.
    PlatformError(String),
}

/// The text that `WmError::message` gives for `e`.
pub open spec fn error_text(e: WmError) -> Seq<char> {
    match e {
        WmError::WindowNotFound => "Window not found"@,
        WmError::WorkspaceNotFound => "Workspace not found"@,
        WmError::InvalidLayout => "Invalid layout type"@,
        WmError::DuplicateId => "Generated identifier already in use"@,
        WmError::ScreenTooSmall => "Screen too small for the tiling grid"@,
        WmError::PlatformError(reason) => reason@,
    }
}

impl WmError {
    /// A human-readable description of the failure.
    pub fn message(&self) -> (r: String)
        ensures
            r@ == error_text(*self),
    {
        match self {
            WmError::WindowNotFound => "Window not found".to_owned(),
            WmError::WorkspaceNotFound => "Workspace not found".to_owned(),
            WmError::InvalidLayout => "Invalid layout type".to_owned(),
            WmError::DuplicateId => "Generated identifier already in use".to_owned(),
            WmError::ScreenTooSmall => "Screen too small for the tiling grid".to_owned(),
            WmError::PlatformError(reason) => reason.clone(),
        }
    }
}

} // verus!
