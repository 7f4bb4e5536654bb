//! Construction- and setup-time failures of the rendering core.

use vstd::prelude::*;

verus! {

/// The two programmable pipeline stages a shader source can target.
#[derive(Clone, Copy, Debug, PartialEq, Eq, Structural)]
pub enum ShaderStage {
    Vertex,
    Fragment,
}

/// Every failure the core can report. All variants arise during construction
/// or setup; the per-frame path has no recoverable errors.
#[derive(Clone, Debug, PartialEq, Eq)]
pub enum Error {
    /// A shader source failed to compile; carries the backend's diagnostic.
    ShaderCompile(ShaderStage, String),
    /// The two compiled stages failed to link; carries the diagnostic.
    ShaderLink(String),
    /// A declared uniform or attribute name has no matching declaration in
    /// the linked program.
    UnknownBinding(String),
    /// The backend could not allocate a buffer or vertex-array object.
    BufferAllocation,
    /// The host's frame or resize event source could not be registered.
    SchedulerInit,
}

} // verus!
