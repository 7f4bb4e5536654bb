//! Core infrastructure for a retained-geometry rendering pipeline: typed
//! vertex buffers with byte-exact record layouts, shader-program handle
//! resolution, buffer sets, and a cooperative frame-scheduling protocol.
//!
//! The GPU rasterization backend and the host event loop are external
//! collaborators: this crate computes and validates everything that can be
//! decided host-side (byte offsets, packed buffer images, handle bookkeeping,
//! event ordering) and leaves the actual backend calls to the embedder.

pub mod encoding;
pub mod error;
pub mod layout;
pub mod buffer;
pub mod bufferset;
pub mod scheduler;
pub mod shader;
