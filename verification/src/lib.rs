//! Core of a hardware-accelerated ray-tracing renderer.
//!
//! The crate models the GPU-facing bookkeeping of such a renderer over plain
//! values: buffer allocation and command recording, bottom- and top-level
//! acceleration-structure builds and refits, assembly of the ray-tracing
//! pipeline sub-descriptor graph, shader-binding-table layout and population,
//! and the fence-gated per-frame scheduler.  Device, window and compiler
//! plumbing are external collaborators and live outside this crate.

pub mod accel;
pub mod adapter;
pub mod bytes;
pub mod command;
pub mod frame;
pub mod geometry;
pub mod memory;
pub mod pipeline;
pub mod sbt;
