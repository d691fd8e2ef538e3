//! Deterministic, fail-closed core of a differentiable tensor runtime:
//! tensor layout metadata, a prioritised dispatcher, an autograd graph with
//! a dependency-counted backward scheduler, and a canonical checkpoint codec.
pub mod autograd;
pub mod checkpoint;
pub mod device;
pub mod digest;
pub mod dispatch;
pub mod meta;
pub mod schedule;
pub mod sidecar;
pub mod text;
