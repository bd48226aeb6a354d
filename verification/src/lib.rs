//! Verified core of a live-oscilloscope capture pipeline.
//!
//! The crate models and verifies the logic that sits between a user
//! interface and a measurement device: capture and trigger configuration,
//! the boundary channels that carry configuration edits and control
//! commands, the frame decoder with digital-bitmap unpacking and
//! calibration, a continuous ring buffer with a windowed downsampler,
//! and the worker state machine that drives one cancellable hardware
//! read per cycle.  Device I/O itself is an opaque capability performed
//! by the surrounding (unverified) application.

pub mod channels;
pub mod decode;
pub mod device;
pub mod device_worker;
pub mod notifications;
pub mod plot_area;
pub mod worker_interface;
