//! A realtime multi-channel audio convolution engine.
//!
//! Stereo input frames are spread over eight filter channels, each channel is
//! convolved with its own finite impulse response, and the result is
//! rate-matched to the output device by a throttle that drops samples while
//! the output queue runs above its target depth.
//!
//! The parts, leaves first:
//!
//! - [`sample`]: frames, and the arithmetic that sample values bring along;
//! - [`counting_mpsc`]: a FIFO between threads whose depth can be read;
//! - [`fir_module`]: the streaming filter, with its laws in [`fir_laws`] and,
//!   for whole-number samples, in [`fir_exact`];
//! - [`impulse`]: impulses read from text;
//! - [`throttle_module`]: the rate-matching sender, with its laws in
//!   [`throttle_laws`];
//! - [`pipeline`]: the bodies of the two audio callbacks and the step of the
//!   filter thread;
//! - [`telemetry`] and [`supervisor`]: what a session reports and when it
//!   ends.
//!
//! Sample values and the controller's real numbers are type parameters. The
//! library proves what it does with them whatever their operations return;
//! it never computes with floating point itself.

pub mod anti_pop_module;
pub mod counting_mpsc;
pub mod fir_exact;
pub mod fir_laws;
pub mod fir_module;
pub mod impulse;
pub mod marked;
pub mod pipeline;
pub mod sample;
pub mod supervisor;
pub mod telemetry;
pub mod throttle_laws;
pub mod throttle_module;
