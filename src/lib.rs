//! Decoding of a sensor gateway's byte stream into typed readings, and their
//! rendering as time-series points in the line protocol.

pub mod adapter;
pub mod buffer;
pub mod decimal;
pub mod input;
pub mod jeelink;
pub mod output;
pub mod pipeline;
pub mod protocol;
pub mod text;

pub use input::{DeviceError, FramedListener};
pub use protocol::{DecodeError, Frame, FrameCheckError, FrameValidation};
