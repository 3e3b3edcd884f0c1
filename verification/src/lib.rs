//! Firmware logic of a controller that bridges a host CPU, a registration
//! service (SSS) and a radio (RAD) over three framed byte channels.
//!
//! The crate models each serial line as a byte-stream [`channel::Channel`];
//! the [`controller::Controller`] runs the framed read/write state machine
//! over them, and [`secure`] implements the authenticated-encryption envelope
//! used for radio traffic.

pub mod codec;
pub mod msg;
pub mod cursor;
pub mod channel;
pub mod ext;
pub mod secure;
pub mod controller;
