//! Safe, verified values for ibsim's public datagram protocol.
//!
//! ibsim's public header is a wire ABI: the simulator and its clients send
//! their C records directly over datagram sockets. [`sys`] mirrors those
//! records; the types here are validated values with explicit encode and
//! decode steps. The protocol is native-endian and native-layout by design.
#![allow(non_camel_case_types, non_snake_case, non_upper_case_globals)]

pub mod client;
pub mod control;
pub mod error;
pub mod info;
pub mod mad;
pub mod native;
pub mod sys;
pub mod wire;

pub use crate::client::{ClientInfo, ClientInfoView};
pub use crate::control::{ControlMessage, ControlMessageView, ControlType};
pub use crate::error::Error;
pub use crate::info::{PortInfo, VendorInfo};
pub use crate::mad::{MadRequest, MadRequestView};
pub use crate::wire::WireMessage;

use vstd::prelude::*;

verus! {

/// The largest MAD payload, in bytes.
pub const MAD_CAPACITY: usize = 256;

/// The largest control payload, in bytes.
pub const CONTROL_DATA_CAPACITY: usize = 64;

/// The longest node ID, in bytes, without its terminating NUL.
pub const NODE_ID_CAPACITY: usize = 31;

/// The result of building a value or decoding a frame.
pub type Result<T> = std::result::Result<T, Error>;

} // verus!
