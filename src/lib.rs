//! Status line for a music player daemon: where to reach it, resolved from
//! the command line and the environment, and what to print for a reading of
//! its status.
use vstd::prelude::*;

pub mod addr;
pub mod config;
pub mod render;

pub use addr::{IpAddress, SocketAddress};
pub use config::{Config, Error};
pub use render::{render, Glyphs, Output, PlayerState, Status};

verus! {

} // verus!
