use vstd::prelude::*;

pub mod cli;
pub mod client;
pub mod iface;
pub mod logger;
pub mod net;
pub mod routing;
pub mod server;
pub mod state;
pub mod tap;
pub mod text;

verus! {

} // verus!
