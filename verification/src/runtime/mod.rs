//! How the commands run: their arguments, the daemon with its services and sessions, the local
//! executor and the frontend.

pub mod arguments;
pub mod daemon;
pub mod executor;
pub mod frontend;
pub mod rounds;
pub mod session;
pub mod socket;
pub mod startup;
