//! Decision logic of a self-hosted Nix build gateway.

use vstd::prelude::*;

pub mod backend;
pub mod bytes;
pub mod crypto;
pub mod fault;
pub mod nomad_callback_collection;
pub mod nomad_callback_course;
pub mod nomad_callback_service;
pub mod nomad_transfer_authentication;
pub mod nomad_transfer_protocol;
pub mod metadata;
pub mod nomad_callback_http;
pub mod operator;
pub mod path;
pub mod permits;
pub mod persistence;
pub mod runtime;
pub mod service;
pub mod text;
pub mod time;

verus! {

} // verus!
