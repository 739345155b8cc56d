//! Swa Moola: the verified core of an end-to-end encrypted chat service.
use vstd::prelude::*;

pub mod accounts;
pub mod audio;
pub mod auth;
pub mod bytes;
pub mod chat_client;
pub mod files;
pub mod hybrid;
pub mod identity;
pub mod media;
pub mod messaging;
pub mod paths;
pub mod primitives;
pub mod signaling;
pub mod text;

verus! {
} // verus!
