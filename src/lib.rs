//! Supervision of USI engine processes: option parsing, the engine
//! configuration store, session bookkeeping, the handshake and the
//! engine-versus-engine match, each stated and proved over a model.
use vstd::prelude::*;

pub mod text;
pub mod option_map;
pub mod engine_validator;
pub mod engine_vs_engine;
pub mod engine_storage;
pub mod engine_manager;
pub mod handshake;

verus! {

} // verus!
