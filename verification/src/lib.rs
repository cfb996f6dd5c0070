//! Core of a local telemetry streaming service: per-tick sampling math,
//! process classification and ranking, health evaluation, snapshot assembly,
//! wire-payload framing, and the per-connection publisher state machine.
pub mod aggregate;
pub mod health;
pub mod numfmt;
pub mod process;
pub mod publisher;
pub mod sampler;
pub mod snapshot;
pub mod text;
pub mod wire;

use vstd::prelude::*;

verus! {

/// Fixed endpoint URL that the embedding shell's UI connects to.
pub fn get_ws_url() -> (r: String)
    ensures
        r@ == "ws://127.0.0.1:3069/ws"@,
{
    String::from_str("ws://127.0.0.1:3069/ws")
}

} // verus!
