//! The relay status snapshot sent to the node.
use vstd::prelude::*;

use super::messages::RelayStatus;
use crate::config::Config;
use crate::constants::{ENGINE, PROTOCOL_VERSION, VERSION};
use crate::handlers::context::AppState;
use crate::text::{decimal, push_decimal};

verus! {

/// The address clients reach this relay at: the configured one, else `"0.0.0.0:{port}"`.
pub open spec fn quic_address(config: Config) -> Seq<char> {
    match config.use_address {
        Some(a) => a@,
        None => "0.0.0.0:"@ + decimal(config.port as nat),
    }
}

/// The status snapshot: client and instance counts, the instance limit,
/// engine, version, protocol, start time and the QUIC address.
pub fn build_status(state: &AppState) -> (s: RelayStatus)
    ensures
        s.c == state.clients@.dom().len() as u32,
        s.i == state.instances@.dom().len() as u32,
        s.m == state.config.max_instances,
        s.e@ == ENGINE@,
        s.v@ == VERSION@,
        s.p == PROTOCOL_VERSION,
        s.u == state.start_time_ms,
        s.a@.len() == 1,
        s.a@[0].0@ == "quic"@,
        s.a@[0].1@ == quic_address(state.config),
{
    let addr = match &state.config.use_address {
        Some(a) => a.clone(),
        None => {
            let mut a = String::new();
            a.append("0.0.0.0:");
            push_decimal(&mut a, state.config.port as u64);
            a
        },
    };
    let mut a: Vec<(String, String)> = Vec::new();
    a.push((String::from_str("quic"), addr));
    RelayStatus {
        c: #[verifier::truncate] (state.clients.count() as u32),
        i: #[verifier::truncate] (state.instances.count() as u32),
        m: state.config.max_instances,
        e: String::from_str(ENGINE),
        v: String::from_str(VERSION),
        p: PROTOCOL_VERSION,
        u: state.start_time_ms,
        a,
    }
}

} // verus!
