//! Disconnect: `[reason: string?]`. A handshaked client leaves every instance
//! it is in; the reason is only informative.
use vstd::prelude::*;

use super::context::AppState;
use super::packet::{outs_view, OutView, Outgoing};
use super::quit::{leave_all_instances, leave_all_outs, left_by_client};

verus! {

/// Handles a Disconnect from client `client_id`: nothing for a client that has
/// not handshaked; otherwise it leaves all its instances.
pub fn handle(state: &mut AppState, client_id: u16) -> (outs: Vec<Outgoing>)
    requires
        old(state).wf(),
    ensures
        final(state).wf(),
        final(state).clients@ == old(state).clients@,
        final(state).config == old(state).config,
        if old(state).clients@.contains_key(client_id) && old(state).clients@[client_id].spec_is_handshaked() {
            &&& final(state).instances@.dom() == old(state).instances@.dom()
            &&& forall|k: u8| #[trigger] old(state).instances@.contains_key(k)
                ==> left_by_client(old(state).instances@[k], final(state).instances@[k], client_id)
            &&& exists|order: Seq<u8>| #![trigger order.to_set()]
                order.no_duplicates() && order.to_set() == old(state).instances@.dom()
                && outs_view(outs@) == leave_all_outs(order, old(state).instances@, old(state).clients@, client_id)
        } else {
            &&& final(state).instances@ == old(state).instances@
            &&& outs_view(outs@) == Seq::<OutView>::empty()
        },
{
    let handshaked = match state.clients.get(client_id) {
        Some(c) => c.is_handshaked(),
        None => false,
    };
    if !handshaked {
        let outs: Vec<Outgoing> = Vec::new();
        assert(outs_view(outs@) =~= Seq::<OutView>::empty());
        return outs;
    }
    leave_all_instances(state, client_id)
}

} // verus!
