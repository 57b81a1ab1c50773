//! The listener side of UDP hole-punching negotiation: on an `Initiate`
//! request it starts a responder and hands the request to it.

use vstd::prelude::*;

use crate::message::{pop_front_onward, push_front_onward, LocalMessage, MessageView};
use crate::route::{Address, RouteError};

verus! {

/// The request for the new responder at `responder`: the received message
/// without the listener's own address and with the responder's address in
/// front of its onward route; an error when the onward route is empty.
pub fn redirect_to_responder(message: LocalMessage, responder: &Address) -> (r: Result<
    LocalMessage,
    RouteError,
>)
    ensures
        r is Err <==> message@.onward.len() == 0,
        r matches Ok(m) ==> m@ == push_front_onward(pop_front_onward(message@).unwrap(), *responder),
{
    match message.pop_front_onward_route() {
        Ok(m) => Ok(m.push_front_onward_route(responder)),
        Err(e) => Err(e),
    }
}

/// Handing a request to a responder changes nothing in it but its first
/// onward hop, which becomes the responder's address.
pub proof fn law_redirect_replaces_first_hop(m: MessageView, responder: Address)
    requires
        m.onward.len() > 0,
    ensures
        push_front_onward(pop_front_onward(m).unwrap(), responder) == (MessageView {
            onward: m.onward.update(0, responder),
            ..m
        }),
{
    assert(seq![responder] + m.onward.drop_first() =~= m.onward.update(0, responder));
}

} // verus!
