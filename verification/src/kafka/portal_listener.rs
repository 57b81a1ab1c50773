//! The first point of ingress of a Kafka connection: on the first message it
//! starts a worker for the connection and hands the message to it.

use vstd::prelude::*;

use crate::message::{pop_front_onward, LocalMessage, MessageView};
use crate::route::{Address, RouteError};

verus! {

/// What the listener learns from the first message of a connection.
#[derive(Clone, PartialEq, Eq, Debug)]
pub struct FirstMessage {
    /// The message without the listener's own address.
    pub message: LocalMessage,
    /// The hop the message goes to after the listener.
    pub next_hop: Address,
    /// The first hop of the return route: the inlet side that answers.
    pub inlet_responder: Address,
}

/// What the listener learns from `m`: nothing when its onward route has no
/// hop after the listener's own address or its return route is empty.
pub open spec fn spec_first_message(m: MessageView) -> Option<(MessageView, Address, Address)> {
    match pop_front_onward(m) {
        None => None,
        Some(popped) => if popped.onward.len() == 0 || popped.back.len() == 0 {
            None
        } else {
            Some((popped, popped.onward[0], popped.back[0]))
        },
    }
}

/// The first message is read exactly when its onward route has a hop after
/// the listener's own address and its return route is not empty. Then the
/// message loses only its first onward hop, keeping its return route and
/// payload; the next hop is the second hop of the received onward route; and
/// the inlet responder is the first hop of the return route.
pub proof fn law_first_message_hops(m: MessageView)
    ensures
        spec_first_message(m) is Some <==> (m.onward.len() >= 2 && m.back.len() >= 1),
        spec_first_message(m) matches Some((popped, next_hop, inlet_responder)) ==> {
            &&& popped.onward == m.onward.subrange(1, m.onward.len() as int)
            &&& popped.back == m.back
            &&& popped.payload == m.payload
            &&& next_hop == m.onward[1]
            &&& inlet_responder == m.back[0]
        },
{
    if m.onward.len() > 0 {
        assert(m.onward.drop_first() =~= m.onward.subrange(1, m.onward.len() as int));
    }
}

/// Reads the first message of a connection: removes the listener's own
/// address from the onward route, and takes the next hop and the first hop
/// of the return route. The message then goes to the new worker, whose
/// address is put in front of its onward route.
pub fn accept_first_message(message: LocalMessage) -> (r: Result<FirstMessage, RouteError>)
    ensures
        r is Err <==> spec_first_message(message@) is None,
        r matches Ok(f) ==> spec_first_message(message@) == Some(
            (f.message@, f.next_hop, f.inlet_responder),
        ),
{
    let message = match message.pop_front_onward_route() {
        Ok(m) => m,
        Err(e) => {
            return Err(e);
        },
    };
    let next_hop = match message.next_on_onward_route() {
        Ok(a) => a.duplicate(),
        Err(e) => {
            return Err(e);
        },
    };
    let inlet_responder = match message.return_route.next() {
        Ok(a) => a.duplicate(),
        Err(e) => {
            return Err(e);
        },
    };
    Ok(FirstMessage { message, next_hop, inlet_responder })
}

} // verus!
