//! A message as it travels between workers: where it goes (the onward
//! route), how to answer it (the return route) and its payload.

use vstd::prelude::*;

use crate::route::{Address, Route, RouteError};

verus! {

/// A message inside a node.
#[derive(Clone, PartialEq, Eq, Debug)]
pub struct LocalMessage {
    pub onward_route: Route,
    pub return_route: Route,
    pub payload: Vec<u8>,
}

/// The mathematical content of a message.
pub struct MessageView {
    pub onward: Seq<Address>,
    pub back: Seq<Address>,
    pub payload: Seq<u8>,
}

impl View for LocalMessage {
    type V = MessageView;

    open spec fn view(&self) -> MessageView {
        MessageView {
            onward: self.onward_route@,
            back: self.return_route@,
            payload: self.payload@,
        }
    }
}

/// `m` without the first hop of its onward route; nothing when that route
/// is empty.
pub open spec fn pop_front_onward(m: MessageView) -> Option<MessageView> {
    if m.onward.len() == 0 {
        None
    } else {
        Some(MessageView { onward: m.onward.drop_first(), ..m })
    }
}

/// `m` with `a` in front of its onward route.
pub open spec fn push_front_onward(m: MessageView, a: Address) -> MessageView {
    MessageView { onward: seq![a] + m.onward, ..m }
}

impl LocalMessage {
    /// A message with the given routes and payload.
    pub fn new(onward_route: Route, return_route: Route, payload: Vec<u8>) -> (r: LocalMessage)
        ensures
            r.onward_route == onward_route,
            r.return_route == return_route,
            r.payload == payload,
    {
        LocalMessage { onward_route, return_route, payload }
    }

    /// The message without the first hop of its onward route (the address
    /// that just received it); an error when the onward route is empty.
    pub fn pop_front_onward_route(self) -> (r: Result<LocalMessage, RouteError>)
        ensures
            r is Err <==> pop_front_onward(self@) is None,
            r matches Ok(m) ==> pop_front_onward(self@) == Some(m@),
    {
        let mut m = self;
        match m.onward_route.step() {
            Ok(_) => Ok(m),
            Err(e) => Err(e),
        }
    }

    /// The message with `addr` put in front of its onward route.
    pub fn push_front_onward_route(self, addr: &Address) -> (r: LocalMessage)
        ensures
            r@ == push_front_onward(self@, *addr),
    {
        let mut m = self;
        m.onward_route.prepend(addr.duplicate());
        m
    }

    /// The address the message goes to next; an error when the onward route
    /// is empty.
    pub fn next_on_onward_route(&self) -> (r: Result<&Address, RouteError>)
        ensures
            self@.onward.len() == 0 <==> r is Err,
            r matches Ok(a) ==> *a == self@.onward[0],
    {
        self.onward_route.next()
    }
}

/// Moving a message along its route changes nothing but its onward route:
/// taking the first hop off fails exactly on an empty onward route and
/// otherwise keeps the rest of it, in order; putting an address in front
/// makes it the first hop, followed by the old onward route. The return route
/// and the payload stay as they were.
pub proof fn law_moving_changes_only_the_onward_route(m: MessageView, a: Address)
    ensures
        pop_front_onward(m) is None <==> m.onward.len() == 0,
        pop_front_onward(m) matches Some(p) ==> {
            &&& p.onward.len() == m.onward.len() - 1
            &&& forall|k: int| 0 <= k < p.onward.len() ==> #[trigger] p.onward[k] == m.onward[k + 1]
            &&& p.back == m.back
            &&& p.payload == m.payload
        },
        push_front_onward(m, a).onward.len() == m.onward.len() + 1,
        push_front_onward(m, a).onward[0] == a,
        forall|k: int|
            0 <= k < m.onward.len() ==> #[trigger] push_front_onward(m, a).onward[k + 1] == m.onward[k],
        push_front_onward(m, a).back == m.back,
        push_front_onward(m, a).payload == m.payload,
{
}

/// Putting an address in front of the onward route and taking the first hop
/// off again gives back the message as it was.
pub proof fn law_pop_undoes_push(m: MessageView, a: Address)
    ensures
        pop_front_onward(push_front_onward(m, a)) == Some(m),
{
    assert((seq![a] + m.onward).drop_first() =~= m.onward);
}

/// Taking the first hop off a message and putting it back gives back the
/// message as it was.
pub proof fn law_push_undoes_pop(m: MessageView)
    requires
        m.onward.len() > 0,
    ensures
        push_front_onward(pop_front_onward(m).unwrap(), m.onward[0]) == m,
{
    assert(seq![m.onward[0]] + m.onward.drop_first() =~= m.onward);
}

} // verus!
