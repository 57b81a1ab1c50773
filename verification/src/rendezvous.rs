//! The UDP rendezvous service: tells a node the public UDP address from
//! which its datagrams arrive, so that two nodes behind NATs can punch holes
//! towards each other.

use vstd::prelude::*;

use crate::route::{Address, Route, UDP};

verus! {

/// Whether `a` is an address of the UDP transport.
pub open spec fn is_udp(a: Address) -> bool {
    a.transport_type == UDP
}

/// What is left of `s` once every hop before its first UDP hop is dropped;
/// empty when `s` has no UDP hop.
pub open spec fn from_first_udp(s: Seq<Address>) -> Seq<Address>
    decreases s.len(),
{
    if s.len() == 0 {
        s
    } else if is_udp(s[0]) {
        s
    } else {
        from_first_udp(s.drop_first())
    }
}

/// The first UDP hop of `s`, if it has one.
pub open spec fn first_udp(s: Seq<Address>) -> Option<Address>
    decreases s.len(),
{
    if s.len() == 0 {
        None
    } else if is_udp(s[0]) {
        Some(s[0])
    } else {
        first_udp(s.drop_first())
    }
}

/// The position of the first UDP hop of `s`, or its length when it has none.
pub open spec fn first_udp_index(s: Seq<Address>) -> int
    decreases s.len(),
{
    if s.len() == 0 {
        0
    } else if is_udp(s[0]) {
        0
    } else {
        1 + first_udp_index(s.drop_first())
    }
}

/// `from_first_udp` keeps exactly the hops from the first UDP one on.
pub proof fn lemma_from_first_udp_index(s: Seq<Address>)
    ensures
        0 <= first_udp_index(s) <= s.len(),
        from_first_udp(s) == s.skip(first_udp_index(s)),
        forall|j: int| 0 <= j < first_udp_index(s) ==> !is_udp(#[trigger] s[j]),
        first_udp_index(s) < s.len() ==> is_udp(s[first_udp_index(s)]),
    decreases s.len(),
{
    if s.len() == 0 {
        assert(s.skip(0) =~= s);
    } else if is_udp(s[0]) {
        assert(s.skip(0) =~= s);
    } else {
        lemma_from_first_udp_index(s.drop_first());
        let k = first_udp_index(s.drop_first());
        assert(s.drop_first().skip(k) =~= s.skip(k + 1));
        assert forall|j: int| 0 <= j < first_udp_index(s) implies !is_udp(#[trigger] s[j]) by {
            if j > 0 {
                assert(s[j] == s.drop_first()[j - 1]);
            }
        }
    }
}

/// Dropping the hops before the first UDP hop a second time changes nothing.
pub proof fn law_parse_route_idempotent(s: Seq<Address>)
    ensures
        from_first_udp(from_first_udp(s)) == from_first_udp(s),
    decreases s.len(),
{
    if s.len() > 0 && !is_udp(s[0]) {
        law_parse_route_idempotent(s.drop_first());
    }
}

/// The address the service reports is the first hop of the parsed route:
/// there is one exactly when the parsed route is not empty.
pub proof fn law_udp_address_heads_parsed_route(s: Seq<Address>)
    ensures
        first_udp(s) == (if from_first_udp(s).len() > 0 {
            Some(from_first_udp(s)[0])
        } else {
            None::<Address>
        }),
    decreases s.len(),
{
    if s.len() > 0 && !is_udp(s[0]) {
        law_udp_address_heads_parsed_route(s.drop_first());
    }
}

/// The parsed route is a suffix of the return route, and every hop that it
/// drops is a non-UDP one.
pub proof fn law_parse_route_is_suffix(s: Seq<Address>)
    ensures
        from_first_udp(s).len() <= s.len(),
        from_first_udp(s) == s.skip(s.len() - from_first_udp(s).len()),
        forall|j: int| 0 <= j < s.len() - from_first_udp(s).len() ==> !is_udp(#[trigger] s[j]),
        from_first_udp(s).len() > 0 ==> is_udp(from_first_udp(s)[0]),
{
    lemma_from_first_udp_index(s);
}

/// A request that a node sends to the rendezvous service.
#[derive(Clone, PartialEq, Eq, Debug)]
pub enum RendezvousRequest {
    /// Is the service there?
    Ping,
    /// From which public UDP address does my traffic arrive?
    GetMyAddress,
}

/// The service's answer to a request.
#[derive(Clone, PartialEq, Eq, Debug)]
pub enum RendezvousResponse {
    /// Answer to `Ping`.
    Pong,
    /// Answer to `GetMyAddress`: the public UDP address of the requester.
    GetMyAddress(String),
}

/// What the service does with one request.
#[derive(Clone, PartialEq, Eq, Debug)]
pub enum RendezvousAction {
    /// Send `response` along `route`.
    Reply { route: Route, response: RendezvousResponse },
    /// Send nothing: the request did not come over UDP, and there is no way to
    /// tell the sender.
    Ignore,
}

/// What the service answers to `request` when it came back along `return_route`.
pub open spec fn spec_rendezvous_answer(request: RendezvousRequest, return_route: Route) -> RendezvousAction {
    match request {
        RendezvousRequest::Ping => RendezvousAction::Reply {
            route: return_route,
            response: RendezvousResponse::Pong,
        },
        RendezvousRequest::GetMyAddress => match first_udp(return_route@) {
            Some(a) => RendezvousAction::Reply {
                route: return_route,
                response: RendezvousResponse::GetMyAddress(a.address),
            },
            None => RendezvousAction::Ignore,
        },
    }
}

/// Every ping is answered with a pong along its return route, whatever that
/// route holds. A request for the requester's address is answered along the
/// return route with the address part of the first UDP hop of that route, and
/// is ignored when no hop of the route is a UDP one.
pub proof fn law_rendezvous_answers(return_route: Route)
    ensures
        spec_rendezvous_answer(RendezvousRequest::Ping, return_route) == (RendezvousAction::Reply {
            route: return_route,
            response: RendezvousResponse::Pong,
        }),
        (forall|j: int| 0 <= j < return_route@.len() ==> !is_udp(#[trigger] return_route@[j]))
            ==> spec_rendezvous_answer(RendezvousRequest::GetMyAddress, return_route)
            == RendezvousAction::Ignore,
        forall|i: int|
            0 <= i < return_route@.len() && is_udp(#[trigger] return_route@[i]) && (forall|j: int|
                0 <= j < i ==> !is_udp(#[trigger] return_route@[j])) ==> spec_rendezvous_answer(
                RendezvousRequest::GetMyAddress,
                return_route,
            ) == (RendezvousAction::Reply {
                route: return_route,
                response: RendezvousResponse::GetMyAddress(return_route@[i].address),
            }),
{
    let s = return_route@;
    lemma_from_first_udp_index(s);
    law_udp_address_heads_parsed_route(s);
    let f = first_udp_index(s);
    if f < s.len() {
        assert(s.skip(f)[0] == s[f]);
        assert forall|i: int|
            0 <= i < s.len() && is_udp(#[trigger] s[i]) && (forall|j: int|
                0 <= j < i ==> !is_udp(#[trigger] s[j])) implies i == f by {
            if i < f {
                assert(!is_udp(s[i]));
            }
            if i > f {
                assert(is_udp(s[f]));
            }
        }
    } else {
        assert(from_first_udp(s).len() == 0);
    }
}

/// High-level handle of a UDP rendezvous service; a node may run several,
/// each at its own address.
pub struct UdpRendezvousService;

/// The worker behind a rendezvous service. It keeps no state: each answer
/// depends on the request and on the route it came back along.
#[derive(Debug)]
pub struct RendezvousWorker {}

impl Default for RendezvousWorker {
    fn default() -> (r: Self)
        ensures
            r == (RendezvousWorker {}),
    {
        Self::new()
    }
}

impl RendezvousWorker {
    /// A new worker.
    pub fn new() -> (r: Self)
        ensures
            r == (RendezvousWorker {}),
    {
        Self {}
    }

    /// The part of `return_route` from the hop at which the message arrived
    /// over UDP onward: every hop before the first UDP hop is dropped, and
    /// the result is empty when no hop is a UDP one.
    pub fn parse_route(return_route: &Route) -> (r: Route)
        ensures
            r@ == from_first_udp(return_route@),
    {
        proof {
            lemma_from_first_udp_index(return_route@);
        }
        let n = return_route.len();
        let mut i: usize = 0;
        while i < n && return_route.get(i).transport_type() != UDP
            invariant
                n == return_route@.len(),
                0 <= i <= first_udp_index(return_route@),
                first_udp_index(return_route@) <= n,
                forall|j: int| 0 <= j < first_udp_index(return_route@) ==> !is_udp(#[trigger] return_route@[j]),
                first_udp_index(return_route@) < n ==> is_udp(return_route@[first_udp_index(return_route@)]),
            decreases n - i,
        {
            i = i + 1;
        }
        assert(i == first_udp_index(return_route@));
        let mut res = Route::new();
        let start = i;
        while i < n
            invariant
                n == return_route@.len(),
                start <= i <= n,
                res@ == return_route@.subrange(start as int, i as int),
            decreases n - i,
        {
            let a = return_route.get(i).duplicate();
            res = res.append(a);
            assert(res@ =~= return_route@.subrange(start as int, i + 1));
            i = i + 1;
        }
        assert(return_route@.subrange(start as int, n as int) =~= return_route@.skip(start as int));
        res
    }

    /// The first UDP hop of `return_route`, if any.
    pub fn get_udp_address(return_route: &Route) -> (r: Option<Address>)
        ensures
            r == first_udp(return_route@),
    {
        proof {
            lemma_from_first_udp_index(return_route@);
            law_udp_address_heads_parsed_route(return_route@);
        }
        let n = return_route.len();
        let mut i: usize = 0;
        while i < n
            invariant
                n == return_route@.len(),
                0 <= i <= first_udp_index(return_route@),
                first_udp_index(return_route@) <= n,
                forall|j: int| 0 <= j < first_udp_index(return_route@) ==> !is_udp(#[trigger] return_route@[j]),
                first_udp_index(return_route@) < n ==> is_udp(return_route@[first_udp_index(return_route@)]),
                from_first_udp(return_route@) == return_route@.skip(first_udp_index(return_route@)),
                first_udp(return_route@) == (if from_first_udp(return_route@).len() > 0 {
                    Some(from_first_udp(return_route@)[0])
                } else {
                    None::<Address>
                }),
            decreases n - i,
        {
            let a = return_route.get(i);
            if a.transport_type() == UDP {
                assert(i == first_udp_index(return_route@));
                assert(return_route@.skip(i as int)[0] == return_route@[i as int]);
                assert(from_first_udp(return_route@) == return_route@.skip(i as int));
                assert(from_first_udp(return_route@).len() > 0);
                return Some(a.duplicate());
            }
            i = i + 1;
        }
        None
    }

    /// The public UDP address of the requester: the address part of the first
    /// UDP hop of `return_route`, if any.
    fn handle_get_my_address(&mut self, return_route: &Route) -> (r: Option<String>)
        ensures
            *final(self) == *old(self),
            match first_udp(return_route@) {
                Some(a) => r == Some(a.address),
                None => r is None,
            },
    {
        match Self::get_udp_address(return_route) {
            Some(a) => Some(a.address),
            None => None,
        }
    }

    /// Answers one request that came back along `return_route`: a `Ping` gets
    /// a `Pong`; a `GetMyAddress` gets the requester's public UDP address,
    /// or nothing when the request did not arrive over UDP. Either answer
    /// goes back along `return_route`.
    pub fn handle_message(&mut self, request: RendezvousRequest, return_route: Route) -> (r: RendezvousAction)
        ensures
            *final(self) == *old(self),
            r == spec_rendezvous_answer(request, return_route),
    {
        match request {
            RendezvousRequest::Ping => RendezvousAction::Reply {
                route: return_route,
                response: RendezvousResponse::Pong,
            },
            RendezvousRequest::GetMyAddress => {
                match self.handle_get_my_address(&return_route) {
                    Some(udp_address) => RendezvousAction::Reply {
                        route: return_route,
                        response: RendezvousResponse::GetMyAddress(udp_address),
                    },
                    None => RendezvousAction::Ignore,
                }
            }
        }
    }
}

} // verus!
