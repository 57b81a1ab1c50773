//! Addresses and routes: the values that say where a message goes next.

use vstd::prelude::*;

verus! {

/// The kind of transport an address belongs to.
pub type TransportType = u8;

/// Addresses that are local to a node.
pub const LOCAL: TransportType = 0;

/// Addresses reached over UDP.
pub const UDP: TransportType = 2;

/// One hop of a route: a transport type and the address within that transport.
#[derive(Clone, PartialEq, Eq, Debug)]
pub struct Address {
    pub transport_type: TransportType,
    pub address: String,
}

/// An ordered list of hops; the first one is where a message goes next.
#[derive(Clone, PartialEq, Eq, Debug)]
pub struct Route {
    pub addrs: Vec<Address>,
}

/// Why a route operation could not be done.
#[derive(Clone, Copy, PartialEq, Eq, Debug, Structural)]
pub enum RouteError {
    /// The route has no hop left.
    IncompleteRoute,
}

impl View for Route {
    type V = Seq<Address>;

    open spec fn view(&self) -> Seq<Address> {
        self.addrs@
    }
}

impl Address {
    /// Builds an address of the given transport type.
    pub fn new(transport_type: TransportType, address: String) -> (r: Address)
        ensures
            r.transport_type == transport_type,
            r.address == address,
    {
        Address { transport_type, address }
    }

    /// A local address.
    pub fn local(address: String) -> (r: Address)
        ensures
            r.transport_type == LOCAL,
            r.address == address,
    {
        Address { transport_type: LOCAL, address }
    }

    /// The transport type of this address.
    pub fn transport_type(&self) -> (r: TransportType)
        ensures
            r == self.transport_type,
    {
        self.transport_type
    }

    /// The address within its transport.
    pub fn address(&self) -> (r: &str)
        ensures
            r@ == self.address@,
    {
        self.address.as_str()
    }

    /// A copy of this address.
    pub fn duplicate(&self) -> (r: Address)
        ensures
            r == *self,
    {
        Address { transport_type: self.transport_type, address: self.address.clone() }
    }
}

impl Route {
    /// The empty route.
    pub fn new() -> (r: Route)
        ensures
            r@ == Seq::<Address>::empty(),
    {
        Route { addrs: Vec::new() }
    }

    /// A route with the given hops, in order.
    pub fn from_addresses(addrs: Vec<Address>) -> (r: Route)
        ensures
            r@ == addrs@,
    {
        Route { addrs }
    }

    /// The number of hops.
    pub fn len(&self) -> (r: usize)
        ensures
            r == self@.len(),
    {
        self.addrs.len()
    }

    /// Whether the route has no hop.
    pub fn is_empty(&self) -> (r: bool)
        ensures
            r == (self@.len() == 0),
    {
        self.addrs.len() == 0
    }

    /// The hop at position `i`.
    pub fn get(&self, i: usize) -> (r: &Address)
        requires
            i < self@.len(),
        ensures
            *r == self@[i as int],
    {
        &self.addrs[i]
    }

    /// This route with `addr` added as its last hop.
    pub fn append(self, addr: Address) -> (r: Route)
        ensures
            r@ == self@.push(addr),
    {
        let mut addrs = self.addrs;
        addrs.push(addr);
        Route { addrs }
    }

    /// The first hop, or an error when the route is empty.
    pub fn next(&self) -> (r: Result<&Address, RouteError>)
        ensures
            self@.len() == 0 <==> r is Err,
            r matches Ok(a) ==> *a == self@[0],
    {
        if self.addrs.len() == 0 {
            Err(RouteError::IncompleteRoute)
        } else {
            Ok(&self.addrs[0])
        }
    }

    /// Removes the first hop and returns it, or fails when the route is empty,
    /// leaving it unchanged.
    pub fn step(&mut self) -> (r: Result<Address, RouteError>)
        ensures
            old(self)@.len() == 0 <==> r is Err,
            r is Err ==> final(self)@ == old(self)@,
            r matches Ok(a) ==> a == old(self)@[0] && final(self)@ == old(self)@.drop_first(),
    {
        if self.addrs.len() == 0 {
            Err(RouteError::IncompleteRoute)
        } else {
            Ok(self.addrs.remove(0))
        }
    }

    /// Adds `addr` as the first hop.
    pub fn prepend(&mut self, addr: Address)
        ensures
            final(self)@ == seq![addr] + old(self)@,
    {
        self.addrs.insert(0, addr);
        assert(self@ =~= seq![addr] + old(self)@);
    }
}

} // verus!
