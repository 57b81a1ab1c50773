use ockam_logic::rendezvous::{
    RendezvousAction, RendezvousRequest, RendezvousResponse, RendezvousWorker,
};
use ockam_logic::route::{Address, Route, TransportType, LOCAL, UDP};

fn local(a: &str) -> Address {
    Address::new(LOCAL, a.to_string())
}

fn hop(tt: TransportType, a: &str) -> Address {
    Address::new(tt, a.to_string())
}

fn route(addrs: Vec<Address>) -> Route {
    Route::from_addresses(addrs)
}

#[test]
fn parse_route() {
    assert_eq!(
        route(vec![hop(UDP, "c")]),
        RendezvousWorker::parse_route(&route(vec![local("a"), local("b"), hop(UDP, "c")]))
    );
    assert_eq!(
        route(vec![hop(UDP, "c"), local("d")]),
        RendezvousWorker::parse_route(&route(vec![local("a"), local("b"), hop(UDP, "c"), local("d")]))
    );
    assert_eq!(
        route(vec![hop(UDP, "c"), local("d"), local("e")]),
        RendezvousWorker::parse_route(&route(vec![
            local("a"),
            local("b"),
            hop(UDP, "c"),
            local("d"),
            local("e")
        ]))
    );
    let not_udp: TransportType = UDP + 1;
    assert_eq!(
        route(vec![]),
        RendezvousWorker::parse_route(&route(vec![local("a"), local("b"), hop(not_udp, "c"), local("d")]))
    );
    assert_eq!(
        route(vec![]),
        RendezvousWorker::parse_route(&route(vec![local("a"), local("b"), local("c"), local("d")]))
    );
    assert_eq!(route(vec![]), RendezvousWorker::parse_route(&route(vec![])));
}

#[test]
fn ping() {
    let mut worker = RendezvousWorker::new();
    let back = route(vec![local("sender"), hop(UDP, "192.168.1.10:4000"), local("client")]);
    let action = worker.handle_message(RendezvousRequest::Ping, back.clone());
    assert!(matches!(
        action,
        RendezvousAction::Reply { response: RendezvousResponse::Pong, .. }
    ));
    assert_eq!(
        action,
        RendezvousAction::Reply { route: back, response: RendezvousResponse::Pong }
    );
}

#[test]
fn get_my_address() {
    let mut worker = RendezvousWorker::new();
    let bind_address = "127.0.0.1:51234";
    let back = route(vec![local("sender"), hop(UDP, bind_address), local("client")]);
    match worker.handle_message(RendezvousRequest::GetMyAddress, back.clone()) {
        RendezvousAction::Reply { route: r, response: RendezvousResponse::GetMyAddress(address) } => {
            assert_eq!(address, bind_address.to_string());
            assert_eq!(r, back);
        }
        _ => panic!(),
    }
}

#[test]
fn get_my_address_takes_the_first_udp_hop() {
    let mut worker = RendezvousWorker::default();
    let back = route(vec![hop(UDP, "10.0.0.1:1"), hop(UDP, "10.0.0.2:2")]);
    assert_eq!(
        worker.handle_message(RendezvousRequest::GetMyAddress, back.clone()),
        RendezvousAction::Reply {
            route: back,
            response: RendezvousResponse::GetMyAddress("10.0.0.1:1".to_string())
        }
    );
}

#[test]
fn get_my_address_without_udp_is_ignored() {
    let mut worker = RendezvousWorker::new();
    let back = route(vec![local("a"), hop(1, "tcp-peer")]);
    assert_eq!(
        worker.handle_message(RendezvousRequest::GetMyAddress, back),
        RendezvousAction::Ignore
    );
}

#[test]
fn parse_route_twice_changes_nothing() {
    let r = route(vec![local("a"), hop(UDP, "c"), local("d"), hop(UDP, "e")]);
    let once = RendezvousWorker::parse_route(&r);
    let twice = RendezvousWorker::parse_route(&once);
    assert_eq!(once, twice);
    assert_eq!(once, route(vec![hop(UDP, "c"), local("d"), hop(UDP, "e")]));
}

#[test]
fn udp_address_is_the_head_of_the_parsed_route() {
    let routes = vec![
        route(vec![local("a"), hop(UDP, "c"), local("d")]),
        route(vec![local("a"), local("b")]),
        route(vec![]),
        route(vec![hop(UDP, "x"), hop(UDP, "y")]),
    ];
    for r in routes {
        let parsed = RendezvousWorker::parse_route(&r);
        let head = if parsed.is_empty() { None } else { Some(parsed.get(0).clone()) };
        assert_eq!(RendezvousWorker::get_udp_address(&r), head);
    }
}
