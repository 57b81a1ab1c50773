use ockam_logic::hole_punching::redirect_to_responder;
use ockam_logic::kafka::portal_listener::accept_first_message;
use ockam_logic::message::LocalMessage;
use ockam_logic::route::{Address, Route, RouteError, LOCAL};

fn local(a: &str) -> Address {
    Address::new(LOCAL, a.to_string())
}

fn route(names: &[&str]) -> Route {
    Route::from_addresses(names.iter().map(|n| local(n)).collect())
}

#[test]
fn route_next_step_and_prepend() {
    let mut r = route(&["a", "b"]);
    assert_eq!(r.next(), Ok(&local("a")));
    assert_eq!(r.step(), Ok(local("a")));
    assert_eq!(r, route(&["b"]));
    r.prepend(local("z"));
    assert_eq!(r, route(&["z", "b"]));
    let mut empty = Route::new();
    assert_eq!(empty.next(), Err(RouteError::IncompleteRoute));
    assert_eq!(empty.step(), Err(RouteError::IncompleteRoute));
    assert!(empty.is_empty());
    assert_eq!(Route::new().append(local("x")).append(local("y")), route(&["x", "y"]));
}

#[test]
fn pop_undoes_push() {
    let m = LocalMessage::new(route(&["a", "b"]), route(&["r"]), vec![1, 2, 3]);
    let pushed = m.clone().push_front_onward_route(&local("w"));
    assert_eq!(pushed.onward_route, route(&["w", "a", "b"]));
    assert_eq!(pushed.pop_front_onward_route(), Ok(m));
}

#[test]
fn pop_on_empty_onward_route_fails() {
    let m = LocalMessage::new(Route::new(), route(&["r"]), vec![]);
    assert_eq!(m.pop_front_onward_route(), Err(RouteError::IncompleteRoute));
}

#[test]
fn first_message_is_read() {
    let m = LocalMessage::new(route(&["listener", "outlet"]), route(&["inlet", "app"]), vec![9]);
    let f = accept_first_message(m).unwrap();
    assert_eq!(f.message, LocalMessage::new(route(&["outlet"]), route(&["inlet", "app"]), vec![9]));
    assert_eq!(f.next_hop, local("outlet"));
    assert_eq!(f.inlet_responder, local("inlet"));
}

#[test]
fn first_message_needs_a_next_hop_and_a_return_route() {
    let no_next = LocalMessage::new(route(&["listener"]), route(&["inlet"]), vec![]);
    assert_eq!(accept_first_message(no_next), Err(RouteError::IncompleteRoute));
    let no_return = LocalMessage::new(route(&["listener", "outlet"]), Route::new(), vec![]);
    assert_eq!(accept_first_message(no_return), Err(RouteError::IncompleteRoute));
    let nothing = LocalMessage::new(Route::new(), route(&["inlet"]), vec![]);
    assert_eq!(accept_first_message(nothing), Err(RouteError::IncompleteRoute));
}

#[test]
fn request_goes_to_the_responder() {
    let m = LocalMessage::new(route(&["listener", "x"]), route(&["peer"]), vec![7]);
    let r = redirect_to_responder(m, &local("responder")).unwrap();
    assert_eq!(r, LocalMessage::new(route(&["responder", "x"]), route(&["peer"]), vec![7]));
    let empty = LocalMessage::new(Route::new(), route(&["peer"]), vec![]);
    assert_eq!(redirect_to_responder(empty, &local("responder")), Err(RouteError::IncompleteRoute));
}
