use ockam_logic::kafka::metadata_interceptor::{
    BrokerOutlet, InterceptError, OutletInterceptorImpl, RequestInfo,
};

fn request_frame(api_key: i16, version: i16, correlation_id: i32, client_id: &str) -> Vec<u8> {
    let mut f = Vec::new();
    f.extend_from_slice(&api_key.to_be_bytes());
    f.extend_from_slice(&version.to_be_bytes());
    f.extend_from_slice(&correlation_id.to_be_bytes());
    f.extend_from_slice(&(client_id.len() as i16).to_be_bytes());
    f.extend_from_slice(client_id.as_bytes());
    f
}

fn broker_v1(f: &mut Vec<u8>, node_id: i32, host: &str, port: i32) {
    f.extend_from_slice(&node_id.to_be_bytes());
    f.extend_from_slice(&(host.len() as i16).to_be_bytes());
    f.extend_from_slice(host.as_bytes());
    f.extend_from_slice(&port.to_be_bytes());
    f.extend_from_slice(&(-1i16).to_be_bytes());
}

/// A version 1 metadata response: header version 0, then the brokers, the
/// controller id and an empty topic list.
fn metadata_response_v1(correlation_id: i32, brokers: &[(i32, &str, i32)]) -> Vec<u8> {
    let mut f = Vec::new();
    f.extend_from_slice(&correlation_id.to_be_bytes());
    f.extend_from_slice(&(brokers.len() as i32).to_be_bytes());
    for (id, host, port) in brokers {
        broker_v1(&mut f, *id, host, *port);
    }
    f.extend_from_slice(&1i32.to_be_bytes());
    f.extend_from_slice(&0i32.to_be_bytes());
    f
}

#[test]
fn metadata_request_is_recorded_and_passed_on() {
    let mut i = OutletInterceptorImpl::new();
    let frame = request_frame(3, 1, 7, "client");
    assert_eq!(i.intercept_request(frame.clone()), Ok(frame));
    assert_eq!(
        i.recorded_request(7),
        Some(RequestInfo { request_api_key: 3, request_api_version: 1 })
    );
    assert_eq!(i.recorded_request(8), None);
}

#[test]
fn other_requests_are_not_recorded() {
    let mut i = OutletInterceptorImpl::new();
    let produce = request_frame(0, 3, 11, "p");
    assert_eq!(i.intercept_request(produce.clone()), Ok(produce));
    assert_eq!(i.recorded_request(11), None);
}

#[test]
fn unknown_api_key_is_invalid() {
    let mut i = OutletInterceptorImpl::new();
    assert_eq!(
        i.intercept_request(request_frame(4, 0, 5, "c")),
        Err(InterceptError::InvalidData)
    );
    assert_eq!(
        i.intercept_request(request_frame(-1, 0, 5, "c")),
        Err(InterceptError::InvalidData)
    );
    assert_eq!(i.recorded_request(5), None);
}

#[test]
fn truncated_header_is_invalid() {
    let mut i = OutletInterceptorImpl::new();
    let frame = vec![0, 3, 0, 1, 0, 0, 0, 9];
    assert_eq!(i.intercept_request(frame), Err(InterceptError::InvalidData));
    assert_eq!(i.recorded_request(9), None);
}

#[test]
fn metadata_response_lists_broker_outlets() {
    let mut i = OutletInterceptorImpl::new();
    i.intercept_request(request_frame(3, 1, 7, "client")).unwrap();
    let response = metadata_response_v1(7, &[(1, "localhost", 9092), (2, "kafka-2", 9093)]);
    let (bytes, outlets) = i.intercept_response(response.clone()).unwrap();
    assert_eq!(bytes, response);
    assert_eq!(
        outlets,
        vec![
            BrokerOutlet { broker_id: 1, address: "localhost:9092".to_string() },
            BrokerOutlet { broker_id: 2, address: "kafka-2:9093".to_string() },
        ]
    );
}

#[test]
fn broker_ports_are_written_in_decimal() {
    let mut i = OutletInterceptorImpl::new();
    i.intercept_request(request_frame(3, 1, -3, "c")).unwrap();
    let response = metadata_response_v1(-3, &[(0, "h", 0), (5, "h", -2147483648), (6, "h", 2147483647)]);
    let (_, outlets) = i.intercept_response(response).unwrap();
    let addresses: Vec<String> = outlets.into_iter().map(|o| o.address).collect();
    assert_eq!(addresses, vec!["h:0", "h:-2147483648", "h:2147483647"]);
}

#[test]
fn unrecorded_response_asks_for_nothing() {
    let i = OutletInterceptorImpl::new();
    let response = metadata_response_v1(42, &[(1, "localhost", 9092)]);
    assert_eq!(i.intercept_response(response.clone()), Ok((response, vec![])));
}

#[test]
fn malformed_metadata_response_is_invalid() {
    let mut i = OutletInterceptorImpl::new();
    i.intercept_request(request_frame(3, 1, 7, "client")).unwrap();
    let response = vec![0, 0, 0, 7, 0, 0];
    assert_eq!(i.intercept_response(response), Err(InterceptError::InvalidData));
}

#[test]
fn latest_request_with_a_correlation_id_wins() {
    let mut i = OutletInterceptorImpl::new();
    i.intercept_request(request_frame(3, 1, 7, "a")).unwrap();
    i.intercept_request(request_frame(3, 4, 7, "b")).unwrap();
    assert_eq!(
        i.recorded_request(7),
        Some(RequestInfo { request_api_key: 3, request_api_version: 4 })
    );
}

/// A version 9 metadata exchange: flexible headers and compact encodings.
#[test]
fn flexible_metadata_exchange() {
    let mut i = OutletInterceptorImpl::new();
    let mut request = request_frame(3, 9, 21, "client");
    request.push(0); // no tagged fields in the request header
    request.extend_from_slice(&[1, 0, 0]); // body: no topics, flags
    assert_eq!(i.intercept_request(request.clone()), Ok(request));
    assert_eq!(
        i.recorded_request(21),
        Some(RequestInfo { request_api_key: 3, request_api_version: 9 })
    );

    let mut response = Vec::new();
    response.extend_from_slice(&21i32.to_be_bytes());
    response.push(0); // no tagged fields in the response header
    response.extend_from_slice(&0i32.to_be_bytes()); // throttle time
    response.push(2); // one broker
    response.extend_from_slice(&4i32.to_be_bytes());
    response.push(7); // host of six bytes
    response.extend_from_slice(b"broker");
    response.extend_from_slice(&19092i32.to_be_bytes());
    response.push(0); // no rack
    response.push(0); // no tagged fields
    response.push(0); // no cluster id
    response.extend_from_slice(&4i32.to_be_bytes()); // controller id
    response.push(1); // no topics
    response.extend_from_slice(&0i32.to_be_bytes()); // cluster authorized operations
    response.push(0); // no tagged fields
    let (bytes, outlets) = i.intercept_response(response.clone()).unwrap();
    assert_eq!(bytes, response);
    assert_eq!(outlets, vec![BrokerOutlet { broker_id: 4, address: "broker:19092".to_string() }]);
}

#[test]
fn short_frame_with_unknown_key_is_invalid() {
    let mut i = OutletInterceptorImpl::new();
    assert_eq!(i.intercept_request(vec![0, 5, 0]), Err(InterceptError::InvalidData));
    assert!(ockam_logic::kafka::wire::is_known_api_key(3));
    assert!(!ockam_logic::kafka::wire::is_known_api_key(88));
    assert!(ockam_logic::kafka::wire::is_known_api_key(92));
}

#[test]
fn repeated_broker_id_gives_one_outlet() {
    let mut i = OutletInterceptorImpl::new();
    i.intercept_request(request_frame(3, 1, 30, "c")).unwrap();
    let response = metadata_response_v1(30, &[(1, "a", 1), (2, "b", 2), (1, "c", 3)]);
    let (_, outlets) = i.intercept_response(response).unwrap();
    assert_eq!(
        outlets,
        vec![
            BrokerOutlet { broker_id: 1, address: "c:3".to_string() },
            BrokerOutlet { broker_id: 2, address: "b:2".to_string() },
        ]
    );
}
