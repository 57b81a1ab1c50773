//! The outlet side of a Kafka portal watches metadata exchanges: it records
//! each metadata request by correlation id, and when the matching response
//! comes back it lists the brokers for which an outlet must exist.

use std::collections::HashMap;

use vstd::prelude::*;

use crate::decimal::{
    decimal_value, int_decimal, is_digit, law_int_decimal_reads_back, push_i32_decimal,
};
use crate::kafka::wire::{
    api_key_is_known, be_i16, be_i32, broker_entry, decode_metadata_brokers, decode_request_header,
    decode_response_header, kafka_metadata_brokers, kafka_request_header,
    kafka_request_header_version, kafka_response_header_rest, kafka_response_header_version,
    known_api_key, read_i16_be, read_i32_be, request_header_version, response_header_version,
    MetadataBroker, METADATA_API_KEY,
};

verus! {

broadcast use vstd::std_specs::hash::group_hash_axioms;

/// What the interceptor remembers of a request until its response arrives.
#[derive(Clone, Copy, PartialEq, Eq, Debug, Structural)]
pub struct RequestInfo {
    pub request_api_key: i16,
    pub request_api_version: i16,
}

/// Why a frame could not be intercepted.
#[derive(Clone, Copy, PartialEq, Eq, Debug, Structural)]
pub enum InterceptError {
    /// The frame is not a valid Kafka frame of a known API.
    InvalidData,
}

/// A broker for which an outlet must exist: its id and `host:port` address.
#[derive(Clone, PartialEq, Eq, Debug)]
pub struct BrokerOutlet {
    pub broker_id: i32,
    pub address: String,
}

/// The plain values of a broker outlet.
pub open spec fn outlet_entry(o: BrokerOutlet) -> (i32, Seq<char>) {
    (o.broker_id, o.address@)
}

/// The address of a broker outlet: host, colon, port in decimal.
pub open spec fn outlet_address(host: Seq<char>, port: i32) -> Seq<char> {
    host + seq![':'] + int_decimal(port as int)
}

/// The outlet of a broker entry of a metadata response.
pub open spec fn outlet_of_broker(b: (i32, Seq<char>, i32)) -> (i32, Seq<char>) {
    (b.0, outlet_address(b.1, b.2))
}

/// The outlet of a broker keeps the broker's id, and its address is the
/// broker's whole host text, then ':', then the port in decimal: digits that
/// read back as the port, after a minus sign exactly when the port is
/// negative.
pub proof fn law_outlet_is_host_colon_port(b: (i32, Seq<char>, i32))
    ensures
        outlet_of_broker(b).0 == b.0,
        outlet_of_broker(b).1.len() > b.1.len() + 1,
        outlet_of_broker(b).1.take(b.1.len() as int) == b.1,
        outlet_of_broker(b).1[b.1.len() as int] == ':',
        ({
            let port = outlet_of_broker(b).1.skip(b.1.len() as int + 1);
            &&& b.2 >= 0 ==> decimal_value(port) == b.2 && forall|k: int|
                0 <= k < port.len() ==> is_digit(#[trigger] port[k])
            &&& b.2 < 0 ==> port[0] == '-' && decimal_value(port.drop_first()) == -b.2
                && forall|k: int| 0 <= k < port.drop_first().len() ==> is_digit(#[trigger] port.drop_first()[k])
        }),
{
    let (id, host, p) = b;
    law_int_decimal_reads_back(p as int);
    crate::decimal::law_nat_decimal_reads_back(if p < 0 { (-p) as nat } else { p as nat });
    let a = outlet_of_broker(b).1;
    assert(a == host + seq![':'] + int_decimal(p as int));
    assert(a.take(host.len() as int) =~= host);
    assert(a.skip(host.len() as int + 1) =~= int_decimal(p as int));
}

/// The broker entries `acc` after `b` is added under its node id: an entry
/// with the same id takes `b`'s values in its place, and otherwise `b` comes
/// last.
pub open spec fn replace_or_append(acc: Seq<(i32, Seq<char>, i32)>, b: (i32, Seq<char>, i32)) -> Seq<
    (i32, Seq<char>, i32),
> {
    if exists|k: int| 0 <= k < acc.len() && #[trigger] acc[k].0 == b.0 {
        acc.map_values(|e: (i32, Seq<char>, i32)| if e.0 == b.0 { b } else { e })
    } else {
        acc.push(b)
    }
}

/// The brokers of a metadata response keyed by node id: one entry per id, in
/// the order in which the ids first appear, with the values of the id's last
/// entry.
pub open spec fn keyed_brokers(s: Seq<(i32, Seq<char>, i32)>) -> Seq<(i32, Seq<char>, i32)>
    decreases s.len(),
{
    if s.len() == 0 {
        Seq::empty()
    } else {
        replace_or_append(keyed_brokers(s.drop_last()), s.last())
    }
}

/// Whether some entry of `s` has node id `id`.
pub open spec fn lists_id(s: Seq<(i32, Seq<char>, i32)>, id: i32) -> bool {
    exists|k: int| 0 <= k < s.len() && #[trigger] s[k].0 == id
}

/// A metadata response gives one outlet per broker node id: the keyed
/// brokers have distinct ids, and those ids are exactly the ids of the
/// response's brokers.
pub proof fn law_one_entry_per_broker_id(s: Seq<(i32, Seq<char>, i32)>)
    ensures
        forall|i: int, j: int|
            0 <= i < j < keyed_brokers(s).len() ==> #[trigger] keyed_brokers(s)[i].0
                != #[trigger] keyed_brokers(s)[j].0,
        forall|i: int| 0 <= i < s.len() ==> lists_id(keyed_brokers(s), #[trigger] s[i].0),
        forall|k: int|
            0 <= k < keyed_brokers(s).len() ==> lists_id(s, #[trigger] keyed_brokers(s)[k].0),
    decreases s.len(),
{
    if s.len() > 0 {
        let prev = s.drop_last();
        let b = s.last();
        law_one_entry_per_broker_id(prev);
        let acc = keyed_brokers(prev);
        let r = keyed_brokers(s);
        assert(r == replace_or_append(acc, b));
        if exists|k: int| 0 <= k < acc.len() && #[trigger] acc[k].0 == b.0 {
            let w = choose|k: int| 0 <= k < acc.len() && #[trigger] acc[k].0 == b.0;
            assert(r.len() == acc.len());
            assert forall|k: int| 0 <= k < r.len() implies #[trigger] r[k].0 == acc[k].0 by {}
            assert forall|i: int| 0 <= i < s.len() implies lists_id(r, #[trigger] s[i].0) by {
                if i < s.len() - 1 {
                    assert(s[i] == prev[i]);
                    assert(lists_id(acc, prev[i].0));
                    let k = choose|k: int| 0 <= k < acc.len() && #[trigger] acc[k].0 == prev[i].0;
                    assert(r[k].0 == s[i].0);
                } else {
                    assert(r[w].0 == s[i].0);
                }
            }
            assert forall|k: int| 0 <= k < r.len() implies lists_id(s, #[trigger] r[k].0) by {
                assert(lists_id(prev, acc[k].0));
                let i = choose|i: int| 0 <= i < prev.len() && #[trigger] prev[i].0 == acc[k].0;
                assert(s[i] == prev[i]);
            }
        } else {
            assert(r == acc.push(b));
            assert forall|i: int| 0 <= i < s.len() implies lists_id(r, #[trigger] s[i].0) by {
                if i < s.len() - 1 {
                    assert(s[i] == prev[i]);
                    assert(lists_id(acc, prev[i].0));
                    let k = choose|k: int| 0 <= k < acc.len() && #[trigger] acc[k].0 == prev[i].0;
                    assert(r[k] == acc[k]);
                } else {
                    assert(r[acc.len() as int].0 == s[i].0);
                }
            }
            assert forall|k: int| 0 <= k < r.len() implies lists_id(s, #[trigger] r[k].0) by {
                if k < acc.len() {
                    assert(lists_id(prev, acc[k].0));
                    let i = choose|i: int| 0 <= i < prev.len() && #[trigger] prev[i].0 == acc[k].0;
                    assert(s[i] == prev[i]);
                    assert(r[k] == acc[k]);
                } else {
                    assert(s[s.len() - 1].0 == r[k].0);
                }
            }
            assert forall|i: int, j: int| 0 <= i < j < r.len() implies #[trigger] r[i].0 != #[trigger] r[j].0 by {
                if j == acc.len() {
                    assert(r[i] == acc[i]);
                } else {
                    assert(r[i] == acc[i] && r[j] == acc[j]);
                }
            }
        }
    }
}

/// Whether `e` is an entry of `s` after which no entry of `s` has the same
/// node id.
pub open spec fn is_last_entry_for_its_id(s: Seq<(i32, Seq<char>, i32)>, e: (i32, Seq<char>, i32)) -> bool {
    exists|i: int|
        0 <= i < s.len() && #[trigger] s[i] == e && forall|j: int|
            i < j < s.len() ==> #[trigger] s[j].0 != e.0
}

/// Each keyed broker is the last entry of the response with its node id: a
/// later entry for the same broker replaces the values of an earlier one.
pub proof fn law_last_entry_wins(s: Seq<(i32, Seq<char>, i32)>)
    ensures
        forall|k: int|
            0 <= k < keyed_brokers(s).len() ==> is_last_entry_for_its_id(s, #[trigger] keyed_brokers(s)[k]),
    decreases s.len(),
{
    if s.len() > 0 {
        let prev = s.drop_last();
        let b = s.last();
        law_last_entry_wins(prev);
        let acc = keyed_brokers(prev);
        let r = keyed_brokers(s);
        let n = s.len() - 1;
        assert(s[n] == b);
        assert(r == replace_or_append(acc, b));
        assert forall|k: int| 0 <= k < r.len() implies is_last_entry_for_its_id(s, #[trigger] r[k]) by {
            if r[k] == b {
                assert(forall|j: int| n < j < s.len() ==> #[trigger] s[j].0 != b.0);
                assert(s[n] == r[k]);
            } else {
                let found = exists|m: int| 0 <= m < acc.len() && #[trigger] acc[m].0 == b.0;
                assert(k < acc.len());
                if found {
                    assert(r[k] == (if acc[k].0 == b.0 { b } else { acc[k] }));
                }
                assert(r[k] == acc[k]);
                assert(acc[k].0 != b.0);
                assert(is_last_entry_for_its_id(prev, acc[k]));
                let i = choose|i: int|
                    0 <= i < prev.len() && #[trigger] prev[i] == acc[k] && forall|j: int|
                        i < j < prev.len() ==> #[trigger] prev[j].0 != acc[k].0;
                assert(s[i] == prev[i]);
                assert forall|j: int| i < j < s.len() implies #[trigger] s[j].0 != r[k].0 by {
                    if j < n {
                        assert(s[j] == prev[j]);
                    }
                }
            }
        }
    }
}

/// Whether the entries of `s` have pairwise distinct node ids.
pub open spec fn distinct_ids(s: Seq<(i32, Seq<char>, i32)>) -> bool {
    forall|i: int, j: int| 0 <= i < j < s.len() ==> #[trigger] s[i].0 != #[trigger] s[j].0
}

/// When the brokers of a metadata response have distinct node ids, keying
/// them by id changes nothing: there is one outlet per broker, in the order
/// of the response.
pub proof fn law_distinct_ids_keep_response_order(s: Seq<(i32, Seq<char>, i32)>)
    requires
        distinct_ids(s),
    ensures
        keyed_brokers(s) == s,
    decreases s.len(),
{
    if s.len() > 0 {
        let prev = s.drop_last();
        assert(distinct_ids(prev)) by {
            assert forall|i: int, j: int| 0 <= i < j < prev.len() implies #[trigger] prev[i].0
                != #[trigger] prev[j].0 by {
                assert(prev[i] == s[i] && prev[j] == s[j]);
            }
        }
        law_distinct_ids_keep_response_order(prev);
        let b = s.last();
        assert(!exists|k: int| 0 <= k < prev.len() && #[trigger] prev[k].0 == b.0) by {
            assert forall|k: int| 0 <= k < prev.len() implies #[trigger] prev[k].0 != b.0 by {
                assert(prev[k] == s[k]);
                assert(s[k].0 != s[s.len() - 1].0);
            }
        }
        assert(prev.push(b) =~= s);
    }
}

/// A metadata response whose brokers have distinct node ids asks for one
/// outlet per broker, at `host:port`, in the order of the response.
pub proof fn law_metadata_outlets_in_response_order(
    bytes: Seq<u8>,
    version: i16,
    rest: usize,
    brokers: Seq<(i32, Seq<char>, i32)>,
)
    requires
        kafka_response_header_rest(bytes, kafka_response_header_version(METADATA_API_KEY, version))
            == Some(rest),
        kafka_metadata_brokers(bytes.skip(bytes.len() - rest), version) == Some(brokers),
        distinct_ids(brokers),
    ensures
        metadata_response_outlets(bytes, version) == Ok::<Seq<(i32, Seq<char>)>, InterceptError>(
            brokers.map_values(|b: (i32, Seq<char>, i32)| outlet_of_broker(b)),
        ),
{
    law_distinct_ids_keep_response_order(brokers);
}

/// What intercepting the request frame `bytes` does, given the recorded
/// requests `map`: the result, and the recorded requests afterwards.
/// The API key and version are read from the first four bytes; an unknown
/// key, or a header that does not decode, is invalid data. A metadata
/// request is recorded under its correlation id; every valid frame is passed
/// on unchanged.
pub open spec fn spec_intercept_request(map: Map<i32, RequestInfo>, bytes: Seq<u8>) -> (
    Result<Seq<u8>, InterceptError>,
    Map<i32, RequestInfo>,
) {
    let key = be_i16(bytes, 0);
    let version = be_i16(bytes, 2);
    if !known_api_key(key) {
        (Err(InterceptError::InvalidData), map)
    } else {
        match kafka_request_header(bytes, kafka_request_header_version(key as i16, version as i16)) {
            None => (Err(InterceptError::InvalidData), map),
            Some((correlation_id, api_version)) => if key == METADATA_API_KEY {
                (
                    Ok(bytes),
                    map.insert(
                        correlation_id,
                        RequestInfo { request_api_key: METADATA_API_KEY, request_api_version: api_version },
                    ),
                )
            } else {
                (Ok(bytes), map)
            },
        }
    }
}

/// What intercepting the response frame `bytes` gives, given the recorded
/// requests `map`: the broker outlets to ensure, one per broker node id, in
/// the order in which the ids first appear in the response.
/// A response whose correlation id (its first four bytes) was not recorded
/// asks for nothing. Otherwise its header must decode at the header version
/// of the recorded request, and for a metadata request the body must decode
/// as a metadata response at the recorded API version; each broker node id
/// needs an outlet, at the address of the id's last entry.
pub open spec fn spec_intercept_response(map: Map<i32, RequestInfo>, bytes: Seq<u8>) -> Result<
    Seq<(i32, Seq<char>)>,
    InterceptError,
> {
    let correlation_id = be_i32(bytes, 0) as i32;
    if !map.contains_key(correlation_id) {
        Ok(Seq::empty())
    } else {
        let info = map[correlation_id];
        match kafka_response_header_rest(
            bytes,
            kafka_response_header_version(info.request_api_key, info.request_api_version),
        ) {
            None => Err(InterceptError::InvalidData),
            Some(rest) => if info.request_api_key == METADATA_API_KEY {
                match kafka_metadata_brokers(bytes.skip(bytes.len() - rest), info.request_api_version) {
                    None => Err(InterceptError::InvalidData),
                    Some(brokers) => Ok(
                        keyed_brokers(brokers).map_values(
                            |b: (i32, Seq<char>, i32)| outlet_of_broker(b),
                        ),
                    ),
                }
            } else {
                Ok(Seq::empty())
            },
        }
    }
}

/// How a response to a metadata request made at API version `version` is
/// read: its header at the metadata response header version, then its body
/// as a metadata response; each broker needs an outlet.
pub open spec fn metadata_response_outlets(bytes: Seq<u8>, version: i16) -> Result<
    Seq<(i32, Seq<char>)>,
    InterceptError,
> {
    match kafka_response_header_rest(bytes, kafka_response_header_version(METADATA_API_KEY, version)) {
        None => Err(InterceptError::InvalidData),
        Some(rest) => match kafka_metadata_brokers(bytes.skip(bytes.len() - rest), version) {
            None => Err(InterceptError::InvalidData),
            Some(brokers) => Ok(
                keyed_brokers(brokers).map_values(|b: (i32, Seq<char>, i32)| outlet_of_broker(b)),
            ),
        },
    }
}

/// A metadata request that is let through is remembered: the response that
/// carries its correlation id is read as a metadata response at the API
/// version of the request, whatever was recorded before.
pub proof fn law_metadata_response_follows_its_request(
    map: Map<i32, RequestInfo>,
    request: Seq<u8>,
    response: Seq<u8>,
)
    requires
        request.len() >= 4,
        be_i16(request, 0) == METADATA_API_KEY,
        spec_intercept_request(map, request).0 is Ok,
    ensures
        ({
            let header = kafka_request_header(
                request,
                kafka_request_header_version(METADATA_API_KEY, be_i16(request, 2) as i16),
            ).unwrap();
            be_i32(response, 0) as i32 == header.0 ==> spec_intercept_response(
                spec_intercept_request(map, request).1,
                response,
            ) == metadata_response_outlets(response, header.1)
        }),
{
}

/// A response to a recorded metadata request made at API version `v` is read
/// at the metadata response header version for `v`; it is refused when that
/// header does not decode, and otherwise its body, the bytes after the header,
/// must decode as a metadata response at version `v`, whose brokers keyed by
/// node id give the outlets, in order.
pub proof fn law_recorded_metadata_response(map: Map<i32, RequestInfo>, response: Seq<u8>)
    requires
        map.contains_key(be_i32(response, 0) as i32),
        map[be_i32(response, 0) as i32].request_api_key == METADATA_API_KEY,
    ensures
        ({
            let v = map[be_i32(response, 0) as i32].request_api_version;
            let header = kafka_response_header_rest(
                response,
                kafka_response_header_version(METADATA_API_KEY, v),
            );
            let outcome = spec_intercept_response(map, response);
            &&& header is None ==> outcome == Err::<Seq<(i32, Seq<char>)>, InterceptError>(
                InterceptError::InvalidData,
            )
            &&& header matches Some(rest) ==> {
                let body = response.subrange(response.len() - rest, response.len() as int);
                &&& kafka_metadata_brokers(body, v) is None ==> outcome == Err::<
                    Seq<(i32, Seq<char>)>,
                    InterceptError,
                >(InterceptError::InvalidData)
                &&& kafka_metadata_brokers(body, v) matches Some(brokers) ==> outcome == Ok::<
                    Seq<(i32, Seq<char>)>,
                    InterceptError,
                >(keyed_brokers(brokers).map_values(|b: (i32, Seq<char>, i32)| outlet_of_broker(b)))
            }
        }),
{
    let v = map[be_i32(response, 0) as i32].request_api_version;
    let header = kafka_response_header_rest(response, kafka_response_header_version(METADATA_API_KEY, v));
    if let Some(rest) = header {
        assert(response.subrange(response.len() - rest, response.len() as int) =~= response.skip(
            response.len() - rest,
        ));
    }
}

/// Requests other than metadata requests leave the recorded requests as they
/// are, and so does every request that is refused.
pub proof fn law_only_metadata_requests_are_recorded(map: Map<i32, RequestInfo>, request: Seq<u8>)
    requires
        be_i16(request, 0) != METADATA_API_KEY || spec_intercept_request(map, request).0 is Err,
    ensures
        spec_intercept_request(map, request).1 == map,
{
}

/// Intercepting a request never forgets a recorded request: it either keeps
/// the record as it was or replaces the record with the new request's
/// correlation id.
pub proof fn law_records_are_kept(map: Map<i32, RequestInfo>, request: Seq<u8>)
    ensures
        spec_intercept_request(map, request).1 == map || exists|c: i32, info: RequestInfo|
            spec_intercept_request(map, request).1 == map.insert(c, info),
        map.dom().subset_of(spec_intercept_request(map, request).1.dom()),
{
    let (outcome, after) = spec_intercept_request(map, request);
    if after != map {
        let header = kafka_request_header(
            request,
            kafka_request_header_version(be_i16(request, 0) as i16, be_i16(request, 2) as i16),
        ).unwrap();
        let info = RequestInfo { request_api_key: METADATA_API_KEY, request_api_version: header.1 };
        assert(after == map.insert(header.0, info));
    }
}

/// A request frame is passed on exactly when its API key is known and its
/// header decodes at the header version of that key and API version; then it
/// is passed on byte for byte, a metadata request is recorded under its
/// correlation id with its API version, and any other request leaves the
/// records as they were. A refused frame leaves the records as they were.
pub proof fn law_decodable_request_passes(map: Map<i32, RequestInfo>, request: Seq<u8>)
    ensures
        ({
            let key = be_i16(request, 0);
            let header = kafka_request_header(
                request,
                kafka_request_header_version(key as i16, be_i16(request, 2) as i16),
            );
            let (outcome, after) = spec_intercept_request(map, request);
            &&& (known_api_key(key) && header is Some) <==> outcome is Ok
            &&& outcome is Ok ==> outcome == Ok::<Seq<u8>, InterceptError>(request)
            &&& outcome is Err ==> outcome == Err::<Seq<u8>, InterceptError>(InterceptError::InvalidData)
                && after == map
            &&& (outcome is Ok && key == METADATA_API_KEY) ==> {
                &&& after.contains_key(header.unwrap().0)
                &&& after[header.unwrap().0] == RequestInfo {
                    request_api_key: METADATA_API_KEY,
                    request_api_version: header.unwrap().1,
                }
                &&& forall|c: i32| c != header.unwrap().0 ==> (#[trigger] after.contains_key(c)
                    == map.contains_key(c) && (map.contains_key(c) ==> after[c] == map[c]))
            }
            &&& (outcome is Ok && key != METADATA_API_KEY) ==> after == map
        }),
{
}

/// A valid request frame is passed on byte for byte.
pub proof fn law_valid_request_passes_unchanged(map: Map<i32, RequestInfo>, request: Seq<u8>)
    ensures
        spec_intercept_request(map, request).0 is Ok ==> spec_intercept_request(map, request).0
            == Ok::<Seq<u8>, InterceptError>(request),
{
}

/// A response to no recorded request asks for no outlet.
pub proof fn law_unrecorded_response_asks_nothing(map: Map<i32, RequestInfo>, response: Seq<u8>)
    requires
        !map.contains_key(be_i32(response, 0) as i32),
    ensures
        spec_intercept_response(map, response) == Ok::<Seq<(i32, Seq<char>)>, InterceptError>(
            Seq::empty(),
        ),
{
}

/// The Kafka interceptor on the outlet side of a portal.
pub struct OutletInterceptorImpl {
    request_map: HashMap<i32, RequestInfo>,
}

impl View for OutletInterceptorImpl {
    type V = Map<i32, RequestInfo>;

    closed spec fn view(&self) -> Map<i32, RequestInfo> {
        self.request_map@
    }
}

impl OutletInterceptorImpl {
    /// Only metadata requests are ever recorded.
    #[verifier::type_invariant]
    closed spec fn records_metadata_only(self) -> bool {
        forall|c: i32| #[trigger]
            self.request_map@.contains_key(c) ==> self.request_map@[c].request_api_key
                == METADATA_API_KEY
    }

    /// An interceptor that has recorded nothing.
    pub fn new() -> (r: Self)
        ensures
            r@ == Map::<i32, RequestInfo>::empty(),
    {
        OutletInterceptorImpl { request_map: HashMap::new() }
    }

    /// The request recorded under `correlation_id`, if any.
    pub fn recorded_request(&self, correlation_id: i32) -> (r: Option<RequestInfo>)
        ensures
            r == (if self@.contains_key(correlation_id) {
                Some(self@[correlation_id])
            } else {
                None::<RequestInfo>
            }),
    {
        match self.request_map.get(&correlation_id) {
            Some(info) => Some(*info),
            None => None,
        }
    }

    /// Intercepts a request frame on its way to the broker: records it when it
    /// is a metadata request, and passes it on unchanged. The frame must hold
    /// its API key, and when that key is known, its API version too.
    pub fn intercept_request(&mut self, original: Vec<u8>) -> (r: Result<Vec<u8>, InterceptError>)
        requires
            original@.len() >= 2,
            known_api_key(be_i16(original@, 0)) ==> original@.len() >= 4,
        ensures
            ({
                let (outcome, map) = spec_intercept_request(old(self)@, original@);
                &&& final(self)@ == map
                &&& match (r, outcome) {
                    (Ok(b), Ok(s)) => b == original && s == original@,
                    (Err(e), Err(f)) => e == f,
                    _ => false,
                }
            }),
    {
        let api_key = read_i16_be(original.as_slice(), 0);
        if !api_key_is_known(api_key) {
            return Err(InterceptError::InvalidData);
        }
        let version = read_i16_be(original.as_slice(), 2);
        let header_version = request_header_version(api_key, version);
        match decode_request_header(original.as_slice(), header_version) {
            None => Err(InterceptError::InvalidData),
            Some((correlation_id, request_api_version)) => {
                if api_key == METADATA_API_KEY {
                    proof {
                        use_type_invariant(&*self);
                    }
                    let mut map = HashMap::new();
                    std::mem::swap(&mut map, &mut self.request_map);
                    map.insert(
                        correlation_id,
                        RequestInfo { request_api_key: METADATA_API_KEY, request_api_version },
                    );
                    self.request_map = map;
                }
                Ok(original)
            },
        }
    }
}

/// The brokers of a metadata response keyed by node id.
fn index_brokers(brokers: &Vec<MetadataBroker>) -> (r: Vec<MetadataBroker>)
    ensures
        r@.map_values(|b: MetadataBroker| broker_entry(b)) == keyed_brokers(
            brokers@.map_values(|b: MetadataBroker| broker_entry(b)),
        ),
{
    let ghost entries = brokers@.map_values(|b: MetadataBroker| broker_entry(b));
    let mut acc: Vec<MetadataBroker> = Vec::new();
    let n = brokers.len();
    let mut i: usize = 0;
    assert(entries.take(0) =~= Seq::<(i32, Seq<char>, i32)>::empty());
    while i < n
        invariant
            n == brokers@.len(),
            entries == brokers@.map_values(|b: MetadataBroker| broker_entry(b)),
            i <= n,
            acc@.map_values(|b: MetadataBroker| broker_entry(b)) == keyed_brokers(
                entries.take(i as int),
            ),
        decreases n - i,
    {
        let b = &brokers[i];
        let ghost before = acc@.map_values(|b: MetadataBroker| broker_entry(b));
        let ghost e = broker_entry(*b);
        let mut found = false;
        let m = acc.len();
        let mut j: usize = 0;
        while j < m
            invariant
                m == acc@.len(),
                m == before.len(),
                j <= m,
                e == broker_entry(*b),
                forall|k: int|
                    0 <= k < j ==> #[trigger] broker_entry(acc@[k]) == (if before[k].0 == e.0 {
                        e
                    } else {
                        before[k]
                    }),
                forall|k: int| j <= k < m ==> #[trigger] broker_entry(acc@[k]) == before[k],
                found == exists|k: int| 0 <= k < j && #[trigger] before[k].0 == e.0,
            decreases m - j,
        {
            assert(broker_entry(acc@[j as int]) == before[j as int]);
            if acc[j].node_id == b.node_id {
                acc.set(j, b.duplicate());
                found = true;
                assert(before[j as int].0 == e.0);
            } else {
                assert(before[j as int].0 != e.0);
            }
            assert(found == exists|k: int| 0 <= k < j + 1 && #[trigger] before[k].0 == e.0) by {
                if found && !(exists|k: int| 0 <= k < j && #[trigger] before[k].0 == e.0) {
                    assert(before[j as int].0 == e.0);
                }
            }
            j = j + 1;
        }
        if !found {
            acc.push(b.duplicate());
            assert(acc@.map_values(|b: MetadataBroker| broker_entry(b)) =~= before.push(e));
        } else {
            assert(acc@.map_values(|b: MetadataBroker| broker_entry(b)) =~= before.map_values(
                |x: (i32, Seq<char>, i32)| if x.0 == e.0 { e } else { x },
            ));
        }
        assert(entries.take(i + 1).drop_last() =~= entries.take(i as int));
        assert(entries.take(i + 1).last() == e);
        i = i + 1;
    }
    assert(entries.take(n as int) =~= entries);
    acc
}

/// The outlets for the brokers of a metadata response, in the same order.
fn broker_outlets(brokers: &Vec<MetadataBroker>) -> (r: Vec<BrokerOutlet>)
    ensures
        r@.map_values(|o: BrokerOutlet| outlet_entry(o)) == brokers@.map_values(
            |b: MetadataBroker| broker_entry(b),
        ).map_values(|b: (i32, Seq<char>, i32)| outlet_of_broker(b)),
{
    let mut outlets: Vec<BrokerOutlet> = Vec::new();
    let n = brokers.len();
    let mut i: usize = 0;
    while i < n
        invariant
            n == brokers@.len(),
            i <= n,
            outlets@.len() == i,
            forall|j: int|
                0 <= j < i ==> #[trigger] outlet_entry(outlets@[j]) == outlet_of_broker(
                    broker_entry(brokers@[j]),
                ),
        decreases n - i,
    {
        let broker = &brokers[i];
        let mut address = String::new();
        address.append(broker.host.as_str());
        address.append(":");
        proof {
            reveal_strlit(":");
        }
        push_i32_decimal(&mut address, broker.port);
        assert(address@ =~= outlet_address(broker.host@, broker.port));
        outlets.push(BrokerOutlet { broker_id: broker.node_id, address });
        i = i + 1;
    }
    assert(outlets@.map_values(|o: BrokerOutlet| outlet_entry(o)) =~= brokers@.map_values(
        |b: MetadataBroker| broker_entry(b),
    ).map_values(|b: (i32, Seq<char>, i32)| outlet_of_broker(b)));
    outlets
}

impl OutletInterceptorImpl {
    /// Intercepts a response frame on its way back from the broker. When it
    /// answers a recorded metadata request it lists the brokers of the
    /// response by node id, each of which needs an outlet; the frame itself is passed on
    /// unchanged. The recorded requests are left as they are.
    pub fn intercept_response(&self, original: Vec<u8>) -> (r: Result<
        (Vec<u8>, Vec<BrokerOutlet>),
        InterceptError,
    >)
        requires
            original@.len() >= 4,
        ensures
            match (r, spec_intercept_response(self@, original@)) {
                (Ok((b, outlets)), Ok(s)) => b == original && outlets@.map_values(
                    |o: BrokerOutlet| outlet_entry(o),
                ) == s,
                (Err(e), Err(f)) => e == f,
                _ => false,
            },
    {
        proof {
            use_type_invariant(self);
        }
        let correlation_id = read_i32_be(original.as_slice(), 0);
        let info = match self.recorded_request(correlation_id) {
            Some(info) => info,
            None => {
                return Ok((original, Vec::new()));
            },
        };
        let header_version = response_header_version(info.request_api_key, info.request_api_version);
        let rest = match decode_response_header(original.as_slice(), header_version) {
            Some(rest) => rest,
            None => {
                return Err(InterceptError::InvalidData);
            },
        };
        if info.request_api_key == METADATA_API_KEY {
            let start = original.len() - rest;
            let body = vstd::slice::slice_subrange(original.as_slice(), start, original.len());
            assert(body@ == original@.skip(original@.len() - rest));
            match decode_metadata_brokers(body, info.request_api_version) {
                Some(brokers) => {
                    let keyed = index_brokers(&brokers);
                    let outlets = broker_outlets(&keyed);
                    Ok((original, outlets))
                },
                None => Err(InterceptError::InvalidData),
            }
        } else {
            Ok((original, Vec::new()))
        }
    }
}

} // verus!
