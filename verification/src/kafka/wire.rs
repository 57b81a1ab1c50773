//! Reading the fixed-size fields at the start of Kafka frames, and the
//! decoders of the `kafka_protocol` crate that the interceptor relies on.

use kafka_protocol::messages::{ApiKey, MetadataResponse, RequestHeader, ResponseHeader};
use kafka_protocol::protocol::Decodable;
use vstd::prelude::*;

verus! {

/// The Kafka API key of metadata requests.
pub const METADATA_API_KEY: i16 = 3;

/// The big-endian two's-complement 16-bit integer stored at `s[i..i + 2]`.
pub open spec fn be_i16(s: Seq<u8>, i: int) -> int {
    let u = s[i] as int * 0x100 + s[i + 1] as int;
    if u >= 0x8000 { u - 0x1_0000 } else { u }
}

/// The big-endian two's-complement 32-bit integer stored at `s[i..i + 4]`.
pub open spec fn be_i32(s: Seq<u8>, i: int) -> int {
    let u = s[i] as int * 0x100_0000 + s[i + 1] as int * 0x1_0000 + s[i + 2] as int * 0x100
        + s[i + 3] as int;
    if u >= 0x8000_0000 { u - 0x1_0000_0000 } else { u }
}

/// The 16-bit field at `i` is the two's-complement value of its two bytes,
/// most significant first: it lies in the range of `i16`, and it is the
/// unsigned big-endian number of the bytes up to a multiple of 2^16.
pub proof fn law_be_i16_is_twos_complement(s: Seq<u8>, i: int)
    ensures
        -0x8000 <= be_i16(s, i) < 0x8000,
        (be_i16(s, i) - (s[i] as int * 0x100 + s[i + 1] as int)) % 0x1_0000 == 0,
        be_i16(s, i) < 0 <==> s[i] >= 0x80,
{
}

/// The 32-bit field at `i` is the two's-complement value of its four bytes,
/// most significant first: it lies in the range of `i32`, and it is the
/// unsigned big-endian number of the bytes up to a multiple of 2^32.
pub proof fn law_be_i32_is_twos_complement(s: Seq<u8>, i: int)
    ensures
        -0x8000_0000 <= be_i32(s, i) < 0x8000_0000,
        (be_i32(s, i) - (s[i] as int * 0x100_0000 + s[i + 1] as int * 0x1_0000 + s[i + 2] as int
            * 0x100 + s[i + 3] as int)) % 0x1_0000_0000 == 0,
        be_i32(s, i) < 0 <==> s[i] >= 0x80,
{
}

/// Reads the big-endian `i16` at `bytes[at..at + 2]`.
pub fn read_i16_be(bytes: &[u8], at: usize) -> (r: i16)
    requires
        at + 2 <= bytes@.len(),
    ensures
        r == be_i16(bytes@, at as int),
{
    let u: i32 = bytes[at] as i32 * 0x100 + bytes[at + 1] as i32;
    if u >= 0x8000 {
        (u - 0x1_0000) as i16
    } else {
        u as i16
    }
}

/// Reads the big-endian `i32` at `bytes[at..at + 4]`.
pub fn read_i32_be(bytes: &[u8], at: usize) -> (r: i32)
    requires
        at + 4 <= bytes@.len(),
    ensures
        r == be_i32(bytes@, at as int),
{
    let u: i64 = bytes[at] as i64 * 0x100_0000 + bytes[at + 1] as i64 * 0x1_0000
        + bytes[at + 2] as i64 * 0x100 + bytes[at + 3] as i64;
    if u >= 0x8000_0000 {
        (u - 0x1_0000_0000) as i32
    } else {
        u as i32
    }
}

/// Whether kafka_protocol knows the API with key `key`.
pub open spec fn known_api_key(key: int) -> bool {
    ||| 0 <= key <= 3
    ||| 8 <= key <= 87
    ||| 90 <= key <= 92
}

/// The header version that kafka_protocol's `ApiKey::request_header_version`
/// gives for the API `key` at API version `version`.
pub uninterp spec fn kafka_request_header_version(key: i16, version: i16) -> i16;

/// The header version that kafka_protocol's `ApiKey::response_header_version`
/// gives for the API `key` at API version `version`.
pub uninterp spec fn kafka_response_header_version(key: i16, version: i16) -> i16;

/// What kafka_protocol's `RequestHeader::decode` gives for a frame at the
/// given header version: nothing when it fails, otherwise the header's
/// correlation id and API version.
pub uninterp spec fn kafka_request_header(bytes: Seq<u8>, header_version: i16) -> Option<(i32, i16)>;

/// What kafka_protocol's `ResponseHeader::decode` leaves of a frame at the
/// given header version: nothing when it fails, otherwise the number of
/// bytes after the header.
pub uninterp spec fn kafka_response_header_rest(bytes: Seq<u8>, header_version: i16) -> Option<usize>;

/// What kafka_protocol's `MetadataResponse::decode` gives for a response body
/// at the given API version: nothing when it fails, otherwise the node id,
/// host and port of each broker, in the order of the response.
pub uninterp spec fn kafka_metadata_brokers(bytes: Seq<u8>, version: i16) -> Option<Seq<(i32, Seq<char>, i32)>>;

/// A broker listed in a metadata response.
#[derive(Clone, PartialEq, Eq, Debug)]
pub struct MetadataBroker {
    pub node_id: i32,
    pub host: String,
    pub port: i32,
}

impl MetadataBroker {
    /// A copy of this broker entry.
    pub fn duplicate(&self) -> (r: MetadataBroker)
        ensures
            r == *self,
    {
        MetadataBroker { node_id: self.node_id, host: self.host.clone(), port: self.port }
    }
}

/// The plain values of a broker entry.
pub open spec fn broker_entry(b: MetadataBroker) -> (i32, Seq<char>, i32) {
    (b.node_id, b.host@, b.port)
}

/// `ApiKey::try_from(i16)` of kafka_protocol. Its source has one arm for each
/// variant of `ApiKey`, whose discriminants are 0..=3, 8..=87 and 90..=92;
/// the claim is that it succeeds on exactly those keys.
#[verifier::external_body]
pub(crate) fn api_key_is_known(key: i16) -> (r: bool)
    ensures
        r == known_api_key(key as int),
{
    ApiKey::try_from(key).is_ok()
}

/// Whether kafka_protocol knows the API with key `key`.
pub fn is_known_api_key(key: i16) -> (r: bool)
    ensures
        r == known_api_key(key as int),
{
    api_key_is_known(key)
}

/// `ApiKey::request_header_version` of kafka_protocol, on the API with key
/// `key`. Its result is named; for metadata requests the source gives header
/// version 2 from API version 9 on and 1 before, which is claimed too.
#[verifier::external_body]
pub(crate) fn request_header_version(key: i16, version: i16) -> (r: i16)
    requires
        known_api_key(key as int),
    ensures
        r == kafka_request_header_version(key, version),
        key == METADATA_API_KEY ==> r == (if version >= 9 { 2i16 } else { 1i16 }),
{
    ApiKey::try_from(key).unwrap().request_header_version(version)
}

/// `ApiKey::response_header_version` of kafka_protocol, on the API with key
/// `key`. Its result is named; for metadata responses the source gives
/// header version 1 from API version 9 on and 0 before, which is claimed too.
#[verifier::external_body]
pub(crate) fn response_header_version(key: i16, version: i16) -> (r: i16)
    requires
        known_api_key(key as int),
    ensures
        r == kafka_response_header_version(key, version),
        key == METADATA_API_KEY ==> r == (if version >= 9 { 1i16 } else { 0i16 }),
{
    ApiKey::try_from(key).unwrap().response_header_version(version)
}

/// `RequestHeader::decode` of kafka_protocol on `bytes`. Its result is named.
/// Its source refuses header versions other than 1 and 2, then reads the API
/// key, the API version and the correlation id as big-endian integers from
/// the first eight bytes, then a length-prefixed client id; so on success the
/// frame has at least ten bytes and the two fields returned are the ones at
/// offsets 4 and 2. When the decoding succeeds is left to the name.
#[verifier::external_body]
pub(crate) fn decode_request_header(bytes: &[u8], header_version: i16) -> (r: Option<(i32, i16)>)
    ensures
        r == kafka_request_header(bytes@, header_version),
        r matches Some((c, v)) ==> {
            &&& 1 <= header_version <= 2
            &&& bytes@.len() >= 10
            &&& c == be_i32(bytes@, 4)
            &&& v == be_i16(bytes@, 2)
        },
{
    let mut buf = bytes;
    match RequestHeader::decode(&mut buf, header_version) {
        Ok(header) => Some((header.correlation_id, header.request_api_version)),
        Err(_) => None,
    }
}

/// `ResponseHeader::decode` of kafka_protocol on `bytes`, giving the number
/// of bytes left after the header. Its result is named. Its source refuses
/// header versions other than 0 and 1 and reads a four-byte correlation id
/// first; at version 0 that id is the whole header, which is claimed exactly.
#[verifier::external_body]
pub(crate) fn decode_response_header(bytes: &[u8], header_version: i16) -> (r: Option<usize>)
    ensures
        r == kafka_response_header_rest(bytes@, header_version),
        r matches Some(rest) ==> 0 <= header_version <= 1 && rest + 4 <= bytes@.len(),
        header_version == 0 ==> r == (if bytes@.len() >= 4 {
            Some((bytes@.len() - 4) as usize)
        } else {
            None::<usize>
        }),
{
    let mut buf = bytes;
    match ResponseHeader::decode(&mut buf, header_version) {
        Ok(_) => Some(buf.len()),
        Err(_) => None,
    }
}

/// `MetadataResponse::decode` of kafka_protocol on a response body, keeping
/// the node id, host and port of each broker. Its result is named; its source
/// refuses API versions outside 0..=13, which is claimed too. A body that
/// announces a huge number of brokers may exhaust memory; nothing is claimed
/// of that.
#[verifier::external_body]
pub(crate) fn decode_metadata_brokers(bytes: &[u8], version: i16) -> (r: Option<Vec<MetadataBroker>>)
    ensures
        match r {
            Some(v) => kafka_metadata_brokers(bytes@, version) == Some(
                v@.map_values(|b: MetadataBroker| broker_entry(b)),
            ),
            None => kafka_metadata_brokers(bytes@, version) is None,
        },
        r is Some ==> 0 <= version <= 13,
{
    let mut buf = bytes;
    match MetadataResponse::decode(&mut buf, version) {
        Ok(response) => Some(
            response.brokers.into_iter().map(|b| MetadataBroker {
                node_id: b.node_id.0,
                host: b.host.to_string(),
                port: b.port,
            }).collect(),
        ),
        Err(_) => None,
    }
}

} // verus!
