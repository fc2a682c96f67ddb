//! Calls that the proxy makes on behalf of a WebAssembly plugin: to a cluster
//! over HTTP or gRPC, and the question who the client is.
//!
//! A call runs in steps, and the caller does the waiting in between. What
//! comes back is encoded by the caller and handed to the guest in memory that
//! the guest allocates.

use crate::address::SocketAddr;
use crate::guest_memory::{
    allocated_memory, allocated_outcome, read_bytes, within, write_allocated, OrionWasmError,
};
use crate::headers::{
    canonical_header_name, firsts, has_room, valid_header_value, Fields, FieldName, FieldValue, Headers,
};
use crate::hostcalls::{timeout_at, ResponseHead, WasmState};
use crate::http_filters::HttpVersion;
use crate::metadata::{DownstreamConnectionMetadata, DownstreamMetadata, ProxyTransport};
use crate::text::{has_suffix, is_suffix};
use vstd::prelude::*;
use vstd::utf8::encode_utf8;

verus! {

/// What was found of the cluster a call goes to.
#[derive(Debug, Clone, Copy, PartialEq, Eq, Structural)]
pub enum ClusterLookup {
    /// No cluster has the name.
    Unknown,
    /// The cluster has no connection to give.
    NoConnection,
    Ready,
}

/// An HTTP request that a plugin wants made.
#[derive(Debug)]
pub struct CalloutRequest {
    pub cluster_name: String,
    pub method: String,
    pub uri: String,
    /// The host of the address, where it has one.
    pub uri_host: Option<String>,
    pub version: HttpVersion,
    pub headers: Headers,
    pub body: Vec<u8>,
}

/// A request ready to be sent.
#[derive(Debug)]
pub struct PreparedCall {
    pub request: CalloutRequest,
    /// How long the call may take, in nanoseconds.
    pub timeout: Option<u128>,
}

/// What stops a call before it is sent, in the order in which it is looked for.
pub open spec fn refusal(
    mem: Seq<u8>,
    req_ptr: u32,
    req_len: u32,
    decoded: bool,
    cluster: ClusterLookup,
) -> Option<OrionWasmError> {
    if !within(mem, req_ptr as int, req_len as int) {
        Some(OrionWasmError::InvalidMemoryAccess)
    } else if !decoded {
        Some(OrionWasmError::InternalError)
    } else if cluster == ClusterLookup::Unknown {
        Some(OrionWasmError::NotFound)
    } else if cluster == ClusterLookup::NoConnection {
        Some(OrionWasmError::InternalError)
    } else {
        None
    }
}

fn check_call(mem: &[u8], req_ptr: u32, req_len: u32, decoded: bool, cluster: ClusterLookup) -> (why: Option<
    OrionWasmError,
>)
    ensures
        why == refusal(mem@, req_ptr, req_len, decoded, cluster),
{
    if let Err(e) = read_bytes(mem, req_ptr, req_len) {
        return Some(e);
    }
    if !decoded {
        return Some(OrionWasmError::InternalError);
    }
    match cluster {
        ClusterLookup::Unknown => Some(OrionWasmError::NotFound),
        ClusterLookup::NoConnection => Some(OrionWasmError::InternalError),
        ClusterLookup::Ready => None,
    }
}

/// The fields of a request with the host of its address filled in where they
/// state none and the host can be the value of a field.
pub open spec fn with_host(fields: Fields, host: Option<String>) -> Fields {
    match host {
        Some(h) => if !fields.contains_key("host"@) && valid_header_value(encode_utf8(h@)) {
            fields.insert("host"@, seq![encode_utf8(h@)])
        } else {
            fields
        },
        None => fields,
    }
}

fn fill_host(headers: &mut Headers, host: &Option<String>) -> (done: bool)
    ensures
        done ==> final(headers)@ == with_host(old(headers)@, *host),
        !done ==> final(headers)@ == old(headers)@ && !has_room(old(headers)@),
{
    let name: FieldName = FieldName::host();
    if headers.contains_key(&name) {
        return true;
    }
    match host {
        None => true,
        Some(h) => match FieldValue::from_bytes(h.as_str().as_bytes_vec()) {
            None => true,
            Some(value) => headers.insert(&name, &value).is_ok(),
        },
    }
}

/// Starts a call over HTTP.
pub fn orion_dispatch_http_call(
    state: &WasmState,
    mem: &[u8],
    req_ptr: u32,
    req_len: u32,
    decoded: Option<CalloutRequest>,
    cluster: ClusterLookup,
    now: u128,
) -> (res: Result<PreparedCall, OrionWasmError>)
    ensures
        match refusal(mem@, req_ptr, req_len, decoded is Some, cluster) {
            Some(why) => res == Err::<PreparedCall, OrionWasmError>(why),
            None => if !has_room(decoded->0.headers@) && res == Err::<PreparedCall, OrionWasmError>(
                OrionWasmError::InternalError,
            ) {
                true
            } else {
                match timeout_at(state@.io_deadline, now) {
                    Err(e) => res == Err::<PreparedCall, OrionWasmError>(e),
                    Ok(timeout) => {
                        &&& res matches Ok(call)
                        &&& call.timeout == timeout
                        &&& call.request.headers@ == with_host(decoded->0.headers@, decoded->0.uri_host)
                        &&& call.request == (CalloutRequest { headers: call.request.headers, ..decoded->0 })
                    },
                }
            },
        },
{
    if let Some(why) = check_call(mem, req_ptr, req_len, decoded.is_some(), cluster) {
        return Err(why);
    }
    match decoded {
        None => Err(OrionWasmError::InternalError),
        Some(request) => {
            let mut headers: Headers = request.headers;
            if !fill_host(&mut headers, &request.uri_host) {
                return Err(OrionWasmError::InternalError);
            }
            let timeout: Option<u128> = match state.call_timeout(now) {
                Ok(timeout) => timeout,
                Err(e) => {
                    return Err(e);
                },
            };
            Ok(
                PreparedCall {
                    request: CalloutRequest {
                        cluster_name: request.cluster_name,
                        method: request.method,
                        uri: request.uri,
                        uri_host: request.uri_host,
                        version: request.version,
                        headers,
                        body: request.body,
                    },
                    timeout,
                },
            )
        },
    }
}

/// What came of sending a request.
#[derive(Debug)]
pub enum SendOutcome<R> {
    Answered(R),
    Failed,
    TimedOut,
}

/// The response that a plugin is shown.
#[derive(Debug)]
pub struct CalloutResponse {
    pub head: ResponseHead,
    pub body: Vec<u8>,
}

/// The response to a call over HTTP, as the plugin is shown it: each field
/// with its first value. `body` is `None` where it could not be received. More
/// fields than a map takes leave an empty response.
pub fn http_call_answered(outcome: SendOutcome<ResponseHead>, body: Option<Vec<u8>>) -> (res: Result<
    CalloutResponse,
    OrionWasmError,
>)
    ensures
        match outcome {
            SendOutcome::Failed => res == Err::<CalloutResponse, OrionWasmError>(OrionWasmError::InternalError),
            SendOutcome::TimedOut => res == Err::<CalloutResponse, OrionWasmError>(OrionWasmError::Timeout),
            SendOutcome::Answered(head) => match body {
                None => res == Err::<CalloutResponse, OrionWasmError>(OrionWasmError::InternalError),
                Some(bytes) => {
                    &&& res matches Ok(response)
                    &&& if has_room(head.headers@) || !is_bare_response(response) {
                        &&& response.head.status == head.status
                        &&& response.head.version == head.version
                        &&& response.head.headers@ == firsts(head.headers@)
                        &&& response.body == bytes
                    } else {
                        is_bare_response(response)
                    }
                },
            },
        },
{
    match outcome {
        SendOutcome::Failed => Err(OrionWasmError::InternalError),
        SendOutcome::TimedOut => Err(OrionWasmError::Timeout),
        SendOutcome::Answered(head) => match body {
            None => Err(OrionWasmError::InternalError),
            Some(body) => match head.headers.first_values() {
                Some(headers) => Ok(
                    CalloutResponse {
                        head: ResponseHead { status: head.status, version: head.version, headers },
                        body,
                    },
                ),
                None => Ok(
                    CalloutResponse {
                        head: ResponseHead { status: 200, version: HttpVersion::Http11, headers: Headers::new() },
                        body: Vec::new(),
                    },
                ),
            },
        },
    }
}

/// Whether a response is the empty one that stands for one that cannot be built.
pub open spec fn is_bare_response(response: CalloutResponse) -> bool {
    &&& response.head.status == 200
    &&& response.head.version == HttpVersion::Http11
    &&& response.head.headers@ == crate::headers::no_fields()
    &&& response.body@.len() == 0
}

/// What came of asking the guest for memory.
#[derive(Debug, Clone, Copy, PartialEq, Eq, Structural)]
pub enum Allocation {
    /// The guest has no allocator.
    NoAllocator,
    /// The allocator failed.
    Failed,
    /// The allocator answered with something that is no number of 32 bits.
    NoNumber,
    At(i32),
}

/// The place a guest allocated; zero where it lies beyond the guest's memory.
pub open spec fn place_of(at: i32) -> u32 {
    if at >= 0 {
        at as u32
    } else {
        0
    }
}

/// Ends a call: hands the encoded answer to the guest.
pub fn finish_call(
    mem: &mut [u8],
    encoded: Option<Vec<u8>>,
    allocation: Allocation,
    ptr_ptr: u32,
    len_ptr: u32,
) -> (res: Result<(), OrionWasmError>)
    ensures
        match encoded {
            None => res == Err::<(), OrionWasmError>(OrionWasmError::InternalError) && final(mem)@ == old(mem)@,
            Some(bytes) => match allocation {
                Allocation::At(at) => {
                    &&& res == allocated_outcome(old(mem)@, bytes@, place_of(at), ptr_ptr, len_ptr)
                    &&& final(mem)@ == allocated_memory(old(mem)@, bytes@, place_of(at), ptr_ptr, len_ptr)
                },
                _ => res == Err::<(), OrionWasmError>(OrionWasmError::InternalError) && final(mem)@ == old(mem)@,
            },
        },
{
    match encoded {
        None => Err(OrionWasmError::InternalError),
        Some(bytes) => match allocation {
            Allocation::NoAllocator => Err(OrionWasmError::InternalError),
            Allocation::Failed => Err(OrionWasmError::InternalError),
            Allocation::NoNumber => Err(OrionWasmError::InternalError),
            Allocation::At(at) => {
                let place: u32 = if at >= 0 {
                    at as u32
                } else {
                    0
                };
                write_allocated(mem, &bytes, place, ptr_ptr, len_ptr)
            },
        },
    }
}

/// A gRPC call that a plugin wants made.
#[derive(Debug)]
pub struct GrpcCalloutRequest {
    pub cluster_name: String,
    pub service_name: String,
    pub method_name: String,
    pub initial_metadata: Vec<(String, String)>,
    pub message: Vec<u8>,
}

/// A gRPC call ready to be made.
#[derive(Debug)]
pub struct PreparedGrpcCall {
    pub path: String,
    pub metadata: Headers,
    pub message: Vec<u8>,
    /// How long the call may take, in nanoseconds.
    pub timeout: Option<u128>,
}

/// The path of a method.
pub open spec fn grpc_path(service: Seq<char>, method: Seq<char>) -> Seq<char> {
    "/"@ + service + "/"@ + method
}

/// Whether a text can be the path and query of an address.
pub uninterp spec fn is_path_and_query(text: Seq<char>) -> bool;

/// `http::uri::PathAndQuery::try_from`: whether it accepts the text.
#[verifier::external_body]
fn path_is_valid(text: &str) -> (valid: bool)
    ensures
        valid == is_path_and_query(text@),
{
    http::uri::PathAndQuery::try_from(text).is_ok()
}

/// Whether a pair can be sent as metadata: the key names a field and is not
/// one for binary values, and the value can be one of a field.
pub open spec fn is_metadata(key: Seq<char>, value: Seq<char>) -> bool {
    &&& canonical_header_name(key) matches Some(name)
    &&& !is_suffix("-bin"@, name)
    &&& valid_header_value(encode_utf8(value))
}

/// The metadata of a call: of several values for a key the last counts, and
/// pairs that cannot be sent are passed over.
pub open spec fn metadata_fields(pairs: Seq<(String, String)>) -> Fields
    decreases pairs.len(),
{
    if pairs.len() == 0 {
        Map::empty()
    } else {
        let (key, value) = pairs.last();
        let front = metadata_fields(pairs.drop_last());
        if is_metadata(key@, value@) {
            front.insert(canonical_header_name(key@)->0, seq![encode_utf8(value@)])
        } else {
            front
        }
    }
}

fn collect_metadata(pairs: &Vec<(String, String)>) -> (metadata: Option<Headers>)
    ensures
        metadata matches Some(headers) ==> headers@ == metadata_fields(pairs@),
        metadata is None ==> exists|n: int|
            0 <= n < pairs@.len() && !has_room(#[trigger] metadata_fields(pairs@.take(n))),
{
    let mut headers = Headers::new();
    let mut i: usize = 0;
    while i < pairs.len()
        invariant
            i <= pairs@.len(),
            headers@ == metadata_fields(pairs@.take(i as int)),
        decreases pairs@.len() - i,
    {
        assert(pairs@.take(i + 1).drop_last() =~= pairs@.take(i as int));
        assert(pairs@.take(i + 1).last() == pairs@[i as int]);
        if let Some(name) = FieldName::parse(pairs[i].0.as_str()) {
            if !has_suffix(name.as_str(), "-bin") {
                if let Some(value) = FieldValue::from_bytes(pairs[i].1.as_str().as_bytes_vec()) {
                    if headers.insert(&name, &value).is_err() {
                        return None;
                    }
                }
            }
        }
        i = i + 1;
    }
    assert(pairs@.take(pairs@.len() as int) =~= pairs@);
    Some(headers)
}

/// Starts a gRPC call.
pub fn orion_dispatch_grpc_call(
    state: &WasmState,
    mem: &[u8],
    req_ptr: u32,
    req_len: u32,
    decoded: Option<GrpcCalloutRequest>,
    cluster: ClusterLookup,
    now: u128,
) -> (res: Result<PreparedGrpcCall, OrionWasmError>)
    ensures
        match refusal(mem@, req_ptr, req_len, decoded is Some, cluster) {
            Some(why) => res == Err::<PreparedGrpcCall, OrionWasmError>(why),
            None => grpc_prepared(
                decoded->0,
                is_path_and_query(grpc_path(decoded->0.service_name@, decoded->0.method_name@)),
                timeout_at(state@.io_deadline, now),
                res,
            ),
        },
{
    if let Some(why) = check_call(mem, req_ptr, req_len, decoded.is_some(), cluster) {
        return Err(why);
    }
    match decoded {
        None => Err(OrionWasmError::InternalError),
        Some(request) => {
            let path: String = grpc_path_of(request.service_name.as_str(), request.method_name.as_str());
            let valid: bool = path_is_valid(path.as_str());
            prepare_grpc_call(request, valid, state.call_timeout(now))
        },
    }
}

/// The path of a method.
pub fn grpc_path_of(service: &str, method: &str) -> (path: String)
    ensures
        path@ == grpc_path(service@, method@),
{
    let mut path = "/".to_owned();
    path.append(service);
    path.append("/");
    path.append(method);
    path
}

/// Whether `res` is what preparing a gRPC call comes to, given whether its
/// path is valid and how long it may take.
pub open spec fn grpc_prepared(
    request: GrpcCalloutRequest,
    path_valid: bool,
    timeout: Result<Option<u128>, OrionWasmError>,
    res: Result<PreparedGrpcCall, OrionWasmError>,
) -> bool {
    if !path_valid {
        res == Err::<PreparedGrpcCall, OrionWasmError>(OrionWasmError::InternalError)
    } else {
        ||| res == Err::<PreparedGrpcCall, OrionWasmError>(OrionWasmError::InternalError) && exists|n: int|
            0 <= n < request.initial_metadata@.len() && !has_room(
                #[trigger] metadata_fields(request.initial_metadata@.take(n)),
            )
        ||| match timeout {
            Err(e) => res == Err::<PreparedGrpcCall, OrionWasmError>(e),
            Ok(limit) => {
                &&& res matches Ok(call)
                &&& call.path@ == grpc_path(request.service_name@, request.method_name@)
                &&& call.metadata@ == metadata_fields(request.initial_metadata@)
                &&& call.message == request.message
                &&& call.timeout == limit
            },
        }
    }
}

/// Prepares a gRPC call, given whether its path is valid and how long it may take.
pub fn prepare_grpc_call(
    request: GrpcCalloutRequest,
    path_valid: bool,
    timeout: Result<Option<u128>, OrionWasmError>,
) -> (res: Result<PreparedGrpcCall, OrionWasmError>)
    ensures
        grpc_prepared(request, path_valid, timeout, res),
{
    if !path_valid {
        return Err(OrionWasmError::InternalError);
    }
    let metadata: Headers = match collect_metadata(&request.initial_metadata) {
        Some(metadata) => metadata,
        None => {
            return Err(OrionWasmError::InternalError);
        },
    };
    let timeout: Option<u128> = match timeout {
        Ok(timeout) => timeout,
        Err(e) => {
            return Err(e);
        },
    };
    let path: String = grpc_path_of(request.service_name.as_str(), request.method_name.as_str());
    Ok(PreparedGrpcCall { path, metadata, message: request.message, timeout })
}

/// A piece of metadata that came back: text, or bytes under a key for binary
/// values. What could not be read is `None`.
#[derive(Debug)]
pub enum MetadataEntry {
    Ascii(String, Option<String>),
    Binary(String, Option<Vec<u8>>),
}

/// A byte, or zero behind the last.
pub open spec fn byte_or_zero(bytes: Seq<u8>, i: int) -> int {
    if 0 <= i < bytes.len() {
        bytes[i] as int
    } else {
        0
    }
}

/// The bits of some bytes, six at a time; three bytes make four groups.
pub open spec fn six_bits(bytes: Seq<u8>, group: int) -> int {
    let at = 3 * (group / 4);
    let three = byte_or_zero(bytes, at) * 65536 + byte_or_zero(bytes, at + 1) * 256 + byte_or_zero(bytes, at + 2);
    if group % 4 == 0 {
        three / 262144
    } else if group % 4 == 1 {
        (three / 4096) % 64
    } else if group % 4 == 2 {
        (three / 64) % 64
    } else {
        three % 64
    }
}

/// The character of six bits in the standard alphabet.
pub open spec fn base64_digit(bits: int) -> char {
    if bits < 26 {
        ('A' as u8 + bits) as u8 as char
    } else if bits < 52 {
        ('a' as u8 + bits - 26) as u8 as char
    } else if bits < 62 {
        ('0' as u8 + bits - 52) as u8 as char
    } else if bits == 62 {
        '+'
    } else {
        '/'
    }
}

/// Bytes in the text form of base64: a character for each six bits that hold
/// any of the bytes, filled up to a multiple of four.
pub open spec fn base64_of(bytes: Seq<u8>) -> Seq<char> {
    Seq::new(
        (4 * ((bytes.len() + 2) / 3)) as nat,
        |i: int|
            if 6 * i < 8 * bytes.len() {
                base64_digit(six_bits(bytes, i))
            } else {
                '='
            },
    )
}

/// `base64`'s `BASE64_STANDARD.encode`: the bytes as text, in the standard
/// alphabet and with padding.
#[verifier::external_body]
pub(crate) fn base64_text(bytes: &Vec<u8>) -> (text: String)
    ensures
        text@ == base64_of(bytes@),
{
    base64::Engine::encode(&base64::prelude::BASE64_STANDARD, bytes)
}

/// A piece of metadata as a plugin is shown it; what could not be read is empty.
pub open spec fn shown(entry: MetadataEntry) -> (Seq<char>, Seq<char>) {
    match entry {
        MetadataEntry::Ascii(key, value) => (
            key@,
            match value {
                Some(text) => text@,
                None => Seq::empty(),
            },
        ),
        MetadataEntry::Binary(key, value) => (
            key@,
            match value {
                Some(bytes) => base64_of(bytes@),
                None => base64_of(Seq::empty()),
            },
        ),
    }
}

/// The characters of each pair.
pub open spec fn pair_texts(pairs: Seq<(String, String)>) -> Seq<(Seq<char>, Seq<char>)> {
    pairs.map_values(|pair: (String, String)| (pair.0@, pair.1@))
}

/// Metadata as a plugin is shown it.
pub fn show_metadata(entries: &Vec<MetadataEntry>) -> (pairs: Vec<(String, String)>)
    ensures
        pair_texts(pairs@) == entries@.map_values(|entry: MetadataEntry| shown(entry)),
{
    let mut pairs: Vec<(String, String)> = Vec::new();
    let mut i: usize = 0;
    while i < entries.len()
        invariant
            i <= entries@.len(),
            pair_texts(pairs@) == entries@.take(i as int).map_values(|entry: MetadataEntry| shown(entry)),
        decreases entries@.len() - i,
    {
        let pair: (String, String) = match &entries[i] {
            MetadataEntry::Ascii(key, value) => (
                key.clone(),
                match value {
                    Some(text) => text.clone(),
                    None => String::new(),
                },
            ),
            MetadataEntry::Binary(key, value) => (
                key.clone(),
                match value {
                    Some(bytes) => base64_text(bytes),
                    None => base64_text(&Vec::new()),
                },
            ),
        };
        let ghost before = pairs@;
        pairs.push(pair);
        assert(pair_texts(pairs@) =~= pair_texts(before).push((pair.0@, pair.1@)));
        assert((pair.0@, pair.1@) == shown(entries@[i as int]));
        assert(entries@.take(i + 1).map_values(|entry: MetadataEntry| shown(entry)) =~= entries@.take(
            i as int,
        ).map_values(|entry: MetadataEntry| shown(entry)).push(shown(entries@[i as int])));
        i = i + 1;
    }
    assert(entries@.take(entries@.len() as int) =~= entries@);
    pairs
}

/// A message that a gRPC call was answered with.
#[derive(Debug)]
pub struct GrpcReply {
    pub metadata: Vec<MetadataEntry>,
    pub message: Vec<u8>,
}

/// The status that a gRPC call failed with.
#[derive(Debug)]
pub struct GrpcStatus {
    pub code: u32,
    pub message: String,
    pub metadata: Vec<MetadataEntry>,
}

/// The answer to a gRPC call that a plugin is shown.
#[derive(Debug)]
pub struct GrpcCalloutResponse {
    pub initial_metadata: Vec<(String, String)>,
    pub message: Vec<u8>,
    pub trailing_metadata: Vec<(String, String)>,
    pub status: u32,
    pub status_message: String,
}

/// The answer to a gRPC call as the plugin is shown it. A call that failed
/// with a status is an answer too; only a timeout is none.
pub fn grpc_call_answered(outcome: Option<Result<GrpcReply, GrpcStatus>>) -> (res: Result<
    GrpcCalloutResponse,
    OrionWasmError,
>)
    ensures
        match outcome {
            None => res == Err::<GrpcCalloutResponse, OrionWasmError>(OrionWasmError::Timeout),
            Some(Ok(reply)) => {
                &&& res matches Ok(response)
                &&& pair_texts(response.initial_metadata@) == reply.metadata@.map_values(
                    |entry: MetadataEntry| shown(entry),
                )
                &&& response.message == reply.message
                &&& response.trailing_metadata@.len() == 0
                &&& response.status == 0
                &&& response.status_message@.len() == 0
            },
            Some(Err(status)) => {
                &&& res matches Ok(response)
                &&& response.initial_metadata@.len() == 0
                &&& response.message@.len() == 0
                &&& pair_texts(response.trailing_metadata@) == status.metadata@.map_values(
                    |entry: MetadataEntry| shown(entry),
                )
                &&& response.status == status.code
                &&& response.status_message == status.message
            },
        },
{
    match outcome {
        None => Err(OrionWasmError::Timeout),
        Some(Ok(reply)) => Ok(
            GrpcCalloutResponse {
                initial_metadata: show_metadata(&reply.metadata),
                message: reply.message,
                trailing_metadata: Vec::new(),
                status: 0,
                status_message: String::new(),
            },
        ),
        Some(Err(status)) => Ok(
            GrpcCalloutResponse {
                initial_metadata: Vec::new(),
                message: Vec::new(),
                trailing_metadata: show_metadata(&status.metadata),
                status: status.code,
                status_message: status.message,
            },
        ),
    }
}

/// What a plugin is told of the client.
#[derive(Debug)]
pub struct GuestDownstreamMetadata {
    pub connection: GuestConnectionMetadata,
    pub sni: Option<String>,
    pub listener_name: String,
}

/// What a plugin is told of the client's connection. The values of a proxy
/// protocol header come by their type; of several of one type the last counts.
#[derive(Debug)]
pub enum GuestConnectionMetadata {
    FromSocket { peer_address: SocketAddr, local_address: SocketAddr },
    FromProxyProtocol {
        original_peer_address: SocketAddr,
        original_destination_address: SocketAddr,
        protocol: ProxyTransport,
        tlv_data: Vec<(u8, Vec<u8>)>,
        proxy_peer_address: SocketAddr,
        proxy_local_address: SocketAddr,
    },
}

/// The values of a list by their type.
pub open spec fn tlv_map(list: Seq<(u8, Vec<u8>)>) -> Map<u8, Seq<u8>>
    decreases list.len(),
{
    if list.len() == 0 {
        Map::empty()
    } else {
        tlv_map(list.drop_last()).insert(list.last().0, list.last().1@)
    }
}

fn copy_tlv(list: &Vec<(u8, Vec<u8>)>) -> (copied: Vec<(u8, Vec<u8>)>)
    ensures
        copied@.len() == list@.len(),
        forall|i: int| 0 <= i < list@.len() ==> (#[trigger] copied@[i]).0 == list@[i].0 && copied@[i].1@ == list@[i].1@,
{
    let mut copied: Vec<(u8, Vec<u8>)> = Vec::new();
    let mut i: usize = 0;
    while i < list.len()
        invariant
            i <= list@.len(),
            copied@.len() == i,
            forall|k: int| 0 <= k < i ==> (#[trigger] copied@[k]).0 == list@[k].0 && copied@[k].1@ == list@[k].1@,
        decreases list@.len() - i,
    {
        let bytes: Vec<u8> = list[i].1.clone();
        assert(bytes@ =~= list@[i as int].1@);
        copied.push((list[i].0, bytes));
        i = i + 1;
    }
    copied
}

proof fn lemma_tlv_map_of_copy(a: Seq<(u8, Vec<u8>)>, b: Seq<(u8, Vec<u8>)>)
    requires
        a.len() == b.len(),
        forall|i: int| 0 <= i < a.len() ==> (#[trigger] a[i]).0 == b[i].0 && a[i].1@ == b[i].1@,
    ensures
        tlv_map(a) == tlv_map(b),
    decreases a.len(),
{
    if a.len() > 0 {
        assert(a[a.len() - 1].0 == b[a.len() - 1].0);
        assert forall|i: int| 0 <= i < a.drop_last().len() implies (#[trigger] a.drop_last()[i]).0 == b.drop_last()[i].0
            && a.drop_last()[i].1@ == b.drop_last()[i].1@ by {
            assert(a.drop_last()[i] == a[i]);
        }
        lemma_tlv_map_of_copy(a.drop_last(), b.drop_last());
    }
}

/// Whether a plugin is told the truth of a connection.
pub open spec fn describes(guest: GuestConnectionMetadata, connection: DownstreamConnectionMetadata) -> bool {
    match connection {
        DownstreamConnectionMetadata::FromSocket { peer_address, local_address } => guest
            == (GuestConnectionMetadata::FromSocket { peer_address, local_address }),
        DownstreamConnectionMetadata::FromProxyProtocol {
            original_peer_address,
            original_destination_address,
            protocol,
            tlv_data,
            proxy_peer_address,
            proxy_local_address,
        } => {
            &&& guest matches GuestConnectionMetadata::FromProxyProtocol {
                original_peer_address: peer,
                original_destination_address: destination,
                protocol: transport,
                tlv_data: values,
                proxy_peer_address: proxy_peer,
                proxy_local_address: proxy_local,
            }
            &&& peer == original_peer_address
            &&& destination == original_destination_address
            &&& transport == protocol
            &&& tlv_map(values@) == tlv_map(tlv_data@)
            &&& proxy_peer == proxy_peer_address
            &&& proxy_local == proxy_local_address
        },
    }
}

/// What a plugin is told of the client. `None` stands for a request of which
/// nothing is known.
pub fn orion_get_downstream_metadata(state: &WasmState, metadata: Option<&DownstreamMetadata>) -> (res: Result<
    GuestDownstreamMetadata,
    OrionWasmError,
>)
    ensures
        if state@.request is None {
            res == Err::<GuestDownstreamMetadata, OrionWasmError>(OrionWasmError::InternalError)
        } else {
            match metadata {
                None => res == Err::<GuestDownstreamMetadata, OrionWasmError>(OrionWasmError::NotFound),
                Some(known) => {
                    &&& res matches Ok(guest)
                    &&& describes(guest.connection, known.connection)
                    &&& guest.sni == known.sni
                    &&& guest.listener_name == known.listener_name
                },
            }
        },
{
    if state.active_request.is_none() {
        return Err(OrionWasmError::InternalError);
    }
    let known: &DownstreamMetadata = match metadata {
        None => {
            return Err(OrionWasmError::NotFound);
        },
        Some(known) => known,
    };
    let connection = match &known.connection {
        DownstreamConnectionMetadata::FromSocket { peer_address, local_address } =>
            GuestConnectionMetadata::FromSocket { peer_address: *peer_address, local_address: *local_address },
        DownstreamConnectionMetadata::FromProxyProtocol {
            original_peer_address,
            original_destination_address,
            protocol,
            tlv_data,
            proxy_peer_address,
            proxy_local_address,
        } => {
            let copied = copy_tlv(tlv_data);
            proof {
                lemma_tlv_map_of_copy(copied@, tlv_data@);
            }
            GuestConnectionMetadata::FromProxyProtocol {
                original_peer_address: *original_peer_address,
                original_destination_address: *original_destination_address,
                protocol: *protocol,
                tlv_data: copied,
                proxy_peer_address: *proxy_peer_address,
                proxy_local_address: *proxy_local_address,
            }
        },
    };
    Ok(
        GuestDownstreamMetadata {
            connection,
            sni: known.sni.clone(),
            listener_name: known.listener_name.clone(),
        },
    )
}

/// A host that a request states itself is never replaced.
pub proof fn law_stated_host_stays(fields: Fields, host: Option<String>)
    requires
        fields.contains_key("host"@),
    ensures
        with_host(fields, host) == fields,
{
}

/// No call is sent once the deadline has passed.
pub proof fn law_no_call_after_deadline(deadline: u128, now: u128)
    requires
        now >= deadline,
    ensures
        timeout_at(Some(deadline), now) == Err::<Option<u128>, OrionWasmError>(OrionWasmError::Timeout),
{
}

/// A call is refused for the first reason that holds: memory that is not
/// there, bytes that cannot be read, a cluster that is not known, or one that
/// cannot be reached. It is made where none holds.
pub proof fn law_call_is_made_unless_refused(
    mem: Seq<u8>,
    req_ptr: u32,
    req_len: u32,
    decoded: bool,
    cluster: ClusterLookup,
)
    ensures
        refusal(mem, req_ptr, req_len, decoded, cluster) is None <==> req_ptr + req_len <= mem.len() && decoded
            && cluster == ClusterLookup::Ready,
        refusal(mem, req_ptr, req_len, decoded, cluster) == Some(OrionWasmError::InvalidMemoryAccess) <==> req_ptr
            + req_len > mem.len(),
        refusal(mem, req_ptr, req_len, decoded, cluster) == Some(OrionWasmError::NotFound) <==> req_ptr + req_len
            <= mem.len() && decoded && cluster == ClusterLookup::Unknown,
{
}

/// The path of a call names the service and then the method, each after a slash.
pub proof fn law_path_names_service_and_method(service: Seq<char>, method: Seq<char>)
    ensures
        ({
            let path = grpc_path(service, method);
            &&& path.len() == service.len() + method.len() + 2
            &&& path[0] == '/'
            &&& path.subrange(1, service.len() as int + 1) == service
            &&& path[service.len() as int + 1] == '/'
            &&& path.skip(service.len() as int + 2) == method
        }),
{
    reveal_strlit("/");
    let path = grpc_path(service, method);
    assert(path.subrange(1, service.len() as int + 1) =~= service);
    assert(path.skip(service.len() as int + 2) =~= method);
}

/// Of the pairs that come under one name, the last that can be sent is sent,
/// with its value and nothing else.
pub proof fn law_last_metadata_is_sent(pairs: Seq<(String, String)>, i: int)
    requires
        0 <= i < pairs.len(),
        is_metadata(pairs[i].0@, pairs[i].1@),
        forall|j: int|
            i < j < pairs.len() ==> !is_metadata((#[trigger] pairs[j]).0@, pairs[j].1@) || canonical_header_name(
                pairs[j].0@,
            ) != canonical_header_name(pairs[i].0@),
    ensures
        canonical_header_name(pairs[i].0@) is Some,
        metadata_fields(pairs).contains_key(canonical_header_name(pairs[i].0@)->0),
        metadata_fields(pairs)[canonical_header_name(pairs[i].0@)->0] == seq![encode_utf8(pairs[i].1@)],
    decreases pairs.len(),
{
    if i < pairs.len() - 1 {
        let front = pairs.drop_last();
        assert(front[i] == pairs[i]);
        assert forall|j: int| i < j < front.len() implies !is_metadata((#[trigger] front[j]).0@, front[j].1@)
            || canonical_header_name(front[j].0@) != canonical_header_name(front[i].0@) by {
            assert(front[j] == pairs[j]);
        }
        law_last_metadata_is_sent(front, i);
        assert(pairs[pairs.len() - 1] == pairs.last());
    }
}

/// What is sent comes from a pair that can be sent. No name that marks its
/// value as binary is among the names.
pub proof fn law_metadata_comes_from_pairs(pairs: Seq<(String, String)>, name: Seq<char>) -> (i: int)
    requires
        metadata_fields(pairs).contains_key(name),
    ensures
        0 <= i < pairs.len(),
        canonical_header_name(pairs[i].0@) == Some(name),
        metadata_fields(pairs)[name] == seq![encode_utf8(pairs[i].1@)],
        valid_header_value(encode_utf8(pairs[i].1@)),
        !is_suffix("-bin"@, name),
    decreases pairs.len(),
{
    let front = pairs.drop_last();
    assert(pairs.last() == pairs[pairs.len() - 1]);
    if is_metadata(pairs.last().0@, pairs.last().1@) && canonical_header_name(pairs.last().0@)->0 == name {
        pairs.len() - 1
    } else {
        let i = law_metadata_comes_from_pairs(front, name);
        assert(front[i] == pairs[i]);
        i
    }
}

/// Of the values that come under one number, the last stands.
pub proof fn law_last_tlv_stands(list: Seq<(u8, Vec<u8>)>, i: int)
    requires
        0 <= i < list.len(),
        forall|j: int| i < j < list.len() ==> (#[trigger] list[j]).0 != list[i].0,
    ensures
        tlv_map(list).contains_key(list[i].0),
        tlv_map(list)[list[i].0] == list[i].1@,
    decreases list.len(),
{
    if i < list.len() - 1 {
        let front = list.drop_last();
        assert(front[i] == list[i]);
        assert forall|j: int| i < j < front.len() implies (#[trigger] front[j]).0 != front[i].0 by {
            assert(front[j] == list[j]);
        }
        law_last_tlv_stands(front, i);
        assert(list[list.len() - 1] == list.last());
    }
}

/// The number that a base64 digit stands for. The padding stands for nothing.
pub open spec fn base64_value(digit: char) -> int {
    if 'A' <= digit <= 'Z' {
        digit as int - 'A' as int
    } else if 'a' <= digit <= 'z' {
        digit as int - 'a' as int + 26
    } else if '0' <= digit <= '9' {
        digit as int - '0' as int + 52
    } else if digit == '+' {
        62
    } else if digit == '/' {
        63
    } else {
        0
    }
}

proof fn lemma_digit_value(bits: int)
    requires
        0 <= bits < 64,
    ensures
        base64_value(base64_digit(bits)) == bits,
        base64_digit(bits) != '=',
{
}

proof fn lemma_three_bytes(b0: int, b1: int, b2: int)
    requires
        0 <= b0 < 256,
        0 <= b1 < 256,
        0 <= b2 < 256,
    ensures
        ({
            let three = b0 * 65536 + b1 * 256 + b2;
            &&& three / 65536 == b0
            &&& three / 256 % 256 == b1
            &&& three % 256 == b2
            &&& 0 <= three / 262144 < 64
            &&& three == three / 262144 * 262144 + three / 4096 % 64 * 4096 + three / 64 % 64 * 64 + three % 64
            &&& b2 == 0 ==> three % 64 == 0
            &&& b1 == 0 && b2 == 0 ==> three / 64 % 64 == 0
        }),
{
    let three = b0 * 65536 + b1 * 256 + b2;
    assert(three / 65536 == b0);
    assert(three / 256 == b0 * 256 + b1);
    assert((b0 * 256 + b1) % 256 == b1);
    let first = three / 64;
    let second = first / 64;
    let third = second / 64;
    assert(three == first * 64 + three % 64);
    assert(first == second * 64 + first % 64);
    assert(second == third * 64 + second % 64);
    assert(three / 4096 == second);
    assert(three / 262144 == third);
    assert(third < 64);
    if b2 == 0 {
        assert(three == 64 * (b0 * 1024 + b1 * 4));
        assert(first == b0 * 1024 + b1 * 4);
        if b1 == 0 {
            assert(first == 64 * (b0 * 16));
        }
    }
}

proof fn lemma_base64_at(bytes: Seq<u8>, group: int, k: int)
    requires
        0 <= group,
        3 * group < bytes.len(),
        0 <= k < 4,
    ensures
        4 * group + k < base64_of(bytes).len(),
        base64_value(base64_of(bytes)[4 * group + k]) == six_bits(bytes, 4 * group + k),
        base64_of(bytes)[4 * group + k] == '=' <==> 6 * k >= 8 * (bytes.len() - 3 * group),
{
    let at = 4 * group + k;
    assert(at / 4 == group && at % 4 == k);
    lemma_three_bytes(
        byte_or_zero(bytes, 3 * group),
        byte_or_zero(bytes, 3 * group + 1),
        byte_or_zero(bytes, 3 * group + 2),
    );
    assert(0 <= six_bits(bytes, at) < 64);
    lemma_digit_value(six_bits(bytes, at));
}

/// Bytes can be read back from their base64 text: four digits stand for three
/// bytes, and the padding tells how many of the last three are there.
pub proof fn law_base64_reads_back(bytes: Seq<u8>, i: int)
    requires
        0 <= i < bytes.len(),
    ensures
        ({
            let text = base64_of(bytes);
            let at = 4 * (i / 3);
            let three = base64_value(text[at]) * 262144 + base64_value(text[at + 1]) * 4096 + base64_value(text[at + 2])
                * 64 + base64_value(text[at + 3]);
            &&& at + 3 < text.len()
            &&& bytes[i] == (if i % 3 == 0 {
                three / 65536
            } else if i % 3 == 1 {
                three / 256 % 256
            } else {
                three % 256
            })
            &&& i % 3 == 1 ==> text[at + 2] != '='
            &&& i % 3 == 2 ==> text[at + 3] != '='
            &&& i == bytes.len() - 1 && i % 3 == 0 ==> text[at + 2] == '=' && text[at + 3] == '='
            &&& i == bytes.len() - 1 && i % 3 == 1 ==> text[at + 3] == '='
        }),
{
    let group = i / 3;
    lemma_base64_at(bytes, group, 0);
    lemma_base64_at(bytes, group, 1);
    lemma_base64_at(bytes, group, 2);
    lemma_base64_at(bytes, group, 3);
    lemma_three_bytes(
        byte_or_zero(bytes, 3 * group),
        byte_or_zero(bytes, 3 * group + 1),
        byte_or_zero(bytes, 3 * group + 2),
    );
    let at = 4 * group;
    assert(at / 4 == group && at % 4 == 0);
    assert((at + 1) / 4 == group && (at + 1) % 4 == 1);
    assert((at + 2) / 4 == group && (at + 2) % 4 == 2);
    assert((at + 3) / 4 == group && (at + 3) % 4 == 3);
}

} // verus!
