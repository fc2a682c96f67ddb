//! WebAssembly plugins: their memory, the calls they make, and their course.

use orion::address::{IpAddr, SocketAddr};
use orion::callout::{
    finish_call, grpc_call_answered, http_call_answered, orion_dispatch_grpc_call, orion_dispatch_http_call,
    orion_get_downstream_metadata, prepare_grpc_call, Allocation, CalloutRequest, ClusterLookup, GrpcCalloutRequest,
    GrpcReply, GrpcStatus, GuestConnectionMetadata, MetadataEntry, SendOutcome,
};
use orion::guest_memory::{
    alloc_length, guest_length, into_wasm_abi, read_bytes, read_text, write_allocated, write_value, OrionWasmError,
    OrionWasmResult,
};
use orion::headers::{
    apply_mutations_to_map, to_text, FieldName, FieldValue, HeaderMutation, Headers,
};
use orion::hostcalls::{
    orion_log, orion_set_custom_metrics, LogLevel, RequestHead, ResponseHead, WasmState,
};
use orion::http_filters::{FilterDecision, HttpResponse, HttpVersion, ResponseFlags};
use orion::metadata::{DownstreamConnectionMetadata, DownstreamMetadata, ProxyTransport};
use orion::shared_memory::{
    convert_ordering, I64Access, MemoryOrder, SharedMemory, U64Access, NO_VARIABLE, TYPE_BLOB, TYPE_I64, TYPE_U64,
};
use orion::wasm_filter::{
    after_body_hook, orion_plugin, Direction, FilterAction, HookFlags, HookOutcome, InstancePool, LeftBody,
    MessageBody, WasmAction, WasmError, WasmEvent, WasmRun, WASM_INSTANCE_POOL_SIZE,
};
use orion::wasm_instance::{DataSource, LoadFault, ModuleCode, StateNeed, WasmConfig, WasmFilter};

fn name(text: &str) -> FieldName {
    FieldName::parse(text).unwrap()
}

fn value(text: &str) -> FieldValue {
    FieldValue::from_bytes(text.as_bytes().to_vec()).unwrap()
}

fn headers(fields: &[(&str, &str)]) -> Headers {
    let mut headers = Headers::new();
    for (field, content) in fields {
        headers.append(&name(field), &value(content)).unwrap();
    }
    headers
}

fn with_request(fields: &[(&str, &str)]) -> WasmState {
    let mut state = WasmState::new(Some("the configuration".to_owned()));
    state.active_request = Some(RequestHead {
        method: "GET".to_owned(),
        uri: "/a".to_owned(),
        version: HttpVersion::Http11,
        headers: headers(fields),
    });
    state
}

fn with_response() -> WasmState {
    let mut state = WasmState::new(None);
    state.active_response =
        Some(ResponseHead { status: 200, version: HttpVersion::Http11, headers: Headers::new() });
    state
}

/// A memory that begins with some bytes.
fn memory(bytes: &[u8]) -> Vec<u8> {
    let mut mem = bytes.to_vec();
    mem.resize(64, 0);
    mem
}

// Header fields

#[test]
fn header_names_are_canonical_and_values_checked() {
    assert_eq!(name("X-Some-Field").as_str(), "x-some-field");
    assert!(FieldName::parse("no name").is_none());
    assert!(FieldName::parse("").is_none());
    assert!(FieldValue::from_bytes(vec![b'a', b'\n']).is_none());
    assert!(FieldValue::from_bytes(vec![0x80, b'\t']).is_some());
    assert_eq!(FieldName::host().as_str(), "host");
    assert_eq!(FieldName::content_length().as_str(), "content-length");
    assert_eq!(to_text(&vec![b'a']).as_deref(), Some("a"));
    assert_eq!(to_text(&vec![0xff]), None);
}

#[test]
fn changes_of_fields_do_what_they_say() {
    let mut fields = headers(&[("a", "1"), ("a", "2"), ("b", "3")]);
    assert_eq!(fields.get("a"), Some(b"1".to_vec()));
    assert_eq!(fields.get("A"), Some(b"1".to_vec()));
    let made = apply_mutations_to_map(
        &mut fields,
        &vec![
            HeaderMutation::Put(name("a"), value("x")),
            HeaderMutation::Add(name("a"), value("y")),
            HeaderMutation::Replace(name("none"), value("z")),
            HeaderMutation::Replace(name("b"), value("z")),
            HeaderMutation::Remove(name("c")),
        ],
    );
    assert_eq!(made, 5);
    let all: Vec<(String, Vec<u8>)> = fields.list();
    assert_eq!(all.iter().filter(|(n, _)| n == "a").count(), 2);
    assert_eq!(fields.get("b"), Some(b"z".to_vec()));
    assert!(!fields.contains_key(&name("none")));
    assert_eq!(fields.first_values().unwrap().list().len(), 2);
    fields.remove(&name("a"));
    assert!(fields.get("a").is_none());
    assert_eq!(fields.get_text(&name("b")).as_deref(), Some("z"));
}

#[test]
fn a_map_that_is_full_refuses_fields() {
    let mut fields = Headers::new();
    let mut refused = false;
    for n in 0..40_000 {
        if fields.append(&name(&format!("x-{n}")), &value("v")).is_err() {
            refused = true;
            assert!(n > 6_553);
            break;
        }
    }
    assert!(refused);
    assert!(fields.insert(&name("other"), &value("v")).is_err());
    assert!(fields.get("other").is_none());
}

// Guest memory

#[test]
fn values_are_handed_over_with_their_length() {
    let mut mem = memory(b"");
    assert_eq!(write_value(&mut mem, &b"abc".to_vec(), 8, 3, 0), Ok(()));
    assert_eq!(&mem[0..4], &[3, 0, 0, 0]);
    assert_eq!(read_bytes(&mem, 8, 3), Ok(b"abc".to_vec()));
    assert_eq!(read_text(&mem, 8, 3).as_deref(), Ok("abc"));
    let before = mem.clone();
    assert_eq!(write_value(&mut mem, &b"abcd".to_vec(), 8, 3, 0), Err(OrionWasmError::BufferTooSmall));
    assert_eq!(write_value(&mut mem, &b"abcd".to_vec(), 62, 9, 0), Err(OrionWasmError::InvalidMemoryAccess));
    assert_eq!(mem, before);
    assert_eq!(write_value(&mut mem, &b"xyz".to_vec(), 8, 3, 61), Err(OrionWasmError::InvalidMemoryAccess));
    assert_eq!(&mem[8..11], b"xyz");
    assert_eq!(read_bytes(&mem, 60, 5), Err(OrionWasmError::InvalidMemoryAccess));
    assert_eq!(read_bytes(&mem, u32::MAX, u32::MAX), Err(OrionWasmError::InvalidMemoryAccess));
    mem[8] = 0xff;
    assert_eq!(read_text(&mem, 8, 3), Err(OrionWasmError::InvalidMemoryAccess));
    assert_eq!(write_allocated(&mut mem, &b"abc".to_vec(), 20, 0, 4), Ok(()));
    assert_eq!(&mem[0..8], &[20, 0, 0, 0, 3, 0, 0, 0]);
    assert_eq!(guest_length(&vec![0; 5]), 5);
    assert_eq!(alloc_length(&vec![0; 5]), 5);
}

#[test]
fn outcomes_have_numbers() {
    assert_eq!(into_wasm_abi(Ok(())), 0);
    assert_eq!(into_wasm_abi(Err(OrionWasmError::NotFound)), 1);
    assert_eq!(OrionWasmError::BufferTooSmall.code(), 2);
    assert_eq!(OrionWasmError::InvalidMemoryAccess.code(), 3);
    assert_eq!(OrionWasmError::InternalError.code(), 4);
    assert_eq!(OrionWasmError::Timeout.code(), 5);
    assert_eq!(OrionWasmResult::Success.code(), 0);
    assert_eq!(OrionWasmResult::InternalError.code(), 4);
}

// Host calls

#[test]
fn a_plugin_reads_and_changes_fields() {
    let mut state = with_request(&[("x-a", "1")]);
    let mut mem = memory(b"X-Anew");
    assert_eq!(state.orion_get_header(&mut mem, 0, 0, 3, 32, 8, 16), Ok(()));
    assert_eq!((mem[32], mem[16]), (b'1', 1));
    assert_eq!(state.orion_set_header(&mem, 0, 0, 3, 3, 3), Ok(()));
    assert_eq!(state.orion_get_header(&mut mem, 0, 0, 3, 32, 8, 16), Ok(()));
    assert_eq!(&mem[32..35], b"new");
    assert_eq!(state.orion_add_header(&mem, 0, 0, 3, 0, 1), Ok(()));
    assert_eq!(state.active_request.as_ref().unwrap().headers.list().len(), 2);
    assert_eq!(state.orion_replace_header(&mem, 0, 0, 3, 0, 1), Ok(()));
    assert_eq!(state.active_request.as_ref().unwrap().headers.list().len(), 1);
    assert_eq!(state.orion_remove_header(&mem, 0, 0, 3), Ok(()));
    assert_eq!(state.orion_get_header(&mut mem, 0, 0, 3, 32, 8, 16), Err(OrionWasmError::NotFound));
    assert_eq!(state.orion_get_header(&mut mem, 0, 70, 3, 32, 8, 16), Err(OrionWasmError::InvalidMemoryAccess));

    // Trailers come into being when a field is set.
    assert!(state.request_trailers.is_none());
    assert_eq!(state.orion_set_header(&mem, 1, 0, 3, 3, 3), Ok(()));
    assert!(state.request_trailers.is_some());
    assert_eq!(state.headers_to_encode(1).unwrap()[0].0, "x-a");

    let mut idle = WasmState::new(None);
    assert_eq!(idle.orion_set_header(&mem, 0, 0, 3, 3, 3), Err(OrionWasmError::InternalError));
    assert!(idle.headers_to_encode(0).is_err());
    assert_eq!(idle.orion_get_header(&mut mem, 0, 0, 3, 32, 8, 16), Err(OrionWasmError::InternalError));
}

#[test]
fn a_plugin_reads_and_changes_the_rest_of_a_message() {
    let mut state = with_request(&[]);
    let mut mem = memory(b"body");
    assert_eq!(state.orion_get_plugin_config(&mut mem, 8, 32, 4), Ok(()));
    assert_eq!(&mem[8..25], b"the configuration");
    assert_eq!(state.orion_get_body(&mut mem, 8, 32, 4), Err(OrionWasmError::NotFound));
    assert_eq!(state.orion_set_body(&mem, 0, 4), Ok(()));
    assert_eq!(state.buffered_request_body.as_deref(), Some(b"body".as_slice()));
    assert_eq!(state.orion_get_body(&mut mem, 8, 3, 4), Err(OrionWasmError::BufferTooSmall));
    assert_eq!(state.orion_set_uri(&mem, 0, 4, Some("/b".to_owned())), Ok(()));
    assert_eq!(state.active_request.as_ref().unwrap().uri, "/b");
    assert_eq!(state.orion_set_uri(&mem, 0, 4, None), Err(OrionWasmError::InternalError));
    assert_eq!(state.orion_get_status_code(&mut mem, 0), Err(OrionWasmError::InternalError));
    assert_eq!(state.orion_set_status_code(200), Err(OrionWasmError::InternalError));

    let mut response = with_response();
    assert_eq!(response.orion_set_status_code(404), Ok(()));
    assert_eq!(response.orion_get_status_code(&mut mem, 0), Ok(()));
    assert_eq!(&mem[0..4], &[0x94, 1, 0, 0]);
    assert_eq!(response.orion_set_status_code(99), Err(OrionWasmError::InternalError));
    assert_eq!(response.orion_set_status_code(1000), Err(OrionWasmError::InternalError));
    assert_eq!(response.orion_set_status_code(65_536 + 200), Err(OrionWasmError::InternalError));
    assert_eq!(response.active_response.as_ref().unwrap().status, 404);

    state.io_deadline = Some(5);
    state.reset();
    assert!(state.active_request.is_none() && state.buffered_request_body.is_none() && state.io_deadline.is_none());
    assert_eq!(state.plugin_config.as_deref(), Some("the configuration"));
}

#[test]
fn deadlines_cut_waits_short() {
    let mut state = with_request(&[]);
    let mut mem = memory(b"");
    assert_eq!(state.orion_sleep(7, 1_000), (7_000, false));
    assert_eq!(state.call_timeout(1_000), Ok(None));
    state.orion_set_io_timeout(5, 1_000);
    assert_eq!(state.orion_sleep(3, 1_000), (3_000, false));
    assert_eq!(state.orion_sleep(7, 2_000), (4_000, true));
    assert_eq!(state.orion_sleep(7, 6_000), (0, true));
    assert_eq!(state.call_timeout(2_000), Ok(Some(4_000)));
    assert_eq!(state.call_timeout(6_000), Err(OrionWasmError::Timeout));
    assert_eq!(state.orion_clear_io_timeout(&mut mem, 0, 3_000), Ok(()));
    assert_eq!(mem[0], 3);
    assert!(state.io_deadline.is_none());
    assert_eq!(state.orion_clear_io_timeout(&mut mem, 60, 0), Err(OrionWasmError::InvalidMemoryAccess));
}

/// Two pairs of texts as plugins encode them: how many, and each text behind its length.
const TWO_PAIRS: &[u8] = &[2, 1, b'k', 1, b'1', 1, b'k', 2, b'2', b'2'];

#[test]
fn pairs_of_texts_are_decoded() {
    let mut state = with_request(&[]);
    let mem = memory(TWO_PAIRS);
    let len = TWO_PAIRS.len() as u32;
    assert_eq!(state.orion_set_access_log_operators(&mem, 0, len), Ok(()));
    assert_eq!(state.orion_set_access_log_operators(&mem, 0, 3), Err(OrionWasmError::InvalidMemoryAccess));
    assert_eq!(state.orion_set_access_log_operators(&mem, 60, 9), Err(OrionWasmError::InvalidMemoryAccess));
    let operators = state.take_access_log_operators();
    assert_eq!(operators, [("k".to_owned(), "1".to_owned()), ("k".to_owned(), "22".to_owned())]);
    assert!(state.take_access_log_operators().is_empty());

    let labels = orion_set_custom_metrics(&mem, 0, len).unwrap();
    assert_eq!(labels.get("k"), Some("22"));
    assert_eq!(labels.get("other"), None);
    assert!(orion_set_custom_metrics(&mem, 0, 2).is_err());
}

#[test]
fn pairs_longer_than_the_memory_are_refused() {
    let mut bytes = vec![0x01, 0xfd];
    bytes.extend([0xff; 8]);
    let mem = memory(&bytes);
    let mut state = with_request(&[]);
    assert_eq!(state.orion_set_access_log_operators(&mem, 0, 10), Err(OrionWasmError::InvalidMemoryAccess));
    assert!(matches!(orion_set_custom_metrics(&mem, 0, 10), Err(OrionWasmError::InvalidMemoryAccess)));
    let no_pairs = memory(&[0]);
    assert_eq!(orion_set_custom_metrics(&no_pairs, 0, 1).unwrap().get("k"), None);
    let no_text = memory(&[1, 1, 0xff, 1, b'v']);
    assert!(orion_set_custom_metrics(&no_text, 0, 5).is_err());
}

#[test]
fn a_plugin_writes_to_the_log() {
    let mem = memory(b"hello");
    let line = orion_log("plugin", &mem, Some(LogLevel::Warn), 0, 5).unwrap();
    assert_eq!((line.level, line.text.as_str()), (LogLevel::Warn, "plugin: hello"));
    assert_eq!(orion_log("plugin", &mem, None, 0, 5).unwrap().level, LogLevel::Trace);
    assert!(orion_log("plugin", &memory(&[0xff]), None, 0, 1).is_err());
}

// Calls on behalf of a plugin

fn callout(fields: &[(&str, &str)]) -> CalloutRequest {
    CalloutRequest {
        cluster_name: "c".to_owned(),
        method: "GET".to_owned(),
        uri: "http://h.test/".to_owned(),
        uri_host: Some("h.test".to_owned()),
        version: HttpVersion::Http11,
        headers: headers(fields),
        body: vec![],
    }
}

#[test]
fn a_call_gets_the_host_of_its_address() {
    let mut state = with_request(&[]);
    let mem = memory(b"");
    let call = orion_dispatch_http_call(&state, &mem, 0, 4, Some(callout(&[])), ClusterLookup::Ready, 0).unwrap();
    assert_eq!(call.request.headers.get("host"), Some(b"h.test".to_vec()));
    let stated = callout(&[("host", "own.test")]);
    let call = orion_dispatch_http_call(&state, &mem, 0, 4, Some(stated), ClusterLookup::Ready, 0).unwrap();
    assert_eq!(call.request.headers.get("host"), Some(b"own.test".to_vec()));

    let refused = |cluster, len, decoded| {
        orion_dispatch_http_call(&with_request(&[]), &mem, 0, len, decoded, cluster, 0).unwrap_err()
    };
    assert_eq!(refused(ClusterLookup::Ready, 99, None), OrionWasmError::InvalidMemoryAccess);
    assert_eq!(refused(ClusterLookup::Ready, 4, None), OrionWasmError::InternalError);
    assert_eq!(refused(ClusterLookup::Unknown, 4, Some(callout(&[]))), OrionWasmError::NotFound);
    assert_eq!(refused(ClusterLookup::NoConnection, 4, Some(callout(&[]))), OrionWasmError::InternalError);
    state.io_deadline = Some(5);
    let late = orion_dispatch_http_call(&state, &mem, 0, 4, Some(callout(&[])), ClusterLookup::Ready, 5);
    assert_eq!(late.unwrap_err(), OrionWasmError::Timeout);
}

#[test]
fn an_answer_is_handed_to_the_guest() {
    let head =
        ResponseHead { status: 201, version: HttpVersion::Http2, headers: headers(&[("a", "1"), ("a", "2")]) };
    let answer = http_call_answered(SendOutcome::Answered(head), Some(b"x".to_vec())).unwrap();
    assert_eq!(answer.head.status, 201);
    assert_eq!(answer.head.headers.list().len(), 1);
    assert_eq!(answer.body, b"x");
    let bare = || ResponseHead { status: 200, version: HttpVersion::Http11, headers: Headers::new() };
    assert_eq!(
        http_call_answered(SendOutcome::Answered(bare()), None).unwrap_err(),
        OrionWasmError::InternalError
    );
    assert_eq!(http_call_answered(SendOutcome::TimedOut, None).unwrap_err(), OrionWasmError::Timeout);
    assert_eq!(http_call_answered(SendOutcome::Failed, None).unwrap_err(), OrionWasmError::InternalError);

    let mut mem = memory(b"");
    assert_eq!(finish_call(&mut mem, Some(b"abc".to_vec()), Allocation::At(16), 0, 4), Ok(()));
    assert_eq!(&mem[16..19], b"abc");
    assert_eq!((mem[0], mem[4]), (16, 3));
    assert_eq!(finish_call(&mut mem, None, Allocation::At(16), 0, 4), Err(OrionWasmError::InternalError));
    for allocation in [Allocation::NoAllocator, Allocation::Failed, Allocation::NoNumber] {
        assert_eq!(finish_call(&mut mem, Some(vec![]), allocation, 0, 4), Err(OrionWasmError::InternalError));
    }
}

fn grpc(service: &str) -> GrpcCalloutRequest {
    GrpcCalloutRequest {
        cluster_name: "c".to_owned(),
        service_name: service.to_owned(),
        method_name: "M".to_owned(),
        initial_metadata: vec![
            ("X-Key".to_owned(), "v".to_owned()),
            ("data-bin".to_owned(), "dropped".to_owned()),
            ("bad key".to_owned(), "dropped".to_owned()),
        ],
        message: vec![7],
    }
}

#[test]
fn a_grpc_call_is_prepared() {
    let state = with_request(&[]);
    let mem = memory(b"");
    let call =
        orion_dispatch_grpc_call(&state, &mem, 0, 4, Some(grpc("pkg.Service")), ClusterLookup::Ready, 0).unwrap();
    assert_eq!(call.path, "/pkg.Service/M");
    assert_eq!(call.metadata.list(), [("x-key".to_owned(), b"v".to_vec())]);
    assert_eq!(call.message, [7]);
    let bad = orion_dispatch_grpc_call(&state, &mem, 0, 4, Some(grpc("a b")), ClusterLookup::Ready, 0);
    assert_eq!(bad.unwrap_err(), OrionWasmError::InternalError);
    let late = prepare_grpc_call(grpc("s"), true, Err(OrionWasmError::Timeout));
    assert_eq!(late.unwrap_err(), OrionWasmError::Timeout);
}

#[test]
fn a_grpc_answer_is_shown() {
    let entries = || {
        vec![
            MetadataEntry::Ascii("a".to_owned(), Some("1".to_owned())),
            MetadataEntry::Ascii("b".to_owned(), None),
            MetadataEntry::Binary("c-bin".to_owned(), Some(vec![0xff, 0xfe])),
            MetadataEntry::Binary("d-bin".to_owned(), None),
        ]
    };
    let reply = GrpcReply { metadata: entries(), message: vec![1] };
    let answer = grpc_call_answered(Some(Ok(reply))).unwrap();
    let shown: Vec<(&str, &str)> =
        answer.initial_metadata.iter().map(|(k, v)| (k.as_str(), v.as_str())).collect();
    assert_eq!(shown, [("a", "1"), ("b", ""), ("c-bin", "//4="), ("d-bin", "")]);
    assert_eq!(answer.status, 0);
    let bytes = |bytes: &[u8]| {
        let metadata = vec![MetadataEntry::Binary("k-bin".to_owned(), Some(bytes.to_vec()))];
        let reply = GrpcReply { metadata, message: vec![] };
        grpc_call_answered(Some(Ok(reply))).unwrap().initial_metadata[0].1.clone()
    };
    assert_eq!(bytes(b"Man\xff"), "TWFu/w==");
    assert_eq!(bytes(&[0, 16, 131, 16, 81, 135, 251]), "ABCDEFGH+w==");
    let status = GrpcStatus { code: 5, message: "gone".to_owned(), metadata: entries() };
    let answer = grpc_call_answered(Some(Err(status))).unwrap();
    assert_eq!((answer.status, answer.status_message.as_str()), (5, "gone"));
    assert_eq!(answer.trailing_metadata.len(), 4);
    assert_eq!(grpc_call_answered(None).unwrap_err(), OrionWasmError::Timeout);
}

#[test]
fn a_plugin_is_told_of_the_client() {
    let at = |port| SocketAddr { ip: IpAddr::V4(1), port };
    let connection = DownstreamConnectionMetadata::FromProxyProtocol {
        original_peer_address: at(1),
        original_destination_address: at(2),
        protocol: ProxyTransport::Datagram,
        tlv_data: vec![(3, vec![4])],
        proxy_peer_address: at(3),
        proxy_local_address: at(4),
    };
    let metadata = DownstreamMetadata::new(connection, Some("sni".to_owned()), "l".to_owned());
    let told = orion_get_downstream_metadata(&with_request(&[]), Some(&metadata)).unwrap();
    assert_eq!(told.sni.as_deref(), Some("sni"));
    match told.connection {
        GuestConnectionMetadata::FromProxyProtocol { tlv_data, protocol, original_peer_address, .. } => {
            assert_eq!(tlv_data, [(3, vec![4])]);
            assert_eq!(protocol, ProxyTransport::Datagram);
            assert_eq!(original_peer_address, at(1));
        },
        GuestConnectionMetadata::FromSocket { .. } => panic!("no proxy protocol"),
    }
    let unknown = orion_get_downstream_metadata(&with_request(&[]), None);
    assert_eq!(unknown.unwrap_err(), OrionWasmError::NotFound);
    let idle = orion_get_downstream_metadata(&with_response(), Some(&metadata));
    assert_eq!(idle.unwrap_err(), OrionWasmError::InternalError);
}

// Shared variables

#[test]
fn variables_have_one_kind_and_keep_their_number() {
    let mut shared = SharedMemory::new(2);
    let a = shared.resolve("a".to_owned(), TYPE_U64);
    let b = shared.resolve("b".to_owned(), TYPE_U64);
    assert_ne!(a, b);
    assert_eq!(shared.resolve("a".to_owned(), TYPE_U64), a);
    assert_eq!(shared.resolve("a".to_owned(), TYPE_I64), NO_VARIABLE);
    assert_eq!(shared.resolve("c".to_owned(), TYPE_U64), NO_VARIABLE);
    assert_eq!(shared.resolve("c".to_owned(), 9), NO_VARIABLE);
    assert_eq!(shared.resolve("c".to_owned(), TYPE_BLOB), 0);
    let mem = memory(b"a");
    assert_eq!(shared.orion_shared_resolve(&mem, 0, 1, TYPE_U64), a);
    assert_eq!(shared.orion_shared_resolve(&mem, 90, 1, TYPE_U64), NO_VARIABLE);
}

#[test]
fn variables_are_changed_in_one_step() {
    let mut shared = SharedMemory::new(1);
    assert_eq!(shared.access_u64(0, U64Access::Store(6)), 0);
    assert_eq!(shared.access_u64(0, U64Access::FetchAdd(u64::MAX)), 6);
    assert_eq!(shared.access_u64(0, U64Access::FetchNand(4)), 5);
    assert_eq!(shared.access_u64(0, U64Access::FetchAnd(15)), !4);
    assert_eq!(shared.access_u64(0, U64Access::CompareExchange { current: 11, new: 1 }), 11);
    assert_eq!(shared.access_u64(0, U64Access::CompareExchange { current: 11, new: 2 }), 1);
    assert_eq!(shared.access_u64(0, U64Access::FetchMax(9)), 1);
    assert_eq!(shared.access_u64(0, U64Access::FetchMin(3)), 9);
    assert_eq!(shared.access_u64(0, U64Access::Load), 3);
    assert_eq!(shared.access_u64(5, U64Access::Load), 0);
    assert_eq!(shared.access_i64(0, I64Access::FetchSub(4)), 0);
    assert_eq!(shared.access_i64(0, I64Access::FetchMax(-9)), -4);
    assert_eq!(shared.access_i64(0, I64Access::Swap(i64::MIN)), -4);
    assert_eq!(shared.access_i64(0, I64Access::FetchSub(1)), i64::MIN);
    assert_eq!(shared.access_i64(0, I64Access::Load), i64::MAX);
    assert!(matches!(convert_ordering(0), MemoryOrder::Relaxed));
    assert!(matches!(convert_ordering(77), MemoryOrder::SeqCst));
}

#[test]
fn blobs_have_versions() {
    let mut shared = SharedMemory::new(1);
    let mut mem = memory(b"data");
    assert_eq!(shared.blob_write(&mem, 0, 0, 4), 1);
    assert_eq!(shared.blob_write(&mem, 3, 0, 4), 0);
    assert_eq!(shared.blob_read(&mut mem, 0, 16, 4, 8), 4);
    assert_eq!(&mem[16..20], b"data");
    assert_eq!(mem[8], 1);
    assert_eq!(shared.blob_read(&mut mem, 7, 16, 4, 8), NO_VARIABLE);
    assert_eq!(shared.blob_cas(&mut mem, 0, 0, 2, 9, 40), 1);
    assert_eq!(mem[40], 0);
    assert_eq!(shared.blob_cas(&mut mem, 0, 0, 2, 1, 40), 2);
    assert_eq!(mem[40], 1);
    assert_eq!(shared.blob_read(&mut mem, 0, 16, 1, 8), 2);
}

// The course of a message

fn exports(names: &[&str]) -> Vec<String> {
    names.iter().map(|n| (*n).to_owned()).collect()
}

fn finish(action: WasmAction) -> (FilterDecision, bool) {
    match action {
        WasmAction::Finish { decision, apply_log_operators } => (decision, apply_log_operators),
        other => panic!("{other:?}"),
    }
}

#[test]
fn a_plugin_without_hooks_sees_nothing() {
    let flags = HookFlags::from_exports(&exports(&["memory", "on_plugin_start"]));
    assert!(flags.on_plugin_start && !flags.on_request_headers);
    let (_, action) = WasmRun::apply_request(flags, HttpVersion::Http11);
    assert!(matches!(finish(action), (FilterDecision::Continue, false)));
    let (_, action) = WasmRun::apply_response(flags, HttpVersion::Http11);
    assert!(matches!(finish(action), (FilterDecision::Continue, false)));
}

#[test]
fn a_plugin_exports_what_it_implements() {
    let made = orion_plugin(&exports(&["helper", "on_response_body", "on_request_headers", "on_plugin_start"]));
    assert_eq!(made, ["on_request_headers", "on_response_body"]);
    let flags = HookFlags::from_exports(&made);
    assert!(flags.on_request_headers && flags.on_response_body);
    assert!(!flags.on_request_body && !flags.on_response_headers && !flags.on_plugin_start);
}

#[test]
fn a_plugin_can_ask_for_the_body() {
    let flags = HookFlags::from_exports(&exports(&["on_request_headers", "on_request_body", "on_transaction_start"]));
    let (mut run, action) = WasmRun::apply_request(flags, HttpVersion::Http11);
    assert!(matches!(action, WasmAction::CallTransactionStart));
    let action = run.step(WasmEvent::Hook(HookOutcome::Returned(0)));
    assert!(matches!(action, WasmAction::Attach));
    assert!(matches!(run.step(WasmEvent::Attached), WasmAction::CallHeaders));
    assert!(matches!(run.step(WasmEvent::Hook(HookOutcome::Returned(1))), WasmAction::CollectBody));
    let came = received(b"nine byte", &[]);
    assert!(matches!(run.step(WasmEvent::Collected(Some(came))), WasmAction::CallBody(9)));
    let mut fields = headers(&[("content-length", "9")]);
    let left = LeftBody { bytes: Some(b"four".to_vec()), trailers: None };
    let (decision, log) = finish(run.body_hook_done(HookOutcome::Returned(0), left, &mut fields));
    assert!(matches!(decision, FilterDecision::Continue));
    assert!(log);
    assert_eq!(run.body.unwrap().bytes, b"four");
    assert_eq!(fields.get("content-length"), Some(b"4".to_vec()));
}

fn received(bytes: &[u8], trailers: &[(&str, &str)]) -> MessageBody {
    let trailers = if trailers.is_empty() { None } else { Some(headers(trailers)) };
    MessageBody { bytes: bytes.to_vec(), trailers }
}

#[test]
fn a_body_that_no_hook_sees_goes_on_as_it_came() {
    for names in [["on_request_headers"], ["on_response_headers"]] {
        let flags = HookFlags::from_exports(&exports(&names));
        let (mut run, action) = if flags.on_request_headers {
            WasmRun::apply_request(flags, HttpVersion::Http11)
        } else {
            WasmRun::apply_response(flags, HttpVersion::Http11)
        };
        assert!(matches!(action, WasmAction::Attach));
        run.step(WasmEvent::Attached);
        assert!(matches!(run.step(WasmEvent::Hook(HookOutcome::Returned(1))), WasmAction::CollectBody));
        let came = received(b"bytes", &[("x-sum", "7")]);
        let (decision, log) = finish(run.step(WasmEvent::Collected(Some(came))));
        assert!(matches!(decision, FilterDecision::Continue));
        assert!(log);
        let body = run.body.unwrap();
        assert_eq!(body.bytes, b"bytes");
        assert_eq!(body.trailers.unwrap().get("x-sum"), Some(b"7".to_vec()));
    }
}

#[test]
fn a_hook_that_is_not_run_leaves_the_body() {
    let flags = HookFlags::from_exports(&exports(&["on_request_body"]));
    let (mut run, _) = WasmRun::apply_request(flags, HttpVersion::Http11);
    run.step(WasmEvent::Attached);
    run.step(WasmEvent::Collected(Some(received(b"bytes", &[]))));
    let mut fields = headers(&[("content-length", "5")]);
    let left = LeftBody { bytes: Some(vec![]), trailers: None };
    let (decision, _) = finish(run.body_hook_done(HookOutcome::Unresolved, left, &mut fields));
    assert!(matches!(decision, FilterDecision::Continue));
    assert_eq!(run.body.unwrap().bytes, b"bytes");
    assert_eq!(fields.get("content-length"), Some(b"5".to_vec()));
}

#[test]
fn a_plugin_is_shown_the_body_and_leaves_another() {
    let mut state = with_request(&[("x-a", "1")]);
    let (head, body) = state.request_to_encode().unwrap();
    assert_eq!(head.headers.get("x-a"), Some(b"1".to_vec()));
    assert!(body.is_empty());
    state.show_body(Direction::Request, &received(b"bytes", &[("x-sum", "7")]));
    assert_eq!(state.request_to_encode().unwrap().1, b"bytes");
    let left = state.take_body(Direction::Request);
    assert_eq!(left.bytes.as_deref(), Some(b"bytes".as_slice()));
    assert_eq!(left.trailers.unwrap().get("x-sum"), Some(b"7".to_vec()));
    assert!(state.buffered_request_body.is_none() && state.request_trailers.is_none());
    assert!(matches!(state.response_to_encode(), Err(OrionWasmError::InternalError)));

    state.active_request = None;
    state.active_response =
        Some(ResponseHead { status: 404, version: HttpVersion::Http2, headers: headers(&[("x-b", "2")]) });
    state.show_body(Direction::Response, &received(b"gone", &[]));
    let (head, body) = state.response_to_encode().unwrap();
    assert_eq!((head.status, body.as_slice()), (404, b"gone".as_slice()));
    assert_eq!(head.headers.get("x-b"), Some(b"2".to_vec()));
    assert!(matches!(state.request_to_encode(), Err(OrionWasmError::InternalError)));
    assert!(state.take_body(Direction::Response).trailers.is_none());
}

#[test]
fn a_plugin_can_answer_itself() {
    let flags = HookFlags::from_exports(&exports(&["on_request_headers"]));
    let (mut run, action) = WasmRun::apply_request(flags, HttpVersion::Http11);
    assert!(matches!(action, WasmAction::Attach));
    run.step(WasmEvent::Attached);
    assert!(matches!(run.step(WasmEvent::Hook(HookOutcome::Returned(2))), WasmAction::TakeDirectResponse));
    let response = HttpResponse {
        status: 418,
        version: HttpVersion::Http11,
        headers: Headers::new(),
        body: vec![],
        failure: None,
        flags: ResponseFlags::empty(),
    };
    let (decision, _) = finish(run.step(WasmEvent::DirectTaken(Ok(Some(response)))));
    assert!(matches!(decision, FilterDecision::DirectResponse(r) if r.status == 418));
}

#[test]
fn a_plugin_that_fails_fails_the_message() {
    let flags = HookFlags::from_exports(&exports(&["on_request_headers"]));
    let (mut run, _) = WasmRun::apply_request(flags, HttpVersion::Http11);
    run.step(WasmEvent::Attached);
    let outcome = HookOutcome::NoInstance(WasmError::InitError("none".to_owned()));
    let (decision, _) = finish(run.step(WasmEvent::Hook(outcome)));
    assert!(matches!(decision, FilterDecision::DirectResponse(r)
        if r.status == 500 && r.body == b"Initialization error: none"));
    assert_eq!(FilterAction::from_code(1), Some(FilterAction::PauseAndBufferBody));
    assert_eq!(FilterAction::from_code(7), None);
    assert_eq!(
        WasmError::Wasmtime("x".to_owned()).message(),
        "Wasmtime compilation or execution error: x"
    );
}

#[test]
fn a_new_body_brings_its_length() {
    let mut fields = headers(&[("content-length", "3")]);
    let left = LeftBody { bytes: Some(b"longer".to_vec()), trailers: None };
    let body = after_body_hook(&mut fields, received(b"old", &[("x-sum", "1")]), left);
    assert_eq!(body.bytes, b"longer");
    assert!(body.trailers.is_none());
    assert_eq!(fields.get("content-length"), Some(b"6".to_vec()));
    let mut chunked = headers(&[]);
    let left = LeftBody { bytes: None, trailers: Some(Headers::new()) };
    let body = after_body_hook(&mut chunked, received(b"old", &[]), left);
    assert_eq!(body.bytes, b"old");
    assert!(chunked.get("content-length").is_none());
    let nothing = LeftBody { bytes: None, trailers: None };
    let body = after_body_hook(&mut chunked, received(b"old", &[("x-sum", "1")]), nothing);
    assert_eq!(body.bytes, b"old");
    assert!(body.trailers.is_some());
}

// The instances of a plugin

fn config(code: DataSource) -> WasmConfig {
    WasmConfig { name: "p".to_owned(), code, configuration: Some("conf".to_owned()) }
}

#[test]
fn a_module_comes_from_a_file_or_the_configuration() {
    let path = DataSource::Path("/p.wasm".to_owned());
    assert!(matches!(path.module_code(), Ok(ModuleCode::File("/p.wasm"))));
    assert!(matches!(DataSource::InlineBytes(vec![1]).module_code(), Ok(ModuleCode::Binary(b)) if b == &vec![1]));
    assert!(matches!(DataSource::InlineString("(module)".to_owned()).module_code(), Ok(ModuleCode::Text("(module)"))));
    let variable = DataSource::EnvironmentVariable("V".to_owned());
    let refused = WasmFilter::try_new(config(variable), Ok(vec![])).unwrap_err();
    assert_eq!(refused.message(), "Unsupported data source: EnvVar: V");
    let load = |fault| WasmFilter::try_new(config(DataSource::InlineBytes(vec![])), Err(fault)).unwrap_err().message();
    assert_eq!(
        load(LoadFault::Compile("x".to_owned())),
        "Wasmtime compilation or execution error: x"
    );
    assert_eq!(load(LoadFault::Link("y".to_owned())), "Wasmtime compilation or execution error: y");
    assert_eq!(
        load(LoadFault::Hostcalls("z".to_owned())),
        "Initialization error: failed to register hostcalls: z"
    );
}

#[test]
fn an_idle_instance_is_used_again() {
    let hooks = exports(&["on_plugin_start", "on_transaction_complete", "on_plugin_destroy"]);
    let (mut inner, mut filter) = WasmFilter::try_new(config(DataSource::InlineBytes(vec![])), Ok(hooks)).unwrap();
    let StateNeed::Instantiate(state) = filter.get_state(&mut inner) else {
        panic!("an instance out of nothing");
    };
    assert_eq!(state.plugin_config.as_deref(), Some("conf"));
    let failed = filter.instantiated(&inner, Err("boom".to_owned())).unwrap_err();
    assert_eq!(failed.message(), "Initialization error: failed to instantiate module: boom");
    let made = filter.instantiated(&inner, Ok(17)).unwrap();
    assert_eq!((made.instance, made.run_start), (17, true));
    assert!(matches!(filter.get_state(&mut inner), StateNeed::Ready(17)));
    let done = filter.release(&mut inner).unwrap();
    assert!(done.kept && done.run_complete && !done.run_destroy);
    assert!(filter.release(&mut inner).is_none());

    let mut next = filter.new_from();
    assert!(matches!(next.get_state(&mut inner), StateNeed::Ready(17)));
    assert!(matches!(filter.get_state(&mut inner), StateNeed::Instantiate(_)));
}

#[test]
fn the_pool_is_bounded_and_first_in_first_out() {
    let mut pool = InstancePool::new();
    assert_eq!(pool.take(), None);
    for n in 0..WASM_INSTANCE_POOL_SIZE as u64 {
        assert!(pool.give_back(n));
    }
    assert!(!pool.give_back(9_999));
    assert_eq!(pool.take(), Some(0));
    assert_eq!(pool.take(), Some(1));
    assert!(pool.give_back(9_999));
}
