//! The calls by which a WebAssembly plugin reads and changes the message it
//! is shown.
//!
//! A plugin is shown one message at a time, a request or a response. Values
//! of a type of their own that a plugin passes in encoded form are decoded by
//! the caller; what could not be decoded comes as `None`.

use crate::guest_memory::{
    holds_text, patched, read_bytes, read_text, value_memory, value_outcome, within, write_u32, write_u64, write_value,
    OrionWasmError,
};
use crate::guest_memory::{le4, le8};
use crate::headers::{
    apply_mutation, apply_mutations_to_map, canonical_header_name, first_value_under, has_room, mutated, mutated_by,
    no_fields, valid_header_value, values_named, values_of, FieldName, FieldValue, Fields, HeaderMutation, Headers,
    MutationView,
};
use crate::http_filters::{HttpResponse, HttpVersion};
use crate::key_value::{last_values, KeyValueMap};
use crate::token_bucket::MAX_INSTANT;
use crate::wasm_filter::{Direction, LeftBody, MessageBody};
use vstd::prelude::*;
use vstd::utf8::{decode_utf8, encode_utf8};

verus! {

/// A request without its body.
#[derive(Debug)]
pub struct RequestHead {
    pub method: String,
    pub uri: String,
    pub version: HttpVersion,
    pub headers: Headers,
}

/// A response without its body.
#[derive(Debug)]
pub struct ResponseHead {
    pub status: u16,
    pub version: HttpVersion,
    pub headers: Headers,
}

/// What an instance of a plugin works on.
#[derive(Debug)]
pub struct WasmState {
    pub plugin_config: Option<String>,
    pub direct_response: Option<HttpResponse>,
    pub buffered_request_body: Option<Vec<u8>>,
    pub buffered_response_body: Option<Vec<u8>>,
    pub request_trailers: Option<Headers>,
    pub response_trailers: Option<Headers>,
    pub access_log_operators: Vec<(String, String)>,
    /// The instant after which the plugin may wait for nothing, in nanoseconds.
    pub io_deadline: Option<u128>,
    pub active_request: Option<RequestHead>,
    pub active_response: Option<ResponseHead>,
}

/// A request as it is described.
#[verifier::ext_equal]
pub ghost struct RequestView {
    pub method: String,
    pub uri: String,
    pub version: HttpVersion,
    pub headers: Fields,
}

/// A response as it is described.
#[verifier::ext_equal]
pub ghost struct ResponseView {
    pub status: u16,
    pub version: HttpVersion,
    pub headers: Fields,
}

/// The state of an instance as it is described.
#[verifier::ext_equal]
pub ghost struct StateView {
    pub plugin_config: Option<String>,
    pub direct_response: Option<HttpResponse>,
    pub buffered_request_body: Option<Seq<u8>>,
    pub buffered_response_body: Option<Seq<u8>>,
    pub request_trailers: Option<Fields>,
    pub response_trailers: Option<Fields>,
    pub access_log_operators: Seq<(Seq<char>, Seq<char>)>,
    pub io_deadline: Option<u128>,
    pub request: Option<RequestView>,
    pub response: Option<ResponseView>,
}

pub open spec fn fields_of(headers: Option<Headers>) -> Option<Fields> {
    match headers {
        Some(h) => Some(h@),
        None => None,
    }
}

pub open spec fn body_of(body: Option<Vec<u8>>) -> Option<Seq<u8>> {
    match body {
        Some(b) => Some(b@),
        None => None,
    }
}

/// The bytes of a body, or none.
fn copy_body(body: &Option<Vec<u8>>) -> (bytes: Vec<u8>)
    ensures
        bytes@ == (match body_of(*body) {
            Some(b) => b,
            None => Seq::empty(),
        }),
{
    match body {
        Some(b) => {
            let bytes: Vec<u8> = b.clone();
            assert(bytes@ =~= b@);
            bytes
        },
        None => Vec::new(),
    }
}

impl View for RequestHead {
    type V = RequestView;

    open spec fn view(&self) -> RequestView {
        RequestView { method: self.method, uri: self.uri, version: self.version, headers: self.headers@ }
    }
}

impl View for ResponseHead {
    type V = ResponseView;

    open spec fn view(&self) -> ResponseView {
        ResponseView { status: self.status, version: self.version, headers: self.headers@ }
    }
}

impl View for WasmState {
    type V = StateView;

    open spec fn view(&self) -> StateView {
        StateView {
            plugin_config: self.plugin_config,
            direct_response: self.direct_response,
            buffered_request_body: body_of(self.buffered_request_body),
            buffered_response_body: body_of(self.buffered_response_body),
            request_trailers: fields_of(self.request_trailers),
            response_trailers: fields_of(self.response_trailers),
            access_log_operators: pairs_view(self.access_log_operators@),
            io_deadline: self.io_deadline,
            request: match self.active_request {
                Some(r) => Some(r@),
                None => None,
            },
            response: match self.active_response {
                Some(r) => Some(r@),
                None => None,
            },
        }
    }
}

/// Pairs of texts as they are described.
pub open spec fn pairs_view(pairs: Seq<(String, String)>) -> Seq<(Seq<char>, Seq<char>)> {
    Seq::new(pairs.len(), |i: int| (pairs[i].0@, pairs[i].1@))
}

/// The pairs that may have been decoded, as they are described.
pub open spec fn found_pairs(pairs: Option<Vec<(String, String)>>) -> Option<Seq<(Seq<char>, Seq<char>)>> {
    match pairs {
        Some(list) => Some(pairs_view(list@)),
        None => None,
    }
}

/// The pairs of texts that `bincode_next` decodes from bytes in its standard
/// configuration, where it can.
pub uninterp spec fn decoded_pairs(bytes: Seq<u8>) -> Option<Seq<(Seq<char>, Seq<char>)>>;

/// `bincode_next::serde::borrow_decode_from_slice`: the list of pairs of texts
/// that the bytes begin with, under the standard configuration. Bytes that
/// follow it are not looked at. The texts are read where they stand among the
/// bytes, so a length that the bytes do not hold is an error.
#[verifier::external_body]
fn decode_pairs(bytes: &Vec<u8>) -> (pairs: Option<Vec<(String, String)>>)
    ensures
        found_pairs(pairs) == decoded_pairs(bytes@),
{
    let read: Option<(Vec<(&str, &str)>, usize)> = bincode_next::serde::borrow_decode_from_slice(
        bytes.as_slice(),
        bincode_next::config::standard(),
    ).ok();
    read.map(|(pairs, _)| pairs.into_iter().map(|(k, v)| (k.to_owned(), v.to_owned())).collect())
}

/// The pairs of texts that a memory holds at a place, where it holds any.
pub open spec fn pairs_at(mem: Seq<u8>, ptr: u32, len: u32) -> Option<Seq<(Seq<char>, Seq<char>)>> {
    if within(mem, ptr as int, len as int) {
        decoded_pairs(mem.subrange(ptr as int, ptr + len))
    } else {
        None
    }
}

/// Reads pairs of texts from the memory.
fn read_pairs(mem: &[u8], ptr: u32, len: u32) -> (res: Result<Vec<(String, String)>, OrionWasmError>)
    ensures
        match res {
            Ok(pairs) => pairs_at(mem@, ptr, len) == Some(pairs_view(pairs@)),
            Err(e) => pairs_at(mem@, ptr, len) is None && e == OrionWasmError::InvalidMemoryAccess,
        },
{
    match read_bytes(mem, ptr, len) {
        Err(e) => Err(e),
        Ok(bytes) => match decode_pairs(&bytes) {
            Some(pairs) => Ok(pairs),
            None => Err(OrionWasmError::InvalidMemoryAccess),
        },
    }
}

/// Reads the labels and values that a plugin reports for the custom metrics:
/// of pairs with the same label, the last counts.
pub fn orion_set_custom_metrics(mem: &[u8], buffer_ptr: u32, buffer_len: u32) -> (res: Result<
    KeyValueMap,
    OrionWasmError,
>)
    ensures
        match res {
            Ok(labels) => pairs_at(mem@, buffer_ptr, buffer_len) is Some && labels@ == last_values(
                pairs_at(mem@, buffer_ptr, buffer_len)->0,
            ),
            Err(e) => pairs_at(mem@, buffer_ptr, buffer_len) is None && e == OrionWasmError::InvalidMemoryAccess,
        },
{
    match read_pairs(mem, buffer_ptr, buffer_len) {
        Err(e) => Err(e),
        Ok(pairs) => Ok(key_values(&pairs)),
    }
}

/// The values under their keys; of pairs with the same key, the last counts.
pub fn key_values(pairs: &Vec<(String, String)>) -> (map: KeyValueMap)
    ensures
        map@ == last_values(pairs_view(pairs@)),
{
    let mut map = KeyValueMap::new();
    let mut i: usize = 0;
    assert(pairs_view(pairs@).take(0) =~= Seq::empty());
    while i < pairs.len()
        invariant
            i <= pairs@.len(),
            map@ == last_values(pairs_view(pairs@).take(i as int)),
        decreases pairs@.len() - i,
    {
        map.insert(pairs[i].0.as_str(), pairs[i].1.as_str());
        assert(pairs_view(pairs@).take(i + 1).drop_last() =~= pairs_view(pairs@).take(i as int));
        i = i + 1;
    }
    assert(pairs_view(pairs@).take(i as int) =~= pairs_view(pairs@));
    map
}

/// How grave a message of a plugin is.
#[derive(Debug, Clone, Copy, PartialEq, Eq, Structural)]
pub enum LogLevel {
    Error,
    Warn,
    Info,
    Debug,
    Trace,
}

/// A line for the log.
#[derive(Debug)]
pub struct LogLine {
    pub level: LogLevel,
    pub text: String,
}

/// Makes a message of a plugin into a line for the log. A level that is not
/// known counts as the least grave.
pub fn orion_log(name: &str, mem: &[u8], level: Option<LogLevel>, msg_ptr: u32, msg_len: u32) -> (res: Result<
    LogLine,
    OrionWasmError,
>)
    ensures
        match res {
            Ok(line) => {
                &&& holds_text(mem@, msg_ptr, msg_len)
                &&& line.text@ == name@ + ": "@ + decode_utf8(mem@.subrange(msg_ptr as int, msg_ptr + msg_len))
                &&& line.level == (if level is Some {
                    level->0
                } else {
                    LogLevel::Trace
                })
            },
            Err(e) => !holds_text(mem@, msg_ptr, msg_len) && e == OrionWasmError::InvalidMemoryAccess,
        },
{
    match read_text(mem, msg_ptr, msg_len) {
        Err(e) => Err(e),
        Ok(msg) => {
            let mut text = name.to_owned();
            text.append(": ");
            text.append(msg.as_str());
            let level = match level {
                Some(level) => level,
                None => LogLevel::Trace,
            };
            Ok(LogLine { level, text })
        },
    }
}

impl StateView {
    /// Whether the plugin is shown a message.
    pub open spec fn has_message(self) -> bool {
        self.request is Some || self.response is Some
    }

    /// The fields that a call is about: those of the message, or its trailers,
    /// which may not be there.
    pub open spec fn fields(self, is_trailer: u32) -> Option<Fields> {
        if self.request is Some {
            if is_trailer == 0 {
                Some(self.request->0.headers)
            } else {
                self.request_trailers
            }
        } else if self.response is Some {
            if is_trailer == 0 {
                Some(self.response->0.headers)
            } else {
                self.response_trailers
            }
        } else {
            None
        }
    }

    /// The fields that a call is about; none where the trailers are not there.
    pub open spec fn fields_or_none(self, is_trailer: u32) -> Fields {
        match self.fields(is_trailer) {
            Some(fields) => fields,
            None => no_fields(),
        }
    }

    /// The state with other fields in place of those a call is about.
    pub open spec fn with_fields(self, is_trailer: u32, fields: Fields) -> StateView {
        if self.request is Some {
            if is_trailer == 0 {
                StateView { request: Some(RequestView { headers: fields, ..self.request->0 }), ..self }
            } else {
                StateView { request_trailers: Some(fields), ..self }
            }
        } else if self.response is Some {
            if is_trailer == 0 {
                StateView { response: Some(ResponseView { headers: fields, ..self.response->0 }), ..self }
            } else {
                StateView { response_trailers: Some(fields), ..self }
            }
        } else {
            self
        }
    }

    /// The state after one change to the fields that a call is about.
    pub open spec fn edited(self, is_trailer: u32, mutation: MutationView) -> StateView {
        if mutation is Remove && self.fields(is_trailer) is None {
            self
        } else {
            self.with_fields(is_trailer, mutated(self.fields_or_none(is_trailer), mutation))
        }
    }

    /// The body that a call is about.
    pub open spec fn body(self) -> Option<Seq<u8>> {
        if self.request is Some {
            self.buffered_request_body
        } else {
            self.buffered_response_body
        }
    }

    /// The state with another body for the message.
    pub open spec fn with_body(self, body: Seq<u8>) -> StateView {
        if self.request is Some {
            StateView { buffered_request_body: Some(body), ..self }
        } else {
            StateView { buffered_response_body: Some(body), ..self }
        }
    }
}

/// The name of a field that a plugin hands over, or what is wrong with it.
pub open spec fn name_read(mem: Seq<u8>, ptr: u32, len: u32) -> Result<Seq<char>, OrionWasmError> {
    if !holds_text(mem, ptr, len) {
        Err(OrionWasmError::InvalidMemoryAccess)
    } else {
        match canonical_header_name(decode_utf8(mem.subrange(ptr as int, ptr + len))) {
            Some(name) => Ok(name),
            None => Err(OrionWasmError::InternalError),
        }
    }
}

/// The value of a field that a plugin hands over, or what is wrong with it.
pub open spec fn value_read(mem: Seq<u8>, ptr: u32, len: u32) -> Result<Seq<u8>, OrionWasmError> {
    if !within(mem, ptr as int, len as int) {
        Err(OrionWasmError::InvalidMemoryAccess)
    } else if !valid_header_value(mem.subrange(ptr as int, ptr + len)) {
        Err(OrionWasmError::InternalError)
    } else {
        Ok(mem.subrange(ptr as int, ptr + len))
    }
}

fn get_name_from_memory(mem: &[u8], ptr: u32, len: u32) -> (res: Result<FieldName, OrionWasmError>)
    ensures
        match res {
            Ok(name) => name_read(mem@, ptr, len) == Ok::<Seq<char>, OrionWasmError>(name@),
            Err(e) => name_read(mem@, ptr, len) == Err::<Seq<char>, OrionWasmError>(e),
        },
{
    match read_text(mem, ptr, len) {
        Err(e) => Err(e),
        Ok(text) => match FieldName::parse(text.as_str()) {
            Some(name) => Ok(name),
            None => Err(OrionWasmError::InternalError),
        },
    }
}

fn get_value_from_memory(mem: &[u8], ptr: u32, len: u32) -> (res: Result<FieldValue, OrionWasmError>)
    ensures
        match res {
            Ok(value) => value_read(mem@, ptr, len) == Ok::<Seq<u8>, OrionWasmError>(value@),
            Err(e) => value_read(mem@, ptr, len) == Err::<Seq<u8>, OrionWasmError>(e),
        },
{
    match read_bytes(mem, ptr, len) {
        Err(e) => Err(e),
        Ok(bytes) => match FieldValue::from_bytes(bytes) {
            Some(value) => Ok(value),
            None => Err(OrionWasmError::InternalError),
        },
    }
}

impl WasmState {
    /// The state of a fresh instance.
    pub fn new(plugin_config: Option<String>) -> (state: WasmState)
        ensures
            state@.plugin_config == plugin_config,
            state@.direct_response is None,
            state@.buffered_request_body is None,
            state@.buffered_response_body is None,
            state@.request_trailers is None,
            state@.response_trailers is None,
            state@.access_log_operators.len() == 0,
            state@.io_deadline is None,
            state@.request is None,
            state@.response is None,
    {
        WasmState {
            plugin_config,
            direct_response: None,
            buffered_request_body: None,
            buffered_response_body: None,
            request_trailers: None,
            response_trailers: None,
            access_log_operators: Vec::new(),
            io_deadline: None,
            active_request: None,
            active_response: None,
        }
    }

    /// Forgets the message, before the instance is shown another. What
    /// concerns the plugin itself stays, and so do trailers and operators.
    pub fn reset(&mut self)
        ensures
            final(self)@ == (StateView {
                direct_response: None,
                buffered_request_body: None,
                buffered_response_body: None,
                io_deadline: None,
                request: None,
                response: None,
                ..old(self)@
            }),
    {
        self.direct_response = None;
        self.buffered_request_body = None;
        self.buffered_response_body = None;
        self.io_deadline = None;
        self.active_request = None;
        self.active_response = None;
    }

    /// Reads the first value of a field.
    pub fn orion_get_header(
        &self,
        mem: &mut [u8],
        is_trailer: u32,
        name_ptr: u32,
        name_len: u32,
        value_ptr: u32,
        value_max_len: u32,
        written_len_ptr: u32,
    ) -> (res: Result<(), OrionWasmError>)
        ensures
            ({
                let text = decode_utf8(old(mem)@.subrange(name_ptr as int, name_ptr + name_len));
                if !holds_text(old(mem)@, name_ptr, name_len) {
                    res == Err::<(), OrionWasmError>(OrionWasmError::InvalidMemoryAccess) && final(mem)@ == old(mem)@
                } else if !self@.has_message() {
                    res == Err::<(), OrionWasmError>(OrionWasmError::InternalError) && final(mem)@ == old(mem)@
                } else {
                    match first_value_under(self@.fields_or_none(is_trailer), text) {
                        None => res == Err::<(), OrionWasmError>(OrionWasmError::NotFound) && final(mem)@ == old(
                            mem,
                        )@,
                        Some(value) => {
                            &&& res == value_outcome(old(mem)@, value, value_ptr, value_max_len, written_len_ptr)
                            &&& final(mem)@ == value_memory(
                                old(mem)@,
                                value,
                                value_ptr,
                                value_max_len,
                                written_len_ptr,
                            )
                        },
                    }
                }
            }),
    {
        let name: String = match read_text(mem, name_ptr, name_len) {
            Ok(name) => name,
            Err(e) => {
                return Err(e);
            },
        };
        let value: Option<Vec<u8>> = if let Some(request) = &self.active_request {
            if is_trailer == 0 {
                request.headers.get(name.as_str())
            } else {
                match &self.request_trailers {
                    Some(trailers) => trailers.get(name.as_str()),
                    None => None,
                }
            }
        } else if let Some(response) = &self.active_response {
            if is_trailer == 0 {
                response.headers.get(name.as_str())
            } else {
                match &self.response_trailers {
                    Some(trailers) => trailers.get(name.as_str()),
                    None => None,
                }
            }
        } else {
            return Err(OrionWasmError::InternalError);
        };
        match value {
            Some(value) => write_value(mem, &value, value_ptr, value_max_len, written_len_ptr),
            None => Err(OrionWasmError::NotFound),
        }
    }

    /// Reads the configuration of the plugin.
    pub fn orion_get_plugin_config(&self, mem: &mut [u8], config_ptr: u32, max_len: u32, written_len_ptr: u32) -> (res:
        Result<(), OrionWasmError>)
        ensures
            match self@.plugin_config {
                None => res == Err::<(), OrionWasmError>(OrionWasmError::NotFound) && final(mem)@ == old(mem)@,
                Some(config) => {
                    &&& res == value_outcome(old(mem)@, encode_utf8(config@), config_ptr, max_len, written_len_ptr)
                    &&& final(mem)@ == value_memory(
                        old(mem)@,
                        encode_utf8(config@),
                        config_ptr,
                        max_len,
                        written_len_ptr,
                    )
                },
            },
    {
        match &self.plugin_config {
            None => Err(OrionWasmError::NotFound),
            Some(config) => {
                let bytes: Vec<u8> = config.as_str().as_bytes_vec();
                write_value(mem, &bytes, config_ptr, max_len, written_len_ptr)
            },
        }
    }

    /// Reads the body of the message, where it has been buffered.
    pub fn orion_get_body(&self, mem: &mut [u8], body_ptr: u32, max_len: u32, written_len_ptr: u32) -> (res: Result<
        (),
        OrionWasmError,
    >)
        ensures
            if !self@.has_message() {
                res == Err::<(), OrionWasmError>(OrionWasmError::InternalError) && final(mem)@ == old(mem)@
            } else {
                match self@.body() {
                    None => res == Err::<(), OrionWasmError>(OrionWasmError::NotFound) && final(mem)@ == old(mem)@,
                    Some(body) => {
                        &&& res == value_outcome(old(mem)@, body, body_ptr, max_len, written_len_ptr)
                        &&& final(mem)@ == value_memory(old(mem)@, body, body_ptr, max_len, written_len_ptr)
                    },
                }
            },
    {
        let body: &Option<Vec<u8>> = if self.active_request.is_some() {
            &self.buffered_request_body
        } else if self.active_response.is_some() {
            &self.buffered_response_body
        } else {
            return Err(OrionWasmError::InternalError);
        };
        match body {
            Some(body) => write_value(mem, body, body_ptr, max_len, written_len_ptr),
            None => Err(OrionWasmError::NotFound),
        }
    }

    /// Replaces the body of the message. A body of no bytes needs no place in memory.
    pub fn orion_set_body(&mut self, mem: &[u8], body_ptr: u32, body_len: u32) -> (res: Result<(), OrionWasmError>)
        ensures
            if body_len > 0 && !within(mem@, body_ptr as int, body_len as int) {
                res == Err::<(), OrionWasmError>(OrionWasmError::InvalidMemoryAccess) && final(self)@ == old(self)@
            } else if !old(self)@.has_message() {
                res == Err::<(), OrionWasmError>(OrionWasmError::InternalError) && final(self)@ == old(self)@
            } else {
                &&& res is Ok
                &&& final(self)@ == old(self)@.with_body(
                    if body_len > 0 {
                        mem@.subrange(body_ptr as int, body_ptr + body_len)
                    } else {
                        Seq::<u8>::empty()
                    },
                )
            },
    {
        let body: Vec<u8> = if body_len > 0 {
            match read_bytes(mem, body_ptr, body_len) {
                Ok(bytes) => bytes,
                Err(e) => {
                    return Err(e);
                },
            }
        } else {
            Vec::new()
        };
        if self.active_request.is_some() {
            self.buffered_request_body = Some(body);
        } else if self.active_response.is_some() {
            self.buffered_response_body = Some(body);
        } else {
            return Err(OrionWasmError::InternalError);
        }
        Ok(())
    }

    /// Takes a response that the plugin wants sent in place of going on.
    pub fn orion_send_direct_response(
        &mut self,
        mem: &[u8],
        resp_ptr: u32,
        resp_len: u32,
        decoded: Option<HttpResponse>,
    ) -> (res: Result<(), OrionWasmError>)
        ensures
            if !within(mem@, resp_ptr as int, resp_len as int) {
                res == Err::<(), OrionWasmError>(OrionWasmError::InvalidMemoryAccess) && final(self)@ == old(self)@
            } else if decoded is None {
                res == Err::<(), OrionWasmError>(OrionWasmError::InternalError) && final(self)@ == old(self)@
            } else {
                res is Ok && final(self)@ == (StateView { direct_response: decoded, ..old(self)@ })
            },
    {
        if let Err(e) = read_bytes(mem, resp_ptr, resp_len) {
            return Err(e);
        }
        match decoded {
            None => Err(OrionWasmError::InternalError),
            Some(response) => {
                self.direct_response = Some(response);
                Ok(())
            },
        }
    }

    /// Adds operators for the access log, which the plugin passes as a list of pairs.
    pub fn orion_set_access_log_operators(&mut self, mem: &[u8], buffer_ptr: u32, buffer_len: u32) -> (res: Result<
        (),
        OrionWasmError,
    >)
        ensures
            match pairs_at(mem@, buffer_ptr, buffer_len) {
                None => res == Err::<(), OrionWasmError>(OrionWasmError::InvalidMemoryAccess) && final(self)@
                    == old(self)@,
                Some(pairs) => res is Ok && final(self)@ == (StateView {
                    access_log_operators: old(self)@.access_log_operators + pairs,
                    ..old(self)@
                }),
            },
    {
        match read_pairs(mem, buffer_ptr, buffer_len) {
            Err(e) => Err(e),
            Ok(operators) => {
                self.add_operators(operators);
                Ok(())
            },
        }
    }

    /// Adds operators for the access log.
    pub fn add_operators(&mut self, operators: Vec<(String, String)>)
        ensures
            final(self)@ == (StateView {
                access_log_operators: old(self)@.access_log_operators + pairs_view(operators@),
                ..old(self)@
            }),
    {
        let mut added = operators;
        self.access_log_operators.append(&mut added);
        assert(pairs_view(self.access_log_operators@) =~= old(self)@.access_log_operators + pairs_view(operators@));
    }

    /// Hands the operators for the access log to the caller.
    pub fn take_access_log_operators(&mut self) -> (operators: Vec<(String, String)>)
        ensures
            pairs_view(operators@) == old(self)@.access_log_operators,
            final(self)@ == (StateView { access_log_operators: Seq::empty(), ..old(self)@ }),
    {
        let mut operators: Vec<(String, String)> = Vec::new();
        std::mem::swap(&mut operators, &mut self.access_log_operators);
        assert(pairs_view(self.access_log_operators@) =~= Seq::empty());
        operators
    }

    /// The fields that `orion_get_headers_map` is to encode.
    pub fn headers_to_encode(&self, is_trailer: u32) -> (res: Result<Vec<(String, Vec<u8>)>, OrionWasmError>)
        ensures
            match res {
                Err(e) => !self@.has_message() && e == OrionWasmError::InternalError,
                Ok(list) => self@.has_message() && forall|name: Seq<char>|
                    #[trigger] values_named(list@, name) == values_of(self@.fields_or_none(is_trailer), name),
            },
    {
        if let Some(request) = &self.active_request {
            if is_trailer == 0 {
                Ok(request.headers.list())
            } else {
                match &self.request_trailers {
                    Some(trailers) => Ok(trailers.list()),
                    None => Ok(Vec::new()),
                }
            }
        } else if let Some(response) = &self.active_response {
            if is_trailer == 0 {
                Ok(response.headers.list())
            } else {
                match &self.response_trailers {
                    Some(trailers) => Ok(trailers.list()),
                    None => Ok(Vec::new()),
                }
            }
        } else {
            Err(OrionWasmError::InternalError)
        }
    }

    /// Hands over all fields, as they were encoded.
    pub fn orion_get_headers_map(
        &self,
        mem: &mut [u8],
        encoded: Option<Vec<u8>>,
        buf_ptr: u32,
        max_len: u32,
        written_len_ptr: u32,
    ) -> (res: Result<(), OrionWasmError>)
        ensures
            if !self@.has_message() || encoded is None {
                res == Err::<(), OrionWasmError>(OrionWasmError::InternalError) && final(mem)@ == old(mem)@
            } else {
                &&& res == value_outcome(old(mem)@, encoded->0@, buf_ptr, max_len, written_len_ptr)
                &&& final(mem)@ == value_memory(old(mem)@, encoded->0@, buf_ptr, max_len, written_len_ptr)
            },
    {
        if self.active_request.is_none() && self.active_response.is_none() {
            return Err(OrionWasmError::InternalError);
        }
        match encoded {
            None => Err(OrionWasmError::InternalError),
            Some(bytes) => write_value(mem, &bytes, buf_ptr, max_len, written_len_ptr),
        }
    }

    fn replace_fields(&mut self, is_trailer: u32, headers: Headers) -> (res: Result<(), OrionWasmError>)
        ensures
            if old(self)@.has_message() {
                res is Ok && final(self)@ == old(self)@.with_fields(is_trailer, headers@)
            } else {
                res == Err::<(), OrionWasmError>(OrionWasmError::InternalError) && final(self)@ == old(self)@
            },
    {
        if let Some(request) = &mut self.active_request {
            if is_trailer == 0 {
                request.headers = headers;
            } else {
                self.request_trailers = Some(headers);
            }
            Ok(())
        } else if let Some(response) = &mut self.active_response {
            if is_trailer == 0 {
                response.headers = headers;
            } else {
                self.response_trailers = Some(headers);
            }
            Ok(())
        } else {
            Err(OrionWasmError::InternalError)
        }
    }

    /// Replaces all fields.
    pub fn orion_set_headers_map(
        &mut self,
        mem: &[u8],
        is_trailer: u32,
        buf_ptr: u32,
        buf_len: u32,
        decoded: Option<Headers>,
    ) -> (res: Result<(), OrionWasmError>)
        ensures
            if !within(mem@, buf_ptr as int, buf_len as int) {
                res == Err::<(), OrionWasmError>(OrionWasmError::InvalidMemoryAccess) && final(self)@ == old(self)@
            } else if decoded is None || !old(self)@.has_message() {
                res == Err::<(), OrionWasmError>(OrionWasmError::InternalError) && final(self)@ == old(self)@
            } else {
                res is Ok && final(self)@ == old(self)@.with_fields(is_trailer, decoded->0@)
            },
    {
        if let Err(e) = read_bytes(mem, buf_ptr, buf_len) {
            return Err(e);
        }
        match decoded {
            None => Err(OrionWasmError::InternalError),
            Some(headers) => self.replace_fields(is_trailer, headers),
        }
    }

    /// Hands over the address of the request, as it was encoded.
    pub fn orion_get_uri(
        &self,
        mem: &mut [u8],
        encoded: Option<Vec<u8>>,
        buf_ptr: u32,
        max_len: u32,
        written_len_ptr: u32,
    ) -> (res: Result<(), OrionWasmError>)
        ensures
            if self@.request is None || encoded is None {
                res == Err::<(), OrionWasmError>(OrionWasmError::InternalError) && final(mem)@ == old(mem)@
            } else {
                &&& res == value_outcome(old(mem)@, encoded->0@, buf_ptr, max_len, written_len_ptr)
                &&& final(mem)@ == value_memory(old(mem)@, encoded->0@, buf_ptr, max_len, written_len_ptr)
            },
    {
        if self.active_request.is_none() {
            return Err(OrionWasmError::InternalError);
        }
        match encoded {
            None => Err(OrionWasmError::InternalError),
            Some(bytes) => write_value(mem, &bytes, buf_ptr, max_len, written_len_ptr),
        }
    }

    /// Replaces the address of the request.
    pub fn orion_set_uri(&mut self, mem: &[u8], buf_ptr: u32, buf_len: u32, decoded: Option<String>) -> (res: Result<
        (),
        OrionWasmError,
    >)
        ensures
            if !within(mem@, buf_ptr as int, buf_len as int) {
                res == Err::<(), OrionWasmError>(OrionWasmError::InvalidMemoryAccess) && final(self)@ == old(self)@
            } else if decoded is None || old(self)@.request is None {
                res == Err::<(), OrionWasmError>(OrionWasmError::InternalError) && final(self)@ == old(self)@
            } else {
                res is Ok && final(self)@ == (StateView {
                    request: Some(RequestView { uri: decoded->0, ..old(self)@.request->0 }),
                    ..old(self)@
                })
            },
    {
        if let Err(e) = read_bytes(mem, buf_ptr, buf_len) {
            return Err(e);
        }
        match decoded {
            None => Err(OrionWasmError::InternalError),
            Some(uri) => {
                if let Some(request) = &mut self.active_request {
                    request.uri = uri;
                    Ok(())
                } else {
                    Err(OrionWasmError::InternalError)
                }
            },
        }
    }

    /// Reads the status of the response.
    pub fn orion_get_status_code(&self, mem: &mut [u8], out_status_ptr: u32) -> (res: Result<(), OrionWasmError>)
        ensures
            if self@.response is None {
                res == Err::<(), OrionWasmError>(OrionWasmError::InternalError) && final(mem)@ == old(mem)@
            } else if !within(old(mem)@, out_status_ptr as int, 4) {
                res == Err::<(), OrionWasmError>(OrionWasmError::InvalidMemoryAccess) && final(mem)@ == old(mem)@
            } else {
                res is Ok && final(mem)@ == patched(
                    old(mem)@,
                    out_status_ptr as int,
                    le4(self@.response->0.status as u32),
                )
            },
    {
        match &self.active_response {
            None => Err(OrionWasmError::InternalError),
            Some(response) => {
                if write_u32(mem, out_status_ptr, response.status as u32) {
                    Ok(())
                } else {
                    Err(OrionWasmError::InvalidMemoryAccess)
                }
            },
        }
    }

    /// Replaces the status of the response by one that a response can have.
    pub fn orion_set_status_code(&mut self, status_code: u32) -> (res: Result<(), OrionWasmError>)
        ensures
            if old(self)@.response is Some && valid_status(status_code as int) {
                res is Ok && final(self)@ == (StateView {
                    response: Some(ResponseView { status: status_code as u16, ..old(self)@.response->0 }),
                    ..old(self)@
                })
            } else {
                res == Err::<(), OrionWasmError>(OrionWasmError::InternalError) && final(self)@ == old(self)@
            },
    {
        if let Some(response) = &mut self.active_response {
            if status_code > u16::MAX as u32 {
                return Err(OrionWasmError::InternalError);
            }
            if !status_is_valid(status_code as u16) {
                return Err(OrionWasmError::InternalError);
            }
            response.status = status_code as u16;
            Ok(())
        } else {
            Err(OrionWasmError::InternalError)
        }
    }

    fn edit(&mut self, is_trailer: u32, mutation: &HeaderMutation) -> (res: Result<(), OrionWasmError>)
        ensures
            res is Ok ==> old(self)@.has_message() && final(self)@ == old(self)@.edited(is_trailer, mutation@),
            res matches Err(e) ==> e == OrionWasmError::InternalError && final(self)@ == old(self)@ && (!old(
                self,
            )@.has_message() || !has_room(old(self)@.fields_or_none(is_trailer)) && *mutation !is Remove),
    {
        let removes: bool = match mutation {
            HeaderMutation::Remove(_) => true,
            _ => false,
        };
        if let Some(request) = &mut self.active_request {
            if is_trailer == 0 {
                match apply_mutation(&mut request.headers, mutation) {
                    Ok(()) => Ok(()),
                    Err(_) => Err(OrionWasmError::InternalError),
                }
            } else if let Some(trailers) = &mut self.request_trailers {
                match apply_mutation(trailers, mutation) {
                    Ok(()) => Ok(()),
                    Err(_) => Err(OrionWasmError::InternalError),
                }
            } else if removes {
                Ok(())
            } else {
                let mut trailers = Headers::new();
                match apply_mutation(&mut trailers, mutation) {
                    Ok(()) => {
                        self.request_trailers = Some(trailers);
                        Ok(())
                    },
                    Err(_) => Err(OrionWasmError::InternalError),
                }
            }
        } else if let Some(response) = &mut self.active_response {
            if is_trailer == 0 {
                match apply_mutation(&mut response.headers, mutation) {
                    Ok(()) => Ok(()),
                    Err(_) => Err(OrionWasmError::InternalError),
                }
            } else if let Some(trailers) = &mut self.response_trailers {
                match apply_mutation(trailers, mutation) {
                    Ok(()) => Ok(()),
                    Err(_) => Err(OrionWasmError::InternalError),
                }
            } else if removes {
                Ok(())
            } else {
                let mut trailers = Headers::new();
                match apply_mutation(&mut trailers, mutation) {
                    Ok(()) => {
                        self.response_trailers = Some(trailers);
                        Ok(())
                    },
                    Err(_) => Err(OrionWasmError::InternalError),
                }
            }
        } else {
            Err(OrionWasmError::InternalError)
        }
    }

    /// Puts a value under a name in place of all that were there.
    pub fn orion_set_header(
        &mut self,
        mem: &[u8],
        is_trailer: u32,
        name_ptr: u32,
        name_len: u32,
        value_ptr: u32,
        value_len: u32,
    ) -> (res: Result<(), OrionWasmError>)
        ensures
            edit_outcome(
                old(self)@,
                final(self)@,
                is_trailer,
                name_read(mem@, name_ptr, name_len),
                value_read(mem@, value_ptr, value_len),
                |name: Seq<char>, value: Seq<u8>| MutationView::Put(name, value),
                res,
            ),
    {
        let name: FieldName = match get_name_from_memory(mem, name_ptr, name_len) {
            Ok(name) => name,
            Err(e) => {
                return Err(e);
            },
        };
        let value: FieldValue = match get_value_from_memory(mem, value_ptr, value_len) {
            Ok(value) => value,
            Err(e) => {
                return Err(e);
            },
        };
        self.edit(is_trailer, &HeaderMutation::Put(name, value))
    }

    /// Adds a value to those under a name.
    pub fn orion_add_header(
        &mut self,
        mem: &[u8],
        is_trailer: u32,
        name_ptr: u32,
        name_len: u32,
        value_ptr: u32,
        value_len: u32,
    ) -> (res: Result<(), OrionWasmError>)
        ensures
            edit_outcome(
                old(self)@,
                final(self)@,
                is_trailer,
                name_read(mem@, name_ptr, name_len),
                value_read(mem@, value_ptr, value_len),
                |name: Seq<char>, value: Seq<u8>| MutationView::Add(name, value),
                res,
            ),
    {
        let name: FieldName = match get_name_from_memory(mem, name_ptr, name_len) {
            Ok(name) => name,
            Err(e) => {
                return Err(e);
            },
        };
        let value: FieldValue = match get_value_from_memory(mem, value_ptr, value_len) {
            Ok(value) => value,
            Err(e) => {
                return Err(e);
            },
        };
        self.edit(is_trailer, &HeaderMutation::Add(name, value))
    }

    /// Puts a value under a name if the field is there.
    pub fn orion_replace_header(
        &mut self,
        mem: &[u8],
        is_trailer: u32,
        name_ptr: u32,
        name_len: u32,
        value_ptr: u32,
        value_len: u32,
    ) -> (res: Result<(), OrionWasmError>)
        ensures
            edit_outcome(
                old(self)@,
                final(self)@,
                is_trailer,
                name_read(mem@, name_ptr, name_len),
                value_read(mem@, value_ptr, value_len),
                |name: Seq<char>, value: Seq<u8>| MutationView::Replace(name, value),
                res,
            ),
    {
        let name: FieldName = match get_name_from_memory(mem, name_ptr, name_len) {
            Ok(name) => name,
            Err(e) => {
                return Err(e);
            },
        };
        let value: FieldValue = match get_value_from_memory(mem, value_ptr, value_len) {
            Ok(value) => value,
            Err(e) => {
                return Err(e);
            },
        };
        self.edit(is_trailer, &HeaderMutation::Replace(name, value))
    }

    /// Takes out a field with all its values.
    pub fn orion_remove_header(&mut self, mem: &[u8], is_trailer: u32, name_ptr: u32, name_len: u32) -> (res: Result<
        (),
        OrionWasmError,
    >)
        ensures
            edit_outcome(
                old(self)@,
                final(self)@,
                is_trailer,
                name_read(mem@, name_ptr, name_len),
                Ok(Seq::<u8>::empty()),
                |name: Seq<char>, value: Seq<u8>| MutationView::Remove(name),
                res,
            ),
    {
        let name: FieldName = match get_name_from_memory(mem, name_ptr, name_len) {
            Ok(name) => name,
            Err(e) => {
                return Err(e);
            },
        };
        self.edit(is_trailer, &HeaderMutation::Remove(name))
    }

    /// Makes a list of changes to the fields.
    pub fn orion_apply_header_mutations(
        &mut self,
        mem: &[u8],
        is_trailer: u32,
        buf_ptr: u32,
        buf_len: u32,
        decoded: Option<Vec<HeaderMutation>>,
    ) -> (res: Result<(), OrionWasmError>)
        ensures
            if !within(mem@, buf_ptr as int, buf_len as int) {
                res == Err::<(), OrionWasmError>(OrionWasmError::InvalidMemoryAccess) && final(self)@ == old(self)@
            } else if decoded is None || !old(self)@.has_message() {
                res == Err::<(), OrionWasmError>(OrionWasmError::InternalError) && final(self)@ == old(self)@
            } else {
                &&& res is Ok ==> final(self)@ == old(self)@.with_fields(
                    is_trailer,
                    mutated_by(old(self)@.fields_or_none(is_trailer), decoded->0@),
                )
                &&& res matches Err(e) ==> e == OrionWasmError::InternalError && exists|made: int|
                    0 <= made < decoded->0@.len() && final(self)@ == old(self)@.with_fields(
                        is_trailer,
                        #[trigger] mutated_by(old(self)@.fields_or_none(is_trailer), decoded->0@.take(made)),
                    ) && !has_room(final(self)@.fields_or_none(is_trailer))
            },
    {
        if let Err(e) = read_bytes(mem, buf_ptr, buf_len) {
            return Err(e);
        }
        let mutations: Vec<HeaderMutation> = match decoded {
            None => {
                return Err(OrionWasmError::InternalError);
            },
            Some(mutations) => mutations,
        };
        let made: usize;
        if let Some(request) = &mut self.active_request {
            if is_trailer == 0 {
                made = apply_mutations_to_map(&mut request.headers, &mutations);
            } else if let Some(trailers) = &mut self.request_trailers {
                made = apply_mutations_to_map(trailers, &mutations);
            } else {
                let mut trailers = Headers::new();
                made = apply_mutations_to_map(&mut trailers, &mutations);
                self.request_trailers = Some(trailers);
            }
        } else if let Some(response) = &mut self.active_response {
            if is_trailer == 0 {
                made = apply_mutations_to_map(&mut response.headers, &mutations);
            } else if let Some(trailers) = &mut self.response_trailers {
                made = apply_mutations_to_map(trailers, &mutations);
            } else {
                let mut trailers = Headers::new();
                made = apply_mutations_to_map(&mut trailers, &mutations);
                self.response_trailers = Some(trailers);
            }
        } else {
            return Err(OrionWasmError::InternalError);
        }
        proof {
            assert(mutations@.take(mutations@.len() as int) =~= mutations@);
            assert(self@ =~= old(self)@.with_fields(
                is_trailer,
                mutated_by(old(self)@.fields_or_none(is_trailer), mutations@.take(made as int)),
            ));
        }
        if made < mutations.len() {
            Err(OrionWasmError::InternalError)
        } else {
            Ok(())
        }
    }

    /// Shows the body of a message to the plugin, with its trailers.
    pub fn show_body(&mut self, direction: Direction, body: &MessageBody)
        ensures
            final(self)@ == (match direction {
                Direction::Request => StateView {
                    buffered_request_body: Some(body@.bytes),
                    request_trailers: body@.trailers,
                    ..old(self)@
                },
                Direction::Response => StateView {
                    buffered_response_body: Some(body@.bytes),
                    response_trailers: body@.trailers,
                    ..old(self)@
                },
            }),
    {
        let bytes: Vec<u8> = body.bytes.clone();
        assert(bytes@ =~= body.bytes@);
        let trailers: Option<Headers> = match &body.trailers {
            Some(fields) => Some(fields.copy()),
            None => None,
        };
        match direction {
            Direction::Request => {
                self.buffered_request_body = Some(bytes);
                self.request_trailers = trailers;
            },
            Direction::Response => {
                self.buffered_response_body = Some(bytes);
                self.response_trailers = trailers;
            },
        }
    }

    /// Takes back what the plugin left of the body of a message.
    pub fn take_body(&mut self, direction: Direction) -> (left: LeftBody)
        ensures
            match direction {
                Direction::Request => {
                    &&& body_of(left.bytes) == old(self)@.buffered_request_body
                    &&& fields_of(left.trailers) == old(self)@.request_trailers
                    &&& final(self)@ == (StateView {
                        buffered_request_body: None,
                        request_trailers: None,
                        ..old(self)@
                    })
                },
                Direction::Response => {
                    &&& body_of(left.bytes) == old(self)@.buffered_response_body
                    &&& fields_of(left.trailers) == old(self)@.response_trailers
                    &&& final(self)@ == (StateView {
                        buffered_response_body: None,
                        response_trailers: None,
                        ..old(self)@
                    })
                },
            },
    {
        let mut left = LeftBody { bytes: None, trailers: None };
        match direction {
            Direction::Request => {
                std::mem::swap(&mut left.bytes, &mut self.buffered_request_body);
                std::mem::swap(&mut left.trailers, &mut self.request_trailers);
            },
            Direction::Response => {
                std::mem::swap(&mut left.bytes, &mut self.buffered_response_body);
                std::mem::swap(&mut left.trailers, &mut self.response_trailers);
            },
        }
        left
    }

    /// The request that `orion_get_request` is to encode: all of its head, and
    /// its buffered body, which is empty where none is buffered.
    pub fn request_to_encode(&self) -> (res: Result<(RequestHead, Vec<u8>), OrionWasmError>)
        ensures
            match res {
                Err(e) => self@.request is None && e == OrionWasmError::InternalError,
                Ok((head, body)) => {
                    &&& self@.request == Some(head@)
                    &&& body@ == (match self@.buffered_request_body {
                        Some(bytes) => bytes,
                        None => Seq::empty(),
                    })
                },
            },
    {
        match &self.active_request {
            None => Err(OrionWasmError::InternalError),
            Some(head) => {
                let copied = RequestHead {
                    method: head.method.clone(),
                    uri: head.uri.clone(),
                    version: head.version,
                    headers: head.headers.copy(),
                };
                Ok((copied, copy_body(&self.buffered_request_body)))
            },
        }
    }

    /// Hands over the request with its buffered body: `encoded` is what
    /// `request_to_encode` gives, as bytes, where it could be encoded.
    pub fn orion_get_request(
        &self,
        mem: &mut [u8],
        encoded: Option<Vec<u8>>,
        buf_ptr: u32,
        max_len: u32,
        written_len_ptr: u32,
    ) -> (res: Result<(), OrionWasmError>)
        ensures
            if self@.request is None || encoded is None {
                res == Err::<(), OrionWasmError>(OrionWasmError::InternalError) && final(mem)@ == old(mem)@
            } else {
                &&& res == value_outcome(old(mem)@, encoded->0@, buf_ptr, max_len, written_len_ptr)
                &&& final(mem)@ == value_memory(old(mem)@, encoded->0@, buf_ptr, max_len, written_len_ptr)
            },
    {
        if self.active_request.is_none() {
            return Err(OrionWasmError::InternalError);
        }
        match encoded {
            None => Err(OrionWasmError::InternalError),
            Some(bytes) => write_value(mem, &bytes, buf_ptr, max_len, written_len_ptr),
        }
    }

    /// Replaces the request and its buffered body.
    pub fn orion_set_request(
        &mut self,
        mem: &[u8],
        buf_ptr: u32,
        buf_len: u32,
        decoded: Option<(RequestHead, Vec<u8>)>,
    ) -> (res: Result<(), OrionWasmError>)
        ensures
            if !within(mem@, buf_ptr as int, buf_len as int) {
                res == Err::<(), OrionWasmError>(OrionWasmError::InvalidMemoryAccess) && final(self)@ == old(self)@
            } else if decoded is None || old(self)@.request is None {
                res == Err::<(), OrionWasmError>(OrionWasmError::InternalError) && final(self)@ == old(self)@
            } else {
                res is Ok && final(self)@ == (StateView {
                    request: Some((decoded->0).0@),
                    buffered_request_body: Some((decoded->0).1@),
                    ..old(self)@
                })
            },
    {
        if let Err(e) = read_bytes(mem, buf_ptr, buf_len) {
            return Err(e);
        }
        match decoded {
            None => Err(OrionWasmError::InternalError),
            Some((head, body)) => {
                if self.active_request.is_none() {
                    return Err(OrionWasmError::InternalError);
                }
                self.active_request = Some(head);
                self.buffered_request_body = Some(body);
                Ok(())
            },
        }
    }

    /// The response that `orion_get_response` is to encode: all of its head, and
    /// its buffered body, which is empty where none is buffered.
    pub fn response_to_encode(&self) -> (res: Result<(ResponseHead, Vec<u8>), OrionWasmError>)
        ensures
            match res {
                Err(e) => self@.response is None && e == OrionWasmError::InternalError,
                Ok((head, body)) => {
                    &&& self@.response == Some(head@)
                    &&& body@ == (match self@.buffered_response_body {
                        Some(bytes) => bytes,
                        None => Seq::empty(),
                    })
                },
            },
    {
        match &self.active_response {
            None => Err(OrionWasmError::InternalError),
            Some(head) => {
                let copied = ResponseHead { status: head.status, version: head.version, headers: head.headers.copy() };
                Ok((copied, copy_body(&self.buffered_response_body)))
            },
        }
    }

    /// Hands over the response with its buffered body: `encoded` is what
    /// `response_to_encode` gives, as bytes, where it could be encoded.
    pub fn orion_get_response(
        &self,
        mem: &mut [u8],
        encoded: Option<Vec<u8>>,
        buf_ptr: u32,
        max_len: u32,
        written_len_ptr: u32,
    ) -> (res: Result<(), OrionWasmError>)
        ensures
            if self@.response is None || encoded is None {
                res == Err::<(), OrionWasmError>(OrionWasmError::InternalError) && final(mem)@ == old(mem)@
            } else {
                &&& res == value_outcome(old(mem)@, encoded->0@, buf_ptr, max_len, written_len_ptr)
                &&& final(mem)@ == value_memory(old(mem)@, encoded->0@, buf_ptr, max_len, written_len_ptr)
            },
    {
        if self.active_response.is_none() {
            return Err(OrionWasmError::InternalError);
        }
        match encoded {
            None => Err(OrionWasmError::InternalError),
            Some(bytes) => write_value(mem, &bytes, buf_ptr, max_len, written_len_ptr),
        }
    }

    /// Replaces the response and its buffered body.
    pub fn orion_set_response(
        &mut self,
        mem: &[u8],
        buf_ptr: u32,
        buf_len: u32,
        decoded: Option<(ResponseHead, Vec<u8>)>,
    ) -> (res: Result<(), OrionWasmError>)
        ensures
            if !within(mem@, buf_ptr as int, buf_len as int) {
                res == Err::<(), OrionWasmError>(OrionWasmError::InvalidMemoryAccess) && final(self)@ == old(self)@
            } else if decoded is None || old(self)@.response is None {
                res == Err::<(), OrionWasmError>(OrionWasmError::InternalError) && final(self)@ == old(self)@
            } else {
                res is Ok && final(self)@ == (StateView {
                    response: Some((decoded->0).0@),
                    buffered_response_body: Some((decoded->0).1@),
                    ..old(self)@
                })
            },
    {
        if let Err(e) = read_bytes(mem, buf_ptr, buf_len) {
            return Err(e);
        }
        match decoded {
            None => Err(OrionWasmError::InternalError),
            Some((head, body)) => {
                if self.active_response.is_none() {
                    return Err(OrionWasmError::InternalError);
                }
                self.active_response = Some(head);
                self.buffered_response_body = Some(body);
                Ok(())
            },
        }
    }

    /// Sets the time from now on within which the plugin may wait.
    pub fn orion_set_io_timeout(&mut self, microseconds: u64, now: u128)
        requires
            now + microseconds * 1_000 <= MAX_INSTANT,
        ensures
            final(self)@ == (StateView {
                io_deadline: Some((now + microseconds * 1_000) as u128),
                ..old(self)@
            }),
    {
        self.io_deadline = Some(now + (microseconds as u128) * 1_000);
    }

    /// Forgets the deadline, and tells the plugin how many microseconds were left.
    pub fn orion_clear_io_timeout(&mut self, mem: &mut [u8], remaining_us_ptr: u32, now: u128) -> (res: Result<
        (),
        OrionWasmError,
    >)
        ensures
            final(self)@ == (StateView { io_deadline: None, ..old(self)@ }),
            if within(old(mem)@, remaining_us_ptr as int, 8) {
                res is Ok && final(mem)@ == patched(
                    old(mem)@,
                    remaining_us_ptr as int,
                    le8(remaining_micros(old(self)@.io_deadline, now)),
                )
            } else {
                res == Err::<(), OrionWasmError>(OrionWasmError::InvalidMemoryAccess) && final(mem)@ == old(mem)@
            },
    {
        let remaining: u64 = match self.io_deadline {
            None => 0,
            Some(deadline) => {
                if deadline > now {
                    let micros: u128 = (deadline - now) / 1_000;
                    if micros <= u64::MAX as u128 {
                        micros as u64
                    } else {
                        0
                    }
                } else {
                    0
                }
            },
        };
        self.io_deadline = None;
        if write_u64(mem, remaining_us_ptr, remaining) {
            Ok(())
        } else {
            Err(OrionWasmError::InvalidMemoryAccess)
        }
    }

    /// How long the plugin sleeps, in nanoseconds, and whether its deadline cuts the sleep short.
    pub fn orion_sleep(&self, microseconds: u64, now: u128) -> (plan: (u128, bool))
        ensures
            plan == sleep_plan(self@.io_deadline, microseconds, now),
    {
        let duration: u128 = (microseconds as u128) * 1_000;
        match self.io_deadline {
            None => (duration, false),
            Some(deadline) => {
                if now >= deadline {
                    (0, true)
                } else if duration > deadline - now {
                    (deadline - now, true)
                } else {
                    (duration, false)
                }
            },
        }
    }

    /// How long a call on the plugin's behalf may take: without limit, so many
    /// nanoseconds, or not at all.
    pub fn call_timeout(&self, now: u128) -> (timeout: Result<Option<u128>, OrionWasmError>)
        ensures
            timeout == timeout_at(self@.io_deadline, now),
    {
        match self.io_deadline {
            None => Ok(None),
            Some(deadline) => {
                if now >= deadline {
                    Err(OrionWasmError::Timeout)
                } else {
                    Ok(Some(deadline - now))
                }
            },
        }
    }
}

/// Whether a number is a status that a response can have.
pub open spec fn valid_status(code: int) -> bool {
    100 <= code < 1000
}

/// `http::StatusCode::from_u16`: whether it accepts the number. It accepts
/// those from 100 to 999.
#[verifier::external_body]
fn status_is_valid(code: u16) -> (valid: bool)
    ensures
        valid == valid_status(code as int),
{
    http::StatusCode::from_u16(code).is_ok()
}

/// The microseconds left until a deadline; none after it, and none where they
/// are beyond what can be told.
pub open spec fn remaining_micros(deadline: Option<u128>, now: u128) -> u64 {
    match deadline {
        Some(d) => if d > now && (d - now) / 1_000 <= u64::MAX {
            ((d - now) / 1_000) as u64
        } else {
            0
        },
        None => 0,
    }
}

/// How long a sleep lasts, and whether the deadline cuts it short.
pub open spec fn sleep_plan(deadline: Option<u128>, microseconds: u64, now: u128) -> (u128, bool) {
    let wanted = (microseconds * 1_000) as u128;
    match deadline {
        Some(d) => if now >= d {
            (0, true)
        } else if wanted > d - now {
            ((d - now) as u128, true)
        } else {
            (wanted, false)
        },
        None => (wanted, false),
    }
}

/// How long a call may take.
pub open spec fn timeout_at(deadline: Option<u128>, now: u128) -> Result<Option<u128>, OrionWasmError> {
    match deadline {
        Some(d) => if now >= d {
            Err(OrionWasmError::Timeout)
        } else {
            Ok(Some((d - now) as u128))
        },
        None => Ok(None),
    }
}

/// What a call that changes a field comes to: what is wrong with the name or
/// else the value, or no message, or the change. Only a map without room
/// refuses a change that is in order.
pub open spec fn edit_outcome(
    before: StateView,
    after: StateView,
    is_trailer: u32,
    name: Result<Seq<char>, OrionWasmError>,
    value: Result<Seq<u8>, OrionWasmError>,
    change: spec_fn(Seq<char>, Seq<u8>) -> MutationView,
    res: Result<(), OrionWasmError>,
) -> bool {
    match name {
        Err(e) => res == Err::<(), OrionWasmError>(e) && after == before,
        Ok(n) => match value {
            Err(e) => res == Err::<(), OrionWasmError>(e) && after == before,
            Ok(v) => {
                &&& res is Ok ==> before.has_message() && after == before.edited(is_trailer, change(n, v))
                &&& res matches Err(e) ==> e == OrionWasmError::InternalError && after == before
                &&& before.has_message() && (has_room(before.fields_or_none(is_trailer)) || change(n, v) is Remove)
                    ==> res is Ok
            },
        },
    }
}

/// A field that a plugin set is what it reads next, and the trailers are
/// untouched by a change to the header.
pub proof fn law_set_field_is_read_back(state: StateView, is_trailer: u32, name: Seq<char>, value: Seq<u8>)
    requires
        state.has_message(),
    ensures
        ({
            let after = state.edited(is_trailer, MutationView::Put(name, value));
            &&& after.fields(is_trailer) is Some
            &&& crate::headers::first_value(after.fields_or_none(is_trailer), name) == Some(value)
            &&& is_trailer == 0 ==> after.request_trailers == state.request_trailers && after.response_trailers
                == state.response_trailers
            &&& is_trailer != 0 ==> after.request == state.request && after.response == state.response
        }),
{
}

/// A plugin sleeps no longer than it asked for, and never past its deadline.
pub proof fn law_sleep_respects_deadline(deadline: u128, microseconds: u64, now: u128)
    ensures
        sleep_plan(Some(deadline), microseconds, now).0 <= microseconds * 1_000,
        now < deadline ==> now + sleep_plan(Some(deadline), microseconds, now).0 <= deadline,
        now >= deadline ==> sleep_plan(Some(deadline), microseconds, now).0 == 0,
{
}

/// The body that a plugin set is the one that it reads, and the message it
/// sees decides which: that of the response stays while it sees a request.
pub proof fn law_set_body_is_read_back(state: StateView, body: Seq<u8>)
    ensures
        state.with_body(body).body() == Some(body),
        state.request is Some ==> state.with_body(body).buffered_response_body == state.buffered_response_body,
        state.request is None ==> state.with_body(body).buffered_request_body == state.buffered_request_body,
        state.with_body(body).request == state.request && state.with_body(body).response == state.response,
{
}

/// The fields that a plugin replaced are the ones that it reads; those of the
/// other part of the message stay.
pub proof fn law_replaced_fields_are_read_back(state: StateView, is_trailer: u32, other: u32, fields: Fields)
    requires
        state.has_message(),
        (is_trailer == 0) != (other == 0),
    ensures
        state.with_fields(is_trailer, fields).fields(is_trailer) == Some(fields),
        state.with_fields(is_trailer, fields).fields(other) == state.fields(other),
        state.with_fields(is_trailer, fields).has_message(),
{
}

/// The time that is left is told in whole microseconds and never beyond the deadline.
pub proof fn law_remaining_time_is_told(deadline: u128, now: u128)
    requires
        deadline <= MAX_INSTANT,
        deadline - now <= 0xffff_ffff_ffff_ffff * 1_000,
    ensures
        now < deadline ==> remaining_micros(Some(deadline), now) * 1_000 <= deadline - now < (remaining_micros(
            Some(deadline),
            now,
        ) + 1) * 1_000,
        now >= deadline ==> remaining_micros(Some(deadline), now) == 0,
        remaining_micros(None, now) == 0,
{
}

/// A plugin sleeps as long as it asked for where its deadline allows, else
/// until the deadline, and is told that the time was up exactly then. Without
/// a deadline it sleeps as long as it asked for.
pub proof fn law_sleep_is_as_long_as_allowed(deadline: u128, microseconds: u64, now: u128)
    ensures
        sleep_plan(None, microseconds, now) == ((microseconds * 1_000) as u128, false),
        sleep_plan(Some(deadline), microseconds, now).1 <==> now >= deadline || now + microseconds * 1_000 > deadline,
        !sleep_plan(Some(deadline), microseconds, now).1 ==> sleep_plan(Some(deadline), microseconds, now).0
            == microseconds * 1_000,
        sleep_plan(Some(deadline), microseconds, now).1 && now < deadline ==> now + sleep_plan(
            Some(deadline),
            microseconds,
            now,
        ).0 == deadline,
{
}

/// A call may take exactly the time that is left to the deadline, and is not
/// made once that has passed.
pub proof fn law_call_ends_at_the_deadline(deadline: Option<u128>, now: u128)
    ensures
        timeout_at(deadline, now) is Err <==> deadline is Some && deadline->0 <= now,
        timeout_at(deadline, now) matches Ok(Some(left)) ==> deadline is Some && now + left == deadline->0 && left > 0,
        timeout_at(deadline, now) == Ok::<Option<u128>, OrionWasmError>(None) <==> deadline is None,
        timeout_at(deadline, now) matches Err(e) ==> e == OrionWasmError::Timeout,
{
}

} // verus!
