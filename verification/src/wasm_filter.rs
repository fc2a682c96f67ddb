//! The course of a message through a WebAssembly plugin.
//!
//! A plugin exports hooks. For each message the filter calls those that the
//! plugin has, in order, and decides by what they return. The caller runs the
//! plugin: it performs an action, and hands back what came of it.

use crate::headers::{valid_header_value, FieldName, FieldValue, Fields, Headers};
use crate::http_filters::{is_synthetic, EventFailure, FilterDecision, HttpResponse, HttpVersion, ResponseFlags};
use crate::text::{all_digits, append_decimal, append_signed, decimal, law_decimal_reads_back, signed_decimal, str_eq};
use vstd::prelude::*;
use vstd::utf8::{encode_utf8, is_ascii_chars, is_ascii_chars_encode_utf8};

verus! {

/// Why a plugin could not be run.
#[derive(Debug)]
pub enum WasmError {
    Wasmtime(String),
    UnsupportedDataSource(String),
    InitError(String),
}

impl WasmError {
    pub open spec fn spec_message(&self) -> Seq<char> {
        match self {
            WasmError::Wasmtime(reason) => "Wasmtime compilation or execution error: "@ + reason@,
            WasmError::UnsupportedDataSource(reason) => "Unsupported data source: "@ + reason@,
            WasmError::InitError(reason) => "Initialization error: "@ + reason@,
        }
    }

    /// The text shown to a client.
    pub fn message(&self) -> (text: String)
        ensures
            text@ == self.spec_message(),
    {
        match self {
            WasmError::Wasmtime(reason) => {
                let mut text = "Wasmtime compilation or execution error: ".to_owned();
                text.append(reason.as_str());
                text
            },
            WasmError::UnsupportedDataSource(reason) => {
                let mut text = "Unsupported data source: ".to_owned();
                text.append(reason.as_str());
                text
            },
            WasmError::InitError(reason) => {
                let mut text = "Initialization error: ".to_owned();
                text.append(reason.as_str());
                text
            },
        }
    }
}

/// What a hook asks for.
#[derive(Debug, Clone, Copy, PartialEq, Eq, Structural)]
pub enum FilterAction {
    Continue,
    PauseAndBufferBody,
    DirectResponse,
}

impl FilterAction {
    /// The action that a number stands for.
    pub open spec fn spec_from_code(code: i32) -> Option<FilterAction> {
        if code == 0 {
            Some(FilterAction::Continue)
        } else if code == 1 {
            Some(FilterAction::PauseAndBufferBody)
        } else if code == 2 {
            Some(FilterAction::DirectResponse)
        } else {
            None
        }
    }

    pub fn from_code(code: i32) -> (action: Option<FilterAction>)
        ensures
            action == Self::spec_from_code(code),
    {
        match code {
            0 => Some(FilterAction::Continue),
            1 => Some(FilterAction::PauseAndBufferBody),
            2 => Some(FilterAction::DirectResponse),
            _ => None,
        }
    }
}

/// The hooks that a plugin exports.
#[derive(Debug, Clone, Copy, PartialEq, Eq, Structural)]
pub struct HookFlags {
    pub on_request_headers: bool,
    pub on_request_body: bool,
    pub on_response_headers: bool,
    pub on_response_body: bool,
    pub on_plugin_start: bool,
    pub on_plugin_destroy: bool,
    pub on_transaction_start: bool,
    pub on_transaction_complete: bool,
}

/// Whether a name is among those exported.
pub open spec fn exports_hook(exports: Seq<String>, name: Seq<char>) -> bool {
    exists|i: int| 0 <= i < exports.len() && #[trigger] exports[i]@ == name
}

fn is_exported(exports: &Vec<String>, name: &str) -> (yes: bool)
    ensures
        yes == exports_hook(exports@, name@),
{
    let mut i: usize = 0;
    while i < exports.len()
        invariant
            i <= exports@.len(),
            forall|j: int| 0 <= j < i ==> #[trigger] exports@[j]@ != name@,
        decreases exports@.len() - i,
    {
        if str_eq(exports[i].as_str(), name) {
            return true;
        }
        i = i + 1;
    }
    false
}

impl HookFlags {
    /// The hooks among the names that a module exports.
    pub fn from_exports(exports: &Vec<String>) -> (flags: HookFlags)
        ensures
            flags.on_request_headers == exports_hook(exports@, "on_request_headers"@),
            flags.on_request_body == exports_hook(exports@, "on_request_body"@),
            flags.on_response_headers == exports_hook(exports@, "on_response_headers"@),
            flags.on_response_body == exports_hook(exports@, "on_response_body"@),
            flags.on_plugin_start == exports_hook(exports@, "on_plugin_start"@),
            flags.on_plugin_destroy == exports_hook(exports@, "on_plugin_destroy"@),
            flags.on_transaction_start == exports_hook(exports@, "on_transaction_start"@),
            flags.on_transaction_complete == exports_hook(exports@, "on_transaction_complete"@),
    {
        HookFlags {
            on_request_headers: is_exported(exports, "on_request_headers"),
            on_request_body: is_exported(exports, "on_request_body"),
            on_response_headers: is_exported(exports, "on_response_headers"),
            on_response_body: is_exported(exports, "on_response_body"),
            on_plugin_start: is_exported(exports, "on_plugin_start"),
            on_plugin_destroy: is_exported(exports, "on_plugin_destroy"),
            on_transaction_start: is_exported(exports, "on_transaction_start"),
            on_transaction_complete: is_exported(exports, "on_transaction_complete"),
        }
    }
}

/// The hooks that the source of a plugin can have. Each is exported from the
/// module under the name of the method that it is written as.
pub open spec fn hook_names() -> Seq<Seq<char>> {
    seq!["on_request_headers"@].push("on_request_body"@).push("on_response_headers"@).push("on_response_body"@)
}

/// The hooks among the first so many that some methods implement, in order.
pub open spec fn hooks_in(methods: Seq<String>, n: int) -> Seq<Seq<char>>
    decreases n,
{
    if n <= 0 {
        Seq::empty()
    } else if exports_hook(methods, hook_names()[n - 1]) {
        hooks_in(methods, n - 1).push(hook_names()[n - 1])
    } else {
        hooks_in(methods, n - 1)
    }
}

/// The names as they are read.
pub open spec fn names_view(names: Seq<String>) -> Seq<Seq<char>> {
    Seq::new(names.len(), |i: int| names[i]@)
}

fn export_if(exports: &mut Vec<String>, methods: &Vec<String>, hook: &str, Ghost(n): Ghost<int>)
    requires
        0 < n <= hook_names().len(),
        hook@ == hook_names()[n - 1],
        names_view(old(exports)@) == hooks_in(methods@, n - 1),
    ensures
        names_view(final(exports)@) == hooks_in(methods@, n),
{
    if is_exported(methods, hook) {
        exports.push(hook.to_owned());
        assert(names_view(exports@) =~= hooks_in(methods@, n - 1).push(hook@));
    }
}

/// The hooks that a plugin exports, given the methods that its source implements.
pub fn orion_plugin(methods: &Vec<String>) -> (exports: Vec<String>)
    ensures
        names_view(exports@) == hooks_in(methods@, hook_names().len() as int),
{
    let mut exports: Vec<String> = Vec::new();
    assert(names_view(exports@) =~= hooks_in(methods@, 0));
    export_if(&mut exports, methods, "on_request_headers", Ghost(1));
    export_if(&mut exports, methods, "on_request_body", Ghost(2));
    export_if(&mut exports, methods, "on_response_headers", Ghost(3));
    export_if(&mut exports, methods, "on_response_body", Ghost(4));
    exports
}

/// The filter finds a hook in a plugin exactly where the source of the plugin
/// implements it.
pub proof fn law_implemented_hooks_are_found(methods: Seq<String>, exports: Seq<String>, at: int)
    requires
        names_view(exports) == hooks_in(methods, hook_names().len() as int),
        0 <= at < hook_names().len(),
    ensures
        exports_hook(exports, hook_names()[at]) <==> exports_hook(methods, hook_names()[at]),
{
    let hook = hook_names()[at];
    let shown = names_view(exports);
    lemma_hooks_in(methods, hook_names().len() as int, at);
    if exports_hook(exports, hook) {
        let i = choose|i: int| 0 <= i < exports.len() && #[trigger] exports[i]@ == hook;
        assert(shown[i] == hook);
    }
    if shown.contains(hook) {
        let i = choose|i: int| 0 <= i < shown.len() && shown[i] == hook;
        assert(exports[i]@ == hook);
    }
}

proof fn lemma_hook_names_differ(i: int, j: int)
    requires
        0 <= i < j < hook_names().len(),
    ensures
        hook_names()[i] != hook_names()[j],
{
    reveal_strlit("on_request_headers");
    reveal_strlit("on_request_body");
    reveal_strlit("on_response_headers");
    reveal_strlit("on_response_body");
    assert("on_request_headers"@.len() == 18);
    assert("on_request_body"@.len() == 15);
    assert("on_response_headers"@.len() == 19);
    assert("on_response_body"@.len() == 16);
}

proof fn lemma_hooks_in(methods: Seq<String>, n: int, at: int)
    requires
        0 <= n <= hook_names().len(),
        0 <= at < hook_names().len(),
    ensures
        hooks_in(methods, n).contains(hook_names()[at]) <==> at < n && exports_hook(methods, hook_names()[at]),
    decreases n,
{
    if n > 0 {
        lemma_hooks_in(methods, n - 1, at);
        let front = hooks_in(methods, n - 1);
        let all = hooks_in(methods, n);
        let hook = hook_names()[at];
        if at < n - 1 {
            lemma_hook_names_differ(at, n - 1);
        } else if at > n - 1 {
            lemma_hook_names_differ(n - 1, at);
        }
        if front.contains(hook) {
            let i = choose|i: int| 0 <= i < front.len() && front[i] == hook;
            assert(all[i] == hook);
        }
        if all.contains(hook) && all != front {
            let i = choose|i: int| 0 <= i < all.len() && all[i] == hook;
            if i < front.len() {
                assert(front[i] == hook);
            }
        }
        if at == n - 1 && exports_hook(methods, hook) {
            assert(all[all.len() - 1] == hook);
        }
    }
}

/// Which way a message goes.
#[derive(Debug, Clone, Copy, PartialEq, Eq, Structural)]
pub enum Direction {
    Request,
    Response,
}

/// What the caller is asked to do.
#[derive(Debug)]
pub enum WasmAction {
    /// Call the hook for the start of a transaction.
    CallTransactionStart,
    /// Show the message to the plugin.
    Attach,
    /// Call the hook for the header.
    CallHeaders,
    /// Receive the whole body of the message.
    CollectBody,
    /// Call the hook for the body, with its length.
    CallBody(u32),
    /// Take the response that the plugin made.
    TakeDirectResponse,
    /// End with a decision; apply the plugin's operators for the access log
    /// before that, or do not.
    Finish { decision: FilterDecision, apply_log_operators: bool },
}

/// What came of calling a hook.
#[derive(Debug)]
pub enum HookOutcome {
    /// There is no instance to call.
    NoInstance(WasmError),
    /// The instance does not have the hook in the right form.
    Unresolved,
    Failed(String),
    Returned(i32),
}

/// The whole body of a message, with the trailers that followed it.
#[derive(Debug)]
pub struct MessageBody {
    pub bytes: Vec<u8>,
    pub trailers: Option<Headers>,
}

/// The whole body of a message as it is described.
pub ghost struct BodyView {
    pub bytes: Seq<u8>,
    pub trailers: Option<Fields>,
}

impl View for MessageBody {
    type V = BodyView;

    open spec fn view(&self) -> BodyView {
        BodyView {
            bytes: self.bytes@,
            trailers: match self.trailers {
                Some(t) => Some(t@),
                None => None,
            },
        }
    }
}

/// What a hook left of the body and the trailers that it was shown.
#[derive(Debug)]
pub struct LeftBody {
    pub bytes: Option<Vec<u8>>,
    pub trailers: Option<Headers>,
}

impl LeftBody {
    /// Whether anything is left.
    pub open spec fn is_any(self) -> bool {
        self.bytes is Some || self.trailers is Some
    }
}

/// What the caller hands back. What came of the hook for the body is handed
/// back on its own, with what the hook left of the body.
#[derive(Debug)]
pub enum WasmEvent {
    Hook(HookOutcome),
    Attached,
    /// The body, where it could be received.
    Collected(Option<MessageBody>),
    /// The response that the plugin made, where it made one.
    DirectTaken(Result<Option<HttpResponse>, WasmError>),
}

/// Where a message is in its course.
#[derive(Debug, Clone, Copy, PartialEq, Eq, Structural)]
pub enum Phase {
    TransactionStart,
    Attaching,
    Header,
    Collecting,
    Body,
    Direct,
    Done,
}

/// The course of one message.
#[derive(Debug)]
pub struct WasmRun {
    pub direction: Direction,
    pub flags: HookFlags,
    /// The version of the message as it is now. A hook can change it; whoever
    /// calls the hook keeps it up to date.
    pub version: HttpVersion,
    pub phase: Phase,
    /// What the message goes on with in place of the body that came, once that
    /// has been received.
    pub body: Option<MessageBody>,
}

impl WasmRun {
    /// Whether the body is there when the hook for it is called.
    pub open spec fn wf(self) -> bool {
        self.phase == Phase::Body ==> self.body is Some
    }

    /// Whether the plugin looks at the header of such a message.
    pub open spec fn sees_header(self) -> bool {
        match self.direction {
            Direction::Request => self.flags.on_request_headers,
            Direction::Response => self.flags.on_response_headers,
        }
    }

    /// Whether the plugin looks at the body of such a message.
    pub open spec fn sees_body(self) -> bool {
        match self.direction {
            Direction::Request => self.flags.on_request_body,
            Direction::Response => self.flags.on_response_body,
        }
    }

    /// Whether an event can come in this phase. The end of the hook for the
    /// body comes by itself.
    pub open spec fn expects(self, event: WasmEvent) -> bool {
        match self.phase {
            Phase::TransactionStart => event is Hook,
            Phase::Attaching => event is Attached,
            Phase::Header => event is Hook,
            Phase::Collecting => event is Collected,
            Phase::Body => false,
            Phase::Direct => event is DirectTaken,
            Phase::Done => false,
        }
    }
}

/// Whether an action ends the course with an error of the server.
pub open spec fn ends_in_error(action: WasmAction, text: Seq<char>, version: HttpVersion, log: bool) -> bool {
    &&& action matches WasmAction::Finish { decision, apply_log_operators }
    &&& apply_log_operators == log
    &&& decision matches FilterDecision::DirectResponse(response)
    &&& is_synthetic(response, 500, text, version, ResponseFlags::empty())
    &&& response.failure == Some(EventFailure::DirectResponse)
}

/// Whether an action lets the message go on.
pub open spec fn lets_pass(action: WasmAction, log: bool) -> bool {
    action matches WasmAction::Finish { decision, apply_log_operators } && decision is Continue
        && apply_log_operators == log
}

/// What is said of a number that stands for no action.
pub open spec fn bad_code_text(direction: Direction, of_body: bool, code: i32) -> Seq<char> {
    let prefix = match direction {
        Direction::Request => if of_body {
            "Invalid body action code: "@
        } else {
            "Invalid Wasm FilterAction code: "@
        },
        Direction::Response => if of_body {
            "Invalid response body action code: "@
        } else {
            "Invalid Wasm response FilterAction code: "@
        },
    };
    "Initialization error: "@ + (prefix + signed_decimal(code as int))
}

/// What is said of a body that could not be received.
pub open spec fn no_body_text(direction: Direction) -> Seq<char> {
    match direction {
        Direction::Request => "Failed to collect body"@,
        Direction::Response => "Failed to collect response body"@,
    }
}

/// What is said of a hook for the body that asks for the body again.
pub open spec fn again_text(direction: Direction) -> Seq<char> {
    match direction {
        Direction::Request => "Invalid body action code: PauseAndBufferBody"@,
        Direction::Response => "Invalid response body action code: PauseAndBufferBody"@,
    }
}

/// The length of a body as the hook is told it; zero where it cannot be told.
pub open spec fn told_length(len: nat) -> u32 {
    if len <= u32::MAX {
        len as u32
    } else {
        0
    }
}

/// Whether `action` and `after` begin the course of a message: at the start of
/// a transaction where a request has that hook, past it otherwise, and not at
/// all where the plugin looks at nothing.
pub open spec fn begins(run: WasmRun, after: Phase, action: WasmAction) -> bool {
    if run.direction == Direction::Request && run.flags.on_transaction_start {
        action is CallTransactionStart && after == Phase::TransactionStart
    } else {
        enters(run, after, action)
    }
}

/// Whether `action` and `after` show a message to a plugin that looks at it.
pub open spec fn enters(run: WasmRun, after: Phase, action: WasmAction) -> bool {
    if run.sees_header() || run.sees_body() {
        action is Attach && after == Phase::Attaching
    } else {
        lets_pass(action, false) && after == Phase::Done
    }
}

/// Whether `action` and `after` follow when the hook for the header asks for something.
pub open spec fn obeys_header(run: WasmRun, asked: FilterAction, after: Phase, action: WasmAction) -> bool {
    match asked {
        FilterAction::Continue => lets_pass(action, true) && after == Phase::Done,
        FilterAction::PauseAndBufferBody => action is CollectBody && after == Phase::Collecting,
        FilterAction::DirectResponse => action is TakeDirectResponse && after == Phase::Direct,
    }
}

/// Whether `action` and `after` follow when the hook for the body asks for something.
pub open spec fn obeys_body(run: WasmRun, asked: FilterAction, after: Phase, action: WasmAction) -> bool {
    match asked {
        FilterAction::Continue => lets_pass(action, true) && after == Phase::Done,
        FilterAction::PauseAndBufferBody => ends_in_error(action, again_text(run.direction), run.version, true)
            && after == Phase::Done,
        FilterAction::DirectResponse => action is TakeDirectResponse && after == Phase::Direct,
    }
}

/// Whether `action` and `after` follow from an event.
pub open spec fn follows(run: WasmRun, event: WasmEvent, after: Phase, action: WasmAction) -> bool {
    match (run.phase, event) {
        (Phase::TransactionStart, WasmEvent::Hook(HookOutcome::NoInstance(e))) => ends_in_error(
            action,
            e.spec_message(),
            run.version,
            false,
        ) && after == Phase::Done,
        (Phase::TransactionStart, WasmEvent::Hook(_)) => enters(run, after, action),
        (Phase::Attaching, WasmEvent::Attached) => if run.sees_header() {
            action is CallHeaders && after == Phase::Header
        } else {
            action is CollectBody && after == Phase::Collecting
        },
        (Phase::Header, WasmEvent::Hook(outcome)) => match outcome {
            HookOutcome::NoInstance(e) => ends_in_error(action, e.spec_message(), run.version, false) && after
                == Phase::Done,
            HookOutcome::Unresolved => obeys_header(run, FilterAction::Continue, after, action),
            HookOutcome::Failed(reason) => ends_in_error(
                action,
                "Wasmtime compilation or execution error: "@ + reason@,
                run.version,
                true,
            ) && after == Phase::Done,
            HookOutcome::Returned(code) => match FilterAction::spec_from_code(code) {
                Some(asked) => obeys_header(run, asked, after, action),
                None => ends_in_error(action, bad_code_text(run.direction, false, code), run.version, true)
                    && after == Phase::Done,
            },
        },
        (Phase::Collecting, WasmEvent::Collected(body)) => match body {
            None => ends_in_error(action, no_body_text(run.direction), run.version, false) && after == Phase::Done,
            Some(b) => if run.sees_body() {
                action == WasmAction::CallBody(told_length(b.bytes@.len())) && after == Phase::Body
            } else {
                lets_pass(action, true) && after == Phase::Done
            },
        },
        (Phase::Body, WasmEvent::Hook(outcome)) => match outcome {
            HookOutcome::NoInstance(e) => ends_in_error(action, e.spec_message(), run.version, false) && after
                == Phase::Done,
            HookOutcome::Unresolved => obeys_body(run, FilterAction::Continue, after, action),
            HookOutcome::Failed(reason) => ends_in_error(
                action,
                "Wasmtime compilation or execution error: "@ + reason@,
                run.version,
                true,
            ) && after == Phase::Done,
            HookOutcome::Returned(code) => match FilterAction::spec_from_code(code) {
                Some(asked) => obeys_body(run, asked, after, action),
                None => ends_in_error(action, bad_code_text(run.direction, true, code), run.version, true) && after
                    == Phase::Done,
            },
        },
        (Phase::Direct, WasmEvent::DirectTaken(taken)) => after == Phase::Done && match taken {
            Err(e) => ends_in_error(action, e.spec_message(), run.version, false),
            Ok(None) => ends_in_error(
                action,
                "DirectResponse without send_direct_response"@,
                run.version,
                true,
            ),
            Ok(Some(response)) => sends(run, response, action),
        },
        _ => false,
    }
}

/// The body that a message goes on with after an event: the one that was
/// received, once it has been.
pub open spec fn body_after(run: WasmRun, event: WasmEvent) -> Option<MessageBody> {
    match event {
        WasmEvent::Collected(Some(body)) => Some(body),
        _ => run.body,
    }
}

/// Whether a hook was run at all.
pub open spec fn was_run(outcome: HookOutcome) -> bool {
    outcome is Returned || outcome is Failed
}

/// The body that a message goes on with after its hook: what the hook left in
/// place of the bytes and the trailers, and the body as it was received where
/// it left neither.
pub open spec fn body_left(body: BodyView, left: LeftBody) -> BodyView {
    if left.is_any() {
        BodyView {
            bytes: match left.bytes {
                Some(bytes) => bytes@,
                None => body.bytes,
            },
            trailers: match left.trailers {
                Some(trailers) => Some(trailers@),
                None => None,
            },
        }
    } else {
        body
    }
}

/// Whether an action sends the response that a plugin made. In place of a
/// request it goes out in the version of the request; in place of a response
/// it keeps its own.
pub open spec fn sends(run: WasmRun, response: HttpResponse, action: WasmAction) -> bool {
    &&& action matches WasmAction::Finish { decision, apply_log_operators }
    &&& apply_log_operators
    &&& decision == FilterDecision::DirectResponse(
        HttpResponse {
            version: match run.direction {
                Direction::Request => run.version,
                Direction::Response => response.version,
            },
            ..response
        },
    )
}

fn fail(text: &str, version: HttpVersion, log: bool) -> (action: WasmAction)
    ensures
        ends_in_error(action, text@, version, log),
{
    WasmAction::Finish {
        decision: FilterDecision::internal_server_error(text, version),
        apply_log_operators: log,
    }
}

fn pass(log: bool) -> (action: WasmAction)
    ensures
        lets_pass(action, log),
{
    WasmAction::Finish { decision: FilterDecision::Continue, apply_log_operators: log }
}

impl WasmRun {
    fn header_hook(&self) -> (yes: bool)
        ensures
            yes == self.sees_header(),
    {
        match self.direction {
            Direction::Request => self.flags.on_request_headers,
            Direction::Response => self.flags.on_response_headers,
        }
    }

    fn body_hook(&self) -> (yes: bool)
        ensures
            yes == self.sees_body(),
    {
        match self.direction {
            Direction::Request => self.flags.on_request_body,
            Direction::Response => self.flags.on_response_body,
        }
    }

    fn enter(&mut self) -> (action: WasmAction)
        ensures
            enters(*old(self), final(self).phase, action),
            *final(self) == (WasmRun { phase: final(self).phase, ..*old(self) }),
    {
        if self.header_hook() || self.body_hook() {
            self.phase = Phase::Attaching;
            WasmAction::Attach
        } else {
            self.phase = Phase::Done;
            pass(false)
        }
    }

    /// Begins the course of a request.
    pub fn apply_request(flags: HookFlags, version: HttpVersion) -> (begun: (WasmRun, WasmAction))
        ensures
            begun.0.direction == Direction::Request,
            begun.0.flags == flags,
            begun.0.version == version,
            begun.0.body is None,
            begun.0.wf(),
            begins(begun.0, begun.0.phase, begun.1),
    {
        let mut run = WasmRun { direction: Direction::Request, flags, version, phase: Phase::TransactionStart, body: None };
        if flags.on_transaction_start {
            (run, WasmAction::CallTransactionStart)
        } else {
            let action = run.enter();
            (run, action)
        }
    }

    /// Begins the course of a response.
    pub fn apply_response(flags: HookFlags, version: HttpVersion) -> (begun: (WasmRun, WasmAction))
        ensures
            begun.0.direction == Direction::Response,
            begun.0.flags == flags,
            begun.0.version == version,
            begun.0.body is None,
            begun.0.wf(),
            begins(begun.0, begun.0.phase, begun.1),
    {
        let mut run = WasmRun { direction: Direction::Response, flags, version, phase: Phase::Attaching, body: None };
        let action = run.enter();
        (run, action)
    }

    fn bad_code(&self, of_body: bool, code: i32) -> (text: String)
        ensures
            text@ == bad_code_text(self.direction, of_body, code),
    {
        let prefix: &'static str = match self.direction {
            Direction::Request => {
                if of_body {
                    "Invalid body action code: "
                } else {
                    "Invalid Wasm FilterAction code: "
                }
            },
            Direction::Response => {
                if of_body {
                    "Invalid response body action code: "
                } else {
                    "Invalid Wasm response FilterAction code: "
                }
            },
        };
        let mut reason = prefix.to_owned();
        append_signed(&mut reason, code);
        WasmError::InitError(reason).message()
    }

    fn obey_header(&mut self, asked: FilterAction) -> (action: WasmAction)
        ensures
            obeys_header(*old(self), asked, final(self).phase, action),
            *final(self) == (WasmRun { phase: final(self).phase, ..*old(self) }),
    {
        match asked {
            FilterAction::Continue => {
                self.phase = Phase::Done;
                pass(true)
            },
            FilterAction::PauseAndBufferBody => {
                self.phase = Phase::Collecting;
                WasmAction::CollectBody
            },
            FilterAction::DirectResponse => {
                self.phase = Phase::Direct;
                WasmAction::TakeDirectResponse
            },
        }
    }

    fn obey_body(&mut self, asked: FilterAction) -> (action: WasmAction)
        ensures
            obeys_body(*old(self), asked, final(self).phase, action),
            *final(self) == (WasmRun { phase: final(self).phase, ..*old(self) }),
    {
        match asked {
            FilterAction::Continue => {
                self.phase = Phase::Done;
                pass(true)
            },
            FilterAction::PauseAndBufferBody => {
                self.phase = Phase::Done;
                let text: &'static str = match self.direction {
                    Direction::Request => "Invalid body action code: PauseAndBufferBody",
                    Direction::Response => "Invalid response body action code: PauseAndBufferBody",
                };
                fail(text, self.version, true)
            },
            FilterAction::DirectResponse => {
                self.phase = Phase::Direct;
                WasmAction::TakeDirectResponse
            },
        }
    }

    fn hook_done(&mut self, outcome: HookOutcome, of_body: bool) -> (action: WasmAction)
        requires
            old(self).phase == (if of_body {
                Phase::Body
            } else {
                Phase::Header
            }),
        ensures
            follows(*old(self), WasmEvent::Hook(outcome), final(self).phase, action),
            *final(self) == (WasmRun { phase: final(self).phase, ..*old(self) }),
    {
        match outcome {
            HookOutcome::NoInstance(e) => {
                self.phase = Phase::Done;
                fail(e.message().as_str(), self.version, false)
            },
            HookOutcome::Unresolved => {
                if of_body {
                    self.obey_body(FilterAction::Continue)
                } else {
                    self.obey_header(FilterAction::Continue)
                }
            },
            HookOutcome::Failed(reason) => {
                self.phase = Phase::Done;
                fail(WasmError::Wasmtime(reason).message().as_str(), self.version, true)
            },
            HookOutcome::Returned(code) => match FilterAction::from_code(code) {
                Some(asked) => {
                    if of_body {
                        self.obey_body(asked)
                    } else {
                        self.obey_header(asked)
                    }
                },
                None => {
                    self.phase = Phase::Done;
                    let text: String = self.bad_code(of_body, code);
                    fail(text.as_str(), self.version, true)
                },
            },
        }
    }

    /// Goes on with what came of the hook for the body, and with what it left
    /// of the body. Where it left anything, the message goes on with that, and
    /// its header is brought up to the new length.
    pub fn body_hook_done(&mut self, outcome: HookOutcome, left: LeftBody, headers: &mut Headers) -> (action: WasmAction)
        requires
            old(self).wf(),
            old(self).phase == Phase::Body,
        ensures
            final(self).wf(),
            follows(*old(self), WasmEvent::Hook(outcome), final(self).phase, action),
            *final(self) == (WasmRun { phase: final(self).phase, body: final(self).body, ..*old(self) }),
            final(self).body is Some,
            final(self).body->0@ == (if was_run(outcome) {
                body_left(old(self).body->0@, left)
            } else {
                old(self).body->0@
            }),
            if was_run(outcome) && left.is_any() {
                header_updated(old(headers)@, final(headers)@, final(self).body->0@.bytes.len())
            } else {
                final(headers)@ == old(headers)@
            },
    {
        let was_run: bool = match &outcome {
            HookOutcome::Returned(_) => true,
            HookOutcome::Failed(_) => true,
            _ => false,
        };
        let action: WasmAction = self.hook_done(outcome, true);
        if was_run {
            let mut body: Option<MessageBody> = None;
            std::mem::swap(&mut body, &mut self.body);
            match body {
                Some(received) => {
                    self.body = Some(after_body_hook(headers, received, left));
                },
                None => {},
            }
        }
        action
    }

    /// Goes on with what came of the last action.
    pub fn step(&mut self, event: WasmEvent) -> (action: WasmAction)
        requires
            old(self).wf(),
            old(self).expects(event),
        ensures
            final(self).wf(),
            follows(*old(self), event, final(self).phase, action),
            *final(self) == (WasmRun {
                phase: final(self).phase,
                body: body_after(*old(self), event),
                ..*old(self)
            }),
    {
        match event {
            WasmEvent::Hook(outcome) => match self.phase {
                Phase::TransactionStart => {
                    if let HookOutcome::NoInstance(e) = outcome {
                        self.phase = Phase::Done;
                        return fail(e.message().as_str(), self.version, false);
                    }
                    self.enter()
                },
                _ => self.hook_done(outcome, false),
            },
            WasmEvent::Attached => {
                if self.header_hook() {
                    self.phase = Phase::Header;
                    WasmAction::CallHeaders
                } else {
                    self.phase = Phase::Collecting;
                    WasmAction::CollectBody
                }
            },
            WasmEvent::Collected(body) => match body {
                None => {
                    self.phase = Phase::Done;
                    let text: &'static str = match self.direction {
                        Direction::Request => "Failed to collect body",
                        Direction::Response => "Failed to collect response body",
                    };
                    fail(text, self.version, false)
                },
                Some(body) => {
                    let len: usize = body.bytes.len();
                    self.body = Some(body);
                    if self.body_hook() {
                        self.phase = Phase::Body;
                        let told: u32 = if len as u64 <= u32::MAX as u64 {
                            len as u32
                        } else {
                            0
                        };
                        WasmAction::CallBody(told)
                    } else {
                        self.phase = Phase::Done;
                        pass(true)
                    }
                },
            },
            WasmEvent::DirectTaken(taken) => {
                self.phase = Phase::Done;
                match taken {
                    Err(e) => fail(e.message().as_str(), self.version, false),
                    Ok(None) => fail("DirectResponse without send_direct_response", self.version, true),
                    Ok(Some(response)) => {
                        let version: HttpVersion = match self.direction {
                            Direction::Request => self.version,
                            Direction::Response => response.version,
                        };
                        WasmAction::Finish {
                            decision: FilterDecision::DirectResponse(
                                HttpResponse {
                                    status: response.status,
                                    version,
                                    headers: response.headers,
                                    body: response.body,
                                    failure: response.failure,
                                    flags: response.flags,
                                },
                            ),
                            apply_log_operators: true,
                        }
                    },
                }
            },
        }
    }
}

/// The fields of a message whose body has a new length: one that states a
/// length states the new one.
pub open spec fn with_length(fields: Fields, len: nat) -> Fields {
    if fields.contains_key("content-length"@) {
        fields.insert("content-length"@, seq![encode_utf8(decimal(len))])
    } else {
        fields
    }
}

/// Digits can be the value of a header field.
proof fn lemma_digits_are_value(text: Seq<char>)
    requires
        all_digits(text),
    ensures
        valid_header_value(encode_utf8(text)),
{
    assert(is_ascii_chars(text)) by {
        assert forall|i: int| 0 <= i < text.len() implies '\0' <= #[trigger] text[i] <= '\u{7f}' by {
            assert('0' as int <= text[i] as int <= '9' as int);
        }
    }
    is_ascii_chars_encode_utf8(text);
    let bytes = encode_utf8(text);
    assert forall|i: int| 0 <= i < bytes.len() implies (#[trigger] bytes[i] >= 32 && bytes[i] != 127 || bytes[i]
        == 9) by {
        assert(bytes[i] == text[i] as u8);
        assert('0' as int <= text[i] as int <= '9' as int);
    }
}

/// Whether a header was brought up to the length of a body. A map that is
/// nearly full may refuse that; it then stays as it was.
pub open spec fn header_updated(before: Fields, after: Fields, len: nat) -> bool {
    &&& crate::headers::has_room(before) ==> after == with_length(before, len)
    &&& after == with_length(before, len) || after == before
}

/// Takes over what a hook left of the body and the trailers, with the header
/// brought up to the new length. Where it left neither, the body stays.
pub fn after_body_hook(headers: &mut Headers, received: MessageBody, left: LeftBody) -> (body: MessageBody)
    ensures
        body@ == body_left(received@, left),
        if left.is_any() {
            header_updated(old(headers)@, final(headers)@, body@.bytes.len())
        } else {
            final(headers)@ == old(headers)@
        },
{
    if left.bytes.is_none() && left.trailers.is_none() {
        return received;
    }
    let bytes: Vec<u8> = match left.bytes {
        Some(bytes) => bytes,
        None => received.bytes,
    };
    let name: FieldName = FieldName::content_length();
    if headers.contains_key(&name) {
        let mut text = String::new();
        append_decimal(&mut text, bytes.len() as u64);
        proof {
            assert(text@ =~= decimal(bytes@.len()));
            law_decimal_reads_back(bytes@.len());
            lemma_digits_are_value(text@);
        }
        if let Some(value) = FieldValue::from_bytes(text.as_str().as_bytes_vec()) {
            let _ = headers.insert(&name, &value);
        }
    }
    MessageBody { bytes, trailers: left.trailers }
}

/// What the queue of idle instances holds, from the first to the last. An
/// instance goes by its number.
pub uninterp spec fn pool_contents(queue: crossbeam_queue::ArrayQueue<u64>) -> Seq<u64>;

/// How many instances the queue takes.
pub uninterp spec fn pool_capacity(queue: crossbeam_queue::ArrayQueue<u64>) -> nat;

/// The bounded queue that holds the idle instances.
#[verifier::external_type_specification]
#[verifier::external_body]
#[verifier::reject_recursive_types(T)]
pub struct ExArrayQueue<T>(crossbeam_queue::ArrayQueue<T>);

/// `crossbeam_queue::ArrayQueue::new`: an empty queue for so many items, of
/// which there must be at least one.
#[verifier::external_body]
fn pool_new(capacity: usize) -> (queue: crossbeam_queue::ArrayQueue<u64>)
    requires
        capacity > 0,
    ensures
        pool_contents(queue) == Seq::<u64>::empty(),
        pool_capacity(queue) == capacity,
{
    crossbeam_queue::ArrayQueue::new(capacity)
}

/// `crossbeam_queue::ArrayQueue::pop`: takes the first item. The queue is
/// borrowed mutably, so no other thread reaches it meanwhile.
#[verifier::external_body]
fn pool_pop(queue: &mut crossbeam_queue::ArrayQueue<u64>) -> (item: Option<u64>)
    ensures
        pool_capacity(*final(queue)) == pool_capacity(*old(queue)),
        pool_contents(*old(queue)).len() == 0 ==> item is None && pool_contents(*final(queue)) == pool_contents(
            *old(queue),
        ),
        pool_contents(*old(queue)).len() > 0 ==> item == Some(pool_contents(*old(queue))[0]) && pool_contents(
            *final(queue),
        ) == pool_contents(*old(queue)).drop_first(),
{
    queue.pop()
}

/// `crossbeam_queue::ArrayQueue::push`: adds an item behind the others, unless
/// the queue is full. The queue is borrowed mutably, so no other thread
/// reaches it meanwhile.
#[verifier::external_body]
fn pool_push(queue: &mut crossbeam_queue::ArrayQueue<u64>, item: u64) -> (taken: bool)
    ensures
        pool_capacity(*final(queue)) == pool_capacity(*old(queue)),
        taken == (pool_contents(*old(queue)).len() < pool_capacity(*old(queue))),
        taken ==> pool_contents(*final(queue)) == pool_contents(*old(queue)).push(item),
        !taken ==> pool_contents(*final(queue)) == pool_contents(*old(queue)),
{
    queue.push(item).is_ok()
}

/// How many idle instances of a plugin are kept.
pub const WASM_INSTANCE_POOL_SIZE: usize = 1024;

/// How many shared variables of each kind a plugin has.
pub const WASM_SHARED_MEMORY_VARIABLES: usize = 1024;

/// The idle instances of a plugin.
#[derive(Debug)]
pub struct InstancePool {
    queue: crossbeam_queue::ArrayQueue<u64>,
}

impl View for InstancePool {
    type V = Seq<u64>;

    closed spec fn view(&self) -> Seq<u64> {
        pool_contents(self.queue)
    }
}

impl InstancePool {
    /// Whether the pool takes as many instances as it should.
    pub closed spec fn wf(&self) -> bool {
        pool_capacity(self.queue) == WASM_INSTANCE_POOL_SIZE
    }

    pub fn new() -> (pool: InstancePool)
        ensures
            pool.wf(),
            pool@ == Seq::<u64>::empty(),
    {
        InstancePool { queue: pool_new(WASM_INSTANCE_POOL_SIZE) }
    }

    /// Takes the instance that has been idle the longest. `None` when a new one has to be made.
    pub fn take(&mut self) -> (instance: Option<u64>)
        requires
            old(self).wf(),
        ensures
            final(self).wf(),
            old(self)@.len() == 0 ==> instance is None && final(self)@ == old(self)@,
            old(self)@.len() > 0 ==> instance == Some(old(self)@[0]) && final(self)@ == old(self)@.drop_first(),
    {
        pool_pop(&mut self.queue)
    }

    /// Keeps an instance that is done with its message. The result tells
    /// whether there was room; one that is not kept is discarded.
    pub fn give_back(&mut self, instance: u64) -> (kept: bool)
        requires
            old(self).wf(),
        ensures
            final(self).wf(),
            kept == (old(self)@.len() < WASM_INSTANCE_POOL_SIZE),
            kept ==> final(self)@ == old(self)@.push(instance),
            !kept ==> final(self)@ == old(self)@,
    {
        pool_push(&mut self.queue, instance)
    }
}

/// A plugin that looks at neither the header nor the body of a message is
/// never shown it.
pub proof fn law_blind_plugin_sees_nothing(run: WasmRun, after: Phase, action: WasmAction)
    requires
        !run.sees_header(),
        !run.sees_body(),
        enters(run, after, action),
    ensures
        lets_pass(action, false),
        after == Phase::Done,
{
}

/// How far a course is from its end at most.
pub open spec fn steps_left(phase: Phase) -> nat {
    match phase {
        Phase::TransactionStart => 6,
        Phase::Attaching => 5,
        Phase::Header => 4,
        Phase::Collecting => 3,
        Phase::Body => 2,
        Phase::Direct => 1,
        Phase::Done => 0,
    }
}

/// Every event brings the course of a message nearer to its end, and the
/// course ends exactly with a decision.
pub proof fn law_course_ends(run: WasmRun, event: WasmEvent, after: Phase, action: WasmAction)
    requires
        follows(run, event, after, action),
    ensures
        steps_left(after) < steps_left(run.phase),
        after == Phase::Done <==> action is Finish,
{
}

/// A body that was received for a plugin without the hook for it goes on as it
/// is, with its trailers, and the message passes.
pub proof fn law_unseen_body_goes_on(run: WasmRun, body: MessageBody, after: Phase, action: WasmAction)
    requires
        run.phase == Phase::Collecting,
        !run.sees_body(),
        follows(run, WasmEvent::Collected(Some(body)), after, action),
    ensures
        lets_pass(action, true),
        body_after(run, WasmEvent::Collected(Some(body))) == Some(body),
{
}

/// A plugin without the hook for the body is never called for it.
pub proof fn law_no_body_hook_no_call(run: WasmRun, event: WasmEvent, after: Phase, action: WasmAction)
    requires
        !run.sees_body(),
        follows(run, event, after, action),
    ensures
        !(action is CallBody),
{
}

/// The number that a hook returns is obeyed: 0 lets the message pass, 1 waits
/// for its body, 2 answers with the response of the plugin, and any other
/// number is an error of the server. Once the body is there it cannot be
/// waited for again.
pub proof fn law_returned_number_is_obeyed(run: WasmRun, code: i32, after: Phase, action: WasmAction)
    requires
        run.phase == Phase::Header || run.phase == Phase::Body,
        follows(run, WasmEvent::Hook(HookOutcome::Returned(code)), after, action),
    ensures
        code == 0 <==> action is Finish && action->decision is Continue,
        code == 1 && run.phase == Phase::Header <==> action is CollectBody,
        code == 2 <==> action is TakeDirectResponse,
        !(0 <= code <= 2) || code == 1 && run.phase == Phase::Body ==> {
            &&& action is Finish
            &&& action->decision matches FilterDecision::DirectResponse(response)
            &&& response.status == 500
            &&& response.version == run.version
        },
{
}

/// A hook that fails is an error of the server, and one that is missing lets
/// the message pass.
pub proof fn law_failed_hook_is_an_error(run: WasmRun, outcome: HookOutcome, after: Phase, action: WasmAction)
    requires
        run.phase == Phase::Header || run.phase == Phase::Body,
        follows(run, WasmEvent::Hook(outcome), after, action),
    ensures
        outcome is Unresolved ==> action is Finish && action->decision is Continue,
        outcome is Failed || outcome is NoInstance ==> {
            &&& action is Finish
            &&& action->decision matches FilterDecision::DirectResponse(response)
            &&& response.status == 500
        },
{
}

/// A hook is called only where the plugin has it: for the header or for the
/// body, of the request or of the response. The hook for the body is told how
/// long the body is, as far as the number can hold it.
pub proof fn law_hooks_are_called_where_they_are(run: WasmRun, event: WasmEvent, after: Phase, action: WasmAction)
    requires
        follows(run, event, after, action),
    ensures
        action is CallHeaders && run.direction == Direction::Request ==> run.flags.on_request_headers,
        action is CallHeaders && run.direction == Direction::Response ==> run.flags.on_response_headers,
        action matches WasmAction::CallBody(len) ==> {
            &&& event matches WasmEvent::Collected(Some(body))
            &&& body.bytes@.len() <= u32::MAX ==> len == body.bytes@.len()
            &&& run.direction == Direction::Request ==> run.flags.on_request_body
            &&& run.direction == Direction::Response ==> run.flags.on_response_body
        },
        event is Attached && run.direction == Direction::Request && run.flags.on_request_headers ==> action
            is CallHeaders,
        event is Attached && run.direction == Direction::Response && run.flags.on_response_headers ==> action
            is CallHeaders,
{
}

/// The response of a plugin goes out as the plugin made it, in the version of
/// the request where it answers that.
pub proof fn law_direct_response_goes_out(run: WasmRun, response: HttpResponse, after: Phase, action: WasmAction)
    requires
        run.phase == Phase::Direct,
        follows(run, WasmEvent::DirectTaken(Ok(Some(response))), after, action),
    ensures
        action is Finish,
        action->decision matches FilterDecision::DirectResponse(sent) && {
            &&& sent.status == response.status
            &&& sent.headers == response.headers
            &&& sent.body == response.body
            &&& run.direction == Direction::Request ==> sent.version == run.version
            &&& run.direction == Direction::Response ==> sent.version == response.version
        },
{
}

/// A message goes on with the body that the plugin left, or with the one that
/// came where the plugin left none; the same holds of its trailers, which are
/// dropped with a new body that has none.
pub proof fn law_body_is_what_was_left(body: BodyView, left: LeftBody)
    ensures
        left.bytes matches Some(bytes) ==> body_left(body, left).bytes == bytes@,
        left.bytes is None ==> body_left(body, left).bytes == body.bytes,
        left.trailers matches Some(trailers) ==> body_left(body, left).trailers == Some(trailers@),
        left.bytes is None && left.trailers is None ==> body_left(body, left).trailers == body.trailers,
        left.bytes is Some && left.trailers is None ==> body_left(body, left).trailers is None,
{
}

/// A stated length is brought in line with the body: its digits read as the
/// length. A message that states none is left without, and all other fields stay.
pub proof fn law_stated_length_is_true(fields: Fields, len: nat, other: Seq<char>)
    requires
        other != "content-length"@,
    ensures
        fields.contains_key("content-length"@) ==> with_length(fields, len)["content-length"@] == seq![
            encode_utf8(decimal(len)),
        ],
        !fields.contains_key("content-length"@) ==> with_length(fields, len) == fields,
        with_length(fields, len).contains_key(other) == fields.contains_key(other),
        fields.contains_key(other) ==> with_length(fields, len)[other] == fields[other],
{
}

} // verus!
