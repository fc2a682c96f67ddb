//! The life of the instances of a WebAssembly plugin.
//!
//! Each message that a plugin is to see takes an instance of it: an idle one,
//! or a new one. When the message is done the instance goes back to the idle
//! ones, if there is room. The caller loads the module and runs the hooks; an
//! instance goes by its number.

use crate::hostcalls::WasmState;
use crate::wasm_filter::{exports_hook, HookFlags, InstancePool, WasmError, WASM_INSTANCE_POOL_SIZE};
use vstd::prelude::*;

verus! {

/// Where the code of a plugin comes from.
#[derive(Debug)]
pub enum DataSource {
    Path(String),
    InlineBytes(Vec<u8>),
    InlineString(String),
    EnvironmentVariable(String),
}

/// The configuration of a plugin.
#[derive(Debug)]
pub struct WasmConfig {
    pub name: String,
    pub code: DataSource,
    /// What the plugin itself is configured with.
    pub configuration: Option<String>,
}

/// The code that is to be compiled.
#[derive(Debug)]
pub enum ModuleCode<'a> {
    /// A file that holds a module.
    File(&'a str),
    /// A module in its binary form.
    Binary(&'a Vec<u8>),
    /// A module in either form.
    Text(&'a str),
}

/// Why a module could not be loaded.
#[derive(Debug)]
pub enum LoadFault {
    /// It could not be compiled.
    Compile(String),
    /// The calls that it may make could not be offered.
    Hostcalls(String),
    /// It asks for something that is not offered.
    Link(String),
}

/// The error for a module that could not be loaded.
pub open spec fn is_load_error(error: WasmError, fault: LoadFault) -> bool {
    match fault {
        LoadFault::Compile(reason) => error == WasmError::Wasmtime(reason),
        LoadFault::Hostcalls(reason) => error matches WasmError::InitError(text) && text@
            == "failed to register hostcalls: "@ + reason@,
        LoadFault::Link(reason) => error == WasmError::Wasmtime(reason),
    }
}

/// Whether an error says that code is not taken from the environment.
pub open spec fn refuses_environment(error: WasmError, variable: Seq<char>) -> bool {
    error matches WasmError::UnsupportedDataSource(text) && text@ == "EnvVar: "@ + variable
}

impl DataSource {
    /// The code that is to be compiled. None is taken from the environment.
    pub fn module_code(&self) -> (res: Result<ModuleCode<'_>, WasmError>)
        ensures
            match *self {
                DataSource::Path(path) => res matches Ok(ModuleCode::File(text)) && text@ == path@,
                DataSource::InlineBytes(bytes) => res == Ok::<ModuleCode<'_>, WasmError>(ModuleCode::Binary(&bytes)),
                DataSource::InlineString(wat) => res matches Ok(ModuleCode::Text(text)) && text@ == wat@,
                DataSource::EnvironmentVariable(variable) => res matches Err(e) && refuses_environment(e, variable@),
            },
    {
        match self {
            DataSource::Path(path) => Ok(ModuleCode::File(path.as_str())),
            DataSource::InlineBytes(bytes) => Ok(ModuleCode::Binary(bytes)),
            DataSource::InlineString(wat) => Ok(ModuleCode::Text(wat.as_str())),
            DataSource::EnvironmentVariable(variable) => {
                let mut text = "EnvVar: ".to_owned();
                text.append(variable.as_str());
                Err(WasmError::UnsupportedDataSource(text))
            },
        }
    }
}

/// What the filters of one plugin share.
#[derive(Debug)]
pub struct WasmFilterInner {
    pub config: WasmConfig,
    pub instance_pool: InstancePool,
    pub hooks: HookFlags,
}

/// The filter that shows one message to a plugin.
#[derive(Debug)]
pub struct WasmFilter {
    /// The instance that sees the message.
    pub instance: Option<u64>,
}

/// What is done to have an instance.
#[derive(Debug)]
pub enum StateNeed {
    /// There is one.
    Ready(u64),
    /// One is to be made, with this state.
    Instantiate(WasmState),
}

/// A new instance.
#[derive(Debug, Clone, Copy, PartialEq, Eq, Structural)]
pub struct NewInstance {
    pub instance: u64,
    /// Whether the hook for a new instance is to be called.
    pub run_start: bool,
}

/// An instance that is done with its message.
#[derive(Debug, Clone, Copy, PartialEq, Eq, Structural)]
pub struct DoneInstance {
    pub instance: u64,
    /// Whether the hook for the end of the message is to be called.
    pub run_complete: bool,
    /// Whether the instance stays, for another message.
    pub kept: bool,
    /// Whether the hook for the end of the instance is to be called.
    pub run_destroy: bool,
}

/// The instance that a filter has after it asked for one, and the idle ones.
pub open spec fn after_request(held: Option<u64>, idle: Seq<u64>) -> (Option<u64>, Seq<u64>) {
    if held is Some || idle.len() == 0 {
        (held, idle)
    } else {
        (Some(idle[0]), idle.drop_first())
    }
}

/// The idle instances after a filter is done.
pub open spec fn after_release(held: Option<u64>, idle: Seq<u64>) -> Seq<u64> {
    if held is Some && idle.len() < WASM_INSTANCE_POOL_SIZE {
        idle.push(held->0)
    } else {
        idle
    }
}

impl WasmFilter {
    /// The filter for a plugin, and what further filters for it share, once
    /// the module is loaded and the names that it exports are known.
    pub fn try_new(config: WasmConfig, loaded: Result<Vec<String>, LoadFault>) -> (res: Result<
        (WasmFilterInner, WasmFilter),
        WasmError,
    >)
        ensures
            match res {
                Ok((inner, filter)) => {
                    &&& config.code !is EnvironmentVariable
                    &&& loaded is Ok
                    &&& inner.config == config
                    &&& inner.instance_pool.wf()
                    &&& inner.instance_pool@ == Seq::<u64>::empty()
                    &&& inner.hooks.on_plugin_start == exports_hook(loaded->Ok_0@, "on_plugin_start"@)
                    &&& inner.hooks.on_plugin_destroy == exports_hook(loaded->Ok_0@, "on_plugin_destroy"@)
                    &&& inner.hooks.on_transaction_start == exports_hook(loaded->Ok_0@, "on_transaction_start"@)
                    &&& inner.hooks.on_transaction_complete == exports_hook(
                        loaded->Ok_0@,
                        "on_transaction_complete"@,
                    )
                    &&& inner.hooks.on_request_headers == exports_hook(loaded->Ok_0@, "on_request_headers"@)
                    &&& inner.hooks.on_request_body == exports_hook(loaded->Ok_0@, "on_request_body"@)
                    &&& inner.hooks.on_response_headers == exports_hook(loaded->Ok_0@, "on_response_headers"@)
                    &&& inner.hooks.on_response_body == exports_hook(loaded->Ok_0@, "on_response_body"@)
                    &&& filter.instance is None
                },
                Err(e) => match config.code {
                    DataSource::EnvironmentVariable(variable) => refuses_environment(e, variable@),
                    _ => loaded matches Err(fault) && is_load_error(e, fault),
                },
            },
    {
        if let Err(e) = config.code.module_code() {
            return Err(e);
        }
        match loaded {
            Err(LoadFault::Compile(reason)) => Err(WasmError::Wasmtime(reason)),
            Err(LoadFault::Link(reason)) => Err(WasmError::Wasmtime(reason)),
            Err(LoadFault::Hostcalls(reason)) => {
                let mut text = "failed to register hostcalls: ".to_owned();
                text.append(reason.as_str());
                Err(WasmError::InitError(text))
            },
            Ok(exports) => {
                let hooks = HookFlags::from_exports(&exports);
                let inner = WasmFilterInner { config, instance_pool: InstancePool::new(), hooks };
                Ok((inner, WasmFilter { instance: None }))
            },
        }
    }

    /// A filter for another message.
    pub fn new_from(&self) -> (filter: WasmFilter)
        ensures
            filter.instance is None,
    {
        WasmFilter { instance: None }
    }

    /// Sees to it that the filter has an instance: the one it has, or else
    /// the one that has been idle the longest. Where there is neither, one
    /// is to be made and handed over with `instantiated`.
    pub fn get_state(&mut self, inner: &mut WasmFilterInner) -> (need: StateNeed)
        requires
            old(inner).instance_pool.wf(),
        ensures
            final(inner).instance_pool.wf(),
            final(inner).config == old(inner).config,
            final(inner).hooks == old(inner).hooks,
            (final(self).instance, final(inner).instance_pool@) == after_request(
                old(self).instance,
                old(inner).instance_pool@,
            ),
            match need {
                StateNeed::Ready(instance) => final(self).instance == Some(instance),
                StateNeed::Instantiate(state) => {
                    &&& final(self).instance is None
                    &&& state@.plugin_config == old(inner).config.configuration
                    &&& state@.direct_response is None
                    &&& state@.buffered_request_body is None
                    &&& state@.buffered_response_body is None
                    &&& state@.request_trailers is None
                    &&& state@.response_trailers is None
                    &&& state@.access_log_operators.len() == 0
                    &&& state@.io_deadline is None
                    &&& state@.request is None
                    &&& state@.response is None
                },
            },
    {
        if let Some(instance) = self.instance {
            return StateNeed::Ready(instance);
        }
        match inner.instance_pool.take() {
            Some(instance) => {
                self.instance = Some(instance);
                StateNeed::Ready(instance)
            },
            None => {
                let configuration = match &inner.config.configuration {
                    Some(text) => Some(text.clone()),
                    None => None,
                };
                StateNeed::Instantiate(WasmState::new(configuration))
            },
        }
    }

    /// Takes over a new instance, or says why there is none.
    pub fn instantiated(&mut self, inner: &WasmFilterInner, made: Result<u64, String>) -> (res: Result<
        NewInstance,
        WasmError,
    >)
        ensures
            match made {
                Ok(instance) => {
                    &&& res == Ok::<NewInstance, WasmError>(
                        (NewInstance { instance, run_start: inner.hooks.on_plugin_start }),
                    )
                    &&& final(self).instance == Some(instance)
                },
                Err(reason) => {
                    &&& (res matches Err(WasmError::InitError(text)) && text@ == "failed to instantiate module: "@
                        + reason@)
                    &&& final(self).instance == old(self).instance
                },
            },
    {
        match made {
            Ok(instance) => {
                self.instance = Some(instance);
                Ok(NewInstance { instance, run_start: inner.hooks.on_plugin_start })
            },
            Err(reason) => {
                let mut text = "failed to instantiate module: ".to_owned();
                text.append(reason.as_str());
                Err(WasmError::InitError(text))
            },
        }
    }

    /// Gives up the instance, when the message is done. It is kept for
    /// another message if there is room.
    pub fn release(&mut self, inner: &mut WasmFilterInner) -> (done: Option<DoneInstance>)
        requires
            old(inner).instance_pool.wf(),
        ensures
            final(inner).instance_pool.wf(),
            final(inner).config == old(inner).config,
            final(inner).hooks == old(inner).hooks,
            final(self).instance is None,
            final(inner).instance_pool@ == after_release(old(self).instance, old(inner).instance_pool@),
            match old(self).instance {
                None => done is None,
                Some(instance) => {
                    let kept = old(inner).instance_pool@.len() < WASM_INSTANCE_POOL_SIZE;
                    done == Some(
                        DoneInstance {
                            instance,
                            run_complete: old(inner).hooks.on_transaction_complete,
                            kept,
                            run_destroy: !kept && old(inner).hooks.on_plugin_destroy,
                        },
                    )
                },
            },
    {
        match self.instance {
            None => None,
            Some(instance) => {
                self.instance = None;
                let kept = inner.instance_pool.give_back(instance);
                Some(
                    DoneInstance {
                        instance,
                        run_complete: inner.hooks.on_transaction_complete,
                        kept,
                        run_destroy: !kept && inner.hooks.on_plugin_destroy,
                    },
                )
            },
        }
    }
}

/// An instance that was given up when none was idle is the next to be used.
pub proof fn law_idle_instance_is_used_again(instance: u64)
    ensures
        after_request(None, after_release(Some(instance), Seq::empty())) == (Some(instance), Seq::<u64>::empty()),
{
    assert(Seq::<u64>::empty().push(instance).drop_first() =~= Seq::empty());
}

/// No more instances are kept idle than there is room for, and asking for one
/// never adds to them.
pub proof fn law_idle_instances_are_bounded(held: Option<u64>, idle: Seq<u64>)
    requires
        idle.len() <= WASM_INSTANCE_POOL_SIZE,
    ensures
        after_release(held, idle).len() <= WASM_INSTANCE_POOL_SIZE,
        after_request(held, idle).1.len() <= idle.len(),
{
}

/// Of the idle instances the one that has waited longest is taken, one that is
/// held is kept, and no instance is lost or made on the way.
pub proof fn law_longest_idle_is_taken(held: Option<u64>, idle: Seq<u64>)
    ensures
        held is Some ==> after_request(held, idle) == (held, idle),
        held is None && idle.len() > 0 ==> {
            &&& after_request(held, idle).0 == Some(idle[0])
            &&& seq![idle[0]] + after_request(held, idle).1 == idle
        },
        held is None && idle.len() == 0 ==> after_request(held, idle).0 is None,
{
    if idle.len() > 0 {
        assert(seq![idle[0]] + idle.drop_first() =~= idle);
    }
}

/// An instance that is given back waits behind the others, where there is room for it.
pub proof fn law_released_instance_waits_last(instance: u64, idle: Seq<u64>)
    ensures
        idle.len() < WASM_INSTANCE_POOL_SIZE ==> {
            &&& after_release(Some(instance), idle).last() == instance
            &&& after_release(Some(instance), idle).drop_last() == idle
        },
        idle.len() >= WASM_INSTANCE_POOL_SIZE ==> after_release(Some(instance), idle) == idle,
        after_release(None, idle) == idle,
{
    assert(idle.push(instance).drop_last() =~= idle);
}

} // verus!
