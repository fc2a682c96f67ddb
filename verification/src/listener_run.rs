//! A listener from its start to its end, and its place among the listeners
//! that take connections from inside the process.

use crate::internal_registry::{Channels, InternalRegistry};
use crate::listener::{event_handled, keys_fit, Listener, ListenerAction, ListenerBinding, ListenerEvent};
use crate::local_rate_limiter::ready;
use crate::metrics::GlobalMetrics;
use crate::token_bucket::MAX_INSTANT;
use vstd::prelude::*;

verus! {

/// Why an event ends a listener, where it does: no more connections come from
/// inside the process, or no more changes of routes or secrets.
pub open spec fn stop_reason(event: ListenerEvent) -> Option<Seq<char>> {
    match event {
        ListenerEvent::InternalConnection(None) => Some("Internal listener channel closed"@),
        ListenerEvent::RouteUpdate(Err(why)) => Some(why@),
        ListenerEvent::SecretUpdate(Err(why)) => Some(why@),
        _ => None,
    }
}

/// The registered channels once a listener has started, and why it is at its
/// end already, where it is. `bound` is what came of binding its socket.
pub open spec fn run_begins(
    listener: Listener,
    bound: Result<(), String>,
    registry: Channels,
    runtime_id: usize,
    channel: u64,
) -> RunView {
    match listener.binding {
        ListenerBinding::Socket { .. } => RunView {
            registry,
            stopped: match bound {
                Ok(_) => None,
                Err(why) => Some(why@),
            },
        },
        ListenerBinding::Internal => RunView {
            registry: registry.insert((runtime_id, listener.name@), channel),
            stopped: None,
        },
    }
}

/// The registered channels after an event, and whether the listener is at its end.
pub open spec fn run_goes_on(listener: Listener, run: RunView, event: ListenerEvent, runtime_id: usize) -> RunView {
    match stop_reason(event) {
        Some(why) => RunView {
            registry: if listener.binding is Internal {
                run.registry.remove((runtime_id, listener.name@))
            } else {
                run.registry
            },
            stopped: Some(why),
        },
        None => run,
    }
}

/// The registered channels, and why a listener ended, once it has.
pub ghost struct RunView {
    pub registry: Channels,
    pub stopped: Option<Seq<char>>,
}

/// The text that an action stops with, where it stops.
pub open spec fn stops_with(action: ListenerAction) -> Option<Seq<char>> {
    match action {
        ListenerAction::Stop(why) => Some(why@),
        _ => None,
    }
}

impl Listener {
    /// Begins to run: a listener on a socket goes on when the socket could be
    /// bound, one inside the process is registered. Returns why it is at its
    /// end already, where it is.
    pub fn begin_run(
        &self,
        bound: Result<(), String>,
        registry: &mut InternalRegistry,
        runtime_id: usize,
        channel: u64,
    ) -> (stopped: Option<String>)
        ensures
            ({
                let begun = run_begins(*self, bound, old(registry)@, runtime_id, channel);
                &&& final(registry)@ == begun.registry
                &&& match stopped {
                    Some(why) => begun.stopped == Some(why@),
                    None => begun.stopped is None,
                }
            }),
    {
        match &self.binding {
            ListenerBinding::Socket { .. } => match bound {
                Ok(_) => None,
                Err(why) => Some(why),
            },
            ListenerBinding::Internal => {
                let _ = registry.register(runtime_id, self.name.as_str(), channel);
                None
            },
        }
    }

    /// Goes on with something that happened. A listener inside the process is
    /// no longer registered once it stops.
    pub fn run_step(
        &mut self,
        event: ListenerEvent,
        now: u128,
        metrics: &mut GlobalMetrics,
        shard: u64,
        registry: &mut InternalRegistry,
        runtime_id: usize,
    ) -> (action: ListenerAction)
        requires
            old(self).rate_limit matches Some(limit) ==> ready(limit.token_bucket),
            now <= MAX_INSTANT,
            event is Accepted ==> old(self).binding is Socket,
            event matches ListenerEvent::SecretUpdate(Ok(update)) ==> keys_fit(
                old(self).filter_chains@,
                update.2@,
            ),
        ensures
            event_handled(*old(self), *final(self), event, now, *old(metrics), *final(metrics), shard, action),
            final(self).binding == old(self).binding,
            final(self).name == old(self).name,
            final(self).rate_limit matches Some(limit) ==> ready(limit.token_bucket),
            stops_with(action) == stop_reason(event),
            final(registry)@ == run_goes_on(
                *old(self),
                (RunView { registry: old(registry)@, stopped: None }),
                event,
                runtime_id,
            ).registry,
    {
        let action: ListenerAction = self.on_event(event, now, metrics, shard);
        let stops: bool = match &action {
            ListenerAction::Stop(_) => true,
            _ => false,
        };
        if stops {
            match &self.binding {
                ListenerBinding::Socket { .. } => {},
                ListenerBinding::Internal => {
                    let _ = registry.unregister(runtime_id, self.name.as_str());
                },
            }
        }
        action
    }
}

/// A step in the life of a listener: something that happens to it, or other
/// listeners that come and go, with the registered channels they leave behind.
pub ghost enum RunStep {
    Event(ListenerEvent),
    Others(Channels),
}

/// The registered channels after some steps, and whether the listener is at its end.
pub open spec fn whole_run(
    listener: Listener,
    bound: Result<(), String>,
    registry: Channels,
    runtime_id: usize,
    channel: u64,
    steps: Seq<RunStep>,
) -> RunView
    decreases steps.len(),
{
    if steps.len() == 0 {
        run_begins(listener, bound, registry, runtime_id, channel)
    } else {
        let run = whole_run(listener, bound, registry, runtime_id, channel, steps.drop_last());
        match steps.last() {
            RunStep::Event(event) => run_goes_on(listener, run, event, runtime_id),
            RunStep::Others(registry_after) => RunView { registry: registry_after, ..run },
        }
    }
}

/// Whether some steps can follow each other: nothing happens to a listener
/// that has ended, and others leave its place in the registry alone.
pub open spec fn is_whole_run(
    listener: Listener,
    bound: Result<(), String>,
    registry: Channels,
    runtime_id: usize,
    channel: u64,
    steps: Seq<RunStep>,
) -> bool
    decreases steps.len(),
{
    steps.len() > 0 ==> {
        let run = whole_run(listener, bound, registry, runtime_id, channel, steps.drop_last());
        let key = (runtime_id, listener.name@);
        &&& is_whole_run(listener, bound, registry, runtime_id, channel, steps.drop_last())
        &&& match steps.last() {
            RunStep::Event(_) => run.stopped is None,
            RunStep::Others(after) => {
                &&& after.contains_key(key) == run.registry.contains_key(key)
                &&& after.contains_key(key) ==> after[key] == run.registry[key]
            },
        }
    }
}

/// Whether a step ends a listener, and why.
pub open spec fn step_stops(step: RunStep) -> Option<Seq<char>> {
    match step {
        RunStep::Event(event) => stop_reason(event),
        RunStep::Others(_) => None,
    }
}

/// A listener ends exactly when its socket cannot be bound, when no more
/// changes of its routes or secrets come, or when no more connections come
/// from inside the process; it ends with that reason. A connection that
/// cannot be accepted never ends it.
pub proof fn law_listener_ends_for_its_reasons(
    listener: Listener,
    bound: Result<(), String>,
    registry: Channels,
    runtime_id: usize,
    channel: u64,
    steps: Seq<RunStep>,
)
    requires
        is_whole_run(listener, bound, registry, runtime_id, channel, steps),
    ensures
        match whole_run(listener, bound, registry, runtime_id, channel, steps).stopped {
            Some(why) => {
                ||| listener.binding is Socket && bound is Err && bound->Err_0@ == why
                ||| exists|k: int| 0 <= k < steps.len() && step_stops(#[trigger] steps[k]) == Some(why)
            },
            None => {
                &&& listener.binding is Socket ==> bound is Ok
                &&& forall|k: int| 0 <= k < steps.len() ==> step_stops(#[trigger] steps[k]) is None
            },
        },
        stop_reason(ListenerEvent::AcceptFailed) is None,
    decreases steps.len(),
{
    if steps.len() > 0 {
        let earlier = steps.drop_last();
        let last = steps.len() - 1;
        law_listener_ends_for_its_reasons(listener, bound, registry, runtime_id, channel, earlier);
        let run = whole_run(listener, bound, registry, runtime_id, channel, earlier);
        if step_stops(steps[last]) is None && run.stopped is Some {
            let why = run.stopped->0;
            if !(listener.binding is Socket && bound is Err && bound->Err_0@ == why) {
                let k = choose|k: int| 0 <= k < earlier.len() && step_stops(#[trigger] earlier[k]) == Some(why);
                assert(step_stops(steps[k]) == Some(why));
            }
        }
        if step_stops(steps[last]) is None && run.stopped is None {
            assert forall|k: int| 0 <= k < steps.len() implies step_stops(#[trigger] steps[k]) is None by {
                if k < last {
                    assert(step_stops(earlier[k]) is None);
                }
            }
        }
    }
}

/// A listener inside the process is registered with its channel exactly while
/// it runs: from its start to its end it is found under its name on its
/// runtime, and afterwards it is not.
pub proof fn law_registered_while_running(
    listener: Listener,
    bound: Result<(), String>,
    registry: Channels,
    runtime_id: usize,
    channel: u64,
    steps: Seq<RunStep>,
)
    requires
        listener.binding is Internal,
        is_whole_run(listener, bound, registry, runtime_id, channel, steps),
    ensures
        ({
            let run = whole_run(listener, bound, registry, runtime_id, channel, steps);
            let key = (runtime_id, listener.name@);
            &&& run.stopped is None ==> run.registry.contains_key(key) && run.registry[key] == channel
            &&& run.stopped is Some ==> !run.registry.contains_key(key)
        }),
    decreases steps.len(),
{
    if steps.len() > 0 {
        law_registered_while_running(listener, bound, registry, runtime_id, channel, steps.drop_last());
    }
}

} // verus!
