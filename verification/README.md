# orion

The decisions of a proxy, verified with Verus: which filter chain a connection
takes, which certificate a client is shown, how requests are limited, retried,
traced and handed to plugins, and what is counted and shown of all that.

- `src/` is the library. Every function in it is proved to meet its contract,
  but for the small ones around calls into other crates, described below.
  Functions named `law_...` state what holds across several of them.
- `tests/` runs the library on concrete values.
- `app/` is the proxy around it: sockets, timers, tasks and the engine that runs
  plugins. It asks the library what to do and tells it what came of that.

What waits for the outside world is a state machine in `src/`: a function takes
the state and what happened, and gives the next state and what to do. Instants
and durations are nanoseconds that the caller reads off its clocks. Connections,
TLS keys, plugin instances and other things that live outside the library go by
number.

A call into another crate stands behind a small function marked
`#[verifier::external_body]`. Its comment names the call and says what is relied
on without proof.
