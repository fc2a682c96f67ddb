//! The decision logic of a service proxy, verified: rate limiting, filter
//! chain selection, connection pools, retries, TLS certificate resolution,
//! WebAssembly host calls, metrics and the administrative endpoints.
//!
//! Everything here works on plain values. Sockets, clocks, timers and the
//! asynchronous runtime live in the application around the library: it reads
//! the outside world, hands the library an event and performs the action that
//! comes back.

pub mod address;
pub mod admin;
pub mod authority;
pub mod callout;
pub mod connection_limit;
pub mod connector;
pub mod filter_chain;
pub mod global_rate_limiter;
pub mod guest_memory;
pub mod headers;
pub mod hostcalls;
pub mod http1_pool;
pub mod http2_pool;
pub mod http_channel;
pub mod http_exchange;
pub mod http_filters;
pub mod http_tracer;
pub mod instrumented_stream;
pub mod internal_registry;
pub mod key_value;
pub mod listener;
pub mod listener_run;
pub mod local_rate_limiter;
pub mod metadata;
pub mod metrics;
pub mod name_table;
pub mod partition_key;
pub mod runtime;
pub mod sharded;
pub mod shared_memory;
pub mod sni_resolver;
pub mod stats;
pub mod str_pair;
pub mod tcp_channel;
pub mod tcp_proxy;
pub mod text;
pub mod timezone;
pub mod tls_builder;
pub mod tls_configurator;
pub mod token_bucket;
pub mod tracked_stream;
pub mod truncated_debug;
pub mod wasm_filter;
pub mod wasm_instance;
