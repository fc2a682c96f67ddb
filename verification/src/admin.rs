//! The administrative endpoints.

use crate::admin::config_dump::{
    all_redacted, secrets_view, DataSource, DataView, Secret, SecretKind, SecretKindView, SecretView,
};
use crate::callout::{base64_of, base64_text};
use crate::metrics::{reset_global_metrics, GlobalMetrics};
use crate::stats::{server_uptime, uptime, ProxyState, ServerStats};
use crate::text::{append_decimal, decimal};
use crate::token_bucket::MAX_INSTANT;
use vstd::prelude::*;

pub mod canonical;
pub mod canonical_lines;
pub mod clusters_status;
pub mod config_dump;
pub mod lines;
pub mod prometheus;
pub mod prometheus_lines;
pub mod shown_metrics;
pub mod snapshot;
pub mod status_lines;

verus! {

/// How long a question to the runtimes may take in all, in nanoseconds.
pub const CONFIG_QUERY_TIMEOUT: u128 = 5_000_000_000;

/// A question that is put to one runtime after the other until one answers.
#[derive(Debug, Clone, Copy, PartialEq, Eq, Structural)]
pub struct ConfigQuery {
    /// How many runtimes there are.
    pub runtimes: usize,
    /// The runtime to ask next.
    pub next: usize,
    /// When to give up, in nanoseconds.
    pub deadline: u128,
}

/// What to do about a question.
#[derive(Debug, Clone, Copy, PartialEq, Eq, Structural)]
pub enum QueryAction {
    /// Ask a runtime and wait for so long.
    Ask { runtime: usize, timeout: u128 },
    /// There is an answer.
    Answered,
    /// No runtime answered in time.
    GiveUp,
}

/// What a question does at an instant: ask the next runtime as long as there
/// is one and time is left.
pub open spec fn query_action(query: ConfigQuery, now: u128) -> QueryAction {
    if query.next < query.runtimes && now < query.deadline {
        QueryAction::Ask { runtime: query.next, timeout: (query.deadline - now) as u128 }
    } else {
        QueryAction::GiveUp
    }
}

impl ConfigQuery {
    /// A question with a budget of time.
    pub fn within(runtimes: usize, now: u128, budget: u128) -> (query: ConfigQuery)
        requires
            now + budget <= u128::MAX,
        ensures
            query == (ConfigQuery { runtimes, next: 0, deadline: (now + budget) as u128 }),
    {
        ConfigQuery { runtimes, next: 0, deadline: now + budget }
    }

    /// What to do first, or after the last runtime did or did not answer.
    pub fn step(&mut self, answered: bool, now: u128) -> (action: QueryAction)
        ensures
            answered ==> action == QueryAction::Answered && *final(self) == *old(self),
            !answered ==> action == query_action(*old(self), now) && *final(self) == (ConfigQuery {
                next: if action is Ask {
                    (old(self).next + 1) as usize
                } else {
                    old(self).next
                },
                ..*old(self)
            }),
    {
        if answered {
            return QueryAction::Answered;
        }
        if self.next < self.runtimes && now < self.deadline {
            let runtime: usize = self.next;
            self.next = self.next + 1;
            QueryAction::Ask { runtime, timeout: self.deadline - now }
        } else {
            QueryAction::GiveUp
        }
    }
}

/// A question is put to each runtime at most once, in their order, and never
/// waits past its deadline.
pub proof fn law_query_keeps_its_budget(query: ConfigQuery, now: u128)
    ensures
        query_action(query, now) matches QueryAction::Ask { runtime, timeout } ==> {
            &&& runtime == query.next && runtime < query.runtimes
            &&& timeout > 0 && now + timeout == query.deadline
        },
        now >= query.deadline ==> query_action(query, now) == QueryAction::GiveUp,
{
}

/// The list of commands.
pub open spec fn help_text(config_dump: bool, metrics: bool, prometheus: bool) -> Seq<char> {
    "admin commands are:\n"@ + "  /: admin home page\n"@ + "  /certs: print certs on machine\n"@
        + "  /clusters: upstream cluster status\n"@ + (if config_dump {
        "  /config_dump: dump current Orion configs\n"@
    } else {
        Seq::empty()
    }) + "  /help: print out list of admin commands\n"@ + "  /listeners: print listener info\n"@
        + "  /memory: print current allocation/heap usage\n"@
        + "  /ready: print server state, return 200 if LIVE, otherwise return 503\n"@ + (if metrics {
        "  /reset_counters (POST): reset all counters to zero\n"@
    } else {
        Seq::empty()
    }) + "  /server_info: print server version/status information\n"@ + (if metrics {
        "  /stats: print server stats\n"@
    } else {
        Seq::empty()
    }) + (if prometheus {
        "  /stats/prometheus: print server stats in prometheus format\n"@
    } else {
        Seq::empty()
    })
}

/// The list of commands, with those that the build has.
pub fn get_help(config_dump: bool, metrics: bool, prometheus: bool) -> (text: String)
    ensures
        text@ == help_text(config_dump, metrics, prometheus),
{
    let mut text = "admin commands are:\n".to_owned();
    text.append("  /: admin home page\n");
    text.append("  /certs: print certs on machine\n");
    text.append("  /clusters: upstream cluster status\n");
    if config_dump {
        text.append("  /config_dump: dump current Orion configs\n");
    }
    text.append("  /help: print out list of admin commands\n");
    text.append("  /listeners: print listener info\n");
    text.append("  /memory: print current allocation/heap usage\n");
    text.append("  /ready: print server state, return 200 if LIVE, otherwise return 503\n");
    if metrics {
        text.append("  /reset_counters (POST): reset all counters to zero\n");
    }
    text.append("  /server_info: print server version/status information\n");
    if metrics {
        text.append("  /stats: print server stats\n");
    }
    if prometheus {
        text.append("  /stats/prometheus: print server stats in prometheus format\n");
    }
    assert(text@ =~= help_text(config_dump, metrics, prometheus));
    text
}

/// The word for a state of the server.
pub open spec fn state_text(state: ProxyState) -> Seq<char> {
    match state {
        ProxyState::Initializing => "INITIALIZING"@,
        ProxyState::Draining => "DRAINING"@,
        ProxyState::PreInitializing => "PRE_INITIALIZING"@,
        ProxyState::Live => "LIVE"@,
    }
}

/// Whether the server is ready: a status, and the word for its state. A
/// server that has not said anything yet is still starting.
pub fn ready_handler(stats: &ServerStats) -> (response: (u16, String))
    ensures
        response.0 == (if stats.proxy_state == Some(ProxyState::Live) {
            200
        } else {
            503int
        }),
        response.1@ == (match stats.proxy_state {
            Some(state) => state_text(state),
            None => state_text(ProxyState::Initializing),
        }),
{
    match stats.proxy_state {
        Some(ProxyState::Live) => (200, "LIVE".to_owned()),
        Some(ProxyState::Draining) => (503, "DRAINING".to_owned()),
        Some(ProxyState::PreInitializing) => (503, "PRE_INITIALIZING".to_owned()),
        Some(ProxyState::Initializing) => (503, "INITIALIZING".to_owned()),
        None => (503, "INITIALIZING".to_owned()),
    }
}

/// Sets all metrics back, and says so.
pub fn post_reset_counters(metrics: &mut GlobalMetrics) -> (text: String)
    ensures
        text@ == "OK"@,
        crate::metrics::tcp::was_reset(old(metrics).tcp, final(metrics).tcp),
        crate::metrics::http::was_reset(old(metrics).http, final(metrics).http),
        crate::metrics::listeners::was_reset(old(metrics).listeners, final(metrics).listeners),
        crate::metrics::clusters::was_reset(old(metrics).clusters, final(metrics).clusters),
        crate::metrics::filters::was_reset(old(metrics).filters, final(metrics).filters),
        crate::metrics::server::was_reset(old(metrics).server, final(metrics).server),
        crate::metrics::tls::was_reset(old(metrics).tls, final(metrics).tls),
        crate::metrics::user::was_reset(old(metrics).user, final(metrics).user),
        crate::metrics::custom::was_reset(old(metrics).custom, final(metrics).custom),
        crate::metrics::mcp::was_reset(old(metrics).mcp, final(metrics).mcp),
{
    reset_global_metrics(metrics);
    "OK".to_owned()
}

/// A piece of data as it is printed: a text, the text form of bytes, or where
/// it is kept.
pub open spec fn source_text(source: DataView) -> Seq<char> {
    match source {
        DataView::InlineString(text) => text,
        DataView::InlineBytes(bytes) => base64_of(bytes),
        DataView::Path(path) => path,
    }
}

/// The line of a certificate, or of the certificates that others are verified
/// against: its name, what it is, and the certificate.
pub open spec fn cert_line(secret: SecretView) -> Seq<char> {
    match secret.kind {
        SecretKindView::TlsCertificate { certificate_chain, .. } => secret.name + "::certificate_chain::"@
            + source_text(certificate_chain) + "\n"@,
        SecretKindView::ValidationContext { trusted_ca } => secret.name + "::trusted_ca::"@ + source_text(trusted_ca)
            + "\n"@,
    }
}

/// The certificates of some secrets, each in its line.
pub open spec fn certs_text(secrets: Seq<SecretView>) -> Seq<char>
    decreases secrets.len(),
{
    if secrets.len() == 0 {
        Seq::empty()
    } else {
        certs_text(secrets.drop_last()) + cert_line(secrets.last())
    }
}

fn append_source(out: &mut String, source: &DataSource)
    ensures
        final(out)@ == old(out)@ + source_text(source@),
{
    match source {
        DataSource::InlineString(text) => {
            out.append(text.as_str());
        },
        DataSource::InlineBytes(bytes) => {
            out.append(base64_text(bytes).as_str());
        },
        DataSource::Path(path) => {
            out.append(path.as_str());
        },
    }
}

/// The certificates that the server has, without their private keys.
pub fn get_certs(secrets: &Vec<Secret>) -> (text: String)
    ensures
        text@ == certs_text(secrets_view(secrets@)),
{
    let mut text = String::new();
    let mut i: usize = 0;
    assert(secrets_view(secrets@).take(0) =~= Seq::empty());
    while i < secrets.len()
        invariant
            i <= secrets@.len(),
            text@ == certs_text(secrets_view(secrets@).take(i as int)),
        decreases secrets@.len() - i,
    {
        let ghost before = text@;
        let ghost taken = secrets_view(secrets@).take(i + 1);
        assert(taken.drop_last() =~= secrets_view(secrets@).take(i as int));
        assert(taken.last() == secrets@[i as int]@);
        text.append(secrets[i].name.as_str());
        match &secrets[i].kind {
            SecretKind::TlsCertificate(certificate) => {
                text.append("::certificate_chain::");
                append_source(&mut text, &certificate.certificate_chain);
            },
            SecretKind::ValidationContext { trusted_ca } => {
                text.append("::trusted_ca::");
                append_source(&mut text, trusted_ca);
            },
        }
        text.append("\n");
        assert(text@ =~= before + cert_line(taken.last()));
        i = i + 1;
    }
    assert(secrets_view(secrets@).take(i as int) =~= secrets_view(secrets@));
    text
}

/// What is printed of certificates does not depend on their private keys.
pub proof fn law_certs_show_no_private_key(secrets: Seq<SecretView>)
    ensures
        certs_text(secrets) == certs_text(all_redacted(secrets)),
    decreases secrets.len(),
{
    if secrets.len() > 0 {
        law_certs_show_no_private_key(secrets.drop_last());
        assert(all_redacted(secrets).drop_last() =~= all_redacted(secrets.drop_last()));
    }
}

/// The version and the status of the server, each in its line: the state it is
/// in, and for how many seconds it has been up.
pub fn server_info_handler(version: &str, stats: &ServerStats, now: u128) -> (text: String)
    requires
        now <= MAX_INSTANT,
    ensures
        text@ == "version: "@ + version@ + "\nstate: "@ + (match stats.proxy_state {
            Some(state) => state_text(state),
            None => state_text(ProxyState::Initializing),
        }) + "\nuptime_seconds: "@ + decimal(uptime(*stats, now)) + "\n"@,
{
    let (_, state): (u16, String) = ready_handler(stats);
    let mut text = "version: ".to_owned();
    text.append(version);
    text.append("\nstate: ");
    text.append(state.as_str());
    text.append("\nuptime_seconds: ");
    append_decimal(&mut text, server_uptime(stats, now));
    text.append("\n");
    text
}

} // verus!
