//! The configuration that is in force, without its secrets.

use crate::admin::clusters_status::{endpoints_of, ClusterConfig, ClusterDiscoveryType};
use vstd::prelude::*;

verus! {

/// Where a piece of data comes from.
#[derive(Debug)]
pub enum DataSource {
    InlineString(String),
    InlineBytes(Vec<u8>),
    Path(String),
}

/// A certificate with its private key.
#[derive(Debug)]
pub struct TlsCertificateSecret {
    pub certificate_chain: DataSource,
    pub private_key: DataSource,
}

/// What a secret is.
#[derive(Debug)]
pub enum SecretKind {
    TlsCertificate(TlsCertificateSecret),
    ValidationContext { trusted_ca: DataSource },
}

/// A secret under a name.
#[derive(Debug)]
pub struct Secret {
    pub name: String,
    pub kind: SecretKind,
}

/// Where a piece of data comes from, as it is described.
pub ghost enum DataView {
    InlineString(Seq<char>),
    InlineBytes(Seq<u8>),
    Path(Seq<char>),
}

impl View for DataSource {
    type V = DataView;

    open spec fn view(&self) -> DataView {
        match self {
            DataSource::InlineString(text) => DataView::InlineString(text@),
            DataSource::InlineBytes(bytes) => DataView::InlineBytes(bytes@),
            DataSource::Path(path) => DataView::Path(path@),
        }
    }
}

/// What a secret is, as it is described.
pub ghost enum SecretKindView {
    TlsCertificate { certificate_chain: DataView, private_key: DataView },
    ValidationContext { trusted_ca: DataView },
}

/// A secret as it is described.
pub ghost struct SecretView {
    pub name: Seq<char>,
    pub kind: SecretKindView,
}

impl View for Secret {
    type V = SecretView;

    open spec fn view(&self) -> SecretView {
        SecretView {
            name: self.name@,
            kind: match self.kind {
                SecretKind::TlsCertificate(certificate) => SecretKindView::TlsCertificate {
                    certificate_chain: certificate.certificate_chain@,
                    private_key: certificate.private_key@,
                },
                SecretKind::ValidationContext { trusted_ca } => SecretKindView::ValidationContext {
                    trusted_ca: trusted_ca@,
                },
            },
        }
    }
}

/// Secrets as they are described.
pub open spec fn secrets_view(secrets: Seq<Secret>) -> Seq<SecretView> {
    Seq::new(secrets.len(), |i: int| secrets[i]@)
}

/// A secret as it may be shown: its private key is gone, and nothing else.
pub open spec fn redacted(secret: SecretView) -> SecretView {
    match secret.kind {
        SecretKindView::TlsCertificate { certificate_chain, .. } => SecretView {
            kind: SecretKindView::TlsCertificate {
                certificate_chain,
                private_key: DataView::InlineString("[redacted]"@),
            },
            ..secret
        },
        SecretKindView::ValidationContext { .. } => secret,
    }
}

/// Secrets as they may be shown.
pub open spec fn all_redacted(secrets: Seq<SecretView>) -> Seq<SecretView> {
    Seq::new(secrets.len(), |i: int| redacted(secrets[i]))
}

/// Takes the private keys out of secrets.
pub fn redact_secrets(secrets: Vec<Secret>) -> (shown: Vec<Secret>)
    ensures
        secrets_view(shown@) == all_redacted(secrets_view(secrets@)),
        shown@.len() == secrets@.len(),
{
    let mut shown: Vec<Secret> = secrets;
    let mut i: usize = 0;
    while i < shown.len()
        invariant
            i <= shown@.len(),
            shown@.len() == secrets@.len(),
            forall|k: int| 0 <= k < i ==> (#[trigger] shown@[k])@ == redacted(secrets@[k]@),
            forall|k: int| i <= k < shown@.len() ==> #[trigger] shown@[k] == secrets@[k],
        decreases shown@.len() - i,
    {
        match &mut shown[i].kind {
            SecretKind::TlsCertificate(certificate) => {
                certificate.private_key = DataSource::InlineString("[redacted]".to_owned());
            },
            SecretKind::ValidationContext { .. } => {},
        }
        i = i + 1;
    }
    assert(secrets_view(shown@) =~= all_redacted(secrets_view(secrets@)));
    shown
}

/// What stands at the end of a filter chain, with its routes by number.
#[derive(Debug, Clone, Copy, PartialEq, Eq, Structural)]
pub enum MainFilter {
    Http { route_specifier: u64 },
    Tcp,
}

/// A listener with its filter chains.
#[derive(Debug)]
pub struct ListenerDump {
    pub name: String,
    /// The text of its address; none for a listener inside the process.
    pub address: Option<String>,
    pub filter_chains: Vec<MainFilter>,
}

/// The routes of the first `n` filter chains.
pub open spec fn routes_of(chains: Seq<MainFilter>) -> Seq<u64>
    decreases chains.len(),
{
    if chains.len() == 0 {
        Seq::empty()
    } else {
        match chains.last() {
            MainFilter::Http { route_specifier } => routes_of(chains.drop_last()).push(route_specifier),
            MainFilter::Tcp => routes_of(chains.drop_last()),
        }
    }
}

/// The routes of listeners, in their order.
pub open spec fn all_routes(listeners: Seq<ListenerDump>) -> Seq<u64>
    decreases listeners.len(),
{
    if listeners.len() == 0 {
        Seq::empty()
    } else {
        all_routes(listeners.drop_last()) + routes_of(listeners.last().filter_chains@)
    }
}

/// The routes of listeners, where there are any.
pub fn collect_routes(listeners: &Vec<ListenerDump>) -> (routes: Option<Vec<u64>>)
    ensures
        match routes {
            Some(r) => r@ == all_routes(listeners@) && r@.len() > 0,
            None => all_routes(listeners@).len() == 0,
        },
{
    let mut routes: Vec<u64> = Vec::new();
    let mut i: usize = 0;
    while i < listeners.len()
        invariant
            i <= listeners@.len(),
            routes@ == all_routes(listeners@.take(i as int)),
        decreases listeners@.len() - i,
    {
        let ghost before = routes@;
        assert(listeners@.take(i + 1).drop_last() =~= listeners@.take(i as int));
        let chains: &Vec<MainFilter> = &listeners[i].filter_chains;
        let mut j: usize = 0;
        assert(before + routes_of(chains@.take(0)) =~= before);
        while j < chains.len()
            invariant
                j <= chains@.len(),
                routes@ == before + routes_of(chains@.take(j as int)),
            decreases chains@.len() - j,
        {
            assert(chains@.take(j + 1).drop_last() =~= chains@.take(j as int));
            match chains[j] {
                MainFilter::Http { route_specifier } => {
                    routes.push(route_specifier);
                    assert(routes@ =~= before + routes_of(chains@.take(j + 1)));
                },
                MainFilter::Tcp => {},
            }
            j = j + 1;
        }
        assert(chains@.take(chains@.len() as int) =~= chains@);
        i = i + 1;
    }
    assert(listeners@.take(listeners@.len() as int) =~= listeners@);
    if routes.len() == 0 {
        None
    } else {
        Some(routes)
    }
}

/// The places at which clusters have endpoints: the number of the cluster and
/// of the place in it, for the clusters before `n`.
pub open spec fn endpoint_places(clusters: Seq<ClusterConfig>, n: int) -> Seq<(usize, usize)>
    decreases n,
{
    if n <= 0 {
        Seq::empty()
    } else {
        endpoint_places(clusters, n - 1) + places_in(
            n - 1,
            match endpoints_of(clusters[n - 1]) {
                Some(endpoints) => endpoints.len() as int,
                None => 0,
            },
        )
    }
}

/// The places in one cluster.
pub open spec fn places_in(cluster: int, len: int) -> Seq<(usize, usize)> {
    Seq::new(len as nat, |j: int| (cluster as usize, j as usize))
}

/// The places at which clusters have endpoints, where there are any.
pub fn collect_endpoints(clusters: &Vec<ClusterConfig>) -> (places: Option<Vec<(usize, usize)>>)
    ensures
        match places {
            Some(p) => p@ == endpoint_places(clusters@, clusters@.len() as int) && p@.len() > 0,
            None => endpoint_places(clusters@, clusters@.len() as int).len() == 0,
        },
{
    let mut places: Vec<(usize, usize)> = Vec::new();
    let mut i: usize = 0;
    while i < clusters.len()
        invariant
            i <= clusters@.len(),
            places@ == endpoint_places(clusters@, i as int),
        decreases clusters@.len() - i,
    {
        let ghost before = places@;
        let len: usize = match &clusters[i].discovery_settings {
            ClusterDiscoveryType::Static(endpoints) => endpoints.len(),
            ClusterDiscoveryType::StrictDns(endpoints) => endpoints.len(),
            ClusterDiscoveryType::Eds(Some(endpoints)) => endpoints.len(),
            ClusterDiscoveryType::Eds(None) => 0,
            ClusterDiscoveryType::OriginalDst => 0,
        };
        let mut j: usize = 0;
        assert(before + places_in(i as int, 0) =~= before);
        while j < len
            invariant
                j <= len,
                places@ == before + places_in(i as int, j as int),
            decreases len - j,
        {
            places.push((i, j));
            assert(places@ =~= before + places_in(i as int, j + 1));
            j = j + 1;
        }
        i = i + 1;
    }
    if places.len() == 0 {
        None
    } else {
        Some(places)
    }
}

/// The configuration that is in force, without its private keys.
#[derive(Debug)]
pub struct ConfigDump {
    /// The secrets of the configuration that the server was started with.
    pub bootstrap_secrets: Vec<Secret>,
    pub listeners: Option<Vec<ListenerDump>>,
    pub routes: Option<Vec<u64>>,
    pub clusters: Option<Vec<ClusterConfig>>,
    /// Where the clusters have endpoints: the number of the cluster, and of the place in it.
    pub endpoints: Option<Vec<(usize, usize)>>,
    pub secrets: Option<Vec<Secret>>,
}

/// Puts together the configuration that is in force: what the server was
/// started with, the listeners, if a runtime told them, their routes, the
/// clusters with their endpoints, and the secrets. What there is none of is
/// left out.
pub fn config_dump_handler(
    bootstrap_secrets: Vec<Secret>,
    listeners: Option<Vec<ListenerDump>>,
    clusters: Vec<ClusterConfig>,
    secrets: Vec<Secret>,
) -> (config: ConfigDump)
    ensures
        secrets_view(config.bootstrap_secrets@) == all_redacted(secrets_view(bootstrap_secrets@)),
        config.listeners == listeners,
        match config.routes {
            Some(routes) => listeners is Some && routes@ == all_routes(listeners->0@) && routes@.len() > 0,
            None => listeners is None || all_routes(listeners->0@).len() == 0,
        },
        config.clusters == (if clusters@.len() > 0 {
            Some(clusters)
        } else {
            None
        }),
        match config.endpoints {
            Some(places) => places@ == endpoint_places(clusters@, clusters@.len() as int) && places@.len() > 0,
            None => endpoint_places(clusters@, clusters@.len() as int).len() == 0,
        },
        match config.secrets {
            Some(shown) => secrets_view(shown@) == all_redacted(secrets_view(secrets@)) && secrets@.len() > 0,
            None => secrets@.len() == 0,
        },
{
    let bootstrap_shown: Vec<Secret> = redact_secrets(bootstrap_secrets);
    let routes: Option<Vec<u64>> = match &listeners {
        Some(found) => collect_routes(found),
        None => None,
    };
    let endpoints: Option<Vec<(usize, usize)>> = collect_endpoints(&clusters);
    let clusters: Option<Vec<ClusterConfig>> = if clusters.len() > 0 {
        Some(clusters)
    } else {
        None
    };
    let shown: Vec<Secret> = redact_secrets(secrets);
    let secrets: Option<Vec<Secret>> = if shown.len() > 0 {
        Some(shown)
    } else {
        None
    };
    ConfigDump { bootstrap_secrets: bootstrap_shown, listeners, routes, clusters, endpoints, secrets }
}

/// The listeners, one to a line, with their addresses.
pub open spec fn listeners_text(listeners: Seq<ListenerDump>) -> Seq<char>
    decreases listeners.len(),
{
    if listeners.len() == 0 {
        Seq::empty()
    } else {
        listeners_text(listeners.drop_last()) + listeners.last().name@ + "::"@ + (match listeners.last().address {
            Some(address) => address@,
            None => Seq::empty(),
        }) + "\n"@
    }
}

/// The listeners, one to a line, with their addresses.
pub fn build_listeners_output(listeners: &Vec<ListenerDump>) -> (out: String)
    ensures
        out@ == listeners_text(listeners@),
{
    let mut out = String::new();
    let mut i: usize = 0;
    while i < listeners.len()
        invariant
            i <= listeners@.len(),
            out@ == listeners_text(listeners@.take(i as int)),
        decreases listeners@.len() - i,
    {
        assert(listeners@.take(i + 1).drop_last() =~= listeners@.take(i as int));
        out.append(listeners[i].name.as_str());
        out.append("::");
        match &listeners[i].address {
            Some(address) => {
                out.append(address.as_str());
            },
            None => {},
        }
        out.append("\n");
        assert(out@ =~= listeners_text(listeners@.take(i + 1)));
        i = i + 1;
    }
    assert(listeners@.take(listeners@.len() as int) =~= listeners@);
    out
}

/// No private key is shown, whatever it was.
pub proof fn law_no_private_key_is_shown(secrets: Seq<SecretView>, i: int)
    requires
        0 <= i < secrets.len(),
    ensures
        all_redacted(secrets)[i].kind matches SecretKindView::TlsCertificate { private_key, .. } ==> private_key
            == DataView::InlineString("[redacted]"@),
{
}

/// Taking the private keys out twice is the same as taking them out once.
pub proof fn law_redacting_twice_is_redacting_once(secrets: Seq<SecretView>)
    ensures
        all_redacted(all_redacted(secrets)) == all_redacted(secrets),
{
    assert(all_redacted(all_redacted(secrets)) =~= all_redacted(secrets));
}

/// Hiding the private keys changes nothing else: each secret keeps its name and
/// its kind, and the certificates and the roots are shown as they are.
pub proof fn law_only_private_keys_are_hidden(secrets: Seq<SecretView>, i: int)
    requires
        0 <= i < secrets.len(),
    ensures
        all_redacted(secrets).len() == secrets.len(),
        all_redacted(secrets)[i].name == secrets[i].name,
        secrets[i].kind is TlsCertificate ==> {
            &&& all_redacted(secrets)[i].kind is TlsCertificate
            &&& all_redacted(secrets)[i].kind->certificate_chain == secrets[i].kind->certificate_chain
        },
        secrets[i].kind is ValidationContext ==> all_redacted(secrets)[i] == secrets[i],
{
}

proof fn lemma_routes_of(chains: Seq<MainFilter>, route: u64)
    ensures
        routes_of(chains).contains(route) <==> chains.contains(MainFilter::Http { route_specifier: route }),
        routes_of(chains).len() <= chains.len(),
    decreases chains.len(),
{
    if chains.len() > 0 {
        let front = chains.drop_last();
        let found = routes_of(front);
        let wanted = MainFilter::Http { route_specifier: route };
        lemma_routes_of(front, route);
        assert(chains[chains.len() - 1] == chains.last());
        if front.contains(wanted) {
            let i = choose|i: int| 0 <= i < front.len() && front[i] == wanted;
            assert(chains[i] == wanted);
        }
        if chains.contains(wanted) && chains.last() != wanted {
            let i = choose|i: int| 0 <= i < chains.len() && chains[i] == wanted;
            assert(front[i] == wanted);
        }
        if chains.last() is Http {
            let all = found.push(chains.last()->route_specifier);
            assert(all[found.len() as int] == chains.last()->route_specifier);
            if found.contains(route) {
                let i = choose|i: int| 0 <= i < found.len() && found[i] == route;
                assert(all[i] == route);
            }
            if all.contains(route) && chains.last() != wanted {
                let i = choose|i: int| 0 <= i < all.len() && all[i] == route;
                assert(found[i] == route);
            }
        }
    }
}

/// A route is listed exactly where a chain of some listener serves HTTP by it.
pub proof fn law_routes_are_those_of_the_chains(listeners: Seq<ListenerDump>, route: u64)
    ensures
        all_routes(listeners).contains(route) <==> exists|i: int|
            0 <= i < listeners.len() && (#[trigger] listeners[i]).filter_chains@.contains(
                MainFilter::Http { route_specifier: route },
            ),
    decreases listeners.len(),
{
    if listeners.len() > 0 {
        let front = listeners.drop_last();
        let earlier = all_routes(front);
        let last = routes_of(listeners.last().filter_chains@);
        let wanted = MainFilter::Http { route_specifier: route };
        law_routes_are_those_of_the_chains(front, route);
        lemma_routes_of(listeners.last().filter_chains@, route);
        assert(listeners[listeners.len() - 1] == listeners.last());
        if earlier.contains(route) {
            let k = choose|k: int| 0 <= k < earlier.len() && earlier[k] == route;
            assert((earlier + last)[k] == route);
            let i = choose|i: int| 0 <= i < front.len() && (#[trigger] front[i]).filter_chains@.contains(wanted);
            assert(listeners[i].filter_chains@.contains(wanted));
        }
        if last.contains(route) {
            let k = choose|k: int| 0 <= k < last.len() && last[k] == route;
            assert((earlier + last)[earlier.len() + k] == route);
        }
        if (earlier + last).contains(route) {
            let k = choose|k: int| 0 <= k < (earlier + last).len() && (earlier + last)[k] == route;
            if k < earlier.len() {
                assert(earlier[k] == route);
            } else {
                assert(last[k - earlier.len()] == route);
            }
        }
        if exists|i: int| 0 <= i < listeners.len() && (#[trigger] listeners[i]).filter_chains@.contains(wanted) {
            let i = choose|i: int|
                0 <= i < listeners.len() && (#[trigger] listeners[i]).filter_chains@.contains(wanted);
            if i < front.len() {
                assert(front[i].filter_chains@.contains(wanted));
            }
        }
    }
}

} // verus!
