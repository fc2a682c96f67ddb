//! The steps by which a TLS context is put together.
//!
//! Each step is a type of its own, so that no step can be left out. The last
//! step yields a plan: what the TLS stack is to be configured with.

use crate::sni_resolver::{
    ascii_lowercase, certificate_covers, is_server_name, tested_name, RelaxedResolvesServerCertUsingSni,
    ResolverView,
};
use crate::text::{append_decimal, decimal, str_eq};
use std::sync::Arc;
use vstd::prelude::*;

verus! {

#[derive(Debug, Clone, Copy, PartialEq, Eq, Structural)]
pub enum TlsVersion {
    TLSv1_2,
    TLSv1_3,
}

/// Whether the chain of an upstream's certificate is verified.
#[derive(Debug, Clone, Copy, PartialEq, Eq, Structural)]
pub enum TrustChainVerification {
    VerifyTrustChain,
    AcceptUntrusted,
}

/// The number under which a private key was loaded, or why it could not be.
pub type LoadedKey = Result<u64, String>;

/// The certificates that others are verified against, in DER.
#[derive(Debug)]
pub struct RootCertStore {
    pub roots: Vec<Vec<u8>>,
}

/// The certificate that the proxy shows to an upstream.
#[derive(Debug)]
pub struct ClientCert {
    pub key: Arc<Vec<u8>>,
    pub certs: Arc<Vec<Vec<u8>>>,
}

/// A certificate that the proxy shows to clients.
#[derive(Debug)]
pub struct ServerCert {
    pub name: String,
    pub key: Arc<Vec<u8>>,
    pub certs: Arc<Vec<Vec<u8>>>,
}

/// A server certificate and the name of the secret it came from.
#[derive(Debug)]
pub struct SecretHolder {
    pub name: String,
    pub server_cert: ServerCert,
}

impl SecretHolder {
    pub fn new(name: String, server_cert: ServerCert) -> (holder: SecretHolder)
        ensures
            holder.name == name,
            holder.server_cert == server_cert,
    {
        SecretHolder { name, server_cert }
    }

    /// Whether two holders are for the same secret.
    pub fn same_secret(&self, other: &SecretHolder) -> (same: bool)
        ensures
            same == (self.name@ == other.name@),
    {
        str_eq(self.name.as_str(), other.name.as_str())
    }
}

#[derive(Debug)]
pub struct WantsCertStore {
    pub supported_versions: Vec<TlsVersion>,
}

#[derive(Debug)]
pub struct WantsServerCert {
    pub supported_versions: Vec<TlsVersion>,
    pub validation_context_secret_id: Option<String>,
    pub certificate_store: Option<Arc<RootCertStore>>,
}

#[derive(Debug)]
pub struct WantsClientCert {
    pub supported_versions: Vec<TlsVersion>,
    pub validation_context_secret_id: Option<String>,
    pub certificate_store: Arc<RootCertStore>,
}

#[derive(Debug)]
pub struct WantsToVerifyClientCert {
    pub supported_versions: Vec<TlsVersion>,
    pub validation_context_secret_id: Option<String>,
    pub certificate_store: Option<Arc<RootCertStore>>,
    pub server_ids_and_certificates: Vec<SecretHolder>,
}

/// All that a server context needs. The ticketer goes by the number of its key
/// set; contexts that are rebuilt keep it, so that tickets issued before stay
/// readable.
#[derive(Debug)]
pub struct WantsToBuildServer {
    pub supported_versions: Vec<TlsVersion>,
    pub validation_context_secret_id: Option<String>,
    pub certificate_store: Option<Arc<RootCertStore>>,
    pub server_ids_and_certificates: Vec<SecretHolder>,
    pub require_client_cert: bool,
    pub ticketer: u64,
}

#[derive(Debug)]
pub struct WantsSni {
    pub supported_versions: Vec<TlsVersion>,
    pub validation_context_secret_id: Option<String>,
    pub certificate_store: Arc<RootCertStore>,
    pub certificate_secret_id: Option<String>,
    pub client_certificate: Option<Arc<ClientCert>>,
}

/// All that a client context needs.
#[derive(Debug)]
pub struct WantsToBuildClient {
    pub supported_versions: Vec<TlsVersion>,
    pub validation_context_secret_id: Option<String>,
    pub certificate_store: Arc<RootCertStore>,
    pub certificate_secret_id: Option<String>,
    pub trust_chain_verification: TrustChainVerification,
    pub client_certificate: Option<Arc<ClientCert>>,
    pub sni: String,
}

/// A context under construction.
#[derive(Debug)]
pub struct TlsContextBuilder<S> {
    pub state: S,
}

impl TlsContextBuilder<()> {
    pub fn with_supported_versions(supported_versions: Vec<TlsVersion>) -> (builder: TlsContextBuilder<WantsCertStore>)
        ensures
            builder.state.supported_versions == supported_versions,
    {
        TlsContextBuilder { state: WantsCertStore { supported_versions } }
    }
}

impl TlsContextBuilder<WantsCertStore> {
    pub fn with_server_certificate_store(self, secret_id: Option<String>, certificate_store: Arc<RootCertStore>) -> (builder:
        TlsContextBuilder<WantsServerCert>)
        ensures
            builder.state == (WantsServerCert {
                supported_versions: self.state.supported_versions,
                validation_context_secret_id: secret_id,
                certificate_store: Some(certificate_store),
            }),
    {
        TlsContextBuilder {
            state: WantsServerCert {
                supported_versions: self.state.supported_versions,
                validation_context_secret_id: secret_id,
                certificate_store: Some(certificate_store),
            },
        }
    }

    pub fn with_no_client_auth(self) -> (builder: TlsContextBuilder<WantsServerCert>)
        ensures
            builder.state == (WantsServerCert {
                supported_versions: self.state.supported_versions,
                validation_context_secret_id: None,
                certificate_store: None,
            }),
    {
        TlsContextBuilder {
            state: WantsServerCert {
                supported_versions: self.state.supported_versions,
                validation_context_secret_id: None,
                certificate_store: None,
            },
        }
    }

    pub fn with_client_certificate_store(self, secret_id: Option<String>, certificate_store: Arc<RootCertStore>) -> (builder:
        TlsContextBuilder<WantsClientCert>)
        ensures
            builder.state == (WantsClientCert {
                supported_versions: self.state.supported_versions,
                validation_context_secret_id: secret_id,
                certificate_store,
            }),
    {
        TlsContextBuilder {
            state: WantsClientCert {
                supported_versions: self.state.supported_versions,
                validation_context_secret_id: secret_id,
                certificate_store,
            },
        }
    }
}

impl TlsContextBuilder<WantsServerCert> {
    pub fn with_certificates(self, server_ids_and_certificates: Vec<SecretHolder>) -> (builder: TlsContextBuilder<
        WantsToVerifyClientCert,
    >)
        ensures
            builder.state == (WantsToVerifyClientCert {
                supported_versions: self.state.supported_versions,
                validation_context_secret_id: self.state.validation_context_secret_id,
                certificate_store: self.state.certificate_store,
                server_ids_and_certificates,
            }),
    {
        TlsContextBuilder {
            state: WantsToVerifyClientCert {
                supported_versions: self.state.supported_versions,
                validation_context_secret_id: self.state.validation_context_secret_id,
                certificate_store: self.state.certificate_store,
                server_ids_and_certificates,
            },
        }
    }
}

impl TlsContextBuilder<WantsToVerifyClientCert> {
    /// Completes a server context, with a ticketer made for it.
    pub fn with_client_authentication(self, require_client_cert: bool, ticketer: u64) -> (builder: TlsContextBuilder<
        WantsToBuildServer,
    >)
        ensures
            builder.state == (WantsToBuildServer {
                supported_versions: self.state.supported_versions,
                validation_context_secret_id: self.state.validation_context_secret_id,
                certificate_store: self.state.certificate_store,
                server_ids_and_certificates: self.state.server_ids_and_certificates,
                require_client_cert,
                ticketer,
            }),
    {
        TlsContextBuilder {
            state: WantsToBuildServer {
                supported_versions: self.state.supported_versions,
                validation_context_secret_id: self.state.validation_context_secret_id,
                certificate_store: self.state.certificate_store,
                server_ids_and_certificates: self.state.server_ids_and_certificates,
                require_client_cert,
                ticketer,
            },
        }
    }
}

impl TlsContextBuilder<WantsClientCert> {
    pub fn with_client_certificate(self, secret_id: Option<String>, client_certificate: Arc<ClientCert>) -> (builder:
        TlsContextBuilder<WantsSni>)
        ensures
            builder.state == (WantsSni {
                supported_versions: self.state.supported_versions,
                validation_context_secret_id: self.state.validation_context_secret_id,
                certificate_store: self.state.certificate_store,
                certificate_secret_id: secret_id,
                client_certificate: Some(client_certificate),
            }),
    {
        TlsContextBuilder {
            state: WantsSni {
                supported_versions: self.state.supported_versions,
                validation_context_secret_id: self.state.validation_context_secret_id,
                certificate_store: self.state.certificate_store,
                certificate_secret_id: secret_id,
                client_certificate: Some(client_certificate),
            },
        }
    }

    pub fn with_no_client_auth(self) -> (builder: TlsContextBuilder<WantsSni>)
        ensures
            builder.state == (WantsSni {
                supported_versions: self.state.supported_versions,
                validation_context_secret_id: self.state.validation_context_secret_id,
                certificate_store: self.state.certificate_store,
                certificate_secret_id: None,
                client_certificate: None,
            }),
    {
        TlsContextBuilder {
            state: WantsSni {
                supported_versions: self.state.supported_versions,
                validation_context_secret_id: self.state.validation_context_secret_id,
                certificate_store: self.state.certificate_store,
                certificate_secret_id: None,
                client_certificate: None,
            },
        }
    }
}

impl TlsContextBuilder<WantsSni> {
    /// Completes a client context. The chain of the upstream is verified unless that is changed later.
    pub fn with_sni(self, sni: String) -> (builder: TlsContextBuilder<WantsToBuildClient>)
        ensures
            builder.state == (WantsToBuildClient {
                supported_versions: self.state.supported_versions,
                validation_context_secret_id: self.state.validation_context_secret_id,
                certificate_store: self.state.certificate_store,
                certificate_secret_id: self.state.certificate_secret_id,
                trust_chain_verification: TrustChainVerification::VerifyTrustChain,
                client_certificate: self.state.client_certificate,
                sni,
            }),
    {
        TlsContextBuilder {
            state: WantsToBuildClient {
                supported_versions: self.state.supported_versions,
                validation_context_secret_id: self.state.validation_context_secret_id,
                certificate_store: self.state.certificate_store,
                certificate_secret_id: self.state.certificate_secret_id,
                trust_chain_verification: TrustChainVerification::VerifyTrustChain,
                client_certificate: self.state.client_certificate,
                sni,
            },
        }
    }
}

/// The names a certificate states as alternatives for its subject; `None`
/// stands for one that is no DNS name.
pub uninterp spec fn subject_alternative_names(der: Seq<u8>) -> Seq<Option<Seq<char>>>;

/// The characters of each text.
pub open spec fn texts(names: Seq<Option<String>>) -> Seq<Option<Seq<char>>> {
    names.map_values(
        |name: Option<String>|
            match name {
                Some(text) => Some(text@),
                None => None,
            },
    )
}

/// `x509_parser`: the general names of the subject alternative name extension
/// of a certificate, in order, as `parse_x509_certificate` and
/// `subject_alternative_name` read them. A certificate that cannot be read, or
/// that has no such extension, has none.
#[verifier::external_body]
fn alternative_names(der: &Vec<u8>) -> (names: Vec<Option<String>>)
    ensures
        texts(names@) == subject_alternative_names(der@),
{
    x509_parser::parse_x509_certificate(der).ok().and_then(
        |(_, cert)|
            cert.subject_alternative_name().ok().flatten().map(
                |ext|
                    ext.value.general_names.iter().map(
                        |name|
                            match name {
                                x509_parser::extensions::GeneralName::DNSName(dns) => Some((*dns).to_owned()),
                                _ => None,
                            },
                    ).collect(),
            ),
    ).unwrap_or_default()
}

/// The DNS names among some names.
pub open spec fn dns_names(names: Seq<Option<Seq<char>>>) -> Seq<Seq<char>>
    decreases names.len(),
{
    if names.len() == 0 {
        Seq::empty()
    } else {
        match names.last() {
            Some(name) => dns_names(names.drop_last()).push(name),
            None => dns_names(names.drop_last()),
        }
    }
}

/// The characters of each text.
pub open spec fn views(names: Seq<String>) -> Seq<Seq<char>> {
    names.map_values(|name: String| name@)
}

/// Some names without repetition, each where it first stands.
pub open spec fn without_repetition(names: Seq<Seq<char>>) -> Seq<Seq<char>>
    decreases names.len(),
{
    if names.len() == 0 {
        Seq::empty()
    } else {
        let front = without_repetition(names.drop_last());
        if front.contains(names.last()) {
            front
        } else {
            front.push(names.last())
        }
    }
}

/// The names a certificate is registered under: the configured one and the
/// DNS names it states, without repetition.
pub open spec fn registered_names(config_name: Seq<char>, alternatives: Seq<Option<Seq<char>>>) -> Seq<Seq<char>> {
    without_repetition(seq![config_name] + dns_names(alternatives))
}

/// The DNS names that a certificate states as alternatives for its subject.
pub fn extract_dns_sans(der: &Vec<u8>) -> (names: Vec<String>)
    ensures
        views(names@) == dns_names(subject_alternative_names(der@)),
{
    let all = alternative_names(der);
    dns_only(&all)
}

/// The DNS names among the alternatives of a certificate.
pub fn dns_only(all: &Vec<Option<String>>) -> (names: Vec<String>)
    ensures
        views(names@) == dns_names(texts(all@)),
{
    let mut names: Vec<String> = Vec::new();
    let mut i: usize = 0;
    while i < all.len()
        invariant
            i <= all@.len(),
            views(names@) == dns_names(texts(all@).take(i as int)),
        decreases all@.len() - i,
    {
        assert(texts(all@).take(i + 1).drop_last() =~= texts(all@).take(i as int));
        assert(texts(all@).take(i + 1).last() == texts(all@)[i as int]);
        if let Some(name) = &all[i] {
            let ghost before = names@;
            names.push(name.clone());
            assert(views(names@) =~= views(before).push(name@));
        }
        i = i + 1;
    }
    assert(texts(all@).take(all@.len() as int) =~= texts(all@));
    names
}

fn contains_name(names: &Vec<String>, name: &str) -> (yes: bool)
    ensures
        yes == views(names@).contains(name@),
{
    let mut i: usize = 0;
    while i < names.len()
        invariant
            i <= names@.len(),
            forall|j: int| 0 <= j < i ==> views(names@)[j] != name@,
        decreases names@.len() - i,
    {
        if str_eq(names[i].as_str(), name) {
            assert(views(names@)[i as int] == name@);
            return true;
        }
        i = i + 1;
    }
    false
}

/// The names a certificate is registered under, given the DNS names it states.
pub fn names_to_register(config_name: &str, sans: &Vec<String>) -> (names: Vec<String>)
    ensures
        views(names@) == without_repetition(seq![config_name@] + views(sans@)),
{
    let mut names: Vec<String> = Vec::new();
    names.push(config_name.to_owned());
    let ghost all = seq![config_name@] + views(sans@);
    proof {
        assert(all.take(1) =~= seq![config_name@]);
        assert(all.take(1).drop_last() =~= Seq::<Seq<char>>::empty());
        assert(without_repetition(all.take(1).drop_last()) =~= Seq::<Seq<char>>::empty());
        assert(views(names@) =~= without_repetition(all.take(1)));
    }
    let mut i: usize = 0;
    while i < sans.len()
        invariant
            i <= sans@.len(),
            all == seq![config_name@] + views(sans@),
            views(names@) == without_repetition(all.take(i + 1)),
        decreases sans@.len() - i,
    {
        assert(all.take(i + 2).drop_last() =~= all.take(i + 1));
        assert(all.take(i + 2).last() == sans@[i as int]@);
        if !contains_name(&names, sans[i].as_str()) {
            let ghost before = names@;
            names.push(sans[i].clone());
            assert(views(names@) =~= views(before).push(sans@[i as int]@));
        }
        i = i + 1;
    }
    assert(all.take(sans@.len() as int + 1) =~= all);
    names
}

/// Why a context could not be built.
#[derive(Debug)]
pub enum BuildError {
    /// Clients must show a certificate and there is nothing to verify it against.
    NoValidationContext,
    /// The store that others are verified against is empty.
    NoRootAnchors,
    /// The key of the only certificate cannot be used, for a reason.
    UnusableKey(String),
    /// So many certificates could not be registered under one of their names.
    Certificates(u64),
}

impl BuildError {
    pub open spec fn spec_message(self) -> Seq<char> {
        match self {
            BuildError::NoValidationContext =>
                "requireClientCertificate is true but no validation_context is configured"@,
            BuildError::NoRootAnchors => "no root trust anchors were provided"@,
            BuildError::UnusableKey(why) => why@,
            BuildError::Certificates(errors) => "Found "@ + decimal(errors as nat) + " errors in Tls context"@,
        }
    }

    /// The text shown to an operator.
    pub fn message(&self) -> (text: String)
        ensures
            text@ == self.spec_message(),
    {
        match self {
            BuildError::NoValidationContext =>
                "requireClientCertificate is true but no validation_context is configured".to_owned(),
            BuildError::NoRootAnchors => "no root trust anchors were provided".to_owned(),
            BuildError::UnusableKey(why) => why.clone(),
            BuildError::Certificates(errors) => {
                let mut text = "Found ".to_owned();
                append_decimal(&mut text, *errors);
                text.append(" errors in Tls context");
                text
            },
        }
    }
}

/// Whether clients show a certificate.
#[derive(Debug, Clone, Copy, PartialEq, Eq, Structural)]
pub enum ClientAuth {
    NotAsked,
    Optional,
    Required,
}

/// Where a server takes its certificates from.
#[derive(Debug)]
pub enum CertificatePlan {
    /// The only certificate, for every client.
    Single,
    /// One by the name that the client asks for.
    BySni(RelaxedResolvesServerCertUsingSni),
}

/// What a server's TLS stack is to be configured with. Sessions are resumed
/// from tickets alone: nothing is stored.
#[derive(Debug)]
pub struct ServerPlan {
    pub client_auth: ClientAuth,
    pub certificates: CertificatePlan,
    pub ticketer: u64,
    pub stores_sessions: bool,
}

/// How clients are verified, where that can be done.
pub open spec fn client_auth_of(require_client_cert: bool, has_store: bool) -> Option<ClientAuth> {
    if require_client_cert && !has_store {
        None
    } else if require_client_cert {
        Some(ClientAuth::Required)
    } else if has_store {
        Some(ClientAuth::Optional)
    } else {
        Some(ClientAuth::NotAsked)
    }
}

/// The DER of the first certificate of a chain, or nothing.
pub open spec fn leaf_of(certs: Seq<Vec<u8>>) -> Seq<u8> {
    if certs.len() > 0 {
        certs[0]@
    } else {
        Seq::empty()
    }
}

/// Whether a certificate can be added under a name.
pub open spec fn name_fits(name: Seq<char>, der: Seq<u8>) -> bool {
    is_server_name(tested_name(ascii_lowercase(name))) && certificate_covers(der, tested_name(ascii_lowercase(name)))
}

/// A resolver with a certificate added under those of some names that fit.
pub open spec fn added_under(resolver: ResolverView, names: Seq<Seq<char>>, der: Seq<u8>, cert: u64) -> ResolverView
    decreases names.len(),
{
    if names.len() == 0 {
        resolver
    } else {
        let front = added_under(resolver, names.drop_last(), der, cert);
        if name_fits(names.last(), der) {
            front.added(ascii_lowercase(names.last()), cert)
        } else {
            front
        }
    }
}

/// Whether a certificate fits all of some names.
pub open spec fn fits_all(names: Seq<Seq<char>>, der: Seq<u8>) -> bool {
    forall|i: int| 0 <= i < names.len() ==> name_fits(#[trigger] names[i], der)
}

/// The names the certificate of a holder is registered under.
pub open spec fn names_of(holder: SecretHolder) -> Seq<Seq<char>> {
    registered_names(holder.server_cert.name@, subject_alternative_names(leaf_of(holder.server_cert.certs@)))
}

/// The resolver of some holders. A holder whose private key could not be
/// loaded, which has no number, is passed over.
pub open spec fn resolver_of(holders: Seq<SecretHolder>, loaded: Seq<LoadedKey>) -> ResolverView
    decreases holders.len(),
{
    if holders.len() == 0 {
        ResolverView::empty()
    } else {
        let front = resolver_of(holders.drop_last(), loaded);
        match loaded[holders.len() - 1] {
            Ok(cert) => added_under(front, names_of(holders.last()), leaf_of(holders.last().server_cert.certs@), cert),
            Err(_) => front,
        }
    }
}

/// The holders whose key was loaded and whose certificate does not fit one of its names.
pub open spec fn failures(holders: Seq<SecretHolder>, loaded: Seq<LoadedKey>) -> nat
    decreases holders.len(),
{
    if holders.len() == 0 {
        0
    } else {
        let last = holders.last();
        let failed = loaded[holders.len() - 1] is Ok && !fits_all(names_of(last), leaf_of(last.server_cert.certs@));
        failures(holders.drop_last(), loaded) + (if failed {
            1nat
        } else {
            0nat
        })
    }
}

/// Whether `res` is what building a server context comes to.
pub open spec fn plan_built(
    state: WantsToBuildServer,
    loaded: Seq<LoadedKey>,
    res: Result<ServerPlan, BuildError>,
) -> bool {
    let holders = state.server_ids_and_certificates@;
    match client_auth_of(state.require_client_cert, state.certificate_store is Some) {
        None => res == Err::<ServerPlan, BuildError>(BuildError::NoValidationContext),
        Some(client_auth) => if state.certificate_store matches Some(store) && store.roots@.len() == 0 {
            res == Err::<ServerPlan, BuildError>(BuildError::NoRootAnchors)
        } else if holders.len() == 1 {
            match loaded[0] {
                Ok(_) => res matches Ok(plan) && plan.client_auth == client_auth && plan.certificates is Single
                    && plan.ticketer == state.ticketer && !plan.stores_sessions,
                Err(why) => res matches Err(BuildError::UnusableKey(text)) && text@ == why@,
            }
        } else if failures(holders, loaded) > 0 {
            res == Err::<ServerPlan, BuildError>(BuildError::Certificates(failures(holders, loaded) as u64))
        } else {
            &&& res matches Ok(plan)
            &&& plan.client_auth == client_auth
            &&& plan.certificates matches CertificatePlan::BySni(resolver)
            &&& resolver@ == resolver_of(holders, loaded)
            &&& plan.ticketer == state.ticketer
            &&& !plan.stores_sessions
        },
    }
}

fn leaf(certs: &Arc<Vec<Vec<u8>>>) -> (der: Vec<u8>)
    ensures
        der@ == leaf_of(certs@),
{
    if certs.len() > 0 {
        let der: Vec<u8> = certs[0].clone();
        assert(der@ =~= certs@[0]@);
        der
    } else {
        Vec::new()
    }
}

fn add_under_names(
    resolver: &mut RelaxedResolvesServerCertUsingSni,
    names: &Vec<String>,
    der: &Vec<u8>,
    cert: u64,
) -> (failed: bool)
    ensures
        final(resolver)@ == added_under(old(resolver)@, views(names@), der@, cert),
        failed == !fits_all(views(names@), der@),
{
    let mut failed: bool = false;
    let mut i: usize = 0;
    while i < names.len()
        invariant
            i <= names@.len(),
            resolver@ == added_under(old(resolver)@, views(names@).take(i as int), der@, cert),
            failed == !fits_all(views(names@).take(i as int), der@),
        decreases names@.len() - i,
    {
        let ghost taken = views(names@).take(i + 1);
        assert(taken.drop_last() =~= views(names@).take(i as int));
        assert(taken.last() == names@[i as int]@);
        let added = resolver.add(names[i].as_str(), der, cert);
        proof {
            if fits_all(taken, der@) {
                assert(name_fits(taken[i as int], der@));
                assert forall|j: int| 0 <= j < i implies name_fits(
                    #[trigger] views(names@).take(i as int)[j],
                    der@,
                ) by {
                    assert(name_fits(taken[j], der@));
                }
            } else if fits_all(views(names@).take(i as int), der@) {
                let j = choose|j: int| 0 <= j < taken.len() && !name_fits(#[trigger] taken[j], der@);
                if j < i {
                    assert(name_fits(views(names@).take(i as int)[j], der@));
                }
            }
        }
        if added.is_err() {
            failed = true;
        }
        i = i + 1;
    }
    assert(views(names@).take(names@.len() as int) =~= views(names@));
    failed
}

impl TlsContextBuilder<WantsToBuildServer> {
    /// Keeps the ticket keys of an earlier context.
    pub fn with_ticketer(self, ticketer: u64) -> (builder: TlsContextBuilder<WantsToBuildServer>)
        ensures
            builder.state == (WantsToBuildServer { ticketer, ..self.state }),
    {
        TlsContextBuilder { state: WantsToBuildServer { ticketer, ..self.state } }
    }

    /// Plans the server's TLS stack. `loaded` holds, for each certificate, the
    /// number under which its private key was loaded, or why it could not be.
    /// Where there is a store to verify clients against, it may not be empty.
    ///
    /// A single certificate is shown to every client, whatever names it is
    /// issued for; its key has to be usable. Several are chosen among by the
    /// name the client asks for; one without a usable key is passed over.
    pub fn build(&self, loaded: &Vec<LoadedKey>) -> (res: Result<ServerPlan, BuildError>)
        requires
            loaded@.len() == self.state.server_ids_and_certificates@.len(),
        ensures
            plan_built(self.state, loaded@, res),
    {
        let client_auth = match (self.state.require_client_cert, &self.state.certificate_store) {
            (true, None) => {
                return Err(BuildError::NoValidationContext);
            },
            (true, Some(_)) => ClientAuth::Required,
            (false, Some(_)) => ClientAuth::Optional,
            (false, None) => ClientAuth::NotAsked,
        };
        match &self.state.certificate_store {
            Some(store) => {
                if store.roots.len() == 0 {
                    return Err(BuildError::NoRootAnchors);
                }
            },
            None => {},
        }
        let holders: &Vec<SecretHolder> = &self.state.server_ids_and_certificates;
        if holders.len() == 1 {
            if let Err(why) = &loaded[0] {
                return Err(BuildError::UnusableKey(why.clone()));
            }
            return Ok(
                ServerPlan {
                    client_auth,
                    certificates: CertificatePlan::Single,
                    ticketer: self.state.ticketer,
                    stores_sessions: false,
                },
            );
        }
        let mut resolver = RelaxedResolvesServerCertUsingSni::new();
        let mut errors: u64 = 0;
        let mut i: usize = 0;
        while i < holders.len()
            invariant
                i <= holders@.len(),
                holders@.len() == loaded@.len(),
                resolver@ == resolver_of(holders@.take(i as int), loaded@),
                errors == failures(holders@.take(i as int), loaded@),
                errors <= i,
            decreases holders@.len() - i,
        {
            assert(holders@.take(i + 1).drop_last() =~= holders@.take(i as int));
            assert(holders@.take(i + 1).last() == holders@[i as int]);
            if let Ok(cert) = &loaded[i] {
                let der: Vec<u8> = leaf(&holders[i].server_cert.certs);
                let sans: Vec<String> = extract_dns_sans(&der);
                let names: Vec<String> = names_to_register(holders[i].server_cert.name.as_str(), &sans);
                let failed: bool = add_under_names(&mut resolver, &names, &der, *cert);
                if failed {
                    errors = errors + 1;
                }
            }
            i = i + 1;
        }
        assert(holders@.take(holders@.len() as int) =~= holders@);
        if errors > 0 {
            Err(BuildError::Certificates(errors))
        } else {
            Ok(
                ServerPlan {
                    client_auth,
                    certificates: CertificatePlan::BySni(resolver),
                    ticketer: self.state.ticketer,
                    stores_sessions: false,
                },
            )
        }
    }
}

/// What a client's TLS stack is to be configured with.
#[derive(Debug)]
pub struct ClientPlan {
    pub verification: TrustChainVerification,
    pub certificate_store: Arc<RootCertStore>,
    pub client_certificate: Option<Arc<ClientCert>>,
}

impl TlsContextBuilder<WantsToBuildClient> {
    pub fn with_trust_chain_verification(self, trust_chain_verification: TrustChainVerification) -> (builder:
        TlsContextBuilder<WantsToBuildClient>)
        ensures
            builder.state == (WantsToBuildClient { trust_chain_verification, ..self.state }),
    {
        TlsContextBuilder { state: WantsToBuildClient { trust_chain_verification, ..self.state } }
    }

    /// Plans the client's TLS stack. Upstreams that are verified need a store
    /// that is not empty; a certificate of its own, a key that can be used.
    pub fn build(&self, loaded: &LoadedKey) -> (res: Result<ClientPlan, BuildError>)
        ensures
            client_plan_built(self.state, *loaded, res),
    {
        match self.state.trust_chain_verification {
            TrustChainVerification::VerifyTrustChain => {
                if self.state.certificate_store.roots.len() == 0 {
                    return Err(BuildError::NoRootAnchors);
                }
            },
            TrustChainVerification::AcceptUntrusted => {},
        }
        if let Err(why) = loaded {
            if self.state.client_certificate.is_some() {
                return Err(BuildError::UnusableKey(why.clone()));
            }
        }
        Ok(
            ClientPlan {
                verification: self.state.trust_chain_verification,
                certificate_store: self.state.certificate_store.clone(),
                client_certificate: match &self.state.client_certificate {
                    Some(cert) => Some(cert.clone()),
                    None => None,
                },
            },
        )
    }
}

/// Whether `res` is what building a client context comes to. Whether a key
/// was loaded counts only where the client has a certificate.
pub open spec fn client_plan_built(
    state: WantsToBuildClient,
    loaded: LoadedKey,
    res: Result<ClientPlan, BuildError>,
) -> bool {
    if state.trust_chain_verification == TrustChainVerification::VerifyTrustChain && state.certificate_store.roots@.len()
        == 0 {
        res == Err::<ClientPlan, BuildError>(BuildError::NoRootAnchors)
    } else if state.client_certificate is Some && loaded is Err {
        res matches Err(BuildError::UnusableKey(text)) && text@ == loaded->Err_0@
    } else {
        &&& res matches Ok(plan)
        &&& plan.verification == state.trust_chain_verification
        &&& plan.certificate_store == state.certificate_store
        &&& plan.client_certificate == state.client_certificate
    }
}

/// Whether a server reads the tickets that another has issued: that takes the
/// same keys. As neither stores sessions, a client that comes with such a
/// ticket is the only one that can resume.
pub open spec fn reads_tickets_of(plan: ServerPlan, issuer: ServerPlan) -> bool {
    plan.ticketer == issuer.ticketer
}

/// Contexts that are built from one builder, or from copies of it, resume
/// from tickets alone and read each other's, whatever keys could be loaded
/// for their certificates. A context of a builder with other ticket keys
/// reads none of them.
pub proof fn law_rebuilt_contexts_share_tickets(
    builder: TlsContextBuilder<WantsToBuildServer>,
    first_loaded: Seq<LoadedKey>,
    first: ServerPlan,
    again_loaded: Seq<LoadedKey>,
    again: ServerPlan,
    unrelated: TlsContextBuilder<WantsToBuildServer>,
    other_loaded: Seq<LoadedKey>,
    other: ServerPlan,
)
    requires
        plan_built(builder.state, first_loaded, Ok(first)),
        plan_built(builder.state, again_loaded, Ok(again)),
        plan_built(unrelated.state, other_loaded, Ok(other)),
        unrelated.state.ticketer != builder.state.ticketer,
    ensures
        !first.stores_sessions && !again.stores_sessions && !other.stores_sessions,
        reads_tickets_of(first, first),
        reads_tickets_of(again, first),
        reads_tickets_of(first, again),
        !reads_tickets_of(other, first),
{
}

/// Adding a certificate that fits a list of names serves every one of them
/// that is no wildcard.
pub proof fn law_registered_names_resolve(
    resolver: ResolverView,
    names: Seq<Seq<char>>,
    der: Seq<u8>,
    cert: u64,
    i: int,
)
    requires
        0 <= i < names.len(),
        fits_all(names, der),
        !crate::sni_resolver::is_wildcard(ascii_lowercase(names[i])),
    ensures
        added_under(resolver, names, der, cert).resolved(Some(ascii_lowercase(names[i]))) == Some(cert),
    decreases names.len(),
{
    let last = names.len() - 1;
    assert(name_fits(names[last], der));
    if i < last {
        assert forall|j: int| 0 <= j < names.drop_last().len() implies name_fits(
            #[trigger] names.drop_last()[j],
            der,
        ) by {
            assert(names.drop_last()[j] == names[j]);
        }
        assert(names.drop_last()[i] == names[i]);
        law_registered_names_resolve(resolver, names.drop_last(), der, cert, i);
        lemma_added_under_has_name(resolver, names.drop_last(), der, cert, i);
    }
}

proof fn lemma_added_under_has_name(
    resolver: ResolverView,
    names: Seq<Seq<char>>,
    der: Seq<u8>,
    cert: u64,
    i: int,
)
    requires
        0 <= i < names.len(),
        fits_all(names, der),
        !crate::sni_resolver::is_wildcard(ascii_lowercase(names[i])),
    ensures
        added_under(resolver, names, der, cert).by_name.contains_key(ascii_lowercase(names[i])),
        added_under(resolver, names, der, cert).by_name[ascii_lowercase(names[i])] == cert,
    decreases names.len(),
{
    let last = names.len() - 1;
    assert(name_fits(names[last], der));
    if i < last {
        assert forall|j: int| 0 <= j < names.drop_last().len() implies name_fits(
            #[trigger] names.drop_last()[j],
            der,
        ) by {
            assert(names.drop_last()[j] == names[j]);
        }
        lemma_added_under_has_name(resolver, names.drop_last(), der, cert, i);
    }
}

proof fn lemma_without_repetition(names: Seq<Seq<char>>, name: Seq<char>)
    ensures
        without_repetition(names).contains(name) <==> names.contains(name),
        without_repetition(names).no_duplicates(),
    decreases names.len(),
{
    if names.len() > 0 {
        let front = names.drop_last();
        let kept = without_repetition(front);
        lemma_without_repetition(front, name);
        lemma_without_repetition(front, names.last());
        assert(names =~= front.push(names.last()));
        assert forall|x: Seq<char>| #[trigger] kept.push(names.last()).contains(x) <==> kept.contains(x) || x
            == names.last() by {
            if kept.contains(x) {
                let i = choose|i: int| 0 <= i < kept.len() && kept[i] == x;
                assert(kept.push(names.last())[i] == x);
            }
            assert(kept.push(names.last())[kept.len() as int] == names.last());
        }
        if front.contains(name) {
            let i = choose|i: int| 0 <= i < front.len() && front[i] == name;
            assert(names[i] == name);
        }
        assert(names[names.len() - 1] == names.last());
        if names.contains(name) && name != names.last() {
            let i = choose|i: int| 0 <= i < names.len() && names[i] == name;
            assert(front[i] == name);
        }
    }
}

proof fn lemma_dns_names(names: Seq<Option<Seq<char>>>, name: Seq<char>)
    ensures
        dns_names(names).contains(name) <==> names.contains(Some(name)),
    decreases names.len(),
{
    if names.len() > 0 {
        let front = names.drop_last();
        let found = dns_names(front);
        lemma_dns_names(front, name);
        if front.contains(Some(name)) {
            let i = choose|i: int| 0 <= i < front.len() && front[i] == Some(name);
            assert(names[i] == Some(name));
        }
        assert(names[names.len() - 1] == names.last());
        if names.contains(Some(name)) && names.last() != Some(name) {
            let i = choose|i: int| 0 <= i < names.len() && names[i] == Some(name);
            assert(front[i] == Some(name));
        }
        if names.last() is Some {
            let all = found.push(names.last()->0);
            if found.contains(name) {
                let i = choose|i: int| 0 <= i < found.len() && found[i] == name;
                assert(all[i] == name);
            }
            if names.last() == Some(name) {
                assert(all[found.len() as int] == name);
            }
            if all.contains(name) && names.last() != Some(name) {
                let i = choose|i: int| 0 <= i < all.len() && all[i] == name;
                assert(found[i] == name);
            }
        }
    }
}

/// A certificate is registered under its configured name and under each DNS
/// name that it states, under each once and under no other.
pub proof fn law_certificate_is_registered_under_its_names(
    config_name: Seq<char>,
    alternatives: Seq<Option<Seq<char>>>,
    name: Seq<char>,
)
    ensures
        registered_names(config_name, alternatives).contains(name) <==> name == config_name || alternatives.contains(
            Some(name),
        ),
        registered_names(config_name, alternatives).no_duplicates(),
{
    let dns = dns_names(alternatives);
    let all = seq![config_name] + dns;
    lemma_without_repetition(all, name);
    lemma_dns_names(alternatives, name);
    assert(all[0] == config_name);
    if dns.contains(name) {
        let i = choose|i: int| 0 <= i < dns.len() && dns[i] == name;
        assert(all[i + 1] == name);
    }
    if all.contains(name) && name != config_name {
        let i = choose|i: int| 0 <= i < all.len() && all[i] == name;
        assert(dns[i - 1] == name);
    }
}

/// Clients are asked for a certificate exactly where there is a store to hold
/// it against, and must have one exactly where that is required. To require
/// one without a store is an error, and a store without roots is another.
pub proof fn law_clients_are_asked_as_configured(
    state: WantsToBuildServer,
    loaded: Seq<LoadedKey>,
    res: Result<ServerPlan, BuildError>,
)
    requires
        plan_built(state, loaded, res),
    ensures
        res matches Ok(plan) ==> {
            &&& plan.client_auth == ClientAuth::NotAsked <==> state.certificate_store is None
            &&& plan.client_auth == ClientAuth::Required <==> state.require_client_cert
        },
        state.require_client_cert && state.certificate_store is None ==> res is Err,
        state.certificate_store is Some && state.certificate_store->0.roots@.len() == 0 ==> res is Err,
{
}

/// A server with a single certificate always shows that one; it can be built
/// exactly where its key can be used. One with several chooses among them by name.
pub proof fn law_single_certificate_needs_its_key(
    state: WantsToBuildServer,
    loaded: Seq<LoadedKey>,
    res: Result<ServerPlan, BuildError>,
)
    requires
        plan_built(state, loaded, res),
        !state.require_client_cert,
        state.certificate_store is None,
    ensures
        state.server_ids_and_certificates@.len() == 1 ==> (res is Ok <==> loaded[0] is Ok),
        res matches Ok(plan) ==> (plan.certificates is Single <==> state.server_ids_and_certificates@.len() == 1),
{
}

/// A client that verifies the chain of trust cannot be built without roots,
/// and none can be built with a certificate whose key cannot be used. Any
/// other can, and keeps its roots and its certificate.
pub proof fn law_client_is_built_where_it_can_verify(
    state: WantsToBuildClient,
    loaded: LoadedKey,
    res: Result<ClientPlan, BuildError>,
)
    requires
        client_plan_built(state, loaded, res),
    ensures
        res is Err <==> state.trust_chain_verification == TrustChainVerification::VerifyTrustChain
            && state.certificate_store.roots@.len() == 0 || state.client_certificate is Some && loaded is Err,
        res matches Ok(plan) ==> {
            &&& plan.verification == state.trust_chain_verification
            &&& plan.certificate_store == state.certificate_store
            &&& plan.client_certificate == state.client_certificate
        },
{
}

} // verus!
