//! TLS contexts that follow the secrets they were made from.

use crate::headers::text_of;
use crate::text::str_eq;
use crate::tls_builder::{
    client_plan_built, plan_built, reads_tickets_of, BuildError, ClientCert, ClientPlan, LoadedKey, RootCertStore,
    SecretHolder, ServerCert, ServerPlan, TlsContextBuilder, TlsVersion, TrustChainVerification, WantsToBuildClient,
    WantsToBuildServer,
};
use std::sync::Arc;
use vstd::prelude::*;

verus! {

/// A certificate with its key, as a secret holds it.
#[derive(Debug)]
pub struct CertificateSecret {
    pub name: Option<String>,
    pub key: Arc<Vec<u8>>,
    pub certs: Arc<Vec<Vec<u8>>>,
}

/// A secret of the transport layer.
#[derive(Debug)]
pub enum TransportSecret {
    Certificate(CertificateSecret),
    ValidationContext(Arc<RootCertStore>),
}

/// A text that may be missing, as programmers are shown it.
pub uninterp spec fn debug_text(text: Option<Seq<char>>) -> Seq<char>;

/// `std::fmt::Debug` of `Option<String>`, through `format`: the text as
/// programmers are shown it.
#[verifier::external_body]
fn show_debug(text: &Option<String>) -> (shown: String)
    ensures
        shown@ == debug_text(text_of(*text)),
{
    format!("{text:?}")
}

/// Why a context could not be made or updated.
#[derive(Debug)]
pub enum TlsError {
    /// A secret holds a certificate where a store is wanted.
    CertificateIsNoStore,
    /// A secret holds a store where a server certificate is wanted.
    StoreIsNoServerCertificate,
    /// A secret holds a store where a client certificate is wanted.
    StoreIsNoClientCertificate,
    NoServerName,
    TooManyClientCertificates,
    /// No certificate of a server comes from the secret of that name.
    SecretNotFound(String),
    /// A store was changed that the server does not use; it uses that of another secret, or of none.
    StoreNotFound { id: String, expected: Option<String> },
    /// A certificate was changed that the client does not use.
    CertificateMismatch { id: String, expected: Option<String> },
    /// A store was changed that the client does not use.
    StoreMismatch { id: String, expected: Option<String> },
    DuplicateSecret(String),
    NoValidationOptions,
    Build(BuildError),
}

impl TlsError {
    pub open spec fn spec_message(&self) -> Seq<char> {
        match self {
            TlsError::CertificateIsNoStore => "TransportSecret certificate is not supported for root cert store"@,
            TlsError::StoreIsNoServerCertificate =>
                "TransportSecret ValidationContext is not supported for server certificate"@,
            TlsError::StoreIsNoClientCertificate =>
                "TransportSecret ValidationContext is not supported for client certificate"@,
            TlsError::NoServerName => "secret doesn't contain server name"@,
            TlsError::TooManyClientCertificates => "Only one client certificate should be configured"@,
            TlsError::SecretNotFound(id) => "Can't find secret "@ + id@,
            TlsError::StoreNotFound { id, expected } => "Can't find secret "@ + id@ + " "@ + debug_text(
                text_of(*expected),
            ),
            TlsError::CertificateMismatch { id, expected } => "Secret name doesn't match "@ + id@ + "  "@
                + debug_text(text_of(*expected)),
            TlsError::StoreMismatch { id, expected } => "Secret name doesn't match "@ + id@ + " "@ + debug_text(
                text_of(*expected),
            ),
            TlsError::DuplicateSecret(id) => "DownstreamTlsContext : Duplicate secret name "@ + id@,
            TlsError::NoValidationOptions => "UpstreamContext : no TLS validation options found"@,
            TlsError::Build(e) => e.spec_message(),
        }
    }

    /// The text shown to an operator.
    pub fn message(&self) -> (text: String)
        ensures
            text@ == self.spec_message(),
    {
        match self {
            TlsError::CertificateIsNoStore =>
                "TransportSecret certificate is not supported for root cert store".to_owned(),
            TlsError::StoreIsNoServerCertificate =>
                "TransportSecret ValidationContext is not supported for server certificate".to_owned(),
            TlsError::StoreIsNoClientCertificate =>
                "TransportSecret ValidationContext is not supported for client certificate".to_owned(),
            TlsError::NoServerName => "secret doesn't contain server name".to_owned(),
            TlsError::TooManyClientCertificates => "Only one client certificate should be configured".to_owned(),
            TlsError::SecretNotFound(id) => {
                let mut text = "Can't find secret ".to_owned();
                text.append(id.as_str());
                text
            },
            TlsError::StoreNotFound { id, expected } => {
                let mut text = "Can't find secret ".to_owned();
                text.append(id.as_str());
                text.append(" ");
                text.append(show_debug(expected).as_str());
                text
            },
            TlsError::CertificateMismatch { id, expected } => {
                let mut text = "Secret name doesn't match ".to_owned();
                text.append(id.as_str());
                text.append("  ");
                text.append(show_debug(expected).as_str());
                text
            },
            TlsError::StoreMismatch { id, expected } => {
                let mut text = "Secret name doesn't match ".to_owned();
                text.append(id.as_str());
                text.append(" ");
                text.append(show_debug(expected).as_str());
                text
            },
            TlsError::DuplicateSecret(id) => {
                let mut text = "DownstreamTlsContext : Duplicate secret name ".to_owned();
                text.append(id.as_str());
                text
            },
            TlsError::NoValidationOptions => "UpstreamContext : no TLS validation options found".to_owned(),
            TlsError::Build(e) => e.message(),
        }
    }
}

/// The client certificate of a secret.
pub fn client_cert_from(secret: &CertificateSecret) -> (cert: ClientCert)
    ensures
        cert.key == secret.key,
        cert.certs == secret.certs,
{
    ClientCert { key: secret.key.clone(), certs: secret.certs.clone() }
}

/// The server certificate of a secret, which must state a server name.
pub fn server_cert_from(secret: &CertificateSecret) -> (res: Result<ServerCert, TlsError>)
    ensures
        match secret.name {
            Some(name) => res matches Ok(cert) && cert.name@ == name@ && cert.key == secret.key && cert.certs
                == secret.certs,
            None => res == Err::<ServerCert, TlsError>(TlsError::NoServerName),
        },
{
    match &secret.name {
        Some(name) => Ok(ServerCert { name: name.clone(), key: secret.key.clone(), certs: secret.certs.clone() }),
        None => Err(TlsError::NoServerName),
    }
}

/// The store of a secret.
pub fn root_store_of(secret: TransportSecret) -> (res: Result<Arc<RootCertStore>, TlsError>)
    ensures
        match secret {
            TransportSecret::ValidationContext(store) => res == Ok::<Arc<RootCertStore>, TlsError>(store),
            TransportSecret::Certificate(_) => res == Err::<Arc<RootCertStore>, TlsError>(
                TlsError::CertificateIsNoStore,
            ),
        },
{
    match secret {
        TransportSecret::ValidationContext(store) => Ok(store),
        TransportSecret::Certificate(_) => Err(TlsError::CertificateIsNoStore),
    }
}

/// The server certificate of a secret.
pub fn server_cert_of(secret: &TransportSecret) -> (res: Result<ServerCert, TlsError>)
    ensures
        match secret {
            TransportSecret::ValidationContext(_) => res == Err::<ServerCert, TlsError>(
                TlsError::StoreIsNoServerCertificate,
            ),
            TransportSecret::Certificate(certificate) => match certificate.name {
                Some(name) => res matches Ok(cert) && cert.name@ == name@ && cert.key == certificate.key && cert.certs
                    == certificate.certs,
                None => res == Err::<ServerCert, TlsError>(TlsError::NoServerName),
            },
        },
{
    match secret {
        TransportSecret::Certificate(certificate) => server_cert_from(certificate),
        TransportSecret::ValidationContext(_) => Err(TlsError::StoreIsNoServerCertificate),
    }
}

/// The client certificate of a secret.
pub fn client_cert_of(secret: &TransportSecret) -> (res: Result<ClientCert, TlsError>)
    ensures
        match secret {
            TransportSecret::ValidationContext(_) => res == Err::<ClientCert, TlsError>(
                TlsError::StoreIsNoClientCertificate,
            ),
            TransportSecret::Certificate(certificate) => res matches Ok(cert) && cert.key == certificate.key
                && cert.certs == certificate.certs,
        },
{
    match secret {
        TransportSecret::Certificate(certificate) => Ok(client_cert_from(certificate)),
        TransportSecret::ValidationContext(_) => Err(TlsError::StoreIsNoClientCertificate),
    }
}

/// The only client certificate among those configured.
pub fn only_client_cert(certificates: &Vec<CertificateSecret>) -> (res: Result<ClientCert, TlsError>)
    requires
        certificates@.len() > 0,
    ensures
        certificates@.len() > 1 <==> res == Err::<ClientCert, TlsError>(TlsError::TooManyClientCertificates),
        certificates@.len() == 1 ==> (res matches Ok(cert) && cert.key == certificates@[0].key && cert.certs
            == certificates@[0].certs),
{
    if certificates.len() > 1 {
        return Err(TlsError::TooManyClientCertificates);
    }
    Ok(client_cert_from(&certificates[0]))
}

/// What a context verifies the certificates of others against.
#[derive(Debug)]
pub enum ValidationOption {
    /// A store stated in the configuration.
    Inline(Arc<RootCertStore>),
    /// The secret of a name; with its content, where the secret is there.
    Secret { name: String, found: Option<TransportSecret> },
}

/// The store of a context and the secret it follows. A secret that is not
/// there yet counts as an empty store.
pub fn create_certificate_store(validation: Option<ValidationOption>) -> (res: Result<
    (Option<String>, Option<Arc<RootCertStore>>),
    TlsError,
>)
    ensures
        match validation {
            None => res matches Ok(made) && made.0 is None && made.1 is None,
            Some(ValidationOption::Inline(store)) => res matches Ok(made) && made.0 is None && made.1 == Some(store),
            Some(ValidationOption::Secret { name, found }) => match found {
                None => {
                    &&& res matches Ok(made)
                    &&& made.0 == Some(name)
                    &&& made.1 matches Some(store)
                    &&& store.roots@.len() == 0
                },
                Some(TransportSecret::ValidationContext(store)) => res matches Ok(made) && made.0 == Some(name)
                    && made.1 == Some(store),
                Some(TransportSecret::Certificate(_)) => res matches Err(TlsError::CertificateIsNoStore),
            },
        },
{
    match validation {
        None => Ok((None, None)),
        Some(ValidationOption::Inline(store)) => Ok((None, Some(store))),
        Some(ValidationOption::Secret { name, found }) => match found {
            None => Ok((Some(name), Some(Arc::new(RootCertStore { roots: Vec::new() })))),
            Some(secret) => match root_store_of(secret) {
                Ok(store) => Ok((Some(name), Some(store))),
                Err(e) => Err(e),
            },
        },
    }
}

/// Whether a name is among those of some holders.
pub open spec fn holder_named(holders: Seq<SecretHolder>, name: Seq<char>) -> bool {
    exists|i: int| 0 <= i < holders.len() && #[trigger] holders[i].name@ == name
}

/// The position of the first holder for a secret.
pub open spec fn first_holder(holders: Seq<SecretHolder>, name: Seq<char>) -> int
    decreases holders.len(),
{
    if holders.len() == 0 || holders[0].name@ == name {
        0
    } else {
        1 + first_holder(holders.drop_first(), name)
    }
}

proof fn lemma_first_holder(holders: Seq<SecretHolder>, name: Seq<char>, at: int)
    requires
        0 <= at <= holders.len(),
        at < holders.len() ==> holders[at].name@ == name,
        forall|i: int| 0 <= i < at ==> #[trigger] holders[i].name@ != name,
    ensures
        first_holder(holders, name) == at,
    decreases holders.len(),
{
    if at > 0 {
        assert(holders[0].name@ != name);
        let rest = holders.drop_first();
        assert forall|i: int| 0 <= i < at - 1 implies #[trigger] rest[i].name@ != name by {
            assert(rest[i] == holders[i + 1]);
        }
        lemma_first_holder(rest, name, at - 1);
    }
}

fn find_holder(holders: &Vec<SecretHolder>, name: &str) -> (at: Option<usize>)
    ensures
        match at {
            Some(i) => i < holders@.len() && i == first_holder(holders@, name@) && holder_named(holders@, name@),
            None => !holder_named(holders@, name@),
        },
{
    let mut i: usize = 0;
    while i < holders.len()
        invariant
            i <= holders@.len(),
            forall|j: int| 0 <= j < i ==> #[trigger] holders@[j].name@ != name@,
        decreases holders@.len() - i,
    {
        if str_eq(holders[i].name.as_str(), name) {
            proof {
                lemma_first_holder(holders@, name@, i as int);
            }
            return Some(i);
        }
        i = i + 1;
    }
    None
}

/// The secrets of a list that hold a certificate.
pub open spec fn present(secrets: Seq<(String, Option<TransportSecret>)>) -> Seq<(String, TransportSecret)>
    decreases secrets.len(),
{
    if secrets.len() == 0 {
        Seq::empty()
    } else {
        match secrets.last().1 {
            Some(secret) => present(secrets.drop_last()).push((secrets.last().0, secret)),
            None => present(secrets.drop_last()),
        }
    }
}

/// Whether a holder was made from a secret.
pub open spec fn made_from(holder: SecretHolder, named: (String, TransportSecret)) -> bool {
    &&& holder.name@ == named.0@
    &&& named.1 matches TransportSecret::Certificate(certificate)
    &&& certificate.name matches Some(name)
    &&& holder.server_cert.name@ == name@
    &&& holder.server_cert.key == certificate.key
    &&& holder.server_cert.certs == certificate.certs
}

/// Whether a secret makes a server certificate.
pub open spec fn usable(secret: TransportSecret) -> bool {
    secret matches TransportSecret::Certificate(certificate) && certificate.name is Some
}

/// Whether each of some secrets makes a server certificate, and no two have the same name.
pub open spec fn all_usable(secrets: Seq<(String, TransportSecret)>) -> bool {
    &&& forall|i: int| 0 <= i < secrets.len() ==> usable(#[trigger] secrets[i].1)
    &&& forall|i: int, j: int| 0 <= i < j < secrets.len() ==> #[trigger] secrets[i].0@ != #[trigger] secrets[j].0@
}

/// Whether the secret at a place is the first that makes no certificate of
/// its own, and why: it holds a store, it states no server name, or one
/// before it has the same name.
pub open spec fn fails_at(secrets: Seq<(String, TransportSecret)>, at: int, why: TlsError) -> bool {
    &&& 0 <= at < secrets.len()
    &&& all_usable(secrets.take(at))
    &&& match why {
        TlsError::StoreIsNoServerCertificate => secrets[at].1 is ValidationContext,
        TlsError::NoServerName => secrets[at].1 is Certificate && !usable(secrets[at].1),
        TlsError::DuplicateSecret(id) => {
            &&& usable(secrets[at].1)
            &&& id@ == secrets[at].0@
            &&& exists|k: int| 0 <= k < at && #[trigger] secrets[k].0@ == id@
        },
        _ => false,
    }
}

/// The certificates of a server that are named by secret. Secrets that are
/// not there are passed over.
pub fn collect_sds_certificates(secrets: Vec<(String, Option<TransportSecret>)>) -> (res: Result<
    Vec<SecretHolder>,
    TlsError,
>)
    ensures
        res is Ok <==> all_usable(present(secrets@)),
        res matches Ok(holders) ==> {
            &&& holders@.len() == present(secrets@).len()
            &&& forall|i: int| 0 <= i < holders@.len() ==> made_from(#[trigger] holders@[i], present(secrets@)[i])
        },
        res matches Err(e) ==> exists|at: int| #[trigger] fails_at(present(secrets@), at, e),
{
    let ghost all = present(secrets@);
    let mut holders: Vec<SecretHolder> = Vec::new();
    let mut i: usize = 0;
    while i < secrets.len()
        invariant
            i <= secrets@.len(),
            all == present(secrets@),
            holders@.len() == present(secrets@.take(i as int)).len(),
            forall|k: int|
                0 <= k < holders@.len() ==> made_from(
                    #[trigger] holders@[k],
                    present(secrets@.take(i as int))[k],
                ),
            all_usable(present(secrets@.take(i as int))),
            forall|k: int|
                0 <= k < holders@.len() ==> #[trigger] present(secrets@.take(i as int))[k] == all[k],
            holders@.len() <= all.len(),
        decreases secrets@.len() - i,
    {
        let ghost taken = secrets@.take(i + 1);
        let ghost before = present(secrets@.take(i as int));
        assert(taken.drop_last() =~= secrets@.take(i as int));
        assert(taken.last() == secrets@[i as int]);
        proof {
            lemma_present_extends(secrets@, i + 1);
            lemma_present_extends(secrets@, i as int);
        }
        if let Some(secret) = &secrets[i].1 {
            assert(present(taken) =~= before.push((secrets@[i as int].0, *secret)));
            assert(all[before.len() as int] == present(taken)[before.len() as int]);
            match server_cert_of(secret) {
                Err(e) => {
                    assert(!usable(all[before.len() as int].1));
                    assert(all.take(before.len() as int) =~= before);
                    assert(fails_at(all, before.len() as int, e));
                    return Err(e);
                },
                Ok(server_cert) => {
                    if find_holder(&holders, secrets[i].0.as_str()).is_some() {
                        proof {
                            let k = choose|k: int|
                                0 <= k < holders@.len() && #[trigger] holders@[k].name@ == secrets@[i as int].0@;
                            assert(made_from(holders@[k], before[k]));
                            assert(all[k] == before[k]);
                            assert(all[k].0@ == all[before.len() as int].0@);
                            assert(!all_usable(all));
                            assert(all.take(before.len() as int) =~= before);
                        }
                        let id: String = secrets[i].0.clone();
                        assert(fails_at(all, before.len() as int, TlsError::DuplicateSecret(id)));
                        return Err(TlsError::DuplicateSecret(id));
                    }
                    let ghost held = holders@;
                    let holder = SecretHolder::new(secrets[i].0.clone(), server_cert);
                    holders.push(holder);
                    proof {
                        assert(made_from(holder, present(taken)[before.len() as int]));
                        assert forall|k: int| 0 <= k < holders@.len() implies made_from(
                            #[trigger] holders@[k],
                            present(taken)[k],
                        ) by {
                            if k < before.len() {
                                assert(holders@[k] == held[k]);
                                assert(present(taken)[k] == before[k]);
                            }
                        }
                        assert forall|a: int, b: int| 0 <= a < b < present(taken).len() implies #[trigger] present(
                            taken,
                        )[a].0@ != #[trigger] present(taken)[b].0@ by {
                            if b == before.len() {
                                assert(made_from(held[a], before[a]));
                                assert(held[a].name@ != secrets@[i as int].0@);
                            } else {
                                assert(before[a].0@ != before[b].0@);
                            }
                        }
                    }
                },
            }
        } else {
            assert(present(taken) =~= before);
        }
        i = i + 1;
    }
    assert(secrets@.take(secrets@.len() as int) =~= secrets@);
    Ok(holders)
}

/// What is present among the first secrets is a beginning of what is present among all.
proof fn lemma_present_extends(secrets: Seq<(String, Option<TransportSecret>)>, n: int)
    requires
        0 <= n <= secrets.len(),
    ensures
        present(secrets.take(n)).len() <= present(secrets).len(),
        forall|k: int|
            0 <= k < present(secrets.take(n)).len() ==> #[trigger] present(secrets.take(n))[k] == present(secrets)[k],
    decreases secrets.len(),
{
    if n == secrets.len() {
        assert(secrets.take(n) =~= secrets);
    } else {
        lemma_present_extends(secrets.drop_last(), n);
        assert(secrets.drop_last().take(n) =~= secrets.take(n));
    }
}

/// A TLS context: how it was put together, and the plan that came of it.
#[derive(Debug)]
pub struct TlsConfigurator<S, CtxType> {
    pub context_builder: TlsContextBuilder<CtxType>,
    pub config: S,
}

/// Whether a client context was put together from some parts.
pub open spec fn client_state(
    state: WantsToBuildClient,
    versions: Vec<TlsVersion>,
    store_id: Option<String>,
    roots: Arc<RootCertStore>,
    certificate_id: Option<String>,
    certificate: Option<ClientCert>,
    sni: String,
    verification: TrustChainVerification,
) -> bool {
    &&& state.supported_versions == versions
    &&& state.validation_context_secret_id == store_id
    &&& state.certificate_store == roots
    &&& state.trust_chain_verification == verification
    &&& state.sni == sni
    &&& state.certificate_secret_id == (if certificate is Some {
        certificate_id
    } else {
        None::<String>
    })
    &&& state.client_certificate is Some == certificate is Some
    &&& certificate matches Some(c) ==> *state.client_certificate->0 == c
}

/// Whether `res` is what making a client context from a state comes to.
pub open spec fn client_made(
    state: WantsToBuildClient,
    loaded: LoadedKey,
    res: Result<TlsConfigurator<ClientPlan, WantsToBuildClient>, TlsError>,
) -> bool {
    match res {
        Ok(made) => made.context_builder.state == state && client_plan_built(state, loaded, Ok(made.config)),
        Err(e) => e matches TlsError::Build(why) && client_plan_built(state, loaded, Err(why)),
    }
}

impl TlsConfigurator<ClientPlan, WantsToBuildClient> {
    /// A client context. Something must be there to verify upstreams against.
    pub fn new_client(
        versions: Vec<TlsVersion>,
        store_id: Option<String>,
        store: Option<Arc<RootCertStore>>,
        certificate_id: Option<String>,
        certificate: Option<ClientCert>,
        sni: String,
        verification: TrustChainVerification,
        loaded: &LoadedKey,
    ) -> (res: Result<TlsConfigurator<ClientPlan, WantsToBuildClient>, TlsError>)
        ensures
            match store {
                None => res matches Err(TlsError::NoValidationOptions),
                Some(roots) => exists|state: WantsToBuildClient|
                    {
                        &&& #[trigger] client_state(
                            state,
                            versions,
                            store_id,
                            roots,
                            certificate_id,
                            certificate,
                            sni,
                            verification,
                        )
                        &&& client_made(state, *loaded, res)
                    },
            },
    {
        let roots = match store {
            None => {
                return Err(TlsError::NoValidationOptions);
            },
            Some(roots) => roots,
        };
        let builder = TlsContextBuilder::with_supported_versions(versions).with_client_certificate_store(
            store_id,
            roots,
        );
        let builder = match certificate {
            Some(certificate) => builder.with_client_certificate(certificate_id, Arc::new(certificate)),
            None => builder.with_no_client_auth(),
        };
        let context_builder = builder.with_sni(sni).with_trust_chain_verification(verification);
        assert(client_state(
            context_builder.state,
            versions,
            store_id,
            roots,
            certificate_id,
            certificate,
            sni,
            verification,
        ));
        match context_builder.build(loaded) {
            Ok(config) => Ok(TlsConfigurator { context_builder, config }),
            Err(e) => Err(TlsError::Build(e)),
        }
    }

    /// The context after a secret has changed. Only the secrets it was made
    /// from count; any other is refused.
    pub fn update(self, secret_id: &str, secret: &TransportSecret, loaded: &LoadedKey) -> (res: Result<Self, TlsError>)
        ensures
            ({
                let state = self.context_builder.state;
                match secret {
                    TransportSecret::Certificate(certificate) => if state.certificate_secret_id matches Some(id) && id@
                        == secret_id@ {
                        exists|cert: Arc<ClientCert>|
                            {
                                &&& #[trigger] cert.key == certificate.key
                                &&& cert.certs == certificate.certs
                                &&& client_made(
                                    (WantsToBuildClient { client_certificate: Some(cert), ..state }),
                                    *loaded,
                                    res,
                                )
                            }
                    } else {
                        res matches Err(TlsError::CertificateMismatch { id, expected }) && id@ == secret_id@
                            && text_of(expected) == text_of(state.certificate_secret_id)
                    },
                    TransportSecret::ValidationContext(store) => if state.validation_context_secret_id matches Some(
                        id,
                    ) && id@ == secret_id@ {
                        client_made(
                            (WantsToBuildClient {
                                certificate_store: *store,
                                certificate_secret_id: if state.client_certificate is Some {
                                    state.certificate_secret_id
                                } else {
                                    None
                                },
                                ..state
                            }),
                            *loaded,
                            res,
                        )
                    } else {
                        res matches Err(TlsError::StoreMismatch { id, expected }) && id@ == secret_id@
                            && text_of(expected) == text_of(state.validation_context_secret_id)
                    },
                }
            }),
    {
        let state = self.context_builder.state;
        let context_builder = match secret {
            TransportSecret::Certificate(certificate) => {
                let ours: bool = match &state.certificate_secret_id {
                    Some(id) => str_eq(id.as_str(), secret_id),
                    None => false,
                };
                if !ours {
                    return Err(
                        TlsError::CertificateMismatch {
                            id: secret_id.to_owned(),
                            expected: state.certificate_secret_id,
                        },
                    );
                }
                TlsContextBuilder::with_supported_versions(state.supported_versions).with_client_certificate_store(
                    state.validation_context_secret_id,
                    state.certificate_store,
                ).with_client_certificate(state.certificate_secret_id, Arc::new(client_cert_from(certificate))).with_sni(
                    state.sni,
                ).with_trust_chain_verification(state.trust_chain_verification)
            },
            TransportSecret::ValidationContext(store) => {
                let ours: bool = match &state.validation_context_secret_id {
                    Some(id) => str_eq(id.as_str(), secret_id),
                    None => false,
                };
                if !ours {
                    return Err(
                        TlsError::StoreMismatch {
                            id: secret_id.to_owned(),
                            expected: state.validation_context_secret_id,
                        },
                    );
                }
                let builder = TlsContextBuilder::with_supported_versions(
                    state.supported_versions,
                ).with_client_certificate_store(state.validation_context_secret_id, store.clone());
                let builder = match state.client_certificate {
                    Some(certificate) => builder.with_client_certificate(state.certificate_secret_id, certificate),
                    None => builder.with_no_client_auth(),
                };
                builder.with_sni(state.sni).with_trust_chain_verification(state.trust_chain_verification)
            },
        };
        match context_builder.build(loaded) {
            Ok(config) => Ok(TlsConfigurator { context_builder, config }),
            Err(e) => Err(TlsError::Build(e)),
        }
    }

    /// The plan of the context.
    pub fn into_inner(self) -> (config: ClientPlan)
        ensures
            config == self.config,
    {
        self.config
    }

    /// The server name that upstreams are asked for.
    pub fn sni(&self) -> (name: &str)
        ensures
            name@ == self.context_builder.state.sni@,
    {
        self.context_builder.state.sni.as_str()
    }
}

/// The holders after the certificate of a secret has changed.
pub open spec fn holders_updated(
    before: Seq<SecretHolder>,
    after: Seq<SecretHolder>,
    secret_id: Seq<char>,
    certificate: CertificateSecret,
) -> bool {
    let at = first_holder(before, secret_id);
    &&& after.len() == before.len()
    &&& 0 <= at < before.len()
    &&& after[at].name == before[at].name
    &&& certificate.name matches Some(name)
    &&& after[at].server_cert.name@ == name@
    &&& after[at].server_cert.key == certificate.key
    &&& after[at].server_cert.certs == certificate.certs
    &&& forall|i: int| 0 <= i < before.len() && i != at ==> after[i] == before[i]
}

/// Whether `after` is the state of a server context once a secret has
/// changed: the first certificate that came from the secret is replaced, or
/// the store is. All else stays, the ticketer too.
pub open spec fn state_updated(
    before: WantsToBuildServer,
    secret_id: Seq<char>,
    secret: TransportSecret,
    after: WantsToBuildServer,
) -> bool {
    match secret {
        TransportSecret::Certificate(certificate) => {
            &&& holders_updated(
                before.server_ids_and_certificates@,
                after.server_ids_and_certificates@,
                secret_id,
                certificate,
            )
            &&& after == (WantsToBuildServer {
                server_ids_and_certificates: after.server_ids_and_certificates,
                validation_context_secret_id: if before.certificate_store is Some {
                    before.validation_context_secret_id
                } else {
                    None
                },
                ..before
            })
        },
        TransportSecret::ValidationContext(store) => {
            &&& before.validation_context_secret_id matches Some(id) && id@ == secret_id
            &&& after == (WantsToBuildServer { certificate_store: Some(store), ..before })
        },
    }
}

/// Whether a changed secret is refused, and why: the context was not made
/// from it, or its certificate states no server name.
pub open spec fn update_refused(
    before: WantsToBuildServer,
    secret_id: Seq<char>,
    secret: TransportSecret,
    why: TlsError,
) -> bool {
    match secret {
        TransportSecret::Certificate(certificate) => if !holder_named(
            before.server_ids_and_certificates@,
            secret_id,
        ) {
            why matches TlsError::SecretNotFound(id) && id@ == secret_id
        } else {
            certificate.name is None && why is NoServerName
        },
        TransportSecret::ValidationContext(_) => {
            &&& !(before.validation_context_secret_id matches Some(id) && id@ == secret_id)
            &&& why matches TlsError::StoreNotFound { id, expected } && id@ == secret_id && text_of(expected)
                == text_of(before.validation_context_secret_id)
        },
    }
}

/// Whether a context is as it was.
pub open spec fn state_kept(before: WantsToBuildServer, after: WantsToBuildServer) -> bool {
    &&& after.server_ids_and_certificates@ == before.server_ids_and_certificates@
    &&& after == (WantsToBuildServer {
        server_ids_and_certificates: after.server_ids_and_certificates,
        ..before
    })
}

impl TlsConfigurator<ServerPlan, WantsToBuildServer> {
    /// A server context, with a ticketer made for it.
    pub fn new_server(
        versions: Vec<TlsVersion>,
        store_id: Option<String>,
        store: Option<Arc<RootCertStore>>,
        certificates: Vec<SecretHolder>,
        require_client_cert: bool,
        ticketer: u64,
        loaded: &Vec<LoadedKey>,
    ) -> (res: Result<TlsConfigurator<ServerPlan, WantsToBuildServer>, TlsError>)
        requires
            loaded@.len() == certificates@.len(),
        ensures
            ({
                let state = WantsToBuildServer {
                    supported_versions: versions,
                    validation_context_secret_id: if store is Some {
                        store_id
                    } else {
                        None
                    },
                    certificate_store: store,
                    server_ids_and_certificates: certificates,
                    require_client_cert,
                    ticketer,
                };
                match res {
                    Ok(made) => made.context_builder.state == state && plan_built(state, loaded@, Ok(made.config)),
                    Err(e) => e matches TlsError::Build(why) && plan_built(state, loaded@, Err(why)),
                }
            }),
    {
        let builder = TlsContextBuilder::with_supported_versions(versions);
        let builder = match store {
            Some(store) => builder.with_server_certificate_store(store_id, store),
            None => builder.with_no_client_auth(),
        };
        let context_builder = builder.with_certificates(certificates).with_client_authentication(
            require_client_cert,
            ticketer,
        );
        match context_builder.build(loaded) {
            Ok(config) => Ok(TlsConfigurator { context_builder, config }),
            Err(e) => Err(TlsError::Build(e)),
        }
    }

    /// The plan of the context.
    pub fn server_config(&self) -> (config: &ServerPlan)
        ensures
            *config == self.config,
    {
        &self.config
    }

    /// The plan of the context.
    pub fn into_inner(self) -> (config: ServerPlan)
        ensures
            config == self.config,
    {
        self.config
    }

    /// Follows a changed secret, or stays as it is. `loaded` tells, for each
    /// certificate after the change, the number under which its private key
    /// was loaded, where it could be.
    pub fn try_update(&mut self, secret_id: &str, secret: &TransportSecret, loaded: &Vec<LoadedKey>) -> (res: Result<
        (),
        TlsError,
    >)
        requires
            loaded@.len() == old(self).context_builder.state.server_ids_and_certificates@.len(),
        ensures
            match res {
                Ok(_) => {
                    &&& state_updated(
                        old(self).context_builder.state,
                        secret_id@,
                        *secret,
                        final(self).context_builder.state,
                    )
                    &&& plan_built(final(self).context_builder.state, loaded@, Ok(final(self).config))
                },
                Err(e) => {
                    &&& state_kept(old(self).context_builder.state, final(self).context_builder.state)
                    &&& final(self).config == old(self).config
                    &&& match e {
                        TlsError::Build(why) => exists|after: WantsToBuildServer|
                            {
                                &&& #[trigger] state_updated(
                                    old(self).context_builder.state,
                                    secret_id@,
                                    *secret,
                                    after,
                                )
                                &&& plan_built(after, loaded@, Err(why))
                            },
                        _ => update_refused(old(self).context_builder.state, secret_id@, *secret, e),
                    }
                },
            },
    {
        match secret {
            TransportSecret::Certificate(certificate) => {
                let at: usize = match find_holder(
                    &self.context_builder.state.server_ids_and_certificates,
                    secret_id,
                ) {
                    None => {
                        return Err(TlsError::SecretNotFound(secret_id.to_owned()));
                    },
                    Some(at) => at,
                };
                let server_cert = match server_cert_from(certificate) {
                    Ok(server_cert) => server_cert,
                    Err(e) => {
                        return Err(e);
                    },
                };
                let ghost before = self.context_builder.state;
                let held = self.context_builder.state.server_ids_and_certificates.remove(at);
                let name: String = held.name.clone();
                self.context_builder.state.server_ids_and_certificates.insert(at, SecretHolder { name, server_cert });
                let mut kept_id: Option<String> = None;
                if self.context_builder.state.certificate_store.is_none() {
                    std::mem::swap(
                        &mut kept_id,
                        &mut self.context_builder.state.validation_context_secret_id,
                    );
                }
                let ghost mid = self.context_builder.state;
                assert(state_updated(before, secret_id@, *secret, mid));
                match self.context_builder.build(loaded) {
                    Ok(config) => {
                        self.config = config;
                        Ok(())
                    },
                    Err(why) => {
                        self.context_builder.state.server_ids_and_certificates.remove(at);
                        self.context_builder.state.server_ids_and_certificates.insert(at, held);
                        if self.context_builder.state.certificate_store.is_none() {
                            self.context_builder.state.validation_context_secret_id = kept_id;
                        }
                        assert(self.context_builder.state.server_ids_and_certificates@
                            =~= before.server_ids_and_certificates@);
                        Err(TlsError::Build(why))
                    },
                }
            },
            TransportSecret::ValidationContext(store) => {
                let ours: bool = match &self.context_builder.state.validation_context_secret_id {
                    Some(id) => str_eq(id.as_str(), secret_id),
                    None => false,
                };
                if !ours {
                    let expected: Option<String> = match &self.context_builder.state.validation_context_secret_id {
                        Some(id) => Some(id.clone()),
                        None => None,
                    };
                    return Err(TlsError::StoreNotFound { id: secret_id.to_owned(), expected });
                }
                let ghost before = self.context_builder.state;
                let mut swapped: Option<Arc<RootCertStore>> = Some(store.clone());
                std::mem::swap(&mut swapped, &mut self.context_builder.state.certificate_store);
                let ghost mid = self.context_builder.state;
                assert(state_updated(before, secret_id@, *secret, mid));
                match self.context_builder.build(loaded) {
                    Ok(config) => {
                        self.config = config;
                        Ok(())
                    },
                    Err(why) => {
                        self.context_builder.state.certificate_store = swapped;
                        Err(TlsError::Build(why))
                    },
                }
            },
        }
    }

    /// The context after a secret has changed.
    pub fn update(self, secret_id: &str, secret: &TransportSecret, loaded: &Vec<LoadedKey>) -> (res: Result<
        Self,
        TlsError,
    >)
        requires
            loaded@.len() == self.context_builder.state.server_ids_and_certificates@.len(),
        ensures
            match res {
                Ok(updated) => {
                    &&& state_updated(
                        self.context_builder.state,
                        secret_id@,
                        *secret,
                        updated.context_builder.state,
                    )
                    &&& plan_built(updated.context_builder.state, loaded@, Ok(updated.config))
                },
                Err(TlsError::Build(why)) => exists|after: WantsToBuildServer|
                    {
                        &&& #[trigger] state_updated(self.context_builder.state, secret_id@, *secret, after)
                        &&& plan_built(after, loaded@, Err(why))
                    },
                Err(e) => update_refused(self.context_builder.state, secret_id@, *secret, e),
            },
    {
        let mut updated = self;
        match updated.try_update(secret_id, secret, loaded) {
            Ok(_) => Ok(updated),
            Err(e) => Err(e),
        }
    }
}

/// A context that follows a changed secret keeps its ticketer, the number of
/// its certificates, its versions and what it asks of clients. The tickets
/// that were issued before are still read.
pub proof fn law_update_keeps_ticketer(
    before: TlsConfigurator<ServerPlan, WantsToBuildServer>,
    loaded_before: Seq<LoadedKey>,
    secret_id: Seq<char>,
    secret: TransportSecret,
    after: TlsConfigurator<ServerPlan, WantsToBuildServer>,
    loaded: Seq<LoadedKey>,
)
    requires
        plan_built(before.context_builder.state, loaded_before, Ok(before.config)),
        state_updated(before.context_builder.state, secret_id, secret, after.context_builder.state),
        plan_built(after.context_builder.state, loaded, Ok(after.config)),
    ensures
        after.context_builder.state.ticketer == before.context_builder.state.ticketer,
        after.context_builder.state.require_client_cert == before.context_builder.state.require_client_cert,
        after.context_builder.state.supported_versions == before.context_builder.state.supported_versions,
        after.context_builder.state.server_ids_and_certificates@.len()
            == before.context_builder.state.server_ids_and_certificates@.len(),
        reads_tickets_of(after.config, before.config),
        !after.config.stores_sessions,
{
}

/// A changed certificate is followed only by a context with a certificate of
/// that name. It then has the same names in the same order, and only the
/// first certificate of that name is another: the changed one. The versions,
/// the store, what is asked of clients and the ticketer stay.
pub proof fn law_certificate_update_replaces_one(
    before: WantsToBuildServer,
    secret_id: Seq<char>,
    certificate: CertificateSecret,
    after: WantsToBuildServer,
)
    requires
        state_updated(before, secret_id, TransportSecret::Certificate(certificate), after),
    ensures
        ({
            let held = before.server_ids_and_certificates@;
            let now_held = after.server_ids_and_certificates@;
            let at = first_holder(held, secret_id);
            &&& holder_named(held, secret_id)
            &&& 0 <= at < held.len() && held[at].name@ == secret_id
            &&& forall|i: int| 0 <= i < at ==> (#[trigger] held[i]).name@ != secret_id
            &&& now_held.len() == held.len()
            &&& forall|i: int| 0 <= i < held.len() ==> (#[trigger] now_held[i]).name == held[i].name
            &&& forall|i: int| 0 <= i < held.len() && i != at ==> now_held[i] == held[i]
            &&& now_held[at].server_cert.key == certificate.key
            &&& now_held[at].server_cert.certs == certificate.certs
        }),
        after.supported_versions == before.supported_versions,
        after.certificate_store == before.certificate_store,
        after.require_client_cert == before.require_client_cert,
        after.ticketer == before.ticketer,
{
    lemma_first_holder_is_named(before.server_ids_and_certificates@, secret_id);
    lemma_first_holder_is_first(before.server_ids_and_certificates@, secret_id);
}

/// A changed secret is either followed or refused, never both.
pub proof fn law_update_or_refusal(
    before: WantsToBuildServer,
    secret_id: Seq<char>,
    secret: TransportSecret,
    after: WantsToBuildServer,
    why: TlsError,
)
    ensures
        !(state_updated(before, secret_id, secret, after) && update_refused(before, secret_id, secret, why)),
{
    if state_updated(before, secret_id, secret, after) && update_refused(before, secret_id, secret, why) {
        if secret is Certificate {
            lemma_first_holder_is_named(before.server_ids_and_certificates@, secret_id);
        }
    }
}

proof fn lemma_first_holder_is_first(holders: Seq<SecretHolder>, name: Seq<char>)
    requires
        first_holder(holders, name) < holders.len(),
    ensures
        holders[first_holder(holders, name)].name@ == name,
        forall|i: int| 0 <= i < first_holder(holders, name) ==> (#[trigger] holders[i]).name@ != name,
    decreases holders.len(),
{
    if holders.len() > 0 && holders[0].name@ != name {
        let rest = holders.drop_first();
        lemma_first_holder_is_named(rest, name);
        lemma_first_holder_is_first(rest, name);
        assert forall|i: int| 0 <= i < first_holder(holders, name) implies (#[trigger] holders[i]).name@ != name by {
            if i > 0 {
                assert(rest[i - 1] == holders[i]);
            }
        }
    }
}

proof fn lemma_first_holder_is_named(holders: Seq<SecretHolder>, name: Seq<char>)
    ensures
        0 <= first_holder(holders, name) <= holders.len(),
        first_holder(holders, name) < holders.len() ==> holder_named(holders, name),
    decreases holders.len(),
{
    if holders.len() > 0 {
        if holders[0].name@ == name {
            assert(holder_named(holders, name));
        } else {
            let rest = holders.drop_first();
            lemma_first_holder_is_named(rest, name);
            if first_holder(rest, name) < rest.len() {
                let i = choose|i: int| 0 <= i < rest.len() && #[trigger] rest[i].name@ == name;
                assert(holders[i + 1].name@ == name);
            }
        }
    }
}

/// A new certificate replaces the one of its name, the first where there are
/// several, and leaves every other as it was.
pub proof fn law_new_certificate_replaces_its_own(
    before: WantsToBuildServer,
    secret_id: Seq<char>,
    certificate: CertificateSecret,
    after: WantsToBuildServer,
    i: int,
)
    requires
        state_updated(before, secret_id, TransportSecret::Certificate(certificate), after),
        0 <= i < before.server_ids_and_certificates@.len(),
        forall|j: int|
            0 <= j < i ==> (#[trigger] before.server_ids_and_certificates@[j]).name@ != secret_id,
    ensures
        ({
            let was = before.server_ids_and_certificates@[i];
            let is = after.server_ids_and_certificates@[i];
            &&& after.server_ids_and_certificates@.len() == before.server_ids_and_certificates@.len()
            &&& is.name == was.name
            &&& was.name@ == secret_id ==> is.server_cert.key == certificate.key && is.server_cert.certs
                == certificate.certs && certificate.name is Some && is.server_cert.name@ == certificate.name->0@
            &&& was.name@ != secret_id ==> is == was
        }),
        after.certificate_store == before.certificate_store,
{
    let holders = before.server_ids_and_certificates@;
    lemma_first_holder_is_at(holders, secret_id, i);
}

proof fn lemma_first_holder_is_at(holders: Seq<SecretHolder>, name: Seq<char>, i: int)
    requires
        0 <= i < holders.len(),
        forall|j: int| 0 <= j < i ==> (#[trigger] holders[j]).name@ != name,
    ensures
        holders[i].name@ == name ==> first_holder(holders, name) == i,
        holders[i].name@ != name ==> first_holder(holders, name) > i,
    decreases holders.len(),
{
    if i > 0 {
        assert(holders[0].name@ != name);
        let rest = holders.drop_first();
        assert forall|j: int| 0 <= j < i - 1 implies (#[trigger] rest[j]).name@ != name by {
            assert(rest[j] == holders[j + 1]);
        }
        assert(rest[i - 1] == holders[i]);
        lemma_first_holder_is_at(rest, name, i - 1);
    } else {
        lemma_first_holder_is_at_least(holders.drop_first(), name);
    }
}

proof fn lemma_first_holder_is_at_least(holders: Seq<SecretHolder>, name: Seq<char>)
    ensures
        first_holder(holders, name) >= 0,
    decreases holders.len(),
{
    if holders.len() > 0 {
        lemma_first_holder_is_at_least(holders.drop_first(), name);
    }
}

/// New roots are taken only under the name that is configured for them, and
/// leave the certificates as they were.
pub proof fn law_new_roots_need_their_name(
    before: WantsToBuildServer,
    secret_id: Seq<char>,
    store: Arc<RootCertStore>,
    after: WantsToBuildServer,
)
    requires
        state_updated(before, secret_id, TransportSecret::ValidationContext(store), after),
    ensures
        before.validation_context_secret_id is Some && before.validation_context_secret_id->0@ == secret_id,
        after.certificate_store == Some(store),
        after.server_ids_and_certificates == before.server_ids_and_certificates,
        after.require_client_cert == before.require_client_cert,
{
}

} // verus!
