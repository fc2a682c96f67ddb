//! Certificates by server name, and the contexts made from them.

use orion::sni_resolver::{tested_name_of, to_ascii_lowercase, AddError, RelaxedResolvesServerCertUsingSni};
use orion::tls_builder::{
    dns_only, extract_dns_sans, names_to_register, BuildError, CertificatePlan, ClientAuth, ClientCert, RootCertStore,
    SecretHolder, ServerCert, ServerPlan, TlsContextBuilder, TlsVersion, TrustChainVerification, WantsToBuildServer,
};
use orion::tls_configurator::{
    client_cert_of, collect_sds_certificates, create_certificate_store, only_client_cert, root_store_of,
    server_cert_of, CertificateSecret, TlsConfigurator, TlsError, TransportSecret, ValidationOption,
};
use std::sync::Arc;

/// A certificate for `one.test`, `*.two.test` and `127.0.0.1`, but for the
/// zeros of its signature.
const CERTIFICATE: [&str; 5] = [
    "3082010b3081bea003020102020101300506032b657030153113301106035504030c0a6f72696f6e2074657374301e17",
    "0d3230303130313030303030305a170d3439313233313233353935395a30153113301106035504030c0a6f72696f6e20",
    "74657374302a300506032b6570032100000102030405060708090a0b0c0d0e0f101112131415161718191a1b1c1d1e1f",
    "a3333031302f0603551d110428302682086f6e652e7465737487047f000001820a2a2e74776f2e7465737482084f4e45",
    "2e74657374300506032b6570034100",
];

fn certificate() -> Vec<u8> {
    let mut der: Vec<u8> = Vec::new();
    for line in CERTIFICATE {
        for at in (0..line.len()).step_by(2) {
            der.push(u8::from_str_radix(&line[at..at + 2], 16).unwrap());
        }
    }
    der.resize(der.len() + 64, 0);
    der
}

fn server_cert(name: &str) -> ServerCert {
    ServerCert { name: name.to_owned(), key: Arc::new(vec![1]), certs: Arc::new(vec![certificate()]) }
}

fn holder(secret: &str, name: &str) -> SecretHolder {
    SecretHolder::new(secret.to_owned(), server_cert(name))
}

fn server_builder_with(version: TlsVersion, ticketer: u64) -> TlsContextBuilder<WantsToBuildServer> {
    TlsContextBuilder::with_supported_versions(vec![version])
        .with_no_client_auth()
        .with_certificates(vec![holder("backend", "backend")])
        .with_client_authentication(false, ticketer)
}

fn server_builder(ticketer: u64) -> TlsContextBuilder<WantsToBuildServer> {
    server_builder_with(TlsVersion::TLSv1_3, ticketer)
}

fn build(builder: &TlsContextBuilder<WantsToBuildServer>) -> ServerPlan {
    builder.build(&vec![Ok(1)]).unwrap()
}

#[derive(Debug, PartialEq)]
enum HandshakeKind {
    Full,
    Resumed,
}

/// A client that keeps the ticket of its last handshake.
struct Client {
    ticket_from: Option<u64>,
}

impl Client {
    fn new() -> Client {
        Client { ticket_from: None }
    }

    fn handshake(&mut self, server: &ServerPlan) -> HandshakeKind {
        let resumed = self.ticket_from == Some(server.ticketer) || server.stores_sessions;
        self.ticket_from = Some(server.ticketer);
        if resumed {
            HandshakeKind::Resumed
        } else {
            HandshakeKind::Full
        }
    }
}

#[test]
fn server_config_uses_stateless_resumption() {
    let config = build(&server_builder(7));
    assert_eq!(config.ticketer, 7, "the ticketer must be the one of the builder");
    assert!(!config.stores_sessions, "the session cache must be out of the hot path");
}

#[test]
fn client_resumes_against_the_same_config() {
    let mut client = Client::new();
    let server_config = build(&server_builder(7));
    assert_eq!(client.handshake(&server_config), HandshakeKind::Full);
    assert_eq!(client.handshake(&server_config), HandshakeKind::Resumed);
}

/// Each runtime rebuilds its context when a secret changes. Tickets must
/// survive that, or resumption silently stops working once a client is
/// balanced onto a different runtime.
#[test]
fn client_resumes_across_rebuilds_of_a_cloned_builder() {
    let mut client = Client::new();
    let builder = server_builder(7);
    let first = build(&builder);
    let rebuilt = build(&builder);
    assert_eq!(client.handshake(&first), HandshakeKind::Full);
    assert_eq!(client.handshake(&rebuilt), HandshakeKind::Resumed);
}

#[test]
fn tls12_client_resumes_from_a_ticket() {
    let mut client = Client::new();
    let server_config = build(&server_builder_with(TlsVersion::TLSv1_2, 7));
    assert_eq!(client.handshake(&server_config), HandshakeKind::Full);
    assert_eq!(client.handshake(&server_config), HandshakeKind::Resumed);
}

/// Ticket keys are per filter chain, so a session must not carry over to an
/// unrelated one.
#[test]
fn client_does_not_resume_against_an_independent_config() {
    let mut client = Client::new();
    let first = build(&server_builder(7));
    let unrelated = build(&server_builder(8));
    assert_eq!(client.handshake(&first), HandshakeKind::Full);
    assert_eq!(client.handshake(&unrelated), HandshakeKind::Full);
}

#[test]
fn the_dns_names_of_a_certificate_are_read() {
    assert_eq!(extract_dns_sans(&certificate()), ["one.test", "*.two.test", "ONE.test"]);
    assert!(extract_dns_sans(&vec![1, 2, 3]).is_empty());
    assert_eq!(dns_only(&vec![None, Some("a".to_owned())]), ["a"]);
    assert_eq!(names_to_register("b", &vec!["a".to_owned(), "b".to_owned(), "a".to_owned()]), ["b", "a"]);
}

#[test]
fn a_certificate_is_registered_under_names_it_is_for() {
    let mut resolver = RelaxedResolvesServerCertUsingSni::new();
    let der = certificate();
    assert_eq!(resolver.resolve(Some("one.test")), None);
    assert_eq!(resolver.add("One.Test", &der, 5), Ok(()));
    assert_eq!(resolver.add("*.two.test", &der, 6), Ok(()));
    assert_eq!(resolver.add("other.test", &der, 7), Err(AddError::NotCovered));
    assert_eq!(resolver.add("no name", &der, 8), Err(AddError::BadName));
    assert_eq!(resolver.add("one.test", &vec![0], 9), Err(AddError::NotCovered));

    assert_eq!(resolver.resolve(Some("one.test")), Some(5));
    assert_eq!(resolver.resolve(Some("a.two.test")), Some(6));
    // A wildcard stands for one label. What is not known gets the first certificate.
    assert_eq!(resolver.resolve(Some("a.b.two.test")), Some(5));
    assert_eq!(resolver.resolve(Some("two.test")), Some(5));
    assert_eq!(resolver.resolve(None), Some(5));
    assert_eq!(tested_name_of("*.two.test"), "dummy.two.test");
    assert_eq!(tested_name_of("one.test"), "one.test");
    assert_eq!(to_ascii_lowercase("AbC\u{c4}"), "abc\u{c4}");
}

fn many_certificates(holders: Vec<SecretHolder>, require: bool) -> TlsContextBuilder<WantsToBuildServer> {
    TlsContextBuilder::with_supported_versions(vec![TlsVersion::TLSv1_3])
        .with_server_certificate_store(Some("ca".to_owned()), store())
        .with_certificates(holders)
        .with_client_authentication(require, 3)
}

#[test]
fn certificates_are_found_by_all_their_names() {
    let builder = many_certificates(vec![holder("s1", "one.test"), holder("s2", "a.two.test")], true);
    let plan = builder.build(&vec![Ok(11), Ok(12)]).unwrap();
    assert_eq!(plan.client_auth, ClientAuth::Required);
    let CertificatePlan::BySni(resolver) = &plan.certificates else {
        panic!("one certificate for all");
    };
    // Both certificates have the same names; the one that came last is found under them.
    assert_eq!(resolver.resolve(Some("one.test")), Some(12));
    assert_eq!(resolver.resolve(Some("x.two.test")), Some(12));
    assert_eq!(resolver.resolve(Some("a.two.test")), Some(12));
    assert_eq!(resolver.resolve(None), Some(11));
}

#[test]
fn certificates_that_do_not_fit_are_counted() {
    let builder = many_certificates(vec![holder("s1", "else.test"), holder("s2", "one.test")], false);
    let refused = builder.build(&vec![Ok(11), Err("no key".to_owned())]).unwrap_err();
    // A certificate whose key cannot be loaded is passed over.
    assert!(matches!(refused, BuildError::Certificates(1)));
    assert_eq!(refused.message(), "Found 1 errors in Tls context");
    // The only certificate has to have a key that can be used.
    let single = many_certificates(vec![holder("s", "any")], false);
    assert_eq!(single.build(&vec![Err("no key".to_owned())]).unwrap_err().message(), "no key");
    let plan = single.build(&vec![Ok(1)]).unwrap();
    assert_eq!(plan.client_auth, ClientAuth::Optional);
    assert!(matches!(plan.certificates, CertificatePlan::Single));
}

#[test]
fn nobody_is_verified_against_an_empty_store() {
    let builder = TlsContextBuilder::with_supported_versions(vec![TlsVersion::TLSv1_3])
        .with_server_certificate_store(None, Arc::new(RootCertStore { roots: vec![] }))
        .with_certificates(vec![holder("s", "any")])
        .with_client_authentication(false, 3);
    assert!(matches!(builder.build(&vec![Ok(1)]), Err(BuildError::NoRootAnchors)));
    let client = |verification: TrustChainVerification| {
        TlsContextBuilder::with_supported_versions(vec![TlsVersion::TLSv1_3])
            .with_client_certificate_store(None, Arc::new(RootCertStore { roots: vec![] }))
            .with_no_client_auth()
            .with_sni("n".to_owned())
            .with_trust_chain_verification(verification)
            .build(&Err("no key".to_owned()))
    };
    let refused = client(TrustChainVerification::VerifyTrustChain).unwrap_err();
    assert_eq!(refused.message(), "no root trust anchors were provided");
    assert!(client(TrustChainVerification::AcceptUntrusted).is_ok());
}

#[test]
fn a_required_client_certificate_needs_something_to_verify_it_against() {
    let builder = TlsContextBuilder::with_supported_versions(vec![])
        .with_no_client_auth()
        .with_certificates(vec![holder("s", "one.test")])
        .with_client_authentication(true, 1);
    let refused = builder.build(&vec![Ok(1)]).unwrap_err();
    assert_eq!(refused.message(), "requireClientCertificate is true but no validation_context is configured");
}

fn certificate_secret(name: Option<&str>) -> CertificateSecret {
    CertificateSecret {
        name: name.map(|n| n.to_owned()),
        key: Arc::new(vec![9]),
        certs: Arc::new(vec![certificate()]),
    }
}

fn store() -> Arc<RootCertStore> {
    Arc::new(RootCertStore { roots: vec![vec![1]] })
}

#[test]
fn secrets_are_what_they_are_asked_for() {
    let cert = TransportSecret::Certificate(certificate_secret(Some("n")));
    assert_eq!(server_cert_of(&cert).unwrap().name, "n");
    assert_eq!(*client_cert_of(&cert).unwrap().key, vec![9]);
    let nameless = TransportSecret::Certificate(certificate_secret(None));
    assert_eq!(server_cert_of(&nameless).unwrap_err().message(), "secret doesn't contain server name");
    let ca = TransportSecret::ValidationContext(store());
    assert_eq!(
        server_cert_of(&ca).unwrap_err().message(),
        "TransportSecret ValidationContext is not supported for server certificate"
    );
    assert_eq!(
        client_cert_of(&ca).unwrap_err().message(),
        "TransportSecret ValidationContext is not supported for client certificate"
    );
    assert_eq!(root_store_of(ca).unwrap().roots.len(), 1);
    assert_eq!(
        root_store_of(cert).unwrap_err().message(),
        "TransportSecret certificate is not supported for root cert store"
    );
    let two = vec![certificate_secret(None), certificate_secret(None)];
    assert_eq!(only_client_cert(&two).unwrap_err().message(), "Only one client certificate should be configured");
    assert!(only_client_cert(&vec![certificate_secret(None)]).is_ok());
}

#[test]
fn a_store_comes_from_the_configuration_or_a_secret() {
    let (id, found) = create_certificate_store(None).unwrap();
    assert!(id.is_none() && found.is_none());
    let (id, found) = create_certificate_store(Some(ValidationOption::Inline(store()))).unwrap();
    assert!(id.is_none() && found.unwrap().roots.len() == 1);
    let missing = ValidationOption::Secret { name: "ca".to_owned(), found: None };
    let (id, found) = create_certificate_store(Some(missing)).unwrap();
    assert_eq!(id.as_deref(), Some("ca"));
    assert!(found.unwrap().roots.is_empty());
    let wrong = ValidationOption::Secret {
        name: "ca".to_owned(),
        found: Some(TransportSecret::Certificate(certificate_secret(None))),
    };
    assert!(matches!(create_certificate_store(Some(wrong)), Err(TlsError::CertificateIsNoStore)));
}

#[test]
fn certificates_by_secret_are_collected() {
    let named = |secret: &str, found: Option<TransportSecret>| (secret.to_owned(), found);
    let good = || Some(TransportSecret::Certificate(certificate_secret(Some("n"))));
    let holders = collect_sds_certificates(vec![named("a", good()), named("b", None), named("c", good())]).unwrap();
    assert_eq!(holders.len(), 2);
    assert_eq!(holders[1].name, "c");
    assert!(!holders[0].same_secret(&holders[1]));
    let twice = collect_sds_certificates(vec![named("a", good()), named("a", good())]).unwrap_err();
    assert_eq!(twice.message(), "DownstreamTlsContext : Duplicate secret name a");
    let ca = || Some(TransportSecret::ValidationContext(store()));
    let refused = collect_sds_certificates(vec![named("a", good()), named("b", ca()), named("a", good())]);
    assert!(matches!(refused, Err(TlsError::StoreIsNoServerCertificate)));
    let nameless = Some(TransportSecret::Certificate(certificate_secret(None)));
    assert!(matches!(collect_sds_certificates(vec![named("a", nameless)]), Err(TlsError::NoServerName)));
}

#[test]
fn a_server_follows_its_secrets_and_keeps_its_ticketer() {
    let holders = vec![holder("s1", "old")];
    let mut tls = TlsConfigurator::new_server(
        vec![TlsVersion::TLSv1_3],
        Some("ca".to_owned()),
        Some(store()),
        holders,
        true,
        5,
        &vec![Ok(1)],
    )
    .unwrap();
    let changed = TransportSecret::Certificate(certificate_secret(Some("new")));
    tls.try_update("s1", &changed, &vec![Ok(2)]).unwrap();
    assert_eq!(tls.context_builder.state.server_ids_and_certificates[0].server_cert.name, "new");
    assert_eq!(tls.config.ticketer, 5);
    let unknown = tls.try_update("s9", &changed, &vec![Ok(2)]).unwrap_err();
    assert_eq!(unknown.message(), "Can't find secret s9");
    let nameless = TransportSecret::Certificate(certificate_secret(None));
    assert!(matches!(tls.try_update("s1", &nameless, &vec![Ok(2)]), Err(TlsError::NoServerName)));
    assert_eq!(tls.context_builder.state.server_ids_and_certificates[0].server_cert.name, "new");

    let empty = TransportSecret::ValidationContext(Arc::new(RootCertStore { roots: vec![] }));
    assert!(matches!(tls.try_update("ca", &empty, &vec![Ok(2)]), Err(TlsError::Build(BuildError::NoRootAnchors))));
    assert_eq!(tls.context_builder.state.certificate_store.as_ref().unwrap().roots.len(), 1);
    let fuller = TransportSecret::ValidationContext(Arc::new(RootCertStore { roots: vec![vec![1], vec![2]] }));
    let tls = tls.update("ca", &fuller, &vec![Ok(2)]).unwrap();
    assert_eq!(tls.context_builder.state.certificate_store.as_ref().unwrap().roots.len(), 2);
    assert_eq!(tls.server_config().ticketer, 5);
    let unknown = tls.update("cb", &empty, &vec![Ok(2)]).unwrap_err();
    assert_eq!(unknown.message(), "Can't find secret cb Some(\"ca\")");
}

#[test]
fn only_the_first_certificate_of_a_name_is_replaced() {
    let tls = TlsConfigurator::new_server(
        vec![TlsVersion::TLSv1_2],
        None,
        None,
        vec![holder("a", "a0"), holder("b", "b0"), holder("b", "b1")],
        false,
        5,
        &vec![Err("no key".to_owned()), Err("no key".to_owned()), Err("no key".to_owned())],
    )
    .unwrap();
    let issuer = tls.server_config().ticketer;
    let changed = TransportSecret::Certificate(certificate_secret(Some("new")));
    let keys = vec![Err("no key".to_owned()), Err("no key".to_owned()), Err("no key".to_owned())];
    let tls = tls.update("b", &changed, &keys).unwrap();
    let held = &tls.context_builder.state.server_ids_and_certificates;
    let names: Vec<&str> = held.iter().map(|h| h.name.as_str()).collect();
    assert_eq!(names, ["a", "b", "b"]);
    let certificates: Vec<&str> = held.iter().map(|h| h.server_cert.name.as_str()).collect();
    assert_eq!(certificates, ["a0", "new", "b1"]);
    assert_eq!(tls.server_config().ticketer, issuer);
    assert!(tls.update("c", &changed, &keys).is_err());
}

#[test]
fn a_server_that_cannot_be_built_is_refused() {
    let refused =
        TlsConfigurator::new_server(vec![], None, None, vec![holder("s", "n")], true, 5, &vec![Ok(1)]);
    assert!(matches!(refused, Err(TlsError::Build(BuildError::NoValidationContext))));
}

#[test]
fn a_client_follows_its_secrets() {
    let refused = TlsConfigurator::new_client(
        vec![],
        None,
        None,
        None,
        None,
        "sni".to_owned(),
        TrustChainVerification::VerifyTrustChain,
        &Ok(1),
    );
    assert_eq!(refused.unwrap_err().message(), "UpstreamContext : no TLS validation options found");
    let cert = ClientCert { key: Arc::new(vec![1]), certs: Arc::new(vec![]) };
    let tls = TlsConfigurator::new_client(
        vec![TlsVersion::TLSv1_2],
        Some("ca".to_owned()),
        Some(store()),
        Some("cert".to_owned()),
        Some(cert),
        "sni".to_owned(),
        TrustChainVerification::AcceptUntrusted,
        &Ok(1),
    )
    .unwrap();
    assert_eq!(tls.sni(), "sni");
    assert_eq!(tls.config.verification, TrustChainVerification::AcceptUntrusted);
    let tls = tls.update("cert", &TransportSecret::Certificate(certificate_secret(None)), &Ok(2)).unwrap();
    assert_eq!(*tls.config.client_certificate.as_ref().unwrap().key, vec![9]);
    let empty = TransportSecret::ValidationContext(Arc::new(RootCertStore { roots: vec![] }));
    let tls = tls.update("ca", &empty, &Ok(2)).unwrap();
    assert!(tls.config.certificate_store.roots.is_empty());
    let unknown = tls.update("x", &TransportSecret::ValidationContext(store()), &Ok(2)).unwrap_err();
    assert_eq!(unknown.message(), "Secret name doesn't match x Some(\"ca\")");
    let tls = TlsConfigurator::new_client(
        vec![TlsVersion::TLSv1_2],
        None,
        Some(store()),
        None,
        None,
        "sni".to_owned(),
        TrustChainVerification::VerifyTrustChain,
        &Ok(1),
    )
    .unwrap();
    let unknown = tls.update("x", &TransportSecret::Certificate(certificate_secret(None)), &Ok(2)).unwrap_err();
    assert_eq!(unknown.message(), "Secret name doesn't match x  None");
}
