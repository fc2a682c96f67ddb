//! The choice of a server certificate by the name a client asks for.

use crate::name_table::NameTable;
use crate::text::{find_char, first_index_of, has_prefix, is_prefix};
use vstd::prelude::*;

verus! {

/// A character in lower case, where it is an ASCII letter.
pub open spec fn ascii_lower(c: char) -> char {
    if 'A' <= c && c <= 'Z' {
        (c as u32 + 32) as char
    } else {
        c
    }
}

/// A text with its ASCII letters in lower case.
pub open spec fn ascii_lowercase(s: Seq<char>) -> Seq<char> {
    s.map_values(|c: char| ascii_lower(c))
}

fn lower_text(c: char) -> (text: Option<&'static str>)
    ensures
        match text {
            Some(t) => t@ == seq![ascii_lower(c)],
            None => ascii_lower(c) == c,
        },
{
    proof {
        reveal_strlit("a");
        reveal_strlit("b");
        reveal_strlit("c");
        reveal_strlit("d");
        reveal_strlit("e");
        reveal_strlit("f");
        reveal_strlit("g");
        reveal_strlit("h");
        reveal_strlit("i");
        reveal_strlit("j");
        reveal_strlit("k");
        reveal_strlit("l");
        reveal_strlit("m");
        reveal_strlit("n");
        reveal_strlit("o");
        reveal_strlit("p");
        reveal_strlit("q");
        reveal_strlit("r");
        reveal_strlit("s");
        reveal_strlit("t");
        reveal_strlit("u");
        reveal_strlit("v");
        reveal_strlit("w");
        reveal_strlit("x");
        reveal_strlit("y");
        reveal_strlit("z");
    }
    let text: Option<&'static str> = match c {
        'A' => Some("a"),
        'B' => Some("b"),
        'C' => Some("c"),
        'D' => Some("d"),
        'E' => Some("e"),
        'F' => Some("f"),
        'G' => Some("g"),
        'H' => Some("h"),
        'I' => Some("i"),
        'J' => Some("j"),
        'K' => Some("k"),
        'L' => Some("l"),
        'M' => Some("m"),
        'N' => Some("n"),
        'O' => Some("o"),
        'P' => Some("p"),
        'Q' => Some("q"),
        'R' => Some("r"),
        'S' => Some("s"),
        'T' => Some("t"),
        'U' => Some("u"),
        'V' => Some("v"),
        'W' => Some("w"),
        'X' => Some("x"),
        'Y' => Some("y"),
        'Z' => Some("z"),
        _ => None,
    };
    if let Some(t) = text {
        assert(t@ =~= seq![ascii_lower(c)]);
    }
    text
}

/// The text with its ASCII letters in lower case.
pub fn to_ascii_lowercase(s: &str) -> (lower: String)
    ensures
        lower@ == ascii_lowercase(s@),
{
    let n: usize = s.unicode_len();
    let mut out = String::new();
    let mut i: usize = 0;
    while i < n
        invariant
            i <= n,
            n == s@.len(),
            out@ == ascii_lowercase(s@.take(i as int)),
        decreases n - i,
    {
        let c: char = s.get_char(i);
        match lower_text(c) {
            Some(t) => {
                out.append(t);
            },
            None => {
                out.append(s.substring_char(i, i + 1));
            },
        }
        assert(ascii_lowercase(s@.take(i + 1)) =~= ascii_lowercase(s@.take(i as int)) + seq![ascii_lower(c)]);
        assert(s@.subrange(i as int, i + 1) =~= seq![c]);
        i = i + 1;
    }
    assert(s@.take(n as int) =~= s@);
    out
}

/// Whether a text is a name that a server can have: a DNS name or an address.
pub uninterp spec fn is_server_name(name: Seq<char>) -> bool;

/// `rustls::pki_types::ServerName::try_from`: whether it accepts the text.
#[verifier::external_body]
pub(crate) fn server_name_is_valid(name: &str) -> (valid: bool)
    ensures
        valid == is_server_name(name@),
{
    rustls::pki_types::ServerName::try_from(name).is_ok()
}

/// Whether a certificate, given in DER, can be read and is issued for a name.
pub uninterp spec fn certificate_covers(der: Seq<u8>, name: Seq<char>) -> bool;

/// `rustls::client::verify_server_name`, on the certificate as
/// `rustls::server::ParsedCertificate` reads it: whether the certificate is
/// issued for the name. A text that is no server name is covered by none.
#[verifier::external_body]
fn certificate_is_for(der: &Vec<u8>, name: &str) -> (covered: bool)
    ensures
        covered == certificate_covers(der@, name@),
{
    let cert = rustls::pki_types::CertificateDer::from(der.as_slice());
    rustls::pki_types::ServerName::try_from(name).is_ok_and(
        |n|
            rustls::server::ParsedCertificate::try_from(&cert).is_ok_and(
                |parsed| rustls::client::verify_server_name(&parsed, &n).is_ok(),
            ),
    )
}

/// Why a certificate could not be added.
#[derive(Debug, Clone, Copy, PartialEq, Eq, Structural)]
pub enum AddError {
    /// The name is none that a server can have.
    BadName,
    /// The certificate is not issued for the name.
    NotCovered,
}

/// Whether a name, in lower case, stands for all names one label below its base.
pub open spec fn is_wildcard(lower: Seq<char>) -> bool {
    is_prefix(seq!['*', '.'], lower)
}

/// The name without its wildcard.
pub open spec fn base_domain(lower: Seq<char>) -> Seq<char> {
    if is_wildcard(lower) {
        lower.subrange(2, lower.len() as int)
    } else {
        lower
    }
}

/// The name a certificate must be issued for: the name itself, or one below the base of a wildcard.
pub open spec fn tested_name(lower: Seq<char>) -> Seq<char> {
    if is_wildcard(lower) {
        "dummy."@ + base_domain(lower)
    } else {
        lower
    }
}

/// Certificates by name, by the base of a wildcard, and one for all other
/// clients. A certificate goes by its number.
#[derive(Debug)]
pub struct RelaxedResolvesServerCertUsingSni {
    by_name: NameTable<u64>,
    by_wildcard: NameTable<u64>,
    default_cert: Option<u64>,
}

/// The three parts of a resolver.
pub ghost struct ResolverView {
    pub by_name: Map<Seq<char>, u64>,
    pub by_wildcard: Map<Seq<char>, u64>,
    pub default_cert: Option<u64>,
}

impl ResolverView {
    pub open spec fn empty() -> ResolverView {
        ResolverView { by_name: Map::empty(), by_wildcard: Map::empty(), default_cert: None }
    }

    /// The resolver with a certificate added under a name in lower case. The
    /// first certificate is also the one for all other clients.
    pub open spec fn added(self, lower: Seq<char>, cert: u64) -> ResolverView {
        ResolverView {
            by_name: if is_wildcard(lower) {
                self.by_name
            } else {
                self.by_name.insert(lower, cert)
            },
            by_wildcard: if is_wildcard(lower) {
                self.by_wildcard.insert(base_domain(lower), cert)
            } else {
                self.by_wildcard
            },
            default_cert: match self.default_cert {
                Some(first) => Some(first),
                None => Some(cert),
            },
        }
    }

    /// The certificate for a client: the one under the name it asks for, else
    /// the one of the wildcard one label above, else the default.
    pub open spec fn resolved(self, sni: Option<Seq<char>>) -> Option<u64> {
        match sni {
            None => self.default_cert,
            Some(name) => {
                let dot = first_index_of(name, '.');
                if self.by_name.contains_key(name) {
                    Some(self.by_name[name])
                } else if dot < name.len() && self.by_wildcard.contains_key(
                    name.subrange(dot + 1, name.len() as int),
                ) {
                    Some(self.by_wildcard[name.subrange(dot + 1, name.len() as int)])
                } else {
                    self.default_cert
                }
            },
        }
    }
}

impl View for RelaxedResolvesServerCertUsingSni {
    type V = ResolverView;

    closed spec fn view(&self) -> ResolverView {
        ResolverView {
            by_name: self.by_name@,
            by_wildcard: self.by_wildcard@,
            default_cert: self.default_cert,
        }
    }
}

/// What adding a certificate comes to, given what was found of its name.
pub open spec fn add_outcome(valid: bool, covered: bool) -> Result<(), AddError> {
    if !valid {
        Err(AddError::BadName)
    } else if !covered {
        Err(AddError::NotCovered)
    } else {
        Ok(())
    }
}

impl RelaxedResolvesServerCertUsingSni {
    pub fn new() -> (resolver: RelaxedResolvesServerCertUsingSni)
        ensures
            resolver@ == ResolverView::empty(),
    {
        RelaxedResolvesServerCertUsingSni {
            by_name: NameTable::new(),
            by_wildcard: NameTable::new(),
            default_cert: None,
        }
    }

    /// Adds a certificate under a name, if the name is one that a server can
    /// have and the certificate is issued for it.
    pub fn add(&mut self, name: &str, der: &Vec<u8>, cert: u64) -> (res: Result<(), AddError>)
        ensures
            res == add_outcome(
                is_server_name(tested_name(ascii_lowercase(name@))),
                certificate_covers(der@, tested_name(ascii_lowercase(name@))),
            ),
            res is Ok ==> final(self)@ == old(self)@.added(ascii_lowercase(name@), cert),
            res is Err ==> final(self)@ == old(self)@,
    {
        let lower: String = to_ascii_lowercase(name);
        let tested: String = tested_name_of(lower.as_str());
        let valid: bool = server_name_is_valid(tested.as_str());
        let covered: bool = certificate_is_for(der, tested.as_str());
        self.add_checked(lower, cert, valid, covered)
    }

    /// Adds a certificate under a name in lower case, given whether the name
    /// is valid and whether the certificate is issued for it.
    pub fn add_checked(&mut self, lower: String, cert: u64, valid: bool, covered: bool) -> (res: Result<(), AddError>)
        ensures
            res == add_outcome(valid, covered),
            res is Ok ==> final(self)@ == old(self)@.added(lower@, cert),
            res is Err ==> final(self)@ == old(self)@,
    {
        if !valid {
            return Err(AddError::BadName);
        }
        if !covered {
            return Err(AddError::NotCovered);
        }
        if self.default_cert.is_none() {
            self.default_cert = Some(cert);
        }
        proof {
            reveal_strlit("*.");
            assert("*."@ =~= seq!['*', '.']);
        }
        if has_prefix(lower.as_str(), "*.") {
            let n: usize = lower.as_str().unicode_len();
            let base: String = lower.as_str().substring_char(2, n).to_owned();
            self.by_wildcard.insert(base, cert);
        } else {
            self.by_name.insert(lower, cert);
        }
        Ok(())
    }

    /// The certificate for a client that asks for a name, or for none.
    pub fn resolve(&self, sni: Option<&str>) -> (cert: Option<u64>)
        ensures
            cert == self@.resolved(
                match sni {
                    Some(name) => Some(name@),
                    None => None,
                },
            ),
    {
        if let Some(name) = sni {
            if let Some(cert) = self.by_name.get(name) {
                return Some(*cert);
            }
            if let Some(dot) = find_char(name, '.') {
                let n: usize = name.unicode_len();
                if let Some(cert) = self.by_wildcard.get(name.substring_char(dot + 1, n)) {
                    return Some(*cert);
                }
            }
        }
        self.default_cert
    }
}

/// The name a certificate must be issued for to be added under `lower`.
pub fn tested_name_of(lower: &str) -> (tested: String)
    ensures
        tested@ == tested_name(lower@),
{
    proof {
        reveal_strlit("*.");
        assert("*."@ =~= seq!['*', '.']);
    }
    if has_prefix(lower, "*.") {
        let n: usize = lower.unicode_len();
        let mut tested = "dummy.".to_owned();
        tested.append(lower.substring_char(2, n));
        tested
    } else {
        lower.to_owned()
    }
}

/// A client that asks for a name under which a certificate was added gets that
/// certificate, whatever wildcards there are.
pub proof fn law_added_name_resolves(resolver: ResolverView, lower: Seq<char>, cert: u64)
    requires
        !is_wildcard(lower),
    ensures
        resolver.added(lower, cert).resolved(Some(lower)) == Some(cert),
{
}

/// A wildcard certificate serves the names one label below its base that have
/// no certificate of their own.
pub proof fn law_wildcard_serves_one_label(
    resolver: ResolverView,
    base: Seq<char>,
    label: Seq<char>,
    cert: u64,
)
    requires
        forall|i: int| 0 <= i < label.len() ==> label[i] != '.',
        !resolver.by_name.contains_key(label + seq!['.'] + base),
    ensures
        resolver.added(seq!['*', '.'] + base, cert).resolved(Some(label + seq!['.'] + base)) == Some(cert),
{
    let name = label + seq!['.'] + base;
    let pattern = seq!['*', '.'] + base;
    assert(pattern.subrange(0, 2) =~= seq!['*', '.']);
    assert(pattern.subrange(2, pattern.len() as int) =~= base);
    assert(name[label.len() as int] == '.');
    assert forall|i: int| 0 <= i < label.len() implies name[i] != '.' by {
        assert(name[i] == label[i]);
    }
    crate::text::lemma_first_index_is(name, '.', label.len() as int);
    assert(name.subrange(label.len() as int + 1, name.len() as int) =~= base);
}

/// A wildcard certificate changes nothing for a name that is not exactly one
/// label below its base, once there is a certificate for all other clients.
pub proof fn law_wildcard_serves_no_other_name(
    resolver: ResolverView,
    base: Seq<char>,
    label: Seq<char>,
    rest: Seq<char>,
    cert: u64,
)
    requires
        forall|i: int| 0 <= i < label.len() ==> label[i] != '.',
        rest != base,
        resolver.default_cert is Some,
    ensures
        resolver.added(seq!['*', '.'] + base, cert).resolved(Some(label + seq!['.'] + rest)) == resolver.resolved(
            Some(label + seq!['.'] + rest),
        ),
{
    let name = label + seq!['.'] + rest;
    let pattern = seq!['*', '.'] + base;
    assert(pattern.subrange(0, 2) =~= seq!['*', '.']);
    assert(pattern.subrange(2, pattern.len() as int) =~= base);
    assert(name[label.len() as int] == '.');
    assert forall|i: int| 0 <= i < label.len() implies name[i] != '.' by {
        assert(name[i] == label[i]);
    }
    crate::text::lemma_first_index_is(name, '.', label.len() as int);
    assert(name.subrange(label.len() as int + 1, name.len() as int) =~= rest);
}

/// Once a certificate was added, every client is served one.
pub proof fn law_every_client_is_served(resolver: ResolverView, lower: Seq<char>, cert: u64, sni: Option<Seq<char>>)
    ensures
        resolver.added(lower, cert).resolved(sni) is Some,
{
}

/// The certificate for clients that match nothing is the first that was added.
pub proof fn law_first_certificate_is_default(
    lower: Seq<char>,
    cert: u64,
    later: Seq<char>,
    other: u64,
)
    ensures
        ResolverView::empty().added(lower, cert).added(later, other).default_cert == Some(cert),
{
}

/// A certificate for a name is chosen over one for a wildcard, in whatever
/// order they were added.
pub proof fn law_name_beats_wildcard(
    resolver: ResolverView,
    base: Seq<char>,
    name: Seq<char>,
    cert: u64,
    wildcard_cert: u64,
)
    requires
        !is_wildcard(name),
    ensures
        resolver.added(seq!['*', '.'] + base, wildcard_cert).added(name, cert).resolved(Some(name)) == Some(cert),
        resolver.added(name, cert).added(seq!['*', '.'] + base, wildcard_cert).resolved(Some(name)) == Some(cert),
{
    let pattern = seq!['*', '.'] + base;
    assert(pattern.subrange(0, 2) =~= seq!['*', '.']);
}

/// Adding a certificate under a name changes nothing for another name, once
/// there is a certificate for those that are not known.
pub proof fn law_other_names_keep_their_certificate(
    resolver: ResolverView,
    name: Seq<char>,
    other: Seq<char>,
    cert: u64,
)
    requires
        !is_wildcard(name),
        other != name,
        resolver.default_cert is Some,
    ensures
        resolver.added(name, cert).resolved(Some(other)) == resolver.resolved(Some(other)),
        resolver.added(name, cert).resolved(None) == resolver.resolved(None),
{
}

/// A client that asks for no name, or for one that is not known, gets the
/// certificate that was added first.
pub proof fn law_unknown_client_gets_the_first(
    first: Seq<char>,
    cert: u64,
    later: Seq<char>,
    other_cert: u64,
    label: Seq<char>,
    rest: Seq<char>,
)
    requires
        forall|i: int| 0 <= i < label.len() ==> label[i] != '.',
        ascii_lowercase(first) == first && ascii_lowercase(later) == later,
        first != label + seq!['.'] + rest && later != label + seq!['.'] + rest,
        first != seq!['*', '.'] + rest && later != seq!['*', '.'] + rest,
    ensures
        ({
            let both = ResolverView::empty().added(first, cert).added(later, other_cert);
            &&& both.resolved(None) == Some(cert)
            &&& both.resolved(Some(label + seq!['.'] + rest)) == Some(cert)
        }),
{
    let name = label + seq!['.'] + rest;
    assert(name[label.len() as int] == '.');
    assert forall|i: int| 0 <= i < label.len() implies name[i] != '.' by {
        assert(name[i] == label[i]);
    }
    crate::text::lemma_first_index_is(name, '.', label.len() as int);
    assert(name.subrange(label.len() as int + 1, name.len() as int) =~= rest);
    assert forall|pattern: Seq<char>| is_wildcard(pattern) && #[trigger] base_domain(pattern) == rest implies pattern
        == seq!['*', '.'] + rest by {
        assert(pattern.subrange(0, 2) == seq!['*', '.']);
        assert(pattern =~= pattern.subrange(0, 2) + pattern.subrange(2, pattern.len() as int));
    }
    assert(is_wildcard(first) ==> base_domain(first) != rest);
    assert(is_wildcard(later) ==> base_domain(later) != rest);
}

/// Lower case holds no capital letter, keeps every other character, and is
/// the same for two texts that differ only in case.
pub proof fn law_lower_case_keeps_the_letters(s: Seq<char>, i: int)
    requires
        0 <= i < s.len(),
    ensures
        ascii_lowercase(s).len() == s.len(),
        !('A' <= ascii_lowercase(s)[i] <= 'Z'),
        !('A' <= s[i] <= 'Z') ==> ascii_lowercase(s)[i] == s[i],
        'A' <= s[i] <= 'Z' ==> ascii_lowercase(s)[i] as int - 'a' as int == s[i] as int - 'A' as int,
{
}

} // verus!
