//! The authority of an address: a host and, mostly, a port.

use crate::headers::text_of;
use crate::text::str_eq;
use vstd::prelude::*;

verus! {

/// What keeps a text from being the authority of an address, in words.
pub uninterp spec fn authority_error(text: Seq<char>) -> Option<Seq<char>>;

/// Whether a text can be the authority of an address.
pub open spec fn is_authority(text: Seq<char>) -> bool {
    authority_error(text) is None
}

/// The host of an authority.
pub uninterp spec fn authority_host(text: Seq<char>) -> Seq<char>;

/// The port of an authority, where it states one.
pub uninterp spec fn authority_port(text: Seq<char>) -> Option<u16>;

/// `http::uri::Authority::try_from`: the message of its error, where it does
/// not accept the text.
#[verifier::external_body]
fn authority_fault(text: &str) -> (fault: Option<String>)
    ensures
        text_of(fault) == authority_error(text@),
{
    http::uri::Authority::try_from(text).err().map(|error| error.to_string())
}

/// `http::uri::Authority::host`: the host of an authority.
#[verifier::external_body]
fn host_text(text: &str) -> (host: String)
    requires
        is_authority(text@),
    ensures
        host@ == authority_host(text@),
{
    http::uri::Authority::try_from(text).unwrap().host().to_owned()
}

/// `http::uri::Authority::port_u16`: the port of an authority.
#[verifier::external_body]
fn port_number(text: &str) -> (port: Option<u16>)
    requires
        is_authority(text@),
    ensures
        port == authority_port(text@),
{
    http::uri::Authority::try_from(text).unwrap().port_u16()
}

/// An authority.
#[derive(Debug)]
pub struct Authority {
    text: String,
}

impl View for Authority {
    type V = Seq<char>;

    closed spec fn view(&self) -> Seq<char> {
        self.text@
    }
}

impl Authority {
    #[verifier::type_invariant]
    spec fn inv(self) -> bool {
        is_authority(self.text@)
    }

    /// The authority with a text, where it can be one.
    pub fn parse(text: String) -> (authority: Result<Authority, String>)
        ensures
            match authority {
                Ok(a) => a@ == text@ && is_authority(text@),
                Err(fault) => authority_error(text@) == Some(fault@),
            },
    {
        match authority_fault(text.as_str()) {
            None => Ok(Authority { text }),
            Some(fault) => Err(fault),
        }
    }

    pub fn as_str(&self) -> (text: &str)
        ensures
            text@ == self@,
            is_authority(text@),
    {
        proof {
            use_type_invariant(self);
        }
        self.text.as_str()
    }

    /// Another copy of the authority.
    pub fn copy(&self) -> (copied: Authority)
        ensures
            copied@ == self@,
    {
        proof {
            use_type_invariant(self);
        }
        Authority { text: self.text.clone() }
    }

    pub fn host(&self) -> (host: String)
        ensures
            host@ == authority_host(self@),
    {
        host_text(self.as_str())
    }

    pub fn port(&self) -> (port: Option<u16>)
        ensures
            port == authority_port(self@),
    {
        port_number(self.as_str())
    }

    /// Whether two authorities have the same text.
    pub fn same(&self, other: &Authority) -> (yes: bool)
        ensures
            yes == (self@ == other@),
    {
        str_eq(self.as_str(), other.as_str())
    }
}

} // verus!
