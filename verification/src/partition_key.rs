//! By what the metrics of users and of the configuration are told apart.

use crate::headers::{header_text, text_of, FieldName, Fields, Headers};
use vstd::prelude::*;

verus! {

/// Where the name of a user comes from.
#[derive(Debug)]
pub enum SourceHeaderNameOrSni {
    HeaderName(FieldName),
    Sni,
}

/// Where the value of a key of the configuration comes from.
#[derive(Debug)]
pub enum SourceHeaderName {
    HeaderName(FieldName),
}

/// A key by which metrics are told apart, and the label it goes under.
#[derive(Debug)]
pub struct PartitionKey<P> {
    source: Option<P>,
    attribute_name: Option<String>,
}

impl<P> PartitionKey<P> {
    pub closed spec fn spec_source(&self) -> Option<P> {
        self.source
    }

    pub closed spec fn spec_attribute(&self) -> Option<Seq<char>> {
        text_of(self.attribute_name)
    }

    pub fn new() -> (key: PartitionKey<P>)
        ensures
            key.spec_source() is None,
            key.spec_attribute() is None,
    {
        PartitionKey { source: None, attribute_name: None }
    }

    pub fn source(&self) -> (source: Option<&P>)
        ensures
            source == (match self.spec_source() {
                Some(s) => Some(&s),
                None => None,
            }),
    {
        match &self.source {
            Some(source) => Some(source),
            None => None,
        }
    }

    pub fn set_source(&mut self, value: P)
        ensures
            final(self).spec_source() == Some(value),
            final(self).spec_attribute() == old(self).spec_attribute(),
    {
        self.source = Some(value);
    }

    pub fn attribute_name(&self) -> (name: Option<&str>)
        ensures
            match name {
                Some(n) => self.spec_attribute() == Some(n@),
                None => self.spec_attribute() is None,
            },
    {
        match &self.attribute_name {
            Some(name) => Some(name.as_str()),
            None => None,
        }
    }

    pub fn set_attribute_name(&mut self, value: String)
        ensures
            final(self).spec_source() == old(self).spec_source(),
            final(self).spec_attribute() == Some(value@),
    {
        self.attribute_name = Some(value);
    }

    /// The label that the key goes under, or another where none is set.
    pub fn attribute_or(&self, default_name: &str) -> (name: String)
        ensures
            name@ == (match self.spec_attribute() {
                Some(n) => n,
                None => default_name@,
            }),
    {
        match &self.attribute_name {
            Some(name) => name.clone(),
            None => default_name.to_owned(),
        }
    }
}

/// A key that the configuration asks for.
#[derive(Debug)]
pub struct KeyConfig<P> {
    pub source: P,
    pub attribute_name: Option<String>,
}

/// Whether a key is the one that the configuration asks for.
pub open spec fn is_configured_key<P>(key: PartitionKey<P>, config: KeyConfig<P>) -> bool {
    key.spec_source() == Some(config.source) && key.spec_attribute() == text_of(config.attribute_name)
}

impl<P> PartitionKey<P> {
    /// The key that the configuration asks for. Without a configuration there
    /// is no source for its values.
    pub fn configured(config: Option<KeyConfig<P>>) -> (key: PartitionKey<P>)
        ensures
            match config {
                Some(c) => is_configured_key(key, c),
                None => key.spec_source() is None && key.spec_attribute() is None,
            },
    {
        let mut key: PartitionKey<P> = PartitionKey::new();
        match config {
            Some(config) => {
                key.set_source(config.source);
                match config.attribute_name {
                    Some(name) => {
                        key.set_attribute_name(name);
                    },
                    None => {},
                }
            },
            None => {},
        }
        key
    }
}

/// The keys that the configuration asks for, in order.
pub fn configured_keys<P>(configs: Vec<KeyConfig<P>>) -> (keys: Vec<PartitionKey<P>>)
    ensures
        keys@.len() == configs@.len(),
        forall|i: int| 0 <= i < keys@.len() ==> is_configured_key(#[trigger] keys@[i], configs@[i]),
{
    let ghost all = configs@;
    let mut left: Vec<KeyConfig<P>> = configs;
    let mut keys: Vec<PartitionKey<P>> = Vec::new();
    while left.len() > 0
        invariant
            keys@.len() + left@.len() == all.len(),
            left@ == all.skip(keys@.len() as int),
            forall|i: int| 0 <= i < keys@.len() ==> is_configured_key(#[trigger] keys@[i], all[i]),
        decreases left@.len(),
    {
        let config: KeyConfig<P> = left.remove(0);
        keys.push(PartitionKey::configured(Some(config)));
        assert(left@ =~= all.skip(keys@.len() as int));
    }
    keys
}

/// The user of a request.
pub open spec fn user_of(
    fields: Fields,
    sni: Option<Seq<char>>,
    source: Option<SourceHeaderNameOrSni>,
) -> Option<Seq<char>> {
    match source {
        Some(SourceHeaderNameOrSni::HeaderName(name)) => header_text(fields, name@),
        Some(SourceHeaderNameOrSni::Sni) => sni,
        None => None,
    }
}

/// The user of a request: the readable value of a field, or the name that the
/// client asked for in its TLS handshake.
pub fn extract_user_partition_key(
    headers: &Headers,
    sni: &Option<String>,
    source: Option<&SourceHeaderNameOrSni>,
) -> (user: Option<String>)
    ensures
        text_of(user) == user_of(
            headers@,
            text_of(*sni),
            match source {
                Some(s) => Some(*s),
                None => None,
            },
        ),
{
    match source {
        Some(SourceHeaderNameOrSni::HeaderName(name)) => headers.get_text(name),
        Some(SourceHeaderNameOrSni::Sni) => match sni {
            Some(name) => Some(name.clone()),
            None => None,
        },
        None => None,
    }
}

/// The value of a key of the configuration: the readable value of a field.
pub fn extract_custom_partition_key(headers: &Headers, source: &Option<SourceHeaderName>) -> (value: Option<String>)
    ensures
        text_of(value) == (match source {
            Some(SourceHeaderName::HeaderName(name)) => header_text(headers@, name@),
            None => None,
        }),
{
    match source {
        Some(SourceHeaderName::HeaderName(name)) => headers.get_text(name),
        None => None,
    }
}

/// The labels of a request under the keys of the configuration, of which the
/// first `n` are looked at.
pub open spec fn custom_labels(
    keys: Seq<PartitionKey<SourceHeaderName>>,
    fields: Fields,
    n: int,
) -> crate::sharded::LabelsView
    decreases n,
{
    if n <= 0 {
        Seq::empty()
    } else {
        let before = custom_labels(keys, fields, n - 1);
        match keys[n - 1].spec_source() {
            Some(SourceHeaderName::HeaderName(name)) => match header_text(fields, name@) {
                Some(value) => before.push(
                    (
                        match keys[n - 1].spec_attribute() {
                            Some(attribute) => attribute,
                            None => "custom"@,
                        },
                        value,
                    ),
                ),
                None => before,
            },
            None => before,
        }
    }
}

/// The labels of a request under the keys of the configuration.
pub fn collect_custom_labels(keys: &Vec<PartitionKey<SourceHeaderName>>, headers: &Headers) -> (labels: Vec<
    (String, String),
>)
    ensures
        crate::sharded::labels_view(labels@) == custom_labels(keys@, headers@, keys@.len() as int),
{
    let mut labels: Vec<(String, String)> = Vec::new();
    let mut i: usize = 0;
    assert(crate::sharded::labels_view(labels@) =~= custom_labels(keys@, headers@, 0));
    while i < keys.len()
        invariant
            i <= keys@.len(),
            crate::sharded::labels_view(labels@) == custom_labels(keys@, headers@, i as int),
        decreases keys@.len() - i,
    {
        let ghost before = labels@;
        let key: &PartitionKey<SourceHeaderName> = &keys[i];
        match extract_custom_partition_key(headers, &key.source) {
            Some(value) => {
                labels.push((key.attribute_or("custom"), value));
                assert(crate::sharded::labels_view(labels@) =~= crate::sharded::labels_view(before).push(
                    (labels@.last().0@, labels@.last().1@),
                ));
            },
            None => {},
        }
        i = i + 1;
    }
    labels
}

/// A request is told apart by the field that is configured, or by the server
/// name, and by neither without a configuration.
pub proof fn law_user_comes_from_its_source(
    fields: Fields,
    other_fields: Fields,
    sni: Option<Seq<char>>,
    other_sni: Option<Seq<char>>,
    name: FieldName,
)
    requires
        header_text(fields, name@) == header_text(other_fields, name@),
    ensures
        user_of(fields, sni, Some(SourceHeaderNameOrSni::HeaderName(name))) == user_of(
            other_fields,
            other_sni,
            Some(SourceHeaderNameOrSni::HeaderName(name)),
        ),
        user_of(fields, sni, Some(SourceHeaderNameOrSni::HeaderName(name))) == header_text(fields, name@),
        user_of(fields, sni, Some(SourceHeaderNameOrSni::Sni)) == sni,
        user_of(fields, sni, None) is None,
{
}

/// A key whose field is there gives a label: the value of the field, under the
/// attribute of the key or else as `custom`.
pub proof fn law_key_with_its_field_labels(
    keys: Seq<PartitionKey<SourceHeaderName>>,
    fields: Fields,
    n: int,
    k: int,
    name: FieldName,
)
    requires
        0 <= k < n <= keys.len(),
        keys[k].spec_source() == Some(SourceHeaderName::HeaderName(name)),
        header_text(fields, name@) is Some,
    ensures
        keys[k].spec_attribute() matches Some(attribute) ==> custom_labels(keys, fields, n).contains(
            (attribute, header_text(fields, name@)->0),
        ),
        keys[k].spec_attribute() is None ==> custom_labels(keys, fields, n).contains(
            ("custom"@, header_text(fields, name@)->0),
        ),
    decreases n,
{
    let value = header_text(fields, name@)->0;
    let before = custom_labels(keys, fields, n - 1);
    let all = custom_labels(keys, fields, n);
    if k < n - 1 {
        law_key_with_its_field_labels(keys, fields, n - 1, k, name);
        assert forall|label: (Seq<char>, Seq<char>)| before.contains(label) implies #[trigger] all.contains(label) by {
            let i = choose|i: int| 0 <= i < before.len() && before[i] == label;
            assert(all[i] == label);
        }
    } else {
        assert(all.last() == all[all.len() - 1]);
    }
}

/// Every label comes from a key whose field is there, in the order of the keys.
pub proof fn law_labels_come_from_keys(keys: Seq<PartitionKey<SourceHeaderName>>, fields: Fields, n: int, i: int) -> (k:
    int)
    requires
        0 <= n <= keys.len(),
        0 <= i < custom_labels(keys, fields, n).len(),
    ensures
        i <= k < n,
        keys[k].spec_source() matches Some(SourceHeaderName::HeaderName(name)) && header_text(fields, name@) == Some(
            custom_labels(keys, fields, n)[i].1,
        ),
        keys[k].spec_attribute() is Some ==> keys[k].spec_attribute() == Some(custom_labels(keys, fields, n)[i].0),
    decreases n,
{
    let before = custom_labels(keys, fields, n - 1);
    lemma_no_more_labels_than_keys(keys, fields, n);
    if n > 0 && i < before.len() {
        law_labels_come_from_keys(keys, fields, n - 1, i)
    } else {
        lemma_no_more_labels_than_keys(keys, fields, n - 1);
        n - 1
    }
}

proof fn lemma_no_more_labels_than_keys(keys: Seq<PartitionKey<SourceHeaderName>>, fields: Fields, n: int)
    ensures
        custom_labels(keys, fields, n).len() <= if n < 0 {
            0
        } else {
            n
        },
    decreases n,
{
    if n > 0 {
        lemma_no_more_labels_than_keys(keys, fields, n - 1);
    }
}

} // verus!
