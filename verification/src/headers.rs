//! HTTP header fields, kept in the map of the `http` crate.

use crate::guest_memory::utf8_text;
use vstd::prelude::*;
use vstd::utf8::{decode_utf8, encode_utf8, is_ascii_chars, valid_utf8};

verus! {

/// The header map of the `http` crate.
#[verifier::external_type_specification]
#[verifier::external_body]
#[verifier::reject_recursive_types(T)]
pub struct ExHeaderMap<T>(http::HeaderMap<T>);

/// The header value of the `http` crate.
#[verifier::external_type_specification]
#[verifier::external_body]
pub struct ExHeaderValue(http::HeaderValue);

/// Values by the canonical name of their field; the values of one field in
/// the order in which they were added.
pub type Fields = Map<Seq<char>, Seq<Seq<u8>>>;

/// What a header map holds.
pub uninterp spec fn header_contents(map: http::HeaderMap) -> Map<Seq<char>, Seq<Seq<u8>>>;

/// The name that a text stands for as the name of a header field, in the
/// lower case form in which fields are compared, where it stands for one.
pub uninterp spec fn canonical_header_name(text: Seq<char>) -> Option<Seq<char>>;

/// Whether bytes can be the value of a header field: visible characters,
/// spaces and tabs, and anything beyond ASCII.
pub open spec fn valid_header_value(bytes: Seq<u8>) -> bool {
    forall|i: int| 0 <= i < bytes.len() ==> (#[trigger] bytes[i] >= 32 && bytes[i] != 127 || bytes[i] == 9)
}

/// The characters of a text, where there is one.
pub open spec fn text_of(text: Option<String>) -> Option<Seq<char>> {
    match text {
        Some(t) => Some(t@),
        None => None,
    }
}

/// The bytes of a value, where there is one.
pub open spec fn bytes_of(value: Option<Vec<u8>>) -> Option<Seq<u8>> {
    match value {
        Some(v) => Some(v@),
        None => None,
    }
}

/// The first value of a field, where the field is there.
pub open spec fn first_value(fields: Fields, name: Seq<char>) -> Option<Seq<u8>> {
    if fields.contains_key(name) {
        Some(fields[name][0])
    } else {
        None
    }
}

/// The first value of the field that a text names.
pub open spec fn first_value_under(fields: Fields, text: Seq<char>) -> Option<Seq<u8>> {
    match canonical_header_name(text) {
        Some(name) => first_value(fields, name),
        None => None,
    }
}

/// A header map without fields.
pub open spec fn no_fields() -> Fields {
    Map::empty()
}

/// The most fields for which the map promises room for another.
pub const ROOMY_FIELDS: u64 = 6_553;

/// Whether a map is sure to have room for another field.
pub open spec fn has_room(fields: Fields) -> bool {
    fields.dom().finite() && fields.dom().len() <= ROOMY_FIELDS
}

/// The values a list of fields holds under a name, in order.
pub open spec fn values_named(list: Seq<(String, Vec<u8>)>, name: Seq<char>) -> Seq<Seq<u8>>
    decreases list.len(),
{
    if list.len() == 0 {
        Seq::empty()
    } else if list.last().0@ == name {
        values_named(list.drop_last(), name).push(list.last().1@)
    } else {
        values_named(list.drop_last(), name)
    }
}

/// The values of a field, or none.
pub open spec fn values_of(fields: Fields, name: Seq<char>) -> Seq<Seq<u8>> {
    if fields.contains_key(name) {
        fields[name]
    } else {
        Seq::empty()
    }
}

/// `http::HeaderName::from_bytes`: the name a text stands for. A name in its
/// canonical form stands for itself.
#[verifier::external_body]
fn canonical_name(text: &str) -> (name: Option<String>)
    ensures
        text_of(name) == canonical_header_name(text@),
        name matches Some(n) ==> canonical_header_name(n@) == Some(n@),
{
    http::HeaderName::from_bytes(text.as_bytes()).ok().map(|name| name.as_str().to_owned())
}

/// `http::header::HOST`: the name of the field with the host of a request.
#[verifier::external_body]
fn host_text() -> (name: String)
    ensures
        name@ == "host"@,
        canonical_header_name(name@) == Some(name@),
{
    http::header::HOST.as_str().to_owned()
}

/// `http::header::CONTENT_LENGTH`: the name of the field with the length of a body.
#[verifier::external_body]
fn content_length_text() -> (name: String)
    ensures
        name@ == "content-length"@,
        canonical_header_name(name@) == Some(name@),
{
    http::header::CONTENT_LENGTH.as_str().to_owned()
}

/// `http::HeaderMap::new`: a map without fields.
#[verifier::external_body]
fn map_new() -> (map: http::HeaderMap)
    ensures
        header_contents(map) == no_fields(),
{
    http::HeaderMap::new()
}

/// The `Clone` of `http::HeaderMap`: a map with the same fields.
#[verifier::external_body]
fn map_clone(map: &http::HeaderMap) -> (copied: http::HeaderMap)
    ensures
        header_contents(copied) == header_contents(*map),
{
    map.clone()
}

/// `http::HeaderMap::get`: the first value of the field that a text names. A
/// text that names none has no value.
#[verifier::external_body]
fn map_get(map: &http::HeaderMap, name: &str) -> (value: Option<Vec<u8>>)
    ensures
        bytes_of(value) == first_value_under(header_contents(*map), name@),
{
    map.get(name).map(|value| value.as_bytes().to_vec())
}

/// `http::HeaderMap::try_insert`: puts a value under a name in place of all
/// that were there, unless the map has reached its largest size. It has not
/// while it holds few fields.
#[verifier::external_body]
fn map_try_insert(map: &mut http::HeaderMap, name: &str, value: &Vec<u8>) -> (done: bool)
    requires
        canonical_header_name(name@) == Some(name@),
        valid_header_value(value@),
    ensures
        done ==> header_contents(*final(map)) == header_contents(*old(map)).insert(name@, seq![value@]),
        !done ==> header_contents(*final(map)) == header_contents(*old(map)),
        has_room(header_contents(*old(map))) ==> done,
{
    map.try_insert(
        http::HeaderName::from_bytes(name.as_bytes()).unwrap(),
        http::HeaderValue::from_bytes(value).unwrap(),
    ).is_ok()
}

/// `http::HeaderMap::try_append`: adds a value to those under a name, unless
/// the map has reached its largest size. It has not while it holds few fields.
#[verifier::external_body]
fn map_try_append(map: &mut http::HeaderMap, name: &str, value: &Vec<u8>) -> (done: bool)
    requires
        canonical_header_name(name@) == Some(name@),
        valid_header_value(value@),
    ensures
        done ==> header_contents(*final(map)) == header_contents(*old(map)).insert(
            name@,
            values_of(header_contents(*old(map)), name@).push(value@),
        ),
        !done ==> header_contents(*final(map)) == header_contents(*old(map)),
        has_room(header_contents(*old(map))) ==> done,
{
    map.try_append(
        http::HeaderName::from_bytes(name.as_bytes()).unwrap(),
        http::HeaderValue::from_bytes(value).unwrap(),
    ).is_ok()
}

/// `http::HeaderMap::remove`: takes out a field with all its values.
#[verifier::external_body]
fn map_remove(map: &mut http::HeaderMap, name: &str)
    requires
        canonical_header_name(name@) == Some(name@),
    ensures
        header_contents(*final(map)) == header_contents(*old(map)).remove(name@),
{
    map.remove(name);
}

/// `http::HeaderMap::iter`: every field with every value, those of one field
/// in the order in which they were added. The names are canonical and the
/// values valid. In what order the fields come is left open.
#[verifier::external_body]
fn map_list(map: &http::HeaderMap) -> (list: Vec<(String, Vec<u8>)>)
    ensures
        forall|name: Seq<char>|
            #[trigger] values_named(list@, name) == values_of(header_contents(*map), name),
        forall|i: int|
            0 <= i < list@.len() ==> canonical_header_name((#[trigger] list@[i]).0@) == Some(list@[i].0@)
                && valid_header_value(list@[i].1@),
{
    map.iter().map(|(name, value)| (name.as_str().to_owned(), value.as_bytes().to_vec())).collect()
}

/// The name of a header field, in its canonical form.
#[derive(Debug)]
pub struct FieldName {
    text: String,
}

impl View for FieldName {
    type V = Seq<char>;

    closed spec fn view(&self) -> Seq<char> {
        self.text@
    }
}

impl FieldName {
    #[verifier::type_invariant]
    spec fn inv(self) -> bool {
        canonical_header_name(self.text@) == Some(self.text@)
    }

    /// The name that a text stands for.
    pub fn parse(text: &str) -> (name: Option<FieldName>)
        ensures
            match name {
                Some(n) => canonical_header_name(text@) == Some(n@),
                None => canonical_header_name(text@) is None,
            },
    {
        match canonical_name(text) {
            Some(text) => Some(FieldName { text }),
            None => None,
        }
    }

    /// The name of the field with the host of a request.
    pub fn host() -> (name: FieldName)
        ensures
            name@ == "host"@,
    {
        FieldName { text: host_text() }
    }

    /// The name of the field with the length of a body.
    pub fn content_length() -> (name: FieldName)
        ensures
            name@ == "content-length"@,
    {
        FieldName { text: content_length_text() }
    }

    /// Another copy of the name.
    pub fn copy(&self) -> (copied: FieldName)
        ensures
            copied@ == self@,
    {
        proof {
            use_type_invariant(self);
        }
        FieldName { text: self.text.clone() }
    }

    pub fn as_str(&self) -> (text: &str)
        ensures
            text@ == self@,
            canonical_header_name(text@) == Some(text@),
    {
        proof {
            use_type_invariant(self);
        }
        self.text.as_str()
    }
}

/// The value of a header field.
#[derive(Debug)]
pub struct FieldValue {
    bytes: Vec<u8>,
}

impl View for FieldValue {
    type V = Seq<u8>;

    closed spec fn view(&self) -> Seq<u8> {
        self.bytes@
    }
}

impl FieldValue {
    #[verifier::type_invariant]
    spec fn inv(self) -> bool {
        valid_header_value(self.bytes@)
    }

    /// The value with some bytes, where they can be one.
    pub fn from_bytes(bytes: Vec<u8>) -> (value: Option<FieldValue>)
        ensures
            match value {
                Some(v) => v@ == bytes@ && valid_header_value(bytes@),
                None => !valid_header_value(bytes@),
            },
    {
        let mut i: usize = 0;
        while i < bytes.len()
            invariant
                i <= bytes@.len(),
                forall|j: int| 0 <= j < i ==> (#[trigger] bytes@[j] >= 32 && bytes@[j] != 127 || bytes@[j] == 9),
            decreases bytes@.len() - i,
        {
            let b: u8 = bytes[i];
            if !(b >= 32 && b != 127 || b == 9) {
                return None;
            }
            i = i + 1;
        }
        Some(FieldValue { bytes })
    }

    fn bytes(&self) -> (bytes: &Vec<u8>)
        ensures
            bytes@ == self@,
            valid_header_value(bytes@),
    {
        proof {
            use_type_invariant(self);
        }
        &self.bytes
    }
}

/// Whether a value is readable as text: visible ASCII, spaces and tabs.
pub open spec fn is_readable(bytes: Seq<u8>) -> bool {
    forall|i: int| 0 <= i < bytes.len() ==> (32 <= #[trigger] bytes[i] < 127 || bytes[i] == 9)
}

/// The text of a readable value.
pub open spec fn readable_text(bytes: Seq<u8>) -> Seq<char> {
    Seq::new(bytes.len(), |i: int| bytes[i] as char)
}

/// The text of the first value of a field, where it is there and readable.
pub open spec fn header_text(fields: Fields, name: Seq<char>) -> Option<Seq<char>> {
    match first_value(fields, name) {
        Some(bytes) => if is_readable(bytes) {
            Some(readable_text(bytes))
        } else {
            None
        },
        None => None,
    }
}

/// The text of a value, where it is readable.
pub fn to_text(bytes: &Vec<u8>) -> (text: Option<String>)
    ensures
        match text {
            Some(t) => is_readable(bytes@) && t@ == readable_text(bytes@),
            None => !is_readable(bytes@),
        },
{
    let mut i: usize = 0;
    while i < bytes.len()
        invariant
            i <= bytes@.len(),
            forall|j: int| 0 <= j < i ==> (32 <= #[trigger] bytes@[j] < 127 || bytes@[j] == 9),
        decreases bytes@.len() - i,
    {
        let b: u8 = bytes[i];
        if !(b >= 32 && b < 127 || b == 9) {
            return None;
        }
        i = i + 1;
    }
    proof {
        let chars = readable_text(bytes@);
        assert(is_ascii_chars(chars));
        vstd::utf8::is_ascii_chars_encode_utf8(chars);
        assert(encode_utf8(chars) =~= bytes@);
        vstd::utf8::encode_utf8_valid_utf8(chars);
        vstd::utf8::encode_utf8_decode_utf8(chars);
        assert(valid_utf8(bytes@) && decode_utf8(bytes@) == chars);
    }
    utf8_text(bytes)
}

/// A header map that takes no further field.
#[derive(Debug, Clone, Copy, PartialEq, Eq, Structural)]
pub struct HeadersFull;

/// The fields of a message.
#[derive(Debug)]
pub struct Headers {
    map: http::HeaderMap,
}

impl View for Headers {
    type V = Fields;

    closed spec fn view(&self) -> Fields {
        header_contents(self.map)
    }
}

impl Headers {
    pub fn new() -> (headers: Headers)
        ensures
            headers@ == no_fields(),
    {
        Headers { map: map_new() }
    }

    /// The same fields once more.
    pub fn copy(&self) -> (copied: Headers)
        ensures
            copied@ == self@,
    {
        Headers { map: map_clone(&self.map) }
    }

    /// The first value of the field that a text names.
    pub fn get(&self, name: &str) -> (value: Option<Vec<u8>>)
        ensures
            bytes_of(value) == first_value_under(self@, name@),
    {
        map_get(&self.map, name)
    }

    /// The text of the first value of a field, where it is there and readable.
    pub fn get_text(&self, name: &FieldName) -> (text: Option<String>)
        ensures
            text_of(text) == header_text(self@, name@),
    {
        match self.get(name.as_str()) {
            Some(value) => to_text(&value),
            None => None,
        }
    }

    /// Whether a field is there.
    pub fn contains_key(&self, name: &FieldName) -> (yes: bool)
        ensures
            yes == self@.contains_key(name@),
    {
        map_get(&self.map, name.as_str()).is_some()
    }

    /// Puts a value under a name in place of all that were there.
    pub fn insert(&mut self, name: &FieldName, value: &FieldValue) -> (res: Result<(), HeadersFull>)
        ensures
            res is Ok ==> final(self)@ == old(self)@.insert(name@, seq![value@]),
            res is Err ==> final(self)@ == old(self)@ && !has_room(old(self)@),
    {
        if map_try_insert(&mut self.map, name.as_str(), value.bytes()) {
            Ok(())
        } else {
            Err(HeadersFull)
        }
    }

    /// Adds a value to those under a name.
    pub fn append(&mut self, name: &FieldName, value: &FieldValue) -> (res: Result<(), HeadersFull>)
        ensures
            res is Ok ==> final(self)@ == old(self)@.insert(name@, values_of(old(self)@, name@).push(value@)),
            res is Err ==> final(self)@ == old(self)@ && !has_room(old(self)@),
    {
        if map_try_append(&mut self.map, name.as_str(), value.bytes()) {
            Ok(())
        } else {
            Err(HeadersFull)
        }
    }

    /// Takes out a field with all its values.
    pub fn remove(&mut self, name: &FieldName)
        ensures
            final(self)@ == old(self)@.remove(name@),
    {
        map_remove(&mut self.map, name.as_str());
    }

    /// Every field with every value.
    pub fn list(&self) -> (list: Vec<(String, Vec<u8>)>)
        ensures
            forall|name: Seq<char>| #[trigger] values_named(list@, name) == values_of(self@, name),
    {
        map_list(&self.map)
    }

    /// The same fields, each with its first value alone. `None` when they
    /// are more than a map is sure to take.
    pub fn first_values(&self) -> (headers: Option<Headers>)
        ensures
            headers matches Some(h) ==> h@ == firsts(self@),
            headers is None ==> !has_room(self@),
    {
        let list = map_list(&self.map);
        let mut headers = Headers::new();
        let mut i: usize = 0;
        while i < list.len()
            invariant
                i <= list@.len(),
                forall|name: Seq<char>|
                    #[trigger] values_named(list@, name) == values_of(header_contents(self.map), name),
                forall|k: int|
                    0 <= k < list@.len() ==> canonical_header_name((#[trigger] list@[k]).0@) == Some(list@[k].0@)
                        && valid_header_value(list@[k].1@),
                forall|name: Seq<char>|
                    #[trigger] headers@.contains_key(name) <==> values_named(list@.take(i as int), name).len() > 0,
                forall|name: Seq<char>|
                    #[trigger] headers@.contains_key(name) ==> headers@[name] == seq![
                        values_named(list@.take(i as int), name)[0],
                    ],
            decreases list@.len() - i,
        {
            let ghost before = headers@;
            let ghost taken = list@.take(i + 1);
            assert(taken.drop_last() =~= list@.take(i as int));
            assert(taken.last() == list@[i as int]);
            assert(canonical_header_name(list@[i as int].0@) == Some(list@[i as int].0@));
            let name = FieldName { text: list[i].0.clone() };
            if !headers.contains_key(&name) {
                let bytes: Vec<u8> = list[i].1.clone();
                assert(bytes@ =~= list@[i as int].1@);
                let value = FieldValue { bytes };
                if headers.insert(&name, &value).is_err() {
                    proof {
                        assert forall|n: Seq<char>| before.dom().contains(n) implies self@.dom().contains(n) by {
                            assert(before.contains_key(n));
                            lemma_values_named_grow(list@, n, i as int);
                            assert(values_named(list@, n) == values_of(self@, n));
                        }
                        if has_room(self@) {
                            vstd::set_lib::lemma_len_subset(before.dom(), self@.dom());
                        }
                    }
                    return None;
                }
                assert(headers@ == before.insert(name@, seq![value@]));
            }
            assert forall|n: Seq<char>| #[trigger] headers@.contains_key(n) <==> values_named(taken, n).len() > 0 by {
                assert(before.contains_key(n) <==> values_named(list@.take(i as int), n).len() > 0);
            }
            assert forall|n: Seq<char>| #[trigger] headers@.contains_key(n) implies headers@[n] == seq![
                values_named(taken, n)[0],
            ] by {
                assert(before.contains_key(n) <==> values_named(list@.take(i as int), n).len() > 0);
            }
            i = i + 1;
        }
        assert(list@.take(list@.len() as int) =~= list@);
        proof {
            let want = firsts(self@);
            assert forall|n: Seq<char>| headers@.contains_key(n) == want.contains_key(n) by {
                assert(values_named(list@, n) == values_of(self@, n));
            }
            assert forall|n: Seq<char>| headers@.contains_key(n) implies headers@[n] == want[n] by {
                assert(values_named(list@, n) == values_of(self@, n));
            }
            assert(headers@ =~= want);
        }
        Some(headers)
    }
}

/// A longer list holds no fewer values under a name.
proof fn lemma_values_named_grow(list: Seq<(String, Vec<u8>)>, name: Seq<char>, n: int)
    requires
        0 <= n <= list.len(),
    ensures
        values_named(list.take(n), name).len() <= values_named(list, name).len(),
    decreases list.len(),
{
    if n == list.len() {
        assert(list.take(n) =~= list);
    } else {
        lemma_values_named_grow(list.drop_last(), name, n);
        assert(list.drop_last().take(n) =~= list.take(n));
    }
}

/// The fields that have a value, each with its first value alone.
pub open spec fn firsts(fields: Fields) -> Fields {
    Map::new(
        |name: Seq<char>| values_of(fields, name).len() > 0,
        |name: Seq<char>| seq![values_of(fields, name)[0]],
    )
}

/// A change to the fields of a message.
#[derive(Debug)]
pub enum HeaderMutation {
    Put(FieldName, FieldValue),
    Add(FieldName, FieldValue),
    Replace(FieldName, FieldValue),
    Remove(FieldName),
}

/// A change as its effect is described.
pub ghost enum MutationView {
    Put(Seq<char>, Seq<u8>),
    Add(Seq<char>, Seq<u8>),
    Replace(Seq<char>, Seq<u8>),
    Remove(Seq<char>),
}

impl View for HeaderMutation {
    type V = MutationView;

    open spec fn view(&self) -> MutationView {
        match self {
            HeaderMutation::Put(name, value) => MutationView::Put(name@, value@),
            HeaderMutation::Add(name, value) => MutationView::Add(name@, value@),
            HeaderMutation::Replace(name, value) => MutationView::Replace(name@, value@),
            HeaderMutation::Remove(name) => MutationView::Remove(name@),
        }
    }
}

/// The fields after one change.
pub open spec fn mutated(fields: Fields, mutation: MutationView) -> Fields {
    match mutation {
        MutationView::Put(name, value) => fields.insert(name, seq![value]),
        MutationView::Add(name, value) => fields.insert(name, values_of(fields, name).push(value)),
        MutationView::Replace(name, value) => if fields.contains_key(name) {
            fields.insert(name, seq![value])
        } else {
            fields
        },
        MutationView::Remove(name) => fields.remove(name),
    }
}

/// The fields after a list of changes.
pub open spec fn mutated_by(fields: Fields, mutations: Seq<HeaderMutation>) -> Fields
    decreases mutations.len(),
{
    if mutations.len() == 0 {
        fields
    } else {
        mutated(mutated_by(fields, mutations.drop_last()), mutations.last()@)
    }
}

/// Makes one change to the fields of a message.
pub fn apply_mutation(headers: &mut Headers, mutation: &HeaderMutation) -> (res: Result<(), HeadersFull>)
    ensures
        res is Ok ==> final(headers)@ == mutated(old(headers)@, mutation@),
        res is Err ==> final(headers)@ == old(headers)@ && !has_room(old(headers)@) && *mutation !is Remove,
{
    match mutation {
        HeaderMutation::Put(name, value) => headers.insert(name, value),
        HeaderMutation::Add(name, value) => headers.append(name, value),
        HeaderMutation::Replace(name, value) => {
            if headers.contains_key(name) {
                headers.insert(name, value)
            } else {
                Ok(())
            }
        },
        HeaderMutation::Remove(name) => {
            headers.remove(name);
            Ok(())
        },
    }
}

/// Makes a list of changes, one after the other. Where the map gets full the
/// changes before that stay made; the result tells how many those are.
pub fn apply_mutations_to_map(headers: &mut Headers, mutations: &Vec<HeaderMutation>) -> (made: usize)
    ensures
        made <= mutations@.len(),
        final(headers)@ == mutated_by(old(headers)@, mutations@.take(made as int)),
        made < mutations@.len() ==> !has_room(final(headers)@),
{
    let mut i: usize = 0;
    assert(mutations@.take(0) =~= Seq::<HeaderMutation>::empty());
    while i < mutations.len()
        invariant
            i <= mutations@.len(),
            headers@ == mutated_by(old(headers)@, mutations@.take(i as int)),
        decreases mutations@.len() - i,
    {
        assert(mutations@.take(i + 1).drop_last() =~= mutations@.take(i as int));
        if apply_mutation(headers, &mutations[i]).is_err() {
            return i;
        }
        i = i + 1;
    }
    i
}

/// A value that was put is the one that is found, and no other field changed.
pub proof fn law_put_is_found(fields: Fields, name: Seq<char>, value: Seq<u8>, other: Seq<char>)
    requires
        other != name,
    ensures
        first_value(mutated(fields, MutationView::Put(name, value)), name) == Some(value),
        values_of(mutated(fields, MutationView::Put(name, value)), name) == seq![value],
        values_of(mutated(fields, MutationView::Put(name, value)), other) == values_of(fields, other),
{
}

/// Adding a value keeps the ones before it, in their order.
pub proof fn law_add_keeps_values(fields: Fields, name: Seq<char>, value: Seq<u8>)
    ensures
        values_of(mutated(fields, MutationView::Add(name, value)), name) == values_of(fields, name).push(value),
{
}

/// A removed field is gone, and removing it again changes nothing.
pub proof fn law_remove_is_final(fields: Fields, name: Seq<char>)
    ensures
        first_value(mutated(fields, MutationView::Remove(name)), name) is None,
        mutated(mutated(fields, MutationView::Remove(name)), MutationView::Remove(name)) == mutated(
            fields,
            MutationView::Remove(name),
        ),
{
    assert(mutated(mutated(fields, MutationView::Remove(name)), MutationView::Remove(name)) =~= mutated(
        fields,
        MutationView::Remove(name),
    ));
}

/// Replacing makes no field that was not there.
pub proof fn law_replace_adds_no_field(fields: Fields, name: Seq<char>, value: Seq<u8>)
    ensures
        mutated(fields, MutationView::Replace(name, value)).dom() == fields.dom(),
{
    assert(mutated(fields, MutationView::Replace(name, value)).dom() =~= fields.dom());
}

} // verus!
