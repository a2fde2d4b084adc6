//! What the service card and the heartbeat share: the kinds and labels of
//! their events, their errors, and the tags of an event.
//!
//! A tag is a list of strings that is not empty. The rules of both events are
//! stated over such lists; the tag and event types of the relay network are
//! handled in a few functions at the end of this file.

use vstd::prelude::*;

verus! {

/// The kind of the event that carries a service card.
pub const KIND_SERVICE_CARD: u16 = 31990;

/// The kind of the event that carries a heartbeat.
pub const KIND_HEARTBEAT: u16 = 31991;

/// The namespace of the labels of both events.
pub const LABEL_NAMESPACE: &'static str = "agent-discovery";

/// The label of a service card.
pub const LABEL_SERVICE_CARD: &'static str = "service-card";

/// The label of a heartbeat.
pub const LABEL_HEARTBEAT: &'static str = "heartbeat";

/// The kind of the event that carries a service card.
pub fn kind_service_card() -> (kind: u16)
    ensures
        kind == 31990,
{
    KIND_SERVICE_CARD
}

/// The kind of the event that carries a heartbeat.
pub fn kind_heartbeat() -> (kind: u16)
    ensures
        kind == 31991,
{
    KIND_HEARTBEAT
}

/// What can go wrong while building, signing or reading an event.
#[derive(Debug, Clone, PartialEq, Eq)]
pub enum Error {
    InvalidCapability(String),
    InvalidProtocol(String),
    RelayError(String),
    SigningError(String),
    ParseError(String),
    SerializationError(String),
    NostrError(String),
}

impl Error {
    /// The description of this error.
    pub fn message(&self) -> (text: String)
        ensures
            text@ == match *self {
                Error::InvalidCapability(m) => "Invalid capability: "@ + m@,
                Error::InvalidProtocol(m) => "Invalid protocol: "@ + m@,
                Error::RelayError(m) => "Relay error: "@ + m@,
                Error::SigningError(m) => "Signing error: "@ + m@,
                Error::ParseError(m) => "Parse error: "@ + m@,
                Error::SerializationError(m) => "Serialization error: "@ + m@,
                Error::NostrError(m) => "Nostr error: "@ + m@,
            },
    {
        let (mut text, detail) = match self {
            Error::InvalidCapability(m) => ("Invalid capability: ".to_owned(), m),
            Error::InvalidProtocol(m) => ("Invalid protocol: ".to_owned(), m),
            Error::RelayError(m) => ("Relay error: ".to_owned(), m),
            Error::SigningError(m) => ("Signing error: ".to_owned(), m),
            Error::ParseError(m) => ("Parse error: ".to_owned(), m),
            Error::SerializationError(m) => ("Serialization error: ".to_owned(), m),
            Error::NostrError(m) => ("Nostr error: ".to_owned(), m),
        };
        text.append(detail.as_str());
        text
    }
}

/// The strings of a list, each by its characters.
pub open spec fn strings_view(values: Seq<String>) -> Seq<Seq<char>> {
    Seq::new(values.len(), |i: int| values[i]@)
}

/// The tags of a list, each by the characters of its strings.
pub open spec fn tags_view(tags: Seq<Vec<String>>) -> Seq<Seq<Seq<char>>> {
    Seq::new(tags.len(), |i: int| strings_view(tags[i]@))
}

/// Whether the string `s` reads `text`.
pub(crate) fn is_text(s: &String, text: &str) -> (same: bool)
    ensures
        same == (s@ == text@),
{
    let other = text.to_owned();
    *s == other
}

/// A tag of two strings.
pub(crate) fn pair(first: &str, second: &str) -> (tag: Vec<String>)
    ensures
        strings_view(tag@) == seq![first@, second@],
{
    let mut tag: Vec<String> = Vec::new();
    tag.push(first.to_owned());
    tag.push(second.to_owned());
    assert(strings_view(tag@) =~= seq![first@, second@]);
    tag
}

/// A tag of three strings.
pub(crate) fn triple(first: &str, second: &str, third: &str) -> (tag: Vec<String>)
    ensures
        strings_view(tag@) == seq![first@, second@, third@],
{
    let mut tag: Vec<String> = Vec::new();
    tag.push(first.to_owned());
    tag.push(second.to_owned());
    tag.push(third.to_owned());
    assert(strings_view(tag@) =~= seq![first@, second@, third@]);
    tag
}

/// A copy of a list of strings.
pub(crate) fn copy_strings(values: &Vec<String>) -> (copy: Vec<String>)
    ensures
        strings_view(copy@) == strings_view(values@),
{
    let mut copy: Vec<String> = Vec::new();
    let mut i: usize = 0;
    while i < values.len()
        invariant
            i <= values@.len(),
            copy@.len() == i,
            forall|j: int| 0 <= j < i ==> copy@[j]@ == values@[j]@,
        decreases values@.len() - i,
    {
        copy.push(values[i].clone());
        i += 1;
    }
    assert(strings_view(copy@) =~= strings_view(values@));
    copy
}

/// The number that a text stands for, where it is a number below 65536.
pub uninterp spec fn spec_parse_u16(text: Seq<char>) -> Option<u16>;

/// Calls `str::parse::<u16>`. Assumed: the outcome depends on the text
/// alone.
#[verifier::external_body]
pub(crate) fn parse_u16(text: &str) -> (value: Option<u16>)
    ensures
        value == spec_parse_u16(text@),
{
    text.parse::<u16>().ok()
}

#[verifier::external_type_specification]
#[verifier::external_body]
pub struct ExTag(nostr::event::Tag);

#[verifier::external_type_specification]
#[verifier::external_body]
pub struct ExEvent(nostr::event::Event);

#[verifier::external_type_specification]
#[verifier::external_body]
pub struct ExKeys(nostr::key::Keys);

/// The strings that a tag holds, in order.
pub uninterp spec fn tag_values(tag: nostr::event::Tag) -> Seq<Seq<char>>;

/// The tags that an event holds, in order, each as its strings.
pub uninterp spec fn event_tags(event: nostr::event::Event) -> Seq<Seq<Seq<char>>>;

/// The tags of a list, each as the strings that it holds.
pub open spec fn tag_list_values(tags: Seq<nostr::event::Tag>) -> Seq<Seq<Seq<char>>> {
    Seq::new(tags.len(), |i: int| tag_values(tags[i]))
}

/// Calls `nostr::event::Tag::parse` on a list that is not empty. Assumed: the
/// tag holds the strings of the list, in order.
#[verifier::external_body]
pub(crate) fn make_tag(values: Vec<String>) -> (tag: nostr::event::Tag)
    requires
        values@.len() > 0,
    ensures
        tag_values(tag) == strings_view(values@),
{
    nostr::event::Tag::parse(values).unwrap()
}

/// Calls `nostr::event::Tag::as_slice` and copies the strings out.
#[verifier::external_body]
pub(crate) fn tag_strings(tag: &nostr::event::Tag) -> (values: Vec<String>)
    ensures
        strings_view(values@) == tag_values(*tag),
{
    tag.as_slice().to_vec()
}

/// Reads the field `tags` of a `nostr::event::Event` and copies the tags out.
#[verifier::external_body]
pub(crate) fn event_tag_list(event: &nostr::event::Event) -> (tags: Vec<nostr::event::Tag>)
    ensures
        tag_list_values(tags@) == event_tags(*event),
{
    event.tags.clone().to_vec()
}

/// Builds an event with `nostr::event::EventBuilder::new` and `tags`, and
/// signs it with `nostr::event::FinalizeEvent::finalize`. The event carries
/// the time of signing and a signature that is made with fresh randomness;
/// assumed is only that a signed event holds the tags that were given, in
/// order.
#[verifier::external_body]
pub(crate) fn sign_event(kind: u16, tags: Vec<nostr::event::Tag>, keys: &nostr::key::Keys) -> (r:
    Result<nostr::event::Event, String>)
    ensures
        r matches Ok(event) ==> event_tags(event) == tag_list_values(tags@),
{
    let builder = nostr::event::EventBuilder::new(nostr::event::Kind::Custom(kind), "").tags(tags);
    match nostr::event::FinalizeEvent::finalize(builder, keys) {
        Ok(event) => Ok(event),
        Err(e) => Err(e.to_string()),
    }
}

/// The tags of a list of tags of strings, each made into a tag of the relay
/// network.
pub fn make_tags(values: Vec<Vec<String>>) -> (tags: Vec<nostr::event::Tag>)
    requires
        forall|i: int| 0 <= i < values@.len() ==> (#[trigger] values@[i])@.len() > 0,
    ensures
        tag_list_values(tags@) == tags_view(values@),
{
    let mut tags: Vec<nostr::event::Tag> = Vec::new();
    let mut i: usize = 0;
    while i < values.len()
        invariant
            i <= values@.len(),
            tags@.len() == i,
            forall|j: int| 0 <= j < values@.len() ==> (#[trigger] values@[j])@.len() > 0,
            forall|j: int| 0 <= j < i ==> tag_values(#[trigger] tags@[j]) == strings_view(values@[j]@),
        decreases values@.len() - i,
    {
        let copy = copy_strings(&values[i]);
        assert(copy@.len() == strings_view(copy@).len());
        assert(values@[i as int]@.len() == strings_view(values@[i as int]@).len());
        tags.push(make_tag(copy));
        i += 1;
    }
    assert(tag_list_values(tags@) =~= tags_view(values@));
    tags
}

/// The tags of an event, each as its strings.
pub fn read_event_tags(event: &nostr::event::Event) -> (values: Vec<Vec<String>>)
    ensures
        tags_view(values@) == event_tags(*event),
{
    let tags = event_tag_list(event);
    let mut values: Vec<Vec<String>> = Vec::new();
    let mut i: usize = 0;
    while i < tags.len()
        invariant
            i <= tags@.len(),
            values@.len() == i,
            forall|j: int| 0 <= j < i ==> strings_view(#[trigger] values@[j]@) == tag_values(tags@[j]),
        decreases tags@.len() - i,
    {
        values.push(tag_strings(&tags[i]));
        i += 1;
    }
    assert(tags_view(values@) =~= tag_list_values(tags@));
    values
}

} // verus!
