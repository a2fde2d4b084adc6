//! The service card: what an agent can do and how it can be reached.

use crate::canonical::{decimal, push_decimal};
use crate::discovery::{
    event_tags, is_text, make_tags, pair, parse_u16, read_event_tags, sign_event,
    spec_parse_u16, strings_view, tag_list_values, tags_view, triple, Error, KIND_SERVICE_CARD,
    LABEL_NAMESPACE, LABEL_SERVICE_CARD,
};
use vstd::prelude::*;

verus! {

/// Something that an agent can do.
#[derive(Debug, Clone, PartialEq, Eq)]
pub struct Capability {
    pub id: String,
    pub description: String,
}

/// A capability as plain values.
pub struct CapabilityView {
    pub id: Seq<char>,
    pub description: Seq<char>,
}

impl View for Capability {
    type V = CapabilityView;

    open spec fn view(&self) -> CapabilityView {
        CapabilityView { id: self.id@, description: self.description@ }
    }
}

/// The tag of a capability.
pub open spec fn spec_capability_tag(c: CapabilityView) -> Seq<Seq<char>> {
    seq!["c"@, c.id, c.description]
}

impl Capability {
    /// The capability `id` with its description.
    pub fn new(id: &str, description: &str) -> (c: Self)
        ensures
            c@ == (CapabilityView { id: id@, description: description@ }),
    {
        Capability { id: id.to_owned(), description: description.to_owned() }
    }

    /// The tag of this capability, as its strings.
    pub fn tag_values(&self) -> (tag: Vec<String>)
        ensures
            strings_view(tag@) == spec_capability_tag(self@),
    {
        triple("c", self.id.as_str(), self.description.as_str())
    }

    /// The tag of this capability.
    pub fn to_tag(&self) -> (tag: nostr::event::Tag)
        ensures
            crate::discovery::tag_values(tag) == spec_capability_tag(self@),
    {
        let values = self.tag_values();
        assert(strings_view(values@).len() == values@.len());
        crate::discovery::make_tag(values)
    }
}

/// A way of reaching an agent. Each variant carries what it needs.
#[derive(Debug, Clone, PartialEq, Eq)]
pub enum Protocol {
    /// Direct messages: the relays on which the agent listens.
    Dm { relays: String },
    /// Data vending machine: the relays, and the kinds of job that are taken.
    Dvm { relays: String, kinds: Vec<u16> },
    /// Agent-to-agent: the address of the agent card.
    A2a { url: String },
    /// Model context protocol: the address of the server.
    Mcp { url: String },
    /// HTTP: the address of the interface.
    Http { url: String },
    /// Any other protocol, by its own name.
    Custom { id: String, endpoint: String },
}

/// A protocol as plain values.
pub enum ProtocolView {
    Dm { relays: Seq<char> },
    Dvm { relays: Seq<char>, kinds: Seq<u16> },
    A2a { url: Seq<char> },
    Mcp { url: Seq<char> },
    Http { url: Seq<char> },
    Custom { id: Seq<char>, endpoint: Seq<char> },
}

impl View for Protocol {
    type V = ProtocolView;

    open spec fn view(&self) -> ProtocolView {
        match self {
            Protocol::Dm { relays } => ProtocolView::Dm { relays: relays@ },
            Protocol::Dvm { relays, kinds } => ProtocolView::Dvm { relays: relays@, kinds: kinds@ },
            Protocol::A2a { url } => ProtocolView::A2a { url: url@ },
            Protocol::Mcp { url } => ProtocolView::Mcp { url: url@ },
            Protocol::Http { url } => ProtocolView::Http { url: url@ },
            Protocol::Custom { id, endpoint } => ProtocolView::Custom {
                id: id@,
                endpoint: endpoint@,
            },
        }
    }
}

impl ProtocolView {
    /// The name of the protocol.
    pub open spec fn id(self) -> Seq<char> {
        match self {
            ProtocolView::Dm { .. } => "dm"@,
            ProtocolView::Dvm { .. } => "dvm"@,
            ProtocolView::A2a { .. } => "a2a"@,
            ProtocolView::Mcp { .. } => "mcp"@,
            ProtocolView::Http { .. } => "http"@,
            ProtocolView::Custom { id, .. } => id,
        }
    }

    /// Where the agent is reached by the protocol.
    pub open spec fn endpoint(self) -> Seq<char> {
        match self {
            ProtocolView::Dm { relays } => relays,
            ProtocolView::Dvm { relays, .. } => relays,
            ProtocolView::A2a { url } => url,
            ProtocolView::Mcp { url } => url,
            ProtocolView::Http { url } => url,
            ProtocolView::Custom { endpoint, .. } => endpoint,
        }
    }

    /// The kinds of job of a data vending machine; none for another protocol.
    pub open spec fn kinds(self) -> Seq<u16> {
        match self {
            ProtocolView::Dvm { kinds, .. } => kinds,
            _ => Seq::empty(),
        }
    }

    /// This protocol with the kinds of job `kinds`, where it is a data
    /// vending machine; else this protocol.
    pub open spec fn with_kinds(self, kinds: Seq<u16>) -> ProtocolView {
        match self {
            ProtocolView::Dvm { relays, .. } => ProtocolView::Dvm { relays, kinds },
            other => other,
        }
    }
}

/// The protocol that the name `id` stands for, reached at `endpoint`. A data
/// vending machine starts without kinds of job.
pub open spec fn spec_protocol_of(id: Seq<char>, endpoint: Seq<char>) -> ProtocolView {
    if id == "dm"@ {
        ProtocolView::Dm { relays: endpoint }
    } else if id == "dvm"@ {
        ProtocolView::Dvm { relays: endpoint, kinds: Seq::empty() }
    } else if id == "a2a"@ {
        ProtocolView::A2a { url: endpoint }
    } else if id == "mcp"@ {
        ProtocolView::Mcp { url: endpoint }
    } else if id == "http"@ {
        ProtocolView::Http { url: endpoint }
    } else {
        ProtocolView::Custom { id, endpoint }
    }
}

/// The tags that name the kinds of job, one for each.
pub open spec fn spec_kind_tags(kinds: Seq<u16>) -> Seq<Seq<Seq<char>>> {
    Seq::new(kinds.len(), |i: int| seq!["k"@, decimal(kinds[i] as int)])
}

/// The tags of a protocol: its name and endpoint, and for a data vending
/// machine one tag for each kind of job.
pub open spec fn spec_protocol_tags(p: ProtocolView) -> Seq<Seq<Seq<char>>> {
    seq![seq!["r"@, p.id(), p.endpoint()]] + spec_kind_tags(p.kinds())
}

/// The protocol that the name `id` stands for, reached at `endpoint`.
pub fn protocol_of(id: &str, endpoint: String) -> (p: Protocol)
    ensures
        p@ == spec_protocol_of(id@, endpoint@),
{
    let name = id.to_owned();
    if is_text(&name, "dm") {
        Protocol::Dm { relays: endpoint }
    } else if is_text(&name, "dvm") {
        Protocol::Dvm { relays: endpoint, kinds: Vec::new() }
    } else if is_text(&name, "a2a") {
        Protocol::A2a { url: endpoint }
    } else if is_text(&name, "mcp") {
        Protocol::Mcp { url: endpoint }
    } else if is_text(&name, "http") {
        Protocol::Http { url: endpoint }
    } else {
        Protocol::Custom { id: name, endpoint }
    }
}

/// A copy of a list of kinds.
fn copy_kinds(kinds: &Vec<u16>) -> (copy: Vec<u16>)
    ensures
        copy@ == kinds@,
{
    let mut copy: Vec<u16> = Vec::new();
    let mut i: usize = 0;
    while i < kinds.len()
        invariant
            i <= kinds@.len(),
            copy@ == kinds@.subrange(0, i as int),
        decreases kinds@.len() - i,
    {
        copy.push(kinds[i]);
        assert(copy@ =~= kinds@.subrange(0, i + 1));
        i += 1;
    }
    assert(kinds@.subrange(0, kinds@.len() as int) =~= kinds@);
    copy
}

impl Protocol {
    /// Direct messages on `relays`.
    pub fn dm(relays: &str) -> (p: Self)
        ensures
            p@ == (ProtocolView::Dm { relays: relays@ }),
    {
        Protocol::Dm { relays: relays.to_owned() }
    }

    /// A data vending machine on `relays` that takes the kinds `kinds`.
    pub fn dvm(relays: &str, kinds: Vec<u16>) -> (p: Self)
        ensures
            p@ == (ProtocolView::Dvm { relays: relays@, kinds: kinds@ }),
    {
        Protocol::Dvm { relays: relays.to_owned(), kinds }
    }

    /// Agent-to-agent at `url`.
    pub fn a2a(url: &str) -> (p: Self)
        ensures
            p@ == (ProtocolView::A2a { url: url@ }),
    {
        Protocol::A2a { url: url.to_owned() }
    }

    /// Model context protocol at `url`.
    pub fn mcp(url: &str) -> (p: Self)
        ensures
            p@ == (ProtocolView::Mcp { url: url@ }),
    {
        Protocol::Mcp { url: url.to_owned() }
    }

    /// HTTP at `url`.
    pub fn http(url: &str) -> (p: Self)
        ensures
            p@ == (ProtocolView::Http { url: url@ }),
    {
        Protocol::Http { url: url.to_owned() }
    }

    /// The protocol named `id` at `endpoint`.
    pub fn custom(id: &str, endpoint: &str) -> (p: Self)
        ensures
            p@ == (ProtocolView::Custom { id: id@, endpoint: endpoint@ }),
    {
        Protocol::Custom { id: id.to_owned(), endpoint: endpoint.to_owned() }
    }

    /// The name of this protocol.
    pub fn id(&self) -> (name: &str)
        ensures
            name@ == self@.id(),
    {
        match self {
            Protocol::Dm { .. } => "dm",
            Protocol::Dvm { .. } => "dvm",
            Protocol::A2a { .. } => "a2a",
            Protocol::Mcp { .. } => "mcp",
            Protocol::Http { .. } => "http",
            Protocol::Custom { id, .. } => id.as_str(),
        }
    }

    /// Where the agent is reached by this protocol.
    pub fn endpoint(&self) -> (at: &str)
        ensures
            at@ == self@.endpoint(),
    {
        match self {
            Protocol::Dm { relays } => relays.as_str(),
            Protocol::Dvm { relays, .. } => relays.as_str(),
            Protocol::A2a { url } => url.as_str(),
            Protocol::Mcp { url } => url.as_str(),
            Protocol::Http { url } => url.as_str(),
            Protocol::Custom { endpoint, .. } => endpoint.as_str(),
        }
    }

    /// A copy of this protocol.
    pub fn duplicate(&self) -> (copy: Self)
        ensures
            copy@ == self@,
    {
        match self {
            Protocol::Dm { relays } => Protocol::Dm { relays: relays.clone() },
            Protocol::Dvm { relays, kinds } => Protocol::Dvm {
                relays: relays.clone(),
                kinds: copy_kinds(kinds),
            },
            Protocol::A2a { url } => Protocol::A2a { url: url.clone() },
            Protocol::Mcp { url } => Protocol::Mcp { url: url.clone() },
            Protocol::Http { url } => Protocol::Http { url: url.clone() },
            Protocol::Custom { id, endpoint } => Protocol::Custom {
                id: id.clone(),
                endpoint: endpoint.clone(),
            },
        }
    }

    /// The tags of this protocol, each as its strings.
    pub fn tag_values(&self) -> (tags: Vec<Vec<String>>)
        ensures
            tags_view(tags@) == spec_protocol_tags(self@),
            forall|i: int| 0 <= i < tags@.len() ==> (#[trigger] tags@[i])@.len() > 0,
    {
        let mut tags: Vec<Vec<String>> = Vec::new();
        tags.push(triple("r", self.id(), self.endpoint()));
        assert(strings_view(tags@[0]@).len() == tags@[0]@.len());
        match self {
            Protocol::Dvm { kinds, .. } => {
                let mut i: usize = 0;
                while i < kinds.len()
                    invariant
                        i <= kinds@.len(),
                        kinds@ == self@.kinds(),
                        tags@.len() == i + 1,
                        forall|j: int| 0 <= j < tags@.len() ==> (#[trigger] tags@[j])@.len() > 0,
                        tags_view(tags@) == seq![seq!["r"@, self@.id(), self@.endpoint()]]
                            + spec_kind_tags(kinds@.subrange(0, i as int)),
                    decreases kinds@.len() - i,
                {
                    let mut number = String::new();
                    push_decimal(&mut number, kinds[i] as i64);
                    let ghost before = tags@;
                    let tag = pair("k", number.as_str());
                    assert(strings_view(tag@).len() == tag@.len());
                    tags.push(tag);
                    proof {
                        assert(number@ =~= decimal(kinds@[i as int] as int));
                        assert(tags_view(tags@) =~= tags_view(before).push(
                            seq!["k"@, decimal(kinds@[i as int] as int)],
                        ));
                        assert(spec_kind_tags(kinds@.subrange(0, i + 1)) =~= spec_kind_tags(
                            kinds@.subrange(0, i as int),
                        ).push(seq!["k"@, decimal(kinds@[i as int] as int)]));
                        assert(tags_view(tags@) =~= seq![seq!["r"@, self@.id(), self@.endpoint()]]
                            + spec_kind_tags(kinds@.subrange(0, i + 1)));
                    }
                    i += 1;
                }
                assert(kinds@.subrange(0, kinds@.len() as int) =~= kinds@);
            },
            _ => {
                assert(tags_view(tags@) =~= spec_protocol_tags(self@));
            },
        }
        tags
    }

    /// The tags of this protocol.
    pub fn to_tags(&self) -> (tags: Vec<nostr::event::Tag>)
        ensures
            tag_list_values(tags@) == spec_protocol_tags(self@),
    {
        make_tags(self.tag_values())
    }
}

/// The capabilities of a list, each by its view.
pub open spec fn capabilities_view(list: Seq<Capability>) -> Seq<CapabilityView> {
    Seq::new(list.len(), |i: int| list[i]@)
}

/// The protocols of a list, each by its view.
pub open spec fn protocols_view(list: Seq<Protocol>) -> Seq<ProtocolView> {
    Seq::new(list.len(), |i: int| list[i]@)
}

/// The card of an agent.
#[derive(Debug, Clone, PartialEq, Eq)]
pub struct ServiceCard {
    pub id: String,
    pub name: String,
    pub about: String,
    pub capabilities: Vec<Capability>,
    pub protocols: Vec<Protocol>,
}

/// A service card as plain values.
pub struct ServiceCardView {
    pub id: Seq<char>,
    pub name: Seq<char>,
    pub about: Seq<char>,
    pub capabilities: Seq<CapabilityView>,
    pub protocols: Seq<ProtocolView>,
}

impl View for ServiceCard {
    type V = ServiceCardView;

    open spec fn view(&self) -> ServiceCardView {
        ServiceCardView {
            id: self.id@,
            name: self.name@,
            about: self.about@,
            capabilities: capabilities_view(self.capabilities@),
            protocols: protocols_view(self.protocols@),
        }
    }
}

/// The tags of the capabilities, one for each.
pub open spec fn spec_capability_tags(list: Seq<CapabilityView>) -> Seq<Seq<Seq<char>>> {
    Seq::new(list.len(), |i: int| spec_capability_tag(list[i]))
}

/// The tags of the protocols, those of the first protocol first.
pub open spec fn spec_all_protocol_tags(list: Seq<ProtocolView>) -> Seq<Seq<Seq<char>>>
    decreases list.len(),
{
    if list.len() == 0 {
        Seq::empty()
    } else {
        spec_all_protocol_tags(list.drop_last()) + spec_protocol_tags(list.last())
    }
}

/// The tags that open a card: the two labels, the identifier, the name and
/// the description.
pub open spec fn spec_card_head(card: ServiceCardView) -> Seq<Seq<Seq<char>>> {
    seq![
        seq!["L"@, LABEL_NAMESPACE@],
        seq!["l"@, LABEL_SERVICE_CARD@, LABEL_NAMESPACE@],
        seq!["d"@, card.id],
        seq!["name"@, card.name],
        seq!["about"@, card.about],
    ]
}

/// The tags of a card: its head, then its capabilities, then its protocols.
pub open spec fn spec_card_tags(card: ServiceCardView) -> Seq<Seq<Seq<char>>> {
    spec_card_head(card) + spec_capability_tags(card.capabilities) + spec_all_protocol_tags(
        card.protocols,
    )
}

/// What reading the tags of an event has found so far.
pub struct CardScan {
    /// The value of the last `d` tag.
    pub id: Option<Seq<char>>,
    /// The value of the last `name` tag.
    pub name: Option<Seq<char>>,
    /// The value of the last `about` tag.
    pub about: Option<Seq<char>>,
    /// The capabilities of the `c` tags, in order.
    pub capabilities: Seq<CapabilityView>,
    /// The protocols of the `r` tags, in order, without kinds of job.
    pub protocols: Seq<ProtocolView>,
    /// The numbers of the `k` tags, in order.
    pub dvm_kinds: Seq<u16>,
}

/// Reads one tag. A tag is passed over where it is empty, where its first
/// string is none of `d`, `name`, `about`, `c`, `r` and `k`, where it holds
/// fewer strings than its kind needs, and where a `k` tag holds no number. An
/// `r` tag without a third string has the empty endpoint.
pub open spec fn scan_card_tag(before: CardScan, tag: Seq<Seq<char>>) -> CardScan {
    if tag.len() == 0 {
        before
    } else if tag[0] == "d"@ && tag.len() >= 2 {
        CardScan { id: Some(tag[1]), ..before }
    } else if tag[0] == "name"@ && tag.len() >= 2 {
        CardScan { name: Some(tag[1]), ..before }
    } else if tag[0] == "about"@ && tag.len() >= 2 {
        CardScan { about: Some(tag[1]), ..before }
    } else if tag[0] == "c"@ && tag.len() >= 3 {
        CardScan {
            capabilities: before.capabilities.push(
                CapabilityView { id: tag[1], description: tag[2] },
            ),
            ..before
        }
    } else if tag[0] == "r"@ && tag.len() >= 2 {
        let endpoint = if tag.len() >= 3 {
            tag[2]
        } else {
            Seq::empty()
        };
        CardScan { protocols: before.protocols.push(spec_protocol_of(tag[1], endpoint)), ..before }
    } else if tag[0] == "k"@ && tag.len() >= 2 {
        match spec_parse_u16(tag[1]) {
            Some(kind) => CardScan { dvm_kinds: before.dvm_kinds.push(kind), ..before },
            None => before,
        }
    } else {
        before
    }
}

/// Reads the tags in order.
pub open spec fn scan_card(tags: Seq<Seq<Seq<char>>>) -> CardScan
    decreases tags.len(),
{
    if tags.len() == 0 {
        CardScan {
            id: None,
            name: None,
            about: None,
            capabilities: Seq::empty(),
            protocols: Seq::empty(),
            dvm_kinds: Seq::empty(),
        }
    } else {
        scan_card_tag(scan_card(tags.drop_last()), tags.last())
    }
}

/// The protocols with the kinds of job `kinds` given to every data vending
/// machine among them.
pub open spec fn spec_attach_kinds(protocols: Seq<ProtocolView>, kinds: Seq<u16>) -> Seq<
    ProtocolView,
> {
    Seq::new(protocols.len(), |i: int| protocols[i].with_kinds(kinds))
}

/// The card that the tags of an event stand for, or the text of the parse
/// error: a missing `d` tag, else a missing `name` tag. A card without an
/// `about` tag has the empty description. Every data vending machine of the
/// card takes all the kinds of job that the tags name.
pub open spec fn spec_card_from_tags(tags: Seq<Seq<Seq<char>>>) -> Result<
    ServiceCardView,
    Seq<char>,
> {
    let scan = scan_card(tags);
    if scan.id is None {
        Err("missing 'd' tag"@)
    } else if scan.name is None {
        Err("missing 'name' tag"@)
    } else {
        Ok(
            ServiceCardView {
                id: scan.id.unwrap(),
                name: scan.name.unwrap(),
                about: match scan.about {
                    Some(text) => text,
                    None => Seq::empty(),
                },
                capabilities: scan.capabilities,
                protocols: spec_attach_kinds(scan.protocols, scan.dvm_kinds),
            },
        )
    }
}

/// The outcome of reading a card, by views.
pub open spec fn card_outcome(r: Result<ServiceCard, Error>) -> Result<ServiceCardView, Seq<char>> {
    match r {
        Ok(card) => Ok(card@),
        Err(e) => Err(
            match e {
                Error::ParseError(m) => m@,
                _ => Seq::empty(),
            },
        ),
    }
}

/// The characters of an optional string.
pub open spec fn optional_view(text: Option<String>) -> Option<Seq<char>> {
    match text {
        Some(t) => Some(t@),
        None => None,
    }
}

impl ServiceCard {
    /// Starts a card with the identifier `id` and the name `name`.
    pub fn builder(id: &str, name: &str) -> (b: ServiceCardBuilder)
        ensures
            b@ == (ServiceCardView {
                id: id@,
                name: name@,
                about: Seq::empty(),
                capabilities: Seq::empty(),
                protocols: Seq::empty(),
            }),
    {
        ServiceCardBuilder::new(id, name)
    }

    /// The tags of this card, each as its strings.
    pub fn tag_values(&self) -> (tags: Vec<Vec<String>>)
        ensures
            tags_view(tags@) == spec_card_tags(self@),
            forall|i: int| 0 <= i < tags@.len() ==> (#[trigger] tags@[i])@.len() > 0,
    {
        let mut tags: Vec<Vec<String>> = Vec::new();
        tags.push(pair("L", LABEL_NAMESPACE));
        tags.push(triple("l", LABEL_SERVICE_CARD, LABEL_NAMESPACE));
        tags.push(pair("d", self.id.as_str()));
        tags.push(pair("name", self.name.as_str()));
        tags.push(pair("about", self.about.as_str()));
        proof {
            assert forall|i: int| 0 <= i < tags@.len() implies (#[trigger] tags@[i])@.len()
                > 0 by {
                assert(strings_view(tags@[i]@).len() == tags@[i]@.len());
            }
            assert(tags_view(tags@) =~= spec_card_head(self@));
        }
        let ghost caps = capabilities_view(self.capabilities@);
        let mut i: usize = 0;
        while i < self.capabilities.len()
            invariant
                i <= self.capabilities@.len(),
                caps == capabilities_view(self.capabilities@),
                forall|j: int| 0 <= j < tags@.len() ==> (#[trigger] tags@[j])@.len() > 0,
                tags_view(tags@) == spec_card_head(self@) + spec_capability_tags(
                    caps.subrange(0, i as int),
                ),
            decreases self.capabilities@.len() - i,
        {
            let ghost before = tags@;
            let tag = self.capabilities[i].tag_values();
            assert(strings_view(tag@).len() == tag@.len());
            tags.push(tag);
            proof {
                let c = caps[i as int];
                assert(tags_view(tags@) =~= tags_view(before).push(spec_capability_tag(c)));
                assert(spec_capability_tags(caps.subrange(0, i + 1)) =~= spec_capability_tags(
                    caps.subrange(0, i as int),
                ).push(spec_capability_tag(c)));
                assert(tags_view(tags@) =~= spec_card_head(self@) + spec_capability_tags(
                    caps.subrange(0, i + 1),
                ));
            }
            i += 1;
        }
        assert(caps.subrange(0, caps.len() as int) =~= caps);
        let ghost protos = protocols_view(self.protocols@);
        let ghost front = spec_card_head(self@) + spec_capability_tags(caps);
        let mut k: usize = 0;
        while k < self.protocols.len()
            invariant
                k <= self.protocols@.len(),
                protos == protocols_view(self.protocols@),
                front == spec_card_head(self@) + spec_capability_tags(caps),
                forall|j: int| 0 <= j < tags@.len() ==> (#[trigger] tags@[j])@.len() > 0,
                tags_view(tags@) == front + spec_all_protocol_tags(protos.subrange(0, k as int)),
            decreases self.protocols@.len() - k,
        {
            let more = self.protocols[k].tag_values();
            let ghost start = tags@;
            let mut m: usize = 0;
            while m < more.len()
                invariant
                    m <= more@.len(),
                    forall|j: int| 0 <= j < more@.len() ==> (#[trigger] more@[j])@.len() > 0,
                    forall|j: int| 0 <= j < tags@.len() ==> (#[trigger] tags@[j])@.len() > 0,
                    tags_view(tags@) == tags_view(start) + tags_view(more@).subrange(0, m as int),
                decreases more@.len() - m,
            {
                let ghost before = tags@;
                let copy = crate::discovery::copy_strings(&more[m]);
                assert(strings_view(copy@).len() == copy@.len());
                assert(strings_view(more@[m as int]@).len() == more@[m as int]@.len());
                tags.push(copy);
                proof {
                    assert(tags_view(tags@) =~= tags_view(before).push(
                        strings_view(more@[m as int]@),
                    ));
                    assert(tags_view(more@).subrange(0, m + 1) =~= tags_view(more@).subrange(
                        0,
                        m as int,
                    ).push(strings_view(more@[m as int]@)));
                    assert(tags_view(tags@) =~= tags_view(start) + tags_view(more@).subrange(
                        0,
                        m + 1,
                    ));
                }
                m += 1;
            }
            proof {
                assert(tags_view(more@).subrange(0, more@.len() as int) =~= tags_view(more@));
                let longer = protos.subrange(0, k + 1);
                assert(longer.drop_last() =~= protos.subrange(0, k as int));
                assert(longer.last() == protos[k as int]);
                assert(tags_view(tags@) =~= front + spec_all_protocol_tags(longer));
            }
            k += 1;
        }
        assert(protos.subrange(0, protos.len() as int) =~= protos);
        tags
    }

    /// The tags of this card.
    pub fn to_tags(&self) -> (tags: Vec<nostr::event::Tag>)
        ensures
            tag_list_values(tags@) == spec_card_tags(self@),
    {
        make_tags(self.tag_values())
    }

    /// The event that carries this card, signed with `keys`. Where the
    /// signing fails, the error says so. A signed event holds the tags of
    /// this card.
    pub fn to_event(&self, keys: &nostr::key::Keys) -> (r: Result<nostr::event::Event, Error>)
        ensures
            match r {
                Ok(event) => event_tags(event) == spec_card_tags(self@),
                Err(e) => e is SigningError,
            },
    {
        match sign_event(KIND_SERVICE_CARD, self.to_tags(), keys) {
            Ok(event) => Ok(event),
            Err(detail) => {
                let mut message = "failed to sign service card: ".to_owned();
                message.append(detail.as_str());
                Err(Error::SigningError(message))
            },
        }
    }

    /// The card that the tags `tags` stand for.
    pub fn from_tags(tags: &Vec<Vec<String>>) -> (r: Result<ServiceCard, Error>)
        ensures
            r matches Err(e) ==> e is ParseError,
            card_outcome(r) == spec_card_from_tags(tags_view(tags@)),
    {
        let mut id: Option<String> = None;
        let mut name: Option<String> = None;
        let mut about: Option<String> = None;
        let mut capabilities: Vec<Capability> = Vec::new();
        let mut protocols: Vec<Protocol> = Vec::new();
        let mut dvm_kinds: Vec<u16> = Vec::new();
        let ghost all = tags_view(tags@);
        proof {
            assert(capabilities_view(capabilities@) =~= Seq::<CapabilityView>::empty());
            assert(protocols_view(protocols@) =~= Seq::<ProtocolView>::empty());
            assert(dvm_kinds@ =~= Seq::<u16>::empty());
        }
        let mut i: usize = 0;
        while i < tags.len()
            invariant
                i <= tags@.len(),
                all == tags_view(tags@),
                scan_card(all.subrange(0, i as int)) == (CardScan {
                    id: optional_view(id),
                    name: optional_view(name),
                    about: optional_view(about),
                    capabilities: capabilities_view(capabilities@),
                    protocols: protocols_view(protocols@),
                    dvm_kinds: dvm_kinds@,
                }),
            decreases tags@.len() - i,
        {
            let values = &tags[i];
            let ghost before = scan_card(all.subrange(0, i as int));
            let ghost old_capabilities = capabilities@;
            let ghost old_protocols = protocols@;
            let ghost old_kinds = dvm_kinds@;
            proof {
                let next = all.subrange(0, i + 1);
                assert(next.drop_last() =~= all.subrange(0, i as int));
                assert(next.last() == strings_view(values@));
                assert(strings_view(values@).len() == values@.len());
                assert(scan_card(next) == scan_card_tag(before, strings_view(values@)));
            }
            let n = values.len();
            if n >= 1 {
                let key = &values[0];
                if is_text(key, "d") && n >= 2 {
                    id = Some(values[1].clone());
                } else if is_text(key, "name") && n >= 2 {
                    name = Some(values[1].clone());
                } else if is_text(key, "about") && n >= 2 {
                    about = Some(values[1].clone());
                } else if is_text(key, "c") && n >= 3 {
                    capabilities.push(Capability::new(values[1].as_str(), values[2].as_str()));
                    assert(capabilities_view(capabilities@) =~= capabilities_view(
                        old_capabilities,
                    ).push(
                        CapabilityView { id: values@[1]@, description: values@[2]@ },
                    ));
                } else if is_text(key, "r") && n >= 2 {
                    let endpoint = if n >= 3 {
                        values[2].clone()
                    } else {
                        String::new()
                    };
                    let p = protocol_of(values[1].as_str(), endpoint);
                    protocols.push(p);
                    assert(protocols_view(protocols@) =~= protocols_view(old_protocols).push(
                        spec_protocol_of(
                            values@[1]@,
                            if n >= 3 {
                                values@[2]@
                            } else {
                                Seq::empty()
                            },
                        ),
                    ));
                } else if is_text(key, "k") && n >= 2 {
                    match parse_u16(values[1].as_str()) {
                        Some(kind) => {
                            dvm_kinds.push(kind);
                        },
                        None => {},
                    }
                }
            }
            i += 1;
        }
        proof {
            assert(all.subrange(0, i as int) =~= all);
        }
        let ghost scanned = protocols_view(protocols@);
        let mut k: usize = 0;
        while k < protocols.len()
            invariant
                k <= protocols@.len(),
                protocols@.len() == scanned.len(),
                forall|j: int| 0 <= j < k ==> (#[trigger] protocols@[j])@ == scanned[j].with_kinds(
                    dvm_kinds@,
                ),
                forall|j: int| k <= j < protocols@.len() ==> (#[trigger] protocols@[j])@
                    == scanned[j],
            decreases protocols@.len() - k,
        {
            let replacement = match &protocols[k] {
                Protocol::Dvm { relays, .. } => Some(
                    Protocol::Dvm { relays: relays.clone(), kinds: copy_kinds(&dvm_kinds) },
                ),
                _ => None,
            };
            match replacement {
                Some(p) => {
                    protocols.set(k, p);
                },
                None => {},
            }
            k += 1;
        }
        assert(protocols_view(protocols@) =~= spec_attach_kinds(scanned, dvm_kinds@));
        match id {
            None => Err(Error::ParseError("missing 'd' tag".to_owned())),
            Some(id) => match name {
                None => Err(Error::ParseError("missing 'name' tag".to_owned())),
                Some(name) => {
                    let about = match about {
                        Some(text) => text,
                        None => String::new(),
                    };
                    Ok(ServiceCard { id, name, about, capabilities, protocols })
                },
            },
        }
    }

    /// The card that `event` carries.
    pub fn try_from_event(event: &nostr::event::Event) -> (r: Result<ServiceCard, Error>)
        ensures
            r matches Err(e) ==> e is ParseError,
            card_outcome(r) == spec_card_from_tags(event_tags(*event)),
    {
        let tags = read_event_tags(event);
        Self::from_tags(&tags)
    }
}

/// Builds a service card piece by piece.
#[derive(Debug, Clone)]
pub struct ServiceCardBuilder {
    id: String,
    name: String,
    about: String,
    capabilities: Vec<Capability>,
    protocols: Vec<Protocol>,
}

impl ServiceCardBuilder {
    /// The card as it stands.
    pub closed spec fn view(&self) -> ServiceCardView {
        ServiceCardView {
            id: self.id@,
            name: self.name@,
            about: self.about@,
            capabilities: capabilities_view(self.capabilities@),
            protocols: protocols_view(self.protocols@),
        }
    }

    /// A card with the identifier `id` and the name `name`, and nothing else.
    pub fn new(id: &str, name: &str) -> (b: Self)
        ensures
            b@ == (ServiceCardView {
                id: id@,
                name: name@,
                about: Seq::empty(),
                capabilities: Seq::empty(),
                protocols: Seq::empty(),
            }),
    {
        let b = ServiceCardBuilder {
            id: id.to_owned(),
            name: name.to_owned(),
            about: String::new(),
            capabilities: Vec::new(),
            protocols: Vec::new(),
        };
        assert(capabilities_view(b.capabilities@) =~= Seq::<CapabilityView>::empty());
        assert(protocols_view(b.protocols@) =~= Seq::<ProtocolView>::empty());
        b
    }

    /// Sets the description.
    pub fn about(self, about: &str) -> (b: Self)
        ensures
            b@ == (ServiceCardView { about: about@, ..self@ }),
    {
        let mut b = self;
        b.about = about.to_owned();
        b
    }

    /// Adds a capability at the end.
    pub fn capability(self, id: &str, description: &str) -> (b: Self)
        ensures
            b@ == (ServiceCardView {
                capabilities: self@.capabilities.push(
                    CapabilityView { id: id@, description: description@ },
                ),
                ..self@
            }),
    {
        let mut b = self;
        b.capabilities.push(Capability::new(id, description));
        assert(capabilities_view(b.capabilities@) =~= capabilities_view(self.capabilities@).push(
            CapabilityView { id: id@, description: description@ },
        ));
        b
    }

    /// Adds a protocol at the end.
    pub fn protocol(self, protocol: Protocol) -> (b: Self)
        ensures
            b@ == (ServiceCardView { protocols: self@.protocols.push(protocol@), ..self@ }),
    {
        let mut b = self;
        b.protocols.push(protocol);
        assert(protocols_view(b.protocols@) =~= protocols_view(self.protocols@).push(protocol@));
        b
    }

    /// The card.
    pub fn build(self) -> (card: ServiceCard)
        ensures
            card@ == self@,
    {
        ServiceCard {
            id: self.id,
            name: self.name,
            about: self.about,
            capabilities: self.capabilities,
            protocols: self.protocols,
        }
    }
}

} // verus!
