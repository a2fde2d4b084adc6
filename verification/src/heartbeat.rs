//! The heartbeat: what an agent says of its own availability.

use crate::discovery::{
    event_tags, is_text, make_tags, pair, read_event_tags, sign_event, strings_view,
    tag_list_values, tags_view, triple, Error, KIND_HEARTBEAT, LABEL_HEARTBEAT, LABEL_NAMESPACE,
};
use vstd::prelude::*;

verus! {

/// Whether an agent takes work.
#[derive(Debug, Clone, Copy, PartialEq, Eq, Structural)]
pub enum Status {
    Available,
    Busy,
    Maintenance,
}

impl Status {
    /// The word that stands for this status.
    pub open spec fn spec_name(self) -> Seq<char> {
        match self {
            Status::Available => "available"@,
            Status::Busy => "busy"@,
            Status::Maintenance => "maintenance"@,
        }
    }

    /// The status that a word stands for, if any.
    pub open spec fn spec_parse(text: Seq<char>) -> Option<Status> {
        if text == "available"@ {
            Some(Status::Available)
        } else if text == "busy"@ {
            Some(Status::Busy)
        } else if text == "maintenance"@ {
            Some(Status::Maintenance)
        } else {
            None
        }
    }

    /// The word that stands for this status.
    pub fn name(&self) -> (word: &'static str)
        ensures
            word@ == self.spec_name(),
    {
        match self {
            Status::Available => "available",
            Status::Busy => "busy",
            Status::Maintenance => "maintenance",
        }
    }

    /// The status that `text` stands for. Any other text is a parse error
    /// that names the text.
    pub fn parse(text: &str) -> (r: Result<Status, Error>)
        ensures
            match r {
                Ok(s) => Status::spec_parse(text@) == Some(s),
                Err(e) => {
                    &&& Status::spec_parse(text@) is None
                    &&& e matches Error::ParseError(m)
                    &&& m@ == "unknown status: "@ + text@
                },
            },
    {
        let owned = text.to_owned();
        if is_text(&owned, "available") {
            Ok(Status::Available)
        } else if is_text(&owned, "busy") {
            Ok(Status::Busy)
        } else if is_text(&owned, "maintenance") {
            Ok(Status::Maintenance)
        } else {
            let mut message = "unknown status: ".to_owned();
            message.append(text);
            Err(Error::ParseError(message))
        }
    }
}

/// The three words stand for three different statuses, and each status is
/// read back from its own word.
pub proof fn lemma_status_words(s: Status)
    ensures
        Status::spec_parse(s.spec_name()) == Some(s),
{
    reveal_strlit("available");
    reveal_strlit("busy");
    reveal_strlit("maintenance");
    assert("available"@.len() == 9);
    assert("busy"@.len() == 4);
    assert("maintenance"@.len() == 11);
}

/// A heartbeat: the status of the agent behind one service card.
#[derive(Debug, Clone, PartialEq, Eq)]
pub struct Heartbeat {
    pub service_card_id: String,
    pub status: Status,
}

/// A heartbeat as plain values.
pub struct HeartbeatView {
    pub service_card_id: Seq<char>,
    pub status: Status,
}

impl View for Heartbeat {
    type V = HeartbeatView;

    open spec fn view(&self) -> HeartbeatView {
        HeartbeatView { service_card_id: self.service_card_id@, status: self.status }
    }
}

/// The tags of a heartbeat: the two labels, the card, and the status.
pub open spec fn spec_heartbeat_tags(h: HeartbeatView) -> Seq<Seq<Seq<char>>> {
    seq![
        seq!["L"@, LABEL_NAMESPACE@],
        seq!["l"@, LABEL_HEARTBEAT@, LABEL_NAMESPACE@],
        seq!["d"@, h.service_card_id],
        seq!["s"@, h.status.spec_name()],
    ]
}

/// What reading the tags of an event has found so far.
pub struct HeartbeatScan {
    /// The card named by the last `d` tag.
    pub id: Option<Seq<char>>,
    /// The status named by the last `s` tag.
    pub status: Option<Status>,
    /// The text of the first `s` tag that names no status. Nothing is read
    /// after it.
    pub unknown: Option<Seq<char>>,
}

/// Reads the tags in order. Tags of fewer than two strings are passed over,
/// and so is every tag but `d` and `s`. Reading stops at the first `s` tag
/// that names no status.
pub open spec fn scan_heartbeat(tags: Seq<Seq<Seq<char>>>) -> HeartbeatScan
    decreases tags.len(),
{
    if tags.len() == 0 {
        HeartbeatScan { id: None, status: None, unknown: None }
    } else {
        let before = scan_heartbeat(tags.drop_last());
        let tag = tags.last();
        if before.unknown is Some || tag.len() < 2 {
            before
        } else if tag[0] == "d"@ {
            HeartbeatScan { id: Some(tag[1]), ..before }
        } else if tag[0] == "s"@ {
            match Status::spec_parse(tag[1]) {
                Some(s) => HeartbeatScan { status: Some(s), ..before },
                None => HeartbeatScan { unknown: Some(tag[1]), ..before },
            }
        } else {
            before
        }
    }
}

/// The heartbeat that the tags of an event stand for, or the text of the
/// parse error: an unknown status, else a missing `d` tag, else a missing
/// status.
pub open spec fn spec_heartbeat_from_tags(tags: Seq<Seq<Seq<char>>>) -> Result<
    HeartbeatView,
    Seq<char>,
> {
    let scan = scan_heartbeat(tags);
    if scan.unknown is Some {
        Err("unknown status: "@ + scan.unknown.unwrap())
    } else if scan.id is None {
        Err("missing 'd' tag"@)
    } else if scan.status is None {
        Err("missing 'status' tag"@)
    } else {
        Ok(HeartbeatView { service_card_id: scan.id.unwrap(), status: scan.status.unwrap() })
    }
}

/// The outcome of reading a heartbeat, by views.
pub open spec fn heartbeat_outcome(r: Result<Heartbeat, Error>) -> Result<HeartbeatView, Seq<char>> {
    match r {
        Ok(h) => Ok(h@),
        Err(e) => Err(
            match e {
                Error::ParseError(m) => m@,
                _ => Seq::empty(),
            },
        ),
    }
}

impl Heartbeat {
    /// The heartbeat of the agent behind `service_card_id`.
    pub fn new(service_card_id: &str, status: Status) -> (h: Self)
        ensures
            h@ == (HeartbeatView { service_card_id: service_card_id@, status }),
    {
        Heartbeat { service_card_id: service_card_id.to_owned(), status }
    }

    /// A heartbeat that says the agent takes work.
    pub fn available(service_card_id: &str) -> (h: Self)
        ensures
            h@ == (HeartbeatView { service_card_id: service_card_id@, status: Status::Available }),
    {
        Self::new(service_card_id, Status::Available)
    }

    /// A heartbeat that says the agent is busy.
    pub fn busy(service_card_id: &str) -> (h: Self)
        ensures
            h@ == (HeartbeatView { service_card_id: service_card_id@, status: Status::Busy }),
    {
        Self::new(service_card_id, Status::Busy)
    }

    /// A heartbeat that says the agent is under maintenance.
    pub fn maintenance(service_card_id: &str) -> (h: Self)
        ensures
            h@ == (HeartbeatView {
                service_card_id: service_card_id@,
                status: Status::Maintenance,
            }),
    {
        Self::new(service_card_id, Status::Maintenance)
    }

    /// The tags of this heartbeat, each as its strings.
    pub fn tag_values(&self) -> (tags: Vec<Vec<String>>)
        ensures
            tags_view(tags@) == spec_heartbeat_tags(self@),
            forall|i: int| 0 <= i < tags@.len() ==> (#[trigger] tags@[i])@.len() > 0,
    {
        let mut tags: Vec<Vec<String>> = Vec::new();
        tags.push(pair("L", LABEL_NAMESPACE));
        tags.push(triple("l", LABEL_HEARTBEAT, LABEL_NAMESPACE));
        tags.push(pair("d", self.service_card_id.as_str()));
        tags.push(pair("s", self.status.name()));
        proof {
            assert forall|i: int| 0 <= i < tags@.len() implies (#[trigger] tags@[i])@.len()
                > 0 by {
                assert(strings_view(tags@[i]@).len() == tags@[i]@.len());
            }
            assert(tags_view(tags@) =~= spec_heartbeat_tags(self@));
        }
        tags
    }

    /// The tags of this heartbeat.
    pub fn to_tags(&self) -> (tags: Vec<nostr::event::Tag>)
        ensures
            tag_list_values(tags@) == spec_heartbeat_tags(self@),
    {
        make_tags(self.tag_values())
    }

    /// The event that carries this heartbeat, signed with `keys`. Where the
    /// signing fails, the error says so. A signed event holds the tags of
    /// this heartbeat.
    pub fn to_event(&self, keys: &nostr::key::Keys) -> (r: Result<nostr::event::Event, Error>)
        ensures
            match r {
                Ok(event) => event_tags(event) == spec_heartbeat_tags(self@),
                Err(e) => e is SigningError,
            },
    {
        match sign_event(KIND_HEARTBEAT, self.to_tags(), keys) {
            Ok(event) => Ok(event),
            Err(detail) => {
                let mut message = "failed to sign heartbeat: ".to_owned();
                message.append(detail.as_str());
                Err(Error::SigningError(message))
            },
        }
    }

    /// The heartbeat that the tags `tags` stand for.
    pub fn from_tags(tags: &Vec<Vec<String>>) -> (r: Result<Heartbeat, Error>)
        ensures
            r matches Err(e) ==> e is ParseError,
            heartbeat_outcome(r) == spec_heartbeat_from_tags(tags_view(tags@)),
    {
        let mut service_card_id: Option<String> = None;
        let mut status: Option<Status> = None;
        let ghost all = tags_view(tags@);
        let mut i: usize = 0;
        while i < tags.len()
            invariant
                i <= tags@.len(),
                all == tags_view(tags@),
                scan_heartbeat(all.subrange(0, i as int)) == (HeartbeatScan {
                    id: match service_card_id {
                        Some(s) => Some(s@),
                        None => None,
                    },
                    status,
                    unknown: None,
                }),
            decreases tags@.len() - i,
        {
            let values = &tags[i];
            proof {
                let next = all.subrange(0, i + 1);
                assert(next.drop_last() =~= all.subrange(0, i as int));
                assert(next.last() == strings_view(values@));
                assert(strings_view(values@).len() == values@.len());
            }
            if values.len() >= 2 {
                if is_text(&values[0], "d") {
                    service_card_id = Some(values[1].clone());
                } else if is_text(&values[0], "s") {
                    match Status::parse(values[1].as_str()) {
                        Ok(s) => {
                            status = Some(s);
                        },
                        Err(e) => {
                            proof {
                                lemma_scan_stops(all, i + 1);
                                assert(all.subrange(0, all.len() as int) =~= all);
                            }
                            return Err(e);
                        },
                    }
                }
            }
            i += 1;
        }
        proof {
            assert(all.subrange(0, i as int) =~= all);
        }
        match service_card_id {
            None => Err(Error::ParseError("missing 'd' tag".to_owned())),
            Some(id) => match status {
                None => Err(Error::ParseError("missing 'status' tag".to_owned())),
                Some(status) => Ok(Heartbeat { service_card_id: id, status }),
            },
        }
    }

    /// The heartbeat that `event` carries.
    pub fn try_from_event(event: &nostr::event::Event) -> (r: Result<Heartbeat, Error>)
        ensures
            r matches Err(e) ==> e is ParseError,
            heartbeat_outcome(r) == spec_heartbeat_from_tags(event_tags(*event)),
    {
        let tags = read_event_tags(event);
        Self::from_tags(&tags)
    }
}

/// Once an unknown status has been met, the rest of the tags changes nothing.
pub proof fn lemma_scan_stops(tags: Seq<Seq<Seq<char>>>, n: int)
    requires
        0 <= n <= tags.len(),
        scan_heartbeat(tags.subrange(0, n)).unknown is Some,
    ensures
        scan_heartbeat(tags) == scan_heartbeat(tags.subrange(0, n)),
    decreases tags.len() - n,
{
    if n == tags.len() {
        assert(tags.subrange(0, n) =~= tags);
    } else {
        let longer = tags.subrange(0, n + 1);
        assert(longer.drop_last() =~= tags.subrange(0, n));
        assert(scan_heartbeat(longer) == scan_heartbeat(tags.subrange(0, n)));
        lemma_scan_stops(tags, n + 1);
    }
}

/// A heartbeat is read back from its own tags.
pub proof fn law_heartbeat_round_trip(h: HeartbeatView)
    ensures
        spec_heartbeat_from_tags(spec_heartbeat_tags(h)) == Ok::<HeartbeatView, Seq<char>>(h),
{
    reveal_strlit("L");
    reveal_strlit("l");
    reveal_strlit("d");
    reveal_strlit("s");
    lemma_status_words(h.status);
    let tags = spec_heartbeat_tags(h);
    let t1 = tags.subrange(0, 1);
    let t2 = tags.subrange(0, 2);
    let t3 = tags.subrange(0, 3);
    assert(t1.drop_last() =~= Seq::<Seq<Seq<char>>>::empty());
    assert(t2.drop_last() =~= t1);
    assert(t3.drop_last() =~= t2);
    assert(tags.drop_last() =~= t3);
    assert("L"@.len() == 1 && "l"@.len() == 1 && "d"@.len() == 1 && "s"@.len() == 1);
    assert("L"@[0] == 'L' && "l"@[0] == 'l' && "d"@[0] == 'd' && "s"@[0] == 's');
    let nothing = HeartbeatScan { id: None, status: None, unknown: None };
    assert(scan_heartbeat(Seq::<Seq<Seq<char>>>::empty()) == nothing);
    assert(t1.last() == tags[0] && t2.last() == tags[1] && t3.last() == tags[2]);
    assert(tags[0] == seq!["L"@, LABEL_NAMESPACE@]);
    assert(tags[0].len() == 2 && tags[0][0] == "L"@);
    assert(tags[1].len() == 3 && tags[1][0] == "l"@);
    assert(tags[2].len() == 2 && tags[2][0] == "d"@ && tags[2][1] == h.service_card_id);
    assert(tags[3].len() == 2 && tags[3][0] == "s"@ && tags[3][1] == h.status.spec_name());
    assert("L"@ != "d"@ && "L"@ != "s"@ && "l"@ != "d"@ && "l"@ != "s"@ && "d"@ != "s"@);
    assert(scan_heartbeat(t1) == (HeartbeatScan { id: None, status: None, unknown: None }));
    assert(scan_heartbeat(t2) == (HeartbeatScan { id: None, status: None, unknown: None }));
    assert(scan_heartbeat(t3) == (HeartbeatScan {
        id: Some(h.service_card_id),
        status: None,
        unknown: None,
    }));
}

} // verus!
