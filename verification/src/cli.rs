//! What the command line computes from its arguments and from what the
//! relays answer. Reading arguments, talking to relays and printing is left
//! to the program.

use crate::canonical::{digits, push_unsigned};
use crate::discovery::{copy_strings, strings_view, Error};
use crate::service_card::{
    protocol_of, spec_protocol_of, Capability, CapabilityView, Protocol, ProtocolView,
    ServiceCard, ServiceCardView,
};
use vstd::prelude::*;

verus! {

/// The age in seconds below which a heartbeat shows its agent to be online.
pub const ONLINE_WINDOW: u64 = 900;

/// The position `i` holds the first `c` of `s`.
pub open spec fn is_first(s: Seq<char>, c: char, i: int) -> bool {
    &&& 0 <= i < s.len()
    &&& s[i] == c
    &&& forall|j: int| 0 <= j < i ==> s[j] != c
}

/// What stands before and behind the first `c` of `s`, where `s` holds one.
pub open spec fn spec_split_once(s: Seq<char>, c: char) -> Option<(Seq<char>, Seq<char>)> {
    if exists|i: int| is_first(s, c, i) {
        let i = choose|i: int| is_first(s, c, i);
        Some((s.subrange(0, i), s.subrange(i + 1, s.len() as int)))
    } else {
        None
    }
}

/// What stands before and behind the first `c` of `s`.
pub fn split_once(s: &str, c: char) -> (r: Option<(String, String)>)
    ensures
        match r {
            Some((before, behind)) => spec_split_once(s@, c) == Some((before@, behind@)),
            None => spec_split_once(s@, c) is None,
        },
{
    let n = s.unicode_len();
    let mut i: usize = 0;
    while i < n
        invariant
            i <= n,
            n == s@.len(),
            forall|j: int| 0 <= j < i ==> s@[j] != c,
        decreases n - i,
    {
        if s.get_char(i) == c {
            proof {
                assert(is_first(s@, c, i as int));
                let k = choose|k: int| is_first(s@, c, k);
                assert(k == i) by {
                    if k < i {
                        assert(s@[k] != c);
                    }
                    if i < k {
                        assert(s@[i as int] != c);
                    }
                }
            }
            return Some((s.substring_char(0, i).to_owned(), s.substring_char(i + 1, n).to_owned()));
        }
        i += 1;
    }
    proof {
        assert forall|k: int| !is_first(s@, c, k) by {
            if 0 <= k < s@.len() {
                assert(s@[k] != c);
            }
        }
    }
    None
}

/// The capability that an argument of the form `id:description` stands for,
/// or the text of the error. The identifier ends at the first colon.
pub open spec fn spec_parse_capability(s: Seq<char>) -> Result<CapabilityView, Seq<char>> {
    match spec_split_once(s, ':') {
        Some((id, description)) => Ok(CapabilityView { id, description }),
        None => Err("Capability must be in format 'id:description'"@),
    }
}

/// Reads a capability from an argument of the form `id:description`.
pub fn parse_capability(s: &str) -> (r: Result<Capability, Error>)
    ensures
        match r {
            Ok(c) => spec_parse_capability(s@) == Ok::<CapabilityView, Seq<char>>(c@),
            Err(e) => e matches Error::InvalidCapability(m) && spec_parse_capability(s@) == Err::<
                CapabilityView,
                Seq<char>,
            >(m@),
        },
{
    match split_once(s, ':') {
        Some((id, description)) => Ok(Capability { id, description }),
        None => Err(
            Error::InvalidCapability("Capability must be in format 'id:description'".to_owned()),
        ),
    }
}

/// The protocol that an argument of the form `type:endpoint` stands for, or
/// the text of the error. The type ends at the first colon; a type that is
/// none of `dm`, `dvm`, `a2a`, `mcp` and `http` names a protocol of its own.
pub open spec fn spec_parse_protocol(s: Seq<char>) -> Result<ProtocolView, Seq<char>> {
    match spec_split_once(s, ':') {
        Some((kind, endpoint)) => Ok(spec_protocol_of(kind, endpoint)),
        None => Err("Protocol must be in format 'type:endpoint'"@),
    }
}

/// Reads a protocol from an argument of the form `type:endpoint`.
pub fn parse_protocol(s: &str) -> (r: Result<Protocol, Error>)
    ensures
        match r {
            Ok(p) => spec_parse_protocol(s@) == Ok::<ProtocolView, Seq<char>>(p@),
            Err(e) => e matches Error::InvalidProtocol(m) && spec_parse_protocol(s@) == Err::<
                ProtocolView,
                Seq<char>,
            >(m@),
        },
{
    match split_once(s, ':') {
        Some((kind, endpoint)) => Ok(protocol_of(kind.as_str(), endpoint)),
        None => Err(Error::InvalidProtocol("Protocol must be in format 'type:endpoint'".to_owned())),
    }
}

/// The relays that are used where neither the command line nor the
/// configuration names any.
pub open spec fn default_relays() -> Seq<Seq<char>> {
    seq!["wss://relay.damus.io"@, "wss://nos.lol"@, "wss://relay.nostr.band"@]
}

/// The relays to use: those of the command line; where it names none, those
/// of the configuration; where that names none either, the default relays.
pub open spec fn spec_relays(cli: Seq<Seq<char>>, config: Seq<Seq<char>>) -> Seq<Seq<char>> {
    if cli.len() > 0 {
        cli
    } else if config.len() > 0 {
        config
    } else {
        default_relays()
    }
}

/// The relays to use.
pub fn get_relays(cli_relays: Vec<String>, config_relays: &Vec<String>) -> (relays: Vec<String>)
    ensures
        strings_view(relays@) == spec_relays(
            strings_view(cli_relays@),
            strings_view(config_relays@),
        ),
{
    if cli_relays.len() > 0 {
        cli_relays
    } else if config_relays.len() > 0 {
        copy_strings(config_relays)
    } else {
        let mut relays: Vec<String> = Vec::new();
        relays.push("wss://relay.damus.io".to_owned());
        relays.push("wss://nos.lol".to_owned());
        relays.push("wss://relay.nostr.band".to_owned());
        assert(strings_view(relays@) =~= default_relays());
        relays
    }
}

/// The identifier of the card of a key that names none: the first eight
/// characters of the public key in hexadecimal, and `-v1`.
pub fn default_card_id(pubkey_hex: &str) -> (id: String)
    requires
        pubkey_hex@.len() >= 8,
    ensures
        id@ == pubkey_hex@.subrange(0, 8) + "-v1"@,
{
    let mut id = pubkey_hex.substring_char(0, 8).to_owned();
    id.append("-v1");
    id
}

/// The capabilities that the arguments stand for, or the first error.
pub open spec fn spec_parse_capabilities(args: Seq<Seq<char>>) -> Result<
    Seq<CapabilityView>,
    Seq<char>,
>
    decreases args.len(),
{
    if args.len() == 0 {
        Ok(Seq::empty())
    } else {
        match spec_parse_capabilities(args.drop_last()) {
            Err(m) => Err(m),
            Ok(list) => match spec_parse_capability(args.last()) {
                Err(m) => Err(m),
                Ok(c) => Ok(list.push(c)),
            },
        }
    }
}

/// The protocols that the arguments stand for, or the first error.
pub open spec fn spec_parse_protocols(args: Seq<Seq<char>>) -> Result<Seq<ProtocolView>, Seq<char>>
    decreases args.len(),
{
    if args.len() == 0 {
        Ok(Seq::empty())
    } else {
        match spec_parse_protocols(args.drop_last()) {
            Err(m) => Err(m),
            Ok(list) => match spec_parse_protocol(args.last()) {
                Err(m) => Err(m),
                Ok(p) => Ok(list.push(p)),
            },
        }
    }
}

/// The card that is published for the given arguments, or the text of the
/// first argument that cannot be read, capabilities first.
pub open spec fn spec_build_card(
    id: Seq<char>,
    name: Seq<char>,
    about: Seq<char>,
    capabilities: Seq<Seq<char>>,
    protocols: Seq<Seq<char>>,
) -> Result<ServiceCardView, Seq<char>> {
    match spec_parse_capabilities(capabilities) {
        Err(m) => Err(m),
        Ok(caps) => match spec_parse_protocols(protocols) {
            Err(m) => Err(m),
            Ok(protos) => Ok(
                ServiceCardView { id, name, about, capabilities: caps, protocols: protos },
            ),
        },
    }
}

/// The text of an error of the command line.
pub open spec fn argument_error(e: Error) -> Seq<char> {
    match e {
        Error::InvalidCapability(m) => m@,
        Error::InvalidProtocol(m) => m@,
        _ => Seq::empty(),
    }
}

/// Builds the card that is published for the given arguments.
pub fn build_card(
    id: &str,
    name: &str,
    about: &str,
    capabilities: &Vec<String>,
    protocols: &Vec<String>,
) -> (r: Result<ServiceCard, Error>)
    ensures
        match r {
            Ok(card) => spec_build_card(
                id@,
                name@,
                about@,
                strings_view(capabilities@),
                strings_view(protocols@),
            ) == Ok::<ServiceCardView, Seq<char>>(card@),
            Err(e) => (e is InvalidCapability || e is InvalidProtocol) && spec_build_card(
                id@,
                name@,
                about@,
                strings_view(capabilities@),
                strings_view(protocols@),
            ) == Err::<ServiceCardView, Seq<char>>(argument_error(e)),
        },
{
    let mut builder = ServiceCard::builder(id, name).about(about);
    let ghost cap_args = strings_view(capabilities@);
    let mut i: usize = 0;
    while i < capabilities.len()
        invariant
            i <= capabilities@.len(),
            cap_args == strings_view(capabilities@),
            builder@.id == id@,
            builder@.name == name@,
            builder@.about == about@,
            builder@.protocols == Seq::<ProtocolView>::empty(),
            spec_parse_capabilities(cap_args.subrange(0, i as int)) == Ok::<
                Seq<CapabilityView>,
                Seq<char>,
            >(builder@.capabilities),
        decreases capabilities@.len() - i,
    {
        proof {
            let next = cap_args.subrange(0, i + 1);
            assert(next.drop_last() =~= cap_args.subrange(0, i as int));
            assert(next.last() == capabilities@[i as int]@);
        }
        match parse_capability(capabilities[i].as_str()) {
            Ok(c) => {
                builder = builder.capability(c.id.as_str(), c.description.as_str());
            },
            Err(e) => {
                proof {
                    lemma_capabilities_error(cap_args, i + 1);
                }
                return Err(e);
            },
        }
        i += 1;
    }
    proof {
        assert(cap_args.subrange(0, i as int) =~= cap_args);
    }
    let ghost proto_args = strings_view(protocols@);
    let mut k: usize = 0;
    while k < protocols.len()
        invariant
            k <= protocols@.len(),
            proto_args == strings_view(protocols@),
            builder@.id == id@,
            builder@.name == name@,
            builder@.about == about@,
            spec_parse_capabilities(strings_view(capabilities@)) == Ok::<
                Seq<CapabilityView>,
                Seq<char>,
            >(builder@.capabilities),
            spec_parse_protocols(proto_args.subrange(0, k as int)) == Ok::<
                Seq<ProtocolView>,
                Seq<char>,
            >(builder@.protocols),
        decreases protocols@.len() - k,
    {
        proof {
            let next = proto_args.subrange(0, k + 1);
            assert(next.drop_last() =~= proto_args.subrange(0, k as int));
            assert(next.last() == protocols@[k as int]@);
        }
        match parse_protocol(protocols[k].as_str()) {
            Ok(p) => {
                builder = builder.protocol(p);
            },
            Err(e) => {
                proof {
                    lemma_protocols_error(proto_args, k + 1);
                }
                return Err(e);
            },
        }
        k += 1;
    }
    proof {
        assert(proto_args.subrange(0, k as int) =~= proto_args);
    }
    Ok(builder.build())
}

/// An argument that cannot be read is the error of every longer list.
pub proof fn lemma_capabilities_error(args: Seq<Seq<char>>, n: int)
    requires
        0 <= n <= args.len(),
        spec_parse_capabilities(args.subrange(0, n)) is Err,
    ensures
        spec_parse_capabilities(args) == spec_parse_capabilities(args.subrange(0, n)),
    decreases args.len() - n,
{
    if n == args.len() {
        assert(args.subrange(0, n) =~= args);
    } else {
        let longer = args.subrange(0, n + 1);
        assert(longer.drop_last() =~= args.subrange(0, n));
        lemma_capabilities_error(args, n + 1);
    }
}

/// An argument that cannot be read is the error of every longer list.
pub proof fn lemma_protocols_error(args: Seq<Seq<char>>, n: int)
    requires
        0 <= n <= args.len(),
        spec_parse_protocols(args.subrange(0, n)) is Err,
    ensures
        spec_parse_protocols(args) == spec_parse_protocols(args.subrange(0, n)),
    decreases args.len() - n,
{
    if n == args.len() {
        assert(args.subrange(0, n) =~= args);
    } else {
        let longer = args.subrange(0, n + 1);
        assert(longer.drop_last() =~= args.subrange(0, n));
        lemma_protocols_error(args, n + 1);
    }
}

/// The age of a heartbeat made at `created_at`, seen at `now`: the seconds
/// between, and zero where the heartbeat lies ahead.
pub open spec fn spec_age(now: int, created_at: int) -> int {
    if now >= created_at {
        now - created_at
    } else {
        0
    }
}

/// The age of a heartbeat made at `created_at`, seen at `now`.
pub fn heartbeat_age(now: u64, created_at: u64) -> (age: u64)
    ensures
        age == spec_age(now as int, created_at as int),
{
    if now >= created_at {
        now - created_at
    } else {
        0
    }
}

/// Whether a heartbeat of the age `age_secs` shows its agent to be online:
/// it is less than 15 minutes old.
pub fn is_online(age_secs: u64) -> (online: bool)
    ensures
        online == (age_secs < 900),
{
    age_secs < ONLINE_WINDOW
}

/// An age in words: in seconds below a minute, in whole minutes below an
/// hour, else in whole hours.
pub open spec fn spec_age_text(age_secs: nat) -> Seq<char> {
    if age_secs < 60 {
        digits(age_secs) + "s ago"@
    } else if age_secs < 3600 {
        digits(age_secs / 60) + "m ago"@
    } else {
        digits(age_secs / 3600) + "h ago"@
    }
}

/// An age in words.
pub fn format_age(age_secs: u64) -> (text: String)
    ensures
        text@ == spec_age_text(age_secs as nat),
{
    let mut text = String::new();
    if age_secs < 60 {
        push_unsigned(&mut text, age_secs);
        text.append("s ago");
    } else if age_secs < 3600 {
        push_unsigned(&mut text, age_secs / 60);
        text.append("m ago");
    } else {
        push_unsigned(&mut text, age_secs / 3600);
        text.append("h ago");
    }
    assert(text@ =~= spec_age_text(age_secs as nat));
    text
}

} // verus!
