//! What the tool-calling adapter decides: which tool a name stands for, what
//! the answer of the registry means, and what is said to the caller.

use crate::discovery::is_text;
use vstd::prelude::*;

verus! {

/// The address of the registry that is used where none is configured.
pub const DEFAULT_REGISTRY_URL: &'static str = "https://reach.agent-id.ai";

/// A tool of the adapter.
#[derive(Debug, Clone, Copy, PartialEq, Eq, Structural)]
pub enum Tool {
    Register,
    Lookup,
    Deregister,
    Status,
    Whoami,
}

impl Tool {
    /// The name under which this tool is called.
    pub open spec fn spec_name(self) -> Seq<char> {
        match self {
            Tool::Register => "reach_register"@,
            Tool::Lookup => "reach_lookup"@,
            Tool::Deregister => "reach_deregister"@,
            Tool::Status => "reach_status"@,
            Tool::Whoami => "reach_whoami"@,
        }
    }

    /// The tool that a name stands for, if any.
    pub open spec fn spec_parse(name: Seq<char>) -> Option<Tool> {
        if name == "reach_register"@ {
            Some(Tool::Register)
        } else if name == "reach_lookup"@ {
            Some(Tool::Lookup)
        } else if name == "reach_deregister"@ {
            Some(Tool::Deregister)
        } else if name == "reach_status"@ {
            Some(Tool::Status)
        } else if name == "reach_whoami"@ {
            Some(Tool::Whoami)
        } else {
            None
        }
    }

    /// The name under which this tool is called.
    pub fn name(&self) -> (name: &'static str)
        ensures
            name@ == self.spec_name(),
    {
        match self {
            Tool::Register => "reach_register",
            Tool::Lookup => "reach_lookup",
            Tool::Deregister => "reach_deregister",
            Tool::Status => "reach_status",
            Tool::Whoami => "reach_whoami",
        }
    }

    /// What this tool does, in a sentence.
    pub fn description(&self) -> (text: &'static str)
        ensures
            text@ == match *self {
                Tool::Register => "Register your endpoint in the discovery registry"@,
                Tool::Lookup => "Look up an agent's endpoint by DID"@,
                Tool::Deregister => "Remove your registration"@,
                Tool::Status => "Check your registration status"@,
                Tool::Whoami => "Show your DID"@,
            },
    {
        match self {
            Tool::Register => "Register your endpoint in the discovery registry",
            Tool::Lookup => "Look up an agent's endpoint by DID",
            Tool::Deregister => "Remove your registration",
            Tool::Status => "Check your registration status",
            Tool::Whoami => "Show your DID",
        }
    }

    /// The argument that a call of this tool must carry, if any.
    pub fn required_argument(&self) -> (name: Option<&'static str>)
        ensures
            match *self {
                Tool::Register => name matches Some(n) && n@ == "endpoint"@,
                Tool::Lookup => name matches Some(n) && n@ == "did"@,
                _ => name is None,
            },
    {
        match self {
            Tool::Register => Some("endpoint"),
            Tool::Lookup => Some("did"),
            _ => None,
        }
    }

    /// Whether this tool acts under a session, so that a handshake must come
    /// first.
    pub fn needs_session(&self) -> (b: bool)
        ensures
            b == (*self == Tool::Register || *self == Tool::Deregister),
    {
        match self {
            Tool::Register => true,
            Tool::Deregister => true,
            _ => false,
        }
    }

    /// The tool that `name` stands for, or what is said of an unknown name.
    pub fn parse(name: &str) -> (r: Result<Tool, String>)
        ensures
            match r {
                Ok(tool) => Tool::spec_parse(name@) == Some(tool),
                Err(message) => Tool::spec_parse(name@) is None && message@ == "Unknown tool: "@
                    + name@,
            },
    {
        let owned = name.to_owned();
        if is_text(&owned, "reach_register") {
            Ok(Tool::Register)
        } else if is_text(&owned, "reach_lookup") {
            Ok(Tool::Lookup)
        } else if is_text(&owned, "reach_deregister") {
            Ok(Tool::Deregister)
        } else if is_text(&owned, "reach_status") {
            Ok(Tool::Status)
        } else if is_text(&owned, "reach_whoami") {
            Ok(Tool::Whoami)
        } else {
            let mut message = "Unknown tool: ".to_owned();
            message.append(name);
            Err(message)
        }
    }

    /// All tools, in the order in which they are listed.
    pub fn all() -> (tools: Vec<Tool>)
        ensures
            tools@ == seq![
                Tool::Register,
                Tool::Lookup,
                Tool::Deregister,
                Tool::Status,
                Tool::Whoami,
            ],
    {
        let mut tools: Vec<Tool> = Vec::new();
        tools.push(Tool::Register);
        tools.push(Tool::Lookup);
        tools.push(Tool::Deregister);
        tools.push(Tool::Status);
        tools.push(Tool::Whoami);
        assert(tools@ =~= seq![
            Tool::Register,
            Tool::Lookup,
            Tool::Deregister,
            Tool::Status,
            Tool::Whoami,
        ]);
        tools
    }
}

/// What the registry's answer to a lookup means.
#[derive(Debug, Clone, Copy, PartialEq, Eq, Structural)]
pub enum LookupOutcome {
    /// The agent is registered; the body holds its row.
    Found,
    /// The registry holds no row for the agent.
    NotFound,
    /// Anything else; the body may say why.
    Failed,
}

/// How the status of a lookup is read: 404 means that the agent is not
/// registered, 2xx that it is, every other status that the lookup failed.
pub fn lookup_outcome(status: u16) -> (outcome: LookupOutcome)
    ensures
        outcome == if status == 404 {
            LookupOutcome::NotFound
        } else if 200 <= status < 300 {
            LookupOutcome::Found
        } else {
            LookupOutcome::Failed
        },
{
    if status == 404 {
        LookupOutcome::NotFound
    } else if status >= 200 && status < 300 {
        LookupOutcome::Found
    } else {
        LookupOutcome::Failed
    }
}

/// What is said of a failed request: what the registry said, or that the
/// error is unknown where it said nothing that could be read.
pub fn failure_text(error: Option<String>) -> (text: String)
    ensures
        text@ == match error {
            Some(e) => e@,
            None => "Unknown error"@,
        },
{
    match error {
        Some(e) => e,
        None => "Unknown error".to_owned(),
    }
}

/// What is said after a registration.
pub fn registered_text(did: &str, endpoint: &str) -> (text: String)
    ensures
        text@ == "\u{2713} Registered "@ + did@ + " at endpoint: "@ + endpoint@,
{
    let mut text = "\u{2713} Registered ".to_owned();
    text.append(did);
    text.append(" at endpoint: ");
    text.append(endpoint);
    text
}

/// What is said after a lookup that found the agent.
pub fn found_text(did: &str, endpoint: &str) -> (text: String)
    ensures
        text@ == "\u{2713} Found "@ + did@ + "\n  Endpoint: "@ + endpoint@,
{
    let mut text = "\u{2713} Found ".to_owned();
    text.append(did);
    text.append("\n  Endpoint: ");
    text.append(endpoint);
    text
}

/// What is said after a deregistration.
pub fn deregistered_text(did: &str) -> (text: String)
    ensures
        text@ == "\u{2713} Deregistered "@ + did@,
{
    let mut text = "\u{2713} Deregistered ".to_owned();
    text.append(did);
    text
}

/// What is said of the caller's own registration: that it stands, with its
/// endpoint, or that there is none.
pub fn status_text(did: &str, endpoint: Option<&str>) -> (text: String)
    ensures
        text@ == match endpoint {
            Some(e) => "\u{2713} Registered\n  DID: "@ + did@ + "\n  Endpoint: "@ + e@,
            None => "\u{25cb} Not registered\n  DID: "@ + did@,
        },
{
    match endpoint {
        Some(e) => {
            let mut text = "\u{2713} Registered\n  DID: ".to_owned();
            text.append(did);
            text.append("\n  Endpoint: ");
            text.append(e);
            text
        },
        None => {
            let mut text = "\u{25cb} Not registered\n  DID: ".to_owned();
            text.append(did);
            text
        },
    }
}

/// What is said of the caller's identity.
pub fn whoami_text(did: &str) -> (text: String)
    ensures
        text@ == "Your DID: "@ + did@,
{
    let mut text = "Your DID: ".to_owned();
    text.append(did);
    text
}

} // verus!
