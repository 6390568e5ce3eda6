//! The plugin that tells of skills.
use vstd::prelude::*;

use crate::plugin::dispatch::{PluginContract, Reply};
use crate::plugin::requirement::{GrantKind, GrantRequirement};
use crate::skills::context::{
    blocks_view, context_of, context_result, copy_texts, count_tools, SkillContextResult,
};
use crate::skills::discovery::{tool_count, DiscoverySnapshot, SkillMetadata};
use crate::skills::error::{
    DiscoveryError, DiscoveryErrorView, SkillsConfigError, SkillsConfigErrorView,
};
use crate::text::{str_eq, text2, texts};

verus! {

pub const SKILLS_PLUGIN_ID: &'static str = "yunxi.tool.skills";

/// What the skills plugin offers.
pub fn contract(capability: &str, version: u32, operations: Vec<String>) -> (r: PluginContract)
    ensures
        r.capability@ == capability@,
        r.version == version,
        r.operations == operations,
        r.unknown_capability is None,
        r.unknown_operation@ == "Skills plugin does not support the requested operation"@,
{
    PluginContract {
        capability: capability.to_owned(),
        version,
        operations,
        unknown_capability: None,
        unknown_operation: "Skills plugin does not support the requested operation".to_owned(),
    }
}

/// What the skills ask the host for: nothing but reading the workspace.
pub open spec fn grants_wanted() -> Seq<GrantRequirement> {
    seq![
        GrantRequirement { kind: GrantKind::WorkspaceRead, required: true },
    ]
}

pub fn required_grants() -> (r: Vec<GrantRequirement>)
    ensures
        r@ == grants_wanted(),
{
    let r = vec![
        GrantRequirement { kind: GrantKind::WorkspaceRead, required: true },
    ];
    assert(r@ =~= grants_wanted());
    r
}

/// Why the plugin cannot go on.
#[derive(Clone, Debug)]
pub enum SkillsPluginError {
    Config(SkillsConfigError),
    Discovery(DiscoveryError),
    Capability(String),
    Invocation(String),
    Protocol(String),
    ProtocolData(String),
    UnexpectedHostMessage(String),
}

/// The error with its texts as character sequences.
pub enum SkillsPluginErrorView {
    Config(SkillsConfigErrorView),
    Discovery(DiscoveryErrorView),
    Capability(Seq<char>),
    Invocation(Seq<char>),
    Protocol(Seq<char>),
    ProtocolData(Seq<char>),
    UnexpectedHostMessage(Seq<char>),
}

impl View for SkillsPluginError {
    type V = SkillsPluginErrorView;

    open spec fn view(&self) -> SkillsPluginErrorView {
        match *self {
            SkillsPluginError::Config(error) => SkillsPluginErrorView::Config(error@),
            SkillsPluginError::Discovery(error) => SkillsPluginErrorView::Discovery(error@),
            SkillsPluginError::Capability(message) => SkillsPluginErrorView::Capability(message@),
            SkillsPluginError::Invocation(message) => SkillsPluginErrorView::Invocation(message@),
            SkillsPluginError::Protocol(message) => SkillsPluginErrorView::Protocol(message@),
            SkillsPluginError::ProtocolData(message) =>
                SkillsPluginErrorView::ProtocolData(message@),
            SkillsPluginError::UnexpectedHostMessage(message) =>
                SkillsPluginErrorView::UnexpectedHostMessage(message@),
        }
    }
}

impl SkillsPluginErrorView {
    /// The sentence shown to people.
    pub open spec fn text(self) -> Seq<char> {
        match self {
            SkillsPluginErrorView::Config(error) => error.text(),
            SkillsPluginErrorView::Discovery(error) => error.text(),
            SkillsPluginErrorView::Capability(message) => "invalid capability: "@ + message,
            SkillsPluginErrorView::Invocation(message) => message,
            SkillsPluginErrorView::Protocol(message) => message,
            SkillsPluginErrorView::ProtocolData(message) => message,
            SkillsPluginErrorView::UnexpectedHostMessage(message) => message,
        }
    }
}

impl SkillsPluginError {
    /// The sentence shown to people.
    pub fn to_string(&self) -> (r: String)
        ensures
            r@ == self@.text(),
    {
        match self {
            SkillsPluginError::Config(error) => error.to_string(),
            SkillsPluginError::Discovery(error) => error.to_string(),
            SkillsPluginError::Capability(message) => text2(
                "invalid capability: ",
                message.as_str(),
            ),
            SkillsPluginError::Invocation(message) => message.clone(),
            SkillsPluginError::Protocol(message) => message.clone(),
            SkillsPluginError::ProtocolData(message) => message.clone(),
            SkillsPluginError::UnexpectedHostMessage(message) => message.clone(),
        }
    }
}

/// What the skills plugin is asked for.
#[derive(Clone, Copy, Debug, PartialEq, Eq, Structural)]
pub enum SkillsCall {
    List,
    Context,
    Status,
}

/// The exit code with which a plugin in a test mode gives up instead of answering; `None`
/// stands for the handshake.
pub open spec fn crash_code(mode: Seq<char>, call: Option<SkillsCall>) -> Option<i32> {
    match call {
        None => if mode == "crash-before-handshake"@ {
            Some(42i32)
        } else {
            None
        },
        Some(SkillsCall::List) => if mode == "crash-list"@ {
            Some(43i32)
        } else {
            None
        },
        Some(SkillsCall::Context) => if mode == "crash-context"@ {
            Some(44i32)
        } else {
            None
        },
        Some(SkillsCall::Status) => None,
    }
}

pub fn exit_code(mode: &str, call: Option<SkillsCall>) -> (r: Option<i32>)
    ensures
        r == crash_code(mode@, call),
{
    match call {
        None => {
            if str_eq(mode, "crash-before-handshake") {
                Some(42)
            } else {
                None
            }
        },
        Some(SkillsCall::List) => {
            if str_eq(mode, "crash-list") {
                Some(43)
            } else {
                None
            }
        },
        Some(SkillsCall::Context) => {
            if str_eq(mode, "crash-context") {
                Some(44)
            } else {
                None
            }
        },
        Some(SkillsCall::Status) => None,
    }
}

fn failed<R>(request_id: u64, code: &'static str, message: String) -> (r: Reply<R>)
    ensures
        r == (Reply::<R>::Failed { request_id, code, message, retryable: false }),
{
    Reply::Failed { request_id, code, message, retryable: false }
}

/// What the plugin works with after it was asked to look for skills again: what it has found,
/// or what it had before and the answer that the request failed.
pub fn refresh<R>(
    request_id: u64,
    known: DiscoverySnapshot,
    found: Result<DiscoverySnapshot, DiscoveryError>,
) -> (r: (DiscoverySnapshot, Option<Reply<R>>))
    ensures
        match found {
            Ok(snapshot) => r.0 == snapshot && r.1 is None,
            Err(error) => {
                &&& r.0 == known
                &&& r.1 is Some
                &&& r.1->0 is Failed
                &&& r.1->0->Failed_request_id == request_id
                &&& r.1->0->code@ == "skills_discovery"@
                &&& r.1->0->message@ == error@.text()
                &&& !r.1->0->retryable
            },
        },
{
    match found {
        Ok(snapshot) => (snapshot, None),
        Err(error) => (known, Some(failed(request_id, "skills_discovery", error.to_string()))),
    }
}

/// The answer to a request that cannot be read.
pub fn refuse_payload<R>(request_id: u64, message: String) -> (r: Reply<R>)
    ensures
        r is Failed,
        r->Failed_request_id == request_id,
        r->code@ == "invalid_request"@,
        r->message == message,
        !r->retryable,
{
    failed(request_id, "invalid_request", message)
}

/// The answer to a request for the instructions of skills.
pub fn answer_context(
    request_id: u64,
    snapshot: &DiscoverySnapshot,
    payload: Result<Vec<String>, String>,
    budget: usize,
) -> (r: Reply<SkillContextResult>)
    ensures
        match payload {
            Err(message) => {
                &&& r is Failed
                &&& r->Failed_request_id == request_id
                &&& r->code@ == "invalid_request"@
                &&& r->message == message
                &&& !r->retryable
            },
            Ok(ids) => {
                let context = context_of(*snapshot, texts(ids@), budget as nat);
                &&& r is Completed
                &&& r->Completed_request_id == request_id
                &&& blocks_view(r->result.blocks@) == context.blocks
                &&& texts(r->result.warnings@) == context.warnings
                &&& r->result.truncated == context.truncated
            },
        },
{
    match payload {
        Err(message) => refuse_payload(request_id, message),
        Ok(ids) => Reply::Completed { request_id, result: context_result(snapshot, &ids, budget) },
    }
}

/// The skills that were found, without their instructions.
#[derive(Debug)]
pub struct SkillListResult {
    pub root: String,
    pub skills: Vec<SkillMetadata>,
    pub warnings: Vec<String>,
    pub truncated: bool,
}

/// What is listed: every skill that was found, in the order in which it was found.
pub fn list_result(snapshot: &DiscoverySnapshot) -> (r: SkillListResult)
    ensures
        r.root@ == snapshot.root@,
        r.skills@.len() == snapshot.skills@.len(),
        forall|k: int|
            0 <= k < r.skills@.len() ==> (#[trigger] r.skills@[k])@
                == snapshot.skills@[k].metadata@,
        texts(r.warnings@) == texts(snapshot.warnings@),
        r.truncated == snapshot.truncated,
{
    let mut skills: Vec<SkillMetadata> = Vec::new();
    let n: usize = snapshot.skills.len();
    let mut i: usize = 0;
    while i < n
        invariant
            n == snapshot.skills@.len(),
            i <= n,
            skills@.len() == i,
            forall|k: int|
                0 <= k < i ==> (#[trigger] skills@[k])@ == snapshot.skills@[k].metadata@,
        decreases n - i,
    {
        skills.push(snapshot.skills[i].metadata.duplicate());
        i += 1;
    }
    SkillListResult {
        root: snapshot.root.clone(),
        skills,
        warnings: copy_texts(&snapshot.warnings, snapshot.warnings.len()),
        truncated: snapshot.truncated,
    }
}

/// What is said of the state of the plugin.
#[derive(Clone, Debug, PartialEq, Eq)]
pub struct SkillStatusResult {
    pub root: String,
    pub skill_count: usize,
    pub tool_count: usize,
}

/// The state of the plugin: ready, with so many skills and tools.
pub fn status(snapshot: &DiscoverySnapshot) -> (r: SkillStatusResult)
    requires
        tool_count(snapshot.skills@) <= usize::MAX,
    ensures
        r.root@ == snapshot.root@,
        r.skill_count == snapshot.skills@.len(),
        r.tool_count == tool_count(snapshot.skills@),
{
    SkillStatusResult {
        root: snapshot.root.clone(),
        skill_count: snapshot.skills.len(),
        tool_count: count_tools(&snapshot.skills),
    }
}

} // verus!
