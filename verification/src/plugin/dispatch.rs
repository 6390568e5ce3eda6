//! From a message of the host to what the plugin does next.
use vstd::prelude::*;

use crate::text::{str_eq, texts};

verus! {

/// A message of the host to a plugin that is ready.
#[derive(Clone, Debug)]
pub enum HostMessage {
    Invoke { request_id: u64, capability: String, version: u32, operation: String },
    Cancel,
    Shutdown,
    Welcome,
}

/// What a plugin offers. A plugin may tell a capability that it does not know from an
/// operation that it does not know.
#[derive(Clone, Debug)]
pub struct PluginContract {
    pub capability: String,
    pub version: u32,
    pub operations: Vec<String>,
    pub unknown_capability: Option<String>,
    pub unknown_operation: String,
}

/// What a plugin does with a message.
#[derive(Clone, Debug)]
pub enum HostAction {
    Run { request_id: u64, operation: String },
    Refuse { request_id: u64, code: &'static str, message: String },
    Ignore,
    Stop,
    Abort { message: &'static str },
}

pub enum HostActionView {
    Run { request_id: u64, operation: Seq<char> },
    Refuse { request_id: u64, code: Seq<char>, message: Seq<char> },
    Ignore,
    Stop,
    Abort { message: Seq<char> },
}

impl View for HostAction {
    type V = HostActionView;

    open spec fn view(&self) -> HostActionView {
        match *self {
            HostAction::Run { request_id, operation } => HostActionView::Run {
                request_id,
                operation: operation@,
            },
            HostAction::Refuse { request_id, code, message } => HostActionView::Refuse {
                request_id,
                code: code@,
                message: message@,
            },
            HostAction::Ignore => HostActionView::Ignore,
            HostAction::Stop => HostActionView::Stop,
            HostAction::Abort { message } => HostActionView::Abort { message: message@ },
        }
    }
}

/// What a plugin does with a message: it runs what it offers, refuses what it does not, and
/// gives up on a host that starts over.
pub open spec fn action_for(contract: PluginContract, message: HostMessage) -> HostActionView {
    match message {
        HostMessage::Invoke { request_id, capability, version, operation } => {
            let known = capability@ == contract.capability@ && version == contract.version;
            if !known && contract.unknown_capability is Some {
                HostActionView::Refuse {
                    request_id,
                    code: "unsupported_capability"@,
                    message: contract.unknown_capability->0@,
                }
            } else if !known || !texts(contract.operations@).contains(operation@) {
                HostActionView::Refuse {
                    request_id,
                    code: "unsupported_operation"@,
                    message: contract.unknown_operation@,
                }
            } else {
                HostActionView::Run { request_id, operation: operation@ }
            }
        },
        HostMessage::Cancel => HostActionView::Ignore,
        HostMessage::Shutdown => HostActionView::Stop,
        HostMessage::Welcome => HostActionView::Abort {
            message: "received a second welcome after readiness"@,
        },
    }
}

fn offers(operations: &Vec<String>, operation: &str) -> (r: bool)
    ensures
        r == texts(operations@).contains(operation@),
{
    let n: usize = operations.len();
    let mut i: usize = 0;
    while i < n
        invariant
            n == operations@.len(),
            i <= n,
            forall|k: int| 0 <= k < i ==> (#[trigger] texts(operations@)[k]) != operation@,
        decreases n - i,
    {
        if str_eq(operations[i].as_str(), operation) {
            assert(texts(operations@)[i as int] == operation@);
            return true;
        }
        i += 1;
    }
    false
}

/// What a plugin does with a message.
pub fn dispatch(contract: &PluginContract, message: HostMessage) -> (r: HostAction)
    ensures
        r@ == action_for(*contract, message),
{
    match message {
        HostMessage::Invoke { request_id, capability, version, operation } => {
            let known = str_eq(capability.as_str(), contract.capability.as_str()) && version
                == contract.version;
            if !known {
                if let Some(message) = &contract.unknown_capability {
                    return HostAction::Refuse {
                        request_id,
                        code: "unsupported_capability",
                        message: message.clone(),
                    };
                }
            }
            if !known || !offers(&contract.operations, operation.as_str()) {
                return HostAction::Refuse {
                    request_id,
                    code: "unsupported_operation",
                    message: contract.unknown_operation.clone(),
                };
            }
            HostAction::Run { request_id, operation }
        },
        HostMessage::Cancel => HostAction::Ignore,
        HostMessage::Shutdown => HostAction::Stop,
        HostMessage::Welcome => HostAction::Abort {
            message: "received a second welcome after readiness",
        },
    }
}

/// Nothing runs but what the plugin offers, in the version that it offers; whatever else is
/// asked for is refused under the number of the request.
pub proof fn lemma_only_offers_run(contract: PluginContract, message: HostMessage)
    requires
        message is Invoke,
    ensures
        ({
            let action = action_for(contract, message);
            &&& action is Run || action is Refuse
            &&& action is Run ==> {
                &&& action->Run_request_id == message->request_id
                &&& message->capability@ == contract.capability@
                &&& message->version == contract.version
                &&& texts(contract.operations@).contains(action->operation)
            }
            &&& action is Refuse ==> action->Refuse_request_id == message->request_id
        }),
{
}

/// The answer to a request.
#[derive(Debug)]
pub enum Reply<R> {
    Completed { request_id: u64, result: R },
    Failed { request_id: u64, code: &'static str, message: String, retryable: bool },
}

/// What a plugin offers is run, by its name and under the number of the request; a message that
/// is no request runs and refuses nothing.
pub proof fn lemma_offers_are_run(contract: PluginContract, message: HostMessage, r: HostAction)
    requires
        call_ensures(dispatch, (&contract, message), r),
    ensures
        message matches HostMessage::Invoke { request_id, capability, version, operation } ==> {
            let offered = capability@ == contract.capability@ && version == contract.version
                && exists|k: int|
                0 <= k < contract.operations@.len() && (#[trigger] contract.operations@[k])@
                    == operation@;
            &&& offered ==> r@ == (HostActionView::Run { request_id, operation: operation@ })
            &&& !offered ==> r@ is Refuse && r@->Refuse_request_id == request_id
        },
        message is Cancel ==> r@ is Ignore,
        message is Shutdown <==> r@ is Stop,
        message is Welcome <==> r@ is Abort,
{
    if let HostMessage::Invoke { request_id, capability, version, operation } = message {
        let names = texts(contract.operations@);
        if exists|k: int|
            0 <= k < contract.operations@.len() && (#[trigger] contract.operations@[k])@
                == operation@ {
            let k = choose|k: int|
                0 <= k < contract.operations@.len() && (#[trigger] contract.operations@[k])@
                    == operation@;
            assert(names[k] == operation@);
        } else {
            assert forall|k: int| 0 <= k < names.len() implies names[k] != operation@ by {
                assert(names[k] == contract.operations@[k]@);
            }
        }
    }
}

} // verus!
