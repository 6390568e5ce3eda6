//! What a host has granted to one invocation, as plain values.
use vstd::prelude::*;

use crate::text::{str_eq, texts};

verus! {

/// Access to one workspace.
#[derive(Clone, Debug)]
pub struct WorkspaceGrant {
    root: String,
    legacy_read: bool,
    next_write: bool,
}

impl WorkspaceGrant {
    pub closed spec fn spec_root(self) -> Seq<char> {
        self.root@
    }

    pub closed spec fn reads(self) -> bool {
        self.legacy_read
    }

    pub closed spec fn writes(self) -> bool {
        self.next_write
    }

    /// A grant with exactly the given authority.
    pub fn new(root: &str, legacy_read: bool, next_write: bool) -> (r: Self)
        ensures
            r.spec_root() == root@,
            r.reads() == legacy_read,
            r.writes() == next_write,
    {
        WorkspaceGrant { root: root.to_owned(), legacy_read, next_write }
    }

    /// Reading is granted, writing is not.
    pub fn read_only(root: &str) -> (r: Self)
        ensures
            r.spec_root() == root@,
            r.reads(),
            !r.writes(),
    {
        WorkspaceGrant::new(root, true, false)
    }

    /// Reading and writing are granted.
    pub fn read_write(root: &str) -> (r: Self)
        ensures
            r.spec_root() == root@,
            r.reads(),
            r.writes(),
    {
        WorkspaceGrant::new(root, true, true)
    }

    pub fn root(&self) -> (r: &str)
        ensures
            r@ == self.spec_root(),
    {
        self.root.as_str()
    }

    pub fn allows_legacy_read(&self) -> (r: bool)
        ensures
            r == self.reads(),
    {
        self.legacy_read
    }

    pub fn allows_next_write(&self) -> (r: bool)
        ensures
            r == self.writes(),
    {
        self.next_write
    }
}

/// The secret references that an invocation may use.
#[derive(Clone, Debug)]
pub struct SecretGrant {
    references: Vec<String>,
}

impl SecretGrant {
    pub closed spec fn references(self) -> Seq<Seq<char>> {
        texts(self.references@)
    }

    pub fn new(references: Vec<String>) -> (r: Self)
        ensures
            r.references() == texts(references@),
    {
        SecretGrant { references }
    }

    pub fn empty() -> (r: Self)
        ensures
            r.references() == Seq::<Seq<char>>::empty(),
    {
        let r = SecretGrant { references: Vec::new() };
        assert(r.references() =~= Seq::<Seq<char>>::empty());
        r
    }

    pub fn is_empty(&self) -> (r: bool)
        ensures
            r == (self.references().len() == 0),
    {
        self.references.len() == 0
    }

    /// Whether the grant names this reference.
    pub fn allows(&self, reference: &str) -> (r: bool)
        ensures
            r == self.references().contains(reference@),
    {
        let mut i: usize = 0;
        while i < self.references.len()
            invariant
                i <= self.references@.len(),
                forall|k: int| 0 <= k < i ==> (#[trigger] self.references@[k])@ != reference@,
            decreases self.references@.len() - i,
        {
            if str_eq(self.references[i].as_str(), reference) {
                assert(self.references()[i as int] == reference@);
                return true;
            }
            i += 1;
        }
        assert forall|k: int| 0 <= k < self.references().len() implies self.references()[k]
            != reference@ by {
            assert(self.references()[k] == self.references@[k]@);
        }
        false
    }
}

/// Why an action grant authorises nothing: the host has not approved the action, or its rules
/// for grants reject this one.
#[derive(Clone, Debug, PartialEq, Eq)]
pub enum ActionGrantError {
    NotApproved,
    Rejected(String),
}

/// The error with its text as a character sequence.
pub enum GrantErrorView {
    NotApproved,
    Rejected(Seq<char>),
}

impl View for ActionGrantError {
    type V = GrantErrorView;

    open spec fn view(&self) -> GrantErrorView {
        match *self {
            ActionGrantError::NotApproved => GrantErrorView::NotApproved,
            ActionGrantError::Rejected(message) => GrantErrorView::Rejected(message@),
        }
    }
}

impl GrantErrorView {
    pub open spec fn text(self) -> Seq<char> {
        match self {
            GrantErrorView::NotApproved => "action has not been approved by the host"@,
            GrantErrorView::Rejected(message) => message,
        }
    }
}

impl ActionGrantError {
    pub fn to_string(&self) -> (r: String)
        ensures
            r@ == self@.text(),
    {
        match self {
            ActionGrantError::NotApproved => "action has not been approved by the host".to_owned(),
            ActionGrantError::Rejected(message) => message.clone(),
        }
    }
}

/// The authority of one approved action. `objection` is what the host's rules for grants have
/// against this one.
#[derive(Clone, Debug)]
pub struct ActionGrant {
    pub workspace: WorkspaceGrant,
    pub working_directory: String,
    pub approval: Option<String>,
    pub objection: Option<String>,
    pub allow_write: bool,
    pub allow_network: bool,
    pub secret_grant: SecretGrant,
    pub timeout_millis: u64,
    pub max_output_bytes: usize,
}

impl ActionGrant {
    /// The host has approved the action.
    pub open spec fn approved_by_host(self) -> bool {
        self.approval is Some
    }

    /// What keeps the grant from authorising anything.
    pub open spec fn problem(self) -> Option<GrantErrorView> {
        if let Some(message) = self.objection {
            Some(GrantErrorView::Rejected(message@))
        } else if !self.approved_by_host() {
            Some(GrantErrorView::NotApproved)
        } else {
            None
        }
    }

    /// An approved grant without write, network or secret authority.
    pub fn approved(
        workspace: WorkspaceGrant,
        working_directory: &str,
        ticket: &str,
        timeout_millis: u64,
        max_output_bytes: usize,
    ) -> (r: Self)
        ensures
            r.problem() is None,
            r.approval is Some,
            r.approval->0@ == ticket@,
            r.workspace == workspace,
            r.working_directory@ == working_directory@,
            !r.allow_write,
            !r.allow_network,
            r.secret_grant.references().len() == 0,
            r.timeout_millis == timeout_millis,
            r.max_output_bytes == max_output_bytes,
    {
        ActionGrant {
            workspace,
            working_directory: working_directory.to_owned(),
            approval: Some(ticket.to_owned()),
            objection: None,
            allow_write: false,
            allow_network: false,
            secret_grant: SecretGrant::empty(),
            timeout_millis,
            max_output_bytes,
        }
    }

    /// A grant that still waits for the host's approval.
    pub fn pending(
        workspace: WorkspaceGrant,
        working_directory: &str,
        timeout_millis: u64,
        max_output_bytes: usize,
    ) -> (r: Self)
        ensures
            r.problem() == Some(GrantErrorView::NotApproved),
            r.workspace == workspace,
            r.working_directory@ == working_directory@,
            !r.allow_write,
            !r.allow_network,
            r.secret_grant.references().len() == 0,
            r.timeout_millis == timeout_millis,
            r.max_output_bytes == max_output_bytes,
    {
        ActionGrant {
            workspace,
            working_directory: working_directory.to_owned(),
            approval: None,
            objection: None,
            allow_write: false,
            allow_network: false,
            secret_grant: SecretGrant::empty(),
            timeout_millis,
            max_output_bytes,
        }
    }

    pub fn with_write(self, allow_write: bool) -> (r: Self)
        ensures
            r == (ActionGrant { allow_write, ..self }),
    {
        ActionGrant { allow_write, ..self }
    }

    pub fn with_network(self, allow_network: bool) -> (r: Self)
        ensures
            r == (ActionGrant { allow_network, ..self }),
    {
        ActionGrant { allow_network, ..self }
    }

    /// The grant together with what the host's rules have against it.
    pub fn with_objection(self, message: &str) -> (r: Self)
        ensures
            r == (ActionGrant { objection: r.objection, ..self }),
            r.objection is Some,
            r.objection->0@ == message@,
    {
        ActionGrant { objection: Some(message.to_owned()), ..self }
    }

    /// An action that the host's rules reject is refused, and so is one without approval.
    pub fn validate(&self) -> (r: Result<(), ActionGrantError>)
        ensures
            match self.problem() {
                None => r is Ok,
                Some(error) => r is Err && r->Err_0@ == error,
            },
    {
        if let Some(message) = &self.objection {
            return Err(ActionGrantError::Rejected(message.clone()));
        }
        if self.approval.is_some() {
            Ok(())
        } else {
            Err(ActionGrantError::NotApproved)
        }
    }
}

/// A grant to read is no grant to write, and both are for the root they name.
pub proof fn lemma_grants_allow_what_they_are_for(
    root: &str,
    reading: WorkspaceGrant,
    both: WorkspaceGrant,
    write: bool,
)
    requires
        call_ensures(WorkspaceGrant::read_only, (root,), reading),
        call_ensures(WorkspaceGrant::read_write, (root,), both),
    ensures
        reading.spec_root() == root@ && both.spec_root() == root@,
        reading.reads() && both.reads(),
        both.writes() && !reading.writes(),
        call_ensures(WorkspaceGrant::allows_next_write, (&reading,), write) ==> !write,
        call_ensures(WorkspaceGrant::allows_next_write, (&both,), write) ==> write,
{
}

/// A secret may be used if and only if it was named when the grant was given.
pub proof fn lemma_named_secrets_are_allowed(
    references: Vec<String>,
    grant: SecretGrant,
    reference: &str,
    r: bool,
)
    requires
        call_ensures(SecretGrant::new, (references,), grant),
        call_ensures(SecretGrant::allows, (&grant, reference), r),
    ensures
        r <==> exists|k: int|
            0 <= k < references@.len() && (#[trigger] references@[k])@ == reference@,
{
    if r {
        let k = choose|k: int| 0 <= k < grant.references().len() && grant.references()[k]
            == reference@;
        assert(texts(references@)[k] == references@[k]@);
    }
    if exists|k: int| 0 <= k < references@.len() && (#[trigger] references@[k])@ == reference@ {
        let k = choose|k: int|
            0 <= k < references@.len() && (#[trigger] references@[k])@ == reference@;
        assert(texts(references@)[k] == reference@);
    }
}

/// An action is authorised if and only if it was approved and nothing stands against it.
pub proof fn lemma_approval_is_needed(grant: ActionGrant, r: Result<(), ActionGrantError>)
    requires
        call_ensures(ActionGrant::validate, (&grant,), r),
    ensures
        r is Ok <==> grant.approval is Some && grant.objection is None,
        grant.objection is None && grant.approval is None ==> r
            == Err::<(), ActionGrantError>(ActionGrantError::NotApproved),
        grant.objection is Some ==> (r matches Err(ActionGrantError::Rejected(message)) && message@
            == grant.objection->0@),
{
}

/// Whatever an approved action is granted besides, it is granted on its own.
pub proof fn lemma_grants_are_given_one_by_one(
    grant: ActionGrant,
    allow: bool,
    writing: ActionGrant,
    networked: ActionGrant,
)
    requires
        call_ensures(ActionGrant::with_write, (grant, allow), writing),
        call_ensures(ActionGrant::with_network, (grant, allow), networked),
    ensures
        writing.allow_write == allow && writing.allow_network == grant.allow_network,
        networked.allow_network == allow && networked.allow_write == grant.allow_write,
        writing.approval == grant.approval && networked.approval == grant.approval,
        writing.objection == grant.objection && networked.objection == grant.objection,
        writing.secret_grant == grant.secret_grant && networked.secret_grant == grant.secret_grant,
        writing.workspace == grant.workspace && networked.workspace == grant.workspace,
        writing.working_directory == grant.working_directory && networked.working_directory
            == grant.working_directory,
        writing.timeout_millis == grant.timeout_millis && networked.timeout_millis
            == grant.timeout_millis,
        writing.max_output_bytes == grant.max_output_bytes && networked.max_output_bytes
            == grant.max_output_bytes,
{
}

} // verus!
