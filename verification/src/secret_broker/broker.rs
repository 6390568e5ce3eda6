//! The broker: one-shot, plugin-scoped references to host-owned secrets.
use std::collections::{BTreeMap, BTreeSet};
use vstd::prelude::*;

use crate::secret_broker::audit::{AuditEvent, AuditEventView, AuditOperation, AuditOutcome};
use crate::secret_broker::error::{
    map_store_error, mapped_store_error, BoundedItem, SecretError, SecretStoreError,
};
use crate::secret_broker::model::{
    returned_from, PluginId, SecretKey, SecretRef, SecretValue,
};
use crate::secret_broker::store::SecretStore;
use crate::secret_broker::{MAX_AUDIT_EVENTS, MAX_SECRET_REFS, MAX_SECRET_VALUE_BYTES};
use crate::text_map::TextMap;

verus! {

/// Who may resolve which key.
struct Grant {
    plugin: PluginId,
    key: SecretKey,
}

pub struct GrantView {
    pub plugin: Seq<char>,
    pub key: Seq<char>,
}

impl View for Grant {
    type V = GrantView;

    closed spec fn view(&self) -> GrantView {
        GrantView { plugin: self.plugin@, key: self.key@ }
    }
}

/// The state of a broker beside its store.
pub struct BrokerView {
    pub broker_id: u64,
    pub next_reference_id: u64,
    pub grants: Map<u64, GrantView>,
    pub consumed: Set<u64>,
    pub switches: Map<Seq<char>, bool>,
    pub audit: Seq<AuditEventView>,
    pub next_sequence: u64,
}

// ---------------------------------------------------------------------------
// What each step does to the state
// ---------------------------------------------------------------------------
impl BrokerView {
    /// A plugin is enabled until it is switched off.
    pub open spec fn enabled(self, plugin: Seq<char>) -> bool {
        if self.switches.dom().contains(plugin) {
            self.switches[plugin]
        } else {
            true
        }
    }

    /// The state after a plugin was switched: switching it off revokes what it holds.
    pub open spec fn switched(self, plugin: Seq<char>, enabled: bool) -> BrokerView {
        BrokerView {
            switches: self.switches.insert(plugin, enabled),
            grants: if enabled {
                self.grants
            } else {
                without_plugin(self.grants, plugin)
            },
            ..self
        }
    }

    /// What keeps a reference from being issued.
    pub open spec fn issue_problem(self, plugin: Seq<char>) -> Option<SecretError> {
        if !self.enabled(plugin) {
            Some(SecretError::Denied)
        } else if self.grants.dom().len() >= MAX_SECRET_REFS {
            Some(SecretError::TooManyReferences { max: MAX_SECRET_REFS })
        } else if self.next_reference_id == 0 {
            Some(SecretError::ReferenceIdExhausted)
        } else {
            None
        }
    }

    /// The state after a reference was issued.
    pub open spec fn issued(self, plugin: Seq<char>, key: Seq<char>) -> BrokerView {
        BrokerView {
            grants: self.grants.insert(self.next_reference_id, GrantView { plugin, key }),
            next_reference_id: if self.next_reference_id == u64::MAX {
                0
            } else {
                (self.next_reference_id + 1) as u64
            },
            ..self
        }
    }

    /// Who asks for what: the state after the attempt, and the grant or why there is none.
    pub open spec fn taken(self, reference: SecretRef, requester: Seq<char>) -> (
        BrokerView,
        Result<GrantView, SecretError>,
    ) {
        let id = reference.id();
        if reference.broker() != self.broker_id {
            (self, Err(SecretError::InvalidReference))
        } else if self.consumed.contains(id) {
            (self, Err(SecretError::AlreadyResolved))
        } else if !self.grants.dom().contains(id) {
            (self, Err(SecretError::InvalidReference))
        } else if self.grants[id].plugin != requester {
            (self, Err(SecretError::Denied))
        } else {
            (
                BrokerView {
                    grants: self.grants.remove(id),
                    consumed: with_consumed(self.consumed, id),
                    ..self
                },
                if self.enabled(requester) {
                    Ok(self.grants[id])
                } else {
                    Err(SecretError::Denied)
                },
            )
        }
    }

    /// The state after one more audit record; the oldest leaves when there are too many.
    pub open spec fn recorded(
        self,
        operation: AuditOperation,
        plugin: Seq<char>,
        reference_id: u64,
        outcome: AuditOutcome,
        value_len: Option<usize>,
    ) -> BrokerView {
        let event = AuditEventView {
            sequence: self.next_sequence,
            operation,
            plugin,
            reference_id,
            outcome,
            value_len,
        };
        BrokerView {
            audit: if self.audit.len() < MAX_AUDIT_EVENTS {
                self.audit.push(event)
            } else {
                self.audit.push(event).drop_first()
            },
            next_sequence: if self.next_sequence == u64::MAX {
                0
            } else {
                (self.next_sequence + 1) as u64
            },
            ..self
        }
    }

    /// The state after a reference was used.
    pub open spec fn used(self, attempt: UseView) -> BrokerView {
        self.taken(attempt.reference, attempt.requester).0.recorded(
            attempt.operation,
            attempt.requester,
            attempt.reference.id(),
            attempt.outcome,
            attempt.value_len,
        )
    }

    /// The bounds, and that no reference is both outstanding and consumed.
    pub open spec fn wf(self) -> bool {
        &&& self.grants.dom().finite()
        &&& self.grants.dom().len() <= MAX_SECRET_REFS
        &&& self.consumed.finite()
        &&& self.consumed.len() <= MAX_SECRET_REFS
        &&& self.audit.len() <= MAX_AUDIT_EVENTS
        &&& forall|id: u64|
            #![trigger self.grants.dom().contains(id)]
            #![trigger self.consumed.contains(id)]
            !(self.grants.dom().contains(id) && self.consumed.contains(id))
        &&& self.next_reference_id != 0 ==> forall|id: u64|
            #![trigger self.grants.dom().contains(id)]
            #![trigger self.consumed.contains(id)]
            self.grants.dom().contains(id) || self.consumed.contains(id) ==> id
                < self.next_reference_id
    }
}

/// One use of a reference, and what came of it.
pub struct UseView {
    pub operation: AuditOperation,
    pub reference: SecretRef,
    pub requester: Seq<char>,
    pub outcome: AuditOutcome,
    pub value_len: Option<usize>,
}

impl UseView {
    /// The length of a value is known exactly where one was handed out.
    pub open spec fn wf(self) -> bool {
        self.value_len is Some <==> self.outcome is Success
    }

    /// The use is one of this reference, for this purpose, by this requester.
    pub open spec fn is(
        self,
        operation: AuditOperation,
        reference: SecretRef,
        requester: Seq<char>,
    ) -> bool {
        &&& self.operation == operation
        &&& self.reference == reference
        &&& self.requester == requester
    }
}

/// The grants that other plugins hold.
pub open spec fn without_plugin(grants: Map<u64, GrantView>, plugin: Seq<char>) -> Map<
    u64,
    GrantView,
> {
    Map::new(
        |id: u64| grants.dom().contains(id) && grants[id].plugin != plugin,
        |id: u64| grants[id],
    )
}

pub open spec fn is_smallest(ids: Set<u64>, id: u64) -> bool {
    ids.contains(id) && forall|other: u64| #[trigger] ids.contains(other) ==> id <= other
}

/// The consumed references after one more; the smallest is forgotten when there are too many.
pub open spec fn with_consumed(consumed: Set<u64>, id: u64) -> Set<u64> {
    let all = consumed.insert(id);
    if all.len() > MAX_SECRET_REFS {
        all.remove(choose|smallest: u64| is_smallest(all, smallest))
    } else {
        all
    }
}

/// How a failed attempt is recorded.
pub open spec fn outcome_of(error: SecretError) -> AuditOutcome {
    match error {
        SecretError::Missing => AuditOutcome::Missing,
        SecretError::Denied => AuditOutcome::Denied,
        SecretError::AlreadyResolved => AuditOutcome::AlreadyResolved,
        SecretError::InvalidReference => AuditOutcome::InvalidReference,
        _ => AuditOutcome::StoreError,
    }
}

/// `BTreeSet::first`: the smallest element, when there is one.
#[verifier::external_body]
fn smallest_of(ids: &BTreeSet<u64>) -> (r: Option<u64>)
    ensures
        match r {
            Some(id) => is_smallest(ids@, id),
            None => ids@ == Set::<u64>::empty(),
        },
{
    ids.first().copied()
}

// ---------------------------------------------------------------------------
// The broker
// ---------------------------------------------------------------------------
/// A host-owned broker that issues and consumes plugin-scoped secret references.
pub struct SecretBroker<S> {
    broker_id: u64,
    store: S,
    next_reference_id: u64,
    grants: BTreeMap<u64, Grant>,
    consumed: BTreeSet<u64>,
    enabled_plugins: TextMap<bool>,
    audit: Vec<AuditEvent>,
    next_audit_sequence: u64,
}

spec fn grants_view(grants: Map<u64, Grant>) -> Map<u64, GrantView> {
    grants.map_values(|grant: Grant| grant@)
}

pub open spec fn events_view(events: Seq<AuditEvent>) -> Seq<AuditEventView> {
    events.map_values(|event: AuditEvent| event@)
}

impl<S> View for SecretBroker<S> {
    type V = BrokerView;

    closed spec fn view(&self) -> BrokerView {
        BrokerView {
            broker_id: self.broker_id,
            next_reference_id: self.next_reference_id,
            grants: grants_view(self.grants@),
            consumed: self.consumed@,
            switches: self.enabled_plugins@,
            audit: events_view(self.audit@),
            next_sequence: self.next_audit_sequence,
        }
    }
}

impl<S: SecretStore> SecretBroker<S> {
    pub closed spec fn spec_store(self) -> S {
        self.store
    }

    /// A broker over a store. Brokers of one process are told apart by their numbers; zero
    /// counts as one.
    pub fn new(broker_id: u64, store: S) -> (r: Self)
        ensures
            r@.wf(),
            r.spec_store() == store,
            r@ == (BrokerView {
                broker_id: if broker_id == 0 {
                    1
                } else {
                    broker_id
                },
                next_reference_id: 1,
                grants: Map::empty(),
                consumed: Set::empty(),
                switches: Map::empty(),
                audit: seq![],
                next_sequence: 1,
            }),
    {
        let r = SecretBroker {
            broker_id: if broker_id == 0 {
                1
            } else {
                broker_id
            },
            store,
            next_reference_id: 1,
            grants: BTreeMap::new(),
            consumed: BTreeSet::new(),
            enabled_plugins: TextMap::new(),
            audit: Vec::new(),
            next_audit_sequence: 1,
        };
        proof {
            assert(r@.grants =~= Map::empty());
            assert(r@.audit =~= seq![]);
        }
        r
    }

    /// Enables or disables future and already-issued access for one plugin. Disabling revokes
    /// the references that the plugin holds.
    pub fn set_plugin_enabled(&mut self, plugin: &PluginId, enabled: bool) -> (r: Result<
        (),
        SecretError,
    >)
        requires
            old(self)@.wf(),
        ensures
            r is Ok,
            final(self)@ == old(self)@.switched(plugin@, enabled),
            final(self)@.wf(),
            final(self).spec_store() == old(self).spec_store(),
    {
        let ghost before = self@;
        self.enabled_plugins.insert(plugin.to_string(), enabled);
        if !enabled {
            self.revoke(plugin);
        }
        proof {
            assert(self@.grants.dom().subset_of(before.grants.dom()));
            vstd::set_lib::lemma_len_subset(self@.grants.dom(), before.grants.dom());
        }
        Ok(())
    }

    /// Drops every grant of a plugin.
    fn revoke(&mut self, plugin: &PluginId)
        requires
            old(self)@.grants.dom().finite(),
        ensures
            final(self)@ == (BrokerView {
                grants: without_plugin(old(self)@.grants, plugin@),
                ..old(self)@
            }),
            final(self).spec_store() == old(self).spec_store(),
    {
        let ids = self.ids_of(plugin);
        let ghost before = self@.grants;
        let mut i: usize = 0;
        while i < ids.len()
            invariant
                i <= ids@.len(),
                before == old(self)@.grants,
                forall|k: int|
                    0 <= k < ids@.len() ==> before.dom().contains(#[trigger] ids@[k])
                        && before[ids@[k]].plugin == plugin@,
                forall|id: u64|
                    before.dom().contains(id) && before[id].plugin == plugin@ ==> ids@.contains(id),
                self.spec_store() == old(self).spec_store(),
                self@ == (BrokerView { grants: self@.grants, ..old(self)@ }),
                forall|id: u64| #[trigger]
                    self@.grants.dom().contains(id) <==> before.dom().contains(id)
                        && !ids@.take(i as int).contains(id),
                forall|id: u64|
                    self@.grants.dom().contains(id) ==> #[trigger] self@.grants[id] == before[id],
            decreases ids@.len() - i,
        {
            let ghost current = self@.grants;
            let ghost raw = self.grants@;
            let id: u64 = ids[i];
            self.grants.remove(&id);
            proof {
                assert(self@.grants =~= current.remove(id)) by {
                    assert(grants_view(raw.remove(id)) =~= grants_view(raw).remove(id));
                }
                let seen = ids@.take(i as int);
                let grown = ids@.take(i + 1);
                assert(grown =~= seen.push(id));
                assert forall|other: u64| #[trigger]
                    self@.grants.dom().contains(other) <==> before.dom().contains(other)
                        && !grown.contains(other) by {
                    if seen.contains(other) {
                        let k = choose|k: int| 0 <= k < seen.len() && seen[k] == other;
                        assert(grown[k] == other);
                    }
                    assert(grown[i as int] == id);
                    if grown.contains(other) && other != id {
                        let k = choose|k: int| 0 <= k < grown.len() && grown[k] == other;
                        assert(seen[k] == other);
                    }
                }
            }
            i += 1;
        }
        proof {
            assert(ids@.take(i as int) =~= ids@);
            assert(self@.grants =~= without_plugin(before, plugin@));
        }
    }

    /// The references that a plugin holds.
    fn ids_of(&self, plugin: &PluginId) -> (r: Vec<u64>)
        ensures
            forall|k: int|
                0 <= k < r@.len() ==> self@.grants.dom().contains(#[trigger] r@[k])
                    && self@.grants[r@[k]].plugin == plugin@,
            forall|id: u64|
                self@.grants.dom().contains(id) && self@.grants[id].plugin == plugin@
                    ==> r@.contains(id),
    {
        let mut ids: Vec<u64> = Vec::new();
        let ghost all = self.grants@;
        for id in it: self.grants.keys()
            invariant
                all == self.grants@,
                it.seq().unref().to_set() == all.dom(),
                forall|k: int|
                    0 <= k < ids@.len() ==> all.dom().contains(#[trigger] ids@[k])
                        && all[ids@[k]].plugin@ == plugin@,
                forall|k: int|
                    0 <= k < it.index@ && all[*(#[trigger] it.seq()[k])].plugin@ == plugin@
                        ==> ids@.contains(*it.seq()[k]),
        {
            let ghost before = ids@;
            proof {
                assert(it.seq().unref()[it.index@ as int] == *id);
                assert(it.seq().unref().to_set().contains(*id));
            }
            match self.grants.get(id) {
                Some(grant) => {
                    if grant.plugin.is(plugin) {
                        ids.push(*id);
                        assert(ids@[before.len() as int] == *id);
                    }
                },
                None => {},
            }
            proof {
                assert forall|other: u64| before.contains(other) implies ids@.contains(other) by {
                    let k = choose|k: int| 0 <= k < before.len() && before[k] == other;
                    assert(ids@[k] == other);
                }
            }
        }
        proof {
            assert forall|id: u64|
                self@.grants.dom().contains(id) && self@.grants[id].plugin
                    == plugin@ implies ids@.contains(id) by {
                assert(all.dom().contains(id));
            }
        }
        ids
    }

    /// Whether a plugin is enabled.
    pub fn is_plugin_enabled(&self, plugin: &PluginId) -> (r: Result<bool, SecretError>)
        ensures
            r == Ok::<bool, SecretError>(self@.enabled(plugin@)),
    {
        Ok(self.plugin_enabled(plugin))
    }

    fn plugin_enabled(&self, plugin: &PluginId) -> (r: bool)
        ensures
            r == self@.enabled(plugin@),
    {
        match self.enabled_plugins.get(plugin.as_str()) {
            Some(enabled) => *enabled,
            None => true,
        }
    }

    /// Issues an opaque, one-shot reference for exactly one plugin.
    pub fn issue(&mut self, plugin: &PluginId, key: &SecretKey) -> (r: Result<
        SecretRef,
        SecretError,
    >)
        requires
            old(self)@.wf(),
        ensures
            final(self)@.wf(),
            final(self).spec_store() == old(self).spec_store(),
            match r {
                Ok(reference) => {
                    &&& old(self)@.issue_problem(plugin@) is None
                    &&& final(self)@ == old(self)@.issued(plugin@, key@)
                    &&& reference.broker() == old(self)@.broker_id
                    &&& reference.id() == old(self)@.next_reference_id
                },
                Err(error) => old(self)@.issue_problem(plugin@) == Some(error) && final(self)@
                    == old(self)@,
            },
    {
        let ghost before = self@;
        let ghost raw = self.grants@;
        if !self.plugin_enabled(plugin) {
            return Err(SecretError::Denied);
        }
        proof {
            assert(before.grants.dom() =~= raw.dom());
        }
        if self.grants.len() >= MAX_SECRET_REFS {
            return Err(SecretError::TooManyReferences { max: MAX_SECRET_REFS });
        }
        let reference_id: u64 = self.next_reference_id;
        if reference_id == 0 {
            return Err(SecretError::ReferenceIdExhausted);
        }
        self.next_reference_id = match reference_id.checked_add(1) {
            Some(next) => next,
            None => 0,
        };
        let grant = Grant { plugin: plugin.duplicate(), key: key.duplicate() };
        self.grants.insert(reference_id, grant);
        proof {
            assert(grants_view(raw.insert(reference_id, grant)) =~= grants_view(raw).insert(
                reference_id,
                grant@,
            ));
            assert(self@.grants.dom() =~= before.grants.dom().insert(reference_id));
        }
        Ok(SecretRef::new(self.broker_id, reference_id))
    }

    /// Consumes a reference that belongs to the requester.
    fn take_grant(&mut self, secret_ref: &SecretRef, requester: &PluginId) -> (r: Result<
        SecretKey,
        SecretError,
    >)
        requires
            old(self)@.wf(),
        ensures
            final(self)@.wf(),
            final(self).spec_store() == old(self).spec_store(),
            final(self)@ == old(self)@.taken(*secret_ref, requester@).0,
            match r {
                Ok(key) => old(self)@.taken(*secret_ref, requester@).1 is Ok && key@ == old(
                    self,
                )@.taken(*secret_ref, requester@).1->Ok_0.key,
                Err(error) => old(self)@.taken(*secret_ref, requester@).1 == Err::<
                    GrantView,
                    SecretError,
                >(error),
            },
    {
        let ghost before = self@;
        let ghost raw = self.grants@;
        let id: u64 = secret_ref.reference_id();
        if secret_ref.broker_id() != self.broker_id {
            return Err(SecretError::InvalidReference);
        }
        if self.consumed.contains(&id) {
            return Err(SecretError::AlreadyResolved);
        }
        let owned = match self.grants.get(&id) {
            Some(grant) => grant.plugin.is(requester),
            None => return Err(SecretError::InvalidReference),
        };
        if !owned {
            return Err(SecretError::Denied);
        }
        let enabled = self.plugin_enabled(requester);
        let removed = self.grants.remove(&id);
        self.consumed.insert(id);
        proof {
            assert(grants_view(raw.remove(id)) =~= grants_view(raw).remove(id));
            assert(self@.grants.dom() =~= before.grants.dom().remove(id));
        }
        let ghost all = before.consumed.insert(id);
        if self.consumed.len() > MAX_SECRET_REFS {
            if let Some(oldest) = smallest_of(&self.consumed) {
                proof {
                    let chosen = choose|smallest: u64| is_smallest(all, smallest);
                    assert(is_smallest(all, oldest));
                    assert(chosen <= oldest && oldest <= chosen);
                }
                self.consumed.remove(&oldest);
            }
        }
        proof {
            assert(self@.consumed == with_consumed(before.consumed, id));
        }
        if !enabled {
            return Err(SecretError::Denied);
        }
        match removed {
            Some(grant) => Ok(grant.key),
            None => Err(SecretError::InvalidReference),
        }
    }

    fn record(
        &mut self,
        operation: AuditOperation,
        plugin: &PluginId,
        reference_id: u64,
        outcome: AuditOutcome,
        value_len: Option<usize>,
    )
        requires
            old(self)@.wf(),
        ensures
            final(self)@.wf(),
            final(self).spec_store() == old(self).spec_store(),
            final(self)@ == old(self)@.recorded(
                operation,
                plugin@,
                reference_id,
                outcome,
                value_len,
            ),
    {
        let sequence: u64 = self.next_audit_sequence;
        self.next_audit_sequence = self.next_audit_sequence.wrapping_add(1);
        let event = AuditEvent {
            sequence,
            operation,
            plugin: plugin.duplicate(),
            reference_id,
            outcome,
            value_len,
        };
        let ghost before = self.audit@;
        self.audit.push(event);
        assert(events_view(self.audit@) =~= events_view(before).push(event@));
        if self.audit.len() > MAX_AUDIT_EVENTS {
            let ghost full = self.audit@;
            self.audit.remove(0);
            assert(events_view(self.audit@) =~= events_view(full).drop_first());
        }
    }

    fn record_error(
        &mut self,
        operation: AuditOperation,
        plugin: &PluginId,
        reference_id: u64,
        error: SecretError,
    )
        requires
            old(self)@.wf(),
        ensures
            final(self)@.wf(),
            final(self).spec_store() == old(self).spec_store(),
            final(self)@ == old(self)@.recorded(
                operation,
                plugin@,
                reference_id,
                outcome_of(error),
                None,
            ),
    {
        let outcome = match error {
            SecretError::Missing => AuditOutcome::Missing,
            SecretError::Denied => AuditOutcome::Denied,
            SecretError::AlreadyResolved => AuditOutcome::AlreadyResolved,
            SecretError::InvalidReference => AuditOutcome::InvalidReference,
            _ => AuditOutcome::StoreError,
        };
        self.record(operation, plugin, reference_id, outcome, None);
    }

    /// Consumes a reference for an operation; a refusal is recorded.
    pub fn begin(
        &mut self,
        operation: AuditOperation,
        secret_ref: SecretRef,
        requester: &PluginId,
    ) -> (r: Result<SecretKey, SecretError>)
        requires
            old(self)@.wf(),
        ensures
            final(self)@.wf(),
            final(self).spec_store() == old(self).spec_store(),
            match old(self)@.taken(secret_ref, requester@) {
                (state, Ok(grant)) => r is Ok && r->Ok_0@ == grant.key && final(self)@ == state,
                (state, Err(error)) => r is Err && r->Err_0 == error && final(self)@
                    == state.recorded(
                    operation,
                    requester@,
                    secret_ref.id(),
                    outcome_of(error),
                    None,
                ),
            },
    {
        match self.take_grant(&secret_ref, requester) {
            Ok(key) => Ok(key),
            Err(error) => {
                self.record_error(operation, requester, secret_ref.reference_id(), error);
                Err(error)
            },
        }
    }

    /// What a store's answer is reported as; a failure is recorded.
    pub fn store_answered(
        &mut self,
        operation: AuditOperation,
        requester: &PluginId,
        reference_id: u64,
        answer: Result<SecretValue, SecretStoreError>,
    ) -> (r: Result<SecretValue, SecretError>)
        requires
            old(self)@.wf(),
        ensures
            final(self)@.wf(),
            final(self).spec_store() == old(self).spec_store(),
            match answer {
                Ok(value) => r is Ok && r->Ok_0@ == value@ && final(self)@ == old(self)@,
                Err(error) => r is Err && r->Err_0 == mapped_store_error(error) && final(self)@
                    == old(self)@.recorded(
                    operation,
                    requester@,
                    reference_id,
                    outcome_of(mapped_store_error(error)),
                    None,
                ),
            },
    {
        match answer {
            Ok(value) => Ok(value),
            Err(error) => {
                let mapped = map_store_error(error);
                self.record_error(operation, requester, reference_id, mapped);
                Err(mapped)
            },
        }
    }

    /// Records that a value of this length was handed out.
    pub fn succeeded(
        &mut self,
        operation: AuditOperation,
        requester: &PluginId,
        reference_id: u64,
        value_len: usize,
    )
        requires
            old(self)@.wf(),
        ensures
            final(self)@.wf(),
            final(self).spec_store() == old(self).spec_store(),
            final(self)@ == old(self)@.recorded(
                operation,
                requester@,
                reference_id,
                AuditOutcome::Success,
                Some(value_len),
            ),
    {
        self.record(operation, requester, reference_id, AuditOutcome::Success, Some(value_len));
    }

    /// Records that a callback did not return; nothing is said of the value.
    pub fn callback_panicked(&mut self, requester: &PluginId, reference_id: u64)
        requires
            old(self)@.wf(),
        ensures
            final(self)@.wf(),
            final(self).spec_store() == old(self).spec_store(),
            final(self)@ == old(self)@.recorded(
                AuditOperation::Inject,
                requester@,
                reference_id,
                AuditOutcome::CallbackPanicked,
                None,
            ),
    {
        self.record(
            AuditOperation::Inject,
            requester,
            reference_id,
            AuditOutcome::CallbackPanicked,
            None,
        );
    }

    /// Asks the store for the key behind a reference, consuming the reference.
    fn fetch(
        &mut self,
        operation: AuditOperation,
        secret_ref: SecretRef,
        requester: &PluginId,
    ) -> (r: Result<SecretValue, SecretError>)
        requires
            old(self)@.wf(),
        ensures
            final(self)@.wf(),
            final(self).spec_store() == old(self).spec_store(),
            match old(self)@.taken(secret_ref, requester@) {
                (state, Ok(grant)) => exists|answer: Result<SecretValue, SecretStoreError>|
                    {
                        &&& #[trigger] old(self).spec_store().gives(grant.key, answer)
                        &&& match answer {
                            Ok(value) => r is Ok && r->Ok_0@ == value@ && final(self)@ == state,
                            Err(error) => r is Err && r->Err_0 == mapped_store_error(error)
                                && final(self)@ == state.recorded(
                                operation,
                                requester@,
                                secret_ref.id(),
                                outcome_of(mapped_store_error(error)),
                                None,
                            ),
                        }
                    },
                (state, Err(error)) => r is Err && r->Err_0 == error && final(self)@
                    == state.recorded(
                    operation,
                    requester@,
                    secret_ref.id(),
                    outcome_of(error),
                    None,
                ),
            },
    {
        let key = match self.begin(operation, secret_ref, requester) {
            Ok(key) => key,
            Err(error) => return Err(error),
        };
        let answer = self.store.get(&key);
        assert(old(self).spec_store().gives(key@, answer));
        self.store_answered(operation, requester, secret_ref.reference_id(), answer)
    }

    /// Resolves and consumes a reference, returning a value that shows nothing of its bytes.
    pub fn resolve_once(&mut self, secret_ref: SecretRef, requester: &PluginId) -> (r: Result<
        SecretValue,
        SecretError,
    >)
        requires
            old(self)@.wf(),
        ensures
            final(self)@.wf(),
            final(self).spec_store() == old(self).spec_store(),
            exists|attempt: UseView|
                attempt.wf() && attempt.is(AuditOperation::Resolve, secret_ref, requester@)
                    && final(self)@ == #[trigger] old(self)@.used(attempt),
            match old(self)@.taken(secret_ref, requester@) {
                (state, Ok(grant)) => exists|answer: Result<SecretValue, SecretStoreError>|
                    {
                        &&& #[trigger] old(self).spec_store().gives(grant.key, answer)
                        &&& match answer {
                            Ok(value) => r is Ok && r->Ok_0@ == value@ && final(self)@
                                == state.recorded(
                                AuditOperation::Resolve,
                                requester@,
                                secret_ref.id(),
                                AuditOutcome::Success,
                                Some(value@.len() as usize),
                            ),
                            Err(error) => r is Err && r->Err_0 == mapped_store_error(error)
                                && final(self)@ == state.recorded(
                                AuditOperation::Resolve,
                                requester@,
                                secret_ref.id(),
                                outcome_of(mapped_store_error(error)),
                                None,
                            ),
                        }
                    },
                (state, Err(error)) => r is Err && r->Err_0 == error && final(self)@
                    == state.recorded(
                    AuditOperation::Resolve,
                    requester@,
                    secret_ref.id(),
                    outcome_of(error),
                    None,
                ),
            },
    {
        let operation = AuditOperation::Resolve;
        let ghost attempt = UseView {
            operation,
            reference: secret_ref,
            requester: requester@,
            outcome: AuditOutcome::StoreError,
            value_len: None,
        };
        match self.fetch(operation, secret_ref, requester) {
            Ok(value) => {
                self.succeeded(operation, requester, secret_ref.reference_id(), value.len());
                assert(self@ == old(self)@.used(
                    UseView {
                        outcome: AuditOutcome::Success,
                        value_len: Some(value@.len() as usize),
                        ..attempt
                    },
                ));
                Ok(value)
            },
            Err(error) => {
                assert(self@ == old(self)@.used(
                    UseView { outcome: outcome_of(error), ..attempt },
                ));
                Err(error)
            },
        }
    }

    /// The reference is the requester's to use, and these are bytes that the store gives for it.
    pub open spec fn lends(self, reference: SecretRef, requester: Seq<char>, bytes: Seq<u8>) -> bool {
        self@.taken(reference, requester).1 matches Ok(grant) && exists|value: SecretValue|
            #[trigger] self.spec_store().gives(grant.key, Ok(value)) && value@ == bytes
    }

    /// Resolves and consumes a reference while exposing bytes only inside `callback`. All that is
    /// asked of the callback is that it can be lent what the store gives for the reference: it
    /// runs on nothing else, and not at all where the reference is refused.
    pub fn with_secret<T, F: FnOnce(&[u8]) -> T>(
        &mut self,
        secret_ref: SecretRef,
        requester: &PluginId,
        callback: F,
    ) -> (r: Result<T, SecretError>)
        requires
            old(self)@.wf(),
            forall|bytes: &[u8]|
                old(self).lends(secret_ref, requester@, bytes@) ==> #[trigger] call_requires(
                    callback,
                    (bytes,),
                ),
        ensures
            final(self)@.wf(),
            final(self).spec_store() == old(self).spec_store(),
            exists|attempt: UseView|
                attempt.wf() && attempt.is(AuditOperation::Inject, secret_ref, requester@)
                    && final(self)@ == #[trigger] old(self)@.used(attempt),
            match old(self)@.taken(secret_ref, requester@) {
                (state, Ok(grant)) => exists|answer: Result<SecretValue, SecretStoreError>|
                    {
                        &&& #[trigger] old(self).spec_store().gives(grant.key, answer)
                        &&& match answer {
                            Ok(value) => r is Ok && returned_from(callback, value@, r->Ok_0)
                                && final(self)@ == state.recorded(
                                AuditOperation::Inject,
                                requester@,
                                secret_ref.id(),
                                AuditOutcome::Success,
                                Some(value@.len() as usize),
                            ),
                            Err(error) => r is Err && r->Err_0 == mapped_store_error(error)
                                && final(self)@ == state.recorded(
                                AuditOperation::Inject,
                                requester@,
                                secret_ref.id(),
                                outcome_of(mapped_store_error(error)),
                                None,
                            ),
                        }
                    },
                (state, Err(error)) => r is Err && r->Err_0 == error && final(self)@
                    == state.recorded(
                    AuditOperation::Inject,
                    requester@,
                    secret_ref.id(),
                    outcome_of(error),
                    None,
                ),
            },
    {
        let operation = AuditOperation::Inject;
        let ghost attempt = UseView {
            operation,
            reference: secret_ref,
            requester: requester@,
            outcome: AuditOutcome::StoreError,
            value_len: None,
        };
        match self.fetch(operation, secret_ref, requester) {
            Ok(value) => {
                let result = value.with_bytes(callback);
                self.succeeded(operation, requester, secret_ref.reference_id(), value.len());
                assert(self@ == old(self)@.used(
                    UseView {
                        outcome: AuditOutcome::Success,
                        value_len: Some(value@.len() as usize),
                        ..attempt
                    },
                ));
                Ok(result)
            },
            Err(error) => {
                assert(self@ == old(self)@.used(
                    UseView { outcome: outcome_of(error), ..attempt },
                ));
                Err(error)
            },
        }
    }

    /// The retained audit records, oldest first.
    pub fn audit_snapshot(&self) -> (r: Result<Vec<AuditEvent>, SecretError>)
        ensures
            r is Ok,
            events_view(r->Ok_0@) == self@.audit,
    {
        let mut events: Vec<AuditEvent> = Vec::new();
        let mut i: usize = 0;
        assert(events_view(events@) =~= self@.audit.take(0));
        while i < self.audit.len()
            invariant
                i <= self.audit@.len(),
                events_view(events@) == self@.audit.take(i as int),
            decreases self.audit@.len() - i,
        {
            let ghost before = events@;
            let event = self.audit[i].duplicate();
            events.push(event);
            proof {
                assert(events_view(events@) =~= events_view(before).push(event@));
                assert(self@.audit.take(i + 1) =~= self@.audit.take(i as int).push(
                    self.audit@[i as int]@,
                ));
            }
            i += 1;
        }
        assert(self@.audit.take(i as int) =~= self@.audit);
        Ok(events)
    }

    /// Inserts or replaces a host-owned value in the configured backing store.
    pub fn put(&mut self, key: &SecretKey, value: &[u8]) -> (r: Result<(), SecretError>)
        ensures
            final(self)@ == old(self)@,
            if value@.len() > MAX_SECRET_VALUE_BYTES {
                &&& r == Err::<(), SecretError>(
                    SecretError::TooLarge {
                        item: BoundedItem::SecretValue,
                        max: MAX_SECRET_VALUE_BYTES,
                    },
                )
                &&& final(self).spec_store() == old(self).spec_store()
            } else {
                exists|answer: Result<(), SecretStoreError>|
                    {
                        &&& #[trigger] old(self).spec_store().puts(
                            key@,
                            value@,
                            answer,
                            &final(self).spec_store(),
                        )
                        &&& r == match answer {
                            Ok(_) => Ok::<(), SecretError>(()),
                            Err(error) => Err(mapped_store_error(error)),
                        }
                    }
            },
    {
        let secret = match SecretValue::new(value) {
            Ok(secret) => secret,
            Err(error) => return Err(error),
        };
        let answer = self.store.put(key, secret);
        assert(old(self).spec_store().puts(key@, value@, answer, &self.spec_store()));
        match answer {
            Ok(()) => Ok(()),
            Err(error) => Err(map_store_error(error)),
        }
    }

    /// Removes a host-owned value from the configured backing store.
    pub fn remove(&mut self, key: &SecretKey) -> (r: Result<bool, SecretError>)
        ensures
            final(self)@ == old(self)@,
            exists|answer: Result<bool, SecretStoreError>|
                {
                    &&& #[trigger] old(self).spec_store().removes(
                        key@,
                        answer,
                        &final(self).spec_store(),
                    )
                    &&& r == match answer {
                        Ok(removed) => Ok::<bool, SecretError>(removed),
                        Err(error) => Err(mapped_store_error(error)),
                    }
                },
    {
        let answer = self.store.remove(key);
        assert(old(self).spec_store().removes(key@, answer, &self.spec_store()));
        match answer {
            Ok(removed) => Ok(removed),
            Err(error) => Err(map_store_error(error)),
        }
    }
}

// ---------------------------------------------------------------------------
// What holds over several calls
// ---------------------------------------------------------------------------
/// Only the plugin that a reference was issued to can resolve it, and only while it is
/// enabled.
pub proof fn lemma_only_the_owner_resolves(
    state: BrokerView,
    reference: SecretRef,
    requester: Seq<char>,
)
    requires
        state.taken(reference, requester).1 is Ok,
    ensures
        reference.broker() == state.broker_id,
        state.grants.dom().contains(reference.id()),
        state.grants[reference.id()].plugin == requester,
        state.enabled(requester),
{
}

/// A requester that does not own a reference is refused and changes nothing: the owner can
/// still resolve it.
pub proof fn lemma_wrong_requester_consumes_nothing(
    state: BrokerView,
    reference: SecretRef,
    requester: Seq<char>,
)
    requires
        state.wf(),
        reference.broker() == state.broker_id,
        state.grants.dom().contains(reference.id()),
        state.grants[reference.id()].plugin != requester,
    ensures
        state.taken(reference, requester) == (
            state,
            Err::<GrantView, SecretError>(SecretError::Denied),
        ),
{
}

/// An issued reference resolves to the key it was issued for.
pub proof fn lemma_issued_reference_resolves(
    state: BrokerView,
    plugin: Seq<char>,
    key: Seq<char>,
    reference: SecretRef,
)
    requires
        state.wf(),
        state.issue_problem(plugin) is None,
        reference.broker() == state.broker_id,
        reference.id() == state.next_reference_id,
    ensures
        state.issued(plugin, key).taken(reference, plugin).1 == Ok::<GrantView, SecretError>(
            GrantView { plugin, key },
        ),
{
    assert(!state.consumed.contains(reference.id()));
}

/// The reference has been given out and is no longer outstanding.
pub open spec fn spent(state: BrokerView, id: u64) -> bool {
    &&& !state.grants.dom().contains(id)
    &&& state.next_reference_id != 0 ==> id < state.next_reference_id
}

/// Resolving a reference spends it, whether or not its plugin is still enabled.
pub proof fn lemma_resolving_spends(state: BrokerView, reference: SecretRef, requester: Seq<char>)
    requires
        state.wf(),
        state.taken(reference, requester).1 is Ok,
    ensures
        spent(state.taken(reference, requester).0, reference.id()),
{
    assert(state.grants.dom().contains(reference.id()));
}

/// A spent reference never resolves, whoever asks.
pub proof fn lemma_spent_reference_never_resolves(
    state: BrokerView,
    reference: SecretRef,
    requester: Seq<char>,
)
    requires
        spent(state, reference.id()),
    ensures
        state.taken(reference, requester).1 is Err,
        state.taken(reference, requester).0 == state,
{
}

/// A reference that was spent stays spent, whatever the broker does next.
pub proof fn lemma_spent_reference_stays_spent(state: BrokerView, id: u64)
    requires
        state.wf(),
        spent(state, id),
    ensures
        forall|plugin: Seq<char>, key: Seq<char>|
            state.issue_problem(plugin) is None ==> spent(
                #[trigger] state.issued(plugin, key),
                id,
            ),
        forall|plugin: Seq<char>, enabled: bool|
            spent(#[trigger] state.switched(plugin, enabled), id),
        forall|reference: SecretRef, requester: Seq<char>|
            spent((#[trigger] state.taken(reference, requester)).0, id),
        forall|
            operation: AuditOperation,
            plugin: Seq<char>,
            reference: u64,
            outcome: AuditOutcome,
            value_len: Option<usize>,
        |
            spent(
                #[trigger] state.recorded(operation, plugin, reference, outcome, value_len),
                id,
            ),
{
}

proof fn lemma_smallest_exists(ids: Set<u64>)
    requires
        ids.finite(),
        ids.len() > 0,
    ensures
        exists|id: u64| is_smallest(ids, id),
    decreases ids.len(),
{
    let some = ids.choose();
    let rest = ids.remove(some);
    if rest.len() == 0 {
        assert(rest =~= Set::<u64>::empty());
        assert forall|other: u64| #[trigger] ids.contains(other) implies some <= other by {
            if other != some {
                assert(rest.contains(other));
            }
        }
        assert(is_smallest(ids, some));
    } else {
        lemma_smallest_exists(rest);
        let least = choose|id: u64| is_smallest(rest, id);
        let id = if some < least {
            some
        } else {
            least
        };
        assert forall|other: u64| #[trigger] ids.contains(other) implies id <= other by {
            if other != some {
                assert(rest.contains(other));
            }
        }
        assert(is_smallest(ids, id));
    }
}

/// Right after a reference was resolved, the broker says so to whoever asks for it again. Only
/// a reference that is older than all of [`MAX_SECRET_REFS`] others that it knows to be consumed
/// is forgotten at once.
pub proof fn lemma_second_resolution_is_reported(
    state: BrokerView,
    reference: SecretRef,
    requester: Seq<char>,
    again: Seq<char>,
)
    requires
        state.wf(),
        state.taken(reference, requester).1 is Ok,
        state.consumed.len() < MAX_SECRET_REFS || exists|older: u64| #[trigger]
            state.consumed.contains(older) && older < reference.id(),
    ensures
        state.taken(reference, requester).0.taken(reference, again).1 == Err::<
            GrantView,
            SecretError,
        >(SecretError::AlreadyResolved),
{
    let id = reference.id();
    let all = state.consumed.insert(id);
    if all.len() > MAX_SECRET_REFS {
        lemma_smallest_exists(all);
        let smallest = choose|smallest: u64| is_smallest(all, smallest);
        let older = choose|older: u64| #[trigger] state.consumed.contains(older) && older < id;
        assert(all.contains(older));
    }
}

// ---------------------------------------------------------------------------
// The audit
// ---------------------------------------------------------------------------
/// What can be done with a broker.
pub enum BrokerStep {
    Use(UseView),
    Issue { plugin: Seq<char>, key: Seq<char> },
    Switch { plugin: Seq<char>, enabled: bool },
}

/// The state after several steps.
pub open spec fn after_steps(state: BrokerView, steps: Seq<BrokerStep>) -> BrokerView
    decreases steps.len(),
{
    if steps.len() == 0 {
        state
    } else {
        let before = after_steps(state, steps.drop_last());
        match steps.last() {
            BrokerStep::Use(attempt) => before.used(attempt),
            BrokerStep::Issue { plugin, key } => if before.issue_problem(plugin) is None {
                before.issued(plugin, key)
            } else {
                before
            },
            BrokerStep::Switch { plugin, enabled } => before.switched(plugin, enabled),
        }
    }
}

/// How many of the steps use a reference.
pub open spec fn use_count(steps: Seq<BrokerStep>) -> nat
    decreases steps.len(),
{
    if steps.len() == 0 {
        0
    } else if steps.last() is Use {
        use_count(steps.drop_last()) + 1
    } else {
        use_count(steps.drop_last())
    }
}

/// The records of the newest of `n` uses, as many as are kept: numbered without a gap up to `n`,
/// with a length exactly where a value was handed out.
pub open spec fn is_audit_of(audit: Seq<AuditEventView>, n: nat) -> bool {
    &&& audit.len() == if n < MAX_AUDIT_EVENTS {
        n
    } else {
        MAX_AUDIT_EVENTS as nat
    }
    &&& forall|k: int|
        0 <= k < audit.len() ==> (#[trigger] audit[k]).sequence == n - audit.len() + k + 1
    &&& forall|k: int|
        0 <= k < audit.len() ==> ((#[trigger] audit[k]).value_len is Some <==> audit[k].outcome
            is Success)
}

/// Every use of a reference is recorded, whatever came of it, and nothing else is; of many uses
/// the newest are kept.
pub proof fn lemma_audit_keeps_the_newest_uses(state: BrokerView, steps: Seq<BrokerStep>)
    requires
        state.audit.len() == 0,
        state.next_sequence == 1,
        use_count(steps) < u64::MAX,
        forall|k: int|
            0 <= k < steps.len() && (#[trigger] steps[k]) is Use ==> steps[k]->Use_0.wf(),
    ensures
        is_audit_of(after_steps(state, steps).audit, use_count(steps)),
        after_steps(state, steps).next_sequence == use_count(steps) + 1,
    decreases steps.len(),
{
    if steps.len() > 0 {
        let earlier = steps.drop_last();
        assert forall|k: int| 0 <= k < earlier.len() && (#[trigger] earlier[k]) is Use implies
            earlier[k]->Use_0.wf() by {
            assert(steps[k] is Use);
        }
        lemma_audit_keeps_the_newest_uses(state, earlier);
        assert(steps[steps.len() - 1] == steps.last());
    }
}

/// Disabling a plugin spends everything it holds: its references resolve no more, not even
/// once it is enabled again.
pub proof fn lemma_disabling_revokes(
    state: BrokerView,
    plugin: Seq<char>,
    reference: SecretRef,
    requester: Seq<char>,
)
    requires
        state.wf(),
        state.grants.dom().contains(reference.id()),
        state.grants[reference.id()].plugin == plugin,
    ensures
        state.switched(plugin, false).taken(reference, requester).1 == Err::<
            GrantView,
            SecretError,
        >(SecretError::InvalidReference),
        state.switched(plugin, false).switched(plugin, true).taken(reference, requester).1
            == Err::<GrantView, SecretError>(SecretError::InvalidReference),
        state.switched(plugin, false).issue_problem(plugin) == Some(SecretError::Denied),
{
    assert(!state.consumed.contains(reference.id()));
}

/// Disabling a plugin leaves the references of every other plugin alone.
pub proof fn lemma_disabling_is_scoped(
    state: BrokerView,
    plugin: Seq<char>,
    reference: SecretRef,
    requester: Seq<char>,
)
    requires
        requester != plugin,
    ensures
        state.switched(plugin, false).taken(reference, requester).1 is Ok <==> state.taken(
            reference,
            requester,
        ).1 is Ok,
        state.taken(reference, requester).1 is Ok ==> state.switched(plugin, false).taken(
            reference,
            requester,
        ).1 == state.taken(reference, requester).1,
{
}

} // verus!
