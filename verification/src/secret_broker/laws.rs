//! What references, keys, stores and records come to.
use vstd::prelude::*;
use vstd::utf8::encode_utf8;

use crate::secret_broker::audit::{
    escape_json, escaped, escaped_char, AuditEvent, AuditOperation, AuditOutcome,
};
use crate::secret_broker::broker::{
    events_view, outcome_of, BrokerView, GrantView, SecretBroker,
};
use crate::secret_broker::error::{map_store_error, SecretError, SecretStoreError};
use crate::secret_broker::model::{PluginId, SecretKey, SecretRef, SecretValue};
use crate::secret_broker::snapshot::{stored_content, FileSecretStore};
use crate::secret_broker::store::{
    total_bytes, EnvironmentSecretStore, EnvironmentValue, MemorySecretStore,
};
use crate::secret_broker::{
    MAX_AUDIT_EVENTS, MAX_PLUGIN_ID_BYTES, MAX_SECRET_KEY_BYTES, MAX_SECRET_REFS,
    MAX_SECRET_STORE_BYTES, MAX_SECRET_STORE_ENTRIES, MAX_SECRET_VALUE_BYTES,
};
use crate::text::{has_control, is_control, utf8_len};

verus! {

/// A plugin is on until it is switched off, and then as it was switched last; switching one
/// plugin switches no other.
pub proof fn lemma_last_switch_counts(
    state: BrokerView,
    plugin: Seq<char>,
    enabled: bool,
    other: Seq<char>,
)
    ensures
        !state.switches.dom().contains(plugin) ==> state.enabled(plugin),
        state.switched(plugin, enabled).enabled(plugin) == enabled,
        other != plugin ==> state.switched(plugin, enabled).enabled(other) == state.enabled(other),
        enabled ==> state.switched(plugin, enabled).grants == state.grants,
        state.switched(plugin, enabled).consumed == state.consumed,
        state.switched(plugin, enabled).audit == state.audit,
{
}

/// A plugin that is on is given a reference as long as there is room and there are numbers left.
/// The reference is a new one, and every other stays what it is.
pub proof fn lemma_issued_references_are_new(
    state: BrokerView,
    plugin: Seq<char>,
    key: Seq<char>,
    other: u64,
)
    requires
        state.wf(),
    ensures
        state.issue_problem(plugin) is None <==> state.enabled(plugin) && state.grants.dom().len()
            < MAX_SECRET_REFS && state.next_reference_id != 0,
        !state.enabled(plugin) ==> state.issue_problem(plugin) == Some(SecretError::Denied),
        state.issue_problem(plugin) is None ==> {
            let after = state.issued(plugin, key);
            &&& !state.grants.dom().contains(state.next_reference_id)
            &&& !state.consumed.contains(state.next_reference_id)
            &&& after.grants.dom().contains(state.next_reference_id)
            &&& after.grants[state.next_reference_id].plugin == plugin
            &&& after.grants[state.next_reference_id].key == key
            &&& after.next_reference_id != state.next_reference_id
            &&& state.grants.dom().contains(other) ==> after.grants.dom().contains(other)
                && after.grants[other] == state.grants[other]
            &&& after.consumed == state.consumed && after.switches == state.switches
                && after.audit == state.audit
        },
{
}

/// The owner of an outstanding reference gets the key that it stands for as long as it is on, and
/// no other reference is touched.
pub proof fn lemma_owners_get_their_key(
    state: BrokerView,
    reference: SecretRef,
    requester: Seq<char>,
    other: u64,
)
    requires
        state.wf(),
        reference.broker() == state.broker_id,
        state.grants.dom().contains(reference.id()),
        state.grants[reference.id()].plugin == requester,
    ensures
        state.enabled(requester) ==> (state.taken(reference, requester).1 matches Ok(grant)
            && grant.key == state.grants[reference.id()].key),
        !state.enabled(requester) ==> state.taken(reference, requester).1 == Err::<
            GrantView,
            SecretError,
        >(SecretError::Denied),
        other != reference.id() && state.grants.dom().contains(other) ==> state.taken(
            reference,
            requester,
        ).0.grants.dom().contains(other) && state.taken(reference, requester).0.grants[other]
            == state.grants[other],
        state.taken(reference, requester).0.audit == state.audit,
{
}

/// A reference of another broker, or one that was never given out, stands for nothing.
pub proof fn lemma_foreign_references_stand_for_nothing(
    state: BrokerView,
    reference: SecretRef,
    requester: Seq<char>,
)
    requires
        reference.broker() != state.broker_id || !state.grants.dom().contains(reference.id()),
    ensures
        state.taken(reference, requester).1 is Err,
        state.taken(reference, requester).0 == state,
        reference.broker() != state.broker_id ==> state.taken(reference, requester).1 == Err::<
            GrantView,
            SecretError,
        >(SecretError::InvalidReference),
{
}

/// Every use is recorded last, as what it was; the records before it stay, but for the oldest
/// where there is no more room.
pub proof fn lemma_uses_are_recorded(
    state: BrokerView,
    operation: AuditOperation,
    plugin: Seq<char>,
    reference_id: u64,
    outcome: AuditOutcome,
    value_len: Option<usize>,
)
    requires
        state.wf(),
    ensures
        ({
            let after = state.recorded(operation, plugin, reference_id, outcome, value_len);
            &&& after.audit.len() > 0
            &&& after.audit.last().operation == operation
            &&& after.audit.last().plugin == plugin
            &&& after.audit.last().reference_id == reference_id
            &&& after.audit.last().outcome == outcome
            &&& after.audit.last().value_len == value_len
            &&& after.audit.last().sequence == state.next_sequence
            &&& after.next_sequence != state.next_sequence
            &&& state.audit.len() < MAX_AUDIT_EVENTS ==> after.audit.drop_last() == state.audit
            &&& state.audit.len() == MAX_AUDIT_EVENTS ==> after.audit.drop_last()
                == state.audit.drop_first()
            &&& after.grants == state.grants && after.consumed == state.consumed && after.switches
                == state.switches
        }),
{
    let after = state.recorded(operation, plugin, reference_id, outcome, value_len);
    if state.audit.len() < MAX_AUDIT_EVENTS {
        assert(after.audit.drop_last() =~= state.audit);
    } else {
        assert(after.audit.drop_last() =~= state.audit.drop_first());
    }
}

/// Different refusals are recorded differently, and none of them as a success.
pub proof fn lemma_refusals_are_told_apart(error: SecretError)
    ensures
        outcome_of(error) !is Success,
        error is Missing <==> outcome_of(error) is Missing,
        error is Denied <==> outcome_of(error) is Denied,
        error is AlreadyResolved <==> outcome_of(error) is AlreadyResolved,
        error is InvalidReference <==> outcome_of(error) is InvalidReference,
{
}

/// A text is a plugin's name, or a key, as it stands if and only if there is something of it, it
/// is not too long and it holds no control character.
pub proof fn lemma_good_names_are_accepted(
    value: &str,
    plugin: Result<PluginId, SecretError>,
    key: Result<SecretKey, SecretError>,
)
    requires
        call_ensures(PluginId::new, (value,), plugin),
        call_ensures(SecretKey::new, (value,), key),
    ensures
        plugin is Ok <==> 0 < value@.len() && utf8_len(value@) <= MAX_PLUGIN_ID_BYTES
            && !has_control(value@),
        key is Ok <==> 0 < value@.len() && utf8_len(value@) <= MAX_SECRET_KEY_BYTES && !has_control(
            value@,
        ),
        plugin matches Ok(id) ==> id@ == value@,
        key matches Ok(name) ==> name@ == value@,
        value@.len() == 0 ==> plugin is Err && plugin->Err_0 is EmptyInput,
{
}

/// What a store's failure is reported as tells what failed.
pub proof fn lemma_failures_are_told_apart(error: SecretStoreError, r: SecretError)
    requires
        call_ensures(map_store_error, (error,), r),
    ensures
        r is Missing <==> error is Missing,
        r is TooLarge <==> error is TooLarge,
        error !is Missing && error !is TooLarge ==> r == SecretError::Store(error),
        r !is Denied && r !is AlreadyResolved && r !is InvalidReference,
{
}

/// A file that a value was put into gives that value back under its key, and under every other
/// key what the file gave before.
pub proof fn lemma_what_is_put_is_got(
    store: FileSecretStore,
    file: Option<Vec<u8>>,
    key: SecretKey,
    value: &[u8],
    next: Vec<u8>,
    other: SecretKey,
    before: Result<SecretValue, SecretStoreError>,
    after: Result<SecretValue, SecretStoreError>,
)
    requires
        call_ensures(
            FileSecretStore::put,
            (&store, &file, &key, value),
            Ok::<Vec<u8>, SecretError>(next),
        ),
        call_ensures(FileSecretStore::get, (&store, &file, &other), before),
        call_ensures(FileSecretStore::get, (&store, &Some(next), &other), after),
    ensures
        other@ == key@ ==> after is Ok && after->Ok_0@ == value@,
        other@ != key@ ==> (after is Ok <==> before is Ok),
        other@ != key@ && before is Ok ==> after->Ok_0@ == before->Ok_0@,
        other@ != key@ && before is Err ==> after->Err_0 == before->Err_0,
        value@.len() <= MAX_SECRET_VALUE_BYTES,
{
    let content = stored_content(store.key(), Some(next));
    assert(content is Some);
}

/// A file that a key was removed from gives nothing back under it, and under every other key
/// what the file gave before.
pub proof fn lemma_what_is_removed_is_gone(
    store: FileSecretStore,
    file: Option<Vec<u8>>,
    key: SecretKey,
    r: Option<Vec<u8>>,
    other: SecretKey,
    before: Result<SecretValue, SecretStoreError>,
    after: Result<SecretValue, SecretStoreError>,
)
    requires
        call_ensures(
            FileSecretStore::remove,
            (&store, &file, &key),
            Ok::<Option<Vec<u8>>, SecretError>(r),
        ),
        call_ensures(FileSecretStore::get, (&store, &file, &other), before),
        r is Some ==> call_ensures(FileSecretStore::get, (&store, &r, &other), after),
    ensures
        r is None && other@ == key@ ==> before == Err::<SecretValue, SecretStoreError>(
            SecretStoreError::Missing,
        ),
        r is Some && other@ == key@ ==> before is Ok && after == Err::<
            SecretValue,
            SecretStoreError,
        >(SecretStoreError::Missing),
        r is Some && other@ != key@ ==> (after is Ok <==> before is Ok),
        r is Some && other@ != key@ && before is Ok ==> after->Ok_0@ == before->Ok_0@,
{
    if r is Some {
        assert(stored_content(store.key(), r) is Some);
    }
}

/// A file that is not there holds nothing.
pub proof fn lemma_missing_files_hold_nothing(
    store: FileSecretStore,
    key: SecretKey,
    r: Result<SecretValue, SecretStoreError>,
)
    requires
        call_ensures(FileSecretStore::get, (&store, &None, &key), r),
    ensures
        r == Err::<SecretValue, SecretStoreError>(SecretStoreError::Missing),
{
    assert(stored_content(store.key(), None) is Some);
}

/// The variable of a key is called by the prefix and the key, so different keys have different
/// variables, and its text is the value.
pub proof fn lemma_variables_are_read_as_they_stand(
    store: EnvironmentSecretStore,
    key: SecretKey,
    name: Result<String, SecretStoreError>,
    text: String,
    r: Result<SecretValue, SecretStoreError>,
    unset: Result<SecretValue, SecretStoreError>,
)
    requires
        call_ensures(EnvironmentSecretStore::environment_name, (&store, &key), name),
        call_ensures(EnvironmentSecretStore::get, (&store, &key, EnvironmentValue::Text(text)), r),
        call_ensures(EnvironmentSecretStore::get, (&store, &key, EnvironmentValue::Unset), unset),
    ensures
        name matches Ok(name) ==> store.spec_prefix().is_prefix_of(name@) && key@.is_suffix_of(
            name@,
        ) && name@.len() == store.spec_prefix().len() + key@.len(),
        name is Err ==> r is Err && unset is Err,
        name is Ok && utf8_len(text@) <= MAX_SECRET_VALUE_BYTES ==> r is Ok && r->Ok_0@
            == encode_utf8(text@),
        name is Ok ==> unset == Err::<SecretValue, SecretStoreError>(SecretStoreError::Missing),
{
    if let Ok(name) = name {
        assert(store.spec_prefix() =~= name@.subrange(0, store.spec_prefix().len() as int));
        assert(key@ =~= name@.subrange(name@.len() - key@.len(), name@.len() as int));
    }
}

/// A text is escaped character by character.
pub proof fn lemma_texts_are_escaped_one_by_one(a: Seq<char>, b: Seq<char>)
    ensures
        escaped(a + b) == escaped(a) + escaped(b),
    decreases b.len(),
{
    if b.len() == 0 {
        assert(a + b =~= a);
        assert(escaped(a) + escaped(b) =~= escaped(a));
    } else {
        assert((a + b).drop_last() =~= a + b.drop_last());
        assert((a + b).last() == b.last());
        lemma_texts_are_escaped_one_by_one(a, b.drop_last());
        assert(escaped(a) + escaped(b) =~= (escaped(a) + escaped(b.drop_last())) + escaped_char(
            b.last(),
        ));
    }
}

/// A text without quotes, backslashes and control characters is written as it stands.
pub proof fn lemma_plain_texts_are_not_escaped(value: &str, r: String)
    requires
        call_ensures(escape_json, (value,), r),
        forall|k: int|
            0 <= k < value@.len() ==> (#[trigger] value@[k]) != '"' && value@[k] != '\\'
                && !is_control(value@[k]),
    ensures
        r@ == value@,
{
    lemma_plain(value@);
}

proof fn lemma_plain(s: Seq<char>)
    requires
        forall|k: int|
            0 <= k < s.len() ==> (#[trigger] s[k]) != '"' && s[k] != '\\' && !is_control(s[k]),
    ensures
        escaped(s) == s,
    decreases s.len(),
{
    if s.len() > 0 {
        let front = s.drop_last();
        assert(s[s.len() - 1] == s.last());
        assert forall|k: int| 0 <= k < front.len() implies (#[trigger] front[k]) != '"' && front[k]
            != '\\' && !is_control(front[k]) by {
            assert(front[k] == s[k]);
        }
        lemma_plain(front);
        let c = s.last();
        assert(c != '\n' && c != '\r' && c != '\t');
        assert(front + seq![c] =~= s);
    } else {
        assert(escaped(s) =~= s);
    }
}

/// A quote, a backslash and a line break are written behind a backslash.
pub proof fn lemma_marks_are_escaped()
    ensures
        escaped_char('"') == seq!['\\', '"'],
        escaped_char('\\') == seq!['\\', '\\'],
        escaped_char('\n') == seq!['\\', 'n'],
        escaped_char('\r') == seq!['\\', 'r'],
        escaped_char('\t') == seq!['\\', 't'],
{
    reveal_strlit("\\\"");
    reveal_strlit("\\\\");
    reveal_strlit("\\n");
    reveal_strlit("\\r");
    reveal_strlit("\\t");
    assert(escaped_char('"') =~= seq!['\\', '"']);
    assert(escaped_char('\\') =~= seq!['\\', '\\']);
    assert(escaped_char('\n') =~= seq!['\\', 'n']);
    assert(escaped_char('\r') =~= seq!['\\', 'r']);
    assert(escaped_char('\t') =~= seq!['\\', 't']);
}

/// What is shown of a record is the same for whatever reference it speaks of.
pub proof fn lemma_records_hide_the_reference(
    one: AuditEvent,
    other: AuditEvent,
    a: String,
    b: String,
    shown: String,
    shown_too: String,
)
    requires
        call_ensures(AuditEvent::to_json, (&one,), a),
        call_ensures(AuditEvent::to_json, (&other,), b),
        call_ensures(AuditEvent::to_string, (&one,), shown),
        call_ensures(AuditEvent::to_string, (&other,), shown_too),
        one.sequence == other.sequence,
        one.operation == other.operation,
        one.plugin@ == other.plugin@,
        one.outcome == other.outcome,
        one.value_len == other.value_len,
    ensures
        a@ == b@,
        shown@ == shown_too@,
{
}

// ---------------------------------------------------------------------------
// What the operations of a broker do
// ---------------------------------------------------------------------------
/// Whoever is given a reference gets the value that the store has under its key, once: the second
/// time the reference is refused. Another plugin gets nothing, and takes nothing away.
pub proof fn lemma_references_are_resolved_once(
    broker: &mut SecretBroker<MemorySecretStore>,
    reference: SecretRef,
    requester: PluginId,
    r: Result<SecretValue, SecretError>,
)
    requires
        old(broker)@.wf(),
        call_ensures(
            SecretBroker::<MemorySecretStore>::resolve_once,
            (broker, reference, &requester),
            r,
        ),
    ensures
        ({
            let before = old(broker)@;
            let after = final(broker)@;
            let owned = reference.broker() == before.broker_id && before.grants.dom().contains(
                reference.id(),
            ) && before.grants[reference.id()].plugin == requester@;
            let key = before.grants[reference.id()].key;
            let secrets = old(broker).spec_store()@;
            &&& r is Ok <==> owned && before.enabled(requester@) && secrets.dom().contains(key)
            &&& r is Ok ==> r->Ok_0@ == secrets[key]
            &&& owned ==> !after.grants.dom().contains(reference.id())
            &&& !owned ==> after.grants == before.grants
            &&& final(broker).spec_store() == old(broker).spec_store()
            &&& after.audit.len() > 0 && after.audit.last().plugin == requester@
                && after.audit.last().reference_id == reference.id()
                && after.audit.last().operation is Resolve
            &&& after.audit.last().outcome is Success <==> r is Ok
        }),
{
    let before = old(broker)@;
    assert(!(before.grants.dom().contains(reference.id()) && before.consumed.contains(
        reference.id(),
    )));
}

/// A reference is given out for the plugin and the key that were asked for, and for nothing else;
/// where it is not, nothing changes.
pub proof fn lemma_references_are_given_out_as_asked(
    broker: &mut SecretBroker<MemorySecretStore>,
    plugin: PluginId,
    key: SecretKey,
    r: Result<SecretRef, SecretError>,
)
    requires
        old(broker)@.wf(),
        call_ensures(SecretBroker::<MemorySecretStore>::issue, (broker, &plugin, &key), r),
    ensures
        r is Ok <==> old(broker)@.enabled(plugin@) && old(broker)@.grants.dom().len()
            < MAX_SECRET_REFS && old(broker)@.next_reference_id != 0,
        r matches Ok(reference) ==> {
            &&& reference.broker() == old(broker)@.broker_id
            &&& !old(broker)@.grants.dom().contains(reference.id())
            &&& final(broker)@.grants.dom().contains(reference.id())
            &&& final(broker)@.grants[reference.id()].plugin == plugin@
            &&& final(broker)@.grants[reference.id()].key == key@
        },
        r is Err ==> final(broker)@ == old(broker)@,
        final(broker).spec_store() == old(broker).spec_store(),
{
}

/// Switching a plugin switches that plugin: off, it loses every reference, and every other plugin
/// keeps its own.
pub proof fn lemma_switching_takes_effect(
    broker: &mut SecretBroker<MemorySecretStore>,
    plugin: PluginId,
    enabled: bool,
    r: Result<(), SecretError>,
    id: u64,
)
    requires
        old(broker)@.wf(),
        call_ensures(
            SecretBroker::<MemorySecretStore>::set_plugin_enabled,
            (broker, &plugin, enabled),
            r,
        ),
    ensures
        r is Ok,
        final(broker)@.enabled(plugin@) == enabled,
        enabled ==> final(broker)@.grants == old(broker)@.grants,
        !enabled && old(broker)@.grants.dom().contains(id) ==> (final(broker)@.grants.dom().contains(
            id,
        ) <==> old(broker)@.grants[id].plugin != plugin@),
        final(broker)@.grants.dom().contains(id) ==> old(broker)@.grants.dom().contains(id)
            && final(broker)@.grants[id] == old(broker)@.grants[id],
        final(broker).spec_store() == old(broker).spec_store(),
{
}

/// What is put into the store of a broker is there, and what is removed is not; neither touches
/// any reference.
pub proof fn lemma_brokers_pass_values_on(
    broker: &mut SecretBroker<MemorySecretStore>,
    key: SecretKey,
    value: &[u8],
    put: Result<(), SecretError>,
    other: &mut SecretBroker<MemorySecretStore>,
    removed: Result<bool, SecretError>,
)
    requires
        call_ensures(SecretBroker::<MemorySecretStore>::put, (broker, &key, value), put),
        call_ensures(SecretBroker::<MemorySecretStore>::remove, (other, &key), removed),
    ensures
        final(broker)@ == old(broker)@ && final(other)@ == old(other)@,
        put is Ok ==> final(broker).spec_store()@ == old(broker).spec_store()@.insert(
            key@,
            value@,
        ),
        put is Err ==> final(broker).spec_store()@ == old(broker).spec_store()@,
        value@.len() > MAX_SECRET_VALUE_BYTES ==> put is Err,
        removed == Ok::<bool, SecretError>(old(other).spec_store()@.dom().contains(key@)),
        final(other).spec_store()@ == old(other).spec_store()@.remove(key@),
{
}

/// A store gives back under a key what was put under it last, and nothing once it is removed.
pub proof fn lemma_stores_hold_what_is_put_into_them(
    store: &mut MemorySecretStore,
    key: SecretKey,
    value: &[u8],
    put: Result<(), SecretError>,
    other: &mut MemorySecretStore,
    removed: Result<bool, SecretError>,
    name: Seq<char>,
)
    requires
        call_ensures(MemorySecretStore::insert, (store, &key, value), put),
        call_ensures(MemorySecretStore::remove, (other, &key), removed),
    ensures
        put is Ok ==> final(store)@.dom().contains(key@) && final(store)@[key@] == value@,
        put is Err ==> final(store)@ == old(store)@,
        name != key@ ==> (final(store)@.dom().contains(name) <==> old(store)@.dom().contains(
            name,
        )),
        name != key@ && old(store)@.dom().contains(name) ==> final(store)@[name] == old(store)@[name],
        value@.len() <= MAX_SECRET_VALUE_BYTES && old(store)@.dom().len()
            < MAX_SECRET_STORE_ENTRIES && total_bytes(old(store)@.remove(key@)) + value@.len()
            <= MAX_SECRET_STORE_BYTES ==> put is Ok,
        !final(other)@.dom().contains(key@),
        removed == Ok::<bool, SecretError>(old(other)@.dom().contains(key@)),
        name != key@ && old(other)@.dom().contains(name) ==> final(other)@.dom().contains(name)
            && final(other)@[name] == old(other)@[name],
{
}

/// Whoever reads the records of a broker gets all that it keeps, in order and as they are.
pub proof fn lemma_records_are_shown_as_they_are(
    broker: SecretBroker<MemorySecretStore>,
    r: Result<Vec<AuditEvent>, SecretError>,
    k: int,
)
    requires
        call_ensures(SecretBroker::<MemorySecretStore>::audit_snapshot, (&broker,), r),
    ensures
        r is Ok,
        r->Ok_0@.len() == broker@.audit.len(),
        0 <= k < r->Ok_0@.len() ==> r->Ok_0@[k]@ == broker@.audit[k],
{
    let shown = events_view(r->Ok_0@);
    assert(shown.len() == r->Ok_0@.len());
    if 0 <= k < r->Ok_0@.len() {
        assert(shown[k] == r->Ok_0@[k]@);
    }
}

} // verus!
