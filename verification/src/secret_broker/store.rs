//! Where secrets come from: the store interface, the bounded in-memory store and the
//! environment.
use vstd::prelude::*;
use vstd::string::StringExecFns;

use crate::secret_broker::error::{
    map_store_error, mapped_store_error, BoundedItem, InputField, SecretError, SecretStoreError,
};
use crate::secret_broker::model::{SecretKey, SecretValue};
use crate::secret_broker::{
    MAX_ENVIRONMENT_NAME_BYTES, MAX_SECRET_STORE_BYTES, MAX_SECRET_STORE_ENTRIES,
    MAX_SECRET_VALUE_BYTES,
};
use crate::text::{any_control, byte_len, has_control, to_bytes, utf8_len};
use crate::text_map::TextMap;
use vstd::utf8::encode_utf8;

verus! {

/// A backing store resolves a host-side key into a bounded secret value. What a store answers
/// is its own affair; each store says so in its three relations.
pub trait SecretStore: Sized {
    /// The store may give this answer for the key.
    spec fn gives(&self, key: Seq<char>, answer: Result<SecretValue, SecretStoreError>) -> bool;

    /// Storing the value may give this answer and leave the store as `after`.
    spec fn puts(
        &self,
        key: Seq<char>,
        value: Seq<u8>,
        answer: Result<(), SecretStoreError>,
        after: &Self,
    ) -> bool;

    /// Removing the key may give this answer and leave the store as `after`.
    spec fn removes(
        &self,
        key: Seq<char>,
        answer: Result<bool, SecretStoreError>,
        after: &Self,
    ) -> bool;

    fn get(&self, key: &SecretKey) -> (r: Result<SecretValue, SecretStoreError>)
        ensures
            self.gives(key@, r),
    ;

    fn put(&mut self, key: &SecretKey, value: SecretValue) -> (r: Result<(), SecretStoreError>)
        ensures
            old(self).puts(key@, value@, r, final(self)),
    ;

    fn remove(&mut self, key: &SecretKey) -> (r: Result<bool, SecretStoreError>)
        ensures
            old(self).removes(key@, r, final(self)),
    ;
}

// ---------------------------------------------------------------------------
// Bounds
// ---------------------------------------------------------------------------
/// Secret bytes under their keys.
pub type Secrets = Map<Seq<char>, Seq<u8>>;

/// How many bytes the values take together.
pub open spec fn total_bytes(secrets: Secrets) -> nat
    decreases secrets.dom().len(),
    when secrets.dom().finite()
{
    if secrets.dom().len() == 0 {
        0
    } else {
        let key = secrets.dom().choose();
        secrets[key].len() + total_bytes(secrets.remove(key))
    }
}

/// Each value counts once, whichever is counted first.
pub proof fn lemma_total_remove(secrets: Secrets, key: Seq<char>)
    requires
        secrets.dom().finite(),
        secrets.dom().contains(key),
    ensures
        total_bytes(secrets) == secrets[key].len() + total_bytes(secrets.remove(key)),
    decreases secrets.dom().len(),
{
    let first = secrets.dom().choose();
    assert(secrets.dom().contains(first));
    if first != key {
        lemma_total_remove(secrets.remove(first), key);
        lemma_total_remove(secrets.remove(key), first);
        assert(secrets.remove(first).remove(key) =~= secrets.remove(key).remove(first));
    }
}

/// A stored value counts once, in place of the one it replaces.
pub proof fn lemma_total_insert(secrets: Secrets, key: Seq<char>, value: Seq<u8>)
    requires
        secrets.dom().finite(),
    ensures
        total_bytes(secrets.insert(key, value)) == total_bytes(secrets.remove(key)) + value.len(),
{
    let next = secrets.insert(key, value);
    lemma_total_remove(next, key);
    assert(next.remove(key) =~= secrets.remove(key));
}

/// How many bytes the key's value takes.
pub open spec fn stored_len(secrets: Secrets, key: Seq<char>) -> nat {
    if secrets.dom().contains(key) {
        secrets[key].len()
    } else {
        0
    }
}

pub proof fn lemma_stored_len(secrets: Secrets, key: Seq<char>)
    requires
        secrets.dom().finite(),
    ensures
        total_bytes(secrets) == total_bytes(secrets.remove(key)) + stored_len(secrets, key),
{
    if secrets.dom().contains(key) {
        lemma_total_remove(secrets, key);
    } else {
        assert(secrets.remove(key) =~= secrets);
    }
}

/// Neither too many entries nor too many bytes.
pub open spec fn within_bounds(secrets: Secrets) -> bool {
    &&& secrets.dom().finite()
    &&& secrets.dom().len() <= MAX_SECRET_STORE_ENTRIES
    &&& total_bytes(secrets) <= MAX_SECRET_STORE_BYTES
}

/// Every key is one that [`SecretKey::new`] accepts.
pub open spec fn keys_accepted(secrets: Secrets) -> bool {
    forall|key: Seq<char>|
        #[trigger] secrets.dom().contains(key) ==> SecretKey::problem(key) is None
}

/// No value is longer than [`MAX_SECRET_VALUE_BYTES`].
pub open spec fn values_bounded(secrets: Secrets) -> bool {
    forall|key: Seq<char>| #[trigger]
        secrets.dom().contains(key) ==> secrets[key].len() <= MAX_SECRET_VALUE_BYTES
}

/// What keeps a value of this length from being stored.
pub open spec fn put_problem(secrets: Secrets, key: Seq<char>, length: nat) -> Option<
    SecretStoreError,
> {
    if !secrets.dom().contains(key) && secrets.dom().len() >= MAX_SECRET_STORE_ENTRIES {
        Some(
            SecretStoreError::TooLarge {
                item: BoundedItem::StoreEntries,
                max: MAX_SECRET_STORE_ENTRIES,
            },
        )
    } else if total_bytes(secrets.remove(key)) + length > MAX_SECRET_STORE_BYTES {
        Some(
            SecretStoreError::TooLarge {
                item: BoundedItem::StoreBytes,
                max: MAX_SECRET_STORE_BYTES,
            },
        )
    } else {
        None
    }
}

/// A value that meets no problem can be stored, and the bounds still hold.
pub proof fn lemma_put_keeps_bounds(secrets: Secrets, key: Seq<char>, value: Seq<u8>)
    requires
        within_bounds(secrets),
        put_problem(secrets, key, value.len()) is None,
    ensures
        within_bounds(secrets.insert(key, value)),
{
    lemma_total_insert(secrets, key, value);
    if secrets.dom().contains(key) {
        assert(secrets.insert(key, value).dom() =~= secrets.dom());
    } else {
        assert(secrets.insert(key, value).dom() =~= secrets.dom().insert(key));
    }
}

/// Removing a value keeps the bounds.
pub proof fn lemma_remove_keeps_bounds(secrets: Secrets, key: Seq<char>)
    requires
        within_bounds(secrets),
    ensures
        within_bounds(secrets.remove(key)),
{
    lemma_stored_len(secrets, key);
    assert(secrets.remove(key).dom() =~= secrets.dom().remove(key));
}

/// The bytes of each value.
pub open spec fn secret_bytes(values: Map<Seq<char>, SecretValue>) -> Secrets {
    values.map_values(|value: SecretValue| value@)
}

pub proof fn lemma_secret_bytes(values: Map<Seq<char>, SecretValue>, key: Seq<char>, value: SecretValue)
    ensures
        secret_bytes(values.insert(key, value)) == secret_bytes(values).insert(key, value@),
        secret_bytes(values.remove(key)) == secret_bytes(values).remove(key),
        secret_bytes(values).dom() == values.dom(),
{
    assert(secret_bytes(values.insert(key, value)) =~= secret_bytes(values).insert(key, value@));
    assert(secret_bytes(values.remove(key)) =~= secret_bytes(values).remove(key));
    assert(secret_bytes(values).dom() =~= values.dom());
}

// ---------------------------------------------------------------------------
// Memory
// ---------------------------------------------------------------------------
struct MemoryState {
    values: TextMap<SecretValue>,
    total_bytes: usize,
}

/// An in-memory store suitable for tests and explicitly local deployments.
pub struct MemorySecretStore {
    state: MemoryState,
}

impl View for MemorySecretStore {
    type V = Secrets;

    closed spec fn view(&self) -> Secrets {
        secret_bytes(self.state.values@)
    }
}

impl MemorySecretStore {
    /// The running total is the total, and the bounds hold.
    #[verifier::type_invariant]
    closed spec fn wf(self) -> bool {
        &&& within_bounds(self@)
        &&& keys_accepted(self@)
        &&& values_bounded(self@)
        &&& self.state.total_bytes == total_bytes(self@)
    }

    fn empty_state() -> (r: MemoryState)
        ensures
            secret_bytes(r.values@) == Map::<Seq<char>, Seq<u8>>::empty(),
            r.total_bytes == 0,
    {
        let r = MemoryState { values: TextMap::new(), total_bytes: 0 };
        assert(secret_bytes(r.values@) =~= Map::<Seq<char>, Seq<u8>>::empty());
        r
    }

    pub fn new() -> (r: Self)
        ensures
            r@ == Map::<Seq<char>, Seq<u8>>::empty(),
            within_bounds(r@),
    {
        MemorySecretStore { state: MemorySecretStore::empty_state() }
    }

    /// Stores a value, unless it or the store would become too large.
    pub fn insert(&mut self, key: &SecretKey, value: &[u8]) -> (r: Result<(), SecretError>)
        ensures
            within_bounds(final(self)@),
            if value@.len() > MAX_SECRET_VALUE_BYTES {
                &&& r == Err::<(), SecretError>(
                    SecretError::TooLarge {
                        item: BoundedItem::SecretValue,
                        max: MAX_SECRET_VALUE_BYTES,
                    },
                )
                &&& final(self)@ == old(self)@
            } else {
                match put_problem(old(self)@, key@, value@.len()) {
                    Some(error) => r == Err::<(), SecretError>(mapped_store_error(error))
                        && final(self)@ == old(self)@,
                    None => r is Ok && final(self)@ == old(self)@.insert(key@, value@),
                }
            },
    {
        let secret = match SecretValue::new(value) {
            Ok(secret) => secret,
            Err(error) => {
                proof {
                    use_type_invariant(&*self);
                }
                return Err(error);
            },
        };
        match self.put_value(key, secret) {
            Ok(()) => Ok(()),
            Err(error) => Err(map_store_error(error)),
        }
    }

    /// Removes a value and says whether there was one.
    pub fn remove(&mut self, key: &SecretKey) -> (r: Result<bool, SecretError>)
        ensures
            within_bounds(final(self)@),
            r == Ok::<bool, SecretError>(old(self)@.dom().contains(key@)),
            final(self)@ == old(self)@.remove(key@),
    {
        Ok(self.remove_value(key))
    }

    /// The values under their keys.
    pub(crate) closed spec fn values_map(self) -> Map<Seq<char>, SecretValue> {
        self.state.values@
    }

    /// The values in the order of their keys.
    pub(crate) fn values(&self) -> (r: &TextMap<SecretValue>)
        ensures
            r@ == self.values_map(),
            secret_bytes(r@) == self@,
            within_bounds(self@),
            keys_accepted(self@),
            values_bounded(self@),
    {
        proof {
            use_type_invariant(self);
        }
        &self.state.values
    }

    /// How many bytes the values take together.
    pub(crate) fn total(&self) -> (r: usize)
        ensures
            r == total_bytes(self@),
            within_bounds(self@),
    {
        proof {
            use_type_invariant(self);
        }
        self.state.total_bytes
    }

    pub(crate) fn put_value(&mut self, key: &SecretKey, value: SecretValue) -> (r: Result<
        (),
        SecretStoreError,
    >)
        ensures
            within_bounds(final(self)@),
            match put_problem(old(self)@, key@, value@.len()) {
                Some(error) => r == Err::<(), SecretStoreError>(error) && final(self)@ == old(
                    self,
                )@,
                None => r is Ok && final(self)@ == old(self)@.insert(key@, value@),
            },
    {
        proof {
            use_type_invariant(&*self);
            lemma_stored_len(self@, key@);
            lemma_secret_bytes(self.state.values@, key@, value);
        }
        let length: usize = value.len();
        let previous_len: usize = match self.state.values.get(key.as_str()) {
            Some(previous) => previous.len(),
            None => 0,
        };
        if !self.state.values.contains_key(key.as_str()) && self.state.values.len()
            >= MAX_SECRET_STORE_ENTRIES {
            return Err(
                SecretStoreError::TooLarge {
                    item: BoundedItem::StoreEntries,
                    max: MAX_SECRET_STORE_ENTRIES,
                },
            );
        }
        let new_total: usize = self.state.total_bytes - previous_len + length;
        if new_total > MAX_SECRET_STORE_BYTES {
            return Err(
                SecretStoreError::TooLarge {
                    item: BoundedItem::StoreBytes,
                    max: MAX_SECRET_STORE_BYTES,
                },
            );
        }
        let ghost before = self@;
        let mut state = MemorySecretStore::empty_state();
        std::mem::swap(&mut self.state, &mut state);
        state.values.insert(key.as_str().to_owned(), value);
        state.total_bytes = new_total;
        proof {
            lemma_total_insert(before, key@, value@);
            lemma_put_keeps_bounds(before, key@, value@);
        }
        self.state = state;
        Ok(())
    }

    pub(crate) fn remove_value(&mut self, key: &SecretKey) -> (r: bool)
        ensures
            within_bounds(final(self)@),
            r == old(self)@.dom().contains(key@),
            final(self)@ == old(self)@.remove(key@),
    {
        proof {
            use_type_invariant(&*self);
        }
        let ghost before = self@;
        let mut state = MemorySecretStore::empty_state();
        std::mem::swap(&mut self.state, &mut state);
        let ghost values = state.values@;
        let removed = state.values.remove(key.as_str());
        proof {
            if removed is Some {
                lemma_secret_bytes(values, key@, removed->0);
            } else {
                assert(values.remove(key@) =~= values);
                assert(before.remove(key@) =~= before);
            }
            lemma_stored_len(before, key@);
            lemma_remove_keeps_bounds(before, key@);
        }
        let found = match &removed {
            Some(value) => {
                state.total_bytes = state.total_bytes.saturating_sub(value.len());
                true
            },
            None => false,
        };
        self.state = state;
        found
    }
}

impl Default for MemorySecretStore {
    fn default() -> (r: Self)
        ensures
            r@ == Map::<Seq<char>, Seq<u8>>::empty(),
    {
        MemorySecretStore::new()
    }
}

/// What a store with these secrets answers for a key.
pub open spec fn answers_from(
    secrets: Secrets,
    key: Seq<char>,
    answer: Result<SecretValue, SecretStoreError>,
) -> bool {
    match answer {
        Ok(value) => secrets.dom().contains(key) && value@ == secrets[key],
        Err(error) => !secrets.dom().contains(key) && error == SecretStoreError::Missing,
    }
}

impl SecretStore for MemorySecretStore {
    open spec fn gives(&self, key: Seq<char>, answer: Result<SecretValue, SecretStoreError>) -> bool {
        answers_from(self@, key, answer)
    }

    open spec fn puts(
        &self,
        key: Seq<char>,
        value: Seq<u8>,
        answer: Result<(), SecretStoreError>,
        after: &Self,
    ) -> bool {
        match put_problem(self@, key, value.len()) {
            Some(error) => answer == Err::<(), SecretStoreError>(error) && after@ == self@,
            None => answer is Ok && after@ == self@.insert(key, value),
        }
    }

    open spec fn removes(
        &self,
        key: Seq<char>,
        answer: Result<bool, SecretStoreError>,
        after: &Self,
    ) -> bool {
        &&& answer == Ok::<bool, SecretStoreError>(self@.dom().contains(key))
        &&& after@ == self@.remove(key)
    }

    fn get(&self, key: &SecretKey) -> (r: Result<SecretValue, SecretStoreError>) {
        match self.state.values.get(key.as_str()) {
            Some(value) => Ok(value.clone_value()),
            None => Err(SecretStoreError::Missing),
        }
    }

    fn put(&mut self, key: &SecretKey, value: SecretValue) -> (r: Result<(), SecretStoreError>) {
        self.put_value(key, value)
    }

    fn remove(&mut self, key: &SecretKey) -> (r: Result<bool, SecretStoreError>) {
        Ok(self.remove_value(key))
    }
}

// ---------------------------------------------------------------------------
// Environment
// ---------------------------------------------------------------------------
/// What the host process environment holds under a name.
pub enum EnvironmentValue {
    Unset,
    NotUnicode,
    Text(String),
}

/// A store that reads values from the host process environment.
pub struct EnvironmentSecretStore {
    prefix: String,
}

impl EnvironmentSecretStore {
    pub closed spec fn spec_prefix(self) -> Seq<char> {
        self.prefix@
    }

    pub fn new(prefix: &str) -> (r: Result<Self, SecretError>)
        ensures
            match r {
                Ok(store) => utf8_len(prefix@) <= MAX_ENVIRONMENT_NAME_BYTES && !has_control(
                    prefix@,
                ) && store.spec_prefix() == prefix@,
                Err(error) => if utf8_len(prefix@) > MAX_ENVIRONMENT_NAME_BYTES {
                    error == (SecretError::TooLarge {
                        item: BoundedItem::EnvironmentName,
                        max: MAX_ENVIRONMENT_NAME_BYTES,
                    })
                } else {
                    has_control(prefix@) && error == (SecretError::InvalidInput {
                        field: InputField::EnvironmentName,
                    })
                },
            },
    {
        if byte_len(prefix) > MAX_ENVIRONMENT_NAME_BYTES {
            return Err(
                SecretError::TooLarge {
                    item: BoundedItem::EnvironmentName,
                    max: MAX_ENVIRONMENT_NAME_BYTES,
                },
            );
        }
        if any_control(prefix) {
            return Err(SecretError::InvalidInput { field: InputField::EnvironmentName });
        }
        Ok(EnvironmentSecretStore { prefix: prefix.to_owned() })
    }

    pub fn prefix(&self) -> (r: &str)
        ensures
            r@ == self.spec_prefix(),
    {
        self.prefix.as_str()
    }

    /// The name fits into [`MAX_ENVIRONMENT_NAME_BYTES`].
    pub open spec fn name_fits(self, key: Seq<char>) -> bool {
        utf8_len(self.spec_prefix()) + utf8_len(key) <= MAX_ENVIRONMENT_NAME_BYTES
    }

    /// The variable that holds the key's value.
    pub fn environment_name(&self, key: &SecretKey) -> (r: Result<String, SecretStoreError>)
        ensures
            match r {
                Ok(name) => self.name_fits(key@) && name@ == self.spec_prefix() + key@,
                Err(error) => !self.name_fits(key@) && error == (SecretStoreError::TooLarge {
                    item: BoundedItem::EnvironmentName,
                    max: MAX_ENVIRONMENT_NAME_BYTES,
                }),
            },
    {
        let prefix_len: usize = byte_len(self.prefix.as_str());
        let key_len: usize = byte_len(key.as_str());
        if prefix_len > MAX_ENVIRONMENT_NAME_BYTES || key_len > MAX_ENVIRONMENT_NAME_BYTES
            - prefix_len {
            return Err(
                SecretStoreError::TooLarge {
                    item: BoundedItem::EnvironmentName,
                    max: MAX_ENVIRONMENT_NAME_BYTES,
                },
            );
        }
        let mut name = self.prefix.clone();
        name.append(key.as_str());
        Ok(name)
    }

    /// The key's value, given what the environment holds under the key's variable.
    pub fn get(&self, key: &SecretKey, value: EnvironmentValue) -> (r: Result<
        SecretValue,
        SecretStoreError,
    >)
        ensures
            match r {
                Ok(secret) => self.name_fits(key@) && value is Text && secret@ == encode_utf8(
                    value->Text_0@,
                ),
                Err(error) => if !self.name_fits(key@) {
                    error == (SecretStoreError::TooLarge {
                        item: BoundedItem::EnvironmentName,
                        max: MAX_ENVIRONMENT_NAME_BYTES,
                    })
                } else {
                    match value {
                        EnvironmentValue::Unset => error == SecretStoreError::Missing,
                        EnvironmentValue::NotUnicode => error == SecretStoreError::InvalidEncoding,
                        EnvironmentValue::Text(text) => utf8_len(text@) > MAX_SECRET_VALUE_BYTES
                            && error == (SecretStoreError::TooLarge {
                            item: BoundedItem::SecretValue,
                            max: MAX_SECRET_VALUE_BYTES,
                        }),
                    }
                },
            },
    {
        match self.environment_name(key) {
            Ok(_) => {},
            Err(error) => return Err(error),
        }
        match value {
            EnvironmentValue::Unset => Err(SecretStoreError::Missing),
            EnvironmentValue::NotUnicode => Err(SecretStoreError::InvalidEncoding),
            EnvironmentValue::Text(text) => {
                let mut bytes = to_bytes(text.as_str());
                let secret = SecretValue::new(bytes.as_slice());
                match secret {
                    Ok(secret) => Ok(secret),
                    Err(SecretError::TooLarge { item, max }) => Err(
                        SecretStoreError::TooLarge { item, max },
                    ),
                    Err(_) => Err(SecretStoreError::Unavailable),
                }
            },
        }
    }
}

} // verus!
