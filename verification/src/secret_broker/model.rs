//! Identities, keys, values and references.
use vstd::prelude::*;
use vstd::slice::slice_to_vec;
use zeroize::Zeroize;

use crate::secret_broker::error::{BoundedItem, InputField, SecretError};
use crate::secret_broker::{MAX_PLUGIN_ID_BYTES, MAX_SECRET_KEY_BYTES, MAX_SECRET_VALUE_BYTES};
use crate::text::{any_control, byte_len, has_control, str_eq, utf8_len};

verus! {

/// `Zeroize::zeroize` on a byte vector: the bytes are overwritten and the vector is left
/// empty. That the memory is overwritten is not stated; a vector's view does not show it.
#[verifier::external_body]
pub(crate) fn erase(bytes: &mut Vec<u8>)
    ensures
        final(bytes)@.len() == 0,
    opens_invariants none
    no_unwind
{
    bytes.zeroize();
}

/// What is wrong with a bounded text: it is empty, too long, or holds a control character.
pub open spec fn text_problem(
    value: Seq<char>,
    field: InputField,
    item: BoundedItem,
    max: usize,
) -> Option<SecretError> {
    if value.len() == 0 {
        Some(SecretError::EmptyInput { field })
    } else if utf8_len(value) > max {
        Some(SecretError::TooLarge { item, max })
    } else if has_control(value) {
        Some(SecretError::InvalidInput { field })
    } else {
        None
    }
}

fn validate_text(value: &str, field: InputField, item: BoundedItem, max: usize) -> (r: Result<
    (),
    SecretError,
>)
    ensures
        r == match text_problem(value@, field, item, max) {
            Some(error) => Err::<(), SecretError>(error),
            None => Ok(()),
        },
{
    if value.is_empty() {
        return Err(SecretError::EmptyInput { field });
    }
    if byte_len(value) > max {
        return Err(SecretError::TooLarge { item, max });
    }
    if any_control(value) {
        return Err(SecretError::InvalidInput { field });
    }
    Ok(())
}

/// A host-defined plugin identity used for authorization.
#[derive(Clone, Debug, PartialEq, Eq)]
pub struct PluginId(String);

impl View for PluginId {
    type V = Seq<char>;

    closed spec fn view(&self) -> Seq<char> {
        self.0@
    }
}

impl PluginId {
    pub open spec fn problem(value: Seq<char>) -> Option<SecretError> {
        text_problem(value, InputField::PluginId, BoundedItem::PluginId, MAX_PLUGIN_ID_BYTES)
    }

    pub fn new(value: &str) -> (r: Result<Self, SecretError>)
        ensures
            match r {
                Ok(id) => PluginId::problem(value@) is None && id@ == value@,
                Err(error) => PluginId::problem(value@) == Some(error),
            },
    {
        match validate_text(
            value,
            InputField::PluginId,
            BoundedItem::PluginId,
            MAX_PLUGIN_ID_BYTES,
        ) {
            Ok(()) => Ok(PluginId(value.to_owned())),
            Err(error) => Err(error),
        }
    }

    pub fn as_str(&self) -> (r: &str)
        ensures
            r@ == self@,
    {
        self.0.as_str()
    }

    pub fn to_string(&self) -> (r: String)
        ensures
            r@ == self@,
    {
        self.0.clone()
    }

    /// The same identity once more.
    pub fn duplicate(&self) -> (r: Self)
        ensures
            r@ == self@,
    {
        PluginId(self.0.clone())
    }

    pub fn is(&self, other: &PluginId) -> (r: bool)
        ensures
            r == (self@ == other@),
    {
        str_eq(self.0.as_str(), other.0.as_str())
    }
}

/// A host-side logical key. It identifies a secret but never contains its value.
#[derive(PartialEq, Eq)]
pub struct SecretKey(String);

impl View for SecretKey {
    type V = Seq<char>;

    closed spec fn view(&self) -> Seq<char> {
        self.0@
    }
}

impl SecretKey {
    pub open spec fn problem(value: Seq<char>) -> Option<SecretError> {
        text_problem(value, InputField::SecretKey, BoundedItem::SecretKey, MAX_SECRET_KEY_BYTES)
    }

    /// Only a text without a problem becomes a key.
    #[verifier::type_invariant]
    closed spec fn accepted(self) -> bool {
        SecretKey::problem(self.0@) is None
    }

    pub fn new(value: &str) -> (r: Result<Self, SecretError>)
        ensures
            match r {
                Ok(key) => SecretKey::problem(value@) is None && key@ == value@,
                Err(error) => SecretKey::problem(value@) == Some(error),
            },
    {
        match validate_text(
            value,
            InputField::SecretKey,
            BoundedItem::SecretKey,
            MAX_SECRET_KEY_BYTES,
        ) {
            Ok(()) => Ok(SecretKey(value.to_owned())),
            Err(error) => Err(error),
        }
    }

    pub(crate) fn as_str(&self) -> (r: &str)
        ensures
            r@ == self@,
            SecretKey::problem(self@) is None,
    {
        proof {
            use_type_invariant(self);
        }
        self.0.as_str()
    }

    /// The same key once more.
    pub fn duplicate(&self) -> (r: Self)
        ensures
            r@ == self@,
    {
        proof {
            use_type_invariant(self);
        }
        SecretKey(self.0.clone())
    }

    /// Shows that there is a key, and nothing of it.
    pub fn to_string(&self) -> (r: String)
        ensures
            r@ == "<secret-key>"@,
    {
        "<secret-key>".to_owned()
    }

    /// Shows that there is a key, and nothing of it.
    pub fn to_debug_string(&self) -> (r: String)
        ensures
            r@ == "SecretKey(REDACTED)"@,
    {
        "SecretKey(REDACTED)".to_owned()
    }
}

/// The callback may return this when it is lent these bytes.
pub open spec fn returned_from<T, F: FnOnce(&[u8]) -> T>(
    callback: F,
    bytes: Seq<u8>,
    result: T,
) -> bool {
    exists|lent: &[u8]| lent@ == bytes && #[trigger] call_ensures(callback, (lent,), result)
}

/// Secret bytes; neither of the texts made of a value shows any of them.
pub struct SecretValue {
    bytes: Vec<u8>,
}

impl View for SecretValue {
    type V = Seq<u8>;

    closed spec fn view(&self) -> Seq<u8> {
        self.bytes@
    }
}

impl SecretValue {
    /// No value is longer than [`MAX_SECRET_VALUE_BYTES`].
    #[verifier::type_invariant]
    closed spec fn bounded(self) -> bool {
        self.bytes@.len() <= MAX_SECRET_VALUE_BYTES
    }

    pub fn new(value: &[u8]) -> (r: Result<Self, SecretError>)
        ensures
            match r {
                Ok(secret) => value@.len() <= MAX_SECRET_VALUE_BYTES && secret@ == value@,
                Err(error) => value@.len() > MAX_SECRET_VALUE_BYTES && error
                    == (SecretError::TooLarge {
                    item: BoundedItem::SecretValue,
                    max: MAX_SECRET_VALUE_BYTES,
                }),
            },
    {
        if value.len() > MAX_SECRET_VALUE_BYTES {
            return Err(
                SecretError::TooLarge {
                    item: BoundedItem::SecretValue,
                    max: MAX_SECRET_VALUE_BYTES,
                },
            );
        }
        Ok(SecretValue { bytes: slice_to_vec(value) })
    }

    pub fn len(&self) -> (r: usize)
        ensures
            r == self@.len(),
            r <= MAX_SECRET_VALUE_BYTES,
    {
        proof {
            use_type_invariant(self);
        }
        self.bytes.len()
    }

    pub fn is_empty(&self) -> (r: bool)
        ensures
            r == (self@.len() == 0),
    {
        self.bytes.len() == 0
    }

    /// Lends the bytes for the duration of `callback`.
    pub fn with_bytes<T, F: FnOnce(&[u8]) -> T>(&self, callback: F) -> (r: T)
        requires
            forall|bytes: &[u8]| bytes@ == self@ ==> call_requires(callback, (bytes,)),
        ensures
            returned_from(callback, self@, r),
    {
        callback(self.bytes.as_slice())
    }

    pub(crate) fn bytes(&self) -> (r: &Vec<u8>)
        ensures
            r@ == self@,
            r@.len() <= MAX_SECRET_VALUE_BYTES,
    {
        proof {
            use_type_invariant(self);
        }
        &self.bytes
    }

    /// A second copy of the value.
    pub(crate) fn clone_value(&self) -> (r: Self)
        ensures
            r@ == self@,
    {
        proof {
            use_type_invariant(self);
        }
        SecretValue { bytes: self.bytes.clone() }
    }

    /// Shows that there is a value, and nothing of it.
    pub fn to_string(&self) -> (r: String)
        ensures
            r@ == "<secret-value>"@,
    {
        "<secret-value>".to_owned()
    }

    /// Shows that there is a value, and nothing of it.
    pub fn to_debug_string(&self) -> (r: String)
        ensures
            r@ == "SecretValue(REDACTED)"@,
    {
        "SecretValue(REDACTED)".to_owned()
    }
}

impl Drop for SecretValue {
    /// The bytes are overwritten before their memory is released.
    fn drop(&mut self)
        opens_invariants none
        no_unwind
    {
        erase(&mut self.bytes);
    }
}

/// An opaque, process-local, single-use reference issued by a broker.
#[derive(Clone, Copy)]
pub struct SecretRef {
    broker_id: u64,
    reference_id: u64,
}

impl SecretRef {
    pub closed spec fn broker(self) -> u64 {
        self.broker_id
    }

    pub closed spec fn id(self) -> u64 {
        self.reference_id
    }

    /// The reference with this number, issued by the broker with this number.
    pub fn new(broker_id: u64, reference_id: u64) -> (r: Self)
        ensures
            r.broker() == broker_id,
            r.id() == reference_id,
    {
        SecretRef { broker_id, reference_id }
    }

    pub(crate) fn broker_id(&self) -> (r: u64)
        ensures
            r == self.broker(),
    {
        self.broker_id
    }

    pub(crate) fn reference_id(&self) -> (r: u64)
        ensures
            r == self.id(),
    {
        self.reference_id
    }

    /// Shows that there is a reference, and nothing of it.
    pub fn to_string(&self) -> (r: String)
        ensures
            r@ == "<secret-ref>"@,
    {
        "<secret-ref>".to_owned()
    }

    /// Shows that there is a reference, and nothing of it.
    pub fn to_debug_string(&self) -> (r: String)
        ensures
            r@ == "SecretRef(REDACTED)"@,
    {
        "SecretRef(REDACTED)".to_owned()
    }
}

} // verus!
