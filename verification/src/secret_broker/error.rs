//! What can go wrong at the secret boundary; no error carries a value.
use vstd::prelude::*;
use vstd::string::StringExecFns;

use crate::text::{decimal, decimal_of};

verus! {

/// The bounded input category that failed validation.
#[derive(Clone, Copy, Debug, PartialEq, Eq, Structural)]
pub enum InputField {
    PluginId,
    SecretKey,
    EnvironmentName,
}

impl InputField {
    pub open spec fn text(self) -> Seq<char> {
        match self {
            InputField::PluginId => "plugin id"@,
            InputField::SecretKey => "secret key"@,
            InputField::EnvironmentName => "environment name"@,
        }
    }

    pub fn to_string(&self) -> (r: String)
        ensures
            r@ == self.text(),
    {
        match self {
            InputField::PluginId => "plugin id".to_owned(),
            InputField::SecretKey => "secret key".to_owned(),
            InputField::EnvironmentName => "environment name".to_owned(),
        }
    }
}

/// The bounded item whose configured maximum was exceeded.
#[derive(Clone, Copy, Debug, PartialEq, Eq, Structural)]
pub enum BoundedItem {
    PluginId,
    SecretKey,
    EnvironmentName,
    SecretValue,
    References,
    StoreBytes,
    StoreEntries,
    File,
}

impl BoundedItem {
    pub open spec fn text(self) -> Seq<char> {
        match self {
            BoundedItem::PluginId => "plugin id"@,
            BoundedItem::SecretKey => "secret key"@,
            BoundedItem::EnvironmentName => "environment name"@,
            BoundedItem::SecretValue => "secret value"@,
            BoundedItem::References => "secret references"@,
            BoundedItem::StoreBytes => "secret store bytes"@,
            BoundedItem::StoreEntries => "secret store entries"@,
            BoundedItem::File => "secret store file"@,
        }
    }

    pub fn to_string(&self) -> (r: String)
        ensures
            r@ == self.text(),
    {
        match self {
            BoundedItem::PluginId => "plugin id".to_owned(),
            BoundedItem::SecretKey => "secret key".to_owned(),
            BoundedItem::EnvironmentName => "environment name".to_owned(),
            BoundedItem::SecretValue => "secret value".to_owned(),
            BoundedItem::References => "secret references".to_owned(),
            BoundedItem::StoreBytes => "secret store bytes".to_owned(),
            BoundedItem::StoreEntries => "secret store entries".to_owned(),
            BoundedItem::File => "secret store file".to_owned(),
        }
    }
}

pub open spec fn exceeds_text(item: BoundedItem, max: usize) -> Seq<char> {
    item.text() + " exceeds "@ + decimal_of(max as nat) + " bytes"@
}

fn exceeds(item: BoundedItem, max: usize) -> (r: String)
    ensures
        r@ == exceeds_text(item, max),
{
    let mut out = item.to_string();
    out.append(" exceeds ");
    out.append(decimal(max as u64).as_str());
    out.append(" bytes");
    out
}

/// Errors reported by a backing secret store.
#[derive(Clone, Copy, Debug, PartialEq, Eq)]
pub enum SecretStoreError {
    Missing,
    Unavailable,
    InvalidEncoding,
    TooLarge { item: BoundedItem, max: usize },
    InvalidMasterKey { expected: usize, actual: usize },
    InvalidPath,
    Corrupt,
    Crypto,
    Io { operation: &'static str },
    RevisionExhausted,
}

impl SecretStoreError {
    pub open spec fn text(self) -> Seq<char> {
        match self {
            SecretStoreError::Missing => "secret is missing"@,
            SecretStoreError::Unavailable => "secret store is unavailable"@,
            SecretStoreError::InvalidEncoding => "secret has invalid encoding"@,
            SecretStoreError::TooLarge { item, max } => exceeds_text(item, max),
            SecretStoreError::InvalidMasterKey { expected, actual } => "master key must contain "@
                + decimal_of(expected as nat) + " bytes (received "@ + decimal_of(actual as nat)
                + ")"@,
            SecretStoreError::InvalidPath => "secret store path is invalid"@,
            SecretStoreError::Corrupt => "secret store is corrupt or failed authentication"@,
            SecretStoreError::Crypto => "secret store encryption failed"@,
            SecretStoreError::Io { operation } => "secret store "@ + operation@
                + " operation failed"@,
            SecretStoreError::RevisionExhausted => "secret store revision is exhausted"@,
        }
    }

    pub fn to_string(&self) -> (r: String)
        ensures
            r@ == self.text(),
    {
        match self {
            SecretStoreError::Missing => "secret is missing".to_owned(),
            SecretStoreError::Unavailable => "secret store is unavailable".to_owned(),
            SecretStoreError::InvalidEncoding => "secret has invalid encoding".to_owned(),
            SecretStoreError::TooLarge { item, max } => exceeds(*item, *max),
            SecretStoreError::InvalidMasterKey { expected, actual } => {
                let mut out = "master key must contain ".to_owned();
                out.append(decimal(*expected as u64).as_str());
                out.append(" bytes (received ");
                out.append(decimal(*actual as u64).as_str());
                out.append(")");
                out
            },
            SecretStoreError::InvalidPath => "secret store path is invalid".to_owned(),
            SecretStoreError::Corrupt =>
                "secret store is corrupt or failed authentication".to_owned(),
            SecretStoreError::Crypto => "secret store encryption failed".to_owned(),
            SecretStoreError::Io { operation } => {
                let mut out = "secret store ".to_owned();
                out.append(operation);
                out.append(" operation failed");
                out
            },
            SecretStoreError::RevisionExhausted => "secret store revision is exhausted".to_owned(),
        }
    }
}

/// Errors from reference validation, authorization, storage, or bounds.
#[derive(Clone, Copy, Debug, PartialEq, Eq)]
pub enum SecretError {
    InvalidReference,
    AlreadyResolved,
    Denied,
    Missing,
    Store(SecretStoreError),
    InvalidInput { field: InputField },
    EmptyInput { field: InputField },
    TooLarge { item: BoundedItem, max: usize },
    TooManyReferences { max: usize },
    ReferenceIdExhausted,
}

impl SecretError {
    pub open spec fn text(self) -> Seq<char> {
        match self {
            SecretError::InvalidReference => "invalid secret reference"@,
            SecretError::AlreadyResolved => "secret reference was already resolved"@,
            SecretError::Denied => "secret access denied"@,
            SecretError::Missing => "secret is missing"@,
            SecretError::Store(error) => error.text(),
            SecretError::InvalidInput { field } => "invalid "@ + field.text(),
            SecretError::EmptyInput { field } => field.text() + " must not be empty"@,
            SecretError::TooLarge { item, max } => exceeds_text(item, max),
            SecretError::TooManyReferences { max } => "secret reference limit of "@ + decimal_of(
                max as nat,
            ) + " was reached"@,
            SecretError::ReferenceIdExhausted => "secret reference id space was exhausted"@,
        }
    }

    pub fn to_string(&self) -> (r: String)
        ensures
            r@ == self.text(),
    {
        match self {
            SecretError::InvalidReference => "invalid secret reference".to_owned(),
            SecretError::AlreadyResolved => "secret reference was already resolved".to_owned(),
            SecretError::Denied => "secret access denied".to_owned(),
            SecretError::Missing => "secret is missing".to_owned(),
            SecretError::Store(error) => error.to_string(),
            SecretError::InvalidInput { field } => {
                let mut out = "invalid ".to_owned();
                out.append(field.to_string().as_str());
                out
            },
            SecretError::EmptyInput { field } => {
                let mut out = field.to_string();
                out.append(" must not be empty");
                out
            },
            SecretError::TooLarge { item, max } => exceeds(*item, *max),
            SecretError::TooManyReferences { max } => {
                let mut out = "secret reference limit of ".to_owned();
                out.append(decimal(*max as u64).as_str());
                out.append(" was reached");
                out
            },
            SecretError::ReferenceIdExhausted =>
                "secret reference id space was exhausted".to_owned(),
        }
    }
}

/// How a store's error is reported across the boundary.
pub open spec fn mapped_store_error(error: SecretStoreError) -> SecretError {
    match error {
        SecretStoreError::Missing => SecretError::Missing,
        SecretStoreError::TooLarge { item, max } => SecretError::TooLarge { item, max },
        other => SecretError::Store(other),
    }
}

pub fn map_store_error(error: SecretStoreError) -> (r: SecretError)
    ensures
        r == mapped_store_error(error),
{
    match error {
        SecretStoreError::Missing => SecretError::Missing,
        SecretStoreError::TooLarge { item, max } => SecretError::TooLarge { item, max },
        other => SecretError::Store(other),
    }
}

} // verus!
