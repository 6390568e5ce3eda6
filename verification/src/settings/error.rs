//! What can go wrong with settings.
use vstd::prelude::*;
use vstd::string::StringExecFns;

use crate::text::{decimal, decimal_of};

verus! {

#[derive(Clone, Debug)]
pub enum CapabilitySettingsError {
    Conflict { expected: u64, current: u64 },
    InvalidSection(String),
    InvalidPluginSection(String),
    InvalidPluginId { id: String },
    TooManyPluginOverrides { count: usize, maximum: usize },
    InvalidDocument { path: String, message: String },
    UnsupportedVersion { path: String, version: u32 },
    TooLarge { path: String, maximum: usize },
    RevisionExhausted,
    Io { path: String, message: String },
    Serialize(String),
}

/// A settings error with its texts as character sequences.
pub enum SettingsErrorView {
    Conflict { expected: u64, current: u64 },
    InvalidSection(Seq<char>),
    InvalidPluginSection(Seq<char>),
    InvalidPluginId { id: Seq<char> },
    TooManyPluginOverrides { count: nat, maximum: nat },
    InvalidDocument { path: Seq<char>, message: Seq<char> },
    UnsupportedVersion { path: Seq<char>, version: u32 },
    TooLarge { path: Seq<char>, maximum: nat },
    RevisionExhausted,
    Io { path: Seq<char>, message: Seq<char> },
    Serialize(Seq<char>),
}

impl View for CapabilitySettingsError {
    type V = SettingsErrorView;

    open spec fn view(&self) -> SettingsErrorView {
        match *self {
            CapabilitySettingsError::Conflict { expected, current } => SettingsErrorView::Conflict {
                expected,
                current,
            },
            CapabilitySettingsError::InvalidSection(text) => SettingsErrorView::InvalidSection(
                text@,
            ),
            CapabilitySettingsError::InvalidPluginSection(
                text,
            ) => SettingsErrorView::InvalidPluginSection(text@),
            CapabilitySettingsError::InvalidPluginId { id } => SettingsErrorView::InvalidPluginId {
                id: id@,
            },
            CapabilitySettingsError::TooManyPluginOverrides {
                count,
                maximum,
            } => SettingsErrorView::TooManyPluginOverrides {
                count: count as nat,
                maximum: maximum as nat,
            },
            CapabilitySettingsError::InvalidDocument {
                path,
                message,
            } => SettingsErrorView::InvalidDocument { path: path@, message: message@ },
            CapabilitySettingsError::UnsupportedVersion {
                path,
                version,
            } => SettingsErrorView::UnsupportedVersion { path: path@, version },
            CapabilitySettingsError::TooLarge { path, maximum } => SettingsErrorView::TooLarge {
                path: path@,
                maximum: maximum as nat,
            },
            CapabilitySettingsError::RevisionExhausted => SettingsErrorView::RevisionExhausted,
            CapabilitySettingsError::Io { path, message } => SettingsErrorView::Io {
                path: path@,
                message: message@,
            },
            CapabilitySettingsError::Serialize(text) => SettingsErrorView::Serialize(text@),
        }
    }
}

impl SettingsErrorView {
    /// The sentence shown to people.
    pub open spec fn text(self) -> Seq<char> {
        match self {
            SettingsErrorView::Conflict { expected, current } =>
                "settings revision conflict: expected "@ + decimal_of(expected as nat)
                + ", current "@ + decimal_of(current as nat),
            SettingsErrorView::InvalidSection(message) => message,
            SettingsErrorView::InvalidPluginSection(message) => message,
            SettingsErrorView::InvalidPluginId { id } => "invalid plugin id `"@ + id
                + "` in settings"@,
            SettingsErrorView::TooManyPluginOverrides { count, maximum } => "settings contain "@
                + decimal_of(count) + " plugin overrides; maximum is "@ + decimal_of(maximum),
            SettingsErrorView::InvalidDocument { path, message } => "invalid settings document "@
                + path + ": "@ + message,
            SettingsErrorView::UnsupportedVersion { path, version } => "settings document "@ + path
                + " uses unsupported version "@ + decimal_of(version as nat),
            SettingsErrorView::TooLarge { path, maximum } => "settings document "@ + path
                + " exceeds "@ + decimal_of(maximum) + " bytes"@,
            SettingsErrorView::RevisionExhausted => "settings revision is exhausted"@,
            SettingsErrorView::Io { path, message } => "settings I/O failed at "@ + path + ": "@
                + message,
            SettingsErrorView::Serialize(message) => "failed to serialize settings: "@ + message,
        }
    }
}

impl CapabilitySettingsError {
    /// The sentence shown to people.
    pub fn to_string(&self) -> (r: String)
        ensures
            r@ == self@.text(),
    {
        match self {
            CapabilitySettingsError::Conflict { expected, current } => {
                let mut out = "settings revision conflict: expected ".to_owned();
                out.append(decimal(*expected).as_str());
                out.append(", current ");
                out.append(decimal(*current).as_str());
                out
            },
            CapabilitySettingsError::InvalidSection(message) => message.clone(),
            CapabilitySettingsError::InvalidPluginSection(message) => message.clone(),
            CapabilitySettingsError::InvalidPluginId { id } => {
                let mut out = "invalid plugin id `".to_owned();
                out.append(id.as_str());
                out.append("` in settings");
                out
            },
            CapabilitySettingsError::TooManyPluginOverrides { count, maximum } => {
                let mut out = "settings contain ".to_owned();
                out.append(decimal(*count as u64).as_str());
                out.append(" plugin overrides; maximum is ");
                out.append(decimal(*maximum as u64).as_str());
                out
            },
            CapabilitySettingsError::InvalidDocument { path, message } => {
                let mut out = "invalid settings document ".to_owned();
                out.append(path.as_str());
                out.append(": ");
                out.append(message.as_str());
                out
            },
            CapabilitySettingsError::UnsupportedVersion { path, version } => {
                let mut out = "settings document ".to_owned();
                out.append(path.as_str());
                out.append(" uses unsupported version ");
                out.append(decimal(*version as u64).as_str());
                out
            },
            CapabilitySettingsError::TooLarge { path, maximum } => {
                let mut out = "settings document ".to_owned();
                out.append(path.as_str());
                out.append(" exceeds ");
                out.append(decimal(*maximum as u64).as_str());
                out.append(" bytes");
                out
            },
            CapabilitySettingsError::RevisionExhausted =>
                "settings revision is exhausted".to_owned(),
            CapabilitySettingsError::Io { path, message } => {
                let mut out = "settings I/O failed at ".to_owned();
                out.append(path.as_str());
                out.append(": ");
                out.append(message.as_str());
                out
            },
            CapabilitySettingsError::Serialize(message) => {
                let mut out = "failed to serialize settings: ".to_owned();
                out.append(message.as_str());
                out
            },
        }
    }
}

} // verus!
