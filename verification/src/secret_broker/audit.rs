//! Metadata-only records of what crossed the secret boundary.
use vstd::prelude::*;
use vstd::string::StringExecFns;

use crate::secret_broker::model::PluginId;
use crate::text::{
    char_is_control, decimal, decimal_of, is_control, padded_hex, padded_hex_of, to_chars,
};

verus! {

/// The operation that crossed the secret boundary.
#[derive(Clone, Copy, Debug, PartialEq, Eq, Structural)]
pub enum AuditOperation {
    Resolve,
    Inject,
}

impl AuditOperation {
    pub open spec fn text(self) -> Seq<char> {
        match self {
            AuditOperation::Resolve => "resolve"@,
            AuditOperation::Inject => "inject"@,
        }
    }

    pub fn as_str(self) -> (r: &'static str)
        ensures
            r@ == self.text(),
    {
        match self {
            AuditOperation::Resolve => "resolve",
            AuditOperation::Inject => "inject",
        }
    }
}

/// The metadata-only result recorded for an access attempt.
#[derive(Clone, Copy, Debug, PartialEq, Eq, Structural)]
pub enum AuditOutcome {
    Success,
    Missing,
    Denied,
    InvalidReference,
    AlreadyResolved,
    StoreError,
    CallbackPanicked,
}

impl AuditOutcome {
    pub open spec fn text(self) -> Seq<char> {
        match self {
            AuditOutcome::Success => "success"@,
            AuditOutcome::Missing => "missing"@,
            AuditOutcome::Denied => "denied"@,
            AuditOutcome::InvalidReference => "invalid-reference"@,
            AuditOutcome::AlreadyResolved => "already-resolved"@,
            AuditOutcome::StoreError => "store-error"@,
            AuditOutcome::CallbackPanicked => "callback-panicked"@,
        }
    }

    pub fn as_str(self) -> (r: &'static str)
        ensures
            r@ == self.text(),
    {
        match self {
            AuditOutcome::Success => "success",
            AuditOutcome::Missing => "missing",
            AuditOutcome::Denied => "denied",
            AuditOutcome::InvalidReference => "invalid-reference",
            AuditOutcome::AlreadyResolved => "already-resolved",
            AuditOutcome::StoreError => "store-error",
            AuditOutcome::CallbackPanicked => "callback-panicked",
        }
    }
}

/// A metadata-only audit record. It intentionally has no secret-value field.
#[derive(Clone, Debug, PartialEq, Eq)]
pub struct AuditEvent {
    pub sequence: u64,
    pub operation: AuditOperation,
    pub plugin: PluginId,
    pub reference_id: u64,
    pub outcome: AuditOutcome,
    pub value_len: Option<usize>,
}

pub struct AuditEventView {
    pub sequence: u64,
    pub operation: AuditOperation,
    pub plugin: Seq<char>,
    pub reference_id: u64,
    pub outcome: AuditOutcome,
    pub value_len: Option<usize>,
}

impl View for AuditEvent {
    type V = AuditEventView;

    open spec fn view(&self) -> AuditEventView {
        AuditEventView {
            sequence: self.sequence,
            operation: self.operation,
            plugin: self.plugin@,
            reference_id: self.reference_id,
            outcome: self.outcome,
            value_len: self.value_len,
        }
    }
}

impl AuditEventView {
    /// The record as a small JSON object.
    pub open spec fn json(self) -> Seq<char> {
        "{\"sequence\":"@ + decimal_of(self.sequence as nat) + ",\"operation\":\""@
            + self.operation.text() + "\",\"plugin\":\""@ + escaped(self.plugin)
            + "\",\"reference\":\"opaque\",\"outcome\":\""@ + self.outcome.text()
            + "\",\"value_len\":"@ + length_text(self.value_len, "null"@) + "}"@
    }

    /// The record as one line of text.
    pub open spec fn text(self) -> Seq<char> {
        "audit#"@ + decimal_of(self.sequence as nat) + " "@ + self.operation.text() + " plugin="@
            + self.plugin + " ref=opaque outcome="@ + self.outcome.text() + " value_len="@
            + length_text(self.value_len, "-"@)
    }
}

pub open spec fn length_text(length: Option<usize>, absent: Seq<char>) -> Seq<char> {
    match length {
        Some(length) => decimal_of(length as nat),
        None => absent,
    }
}

fn show_length(length: Option<usize>, absent: &str) -> (r: String)
    ensures
        r@ == length_text(length, absent@),
{
    match length {
        Some(length) => decimal(length as u64),
        None => absent.to_owned(),
    }
}

impl AuditEvent {
    /// Returns a small JSON object containing metadata only.
    pub fn to_json(&self) -> (r: String)
        ensures
            r@ == self@.json(),
    {
        let mut out = "{\"sequence\":".to_owned();
        out.append(decimal(self.sequence).as_str());
        out.append(",\"operation\":\"");
        out.append(self.operation.as_str());
        out.append("\",\"plugin\":\"");
        out.append(escape_json(self.plugin.as_str()).as_str());
        out.append("\",\"reference\":\"opaque\",\"outcome\":\"");
        out.append(self.outcome.as_str());
        out.append("\",\"value_len\":");
        out.append(show_length(self.value_len, "null").as_str());
        out.append("}");
        out
    }

    /// Returns one line of text containing metadata only.
    pub fn to_string(&self) -> (r: String)
        ensures
            r@ == self@.text(),
    {
        let mut out = "audit#".to_owned();
        out.append(decimal(self.sequence).as_str());
        out.append(" ");
        out.append(self.operation.as_str());
        out.append(" plugin=");
        out.append(self.plugin.as_str());
        out.append(" ref=opaque outcome=");
        out.append(self.outcome.as_str());
        out.append(" value_len=");
        out.append(show_length(self.value_len, "-").as_str());
        out
    }

    /// The same record once more.
    pub fn duplicate(&self) -> (r: Self)
        ensures
            r@ == self@,
    {
        AuditEvent {
            sequence: self.sequence,
            operation: self.operation,
            plugin: self.plugin.duplicate(),
            reference_id: self.reference_id,
            outcome: self.outcome,
            value_len: self.value_len,
        }
    }
}

/// How a character stands inside a JSON string.
pub open spec fn escaped_char(c: char) -> Seq<char> {
    if c == '"' {
        "\\\""@
    } else if c == '\\' {
        "\\\\"@
    } else if c == '\n' {
        "\\n"@
    } else if c == '\r' {
        "\\r"@
    } else if c == '\t' {
        "\\t"@
    } else if is_control(c) {
        "\\u"@ + padded_hex_of((c as u32) as nat, 4)
    } else {
        seq![c]
    }
}

/// How a text stands inside a JSON string.
pub open spec fn escaped(s: Seq<char>) -> Seq<char>
    decreases s.len(),
{
    if s.len() == 0 {
        seq![]
    } else {
        escaped(s.drop_last()) + escaped_char(s.last())
    }
}

pub fn escape_json(value: &str) -> (r: String)
    ensures
        r@ == escaped(value@),
{
    let chars = to_chars(value);
    let mut out = String::new();
    let mut i: usize = 0;
    while i < chars.len()
        invariant
            chars@ == value@,
            i <= chars@.len(),
            out@ == escaped(value@.take(i as int)),
        decreases chars@.len() - i,
    {
        let c = chars[i];
        proof {
            assert(value@.take(i + 1).drop_last() =~= value@.take(i as int));
            assert(value@.take(i + 1).last() == c);
        }
        if c == '"' {
            out.append("\\\"");
        } else if c == '\\' {
            out.append("\\\\");
        } else if c == '\n' {
            out.append("\\n");
        } else if c == '\r' {
            out.append("\\r");
        } else if c == '\t' {
            out.append("\\t");
        } else if char_is_control(c) {
            let mut code = "\\u".to_owned();
            code.append(padded_hex((c as u32) as u64, 4).as_str());
            out.append(code.as_str());
        } else {
            let ghost before = out@;
            out.push(c);
            assert(out@ =~= before + seq![c]);
        }
        i += 1;
    }
    assert(value@.take(i as int) =~= value@);
    out
}

} // verus!
