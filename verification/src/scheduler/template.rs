//! Deterministic local messages used when no model provider is available.
use vstd::prelude::*;
use vstd::string::StringExecFns;

use crate::text::{compact, compact_of, lemma_compact_bounded};

verus! {

pub const MAX_TEMPLATE_FIELD_CHARS: usize = 160;

pub const MAX_TEMPLATE_MESSAGE_CHARS: usize = 2_000;

/// What a mailbox item is.
#[derive(Clone, Copy, Debug, PartialEq, Eq, Structural)]
pub enum MailboxItemKind {
    ProactiveMessage,
    LoveLetter,
}

/// Whom a local message addresses, and what it is about; both are bounded.
#[derive(Clone, Debug, PartialEq, Eq)]
pub struct TemplateContext {
    recipient: String,
    focus: String,
}

impl TemplateContext {
    pub closed spec fn recipient_text(self) -> Seq<char> {
        self.recipient@
    }

    pub closed spec fn focus_text(self) -> Seq<char> {
        self.focus@
    }

    pub fn new(recipient: &str, focus: &str) -> (r: Self)
        ensures
            r.recipient_text() == compact_of(recipient@, MAX_TEMPLATE_FIELD_CHARS as nat),
            r.focus_text() == compact_of(focus@, MAX_TEMPLATE_FIELD_CHARS as nat),
    {
        TemplateContext {
            recipient: compact(recipient, MAX_TEMPLATE_FIELD_CHARS),
            focus: compact(focus, MAX_TEMPLATE_FIELD_CHARS),
        }
    }

    pub fn recipient(&self) -> (r: &str)
        ensures
            r@ == self.recipient_text(),
    {
        self.recipient.as_str()
    }

    pub fn focus(&self) -> (r: &str)
        ensures
            r@ == self.focus_text(),
    {
        self.focus.as_str()
    }
}

/// Where the text of a message comes from.
#[derive(Clone, Copy, Debug, PartialEq, Eq, Structural)]
pub enum TemplateSource {
    LocalDeterministic,
}

#[derive(Clone, Debug, PartialEq, Eq)]
pub struct GeneratedTemplate {
    kind: MailboxItemKind,
    subject: String,
    content: String,
    source: TemplateSource,
}

impl GeneratedTemplate {
    pub closed spec fn spec_kind(self) -> MailboxItemKind {
        self.kind
    }

    pub closed spec fn subject_text(self) -> Seq<char> {
        self.subject@
    }

    pub closed spec fn content_text(self) -> Seq<char> {
        self.content@
    }

    pub closed spec fn spec_source(self) -> TemplateSource {
        self.source
    }

    pub fn kind(&self) -> (r: MailboxItemKind)
        ensures
            r == self.spec_kind(),
    {
        self.kind
    }

    pub fn subject(&self) -> (r: &str)
        ensures
            r@ == self.subject_text(),
    {
        self.subject.as_str()
    }

    pub fn content(&self) -> (r: &str)
        ensures
            r@ == self.content_text(),
    {
        self.content.as_str()
    }

    pub fn source(&self) -> (r: TemplateSource)
        ensures
            r == self.spec_source(),
    {
        self.source
    }
}

/// The text, or the default where there is none.
pub open spec fn or_default(text: Seq<char>, default: Seq<char>) -> Seq<char> {
    if text.len() == 0 {
        default
    } else {
        text
    }
}

pub open spec fn letter_subject(context: TemplateContext) -> Seq<char> {
    let recipient = or_default(context.recipient_text(), "你"@);
    compact_of("给"@ + recipient + "的一封小信"@, MAX_TEMPLATE_FIELD_CHARS as nat)
}

pub open spec fn letter_content(context: TemplateContext) -> Seq<char> {
    let recipient = or_default(context.recipient_text(), "你"@);
    let focus = or_default(context.focus_text(), "眼前的事情"@);
    compact_of(
        "给"@ + recipient + "：\n\n今天也辛苦了。关于“"@ + focus
            + "”，不用急着一次做完，能向前一点就已经很好。等你准备好时，我会在这里陪你继续。\n\n云熙"@,
        MAX_TEMPLATE_MESSAGE_CHARS as nat,
    )
}

/// Renders a bounded, deterministic love letter without calling a model. The source says so,
/// so that nobody takes it for a generated message.
pub fn render_love_letter(context: &TemplateContext) -> (r: GeneratedTemplate)
    ensures
        r.spec_kind() == MailboxItemKind::LoveLetter,
        r.spec_source() == TemplateSource::LocalDeterministic,
        r.subject_text() == letter_subject(*context),
        r.content_text() == letter_content(*context),
        r.subject_text().len() <= MAX_TEMPLATE_FIELD_CHARS,
        r.content_text().len() <= MAX_TEMPLATE_MESSAGE_CHARS,
{
    let recipient = if context.recipient().is_empty() {
        "你"
    } else {
        context.recipient()
    };
    let focus = if context.focus().is_empty() {
        "眼前的事情"
    } else {
        context.focus()
    };
    let mut content = "给".to_owned();
    content.append(recipient);
    content.append("：\n\n今天也辛苦了。关于“");
    content.append(focus);
    content.append("”，不用急着一次做完，能向前一点就已经很好。等你准备好时，我会在这里陪你继续。\n\n云熙");
    let mut subject = "给".to_owned();
    subject.append(recipient);
    subject.append("的一封小信");
    proof {
        lemma_compact_bounded(subject@, MAX_TEMPLATE_FIELD_CHARS as nat);
        lemma_compact_bounded(content@, MAX_TEMPLATE_MESSAGE_CHARS as nat);
    }
    GeneratedTemplate {
        kind: MailboxItemKind::LoveLetter,
        subject: compact(subject.as_str(), MAX_TEMPLATE_FIELD_CHARS),
        content: compact(content.as_str(), MAX_TEMPLATE_MESSAGE_CHARS),
        source: TemplateSource::LocalDeterministic,
    }
}

} // verus!
