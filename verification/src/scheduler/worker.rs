//! The tick facade: bounded, idempotent hand-over of proactive messages to a sink.
use vstd::prelude::*;
use vstd::string::StringExecFns;

use crate::scheduler::policy::{
    decision, evaluate, optional_text, ProactivePlan, ProactivePlanView, ProactiveSchedulerRequest,
    ProactiveTrigger,
};
use crate::scheduler::sink::{AskedSink, EnqueueDisposition, ProactiveSink, SchedulerSinkError};
use crate::scheduler::template::{
    letter_content, letter_subject, render_love_letter, MailboxItemKind, TemplateContext,
};
use crate::text::{compact, compact_of, lemma_compact_bounded, str_eq, texts};

verus! {

/// The shortest pause between two ticks, in milliseconds.
pub const MIN_WORKER_INTERVAL: u64 = 10;

/// The pause between two ticks that a new configuration has, in milliseconds.
pub const DEFAULT_WORKER_INTERVAL: u64 = 60_000;

pub const MAX_ENQUEUES_PER_TICK: usize = 8;

pub const MAX_IDEMPOTENCY_KEYS: usize = 512;

// ---------------------------------------------------------------------------
// Configuration
// ---------------------------------------------------------------------------
#[derive(Clone, Copy, Debug)]
pub struct SchedulerConfig {
    enabled: bool,
    interval: u64,
    max_enqueues_per_tick: usize,
    template_enabled: bool,
}

impl SchedulerConfig {
    pub closed spec fn spec_enabled(self) -> bool {
        self.enabled
    }

    pub closed spec fn spec_interval(self) -> u64 {
        self.interval
    }

    pub closed spec fn spec_maximum(self) -> usize {
        self.max_enqueues_per_tick
    }

    pub closed spec fn spec_template(self) -> bool {
        self.template_enabled
    }

    /// The pause is never shorter than [`MIN_WORKER_INTERVAL`], and between one and
    /// [`MAX_ENQUEUES_PER_TICK`] messages leave per tick.
    #[verifier::type_invariant]
    closed spec fn bounded(self) -> bool {
        &&& self.interval >= MIN_WORKER_INTERVAL
        &&& 1 <= self.max_enqueues_per_tick <= MAX_ENQUEUES_PER_TICK
    }

    pub fn new() -> (r: Self)
        ensures
            !r.spec_enabled(),
            r.spec_interval() == DEFAULT_WORKER_INTERVAL,
            r.spec_maximum() == 1,
            !r.spec_template(),
    {
        SchedulerConfig {
            enabled: false,
            interval: DEFAULT_WORKER_INTERVAL,
            max_enqueues_per_tick: 1,
            template_enabled: false,
        }
    }

    pub fn enabled(self, enabled: bool) -> (r: Self)
        ensures
            r.spec_enabled() == enabled,
            r.spec_interval() == self.spec_interval(),
            r.spec_maximum() == self.spec_maximum(),
            r.spec_template() == self.spec_template(),
    {
        proof {
            use_type_invariant(self);
        }
        SchedulerConfig { enabled, ..self }
    }

    /// The pause between two ticks in milliseconds, at least [`MIN_WORKER_INTERVAL`].
    pub fn with_interval(self, interval: u64) -> (r: Self)
        ensures
            r.spec_enabled() == self.spec_enabled(),
            r.spec_interval() == if interval < MIN_WORKER_INTERVAL {
                MIN_WORKER_INTERVAL
            } else {
                interval
            },
            r.spec_maximum() == self.spec_maximum(),
            r.spec_template() == self.spec_template(),
    {
        proof {
            use_type_invariant(self);
        }
        SchedulerConfig {
            interval: if interval < MIN_WORKER_INTERVAL {
                MIN_WORKER_INTERVAL
            } else {
                interval
            },
            ..self
        }
    }

    pub fn with_max_enqueues_per_tick(self, maximum: usize) -> (r: Self)
        ensures
            r.spec_enabled() == self.spec_enabled(),
            r.spec_interval() == self.spec_interval(),
            r.spec_maximum() == if maximum < 1 {
                1
            } else if maximum > MAX_ENQUEUES_PER_TICK {
                MAX_ENQUEUES_PER_TICK
            } else {
                maximum
            },
            r.spec_template() == self.spec_template(),
    {
        proof {
            use_type_invariant(self);
        }
        SchedulerConfig {
            max_enqueues_per_tick: if maximum < 1 {
                1
            } else if maximum > MAX_ENQUEUES_PER_TICK {
                MAX_ENQUEUES_PER_TICK
            } else {
                maximum
            },
            ..self
        }
    }

    pub fn with_template_fallback(self, enabled: bool) -> (r: Self)
        ensures
            r.spec_enabled() == self.spec_enabled(),
            r.spec_interval() == self.spec_interval(),
            r.spec_maximum() == self.spec_maximum(),
            r.spec_template() == enabled,
    {
        proof {
            use_type_invariant(self);
        }
        SchedulerConfig { template_enabled: enabled, ..self }
    }

    pub fn is_enabled(&self) -> (r: bool)
        ensures
            r == self.spec_enabled(),
    {
        self.enabled
    }

    pub fn interval(&self) -> (r: u64)
        ensures
            r == self.spec_interval(),
            r >= MIN_WORKER_INTERVAL,
    {
        proof {
            use_type_invariant(self);
        }
        self.interval
    }

    pub fn max_enqueues_per_tick(&self) -> (r: usize)
        ensures
            r == self.spec_maximum(),
            1 <= r <= MAX_ENQUEUES_PER_TICK,
    {
        proof {
            use_type_invariant(self);
        }
        self.max_enqueues_per_tick
    }

    pub fn template_fallback_enabled(&self) -> (r: bool)
        ensures
            r == self.spec_template(),
    {
        self.template_enabled
    }
}

impl Default for SchedulerConfig {
    fn default() -> (r: Self)
        ensures
            !r.spec_enabled(),
            r.spec_interval() == DEFAULT_WORKER_INTERVAL,
            r.spec_maximum() == 1,
            !r.spec_template(),
    {
        SchedulerConfig::new()
    }
}

// ---------------------------------------------------------------------------
// Ticks and messages
// ---------------------------------------------------------------------------
#[derive(Clone, Debug)]
pub struct SchedulerTick {
    request: ProactiveSchedulerRequest,
    idempotency_scope: String,
    template: Option<TemplateContext>,
}

impl SchedulerTick {
    pub closed spec fn spec_request(self) -> ProactiveSchedulerRequest {
        self.request
    }

    pub closed spec fn scope(self) -> Seq<char> {
        self.idempotency_scope@
    }

    pub closed spec fn spec_template(self) -> Option<TemplateContext> {
        self.template
    }

    pub fn new(request: ProactiveSchedulerRequest, idempotency_scope: &str) -> (r: Self)
        ensures
            r.spec_request() == request,
            r.scope() == compact_of(idempotency_scope@, 160),
            r.spec_template() is None,
    {
        SchedulerTick {
            request,
            idempotency_scope: compact(idempotency_scope, 160),
            template: None,
        }
    }

    pub fn with_template(self, template: TemplateContext) -> (r: Self)
        ensures
            r.spec_request() == self.spec_request(),
            r.scope() == self.scope(),
            r.spec_template() == Some(template),
    {
        SchedulerTick {
            request: self.request,
            idempotency_scope: self.idempotency_scope,
            template: Some(template),
        }
    }

    pub fn request(&self) -> (r: &ProactiveSchedulerRequest)
        ensures
            *r == self.spec_request(),
    {
        &self.request
    }

    pub fn idempotency_scope(&self) -> (r: &str)
        ensures
            r@ == self.scope(),
    {
        self.idempotency_scope.as_str()
    }

    pub fn template(&self) -> (r: Option<&TemplateContext>)
        ensures
            r is Some == self.spec_template() is Some,
            r is Some ==> *r->0 == self.spec_template()->0,
    {
        self.template.as_ref()
    }
}

#[derive(Clone, Debug, PartialEq, Eq)]
pub struct ScheduledMessage {
    kind: MailboxItemKind,
    subject: String,
    content: String,
    reason: String,
    idempotency_key: String,
}

pub struct ScheduledMessageView {
    pub kind: MailboxItemKind,
    pub subject: Seq<char>,
    pub content: Seq<char>,
    pub reason: Seq<char>,
    pub key: Seq<char>,
}

impl View for ScheduledMessage {
    type V = ScheduledMessageView;

    closed spec fn view(&self) -> ScheduledMessageView {
        ScheduledMessageView {
            kind: self.kind,
            subject: self.subject@,
            content: self.content@,
            reason: self.reason@,
            key: self.idempotency_key@,
        }
    }
}

/// A message whose every field is bounded.
pub open spec fn bounded_message(
    kind: MailboxItemKind,
    subject: Seq<char>,
    content: Seq<char>,
    reason: Seq<char>,
    key: Seq<char>,
) -> ScheduledMessageView {
    ScheduledMessageView {
        kind,
        subject: compact_of(subject, 200),
        content: compact_of(content, 65536),
        reason: compact_of(reason, 500),
        key: compact_of(key, 256),
    }
}

impl ScheduledMessage {
    fn new(kind: MailboxItemKind, subject: &str, content: &str, reason: &str, key: &str) -> (r:
        Self)
        ensures
            r@ == bounded_message(kind, subject@, content@, reason@, key@),
    {
        ScheduledMessage {
            kind,
            subject: compact(subject, 200),
            content: compact(content, 64 * 1024),
            reason: compact(reason, 500),
            idempotency_key: compact(key, 256),
        }
    }

    pub fn kind(&self) -> (r: MailboxItemKind)
        ensures
            r == self@.kind,
    {
        self.kind
    }

    pub fn subject(&self) -> (r: &str)
        ensures
            r@ == self@.subject,
    {
        self.subject.as_str()
    }

    pub fn content(&self) -> (r: &str)
        ensures
            r@ == self@.content,
    {
        self.content.as_str()
    }

    pub fn reason(&self) -> (r: &str)
        ensures
            r@ == self@.reason,
    {
        self.reason.as_str()
    }

    pub fn idempotency_key(&self) -> (r: &str)
        ensures
            r@ == self@.key,
    {
        self.idempotency_key.as_str()
    }
}

/// How a trigger is called in an idempotency key.
pub open spec fn trigger_text(trigger: ProactiveTrigger) -> Seq<char> {
    match trigger {
        ProactiveTrigger::ReminderDue => "reminder_due"@,
        ProactiveTrigger::UnfinishedTask => "unfinished_task"@,
        ProactiveTrigger::LongIdleCheckIn => "long_idle_check_in"@,
        ProactiveTrigger::TopicContinuation => "topic_continuation"@,
        ProactiveTrigger::PeriodicSummary => "periodic_summary"@,
        ProactiveTrigger::RelationshipMilestone => "relationship_milestone"@,
    }
}

fn trigger_name(trigger: ProactiveTrigger) -> (r: &'static str)
    ensures
        r@ == trigger_text(trigger),
{
    match trigger {
        ProactiveTrigger::ReminderDue => "reminder_due",
        ProactiveTrigger::UnfinishedTask => "unfinished_task",
        ProactiveTrigger::LongIdleCheckIn => "long_idle_check_in",
        ProactiveTrigger::TopicContinuation => "topic_continuation",
        ProactiveTrigger::PeriodicSummary => "periodic_summary",
        ProactiveTrigger::RelationshipMilestone => "relationship_milestone",
    }
}

/// The message that a plan becomes.
pub open spec fn plan_message(scope: Seq<char>, plan: ProactivePlanView) -> ScheduledMessageView {
    bounded_message(
        MailboxItemKind::ProactiveMessage,
        "YunXi follow-up"@,
        plan.message,
        plan.reason,
        "proactive:"@ + scope + ":"@ + trigger_text(plan.trigger) + ":"@ + plan.reason,
    )
}

/// The message that a template becomes.
pub open spec fn letter_message(scope: Seq<char>, context: TemplateContext) -> ScheduledMessageView {
    bounded_message(
        MailboxItemKind::LoveLetter,
        letter_subject(context),
        letter_content(context),
        "deterministic_local_template"@,
        "love-letter:"@ + scope,
    )
}

/// The template steps in when it is enabled and nothing at all was observed.
pub open spec fn uses_template(config: SchedulerConfig, tick: SchedulerTick) -> bool {
    &&& decision(tick.spec_request()) == Err::<ProactivePlanView, Seq<char>>("no_signal"@)
    &&& config.spec_template()
    &&& tick.spec_template() is Some
}

/// What a tick hands over to the sink.
pub open spec fn tick_messages(config: SchedulerConfig, tick: SchedulerTick) -> Seq<
    ScheduledMessageView,
> {
    match decision(tick.spec_request()) {
        Ok(plan) => seq![plan_message(tick.scope(), plan)],
        Err(_) => if uses_template(config, tick) {
            seq![letter_message(tick.scope(), tick.spec_template()->0)]
        } else {
            seq![]
        },
    }
}

/// Why a tick suggests nothing.
pub open spec fn tick_suppression(tick: SchedulerTick) -> Option<Seq<char>> {
    match decision(tick.spec_request()) {
        Ok(_) => None,
        Err(reason) => Some(reason),
    }
}

pub open spec fn messages_view(messages: Seq<ScheduledMessage>) -> Seq<ScheduledMessageView> {
    messages.map_values(|message: ScheduledMessage| message@)
}

fn message_of_plan(scope: &str, plan: &ProactivePlan) -> (r: ScheduledMessage)
    ensures
        r@ == plan_message(scope@, plan@),
{
    let mut key = "proactive:".to_owned();
    key.append(scope);
    key.append(":");
    key.append(trigger_name(plan.trigger));
    key.append(":");
    key.append(plan.reason.as_str());
    ScheduledMessage::new(
        MailboxItemKind::ProactiveMessage,
        "YunXi follow-up",
        plan.message.as_str(),
        plan.reason.as_str(),
        key.as_str(),
    )
}

fn message_of_template(scope: &str, context: &TemplateContext) -> (r: ScheduledMessage)
    ensures
        r@ == letter_message(scope@, *context),
{
    let template = render_love_letter(context);
    let mut key = "love-letter:".to_owned();
    key.append(scope);
    ScheduledMessage::new(
        template.kind(),
        template.subject(),
        template.content(),
        "deterministic_local_template",
        key.as_str(),
    )
}

/// What one tick wants to hand over.
pub struct TickPlan {
    pub messages: Vec<ScheduledMessage>,
    pub template_generated: bool,
    pub suppressed_reason: Option<String>,
}

/// Evaluates a tick without handing anything over.
pub fn plan_tick(config: &SchedulerConfig, tick: &SchedulerTick) -> (r: TickPlan)
    ensures
        messages_view(r.messages@) == tick_messages(*config, *tick),
        r.template_generated == uses_template(*config, *tick),
        optional_text(r.suppressed_reason) == tick_suppression(*tick),
{
    let result = evaluate(tick.request());
    let maximum = config.max_enqueues_per_tick();
    let mut messages: Vec<ScheduledMessage> = Vec::new();
    let mut i: usize = 0;
    assert(messages_view(messages@) =~= seq![]);
    while i < result.plans.len() && i < maximum
        invariant
            i <= result.plans@.len() <= 1,
            1 <= maximum,
            messages@.len() == i,
            i == 1 ==> messages@[0]@ == plan_message(tick.scope(), result.plans@[0]@),
        decreases result.plans@.len() - i,
    {
        messages.push(message_of_plan(tick.idempotency_scope(), &result.plans[i]));
        i += 1;
    }
    let unobserved = match &result.suppressed_reason {
        None => true,
        Some(reason) => str_eq(reason.as_str(), "no_signal"),
    };
    let mut template_generated = false;
    if messages.len() == 0 && unobserved && config.template_fallback_enabled() {
        if let Some(context) = tick.template() {
            messages.push(message_of_template(tick.idempotency_scope(), context));
            template_generated = true;
        }
    }
    assert(messages_view(messages@) =~= tick_messages(*config, *tick));
    TickPlan { messages, template_generated, suppressed_reason: result.suppressed_reason }
}

// ---------------------------------------------------------------------------
// The source of ticks
// ---------------------------------------------------------------------------
/// Says when the next tick is due, and what it holds.
pub trait TickSource {
    fn next_tick(&self) -> Result<Option<SchedulerTick>, String>;
}

// ---------------------------------------------------------------------------
// Status
// ---------------------------------------------------------------------------
#[derive(Clone, Copy, Debug, PartialEq, Eq, Structural)]
pub enum WorkerLifecycle {
    Disabled,
    Running,
    Stopping,
    Stopped,
}

#[derive(Clone, Debug, PartialEq, Eq)]
pub struct SchedulerStatus {
    lifecycle: WorkerLifecycle,
    ticks: u64,
    enqueued: u64,
    duplicates: u64,
    failures: u64,
    skipped_disabled: u64,
    last_suppressed_reason: Option<String>,
    last_error: Option<String>,
}

pub struct SchedulerStatusView {
    pub lifecycle: WorkerLifecycle,
    pub ticks: u64,
    pub enqueued: u64,
    pub duplicates: u64,
    pub failures: u64,
    pub skipped_disabled: u64,
    pub last_suppressed_reason: Option<Seq<char>>,
    pub last_error: Option<Seq<char>>,
}

impl View for SchedulerStatus {
    type V = SchedulerStatusView;

    closed spec fn view(&self) -> SchedulerStatusView {
        SchedulerStatusView {
            lifecycle: self.lifecycle,
            ticks: self.ticks,
            enqueued: self.enqueued,
            duplicates: self.duplicates,
            failures: self.failures,
            skipped_disabled: self.skipped_disabled,
            last_suppressed_reason: optional_text(self.last_suppressed_reason),
            last_error: optional_text(self.last_error),
        }
    }
}

fn optional_str(value: &Option<String>) -> (r: Option<&str>)
    ensures
        r is Some == value is Some,
        r is Some ==> Some(r->0@) == optional_text(*value),
{
    match value {
        Some(text) => Some(text.as_str()),
        None => None,
    }
}

fn copy_optional(value: &Option<String>) -> (r: Option<String>)
    ensures
        optional_text(r) == optional_text(*value),
{
    match value {
        Some(text) => Some(text.clone()),
        None => None,
    }
}

impl SchedulerStatus {
    pub fn lifecycle(&self) -> (r: WorkerLifecycle)
        ensures
            r == self@.lifecycle,
    {
        self.lifecycle
    }

    pub fn ticks(&self) -> (r: u64)
        ensures
            r == self@.ticks,
    {
        self.ticks
    }

    pub fn enqueued(&self) -> (r: u64)
        ensures
            r == self@.enqueued,
    {
        self.enqueued
    }

    pub fn duplicates(&self) -> (r: u64)
        ensures
            r == self@.duplicates,
    {
        self.duplicates
    }

    pub fn failures(&self) -> (r: u64)
        ensures
            r == self@.failures,
    {
        self.failures
    }

    pub fn skipped_disabled(&self) -> (r: u64)
        ensures
            r == self@.skipped_disabled,
    {
        self.skipped_disabled
    }

    pub fn last_suppressed_reason(&self) -> (r: Option<&str>)
        ensures
            r is Some == self@.last_suppressed_reason is Some,
            r is Some ==> Some(r->0@) == self@.last_suppressed_reason,
    {
        optional_str(&self.last_suppressed_reason)
    }

    pub fn last_error(&self) -> (r: Option<&str>)
        ensures
            r is Some == self@.last_error is Some,
            r is Some ==> Some(r->0@) == self@.last_error,
    {
        optional_str(&self.last_error)
    }

    /// The same status once more.
    fn duplicate(&self) -> (r: Self)
        ensures
            r@ == self@,
    {
        SchedulerStatus {
            lifecycle: self.lifecycle,
            ticks: self.ticks,
            enqueued: self.enqueued,
            duplicates: self.duplicates,
            failures: self.failures,
            skipped_disabled: self.skipped_disabled,
            last_suppressed_reason: copy_optional(&self.last_suppressed_reason),
            last_error: copy_optional(&self.last_error),
        }
    }
}

#[derive(Clone, Debug, PartialEq, Eq)]
pub struct TickOutcome {
    enqueued: usize,
    duplicates: usize,
    failures: usize,
    template_generated: bool,
    suppressed_reason: Option<String>,
}

pub struct TickOutcomeView {
    pub enqueued: nat,
    pub duplicates: nat,
    pub failures: nat,
    pub template_generated: bool,
    pub suppressed_reason: Option<Seq<char>>,
}

impl View for TickOutcome {
    type V = TickOutcomeView;

    closed spec fn view(&self) -> TickOutcomeView {
        TickOutcomeView {
            enqueued: self.enqueued as nat,
            duplicates: self.duplicates as nat,
            failures: self.failures as nat,
            template_generated: self.template_generated,
            suppressed_reason: optional_text(self.suppressed_reason),
        }
    }
}

impl TickOutcome {
    pub fn enqueued(&self) -> (r: usize)
        ensures
            r == self@.enqueued,
    {
        self.enqueued
    }

    pub fn duplicates(&self) -> (r: usize)
        ensures
            r == self@.duplicates,
    {
        self.duplicates
    }

    pub fn failures(&self) -> (r: usize)
        ensures
            r == self@.failures,
    {
        self.failures
    }

    pub fn template_generated(&self) -> (r: bool)
        ensures
            r == self@.template_generated,
    {
        self.template_generated
    }

    pub fn suppressed_reason(&self) -> (r: Option<&str>)
        ensures
            r is Some == self@.suppressed_reason is Some,
            r is Some ==> Some(r->0@) == self@.suppressed_reason,
    {
        optional_str(&self.suppressed_reason)
    }
}

// ---------------------------------------------------------------------------
// Keys already handed over
// ---------------------------------------------------------------------------
/// The keys after one more: a known key changes nothing, and the oldest key leaves once there
/// are more than [`MAX_IDEMPOTENCY_KEYS`].
pub open spec fn with_key(keys: Seq<Seq<char>>, key: Seq<char>) -> Seq<Seq<char>> {
    if keys.contains(key) {
        keys
    } else if keys.len() < MAX_IDEMPOTENCY_KEYS {
        keys.push(key)
    } else {
        keys.push(key).drop_first()
    }
}

/// The newest keys, oldest first, no key twice.
#[derive(Debug)]
struct BoundedKeys {
    order: Vec<String>,
}

impl BoundedKeys {
    spec fn keys(self) -> Seq<Seq<char>> {
        texts(self.order@)
    }

    spec fn wf(self) -> bool {
        &&& self.keys().no_duplicates()
        &&& self.keys().len() <= MAX_IDEMPOTENCY_KEYS
    }

    fn contains(&self, key: &str) -> (r: bool)
        ensures
            r == self.keys().contains(key@),
    {
        let mut i: usize = 0;
        while i < self.order.len()
            invariant
                i <= self.order@.len(),
                forall|k: int| 0 <= k < i ==> (#[trigger] self.order@[k])@ != key@,
            decreases self.order@.len() - i,
        {
            if str_eq(self.order[i].as_str(), key) {
                assert(self.keys()[i as int] == key@);
                return true;
            }
            i += 1;
        }
        assert forall|k: int| 0 <= k < self.keys().len() implies self.keys()[k] != key@ by {
            assert(self.keys()[k] == self.order@[k]@);
        }
        false
    }

    fn insert(&mut self, key: String)
        requires
            old(self).wf(),
        ensures
            final(self).wf(),
            final(self).keys() == with_key(old(self).keys(), key@),
    {
        if self.contains(key.as_str()) {
            return ;
        }
        let ghost before = self.order@;
        self.order.push(key);
        assert(self.keys() =~= texts(before).push(key@));
        if self.order.len() > MAX_IDEMPOTENCY_KEYS {
            let ghost full = self.order@;
            self.order.remove(0);
            assert(self.keys() =~= texts(full).drop_first());
        }
    }
}

// ---------------------------------------------------------------------------
// The facade
// ---------------------------------------------------------------------------
/// What a sink answered.
pub enum AnswerView {
    Created,
    AlreadyPresent,
    Failed(Seq<char>),
}

pub open spec fn answer_view(answer: Result<EnqueueDisposition, SchedulerSinkError>) -> AnswerView {
    match answer {
        Ok(EnqueueDisposition::Created) => AnswerView::Created,
        Ok(EnqueueDisposition::AlreadyPresent) => AnswerView::AlreadyPresent,
        Err(error) => AnswerView::Failed(error.text()),
    }
}

/// The state of a facade: its status and the keys it remembers.
pub struct FacadeState {
    pub status: SchedulerStatusView,
    pub keys: Seq<Seq<char>>,
}

pub open spec fn saturating_next(value: u64) -> u64 {
    if value < u64::MAX {
        (value + 1) as u64
    } else {
        value
    }
}

/// The status after one more failure.
pub open spec fn after_failure(status: SchedulerStatusView, message: Seq<char>) -> SchedulerStatusView {
    SchedulerStatusView {
        failures: saturating_next(status.failures),
        last_error: Some(compact_of(message, 1024)),
        ..status
    }
}

/// One message settled: a remembered key is a duplicate and the sink is not asked; otherwise
/// the sink's answer counts, and its key is remembered unless the sink failed.
pub open spec fn settled(
    state: FacadeState,
    outcome: TickOutcomeView,
    message: ScheduledMessageView,
    answer: Option<AnswerView>,
) -> (FacadeState, TickOutcomeView) {
    match answer {
        None => (
            FacadeState {
                status: SchedulerStatusView {
                    duplicates: (state.status.duplicates + 1) as u64,
                    ..state.status
                },
                ..state
            },
            TickOutcomeView { duplicates: outcome.duplicates + 1, ..outcome },
        ),
        Some(AnswerView::Created) => (
            FacadeState {
                status: SchedulerStatusView {
                    enqueued: (state.status.enqueued + 1) as u64,
                    ..state.status
                },
                keys: with_key(state.keys, message.key),
            },
            TickOutcomeView { enqueued: outcome.enqueued + 1, ..outcome },
        ),
        Some(AnswerView::AlreadyPresent) => (
            FacadeState {
                status: SchedulerStatusView {
                    duplicates: (state.status.duplicates + 1) as u64,
                    ..state.status
                },
                keys: with_key(state.keys, message.key),
            },
            TickOutcomeView { duplicates: outcome.duplicates + 1, ..outcome },
        ),
        Some(AnswerView::Failed(error)) => (
            FacadeState { status: after_failure(state.status, error), ..state },
            TickOutcomeView { failures: outcome.failures + 1, ..outcome },
        ),
    }
}

/// All messages of a tick settled in order.
pub open spec fn all_settled(
    state: FacadeState,
    outcome: TickOutcomeView,
    messages: Seq<ScheduledMessageView>,
    answers: Seq<Option<AnswerView>>,
) -> (FacadeState, TickOutcomeView)
    decreases messages.len(),
{
    if messages.len() == 0 {
        (state, outcome)
    } else {
        let before = all_settled(state, outcome, messages.drop_last(), answers.drop_last());
        settled(before.0, before.1, messages.last(), answers.last())
    }
}

/// There is an answer for each message that the sink was asked about: exactly those whose key
/// was not remembered.
pub open spec fn answers_fit(
    state: FacadeState,
    outcome: TickOutcomeView,
    messages: Seq<ScheduledMessageView>,
    answers: Seq<Option<AnswerView>>,
) -> bool
    decreases messages.len(),
{
    if messages.len() == 0 {
        answers.len() == 0
    } else {
        let before = all_settled(state, outcome, messages.drop_last(), answers.drop_last());
        &&& answers.len() == messages.len()
        &&& answers_fit(state, outcome, messages.drop_last(), answers.drop_last())
        &&& answers.last() is None <==> before.0.keys.contains(messages.last().key)
    }
}

/// The outcome of a tick before anything is handed over.
pub open spec fn fresh_outcome(config: SchedulerConfig, tick: SchedulerTick) -> TickOutcomeView {
    TickOutcomeView {
        enqueued: 0,
        duplicates: 0,
        failures: 0,
        template_generated: uses_template(config, tick),
        suppressed_reason: tick_suppression(tick),
    }
}

/// A whole tick, given what the sink answered.
pub open spec fn tick_done(
    config: SchedulerConfig,
    state: FacadeState,
    tick: SchedulerTick,
    answers: Seq<Option<AnswerView>>,
) -> (FacadeState, TickOutcomeView) {
    if !config.spec_enabled() {
        (
            FacadeState {
                status: SchedulerStatusView {
                    skipped_disabled: saturating_next(state.status.skipped_disabled),
                    ..state.status
                },
                ..state
            },
            TickOutcomeView {
                enqueued: 0,
                duplicates: 0,
                failures: 0,
                template_generated: false,
                suppressed_reason: Some("disabled"@),
            },
        )
    } else {
        let started = tick_started(state);
        let (done, outcome) = all_settled(
            started,
            fresh_outcome(config, tick),
            tick_messages(config, tick),
            answers,
        );
        (
            FacadeState {
                status: SchedulerStatusView {
                    last_suppressed_reason: outcome.suppressed_reason,
                    ..done.status
                },
                ..done
            },
            outcome,
        )
    }
}

pub open spec fn tick_started(state: FacadeState) -> FacadeState {
    FacadeState {
        status: SchedulerStatusView { ticks: saturating_next(state.status.ticks), ..state.status },
        ..state
    }
}

/// The answers that a tick can get: none at all when the facade is disabled.
pub open spec fn tick_answers_fit(
    config: SchedulerConfig,
    state: FacadeState,
    tick: SchedulerTick,
    answers: Seq<Option<AnswerView>>,
) -> bool {
    if !config.spec_enabled() {
        answers.len() == 0
    } else {
        answers_fit(
            tick_started(state),
            fresh_outcome(config, tick),
            tick_messages(config, tick),
            answers,
        )
    }
}

/// The sink is asked about the message of a tick: there is one, and its key is not remembered.
pub open spec fn asks_sink(
    config: SchedulerConfig,
    state: FacadeState,
    tick: SchedulerTick,
) -> bool {
    &&& config.spec_enabled()
    &&& tick_messages(config, tick).len() == 1
    &&& !state.keys.contains(tick_messages(config, tick)[0].key)
}

/// What the sink has been asked after a tick: the tick's message is added where it is handed
/// over, and nothing else.
pub open spec fn asked_after(
    config: SchedulerConfig,
    state: FacadeState,
    tick: SchedulerTick,
    asked: Seq<ScheduledMessageView>,
) -> Seq<ScheduledMessageView> {
    if asks_sink(config, state, tick) {
        asked.push(tick_messages(config, tick)[0])
    } else {
        asked
    }
}

/// Evaluates ticks and hands their messages over, each key at most once.
pub struct SchedulerFacade<S> {
    config: SchedulerConfig,
    sink: AskedSink<S>,
    status: SchedulerStatus,
    keys: BoundedKeys,
}

impl<S: ProactiveSink> SchedulerFacade<S> {
    pub closed spec fn spec_config(self) -> SchedulerConfig {
        self.config
    }

    pub closed spec fn spec_sink(self) -> S {
        self.sink.inner()
    }

    /// Every message that the sink has been asked about, in order.
    pub closed spec fn asked(self) -> Seq<ScheduledMessageView> {
        self.sink.asked()
    }

    pub closed spec fn state(self) -> FacadeState {
        FacadeState { status: self.status@, keys: self.keys.keys() }
    }

    /// No key is remembered twice, and no more than [`MAX_IDEMPOTENCY_KEYS`] are.
    pub open spec fn wf(self) -> bool {
        &&& self.state().keys.no_duplicates()
        &&& self.state().keys.len() <= MAX_IDEMPOTENCY_KEYS
    }

    /// One more message can be counted.
    pub open spec fn can_count(self) -> bool {
        &&& self.state().status.enqueued < u64::MAX
        &&& self.state().status.duplicates < u64::MAX
    }

    pub fn new(config: SchedulerConfig, sink: S) -> (r: Self)
        ensures
            r.wf(),
            r.spec_config() == config,
            r.spec_sink() == sink,
            r.asked() == Seq::<ScheduledMessageView>::empty(),
            r.state() == (FacadeState {
                status: SchedulerStatusView {
                    lifecycle: if config.spec_enabled() {
                        WorkerLifecycle::Stopped
                    } else {
                        WorkerLifecycle::Disabled
                    },
                    ticks: 0,
                    enqueued: 0,
                    duplicates: 0,
                    failures: 0,
                    skipped_disabled: 0,
                    last_suppressed_reason: None,
                    last_error: None,
                },
                keys: seq![],
            }),
    {
        let lifecycle = if config.is_enabled() {
            WorkerLifecycle::Stopped
        } else {
            WorkerLifecycle::Disabled
        };
        let r = SchedulerFacade {
            config,
            sink: AskedSink::new(sink),
            status: SchedulerStatus {
                lifecycle,
                ticks: 0,
                enqueued: 0,
                duplicates: 0,
                failures: 0,
                skipped_disabled: 0,
                last_suppressed_reason: None,
                last_error: None,
            },
            keys: BoundedKeys { order: Vec::new() },
        };
        assert(r.state().keys =~= seq![]);
        r
    }

    pub fn status(&self) -> (r: SchedulerStatus)
        ensures
            r@ == self.state().status,
    {
        self.status.duplicate()
    }

    /// Counts a failure and keeps its message.
    pub fn record_failure(&mut self, message: &str)
        ensures
            final(self).spec_config() == old(self).spec_config(),
            final(self).spec_sink() == old(self).spec_sink(),
            final(self).asked() == old(self).asked(),
            final(self).state() == (FacadeState {
                status: after_failure(old(self).state().status, message@),
                ..old(self).state()
            }),
    {
        self.status.failures = self.status.failures.saturating_add(1);
        self.status.last_error = Some(compact(message, 1_024));
    }

    /// A worker runs from now on, unless the facade is disabled.
    pub fn mark_running(&mut self)
        ensures
            final(self).spec_config() == old(self).spec_config(),
            final(self).spec_sink() == old(self).spec_sink(),
            final(self).asked() == old(self).asked(),
            final(self).state() == (FacadeState {
                status: SchedulerStatusView {
                    lifecycle: if old(self).spec_config().spec_enabled() {
                        WorkerLifecycle::Running
                    } else {
                        old(self).state().status.lifecycle
                    },
                    ..old(self).state().status
                },
                ..old(self).state()
            }),
    {
        if self.config.is_enabled() {
            self.status.lifecycle = WorkerLifecycle::Running;
        }
    }

    /// A running worker has been asked to stop.
    pub fn mark_stopping(&mut self)
        ensures
            final(self).spec_config() == old(self).spec_config(),
            final(self).spec_sink() == old(self).spec_sink(),
            final(self).asked() == old(self).asked(),
            final(self).state() == (FacadeState {
                status: SchedulerStatusView {
                    lifecycle: if old(self).state().status.lifecycle == WorkerLifecycle::Running {
                        WorkerLifecycle::Stopping
                    } else {
                        old(self).state().status.lifecycle
                    },
                    ..old(self).state().status
                },
                ..old(self).state()
            }),
    {
        if self.status.lifecycle == WorkerLifecycle::Running {
            self.status.lifecycle = WorkerLifecycle::Stopping;
        }
    }

    /// The worker has stopped; a disabled facade stays disabled.
    pub fn mark_stopped(&mut self)
        ensures
            final(self).spec_config() == old(self).spec_config(),
            final(self).spec_sink() == old(self).spec_sink(),
            final(self).asked() == old(self).asked(),
            final(self).state() == (FacadeState {
                status: SchedulerStatusView {
                    lifecycle: if old(self).state().status.lifecycle == WorkerLifecycle::Disabled {
                        WorkerLifecycle::Disabled
                    } else {
                        WorkerLifecycle::Stopped
                    },
                    ..old(self).state().status
                },
                ..old(self).state()
            }),
    {
        if self.status.lifecycle != WorkerLifecycle::Disabled {
            self.status.lifecycle = WorkerLifecycle::Stopped;
        }
    }

    /// Counts a message whose key is remembered.
    pub fn settle_duplicate(&mut self, message: &ScheduledMessage, outcome: &mut TickOutcome)
        requires
            old(self).wf(),
            old(self).can_count(),
            old(outcome)@.duplicates < usize::MAX,
        ensures
            final(self).wf(),
            final(self).spec_config() == old(self).spec_config(),
            final(self).spec_sink() == old(self).spec_sink(),
            final(self).asked() == old(self).asked(),
            (final(self).state(), final(outcome)@) == settled(
                old(self).state(),
                old(outcome)@,
                message@,
                None,
            ),
    {
        outcome.duplicates += 1;
        self.status.duplicates += 1;
    }

    /// Counts what the sink answered for a message whose key was not remembered.
    pub fn settle_answer(
        &mut self,
        message: &ScheduledMessage,
        answer: Result<EnqueueDisposition, SchedulerSinkError>,
        outcome: &mut TickOutcome,
    )
        requires
            old(self).wf(),
            old(self).can_count(),
            old(outcome)@.enqueued < usize::MAX,
            old(outcome)@.duplicates < usize::MAX,
            old(outcome)@.failures < usize::MAX,
        ensures
            final(self).wf(),
            final(self).spec_config() == old(self).spec_config(),
            final(self).spec_sink() == old(self).spec_sink(),
            final(self).asked() == old(self).asked(),
            (final(self).state(), final(outcome)@) == settled(
                old(self).state(),
                old(outcome)@,
                message@,
                Some(answer_view(answer)),
            ),
            answer is Err ==> final(self).state().status.last_error == Some(
                answer->Err_0.text(),
            ),
    {
        match answer {
            Ok(EnqueueDisposition::Created) => {
                self.keys.insert(message.idempotency_key().to_owned());
                outcome.enqueued += 1;
                self.status.enqueued += 1;
            },
            Ok(EnqueueDisposition::AlreadyPresent) => {
                self.keys.insert(message.idempotency_key().to_owned());
                outcome.duplicates += 1;
                self.status.duplicates += 1;
            },
            Err(error) => {
                outcome.failures += 1;
                self.record_failure(error.to_string().as_str());
            },
        }
    }

    /// The facade is enabled, and the message's key is not remembered.
    fn wants(&self, message: &ScheduledMessage) -> (r: bool)
        ensures
            r == (self.spec_config().spec_enabled() && !self.state().keys.contains(message@.key)),
    {
        self.config.is_enabled() && !self.keys.contains(message.idempotency_key())
    }

    /// The message that a tick would hand to the sink, if any.
    pub fn next_request(&self, tick: &SchedulerTick) -> (r: Option<ScheduledMessage>)
        requires
            self.wf(),
        ensures
            r is Some == asks_sink(self.spec_config(), self.state(), *tick),
            r is Some ==> r->0@ == tick_messages(self.spec_config(), *tick)[0],
    {
        let mut messages = plan_tick(&self.config, tick).messages;
        let ghost all = messages_view(messages@);
        match messages.pop() {
            Some(message) => {
                assert(all.len() == 1 && all[0] == message@);
                if self.wants(&message) {
                    Some(message)
                } else {
                    None
                }
            },
            None => None,
        }
    }

    /// Evaluates one tick and hands its messages over. Which of the possible outcomes comes
    /// about depends on nothing but what the sink answers; where the sink is asked, it is asked
    /// about the tick's message, and its answer is what is settled.
    pub fn process_tick(&mut self, tick: SchedulerTick) -> (r: TickOutcome)
        requires
            old(self).wf(),
            old(self).can_count(),
        ensures
            final(self).wf(),
            final(self).spec_config() == old(self).spec_config(),
            final(self).spec_sink() == old(self).spec_sink(),
            final(self).asked() == asked_after(
                old(self).spec_config(),
                old(self).state(),
                tick,
                old(self).asked(),
            ),
            exists|answers: Seq<Option<AnswerView>>|
                {
                    &&& tick_answers_fit(old(self).spec_config(), old(self).state(), tick, answers)
                    &&& (final(self).state(), r@) == #[trigger] tick_done(
                        old(self).spec_config(),
                        old(self).state(),
                        tick,
                        answers,
                    )
                },
            asks_sink(old(self).spec_config(), old(self).state(), tick) ==> exists|
                message: ScheduledMessage,
                answer: Result<EnqueueDisposition, SchedulerSinkError>,
            |
                {
                    &&& message@ == tick_messages(old(self).spec_config(), tick)[0]
                    &&& #[trigger] call_ensures(
                        S::enqueue,
                        (&old(self).spec_sink(), &message),
                        answer,
                    )
                    &&& (final(self).state(), r@) == tick_done(
                        old(self).spec_config(),
                        old(self).state(),
                        tick,
                        seq![Some(answer_view(answer))],
                    )
                    &&& answer is Err ==> final(self).state().status.last_error == Some(
                        answer->Err_0.text(),
                    )
                },
    {
        let ghost answers: Seq<Option<AnswerView>> = seq![];
        if !self.config.is_enabled() {
            self.status.skipped_disabled = self.status.skipped_disabled.saturating_add(1);
            let r = TickOutcome {
                enqueued: 0,
                duplicates: 0,
                failures: 0,
                template_generated: false,
                suppressed_reason: Some("disabled".to_owned()),
            };
            assert((self.state(), r@) == tick_done(
                old(self).spec_config(),
                old(self).state(),
                tick,
                answers,
            ));
            return r;
        }
        self.status.ticks = self.status.ticks.saturating_add(1);
        let ghost started = self.state();
        assert(started == tick_started(old(self).state()));
        let planned = plan_tick(&self.config, &tick);
        let messages = planned.messages;
        let mut outcome = TickOutcome {
            enqueued: 0,
            duplicates: 0,
            failures: 0,
            template_generated: planned.template_generated,
            suppressed_reason: planned.suppressed_reason,
        };
        let ghost fresh = fresh_outcome(self.config, tick);
        let ghost all = messages_view(messages@);
        assert(outcome@ == fresh);
        let ghost mut heard: Option<Result<EnqueueDisposition, SchedulerSinkError>> = None;
        let mut i: usize = 0;
        while i < messages.len()
            invariant
                i <= messages@.len() <= 1,
                all == messages_view(messages@),
                i == 0 ==> answers.len() == 0 && self.state().keys == started.keys,
                i == 1 && !started.keys.contains(all[0].key) ==> {
                    &&& heard is Some
                    &&& call_ensures(
                        S::enqueue,
                        (&old(self).spec_sink(), &messages@[0]),
                        heard->0,
                    )
                    &&& answers == seq![Some(answer_view(heard->0))]
                    &&& heard->0 is Err ==> self.state().status.last_error == Some(
                        (heard->0)->Err_0.text(),
                    )
                },
                fresh.enqueued == 0 && fresh.duplicates == 0 && fresh.failures == 0,
                self.wf(),
                self.spec_config() == old(self).spec_config(),
                self.spec_sink() == old(self).spec_sink(),
                self.spec_config().spec_enabled(),
                self.asked() == if i == 1 && !started.keys.contains(all[0].key) {
                    old(self).asked().push(all[0])
                } else {
                    old(self).asked()
                },
                i == 0 ==> self.can_count() && outcome@ == fresh,
                answers_fit(started, fresh, all.take(i as int), answers),
                (self.state(), outcome@) == all_settled(
                    started,
                    fresh,
                    all.take(i as int),
                    answers,
                ),
            decreases messages@.len() - i,
        {
            let message = &messages[i];
            let ghost before = answers;
            proof {
                assert(all[i as int] == message@);
                assert(all.take(i + 1).drop_last() =~= all.take(i as int));
                assert(all.take(i + 1).last() == message@);
            }
            if self.wants(message) {
                let answer = self.sink.ask(message);
                proof {
                    heard = Some(answer);
                    answers = before.push(Some(answer_view(answer)));
                    assert(answers.drop_last() =~= before);
                    assert(answers =~= seq![Some(answer_view(answer))]);
                }
                self.settle_answer(message, answer, &mut outcome);
            } else {
                proof {
                    answers = before.push(None);
                    assert(answers.drop_last() =~= before);
                }
                self.settle_duplicate(message, &mut outcome);
            }
            i += 1;
        }
        assert(all.take(i as int) =~= all);
        self.status.last_suppressed_reason = copy_optional(&outcome.suppressed_reason);
        proof {
            lemma_settling_keeps_suppression(started, fresh, all, answers);
            assert((self.state(), outcome@) == tick_done(
                old(self).spec_config(),
                old(self).state(),
                tick,
                answers,
            ));
            if asks_sink(old(self).spec_config(), old(self).state(), tick) {
                assert(all[0] == messages@[0]@);
                assert(call_ensures(
                    S::enqueue,
                    (&old(self).spec_sink(), &messages@[0]),
                    heard->0,
                ));
            }
        }
        outcome
    }
}

proof fn lemma_settling_keeps_suppression(
    state: FacadeState,
    outcome: TickOutcomeView,
    messages: Seq<ScheduledMessageView>,
    answers: Seq<Option<AnswerView>>,
)
    ensures
        all_settled(state, outcome, messages, answers).1.suppressed_reason
            == outcome.suppressed_reason,
    decreases messages.len(),
{
    if messages.len() > 0 {
        lemma_settling_keeps_suppression(
            state,
            outcome,
            messages.drop_last(),
            answers.drop_last(),
        );
    }
}

// ---------------------------------------------------------------------------
// What holds over several ticks
// ---------------------------------------------------------------------------
/// A disabled facade never asks the sink, and changes nothing but its count of skipped ticks.
pub proof fn lemma_disabled_facade_never_asks_the_sink(
    config: SchedulerConfig,
    state: FacadeState,
    tick: SchedulerTick,
    answers: Seq<Option<AnswerView>>,
    asked: Seq<ScheduledMessageView>,
)
    requires
        !config.spec_enabled(),
        tick_answers_fit(config, state, tick, answers),
    ensures
        answers.len() == 0,
        tick_done(config, state, tick, answers).0.keys == state.keys,
        tick_done(config, state, tick, answers).0.status == (SchedulerStatusView {
            skipped_disabled: saturating_next(state.status.skipped_disabled),
            ..state.status
        }),
        tick_done(config, state, tick, answers).1.suppressed_reason == Some("disabled"@),
        asked_after(config, state, tick, asked) == asked,
{
}

/// A tick hands over at most one message, and every field of it is bounded.
pub proof fn lemma_tick_is_bounded(config: SchedulerConfig, tick: SchedulerTick)
    ensures
        tick_messages(config, tick).len() <= 1,
        forall|k: int|
            0 <= k < tick_messages(config, tick).len() ==> {
                let message = #[trigger] tick_messages(config, tick)[k];
                &&& message.subject.len() <= 200
                &&& message.content.len() <= 65536
                &&& message.reason.len() <= 500
                &&& message.key.len() <= 256
            },
{
    assert forall|k: int| 0 <= k < tick_messages(config, tick).len() implies {
        let message = #[trigger] tick_messages(config, tick)[k];
        &&& message.subject.len() <= 200
        &&& message.content.len() <= 65536
        &&& message.reason.len() <= 500
        &&& message.key.len() <= 256
    } by {
        if let Ok(plan) = decision(tick.spec_request()) {
            lemma_message_bounded(
                "YunXi follow-up"@,
                plan.message,
                plan.reason,
                "proactive:"@ + tick.scope() + ":"@ + trigger_text(plan.trigger) + ":"@
                    + plan.reason,
            );
        } else {
            let context = tick.spec_template()->0;
            lemma_message_bounded(
                letter_subject(context),
                letter_content(context),
                "deterministic_local_template"@,
                "love-letter:"@ + tick.scope(),
            );
        }
    }
}

proof fn lemma_message_bounded(
    subject: Seq<char>,
    content: Seq<char>,
    reason: Seq<char>,
    key: Seq<char>,
)
    ensures
        compact_of(subject, 200).len() <= 200,
        compact_of(content, 65536).len() <= 65536,
        compact_of(reason, 500).len() <= 500,
        compact_of(key, 256).len() <= 256,
{
    lemma_compact_bounded(subject, 200);
    lemma_compact_bounded(content, 65536);
    lemma_compact_bounded(reason, 500);
    lemma_compact_bounded(key, 256);
}

/// Once the sink has taken a tick's message, the same tick again reaches the sink no more: it
/// counts as a duplicate and leaves the remembered keys as they are.
pub proof fn lemma_repeated_tick_is_idempotent(
    config: SchedulerConfig,
    state: FacadeState,
    tick: SchedulerTick,
    answers: Seq<Option<AnswerView>>,
    answers_again: Seq<Option<AnswerView>>,
    asked: Seq<ScheduledMessageView>,
)
    requires
        config.spec_enabled(),
        tick_messages(config, tick).len() > 0,
        tick_answers_fit(config, state, tick, answers),
        tick_done(config, state, tick, answers).1.failures == 0,
        tick_answers_fit(config, tick_done(config, state, tick, answers).0, tick, answers_again),
    ensures
        answers_again == seq![None::<AnswerView>],
        tick_done(
            config,
            tick_done(config, state, tick, answers).0,
            tick,
            answers_again,
        ).1.duplicates == 1,
        tick_done(
            config,
            tick_done(config, state, tick, answers).0,
            tick,
            answers_again,
        ).1.enqueued == 0,
        tick_done(
            config,
            tick_done(config, state, tick, answers).0,
            tick,
            answers_again,
        ).0.keys == tick_done(config, state, tick, answers).0.keys,
        asked_after(config, tick_done(config, state, tick, answers).0, tick, asked) == asked,
{
    let messages = tick_messages(config, tick);
    let fresh = fresh_outcome(config, tick);
    let first = tick_done(config, state, tick, answers).0;
    assert(messages.drop_last() =~= seq![]);
    assert(answers.drop_last() =~= seq![]);
    let started = tick_started(state);
    assert(all_settled(started, fresh, messages.drop_last(), answers.drop_last()) == (
        started,
        fresh,
    ));
    lemma_key_is_remembered(started.keys, messages.last().key);
    assert(first.keys.contains(messages.last().key));
    let again = tick_started(first);
    assert(answers_again.drop_last() =~= seq![]);
    assert(all_settled(again, fresh, messages.drop_last(), answers_again.drop_last()) == (
        again,
        fresh,
    ));
    assert(answers_again =~= seq![None::<AnswerView>]);
}

proof fn lemma_key_is_remembered(keys: Seq<Seq<char>>, key: Seq<char>)
    ensures
        with_key(keys, key).contains(key),
{
    if !keys.contains(key) {
        let longer = keys.push(key);
        assert(longer[keys.len() as int] == key);
        if keys.len() >= MAX_IDEMPOTENCY_KEYS {
            assert(longer.drop_first()[keys.len() - 1] == key);
        }
    }
}

/// A message that the sink failed to take is not lost: the failure is counted and its text kept,
/// nothing counts as handed over, the key is not remembered, and the same tick asks the sink
/// again.
pub proof fn lemma_failed_message_is_tried_again(
    config: SchedulerConfig,
    state: FacadeState,
    tick: SchedulerTick,
    error: Seq<char>,
    asked: Seq<ScheduledMessageView>,
)
    requires
        asks_sink(config, state, tick),
    ensures
        ({
            let (next, outcome) = tick_done(
                config,
                state,
                tick,
                seq![Some(AnswerView::Failed(error))],
            );
            &&& outcome.failures == 1
            &&& outcome.enqueued == 0
            &&& outcome.duplicates == 0
            &&& next.status.failures == saturating_next(state.status.failures)
            &&& next.status.last_error == Some(compact_of(error, 1024))
            &&& next.keys == state.keys
            &&& asks_sink(config, next, tick)
            &&& asked_after(config, next, tick, asked_after(config, state, tick, asked))
                == asked.push(tick_messages(config, tick)[0]).push(tick_messages(config, tick)[0])
        }),
{
    let messages = tick_messages(config, tick);
    let answers = seq![Some(AnswerView::Failed(error))];
    assert(messages.drop_last() =~= seq![]);
    assert(answers.drop_last() =~= seq![]);
    reveal_with_fuel(all_settled, 2);
}

/// Several ticks in a row, given what the sink answered at each: the state behind them, and the
/// outcome of each.
pub open spec fn ticks_done(
    config: SchedulerConfig,
    state: FacadeState,
    ticks: Seq<SchedulerTick>,
    answers: Seq<Seq<Option<AnswerView>>>,
) -> (FacadeState, Seq<TickOutcomeView>)
    decreases ticks.len(),
{
    if ticks.len() == 0 {
        (state, seq![])
    } else {
        let (before, outcomes) = ticks_done(
            config,
            state,
            ticks.drop_last(),
            answers.drop_last(),
        );
        let (next, outcome) = tick_done(config, before, ticks.last(), answers.last());
        (next, outcomes.push(outcome))
    }
}

pub open spec fn all_enqueued(outcomes: Seq<TickOutcomeView>) -> nat
    decreases outcomes.len(),
{
    if outcomes.len() == 0 {
        0
    } else {
        all_enqueued(outcomes.drop_last()) + outcomes.last().enqueued
    }
}

pub open spec fn all_duplicates(outcomes: Seq<TickOutcomeView>) -> nat
    decreases outcomes.len(),
{
    if outcomes.len() == 0 {
        0
    } else {
        all_duplicates(outcomes.drop_last()) + outcomes.last().duplicates
    }
}

pub open spec fn all_failures(outcomes: Seq<TickOutcomeView>) -> nat
    decreases outcomes.len(),
{
    if outcomes.len() == 0 {
        0
    } else {
        all_failures(outcomes.drop_last()) + outcomes.last().failures
    }
}

proof fn lemma_tick_counts(
    config: SchedulerConfig,
    state: FacadeState,
    tick: SchedulerTick,
    answers: Seq<Option<AnswerView>>,
)
    requires
        state.status.enqueued < u64::MAX,
        state.status.duplicates < u64::MAX,
        state.status.failures < u64::MAX,
    ensures
        ({
            let (next, outcome) = tick_done(config, state, tick, answers);
            &&& next.status.enqueued == state.status.enqueued + outcome.enqueued
            &&& next.status.duplicates == state.status.duplicates + outcome.duplicates
            &&& next.status.failures == state.status.failures + outcome.failures
            &&& outcome.enqueued + outcome.duplicates + outcome.failures <= 1
            &&& next.status.ticks == if config.spec_enabled() {
                saturating_next(state.status.ticks)
            } else {
                state.status.ticks
            }
            &&& next.status.skipped_disabled == if config.spec_enabled() {
                state.status.skipped_disabled
            } else {
                saturating_next(state.status.skipped_disabled)
            }
        }),
{
    lemma_tick_is_bounded(config, tick);
    reveal_with_fuel(all_settled, 2);
}

/// From a new facade on, the counts of the status are the sums of what the ticks counted; an
/// enabled facade has counted every tick, a disabled one has skipped every tick.
pub proof fn lemma_status_counts_the_ticks(
    config: SchedulerConfig,
    state: FacadeState,
    ticks: Seq<SchedulerTick>,
    answers: Seq<Seq<Option<AnswerView>>>,
)
    requires
        state.status.ticks == 0,
        state.status.enqueued == 0,
        state.status.duplicates == 0,
        state.status.failures == 0,
        state.status.skipped_disabled == 0,
        ticks.len() <= u64::MAX,
    ensures
        ({
            let (last, outcomes) = ticks_done(config, state, ticks, answers);
            &&& outcomes.len() == ticks.len()
            &&& last.status.enqueued == all_enqueued(outcomes)
            &&& last.status.duplicates == all_duplicates(outcomes)
            &&& last.status.failures == all_failures(outcomes)
            &&& last.status.enqueued + last.status.duplicates + last.status.failures
                <= ticks.len()
            &&& last.status.ticks == if config.spec_enabled() {
                ticks.len()
            } else {
                0
            }
            &&& last.status.skipped_disabled == if config.spec_enabled() {
                0
            } else {
                ticks.len()
            }
        }),
    decreases ticks.len(),
{
    if ticks.len() > 0 {
        let earlier = ticks.drop_last();
        lemma_status_counts_the_ticks(config, state, earlier, answers.drop_last());
        let (before, outcomes) = ticks_done(config, state, earlier, answers.drop_last());
        lemma_tick_counts(config, before, ticks.last(), answers.last());
        let outcome = tick_done(config, before, ticks.last(), answers.last()).1;
        assert(outcomes.push(outcome).drop_last() =~= outcomes);
    }
}

} // verus!
