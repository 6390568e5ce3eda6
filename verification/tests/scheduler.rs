//! The proactive policy, its templates and the tick facade.
use std::sync::atomic::{AtomicUsize, Ordering};
use std::sync::{Arc, Mutex};

use yunxi::plugin::dispatch::{dispatch, HostAction, HostMessage, Reply};
use yunxi::scheduler::plugin::{contract, respond, SCHEDULER_PLUGIN_ID};
use yunxi::scheduler::policy::{
    evaluate, ProactiveAction, ProactiveSchedulerRequest, QuietHours,
};
use yunxi::scheduler::sink::{EnqueueDisposition, ProactiveSink, SchedulerSinkError};
use yunxi::scheduler::template::{
    render_love_letter, MailboxItemKind, TemplateContext, TemplateSource,
    MAX_TEMPLATE_FIELD_CHARS, MAX_TEMPLATE_MESSAGE_CHARS,
};
use yunxi::scheduler::worker::{
    ScheduledMessage, SchedulerConfig, SchedulerFacade, SchedulerTick, WorkerLifecycle,
    MAX_ENQUEUES_PER_TICK, MIN_WORKER_INTERVAL,
};

struct CountingSink {
    calls: Arc<AtomicUsize>,
    answer: Result<EnqueueDisposition, SchedulerSinkError>,
}

impl ProactiveSink for CountingSink {
    fn enqueue(&self, _message: &ScheduledMessage) -> Result<EnqueueDisposition, SchedulerSinkError> {
        self.calls.fetch_add(1, Ordering::SeqCst);
        self.answer.clone()
    }
}

struct KeepingSink {
    kinds: Arc<Mutex<Vec<MailboxItemKind>>>,
}

impl ProactiveSink for KeepingSink {
    fn enqueue(&self, message: &ScheduledMessage) -> Result<EnqueueDisposition, SchedulerSinkError> {
        self.kinds.lock().expect("lock").push(message.kind());
        Ok(EnqueueDisposition::Created)
    }
}

fn reminder(scope: &str) -> SchedulerTick {
    let mut request = ProactiveSchedulerRequest::new(12 * 60);
    request.reminder_due = true;
    SchedulerTick::new(request, scope)
}

fn counting(
    config: SchedulerConfig,
    answer: Result<EnqueueDisposition, SchedulerSinkError>,
) -> (SchedulerFacade<CountingSink>, Arc<AtomicUsize>) {
    let calls = Arc::new(AtomicUsize::new(0));
    let sink = CountingSink { calls: Arc::clone(&calls), answer };
    (SchedulerFacade::new(config, sink), calls)
}

#[test]
fn quiet_hours_suppress_due_reminder() {
    let mut request = ProactiveSchedulerRequest::new(23 * 60);
    request.reminder_due = true;
    request.quiet_hours = Some(QuietHours::new(22 * 60, 7 * 60).expect("quiet hours"));
    let result = evaluate(&request);
    assert!(result.plans.is_empty());
    assert_eq!(result.suppressed_reason.as_deref(), Some("quiet_hours"));
}

#[test]
fn tool_plan_never_executes_and_requires_confirmation() {
    let mut request = ProactiveSchedulerRequest::new(12 * 60);
    request.tool_request = Some("open notes".to_string());
    request.tool_requests_allowed = true;
    let result = evaluate(&request);
    assert_eq!(result.plans.len(), 1);
    assert!(result.plans[0].requires_user_confirmation);
    assert_eq!(result.plans[0].action, ProactiveAction::AskPermissionForTool);
}

#[test]
fn fallback_is_deterministic_and_explicitly_local() {
    let context = TemplateContext::new("小云", "整理路线图");
    let first = render_love_letter(&context);
    let second = render_love_letter(&context);
    assert_eq!(first, second);
    assert_eq!(first.kind(), MailboxItemKind::LoveLetter);
    assert_eq!(first.source(), TemplateSource::LocalDeterministic);
    assert!(first.content().contains("整理路线图"));
}

#[test]
fn template_fields_are_bounded() {
    let context = TemplateContext::new(&"x".repeat(500), &"y".repeat(500));
    let message = render_love_letter(&context);
    assert!(context.recipient().chars().count() <= MAX_TEMPLATE_FIELD_CHARS);
    assert!(message.content().chars().count() <= MAX_TEMPLATE_MESSAGE_CHARS);
}

#[test]
fn disabled_facade_does_not_call_sink() {
    let (mut facade, calls) = counting(SchedulerConfig::new(), Ok(EnqueueDisposition::Created));
    let outcome = facade.process_tick(reminder("disabled"));
    assert_eq!(outcome.suppressed_reason(), Some("disabled"));
    assert_eq!(calls.load(Ordering::SeqCst), 0);
    assert_eq!(facade.status().lifecycle(), WorkerLifecycle::Disabled);
}

#[test]
fn repeated_ticks_are_idempotent_and_quiet_hours_suppress() {
    let (mut facade, calls) =
        counting(SchedulerConfig::new().enabled(true), Ok(EnqueueDisposition::Created));
    let first = facade.process_tick(reminder("same"));
    let second = facade.process_tick(reminder("same"));
    assert_eq!(first.enqueued(), 1);
    assert_eq!(second.duplicates(), 1);
    assert_eq!(calls.load(Ordering::SeqCst), 1);
    let mut request = ProactiveSchedulerRequest::new(23 * 60);
    request.reminder_due = true;
    request.quiet_hours = QuietHours::new(22 * 60, 7 * 60);
    let quiet = SchedulerTick::new(request, "quiet");
    assert_eq!(facade.process_tick(quiet).suppressed_reason(), Some("quiet_hours"));
}

#[test]
fn deterministic_template_is_used_only_when_explicitly_enabled() {
    let kinds = Arc::new(Mutex::new(Vec::new()));
    let sink = KeepingSink { kinds: Arc::clone(&kinds) };
    let mut facade = SchedulerFacade::new(
        SchedulerConfig::new().enabled(true).with_template_fallback(true),
        sink,
    );
    let tick = SchedulerTick::new(ProactiveSchedulerRequest::new(12 * 60), "template")
        .with_template(TemplateContext::new("小云", "下一步"));
    let outcome = facade.process_tick(tick);
    assert_eq!(outcome.enqueued(), 1);
    assert!(outcome.template_generated());
    assert_eq!(kinds.lock().expect("lock")[0], MailboxItemKind::LoveLetter);
}

#[test]
fn templates_stay_unused_unless_enabled() {
    let (mut facade, calls) =
        counting(SchedulerConfig::new().enabled(true), Ok(EnqueueDisposition::Created));
    let tick = SchedulerTick::new(ProactiveSchedulerRequest::new(12 * 60), "template")
        .with_template(TemplateContext::new("小云", "下一步"));
    let outcome = facade.process_tick(tick);
    assert_eq!(outcome.enqueued(), 0);
    assert!(!outcome.template_generated());
    assert_eq!(outcome.suppressed_reason(), Some("no_signal"));
    assert_eq!(calls.load(Ordering::SeqCst), 0);
}

#[test]
fn sink_failures_are_counted_and_tried_again() {
    let (mut facade, calls) = counting(
        SchedulerConfig::new().enabled(true),
        Err(SchedulerSinkError::new("sink unavailable")),
    );
    let first = facade.process_tick(reminder("worker"));
    let second = facade.process_tick(reminder("worker"));
    assert_eq!(first.failures(), 1);
    assert_eq!(second.failures(), 1);
    assert_eq!(calls.load(Ordering::SeqCst), 2);
    let status = facade.status();
    assert_eq!(status.failures(), 2);
    assert!(status.last_error().expect("error").contains("sink unavailable"));
    facade.mark_running();
    assert_eq!(facade.status().lifecycle(), WorkerLifecycle::Running);
    facade.mark_stopping();
    facade.mark_stopped();
    assert_eq!(facade.status().lifecycle(), WorkerLifecycle::Stopped);
}

#[test]
fn the_next_request_is_what_a_tick_would_hand_over() {
    let (disabled, _) = counting(SchedulerConfig::new(), Ok(EnqueueDisposition::Created));
    assert!(disabled.next_request(&reminder("worker")).is_none());

    let (mut facade, calls) =
        counting(SchedulerConfig::new().enabled(true), Ok(EnqueueDisposition::Created));
    let idle = SchedulerTick::new(ProactiveSchedulerRequest::new(12 * 60), "worker");
    assert!(facade.next_request(&idle).is_none());
    let request = facade.next_request(&reminder("worker")).expect("request");
    assert!(request.idempotency_key().starts_with("proactive:worker:"));
    assert_eq!(calls.load(Ordering::SeqCst), 0);
    facade.process_tick(reminder("worker"));
    assert!(facade.next_request(&reminder("worker")).is_none());
    assert!(facade.next_request(&reminder("another")).is_some());
    facade.process_tick(reminder("worker"));
    assert_eq!(calls.load(Ordering::SeqCst), 1);
}

#[test]
fn last_error_is_the_text_of_the_sink_error() {
    let error = SchedulerSinkError::new(&format!("  {}  ", "x".repeat(2_000)));
    assert_eq!(error.to_string(), format!("{}...", "x".repeat(1_021)));
    let (mut facade, _) =
        counting(SchedulerConfig::new().enabled(true), Err(error.clone()));
    facade.process_tick(reminder("worker"));
    assert_eq!(facade.status().last_error(), Some(error.to_string().as_str()));
}

#[test]
fn limits_come_before_signals() {
    let mut request = ProactiveSchedulerRequest::new(12 * 60);
    assert_eq!(evaluate(&request).suppressed_reason.as_deref(), Some("no_signal"));
    request.reminder_due = true;
    request.proactive_in_session = request.max_per_session;
    assert_eq!(
        evaluate(&request).suppressed_reason.as_deref(),
        Some("session_limit_reached")
    );
    request.proactive_in_session = 0;
    request.proactive_today = request.max_per_day;
    assert_eq!(
        evaluate(&request).suppressed_reason.as_deref(),
        Some("daily_limit_reached")
    );
}

#[test]
fn quiet_hours_may_wrap_around_midnight() {
    let night = QuietHours::new(22 * 60, 7 * 60).expect("quiet hours");
    assert!(night.contains(23 * 60));
    assert!(night.contains(0));
    assert!(!night.contains(12 * 60));
    let noon = QuietHours::new(11 * 60, 13 * 60).expect("quiet hours");
    assert!(noon.contains(12 * 60));
    assert!(!noon.contains(13 * 60));
    assert!(QuietHours::new(24 * 60, 1).is_none());
}

#[test]
fn configuration_keeps_its_bounds() {
    let config = SchedulerConfig::new().with_interval(1).with_max_enqueues_per_tick(1_000);
    assert_eq!(config.interval(), MIN_WORKER_INTERVAL);
    assert_eq!(config.max_enqueues_per_tick(), MAX_ENQUEUES_PER_TICK);
    assert!(!config.is_enabled());
    assert!(!config.template_fallback_enabled());
}

#[test]
fn scheduler_plugin_answers_what_it_offers() {
    assert_eq!(SCHEDULER_PLUGIN_ID, "yunxi.scheduler");
    let contract = contract("scheduler.proactive", 1, vec!["evaluate".to_string()]);
    let known = HostMessage::Invoke {
        request_id: 7,
        capability: "scheduler.proactive".to_string(),
        version: 1,
        operation: "evaluate".to_string(),
    };
    assert!(matches!(
        dispatch(&contract, known),
        HostAction::Run { request_id: 7, operation } if operation == "evaluate"
    ));
    let unknown = HostMessage::Invoke {
        request_id: 8,
        capability: "scheduler.proactive".to_string(),
        version: 2,
        operation: "evaluate".to_string(),
    };
    assert!(matches!(
        dispatch(&contract, unknown),
        HostAction::Refuse { request_id: 8, code: "unsupported_operation", message }
            if message == "scheduler plugin does not support the requested operation"
    ));
    assert!(matches!(dispatch(&contract, HostMessage::Shutdown), HostAction::Stop));
    assert!(matches!(dispatch(&contract, HostMessage::Cancel), HostAction::Ignore));
    assert!(matches!(
        dispatch(&contract, HostMessage::Welcome),
        HostAction::Abort { message: "received a second welcome after readiness" }
    ));
    let mut request = ProactiveSchedulerRequest::new(12 * 60);
    request.reminder_due = true;
    assert!(matches!(
        respond(7, Ok(request)),
        Reply::Completed { request_id: 7, result } if result.plans.len() == 1
    ));
    assert!(matches!(
        respond(9, Err("not a request".to_string())),
        Reply::Failed { request_id: 9, code: "invalid_request", retryable: false, .. }
    ));
}

#[test]
fn the_status_adds_up_what_the_ticks_counted() {
    let (mut facade, calls) =
        counting(SchedulerConfig::new().enabled(true), Ok(EnqueueDisposition::AlreadyPresent));
    let mut duplicates = 0;
    for scope in ["a", "b", "a", "c"] {
        duplicates += facade.process_tick(reminder(scope)).duplicates();
    }
    assert_eq!(duplicates, 4);
    assert_eq!(calls.load(Ordering::SeqCst), 3);
    assert_eq!(facade.status().duplicates(), 4);
    assert_eq!(facade.status().enqueued(), 0);
    assert_eq!(facade.status().ticks(), 4);
    assert_eq!(facade.status().skipped_disabled(), 0);
    let (mut off, _) = counting(SchedulerConfig::new(), Ok(EnqueueDisposition::Created));
    for scope in ["a", "b"] {
        off.process_tick(reminder(scope));
    }
    assert_eq!(off.status().ticks(), 0);
    assert_eq!(off.status().skipped_disabled(), 2);
}
