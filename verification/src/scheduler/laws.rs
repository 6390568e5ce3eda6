//! What the scheduler suggests, and in which words.
use vstd::prelude::*;

use crate::scheduler::policy::{
    evaluate, ProactiveAction, ProactivePlanView, ProactiveSchedulerRequest,
    ProactiveSchedulerResult, ProactiveTrigger, QuietHours,
};
use crate::scheduler::sink::ProactiveSink;
use crate::scheduler::template::{
    render_love_letter, GeneratedTemplate, MailboxItemKind, TemplateContext,
};
use crate::scheduler::worker::{
    messages_view, plan_message, plan_tick, settled, tick_done, tick_messages, tick_suppression,
    trigger_text, with_key, AnswerView, FacadeState, ScheduledMessageView, SchedulerConfig,
    SchedulerFacade, SchedulerTick, TickOutcomeView, TickPlan, WorkerLifecycle,
    MAX_ENQUEUES_PER_TICK, MAX_IDEMPOTENCY_KEYS, MIN_WORKER_INTERVAL,
};
use crate::text::{
    compact_of, is_space, lemma_compact_bounded, lemma_trim_of_padded, occurs_at, occurs_in,
    trim_of,
};

verus! {

// ---------------------------------------------------------------------------
// When something is suggested
// ---------------------------------------------------------------------------
/// Quiet hours last from their start to their end, over midnight if need be, and all day where
/// the two are the same.
pub proof fn lemma_quiet_hours_run_from_start_to_end(hours: QuietHours, minute: u16, r: bool)
    requires
        call_ensures(QuietHours::contains, (&hours, minute), r),
        hours.start < 1440,
        hours.end < 1440,
        minute < 1440,
    ensures
        r <==> hours.start == hours.end || (minute - hours.start + 1440) % 1440 < (hours.end
            - hours.start + 1440) % 1440,
{
}

/// The host allows a suggestion now: neither limit is reached, and it is not in the quiet hours.
pub open spec fn is_allowed_now(request: ProactiveSchedulerRequest) -> bool {
    &&& request.proactive_in_session < request.max_per_session
    &&& request.proactive_today < request.max_per_day
    &&& request.quiet_hours matches Some(hours) ==> !hours.covers(request.now_minute_of_day)
}

/// There is something to suggest. While a tool is asked for nothing else is.
pub open spec fn has_occasion(request: ProactiveSchedulerRequest) -> bool {
    if request.tool_request is Some {
        request.tool_requests_allowed
    } else {
        ||| request.reminder_due
        ||| request.unfinished_task is Some
        ||| request.idle_minutes >= 120
        ||| request.topic_continuation is Some
        ||| request.periodic_summary_due
        ||| request.relationship_milestone is Some
    }
}

/// One thing is suggested exactly if it is allowed and there is an occasion; otherwise a reason is
/// given.
pub proof fn lemma_suggestions_need_leave_and_occasion(
    request: ProactiveSchedulerRequest,
    r: ProactiveSchedulerResult,
)
    requires
        call_ensures(evaluate, (&request,), r),
    ensures
        r.plans@.len() == 1 <==> is_allowed_now(request) && has_occasion(request),
        r.plans@.len() <= 1,
        r.suppressed_reason is None <==> r.plans@.len() == 1,
{
}

proof fn lemma_said_between(before: Seq<char>, said: Seq<char>, after: Seq<char>)
    ensures
        occurs_in(before + said + after, said),
{
    let whole = before + said + after;
    assert(whole.subrange(before.len() as int, (before.len() + said.len()) as int) =~= said);
    assert(occurs_at(whole, said, before.len() as int));
}

/// The most pressing occasion is taken up: a tool that is asked for, then a reminder, an
/// unfinished task, a long pause, a topic, a summary and a milestone. Where something was observed
/// in words, the message says these words.
pub proof fn lemma_most_pressing_occasion_is_taken_up(
    request: ProactiveSchedulerRequest,
    r: ProactiveSchedulerResult,
)
    requires
        call_ensures(evaluate, (&request,), r),
        r.plans@.len() == 1,
    ensures
        ({
            let plan = r.plans@[0]@;
            &&& request.tool_request matches Some(tool) ==> plan.action
                == ProactiveAction::AskPermissionForTool && plan.requires_user_confirmation
                && occurs_in(plan.message, compact_of(tool@, 80))
            &&& request.tool_request is None ==> {
                &&& !plan.requires_user_confirmation
                &&& plan.action != ProactiveAction::AskPermissionForTool
                &&& request.reminder_due ==> plan.trigger == ProactiveTrigger::ReminderDue
                &&& !request.reminder_due ==> {
                    &&& request.unfinished_task matches Some(task) ==> plan.trigger
                        == ProactiveTrigger::UnfinishedTask && plan.action
                        == ProactiveAction::SuggestNextStep && occurs_in(
                        plan.message,
                        compact_of(task@, 80),
                    )
                    &&& request.unfinished_task is None ==> {
                        &&& request.idle_minutes >= 120 ==> plan.trigger
                            == ProactiveTrigger::LongIdleCheckIn
                        &&& request.idle_minutes < 120 ==> {
                            &&& request.topic_continuation matches Some(topic) ==> plan.trigger
                                == ProactiveTrigger::TopicContinuation && occurs_in(
                                plan.message,
                                compact_of(topic@, 80),
                            )
                            &&& request.topic_continuation is None ==> {
                                &&& request.periodic_summary_due ==> plan.trigger
                                    == ProactiveTrigger::PeriodicSummary && plan.action
                                    == ProactiveAction::SummarizeStage
                                &&& !request.periodic_summary_due ==> plan.trigger
                                    == ProactiveTrigger::RelationshipMilestone && (
                                request.relationship_milestone matches Some(change) && occurs_in(
                                    plan.message,
                                    compact_of(change@, 80),
                                ))
                            }
                        }
                    }
                }
            }
        }),
{
    if let Some(tool) = request.tool_request {
        lemma_said_between(
            "如果你确认，我可以请求执行："@,
            compact_of(tool@, 80),
            "。"@,
        );
    }
    if let Some(task) = request.unfinished_task {
        lemma_said_between("轻提示：还可以继续处理“"@, compact_of(task@, 80), "”。"@);
    }
    if let Some(topic) = request.topic_continuation {
        lemma_said_between("可以继续关注“"@, compact_of(topic@, 80), "”。"@);
    }
    if let Some(change) = request.relationship_milestone {
        lemma_said_between("最近的上下文有变化："@, compact_of(change@, 80), "。"@);
    }
}

// ---------------------------------------------------------------------------
// What is handed over
// ---------------------------------------------------------------------------
/// A tick hands over what the policy suggests: as a proactive message with the words and the
/// reason of the plan. The local letter steps in only where it is asked for and nothing at all was
/// observed.
pub proof fn lemma_ticks_hand_over_the_plan(
    config: SchedulerConfig,
    tick: SchedulerTick,
    request: ProactiveSchedulerRequest,
    decided: ProactiveSchedulerResult,
    planned: TickPlan,
)
    requires
        request == tick.spec_request(),
        call_ensures(evaluate, (&request,), decided),
        call_ensures(plan_tick, (&config, &tick), planned),
    ensures
        decided.plans@.len() == 1 ==> {
            &&& planned.messages@.len() == 1
            &&& planned.messages@[0]@.kind == MailboxItemKind::ProactiveMessage
            &&& planned.messages@[0]@.content == compact_of(decided.plans@[0]@.message, 65536)
            &&& planned.messages@[0]@.reason == compact_of(decided.plans@[0]@.reason, 500)
            &&& !planned.template_generated
            &&& planned.suppressed_reason is None
        },
        decided.plans@.len() == 0 ==> {
            &&& planned.messages@.len() == 1 <==> planned.template_generated
            &&& planned.messages@.len() <= 1
            &&& planned.template_generated ==> config.spec_template() && tick.spec_template() is Some
                && !request.signals() && planned.messages@[0]@.kind == MailboxItemKind::LoveLetter
            &&& config.spec_template() && tick.spec_template() is Some && !request.signals()
                ==> planned.template_generated
            &&& decided.suppressed_reason is Some && planned.suppressed_reason is Some
                && decided.suppressed_reason->0@ == planned.suppressed_reason->0@
        },
{
    let all = messages_view(planned.messages@);
    assert(all.len() == planned.messages@.len());
    if all.len() > 0 {
        assert(all[0] == planned.messages@[0]@);
    }
    reveal_strlit("no_signal");
    reveal_strlit("session_limit_reached");
    reveal_strlit("daily_limit_reached");
    reveal_strlit("quiet_hours");
    reveal_strlit("tool_requests_disabled");
    reveal_strlit("no_action");
    assert("no_signal"@[3] == 's');
    assert("no_action"@[3] == 'a');
    assert("no_signal"@.len() != "session_limit_reached"@.len());
    assert("no_signal"@.len() != "daily_limit_reached"@.len());
    assert("no_signal"@.len() != "quiet_hours"@.len());
    assert("no_signal"@.len() != "tool_requests_disabled"@.len());
}

/// The text starts and ends with something to see.
pub open spec fn has_firm_ends(text: Seq<char>) -> bool {
    text.len() > 0 && !is_space(text[0]) && !is_space(text.last())
}

proof fn lemma_firm_text_is_kept(text: Seq<char>, max: nat)
    requires
        has_firm_ends(text),
        text.len() <= max,
    ensures
        compact_of(text, max) == text,
{
    let nothing: Seq<char> = Seq::empty();
    lemma_trim_of_padded(nothing, text, nothing);
    assert(nothing + text + nothing =~= text);
}

/// What is suggested for two scopes has two keys, and what is suggested for one scope again has
/// the same: nothing is handed over twice, and nobody's message is taken for another's.
pub proof fn lemma_keys_tell_scopes_apart(
    one: Seq<char>,
    other: Seq<char>,
    plan: ProactivePlanView,
)
    requires
        has_firm_ends(plan.reason),
        one.len() + plan.reason.len() <= 200,
        other.len() + plan.reason.len() <= 200,
    ensures
        plan_message(one, plan).key == plan_message(other, plan).key <==> one == other,
{
    reveal_strlit("proactive:");
    reveal_strlit(":");
    reveal_strlit("reminder_due");
    reveal_strlit("unfinished_task");
    reveal_strlit("long_idle_check_in");
    reveal_strlit("topic_continuation");
    reveal_strlit("periodic_summary");
    reveal_strlit("relationship_milestone");
    let front = "proactive:"@;
    let back = ":"@ + trigger_text(plan.trigger) + ":"@ + plan.reason;
    let a = front + one + ":"@ + trigger_text(plan.trigger) + ":"@ + plan.reason;
    let b = front + other + ":"@ + trigger_text(plan.trigger) + ":"@ + plan.reason;
    assert(a =~= front + one + back);
    assert(b =~= front + other + back);
    assert(a.last() == plan.reason.last());
    assert(b.last() == plan.reason.last());
    assert(a[0] == 'p' && b[0] == 'p');
    lemma_firm_text_is_kept(a, 256);
    lemma_firm_text_is_kept(b, 256);
    if a == b {
        assert(one.len() == other.len());
        assert(one =~= a.subrange(front.len() as int, (front.len() + one.len()) as int));
        assert(other =~= b.subrange(front.len() as int, (front.len() + other.len()) as int));
    }
}

/// A letter addresses its recipient and says what it is about.
pub proof fn lemma_letters_say_whom_and_what(
    recipient: &str,
    focus: &str,
    context: TemplateContext,
    r: GeneratedTemplate,
)
    requires
        call_ensures(TemplateContext::new, (recipient, focus), context),
        call_ensures(render_love_letter, (&context,), r),
    ensures
        r.spec_kind() == MailboxItemKind::LoveLetter,
        trim_of(recipient@).len() > 0 ==> occurs_in(r.content_text(), compact_of(recipient@, 160)),
        trim_of(focus@).len() > 0 ==> occurs_in(r.content_text(), compact_of(focus@, 160)),
{
    reveal_strlit("给");
    reveal_strlit("你");
    reveal_strlit("眼前的事情");
    reveal_strlit("：\n\n今天也辛苦了。关于“");
    reveal_strlit(
        "”，不用急着一次做完，能向前一点就已经很好。等你准备好时，我会在这里陪你继续。\n\n云熙",
    );
    reveal_strlit("...");
    lemma_compact_bounded(recipient@, 160);
    lemma_compact_bounded(focus@, 160);
    let whom = if context.recipient_text().len() == 0 {
        "你"@
    } else {
        context.recipient_text()
    };
    let what = if context.focus_text().len() == 0 {
        "眼前的事情"@
    } else {
        context.focus_text()
    };
    let first = "给"@;
    let second = "：\n\n今天也辛苦了。关于“"@;
    let third = "”，不用急着一次做完，能向前一点就已经很好。等你准备好时，我会在这里陪你继续。\n\n云熙"@;
    let text = first + whom + second + what + third;
    assert(text[0] == first[0]);
    assert(text.last() == third.last());
    lemma_firm_text_is_kept(text, 2000);
    assert(r.content_text() == text);
    assert(text =~= first + whom + (second + what + third));
    lemma_said_between(first, whom, second + what + third);
    assert(text =~= (first + whom + second) + what + third);
    lemma_said_between(first + whom + second, what, third);
}

// ---------------------------------------------------------------------------
// What is remembered and counted
// ---------------------------------------------------------------------------
/// A key is remembered as the newest one, unless it was known; every other key stays, but for the
/// oldest where there is no more room.
pub proof fn lemma_keys_are_remembered(keys: Seq<Seq<char>>, key: Seq<char>, other: Seq<char>)
    requires
        keys.len() <= MAX_IDEMPOTENCY_KEYS,
        keys.no_duplicates(),
    ensures
        with_key(keys, key).contains(key),
        with_key(keys, key).len() <= MAX_IDEMPOTENCY_KEYS,
        keys.contains(other) && (keys.len() < MAX_IDEMPOTENCY_KEYS || keys.contains(key) || other
            != keys[0]) ==> with_key(keys, key).contains(other),
        with_key(keys, key).contains(other) && other != key ==> keys.contains(other),
        keys.contains(key) ==> with_key(keys, key) == keys,
        !keys.contains(key) ==> with_key(keys, key).last() == key,
{
    let after = with_key(keys, key);
    if !keys.contains(key) {
        assert(after.last() == key);
        assert(after[after.len() - 1] == key);
        let gone: int = if keys.len() < MAX_IDEMPOTENCY_KEYS {
            0
        } else {
            1
        };
        assert forall|k: int| gone <= k < keys.len() implies after[k - gone] == #[trigger] keys[k] by {}
        if keys.contains(other) {
            let k = choose|k: int| 0 <= k < keys.len() && keys[k] == other;
            if k >= gone {
                assert(after[k - gone] == other);
            }
        }
        if after.contains(other) && other != key {
            let k = choose|k: int| 0 <= k < after.len() && after[k] == other;
            assert(keys[k + gone] == other);
        }
    }
}

/// Each message is counted once, as what became of it: handed over, known already, or failed. A
/// message that the sink has is remembered; one that failed is not, and its failure is told.
pub proof fn lemma_messages_are_counted_as_what_they_were(
    state: FacadeState,
    outcome: TickOutcomeView,
    message: ScheduledMessageView,
    answer: Option<AnswerView>,
)
    requires
        state.status.enqueued < u64::MAX,
        state.status.duplicates < u64::MAX,
        state.status.failures < u64::MAX,
        state.keys.len() <= MAX_IDEMPOTENCY_KEYS,
        state.keys.no_duplicates(),
    ensures
        ({
            let (after, told) = settled(state, outcome, message, answer);
            let taken = answer == Some(AnswerView::Created);
            let known = answer is None || answer == Some(AnswerView::AlreadyPresent);
            let failed = !taken && !known;
            &&& told.enqueued == outcome.enqueued + (if taken { 1int } else { 0int })
            &&& told.duplicates == outcome.duplicates + (if known { 1int } else { 0int })
            &&& told.failures == outcome.failures + (if failed { 1int } else { 0int })
            &&& after.status.enqueued == state.status.enqueued + (if taken { 1int } else { 0int })
            &&& after.status.duplicates == state.status.duplicates + (if known {
                1int
            } else {
                0int
            })
            &&& after.status.failures == state.status.failures + (if failed { 1int } else { 0int })
            &&& after.status.ticks == state.status.ticks
            &&& answer is Some && !failed ==> after.keys.contains(message.key)
            &&& failed || answer is None ==> after.keys == state.keys
            &&& answer matches Some(AnswerView::Failed(error)) ==> after.status.last_error == Some(
                compact_of(error, 1024),
            )
            &&& !failed ==> after.status.last_error == state.status.last_error
        }),
{
    lemma_keys_are_remembered(state.keys, message.key, message.key);
}

/// A tick of a facade that is on counts as a tick, and tells why nothing was suggested; one of a
/// facade that is off does neither.
pub proof fn lemma_ticks_are_counted(
    config: SchedulerConfig,
    state: FacadeState,
    tick: SchedulerTick,
    answers: Seq<Option<AnswerView>>,
)
    requires
        state.status.ticks < u64::MAX,
        state.status.skipped_disabled < u64::MAX,
        tick_messages(config, tick).len() == 0,
    ensures
        ({
            let (after, told) = tick_done(config, state, tick, answers);
            &&& config.spec_enabled() ==> after.status.ticks == state.status.ticks + 1
                && after.status.skipped_disabled == state.status.skipped_disabled
                && after.status.last_suppressed_reason == told.suppressed_reason
                && told.suppressed_reason == tick_suppression(tick)
            &&& !config.spec_enabled() ==> after.status.ticks == state.status.ticks
                && after.status.skipped_disabled == state.status.skipped_disabled + 1
            &&& after.keys == state.keys
            &&& told.enqueued == 0 && told.duplicates == 0 && told.failures == 0
        }),
{
}

/// How often a worker looks and how much it hands over is what it is told, as far as it is within
/// bounds; nothing else of it changes.
pub proof fn lemma_workers_keep_within_bounds(
    config: SchedulerConfig,
    interval: u64,
    maximum: usize,
    paced: SchedulerConfig,
    limited: SchedulerConfig,
)
    requires
        call_ensures(SchedulerConfig::with_interval, (config, interval), paced),
        call_ensures(SchedulerConfig::with_max_enqueues_per_tick, (config, maximum), limited),
    ensures
        paced.spec_interval() >= MIN_WORKER_INTERVAL,
        interval >= MIN_WORKER_INTERVAL ==> paced.spec_interval() == interval,
        interval < MIN_WORKER_INTERVAL ==> paced.spec_interval() == MIN_WORKER_INTERVAL,
        paced.spec_enabled() == config.spec_enabled() && limited.spec_enabled()
            == config.spec_enabled(),
        paced.spec_maximum() == config.spec_maximum() && limited.spec_interval()
            == config.spec_interval(),
        paced.spec_template() == config.spec_template() && limited.spec_template()
            == config.spec_template(),
        1 <= limited.spec_maximum() <= MAX_ENQUEUES_PER_TICK,
        1 <= maximum <= MAX_ENQUEUES_PER_TICK ==> limited.spec_maximum() == maximum,
{
}

/// A worker runs only if it is on, stops only if it ran, and is marked as stopped unless it is off;
/// none of this touches anything else of it.
pub proof fn lemma_workers_come_and_go<S: ProactiveSink>(
    started: &mut SchedulerFacade<S>,
    stopping: &mut SchedulerFacade<S>,
    stopped: &mut SchedulerFacade<S>,
)
    requires
        call_ensures(SchedulerFacade::<S>::mark_running, (started,), ()),
        call_ensures(SchedulerFacade::<S>::mark_stopping, (stopping,), ()),
        call_ensures(SchedulerFacade::<S>::mark_stopped, (stopped,), ()),
    ensures
        old(started).spec_config().spec_enabled() ==> final(started).state().status.lifecycle
            == WorkerLifecycle::Running,
        !old(started).spec_config().spec_enabled() ==> final(started).state().status.lifecycle
            == old(started).state().status.lifecycle,
        old(stopping).state().status.lifecycle == WorkerLifecycle::Running
            <==> final(stopping).state().status.lifecycle == WorkerLifecycle::Stopping
            && old(stopping).state().status.lifecycle != WorkerLifecycle::Stopping,
        old(stopped).state().status.lifecycle == WorkerLifecycle::Disabled
            <==> final(stopped).state().status.lifecycle == WorkerLifecycle::Disabled,
        old(stopped).state().status.lifecycle != WorkerLifecycle::Disabled
            ==> final(stopped).state().status.lifecycle == WorkerLifecycle::Stopped,
        final(started).state().keys == old(started).state().keys && final(stopping).state().keys
            == old(stopping).state().keys && final(stopped).state().keys
            == old(stopped).state().keys,
        final(started).state().status.enqueued == old(started).state().status.enqueued
            && final(stopping).state().status.enqueued == old(stopping).state().status.enqueued
            && final(stopped).state().status.enqueued == old(stopped).state().status.enqueued,
{
}

} // verus!
