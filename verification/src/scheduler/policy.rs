//! Pure proactive scheduling policy with no side effects.
use vstd::prelude::*;
use vstd::string::StringExecFns;

use crate::text::{compact, compact_of};

verus! {

pub const MINUTES_PER_DAY: u16 = 1440;

/// A daily window in which nothing proactive happens; it may run over midnight.
#[derive(Clone, Copy, Debug, PartialEq, Eq, Structural)]
pub struct QuietHours {
    pub start: u16,
    pub end: u16,
}

impl QuietHours {
    pub open spec fn covers(self, minute: u16) -> bool {
        if self.start < self.end {
            self.start <= minute < self.end
        } else {
            self.start <= minute || minute < self.end
        }
    }

    /// A window between two minutes of the day.
    pub fn new(start: u16, end: u16) -> (r: Option<Self>)
        ensures
            r == if start < MINUTES_PER_DAY && end < MINUTES_PER_DAY {
                Some(QuietHours { start, end })
            } else {
                None::<QuietHours>
            },
    {
        if start < MINUTES_PER_DAY && end < MINUTES_PER_DAY {
            Some(QuietHours { start, end })
        } else {
            None
        }
    }

    pub fn contains(&self, minute: u16) -> (r: bool)
        ensures
            r == self.covers(minute),
    {
        if self.start < self.end {
            self.start <= minute && minute < self.end
        } else {
            self.start <= minute || minute < self.end
        }
    }
}

#[derive(Clone, Copy, Debug, PartialEq, Eq, Structural)]
pub enum ProactiveTrigger {
    ReminderDue,
    UnfinishedTask,
    LongIdleCheckIn,
    TopicContinuation,
    PeriodicSummary,
    RelationshipMilestone,
}

#[derive(Clone, Copy, Debug, PartialEq, Eq, Structural)]
pub enum ProactiveAction {
    AskPermissionForTool,
    MessageOnly,
    SuggestNextStep,
    SummarizeStage,
}

/// What the host has observed, and how much it allows.
#[derive(Clone, Debug)]
pub struct ProactiveSchedulerRequest {
    pub now_minute_of_day: u16,
    pub proactive_in_session: u32,
    pub max_per_session: u32,
    pub proactive_today: u32,
    pub max_per_day: u32,
    pub quiet_hours: Option<QuietHours>,
    pub tool_request: Option<String>,
    pub tool_requests_allowed: bool,
    pub reminder_due: bool,
    pub unfinished_task: Option<String>,
    pub idle_minutes: u32,
    pub topic_continuation: Option<String>,
    pub periodic_summary_due: bool,
    pub relationship_milestone: Option<String>,
}

impl ProactiveSchedulerRequest {
    /// Something was observed that could lead to a plan.
    pub open spec fn signals(self) -> bool {
        ||| self.tool_request is Some
        ||| self.reminder_due
        ||| self.unfinished_task is Some
        ||| self.idle_minutes > 0
        ||| self.topic_continuation is Some
        ||| self.periodic_summary_due
        ||| self.relationship_milestone is Some
    }

    /// A request without any signal that allows one plan per session and per day.
    pub fn new(now_minute_of_day: u16) -> (r: Self)
        ensures
            r == (ProactiveSchedulerRequest {
                now_minute_of_day,
                proactive_in_session: 0,
                max_per_session: 1,
                proactive_today: 0,
                max_per_day: 1,
                quiet_hours: None,
                tool_request: None,
                tool_requests_allowed: false,
                reminder_due: false,
                unfinished_task: None,
                idle_minutes: 0,
                topic_continuation: None,
                periodic_summary_due: false,
                relationship_milestone: None,
            }),
    {
        ProactiveSchedulerRequest {
            now_minute_of_day,
            proactive_in_session: 0,
            max_per_session: 1,
            proactive_today: 0,
            max_per_day: 1,
            quiet_hours: None,
            tool_request: None,
            tool_requests_allowed: false,
            reminder_due: false,
            unfinished_task: None,
            idle_minutes: 0,
            topic_continuation: None,
            periodic_summary_due: false,
            relationship_milestone: None,
        }
    }

    pub fn has_signal(&self) -> (r: bool)
        ensures
            r == self.signals(),
    {
        self.tool_request.is_some() || self.reminder_due || self.unfinished_task.is_some()
            || self.idle_minutes > 0 || self.topic_continuation.is_some()
            || self.periodic_summary_due || self.relationship_milestone.is_some()
    }
}

/// One suggestion; nothing is executed by making it.
#[derive(Clone, Debug)]
pub struct ProactivePlan {
    pub trigger: ProactiveTrigger,
    pub action: ProactiveAction,
    pub reason: String,
    pub message: String,
    pub requires_user_confirmation: bool,
}

pub struct ProactivePlanView {
    pub trigger: ProactiveTrigger,
    pub action: ProactiveAction,
    pub reason: Seq<char>,
    pub message: Seq<char>,
    pub requires_user_confirmation: bool,
}

impl View for ProactivePlan {
    type V = ProactivePlanView;

    open spec fn view(&self) -> ProactivePlanView {
        ProactivePlanView {
            trigger: self.trigger,
            action: self.action,
            reason: self.reason@,
            message: self.message@,
            requires_user_confirmation: self.requires_user_confirmation,
        }
    }
}

#[derive(Clone, Debug)]
pub struct ProactiveSchedulerResult {
    pub plans: Vec<ProactivePlan>,
    pub suppressed_reason: Option<String>,
}

/// The text of an optional string.
pub open spec fn optional_text(value: Option<String>) -> Option<Seq<char>> {
    match value {
        Some(text) => Some(text@),
        None => None,
    }
}

/// An observed text as it is quoted in a message.
pub open spec fn quoted(text: Seq<char>) -> Seq<char> {
    compact_of(text, 80)
}

/// Why nothing may be suggested, whatever was observed.
pub open spec fn suppression(request: ProactiveSchedulerRequest) -> Option<Seq<char>> {
    if !request.signals() {
        Some("no_signal"@)
    } else if request.proactive_in_session >= request.max_per_session {
        Some("session_limit_reached"@)
    } else if request.proactive_today >= request.max_per_day {
        Some("daily_limit_reached"@)
    } else if request.quiet_hours is Some && request.quiet_hours->0.covers(
        request.now_minute_of_day,
    ) {
        Some("quiet_hours"@)
    } else {
        None
    }
}

/// The plan for the most pressing signal, or why there is none.
pub open spec fn most_pressing(request: ProactiveSchedulerRequest) -> Result<
    ProactivePlanView,
    Seq<char>,
> {
    if let Some(tool) = request.tool_request {
        if !request.tool_requests_allowed {
            Err("tool_requests_disabled"@)
        } else {
            Ok(
                ProactivePlanView {
                    trigger: ProactiveTrigger::UnfinishedTask,
                    action: ProactiveAction::AskPermissionForTool,
                    reason: "a proactive tool action was suggested"@,
                    message: "如果你确认，我可以请求执行："@ + quoted(tool@) + "。"@,
                    requires_user_confirmation: true,
                },
            )
        }
    } else if request.reminder_due {
        Ok(
            ProactivePlanView {
                trigger: ProactiveTrigger::ReminderDue,
                action: ProactiveAction::MessageOnly,
                reason: "a reminder is due"@,
                message: "提醒：有一项到期事项需要你留意。"@,
                requires_user_confirmation: false,
            },
        )
    } else if let Some(task) = request.unfinished_task {
        Ok(
            ProactivePlanView {
                trigger: ProactiveTrigger::UnfinishedTask,
                action: ProactiveAction::SuggestNextStep,
                reason: "an unfinished task was observed"@,
                message: "轻提示：还可以继续处理“"@ + quoted(task@) + "”。"@,
                requires_user_confirmation: false,
            },
        )
    } else if request.idle_minutes >= 120 {
        Ok(
            ProactivePlanView {
                trigger: ProactiveTrigger::LongIdleCheckIn,
                action: ProactiveAction::MessageOnly,
                reason: "the session has been idle for an extended period"@,
                message: "好久没有继续了，回来时可以从上次停下的地方接着做。"@,
                requires_user_confirmation: false,
            },
        )
    } else if let Some(topic) = request.topic_continuation {
        Ok(
            ProactivePlanView {
                trigger: ProactiveTrigger::TopicContinuation,
                action: ProactiveAction::SuggestNextStep,
                reason: "recent context suggests a topic can be continued"@,
                message: "可以继续关注“"@ + quoted(topic@) + "”。"@,
                requires_user_confirmation: false,
            },
        )
    } else if request.periodic_summary_due {
        Ok(
            ProactivePlanView {
                trigger: ProactiveTrigger::PeriodicSummary,
                action: ProactiveAction::SummarizeStage,
                reason: "a bounded stage summary is due"@,
                message: "阶段小结：可以整理一下当前进展、未完成事项和下一步。"@,
                requires_user_confirmation: false,
            },
        )
    } else if let Some(change) = request.relationship_milestone {
        Ok(
            ProactivePlanView {
                trigger: ProactiveTrigger::RelationshipMilestone,
                action: ProactiveAction::MessageOnly,
                reason: "a relationship or context milestone changed"@,
                message: "最近的上下文有变化："@ + quoted(change@) + "。"@,
                requires_user_confirmation: false,
            },
        )
    } else {
        Err("no_action"@)
    }
}

/// The plan that a request leads to, or why it leads to none.
pub open spec fn decision(request: ProactiveSchedulerRequest) -> Result<
    ProactivePlanView,
    Seq<char>,
> {
    match suppression(request) {
        Some(reason) => Err(reason),
        None => most_pressing(request),
    }
}

/// The result that a decision is reported as.
pub open spec fn reports_decision(
    result: ProactiveSchedulerResult,
    decided: Result<ProactivePlanView, Seq<char>>,
) -> bool {
    match decided {
        Ok(plan) => result.plans@.len() == 1 && result.plans@[0]@ == plan
            && result.suppressed_reason is None,
        Err(reason) => result.plans@.len() == 0 && optional_text(result.suppressed_reason)
            == Some(reason),
    }
}

fn suppressed(reason: &str) -> (r: ProactiveSchedulerResult)
    ensures
        r.plans@.len() == 0,
        optional_text(r.suppressed_reason) == Some(reason@),
{
    ProactiveSchedulerResult { plans: Vec::new(), suppressed_reason: Some(reason.to_owned()) }
}

fn message_around(before: &str, value: &str, after: &str) -> (r: String)
    ensures
        r@ == before@ + quoted(value@) + after@,
{
    let mut out = before.to_owned();
    out.append(compact(value, 80).as_str());
    out.append(after);
    out
}

/// Decides what to suggest; at most one plan, and nothing is executed.
pub fn evaluate(request: &ProactiveSchedulerRequest) -> (r: ProactiveSchedulerResult)
    ensures
        reports_decision(r, decision(*request)),
{
    if !request.has_signal() {
        return suppressed("no_signal");
    }
    if request.proactive_in_session >= request.max_per_session {
        return suppressed("session_limit_reached");
    }
    if request.proactive_today >= request.max_per_day {
        return suppressed("daily_limit_reached");
    }
    if let Some(hours) = &request.quiet_hours {
        if hours.contains(request.now_minute_of_day) {
            return suppressed("quiet_hours");
        }
    }
    let plan = if let Some(tool) = &request.tool_request {
        if !request.tool_requests_allowed {
            return suppressed("tool_requests_disabled");
        }
        ProactivePlan {
            trigger: ProactiveTrigger::UnfinishedTask,
            action: ProactiveAction::AskPermissionForTool,
            reason: "a proactive tool action was suggested".to_owned(),
            message: message_around("如果你确认，我可以请求执行：", tool.as_str(), "。"),
            requires_user_confirmation: true,
        }
    } else if request.reminder_due {
        ProactivePlan {
            trigger: ProactiveTrigger::ReminderDue,
            action: ProactiveAction::MessageOnly,
            reason: "a reminder is due".to_owned(),
            message: "提醒：有一项到期事项需要你留意。".to_owned(),
            requires_user_confirmation: false,
        }
    } else if let Some(task) = &request.unfinished_task {
        ProactivePlan {
            trigger: ProactiveTrigger::UnfinishedTask,
            action: ProactiveAction::SuggestNextStep,
            reason: "an unfinished task was observed".to_owned(),
            message: message_around("轻提示：还可以继续处理“", task.as_str(), "”。"),
            requires_user_confirmation: false,
        }
    } else if request.idle_minutes >= 120 {
        ProactivePlan {
            trigger: ProactiveTrigger::LongIdleCheckIn,
            action: ProactiveAction::MessageOnly,
            reason: "the session has been idle for an extended period".to_owned(),
            message: "好久没有继续了，回来时可以从上次停下的地方接着做。".to_owned(),
            requires_user_confirmation: false,
        }
    } else if let Some(topic) = &request.topic_continuation {
        ProactivePlan {
            trigger: ProactiveTrigger::TopicContinuation,
            action: ProactiveAction::SuggestNextStep,
            reason: "recent context suggests a topic can be continued".to_owned(),
            message: message_around("可以继续关注“", topic.as_str(), "”。"),
            requires_user_confirmation: false,
        }
    } else if request.periodic_summary_due {
        ProactivePlan {
            trigger: ProactiveTrigger::PeriodicSummary,
            action: ProactiveAction::SummarizeStage,
            reason: "a bounded stage summary is due".to_owned(),
            message: "阶段小结：可以整理一下当前进展、未完成事项和下一步。".to_owned(),
            requires_user_confirmation: false,
        }
    } else if let Some(change) = &request.relationship_milestone {
        ProactivePlan {
            trigger: ProactiveTrigger::RelationshipMilestone,
            action: ProactiveAction::MessageOnly,
            reason: "a relationship or context milestone changed".to_owned(),
            message: message_around("最近的上下文有变化：", change.as_str(), "。"),
            requires_user_confirmation: false,
        }
    } else {
        return suppressed("no_action");
    };
    let mut plans: Vec<ProactivePlan> = Vec::new();
    plans.push(plan);
    ProactiveSchedulerResult { plans, suppressed_reason: None }
}

/// A tool is only ever suggested with a request for confirmation, and nothing else asks for
/// one.
pub proof fn lemma_tool_plans_need_confirmation(request: ProactiveSchedulerRequest)
    ensures
        decision(request) matches Ok(plan) ==> (plan.action == ProactiveAction::AskPermissionForTool
            <==> plan.requires_user_confirmation),
        decision(request) matches Ok(plan) ==> (plan.requires_user_confirmation <==>
            request.tool_request is Some),
        decision(request) is Ok && request.tool_request is Some ==> request.tool_requests_allowed,
{
}

/// Within quiet hours, and once a limit is reached, nothing is suggested.
pub proof fn lemma_limits_and_quiet_hours_suppress(request: ProactiveSchedulerRequest)
    ensures
        request.proactive_in_session >= request.max_per_session ==> decision(request) is Err,
        request.proactive_today >= request.max_per_day ==> decision(request) is Err,
        request.quiet_hours is Some && request.quiet_hours->0.covers(request.now_minute_of_day)
            ==> decision(request) is Err,
        !request.signals() ==> decision(request) is Err,
{
}

} // verus!
