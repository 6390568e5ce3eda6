//! The actions that skills declare: which are run, and what they give back.
use vstd::prelude::*;
use vstd::utf8::{decode_utf8, valid_utf8};

use crate::bounded_output::BoundedOutput;
use crate::grants::ActionGrant;
use crate::paths::{lemma_within_is_transitive, Location};
use crate::skills::config::{SkillsConfig, SkillsConfigView};
use crate::skills::context::{find_skill, skill_from};
use crate::skills::discovery::{
    discover, discovered, DiscoveredSkill, DiscoverySnapshot, RootProbe, SkillActionSpec, SkillLimits,
};
use crate::skills::error::{SkillActionError, SkillActionErrorView};
use crate::text::{
    byte_len, hex, hex_of, hex_u128, lossy_text, str_eq, text3, text4, trim_end,
    trim_end_of, utf8_len,
};

verus! {

// ---------------------------------------------------------------------------
// Declarations
// ---------------------------------------------------------------------------
/// What the host is told of an action: not how it is run.
#[derive(Clone, Debug, PartialEq, Eq)]
pub struct SkillActionDeclaration {
    skill_id: String,
    tool_name: String,
    requires_workspace_write: bool,
}

pub struct DeclarationView {
    pub skill_id: Seq<char>,
    pub tool_name: Seq<char>,
    pub requires_workspace_write: bool,
}

impl View for SkillActionDeclaration {
    type V = DeclarationView;

    closed spec fn view(&self) -> DeclarationView {
        DeclarationView {
            skill_id: self.skill_id@,
            tool_name: self.tool_name@,
            requires_workspace_write: self.requires_workspace_write,
        }
    }
}

impl SkillActionDeclaration {
    fn new(skill_id: &str, tool_name: &str, requires_workspace_write: bool) -> (r: Self)
        ensures
            r@ == (DeclarationView {
                skill_id: skill_id@,
                tool_name: tool_name@,
                requires_workspace_write,
            }),
    {
        SkillActionDeclaration {
            skill_id: skill_id.to_owned(),
            tool_name: tool_name.to_owned(),
            requires_workspace_write,
        }
    }

    pub fn skill_id(&self) -> (r: &str)
        ensures
            r@ == self@.skill_id,
    {
        self.skill_id.as_str()
    }

    pub fn tool_name(&self) -> (r: &str)
        ensures
            r@ == self@.tool_name,
    {
        self.tool_name.as_str()
    }

    pub fn requires_workspace_write(&self) -> (r: bool)
        ensures
            r == self@.requires_workspace_write,
    {
        self.requires_workspace_write
    }
}

pub open spec fn declarations_view(declarations: Seq<SkillActionDeclaration>) -> Seq<
    DeclarationView,
> {
    Seq::new(declarations.len(), |k: int| declarations[k]@)
}

/// The declarations of one skill.
pub open spec fn skill_declarations(skill: DiscoveredSkill) -> Seq<DeclarationView> {
    Seq::new(
        skill.actions@.len(),
        |k: int|
            DeclarationView {
                skill_id: skill.metadata.id@,
                tool_name: skill.actions@[k].tool_name@,
                requires_workspace_write: skill.actions@[k].requires_workspace_write,
            },
    )
}

/// The declarations of all skills, one skill after the other.
pub open spec fn all_declarations(skills: Seq<DiscoveredSkill>) -> Seq<DeclarationView>
    decreases skills.len(),
{
    if skills.len() == 0 {
        Seq::empty()
    } else {
        all_declarations(skills.drop_last()) + skill_declarations(skills.last())
    }
}

/// What the host is told of the actions of skills.
fn declared(skills: &Vec<DiscoveredSkill>) -> (r: Vec<SkillActionDeclaration>)
    ensures
        declarations_view(r@) == all_declarations(skills@),
{
    let mut out: Vec<SkillActionDeclaration> = Vec::new();
    let n: usize = skills.len();
    let mut i: usize = 0;
    assert(skills@.take(0) =~= Seq::<DiscoveredSkill>::empty());
    assert(declarations_view(out@) =~= Seq::<DeclarationView>::empty());
    while i < n
        invariant
            n == skills@.len(),
            i <= n,
            declarations_view(out@) == all_declarations(skills@.take(i as int)),
        decreases n - i,
    {
        let skill = &skills[i];
        let ghost before = declarations_view(out@);
        let ghost own = skill_declarations(*skill);
        let count: usize = skill.actions.len();
        let mut k: usize = 0;
        assert(before + own.take(0) =~= before);
        while k < count
            invariant
                count == skill.actions@.len(),
                own == skill_declarations(*skill),
                k <= count,
                declarations_view(out@) == before + own.take(k as int),
            decreases count - k,
        {
            let ghost held = out@;
            let action = &skill.actions[k];
            out.push(
                SkillActionDeclaration::new(
                    skill.metadata.id.as_str(),
                    action.tool_name.as_str(),
                    action.requires_workspace_write,
                ),
            );
            assert(declarations_view(out@) =~= declarations_view(held).push(own[k as int]));
            assert(before + own.take(k + 1) =~= (before + own.take(k as int)).push(
                own[k as int],
            ));
            k += 1;
        }
        assert(own.take(count as int) =~= own);
        assert(skills@.take(i + 1).drop_last() =~= skills@.take(i as int));
        i += 1;
    }
    assert(skills@.take(n as int) =~= skills@);
    out
}

// ---------------------------------------------------------------------------
// Admission
// ---------------------------------------------------------------------------
/// A request to run an action.
#[derive(Clone, Debug)]
pub struct SkillActionRequest {
    pub skill_id: String,
    pub tool_name: String,
}

/// Why no action is run at all. `verdict` says what the host's rules have against the request.
pub open spec fn request_problem(
    config: SkillsConfigView,
    verdict: Result<(), String>,
    grant: ActionGrant,
) -> Option<SkillActionErrorView> {
    if let Err(message) = verdict {
        Some(SkillActionErrorView::Request(message@))
    } else if !config.actions_enabled {
        Some(SkillActionErrorView::ActionsDisabled)
    } else if let Some(error) = grant.problem() {
        Some(SkillActionErrorView::Grant(error))
    } else if grant.allow_network || grant.secret_grant.references().len() > 0 {
        Some(SkillActionErrorView::ForbiddenGrant)
    } else {
        None
    }
}

/// The first action for this tool, from the `i`th on.
pub open spec fn action_from(actions: Seq<SkillActionSpec>, tool: Seq<char>, i: int) -> Option<int>
    decreases actions.len() - i,
{
    if i >= actions.len() {
        None
    } else if actions[i].tool_name@ == tool {
        Some(i)
    } else {
        action_from(actions, tool, i + 1)
    }
}

fn find_action(actions: &Vec<SkillActionSpec>, tool: &str) -> (r: Option<usize>)
    ensures
        match action_from(actions@, tool@, 0) {
            Some(at) => r is Some && r->0 == at && at < actions@.len(),
            None => r is None,
        },
{
    let n: usize = actions.len();
    let mut i: usize = 0;
    while i < n
        invariant
            n == actions@.len(),
            i <= n,
            action_from(actions@, tool@, 0) == action_from(actions@, tool@, i as int),
        decreases n - i,
    {
        if str_eq(actions[i].tool_name.as_str(), tool) {
            return Some(i);
        }
        i += 1;
    }
    None
}

/// The skill and the action that a request is for, by their positions.
pub open spec fn requested_action(
    skills: Seq<DiscoveredSkill>,
    request: SkillActionRequest,
    grant: ActionGrant,
) -> Result<(int, int), SkillActionErrorView> {
    match skill_from(skills, request.skill_id@, 0) {
        None => Err(SkillActionErrorView::SkillNotFound { skill_id: request.skill_id@ }),
        Some(skill) => match action_from(skills[skill].actions@, request.tool_name@, 0) {
            None => Err(
                SkillActionErrorView::ActionNotDeclared {
                    skill_id: request.skill_id@,
                    tool_name: request.tool_name@,
                },
            ),
            Some(action) => if skills[skill].actions@[action].requires_workspace_write
                && !grant.allow_write {
                Err(SkillActionErrorView::WorkspaceWriteRequired)
            } else {
                Ok((skill, action))
            },
        },
    }
}

/// Runs the actions that the skills of a configuration declare.
#[derive(Debug)]
pub struct SkillActionExecutor {
    config: SkillsConfig,
}

/// A path of an action, and what the file system makes of it. `fits` tells that it leads to a
/// directory, or to a file.
#[derive(Debug)]
pub struct PathProbe {
    pub path: String,
    pub resolved: Result<Location, String>,
    pub fits: bool,
}

/// The directory that a path leads to.
pub open spec fn directory_of(label: Seq<char>, probe: PathProbe) -> Result<
    Location,
    SkillActionErrorView,
> {
    match probe.resolved {
        Err(message) => Err(
            SkillActionErrorView::Path { label, path: probe.path@, message: message@ },
        ),
        Ok(location) => if probe.fits {
            Ok(location)
        } else {
            Err(SkillActionErrorView::NotDirectory { label, path: location.display@ })
        },
    }
}

fn canonical_directory<'a>(label: &'static str, probe: &'a PathProbe) -> (r: Result<
    &'a Location,
    SkillActionError,
>)
    ensures
        match directory_of(label@, *probe) {
            Ok(location) => r is Ok && *r->Ok_0 == location,
            Err(error) => r is Err && r->Err_0@ == error,
        },
{
    match &probe.resolved {
        Err(message) => Err(
            SkillActionError::Path { label, path: probe.path.clone(), message: message.clone() },
        ),
        Ok(location) => {
            if probe.fits {
                Ok(location)
            } else {
                Err(SkillActionError::NotDirectory { label, path: location.display.clone() })
            }
        },
    }
}

/// The file that a path leads to.
pub open spec fn program_of(probe: PathProbe) -> Result<Location, SkillActionErrorView> {
    match probe.resolved {
        Err(message) => Err(
            SkillActionErrorView::Path {
                label: "Skill action program"@,
                path: probe.path@,
                message: message@,
            },
        ),
        Ok(location) => if probe.fits {
            Ok(location)
        } else {
            Err(SkillActionErrorView::NotFile { path: location.display@ })
        },
    }
}

fn canonical_file<'a>(probe: &'a PathProbe) -> (r: Result<&'a Location, SkillActionError>)
    ensures
        match program_of(*probe) {
            Ok(location) => r is Ok && *r->Ok_0 == location,
            Err(error) => r is Err && r->Err_0@ == error,
        },
{
    match &probe.resolved {
        Err(message) => Err(
            SkillActionError::Path {
                label: "Skill action program",
                path: probe.path.clone(),
                message: message.clone(),
            },
        ),
        Ok(location) => {
            if probe.fits {
                Ok(location)
            } else {
                Err(SkillActionError::NotFile { path: location.display.clone() })
            }
        },
    }
}

fn ensure_within(root: &Location, path: &Location, label: &'static str) -> (r: Result<
    (),
    SkillActionError,
>)
    ensures
        r is Ok == path.within(*root),
        r is Err ==> r->Err_0@ == out_of_scope(label@, *path),
{
    if path.is_within(root) {
        Ok(())
    } else {
        Err(SkillActionError::OutOfScope { label, path: path.display.clone() })
    }
}

pub open spec fn out_of_scope(label: Seq<char>, path: Location) -> SkillActionErrorView {
    SkillActionErrorView::OutOfScope { label, path: path.display@ }
}

/// Where an action is run from, and what it runs.
#[derive(Debug)]
pub struct ActionScope {
    pub skills_root: PathProbe,
    pub workspace_root: PathProbe,
    pub working_directory: PathProbe,
    pub program: PathProbe,
}

/// Why an action is not run where it would have to be: everything lies in the workspace, and
/// the program in the directory of its skill.
pub open spec fn scope_problem(scope: ActionScope, skill: Location) -> Option<
    SkillActionErrorView,
> {
    match directory_of("Skills root"@, scope.skills_root) {
        Err(error) => Some(error),
        Ok(skills) => match directory_of("workspace root"@, scope.workspace_root) {
            Err(error) => Some(error),
            Ok(workspace) => match directory_of(
                "Skill action working directory"@,
                scope.working_directory,
            ) {
                Err(error) => Some(error),
                Ok(working) => if !skills.within(workspace) {
                    Some(out_of_scope("Skills root"@, skills))
                } else if !working.within(workspace) {
                    Some(out_of_scope("Skill action working directory"@, working))
                } else if !skill.within(skills) {
                    Some(out_of_scope("Skill directory"@, skill))
                } else {
                    match program_of(scope.program) {
                        Err(error) => Some(error),
                        Ok(program) => if program.within(skill) {
                            None
                        } else {
                            Some(out_of_scope("Skill action program"@, program))
                        },
                    }
                },
            },
        },
    }
}

pub fn check_scope(scope: &ActionScope, skill: &Location) -> (r: Result<(), SkillActionError>)
    ensures
        match scope_problem(*scope, *skill) {
            None => r is Ok,
            Some(error) => r is Err && r->Err_0@ == error,
        },
{
    let skills = canonical_directory("Skills root", &scope.skills_root)?;
    let workspace = canonical_directory("workspace root", &scope.workspace_root)?;
    let working = canonical_directory(
        "Skill action working directory",
        &scope.working_directory,
    )?;
    ensure_within(workspace, skills, "Skills root")?;
    ensure_within(workspace, working, "Skill action working directory")?;
    ensure_within(skills, skill, "Skill directory")?;
    let program = canonical_file(&scope.program)?;
    ensure_within(skill, program, "Skill action program")
}

/// A program that is run lies in the directory of its skill, below the root of the skills, in
/// the workspace that the grant is for.
pub proof fn lemma_program_lies_in_the_workspace(scope: ActionScope, skill: Location)
    requires
        scope_problem(scope, skill) is None,
    ensures
        scope.program.resolved->Ok_0.within(skill),
        scope.program.resolved->Ok_0.within(scope.skills_root.resolved->Ok_0),
        scope.program.resolved->Ok_0.within(scope.workspace_root.resolved->Ok_0),
{
    let program = scope.program.resolved->Ok_0;
    let skills = scope.skills_root.resolved->Ok_0;
    lemma_within_is_transitive(program, skill, skills);
    lemma_within_is_transitive(
        program,
        skills,
        scope.workspace_root.resolved->Ok_0,
    );
}

impl SkillActionExecutor {
    pub closed spec fn spec_config(self) -> SkillsConfigView {
        self.config@
    }

    pub fn new(config: SkillsConfig) -> (r: Self)
        ensures
            r.spec_config() == config@,
    {
        SkillActionExecutor { config }
    }

    pub fn config(&self) -> (r: &SkillsConfig)
        ensures
            r@ == self.spec_config(),
    {
        &self.config
    }

    /// What the host is told of the actions that the skills below the root declare.
    pub fn declarations(&self, limits: SkillLimits, probe: RootProbe) -> (r: Result<
        Vec<SkillActionDeclaration>,
        SkillActionError,
    >)
        ensures
            match discovered(self.spec_config(), limits, probe) {
                Ok(found) => r is Ok && declarations_view(r->Ok_0@) == all_declarations(
                    found.skills,
                ),
                Err(error) => r is Err && r->Err_0@ == SkillActionErrorView::Discovery(error),
            },
    {
        match discover(&self.config, limits, probe) {
            Ok(snapshot) => Ok(declared(&snapshot.skills)),
            Err(error) => Err(SkillActionError::Discovery(error)),
        }
    }

    /// Whether any action may be run for a request under a grant.
    pub fn approve(&self, verdict: &Result<(), String>, grant: &ActionGrant) -> (r: Result<
        (),
        SkillActionError,
    >)
        ensures
            match request_problem(self.spec_config(), *verdict, *grant) {
                None => r is Ok,
                Some(error) => r is Err && r->Err_0@ == error,
            },
    {
        if let Err(message) = verdict {
            return Err(SkillActionError::Request(message.clone()));
        }
        if !self.config.actions_enabled() {
            return Err(SkillActionError::ActionsDisabled);
        }
        match grant.validate() {
            Ok(()) => {},
            Err(error) => return Err(SkillActionError::Grant(error)),
        }
        if grant.allow_network || !grant.secret_grant.is_empty() {
            return Err(SkillActionError::ForbiddenGrant);
        }
        Ok(())
    }

    /// Finds the action that a request is for. Nothing is looked for unless the request and the
    /// grant are in order.
    pub fn choose_action(
        &self,
        verdict: &Result<(), String>,
        request: &SkillActionRequest,
        grant: &ActionGrant,
        limits: SkillLimits,
        probe: RootProbe,
    ) -> (r: Result<ChosenAction, SkillActionError>)
        ensures
            match chosen_action(self.spec_config(), *verdict, *request, *grant, limits, probe) {
                Ok((skills, skill, action)) => {
                    &&& r is Ok
                    &&& r->Ok_0.snapshot.skills@ == skills
                    &&& r->Ok_0.skill == skill
                    &&& r->Ok_0.action == action
                    &&& 0 <= skill < skills.len()
                    &&& 0 <= action < skills[skill].actions@.len()
                },
                Err(error) => r is Err && r->Err_0@ == error,
            },
    {
        match self.approve(verdict, grant) {
            Ok(()) => {},
            Err(error) => return Err(error),
        }
        let snapshot = match discover(&self.config, limits, probe) {
            Ok(snapshot) => snapshot,
            Err(error) => return Err(SkillActionError::Discovery(error)),
        };
        match select_action(&snapshot.skills, request, grant) {
            Ok((skill, action)) => {
                proof {
                    lemma_skill_position(snapshot.skills@, request.skill_id@, 0);
                    lemma_action_position(
                        snapshot.skills@[skill as int].actions@,
                        request.tool_name@,
                        0,
                    );
                }
                Ok(ChosenAction { snapshot, skill, action })
            },
            Err(error) => Err(error),
        }
    }
}

/// An action that may be run: the skills that were found, and the positions of the skill and of
/// its action.
#[derive(Debug)]
pub struct ChosenAction {
    pub snapshot: DiscoverySnapshot,
    pub skill: usize,
    pub action: usize,
}

/// The action that a request is for, or why none may be run for it.
pub open spec fn chosen_action(
    config: SkillsConfigView,
    verdict: Result<(), String>,
    request: SkillActionRequest,
    grant: ActionGrant,
    limits: SkillLimits,
    probe: RootProbe,
) -> Result<(Seq<DiscoveredSkill>, int, int), SkillActionErrorView> {
    match request_problem(config, verdict, grant) {
        Some(error) => Err(error),
        None => match discovered(config, limits, probe) {
            Err(error) => Err(SkillActionErrorView::Discovery(error)),
            Ok(found) => match requested_action(found.skills, request, grant) {
                Err(error) => Err(error),
                Ok((skill, action)) => Ok((found.skills, skill, action)),
            },
        },
    }
}

proof fn lemma_skill_position(skills: Seq<DiscoveredSkill>, id: Seq<char>, i: int)
    requires
        0 <= i,
    ensures
        skill_from(skills, id, i) is Some ==> 0 <= skill_from(skills, id, i)->0 < skills.len(),
    decreases skills.len() - i,
{
    if i < skills.len() {
        lemma_skill_position(skills, id, i + 1);
    }
}

proof fn lemma_action_position(actions: Seq<SkillActionSpec>, tool: Seq<char>, i: int)
    requires
        0 <= i,
    ensures
        action_from(actions, tool, i) is Some ==> 0 <= action_from(actions, tool, i)->0
            < actions.len(),
    decreases actions.len() - i,
{
    if i < actions.len() {
        lemma_action_position(actions, tool, i + 1);
    }
}

/// An action runs only when the configuration has switched actions on, the host has approved
/// the request, and the grant carries neither the network nor secrets.
pub proof fn lemma_actions_need_leave(
    config: SkillsConfigView,
    verdict: Result<(), String>,
    request: SkillActionRequest,
    grant: ActionGrant,
    limits: SkillLimits,
    probe: RootProbe,
)
    requires
        chosen_action(config, verdict, request, grant, limits, probe) is Ok,
    ensures
        ({
            let (skills, skill, action) = chosen_action(
                config,
                verdict,
                request,
                grant,
                limits,
                probe,
            )->Ok_0;
            &&& config.actions_enabled
            &&& verdict is Ok
            &&& grant.problem() is None
            &&& grant.approved_by_host()
            &&& !grant.allow_network
            &&& grant.secret_grant.references().len() == 0
            &&& skills[skill].actions@[action].requires_workspace_write ==> grant.allow_write
        }),
{
}

/// The skill and the action that a request is for, by their positions.
pub fn select_action(
    skills: &Vec<DiscoveredSkill>,
    request: &SkillActionRequest,
    grant: &ActionGrant,
) -> (r: Result<(usize, usize), SkillActionError>)
    ensures
        match requested_action(skills@, *request, *grant) {
            Ok(found) => r is Ok && r->Ok_0.0 == found.0 && r->Ok_0.1 == found.1,
            Err(error) => r is Err && r->Err_0@ == error,
        },
{
    let skill = match find_skill(skills, request.skill_id.as_str()) {
        Some(skill) => skill,
        None => {
            return Err(
                SkillActionError::SkillNotFound { skill_id: request.skill_id.clone() },
            );
        },
    };
    let action = match find_action(&skills[skill].actions, request.tool_name.as_str()) {
        Some(action) => action,
        None => {
            return Err(
                SkillActionError::ActionNotDeclared {
                    skill_id: request.skill_id.clone(),
                    tool_name: request.tool_name.clone(),
                },
            );
        },
    };
    if skills[skill].actions[action].requires_workspace_write && !grant.allow_write {
        return Err(SkillActionError::WorkspaceWriteRequired);
    }
    Ok((skill, action))
}

/// How long an action may run and how much it may say: what both it and the grant allow.
pub fn action_limits(action: &SkillActionSpec, grant: &ActionGrant) -> (r: (u64, usize))
    ensures
        r.0 == if action.timeout_millis < grant.timeout_millis {
            action.timeout_millis
        } else {
            grant.timeout_millis
        },
        r.1 == if action.max_output_bytes < grant.max_output_bytes {
            action.max_output_bytes
        } else {
            grant.max_output_bytes
        },
{
    let timeout: u64 = if action.timeout_millis < grant.timeout_millis {
        action.timeout_millis
    } else {
        grant.timeout_millis
    };
    let output: usize = if action.max_output_bytes < grant.max_output_bytes {
        action.max_output_bytes
    } else {
        grant.max_output_bytes
    };
    (timeout, output)
}

/// A request is not longer than a frame may be.
pub fn check_frame(size: usize, maximum: usize) -> (r: Result<(), SkillActionError>)
    ensures
        r is Ok == (size <= maximum),
        r is Err ==> r->Err_0@ == (SkillActionErrorView::FrameTooLarge {
            size: size as nat,
            maximum: maximum as nat,
        }),
{
    if size > maximum {
        return Err(SkillActionError::FrameTooLarge { size, maximum });
    }
    Ok(())
}

// ---------------------------------------------------------------------------
// Results
// ---------------------------------------------------------------------------
#[derive(Clone, Copy, Debug, PartialEq, Eq, Structural)]
pub enum SkillActionOutcome {
    Success,
    Failed,
    TimedOut,
    Cancelled,
}

/// What an action says of itself.
#[derive(Clone, Debug)]
pub struct SkillActionResponse {
    pub outcome: SkillActionOutcome,
    pub exit_code: Option<i32>,
    pub stdout: String,
    pub stderr: String,
    pub output_truncated: bool,
}

/// How the process of an action ended.
#[derive(Clone, Copy, Debug)]
pub enum ChildTermination {
    Exited { code: Option<i32>, success: bool },
    TimedOut,
    Cancelled,
}

/// How an action ends that was looked at: by itself, because the host calls it off, or because
/// its time is up, in this order; not yet, if none of these holds.
pub open spec fn termination_of(
    exited: Option<(Option<i32>, bool)>,
    cancelled: bool,
    overdue: bool,
) -> Option<ChildTermination> {
    match exited {
        Some((code, success)) => Some(ChildTermination::Exited { code, success }),
        None => if cancelled {
            Some(ChildTermination::Cancelled)
        } else if overdue {
            Some(ChildTermination::TimedOut)
        } else {
            None
        },
    }
}

/// Decides whether an action goes on. One that does not, and has not exited, is killed.
pub fn after_poll(exited: Option<(Option<i32>, bool)>, cancelled: bool, overdue: bool) -> (r:
    Option<ChildTermination>)
    ensures
        r == termination_of(exited, cancelled, overdue),
{
    match exited {
        Some((code, success)) => Some(ChildTermination::Exited { code, success }),
        None => {
            if cancelled {
                Some(ChildTermination::Cancelled)
            } else if overdue {
                Some(ChildTermination::TimedOut)
            } else {
                None
            }
        },
    }
}

/// What can be told of an action whose process has ended. `response` is what its output was
/// read as, and `verdict` what the host's rules have against that.
pub struct ActionEnd {
    pub termination: ChildTermination,
    pub written: Result<(), String>,
    pub stdout: BoundedOutput,
    pub stderr: BoundedOutput,
    pub response: Result<SkillActionResponse, String>,
    pub verdict: Result<(), String>,
}

/// What an action did.
#[derive(Clone, Debug, PartialEq, Eq)]
pub struct SkillActionExecution {
    audit_id: String,
    skill_id: String,
    tool_name: String,
    program: String,
    outcome: SkillActionOutcome,
    exit_code: Option<i32>,
    stdout: String,
    stderr: String,
    output_truncated: bool,
    duration_millis: u64,
}

pub struct ExecutionView {
    pub audit_id: Seq<char>,
    pub skill_id: Seq<char>,
    pub tool_name: Seq<char>,
    pub program: Seq<char>,
    pub outcome: SkillActionOutcome,
    pub exit_code: Option<i32>,
    pub stdout: Seq<char>,
    pub stderr: Seq<char>,
    pub output_truncated: bool,
    pub duration_millis: u64,
}

impl View for SkillActionExecution {
    type V = ExecutionView;

    closed spec fn view(&self) -> ExecutionView {
        ExecutionView {
            audit_id: self.audit_id@,
            skill_id: self.skill_id@,
            tool_name: self.tool_name@,
            program: self.program@,
            outcome: self.outcome,
            exit_code: self.exit_code,
            stdout: self.stdout@,
            stderr: self.stderr@,
            output_truncated: self.output_truncated,
            duration_millis: self.duration_millis,
        }
    }
}

impl SkillActionExecution {
    pub fn audit_id(&self) -> (r: &str)
        ensures
            r@ == self@.audit_id,
    {
        self.audit_id.as_str()
    }

    pub fn skill_id(&self) -> (r: &str)
        ensures
            r@ == self@.skill_id,
    {
        self.skill_id.as_str()
    }

    pub fn tool_name(&self) -> (r: &str)
        ensures
            r@ == self@.tool_name,
    {
        self.tool_name.as_str()
    }

    pub fn program(&self) -> (r: &str)
        ensures
            r@ == self@.program,
    {
        self.program.as_str()
    }

    pub fn outcome(&self) -> (r: SkillActionOutcome)
        ensures
            r == self@.outcome,
    {
        self.outcome
    }

    pub fn exit_code(&self) -> (r: Option<i32>)
        ensures
            r == self@.exit_code,
    {
        self.exit_code
    }

    pub fn stdout(&self) -> (r: &str)
        ensures
            r@ == self@.stdout,
    {
        self.stdout.as_str()
    }

    pub fn stderr(&self) -> (r: &str)
        ensures
            r@ == self@.stderr,
    {
        self.stderr.as_str()
    }

    pub fn output_truncated(&self) -> (r: bool)
        ensures
            r == self@.output_truncated,
    {
        self.output_truncated
    }

    pub fn duration_millis(&self) -> (r: u64)
        ensures
            r == self@.duration_millis,
    {
        self.duration_millis
    }
}

/// What an action says on its error stream and in its response, together.
pub open spec fn merged(response: Seq<char>, process: Seq<char>) -> Seq<char> {
    if response.len() == 0 {
        process
    } else if process.len() == 0 {
        response
    } else {
        response + "\n"@ + process
    }
}

pub fn merge_stderr(response: &str, process: &str) -> (r: String)
    ensures
        r@ == merged(response@, process@),
{
    if response.is_empty() {
        process.to_owned()
    } else if process.is_empty() {
        response.to_owned()
    } else {
        text3(response, "\n", process)
    }
}

/// What is said of an action that was stopped.
pub open spec fn stopped_message(message: Seq<char>, process: Seq<char>) -> Seq<char> {
    if process.len() == 0 {
        message
    } else {
        message + ": "@ + process
    }
}

/// What came of an action, in its own words and by how its process ended.
pub open spec fn outcome_of(response: SkillActionOutcome, success: bool) -> SkillActionOutcome {
    if response is Success && success {
        SkillActionOutcome::Success
    } else if response is TimedOut || response is Cancelled {
        response
    } else {
        SkillActionOutcome::Failed
    }
}

/// The text that an action's output is read from.
pub open spec fn response_text_of(stdout: BoundedOutput, frame_limit: nat) -> Result<
    Seq<char>,
    SkillActionErrorView,
> {
    if stdout.spec_truncated() {
        Err(SkillActionErrorView::FrameTooLarge { size: frame_limit + 1, maximum: frame_limit })
    } else if !valid_utf8(stdout.spec_bytes()) {
        Err(SkillActionErrorView::InvalidUtf8)
    } else {
        Ok(trim_end_of(decode_utf8(stdout.spec_bytes())))
    }
}

pub fn response_text(stdout: &BoundedOutput, frame_limit: usize) -> (r: Result<
    String,
    SkillActionError,
>)
    requires
        frame_limit < usize::MAX,
    ensures
        match response_text_of(*stdout, frame_limit as nat) {
            Ok(text) => r is Ok && r->Ok_0@ == text,
            Err(error) => r is Err && r->Err_0@ == error,
        },
{
    if stdout.truncated() {
        return Err(
            SkillActionError::FrameTooLarge { size: frame_limit + 1, maximum: frame_limit },
        );
    }
    match stdout.utf8() {
        Some(text) => Ok(trim_end(text.as_str()).to_owned()),
        None => Err(SkillActionError::InvalidUtf8),
    }
}

/// What an action comes to: how it ended, what it said, or why that cannot be told.
pub struct ConclusionView {
    pub outcome: SkillActionOutcome,
    pub exit_code: Option<i32>,
    pub stdout: Seq<char>,
    pub stderr: Seq<char>,
    pub output_truncated: bool,
}

/// What an action that was stopped comes to.
pub open spec fn stopped(
    outcome: SkillActionOutcome,
    message: Seq<char>,
    process: Seq<char>,
    max_output: nat,
) -> Result<ConclusionView, SkillActionErrorView> {
    if utf8_len(process) > max_output {
        Err(SkillActionErrorView::OutputLimit { maximum: max_output })
    } else {
        Ok(
            ConclusionView {
                outcome,
                exit_code: None,
                stdout: Seq::empty(),
                stderr: stopped_message(message, process),
                output_truncated: false,
            },
        )
    }
}

/// What an action comes to.
pub open spec fn conclusion(end: ActionEnd, frame_limit: nat, max_output: nat) -> Result<
    ConclusionView,
    SkillActionErrorView,
> {
    let process = lossy_text(end.stderr.spec_bytes());
    if end.stderr.spec_truncated() {
        Err(SkillActionErrorView::FrameTooLarge { size: frame_limit + 1, maximum: frame_limit })
    } else {
        match end.termination {
            ChildTermination::TimedOut => stopped(
                SkillActionOutcome::TimedOut,
                "Skill action timed out"@,
                process,
                max_output,
            ),
            ChildTermination::Cancelled => stopped(
                SkillActionOutcome::Cancelled,
                "Skill action cancelled"@,
                process,
                max_output,
            ),
            ChildTermination::Exited { code, success } => if let Err(message) = end.written {
                Err(
                    SkillActionErrorView::Io {
                        operation: "write action request"@,
                        message: message@,
                    },
                )
            } else if let Err(error) = response_text_of(end.stdout, frame_limit) {
                Err(error)
            } else if let Err(message) = end.response {
                Err(SkillActionErrorView::BadResponse(message@))
            } else if let Err(message) = end.verdict {
                Err(SkillActionErrorView::Request(message@))
            } else {
                let response = end.response->Ok_0;
                let stderr = merged(response.stderr@, process);
                if utf8_len(response.stdout@) + utf8_len(stderr) > max_output {
                    Err(SkillActionErrorView::OutputLimit { maximum: max_output })
                } else if response.exit_code != code {
                    Err(
                        SkillActionErrorView::BadResponse(
                            "response exit_code did not match process status"@,
                        ),
                    )
                } else {
                    Ok(
                        ConclusionView {
                            outcome: outcome_of(response.outcome, success),
                            exit_code: code,
                            stdout: response.stdout@,
                            stderr,
                            output_truncated: response.output_truncated,
                        },
                    )
                }
            },
        }
    }
}

/// The execution that a conclusion makes of a request.
pub open spec fn execution_of(
    audit_id: Seq<char>,
    request: SkillActionRequest,
    action: SkillActionSpec,
    conclusion: ConclusionView,
    duration_millis: u64,
) -> ExecutionView {
    ExecutionView {
        audit_id,
        skill_id: request.skill_id@,
        tool_name: request.tool_name@,
        program: action.program@,
        outcome: conclusion.outcome,
        exit_code: conclusion.exit_code,
        stdout: conclusion.stdout,
        stderr: conclusion.stderr,
        output_truncated: conclusion.output_truncated,
        duration_millis,
    }
}

fn same_code(a: Option<i32>, b: Option<i32>) -> (r: bool)
    ensures
        r == (a == b),
{
    match a {
        Some(x) => match b {
            Some(y) => x == y,
            None => false,
        },
        None => b.is_none(),
    }
}

/// What is known of an action besides how it ended.
#[derive(Debug)]
pub struct ActionRecord {
    pub audit_id: String,
    pub duration_millis: u64,
    pub frame_limit: usize,
    pub max_output_bytes: usize,
}

/// What an action did, once its process has ended.
pub fn conclude(
    request: &SkillActionRequest,
    action: &SkillActionSpec,
    record: ActionRecord,
    end: ActionEnd,
) -> (r: Result<SkillActionExecution, SkillActionError>)
    requires
        record.frame_limit < usize::MAX,
    ensures
        match conclusion(end, record.frame_limit as nat, record.max_output_bytes as nat) {
            Err(error) => r is Err && r->Err_0@ == error,
            Ok(done) => r is Ok && r->Ok_0@ == execution_of(
                record.audit_id@,
                *request,
                *action,
                done,
                record.duration_millis,
            ),
        },
{
    let limit: usize = record.frame_limit;
    let maximum: usize = record.max_output_bytes;
    if end.stderr.truncated() {
        return Err(SkillActionError::FrameTooLarge { size: limit + 1, maximum: limit });
    }
    let process = end.stderr.text();
    let (outcome, exit_code, stdout, stderr, output_truncated) = match end.termination {
        ChildTermination::TimedOut => {
            if byte_len(process.as_str()) > maximum {
                return Err(SkillActionError::OutputLimit { maximum });
            }
            (
                SkillActionOutcome::TimedOut,
                None,
                String::new(),
                say_stopped("Skill action timed out", process.as_str()),
                false,
            )
        },
        ChildTermination::Cancelled => {
            if byte_len(process.as_str()) > maximum {
                return Err(SkillActionError::OutputLimit { maximum });
            }
            (
                SkillActionOutcome::Cancelled,
                None,
                String::new(),
                say_stopped("Skill action cancelled", process.as_str()),
                false,
            )
        },
        ChildTermination::Exited { code, success } => {
            if let Err(message) = end.written {
                return Err(
                    SkillActionError::Io { operation: "write action request", message },
                );
            }
            response_text(&end.stdout, limit)?;
            let response = match end.response {
                Ok(response) => response,
                Err(message) => return Err(SkillActionError::BadResponse(message)),
            };
            if let Err(message) = end.verdict {
                return Err(SkillActionError::Request(message));
            }
            let stderr = merge_stderr(response.stderr.as_str(), process.as_str());
            let said: usize = byte_len(response.stdout.as_str());
            let complained: usize = byte_len(stderr.as_str());
            if said > maximum || complained > maximum - said {
                return Err(SkillActionError::OutputLimit { maximum });
            }
            if !same_code(response.exit_code, code) {
                return Err(
                    SkillActionError::BadResponse(
                        "response exit_code did not match process status".to_owned(),
                    ),
                );
            }
            let outcome = match response.outcome {
                SkillActionOutcome::Success => {
                    if success {
                        SkillActionOutcome::Success
                    } else {
                        SkillActionOutcome::Failed
                    }
                },
                SkillActionOutcome::TimedOut => SkillActionOutcome::TimedOut,
                SkillActionOutcome::Cancelled => SkillActionOutcome::Cancelled,
                SkillActionOutcome::Failed => SkillActionOutcome::Failed,
            };
            (outcome, code, response.stdout, stderr, response.output_truncated)
        },
    };
    assert(end.termination is Exited || stdout@ =~= Seq::<char>::empty());
    Ok(
        SkillActionExecution {
            audit_id: record.audit_id,
            skill_id: request.skill_id.clone(),
            tool_name: request.tool_name.clone(),
            program: action.program.clone(),
            outcome,
            exit_code,
            stdout,
            stderr,
            output_truncated,
            duration_millis: record.duration_millis,
        },
    )
}

fn say_stopped(message: &str, process: &str) -> (r: String)
    ensures
        r@ == stopped_message(message@, process@),
{
    if process.is_empty() {
        message.to_owned()
    } else {
        text3(message, ": ", process)
    }
}

/// An action counts as a success only if it says so and its process ended well, with the exit
/// code that it gave.
pub proof fn lemma_success_is_earned(end: ActionEnd, frame_limit: nat, max_output: nat)
    requires
        conclusion(end, frame_limit, max_output) is Ok,
        conclusion(end, frame_limit, max_output)->Ok_0.outcome is Success,
    ensures
        end.termination is Exited,
        end.termination->success,
        end.response is Ok,
        end.response->Ok_0.outcome is Success,
        end.response->Ok_0.exit_code == end.termination->code,
{
}

/// What an action says never takes more bytes than it may. Of one that was stopped only the
/// reason is given, with what its process said at most.
pub proof fn lemma_output_is_bounded(end: ActionEnd, frame_limit: nat, max_output: nat)
    requires
        conclusion(end, frame_limit, max_output) is Ok,
    ensures
        ({
            let done = conclusion(end, frame_limit, max_output)->Ok_0;
            let process = lossy_text(end.stderr.spec_bytes());
            if end.termination is Exited {
                utf8_len(done.stdout) + utf8_len(done.stderr) <= max_output
            } else {
                &&& done.stdout.len() == 0
                &&& done.stderr == stopped_message("Skill action timed out"@, process)
                    || done.stderr == stopped_message("Skill action cancelled"@, process)
                &&& utf8_len(process) <= max_output
            }
        }),
{
}

/// The name under which an action is kept in the audit.
pub open spec fn audit_id_of(nanos: u128, counter: u64) -> Seq<char> {
    "skill-action-"@ + hex_of(nanos as nat) + "-"@ + hex_of(counter as nat)
}

pub fn new_audit_id(nanos: u128, counter: u64) -> (r: String)
    ensures
        r@ == audit_id_of(nanos, counter),
{
    text4("skill-action-", hex_u128(nanos).as_str(), "-", hex(counter).as_str())
}

} // verus!
