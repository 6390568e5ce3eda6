//! Which names, skills, actions and places are accepted.
use vstd::prelude::*;

use crate::grants::ActionGrant;
use crate::paths::Location;
use crate::skills::action::{
    after_poll, all_declarations, check_scope, declarations_view, skill_declarations, ActionScope,
    ChildTermination, PathProbe, SkillActionDeclaration, SkillActionExecutor,
};
use crate::skills::config::{
    listed_ids, once_each, parse_bool, parse_disabled, validate_skill_id, SkillsConfig,
};
use crate::skills::discovery::{
    actions_problem_from, all_described, check_actions, complete_skill, describes, discovered,
    named_before, DiscoveredSkill, DiscoverySnapshot, FoundView, RootProbe, SkillActionSpec,
    SkillDocument, SkillLimits, SkillParts, SkillToolDescriptor,
};
use crate::skills::error::{
    DiscoveryErrorView, SkillActionError, SkillLoadError, SkillsConfigError, SkillsConfigErrorView,
};
use crate::skills::plugin::{list_result, SkillListResult};
use crate::text::{
    all_space, is_ascii_digit, is_ascii_lower, is_space, join_of, lemma_split_of_joined,
    lemma_trim_of_padded, split_of, texts, trim_of,
};
use crate::text_map::{lemma_one_more_entry, sorted};

verus! {

// ---------------------------------------------------------------------------
// Names and switches
// ---------------------------------------------------------------------------
/// A name of small letters, digits, dashes and underscores that starts with a letter and ends in
/// a letter or a digit.
pub open spec fn is_good_name(id: Seq<char>) -> bool {
    &&& id.len() > 0
    &&& is_ascii_lower(id[0])
    &&& is_ascii_lower(id.last()) || is_ascii_digit(id.last())
    &&& forall|k: int|
        0 <= k < id.len() ==> is_ascii_lower(#[trigger] id[k]) || is_ascii_digit(id[k]) || id[k]
            == '-' || id[k] == '_'
}

/// Good names are accepted, and no others.
pub proof fn lemma_good_names_are_accepted(id: &str, r: Result<(), SkillsConfigError>)
    requires
        call_ensures(validate_skill_id, (id,), r),
    ensures
        r is Ok <==> is_good_name(id@),
{
    if id@.len() > 0 {
        assert(id@[id@.len() - 1] == id@.last());
    }
}

proof fn lemma_names_are_listed(pieces: Seq<Seq<char>>, i: int, ids: Seq<Seq<char>>)
    requires
        0 <= i <= pieces.len(),
        forall|k: int| 0 <= k < pieces.len() ==> is_good_name(#[trigger] pieces[k]),
    ensures
        listed_ids(pieces, i, ids) == Ok::<Seq<Seq<char>>, SkillsConfigErrorView>(
            ids + pieces.skip(i),
        ),
    decreases pieces.len() - i,
{
    if i < pieces.len() {
        let id = pieces[i];
        assert(is_good_name(id));
        assert(id[id.len() - 1] == id.last());
        let nothing = Seq::<char>::empty();
        assert(all_space(nothing));
        assert(!is_space(id[0]) && !is_space(id.last()));
        lemma_trim_of_padded(nothing, id, nothing);
        assert(nothing + id + nothing =~= id);
        lemma_names_are_listed(pieces, i + 1, ids.push(id));
        assert(ids.push(id) + pieces.skip(i + 1) =~= ids + pieces.skip(i));
    } else {
        assert(ids + pieces.skip(i) =~= ids);
    }
}

/// Skills are switched off by their names, with commas between them; whoever names none
/// switches none off.
pub proof fn lemma_named_skills_are_switched_off(
    value: &str,
    names: Seq<Seq<char>>,
    r: Result<Vec<String>, SkillsConfigError>,
    without: Result<Vec<String>, SkillsConfigError>,
)
    requires
        call_ensures(parse_disabled, (Some(value),), r),
        call_ensures(parse_disabled, (None,), without),
        names.len() > 0,
        value@ == join_of(names, seq![',']),
        forall|k: int| 0 <= k < names.len() ==> is_good_name(#[trigger] names[k]),
    ensures
        r is Ok && texts(r->Ok_0@) == names,
        without is Ok && without->Ok_0@.len() == 0,
{
    assert forall|k: int| 0 <= k < names.len() implies !(#[trigger] names[k]).contains(',') by {
        assert(is_good_name(names[k]));
    }
    lemma_split_of_joined(names, ',');
    lemma_names_are_listed(names, 0, Seq::empty());
    assert(Seq::<Seq<char>>::empty() + names.skip(0) =~= names);
    assert(texts(without->Ok_0@).len() == without->Ok_0@.len());
}

proof fn lemma_bad_name_is_refused(pieces: Seq<Seq<char>>, i: int, ids: Seq<Seq<char>>, k: int)
    requires
        0 <= i <= k < pieces.len(),
        trim_of(pieces[k]).len() > 0,
        !is_good_name(trim_of(pieces[k])),
    ensures
        listed_ids(pieces, i, ids) is Err,
    decreases pieces.len() - i,
{
    let id = trim_of(pieces[i]);
    if id.len() > 0 {
        assert(id[id.len() - 1] == id.last());
    }
    if i < k {
        if id.len() == 0 {
            lemma_bad_name_is_refused(pieces, i + 1, ids, k);
        } else {
            lemma_bad_name_is_refused(pieces, i + 1, ids.push(id), k);
        }
    }
}

/// A list with a bad name in it is refused.
pub proof fn lemma_bad_names_are_refused(
    value: &str,
    r: Result<Vec<String>, SkillsConfigError>,
    k: int,
)
    requires
        call_ensures(parse_disabled, (Some(value),), r),
        0 <= k < split_of(value@, ',').len(),
        trim_of(split_of(value@, ',')[k]).len() > 0,
        !is_good_name(trim_of(split_of(value@, ',')[k])),
    ensures
        r is Err,
{
    lemma_bad_name_is_refused(split_of(value@, ','), 0, Seq::empty(), k);
}

/// Actions are switched on by a word that says so, and stay off without one; a word that says
/// neither is refused. White space around the word makes no difference.
pub proof fn lemma_actions_are_switched_by_words(
    value: &str,
    r: Result<bool, SkillsConfigError>,
    without: Result<bool, SkillsConfigError>,
)
    requires
        call_ensures(parse_bool, (Some(value),), r),
        call_ensures(parse_bool, (None,), without),
    ensures
        without matches Ok(on) && !on,
        r matches Ok(on) && on <==> (trim_of(value@) == "1"@ || trim_of(value@) == "true"@
            || trim_of(value@) == "TRUE"@ || trim_of(value@) == "yes"@ || trim_of(value@) == "on"@),
        trim_of(value@).len() == 0 || trim_of(value@) == "0"@ || trim_of(value@) == "no"@
            || trim_of(value@) == "off"@ || trim_of(value@) == "false"@ ==> (r matches Ok(on)
            && !on),
{
    reveal_strlit("0");
    reveal_strlit("1");
    reveal_strlit("no");
    reveal_strlit("on");
    reveal_strlit("off");
    reveal_strlit("yes");
    reveal_strlit("true");
    reveal_strlit("TRUE");
    reveal_strlit("false");
    reveal_strlit("FALSE");
    assert("0"@[0] != "1"@[0]);
    assert("no"@[0] != "on"@[0]);
    assert("off"@[0] != "yes"@[0]);
}

proof fn lemma_each_is_listed_once(ids: Seq<Seq<char>>, id: Seq<char>)
    ensures
        sorted(once_each(ids)),
        once_each(ids).contains((id, ())) <==> ids.contains(id),
    decreases ids.len(),
{
    if ids.len() > 0 {
        let front = ids.drop_last();
        let last = ids.last();
        lemma_each_is_listed_once(front, id);
        lemma_one_more_entry(once_each(front), last, (), (id, ()));
        assert(ids[ids.len() - 1] == last);
        if front.contains(id) {
            let k = choose|k: int| 0 <= k < front.len() && front[k] == id;
            assert(ids[k] == id);
        }
        if ids.contains(id) && id != last {
            let k = choose|k: int| 0 <= k < ids.len() && ids[k] == id;
            assert(front[k] == id);
        }
    }
}

/// A skill is off if and only if the configuration was made with its name; actions are off in any
/// case, and the skills are looked for where the configuration says.
pub proof fn lemma_configurations_switch_off_what_they_name(
    root: &str,
    disabled: Vec<String>,
    current: Result<String, String>,
    config: SkillsConfig,
    id: &str,
    off: bool,
)
    requires
        call_ensures(
            SkillsConfig::new,
            (root, disabled, &current),
            Ok::<SkillsConfig, SkillsConfigError>(config),
        ),
        call_ensures(SkillsConfig::is_disabled, (&config, id), off),
    ensures
        off <==> texts(disabled@).contains(id@),
        !config@.actions_enabled,
        root@.len() > 0 && root@[0] == '/' ==> config@.root == root@,
        (root@.len() == 0 || root@[0] != '/') ==> current is Ok
            && current->Ok_0@.is_prefix_of(config@.root) && root@.is_suffix_of(config@.root),
{
    lemma_each_is_listed_once(texts(disabled@), id@);
    let all = config@.disabled;
    if off {
        let k = choose|k: int| 0 <= k < all.len() && (#[trigger] all[k]).0 == id@;
        assert(all[k] == (id@, ()));
    }
    if all.contains((id@, ())) {
        let k = choose|k: int| 0 <= k < all.len() && all[k] == (id@, ());
        assert(all[k].0 == id@);
    }
    if root@.len() == 0 || root@[0] != '/' {
        let path = config@.root;
        assert(current->Ok_0@ =~= path.subrange(0, current->Ok_0@.len() as int));
        assert(root@ =~= path.subrange(path.len() - root@.len(), path.len() as int));
    }
}

// ---------------------------------------------------------------------------
// Skills
// ---------------------------------------------------------------------------
proof fn lemma_actions_are_told_apart(
    actions: Seq<SkillActionSpec>,
    verdicts: Seq<Result<(), String>>,
    i: int,
)
    requires
        0 <= i <= actions.len(),
        verdicts.len() == actions.len(),
    ensures
        actions_problem_from(actions, verdicts, i) is None <==> (forall|k: int|
            i <= k < actions.len() ==> (#[trigger] verdicts[k]) is Ok) && (forall|j: int, k: int|
            0 <= j < k && i <= k < actions.len() ==> (#[trigger] actions[j]).tool_name@ != (
            #[trigger] actions[k]).tool_name@),
    decreases actions.len() - i,
{
    if i < actions.len() {
        lemma_actions_are_told_apart(actions, verdicts, i + 1);
        if verdicts[i] is Ok && !named_before(actions, i, actions[i].tool_name@) {
            assert forall|j: int, k: int|
                actions_problem_from(actions, verdicts, i + 1) is None && 0 <= j < k && i <= k
                    < actions.len() implies (#[trigger] actions[j]).tool_name@ != (
            #[trigger] actions[k]).tool_name@ by {
                if k == i {
                    assert(actions[j].tool_name@ != actions[i].tool_name@);
                }
            }
        }
        if named_before(actions, i, actions[i].tool_name@) {
            let j = choose|j: int|
                0 <= j < i && (#[trigger] actions[j]).tool_name@ == actions[i].tool_name@;
            assert(actions[j].tool_name@ == actions[i].tool_name@);
        }
    }
}

/// The actions of a skill are accepted if and only if there are not too many, the host has nothing
/// against any of them, and no two are for the same tool.
pub proof fn lemma_actions_are_accepted(
    actions: Vec<SkillActionSpec>,
    verdicts: Vec<Result<(), String>>,
    maximum: usize,
    r: Result<(), SkillLoadError>,
)
    requires
        call_ensures(check_actions, (&actions, &verdicts, maximum), r),
        verdicts@.len() == actions@.len(),
    ensures
        r is Ok <==> {
            &&& actions@.len() <= maximum
            &&& forall|k: int| 0 <= k < actions@.len() ==> (#[trigger] verdicts@[k]) is Ok
            &&& forall|j: int, k: int|
                0 <= j < k < actions@.len() ==> (#[trigger] actions@[j]).tool_name@ != (
                #[trigger] actions@[k]).tool_name@
        },
{
    lemma_actions_are_told_apart(actions@, verdicts@, 0);
}

/// One of the tools has this name.
pub open spec fn has_tool_named(tools: Seq<SkillToolDescriptor>, name: Seq<char>) -> bool {
    exists|j: int| 0 <= j < tools.len() && (#[trigger] tools[j]).name@ == name
}

/// A skill is put together if and only if all of it is good and each of its actions is for a tool
/// that it describes; it is then made of what it was put together from.
pub proof fn lemma_skills_are_made_of_their_parts(
    document: SkillDocument,
    parts: SkillParts,
    r: Result<DiscoveredSkill, SkillLoadError>,
)
    requires
        call_ensures(complete_skill, (document, parts), r),
    ensures
        r is Ok <==> {
            &&& parts.instructions_verdict is Ok
            &&& parts.metadata_verdict is Ok
            &&& parts.directory is Ok
            &&& parts.tools matches Ok(tools) && (parts.actions matches Ok(actions) && forall|k: int|
                0 <= k < actions@.len() ==> has_tool_named(
                    tools@,
                    (#[trigger] actions@[k]).tool_name@,
                ))
        },
        r matches Ok(skill) ==> {
            &&& skill.metadata.id@ == document@.id
            &&& skill.metadata.name@ == document@.name
            &&& skill.metadata.description@ == document@.description
            &&& skill.metadata.path@ == document@.path
            &&& skill.instructions@ == document@.instructions
            &&& skill.metadata.tools == parts.tools->Ok_0
            &&& skill.actions == parts.actions->Ok_0
            &&& skill.directory == parts.directory->Ok_0
        },
{
    if parts.tools is Ok && parts.actions is Ok {
        let tools = parts.tools->Ok_0@;
        let actions = parts.actions->Ok_0@;
        assert forall|name: Seq<char>| #[trigger] has_tool_named(tools, name) == describes(
            tools,
            name,
        ) by {}
        if forall|k: int|
            0 <= k < actions.len() ==> has_tool_named(tools, (#[trigger] actions[k]).tool_name@) {
            assert(all_described(actions, tools)) by {
                assert forall|k: int| 0 <= k < actions.len() implies describes(
                    tools,
                    (#[trigger] actions[k]).tool_name@,
                ) by {
                    assert(has_tool_named(tools, actions[k].tool_name@));
                }
            }
        }
    }
}

/// Whoever asks for a list gets the skills that were found, each as it describes itself and in the
/// order in which they were found, and all that there was to warn of.
pub proof fn lemma_lists_show_what_was_found(
    snapshot: DiscoverySnapshot,
    r: SkillListResult,
    k: int,
)
    requires
        call_ensures(list_result, (&snapshot,), r),
    ensures
        r.skills@.len() == snapshot.skills@.len(),
        0 <= k < r.skills@.len() ==> r.skills@[k].id@ == snapshot.skills@[k].metadata.id@
            && r.skills@[k].name@ == snapshot.skills@[k].metadata.name@
            && r.skills@[k].description@ == snapshot.skills@[k].metadata.description@,
        texts(r.warnings@) == texts(snapshot.warnings@),
        r.root@ == snapshot.root@,
        r.truncated == snapshot.truncated,
{
    if 0 <= k < r.skills@.len() {
        assert(r.skills@[k]@ == snapshot.skills@[k].metadata@);
    }
}

// ---------------------------------------------------------------------------
// Actions
// ---------------------------------------------------------------------------
/// The declaration is of this action of this skill.
pub open spec fn is_declared(
    declaration: SkillActionDeclaration,
    skill: DiscoveredSkill,
    a: int,
) -> bool {
    &&& declaration@.skill_id == skill.metadata.id@
    &&& declaration@.tool_name == skill.actions@[a].tool_name@
    &&& declaration@.requires_workspace_write == skill.actions@[a].requires_workspace_write
}

proof fn lemma_all_actions_are_declared(skills: Seq<DiscoveredSkill>, s: int, a: int)
    requires
        0 <= s < skills.len(),
        0 <= a < skills[s].actions@.len(),
    ensures
        all_declarations(skills).contains(skill_declarations(skills[s])[a]),
    decreases skills.len(),
{
    let front = skills.drop_last();
    let wanted = skill_declarations(skills[s])[a];
    if s < front.len() {
        assert(front[s] == skills[s]);
        lemma_all_actions_are_declared(front, s, a);
        let j = choose|j: int|
            0 <= j < all_declarations(front).len() && all_declarations(front)[j] == wanted;
        assert(all_declarations(skills)[j] == wanted);
    } else {
        assert(skills.last() == skills[s]);
        assert(all_declarations(skills)[all_declarations(front).len() + a] == wanted);
    }
}

proof fn lemma_declarations_are_of_actions(skills: Seq<DiscoveredSkill>, j: int)
    requires
        0 <= j < all_declarations(skills).len(),
    ensures
        exists|s: int, a: int|
            0 <= s < skills.len() && 0 <= a < (#[trigger] skills[s]).actions@.len() && (
            #[trigger] skill_declarations(skills[s])[a]) == all_declarations(skills)[j],
    decreases skills.len(),
{
    let front = skills.drop_last();
    let n = all_declarations(front).len() as int;
    if j < n {
        lemma_declarations_are_of_actions(front, j);
        let (s, a) = choose|s: int, a: int|
            0 <= s < front.len() && 0 <= a < (#[trigger] front[s]).actions@.len() && (
            #[trigger] skill_declarations(front[s])[a]) == all_declarations(front)[j];
        assert(skills[s] == front[s]);
        assert(skill_declarations(skills[s])[a] == all_declarations(skills)[j]);
    } else {
        let s = skills.len() - 1;
        assert(skills[s] == skills.last());
        assert(skill_declarations(skills[s])[j - n] == all_declarations(skills)[j]);
    }
}

/// Every action of a skill that is found is declared with its skill, its tool and whether it
/// writes, and nothing else is declared.
pub proof fn lemma_every_action_is_declared(
    executor: SkillActionExecutor,
    limits: SkillLimits,
    probe: RootProbe,
    found: FoundView,
    r: Vec<SkillActionDeclaration>,
    s: int,
    a: int,
    j: int,
)
    requires
        call_ensures(
            SkillActionExecutor::declarations,
            (&executor, limits, probe),
            Ok::<Vec<SkillActionDeclaration>, SkillActionError>(r),
        ),
        discovered(executor.spec_config(), limits, probe) == Ok::<FoundView, DiscoveryErrorView>(
            found,
        ),
    ensures
        0 <= s < found.skills.len() && 0 <= a < found.skills[s].actions@.len() ==> exists|k: int|
            0 <= k < r@.len() && is_declared(#[trigger] r@[k], found.skills[s], a),
        0 <= j < r@.len() ==> exists|t: int, b: int|
            0 <= t < found.skills.len() && 0 <= b < found.skills[t].actions@.len() && #[trigger] is_declared(
                r@[j],
                found.skills[t],
                b,
            ),
{
    let shown = declarations_view(r@);
    if 0 <= s < found.skills.len() && 0 <= a < found.skills[s].actions@.len() {
        lemma_all_actions_are_declared(found.skills, s, a);
        let k = choose|k: int|
            0 <= k < shown.len() && shown[k] == skill_declarations(found.skills[s])[a];
        assert(shown[k] == r@[k]@);
        assert(is_declared(r@[k], found.skills[s], a));
    }
    if 0 <= j < r@.len() {
        assert(shown[j] == r@[j]@);
        lemma_declarations_are_of_actions(found.skills, j);
        let (t, b) = choose|t: int, b: int|
            0 <= t < found.skills.len() && 0 <= b < (#[trigger] found.skills[t]).actions@.len() && (
            #[trigger] skill_declarations(found.skills[t])[b]) == all_declarations(found.skills)[j];
        assert(is_declared(r@[j], found.skills[t], b));
    }
}

/// No action is run unless the host has nothing against the request, actions are switched on, the
/// grant is approved, and it grants neither network nor secrets.
pub proof fn lemma_actions_need_leave(
    executor: SkillActionExecutor,
    verdict: Result<(), String>,
    grant: ActionGrant,
    r: Result<(), SkillActionError>,
)
    requires
        call_ensures(SkillActionExecutor::approve, (&executor, &verdict, &grant), r),
    ensures
        r is Ok <==> {
            &&& verdict is Ok
            &&& executor.spec_config().actions_enabled
            &&& grant.approval is Some && grant.objection is None
            &&& !grant.allow_network
            &&& grant.secret_grant.references().len() == 0
        },
{
}

/// The path leads to what it should lead to, at or below this place.
pub open spec fn leads_into(probe: PathProbe, place: Location) -> bool {
    probe.fits && (probe.resolved matches Ok(found) && place.parts().is_prefix_of(found.parts()))
}

/// An action is run if and only if it stays where it belongs: the skills and the directory it runs
/// in lie in the workspace, its skill among the skills, and its program in its skill.
pub proof fn lemma_actions_stay_in_place(
    scope: ActionScope,
    skill: Location,
    r: Result<(), SkillActionError>,
)
    requires
        call_ensures(check_scope, (&scope, &skill), r),
    ensures
        r is Ok <==> {
            &&& scope.workspace_root.fits
            &&& scope.workspace_root.resolved matches Ok(workspace) && leads_into(
                scope.skills_root,
                workspace,
            ) && leads_into(scope.working_directory, workspace)
            &&& scope.skills_root.resolved matches Ok(skills) && skills.parts().is_prefix_of(
                skill.parts(),
            )
            &&& leads_into(scope.program, skill)
        },
{
    if scope.workspace_root.resolved is Ok && scope.skills_root.resolved is Ok {
        lemma_within(scope.skills_root.resolved->Ok_0, scope.workspace_root.resolved->Ok_0);
    }
    if scope.workspace_root.resolved is Ok && scope.working_directory.resolved is Ok {
        lemma_within(scope.working_directory.resolved->Ok_0, scope.workspace_root.resolved->Ok_0);
    }
    if scope.skills_root.resolved is Ok {
        lemma_within(skill, scope.skills_root.resolved->Ok_0);
    }
    if scope.program.resolved is Ok {
        lemma_within(scope.program.resolved->Ok_0, skill);
    }
}

proof fn lemma_within(path: Location, root: Location)
    ensures
        path.within(root) <==> root.parts().is_prefix_of(path.parts()),
{
    let n = root.parts().len() as int;
    if n <= path.parts().len() {
        assert(path.parts().take(n) =~= path.parts().subrange(0, n));
    }
}

/// An action that has exited has ended as it did; one that is called off or overdue is ended, and
/// any other goes on.
pub proof fn lemma_actions_end_in_time(
    exited: Option<(Option<i32>, bool)>,
    cancelled: bool,
    overdue: bool,
    r: Option<ChildTermination>,
)
    requires
        call_ensures(after_poll, (exited, cancelled, overdue), r),
    ensures
        r is None <==> exited is None && !cancelled && !overdue,
        exited matches Some((code, success)) ==> r == Some(
            ChildTermination::Exited { code, success },
        ),
        exited is None && cancelled ==> r == Some(ChildTermination::Cancelled),
        exited is None && !cancelled && overdue ==> r == Some(ChildTermination::TimedOut),
{
}

} // verus!
