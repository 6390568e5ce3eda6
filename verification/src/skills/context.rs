//! The instructions that skills add to a conversation.
use vstd::prelude::*;

use crate::skills::discovery::{tool_count, DiscoveredSkill, DiscoverySnapshot};
use crate::text::{byte_len, str_eq, text3, texts, trim, trim_of, utf8_len};

verus! {

pub const MAX_CONTEXT_WARNINGS: usize = 32;

/// The instructions of one skill.
#[derive(Clone, Debug, PartialEq, Eq)]
pub struct SkillContextBlock {
    pub skill_id: String,
    pub instructions: String,
}

pub open spec fn blocks_view(blocks: Seq<SkillContextBlock>) -> Seq<(Seq<char>, Seq<char>)> {
    Seq::new(blocks.len(), |k: int| (blocks[k].skill_id@, blocks[k].instructions@))
}

#[derive(Clone, Debug, PartialEq, Eq)]
pub struct SkillContextResult {
    pub blocks: Vec<SkillContextBlock>,
    pub warnings: Vec<String>,
    pub truncated: bool,
}

pub struct ContextView {
    pub blocks: Seq<(Seq<char>, Seq<char>)>,
    pub warnings: Seq<Seq<char>>,
    pub truncated: bool,
}

/// The first skill of this identifier, from the `i`th on.
pub open spec fn skill_from(skills: Seq<DiscoveredSkill>, id: Seq<char>, i: int) -> Option<int>
    decreases skills.len() - i,
{
    if i >= skills.len() {
        None
    } else if skills[i].metadata.id@ == id {
        Some(i)
    } else {
        skill_from(skills, id, i + 1)
    }
}

pub(crate) fn find_skill(skills: &Vec<DiscoveredSkill>, id: &str) -> (r: Option<usize>)
    ensures
        match skill_from(skills@, id@, 0) {
            Some(at) => r is Some && r->0 == at && at < skills@.len(),
            None => r is None,
        },
{
    let n: usize = skills.len();
    let mut i: usize = 0;
    while i < n
        invariant
            n == skills@.len(),
            i <= n,
            skill_from(skills@, id@, 0) == skill_from(skills@, id@, i as int),
        decreases n - i,
    {
        if str_eq(skills[i].metadata.id.as_str(), id) {
            return Some(i);
        }
        i += 1;
    }
    None
}

/// How many bytes the instructions take.
pub open spec fn context_size(blocks: Seq<(Seq<char>, Seq<char>)>) -> nat
    decreases blocks.len(),
{
    if blocks.len() == 0 {
        0
    } else {
        context_size(blocks.drop_last()) + utf8_len(blocks.last().1)
    }
}

/// What one more requested skill adds: its instructions, if it has any and there is room for
/// them.
pub open spec fn context_with(
    skills: Seq<DiscoveredSkill>,
    id: Seq<char>,
    budget: nat,
    before: ContextView,
) -> ContextView {
    match skill_from(skills, id, 0) {
        None => ContextView {
            warnings: before.warnings.push("Skill `"@ + id + "` is not available"@),
            ..before
        },
        Some(at) => {
            let instructions = skills[at].instructions@;
            if trim_of(instructions).len() == 0 {
                ContextView {
                    warnings: before.warnings.push("Skill `"@ + id + "` has no instruction body"@),
                    ..before
                }
            } else if context_size(before.blocks) + utf8_len(instructions) > budget {
                ContextView {
                    warnings: before.warnings.push(
                        "Skill `"@ + id
                            + "` was omitted because the context budget was exhausted"@,
                    ),
                    truncated: true,
                    ..before
                }
            } else {
                ContextView { blocks: before.blocks.push((id, instructions)), ..before }
            }
        },
    }
}

/// What the skills from the `i`th on add.
pub open spec fn context_from(
    skills: Seq<DiscoveredSkill>,
    ids: Seq<Seq<char>>,
    budget: nat,
    i: int,
    before: ContextView,
) -> ContextView
    decreases ids.len() - i,
{
    if i >= ids.len() {
        before
    } else {
        context_from(skills, ids, budget, i + 1, context_with(skills, ids[i], budget, before))
    }
}

/// The instructions of the requested skills, and why some are missing.
pub open spec fn context_of(
    snapshot: DiscoverySnapshot,
    ids: Seq<Seq<char>>,
    budget: nat,
) -> ContextView {
    let all = context_from(
        snapshot.skills@,
        ids,
        budget,
        0,
        ContextView {
            blocks: Seq::empty(),
            warnings: texts(snapshot.warnings@),
            truncated: false,
        },
    );
    ContextView {
        warnings: if all.warnings.len() > MAX_CONTEXT_WARNINGS {
            all.warnings.take(MAX_CONTEXT_WARNINGS as int)
        } else {
            all.warnings
        },
        ..all
    }
}

pub(crate) fn copy_texts(items: &Vec<String>, limit: usize) -> (r: Vec<String>)
    ensures
        texts(r@) == if items@.len() > limit {
            texts(items@).take(limit as int)
        } else {
            texts(items@)
        },
{
    let n: usize = if items.len() > limit {
        limit
    } else {
        items.len()
    };
    let mut out: Vec<String> = Vec::new();
    let mut i: usize = 0;
    while i < n
        invariant
            n <= items@.len(),
            i <= n,
            out@.len() == i,
            forall|k: int| 0 <= k < i ==> (#[trigger] out@[k])@ == items@[k]@,
        decreases n - i,
    {
        out.push(items[i].clone());
        i += 1;
    }
    assert(texts(out@) =~= texts(items@).take(n as int));
    assert(texts(items@).take(items@.len() as int) =~= texts(items@));
    out
}

/// The instructions of the requested skills. All of them together stay within `budget` bytes.
pub fn context_result(snapshot: &DiscoverySnapshot, ids: &Vec<String>, budget: usize) -> (r:
    SkillContextResult)
    ensures
        blocks_view(r.blocks@) == context_of(*snapshot, texts(ids@), budget as nat).blocks,
        texts(r.warnings@) == context_of(*snapshot, texts(ids@), budget as nat).warnings,
        r.truncated == context_of(*snapshot, texts(ids@), budget as nat).truncated,
{
    let skills = &snapshot.skills;
    let mut blocks: Vec<SkillContextBlock> = Vec::new();
    let mut warnings = copy_texts(&snapshot.warnings, snapshot.warnings.len());
    let mut size: usize = 0;
    let mut truncated = false;
    let ghost all = texts(ids@);
    let ghost start = ContextView {
        blocks: Seq::empty(),
        warnings: texts(snapshot.warnings@),
        truncated: false,
    };
    let n: usize = ids.len();
    let mut i: usize = 0;
    assert(blocks_view(blocks@) =~= Seq::<(Seq<char>, Seq<char>)>::empty());
    while i < n
        invariant
            n == ids@.len(),
            i <= n,
            all == texts(ids@),
            *skills == snapshot.skills,
            size == context_size(blocks_view(blocks@)),
            size <= budget,
            context_from(skills@, all, budget as nat, 0, start) == context_from(
                skills@,
                all,
                budget as nat,
                i as int,
                (ContextView {
                    blocks: blocks_view(blocks@),
                    warnings: texts(warnings@),
                    truncated,
                }),
            ),
        decreases n - i,
    {
        assert(all[i as int] == ids@[i as int]@);
        let id = ids[i].as_str();
        let ghost before = warnings@;
        let ghost state = ContextView {
            blocks: blocks_view(blocks@),
            warnings: texts(warnings@),
            truncated,
        };
        match find_skill(skills, id) {
            None => {
                warnings.push(text3("Skill `", id, "` is not available"));
                assert(texts(warnings@) =~= texts(before).push(
                    "Skill `"@ + id@ + "` is not available"@,
                ));
            },
            Some(at) => {
                let instructions = skills[at].instructions.as_str();
                let length: usize = byte_len(instructions);
                if trim(instructions).is_empty() {
                    warnings.push(text3("Skill `", id, "` has no instruction body"));
                    assert(texts(warnings@) =~= texts(before).push(
                        "Skill `"@ + id@ + "` has no instruction body"@,
                    ));
                } else if length > budget - size {
                    warnings.push(
                        text3(
                            "Skill `",
                            id,
                            "` was omitted because the context budget was exhausted",
                        ),
                    );
                    assert(texts(warnings@) =~= texts(before).push(
                        "Skill `"@ + id@
                            + "` was omitted because the context budget was exhausted"@,
                    ));
                    truncated = true;
                } else {
                    let ghost held = blocks@;
                    size = size + length;
                    blocks.push(
                        SkillContextBlock {
                            skill_id: id.to_owned(),
                            instructions: instructions.to_owned(),
                        },
                    );
                    proof {
                        let after = blocks_view(blocks@);
                        assert(after =~= blocks_view(held).push((id@, instructions@)));
                        assert(after.drop_last() =~= blocks_view(held));
                    }
                }
            },
        }
        assert(context_with(skills@, id@, budget as nat, state) == (ContextView {
            blocks: blocks_view(blocks@),
            warnings: texts(warnings@),
            truncated,
        }));
        i += 1;
    }
    let shown = copy_texts(&warnings, MAX_CONTEXT_WARNINGS);
    SkillContextResult { blocks, warnings: shown, truncated }
}

/// The instructions that are handed out never take more bytes than there is room for, and there
/// are never more than [`MAX_CONTEXT_WARNINGS`] warnings beside them.
pub proof fn lemma_context_fits_its_budget(
    snapshot: DiscoverySnapshot,
    ids: Seq<Seq<char>>,
    budget: nat,
)
    ensures
        context_size(context_of(snapshot, ids, budget).blocks) <= budget,
        context_of(snapshot, ids, budget).warnings.len() <= MAX_CONTEXT_WARNINGS,
{
    let first = ContextView {
        blocks: Seq::empty(),
        warnings: texts(snapshot.warnings@),
        truncated: false,
    };
    lemma_context_fits(snapshot.skills@, ids, budget, 0, first);
}

proof fn lemma_context_fits(
    skills: Seq<DiscoveredSkill>,
    ids: Seq<Seq<char>>,
    budget: nat,
    i: int,
    before: ContextView,
)
    requires
        0 <= i,
        context_size(before.blocks) <= budget,
    ensures
        context_size(context_from(skills, ids, budget, i, before).blocks) <= budget,
    decreases ids.len() - i,
{
    if i < ids.len() {
        let next = context_with(skills, ids[i], budget, before);
        if next.blocks.len() > before.blocks.len() {
            assert(next.blocks.drop_last() =~= before.blocks);
        }
        lemma_context_fits(skills, ids, budget, i + 1, next);
    }
}

/// How many tools the skills of a snapshot describe.
pub fn count_tools(skills: &Vec<DiscoveredSkill>) -> (r: usize)
    requires
        tool_count(skills@) <= usize::MAX,
    ensures
        r == tool_count(skills@),
{
    let n: usize = skills.len();
    let mut count: usize = 0;
    let mut i: usize = 0;
    assert(skills@.take(0) =~= Seq::<DiscoveredSkill>::empty());
    while i < n
        invariant
            n == skills@.len(),
            i <= n,
            count == tool_count(skills@.take(i as int)),
            tool_count(skills@) <= usize::MAX,
        decreases n - i,
    {
        proof {
            assert(skills@.take(i + 1).drop_last() =~= skills@.take(i as int));
            lemma_fewer_tools(skills@, i + 1);
        }
        count += skills[i].metadata.tools.len();
        i += 1;
    }
    assert(skills@.take(n as int) =~= skills@);
    count
}

proof fn lemma_fewer_tools(skills: Seq<DiscoveredSkill>, n: int)
    requires
        0 <= n <= skills.len(),
    ensures
        tool_count(skills.take(n)) <= tool_count(skills),
    decreases skills.len() - n,
{
    if n == skills.len() {
        assert(skills.take(n) =~= skills);
    } else {
        lemma_fewer_tools(skills, n + 1);
        assert(skills.take(n + 1).drop_last() =~= skills.take(n));
    }
}

} // verus!
