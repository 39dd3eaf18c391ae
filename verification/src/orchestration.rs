//! What the writing run records between its model calls: its goals, what it
//! remembers, its commit messages, and the texts it sends and reads back.
use vstd::prelude::*;
use vstd::string::StringExecFns;

use crate::agent::{stage_name, stage_skills, DramaStage, ExecutionLogEntry};
use crate::stamp::{now_rfc3339, utc_rfc3339_stamp};
use crate::goals::{goal_of, reset_goal, with_status, Goal, GoalStatus, GoalTracker, GoalType};
use crate::memory::{MemoryCategory, MemorySource, MemoryStore};
use crate::quality::{level_name, QualityLevel};
use crate::skills::{
    lookup, rendered, strs, ReviewIssue, ReviewResult, SkillDefinition, SkillExecution, SkillFactory, SkillMode,
    SkillRegistry, SkillReview, TemplateRenderer,
};
use crate::llm::{kv_lookup, AgentContext};
use crate::text::{
    chars_of, decimal, extend_chars, find, find_exec, index_of, index_of_exec, is_numeric, last_index_of,
    last_index_of_exec, lemma_index_of_facts, lemma_last_index_of_facts, numeric, prefix_by_bytes, prefix_bytes,
    push_decimal, push_str, slice_from, slice_range, string_of,
};
use crate::tools::{push_tenths, tenths};

verus! {

/// The goals a run starts with: `(name, description, type, priority,
/// criteria, attempts)`, for the drama titled `title` and the target level.
pub open spec fn initial_goal(k: int, title: Seq<char>, target: Seq<char>) -> (Seq<char>, Seq<char>, GoalType, u8, Seq<char>, u32) {
    if k == 0 {
        ("完成短剧创作"@, "完成短剧「"@ + title + "」的全部创作流程"@, GoalType::ScriptCreation, 10,
            "所有阶段(Planning/Writing/Review/Polishing)完成且质量达标"@, 1)
    } else if k == 1 {
        ("质量达标"@, "达到 "@ + target + " 质量等级"@, GoalType::QualityTarget, 9,
            "质量评估分数达到 "@ + target + " 等级"@, 10)
    } else {
        let s = stage_name(if k == 2 {
            DramaStage::Planning
        } else if k == 3 {
            DramaStage::Writing
        } else if k == 4 {
            DramaStage::Review
        } else {
            DramaStage::Polishing
        });
        ("完成 "@ + s + " 阶段"@, "完成 "@ + s + " 阶段所有 skill 执行"@, GoalType::StageComplete, 7,
            s + " 阶段所有 skill 执行成功"@, 5)
    }
}

/// The goal is a fresh goal made from the given fields.
pub open spec fn is_fresh_goal(g: Goal, f: (Seq<char>, Seq<char>, GoalType, u8, Seq<char>, u32)) -> bool {
    &&& g.name@ == f.0
    &&& g.description@ == f.1
    &&& g.goal_type == f.2
    &&& g.priority == f.3
    &&& g.completion_criteria@ == f.4
    &&& g.max_attempts == f.5
    &&& g.status == GoalStatus::Pending
    &&& g.sub_goals@.len() == 0
    &&& g.evaluation is None
    &&& g.attempts == 0
}

fn create_initial_goal(tracker: &mut GoalTracker, name: &str, description: &str, goal_type: GoalType, priority: u8, criteria: &str, attempts: u32) -> (r: String)
    requires
        old(tracker).wf(),
    ensures
        final(tracker).wf(),
        goal_of(final(tracker).goal_list(), r@) matches Some(g)
            && is_fresh_goal(g, (name@, description@, goal_type, priority, criteria@, attempts)),
        forall|other: Seq<char>| other != r@ ==> goal_of(final(tracker).goal_list(), other) == goal_of(old(tracker).goal_list(), other),
{
    tracker.create_goal(name, description, goal_type, priority, criteria, attempts)
}

/// Resets the goals and adds the goals of a new run: the drama (titled
/// `未命名短剧` when no title is given), the target quality, and one per
/// stage; returns their ids in that order.  A goal whose id a later goal
/// took is replaced by it; every earlier goal stays, reset.
pub fn init_goals(tracker: &mut GoalTracker, title: Option<&str>, target_level: &str) -> (r: Vec<String>)
    requires
        old(tracker).wf(),
    ensures
        final(tracker).wf(),
        r@.len() == 6,
        forall|id: Seq<char>| (forall|k: int| 0 <= k < 6 ==> #[trigger] r@[k]@ != id)
            ==> (#[trigger] goal_of(old(tracker).goal_list(), id) matches Some(g)
                ==> (goal_of(final(tracker).goal_list(), id) matches Some(h) && h == reset_goal(g, h.updated_at))),
        forall|k: int| 0 <= k < 6 && (forall|j: int| k < j < 6 ==> r@[j]@ != r@[k]@)
            ==> (goal_of(final(tracker).goal_list(), #[trigger] r@[k]@) matches Some(g) && is_fresh_goal(
                g,
                initial_goal(k, match title { Some(t) => t@, None => "未命名短剧"@ }, target_level@),
            )),
{
    let ghost l0 = tracker.goal_list();
    tracker.reset();
    let ghost l1 = tracker.goal_list();
    let t = match title { Some(t) => t, None => "未命名短剧" };
    let ghost tt = t@;
    let mut ids: Vec<String> = Vec::new();

    let mut d: Vec<char> = Vec::new();
    push_str(&mut d, "完成短剧「");
    push_str(&mut d, t);
    push_str(&mut d, "」的全部创作流程");
    let d = string_of(d.as_slice());
    let id0 = create_initial_goal(tracker, "完成短剧创作", d.as_str(), GoalType::ScriptCreation, 10,
        "所有阶段(Planning/Writing/Review/Polishing)完成且质量达标", 1);
    ids.push(id0);
    let ghost after0 = tracker.goal_list();
    proof {
        assert(d@ =~= initial_goal(0, tt, target_level@).1);
        assert(goal_of(tracker.goal_list(), ids@[0]@) matches Some(g)
            && is_fresh_goal(g, initial_goal(0, tt, target_level@)));
    }

    let mut d: Vec<char> = Vec::new();
    push_str(&mut d, "达到 ");
    push_str(&mut d, target_level);
    push_str(&mut d, " 质量等级");
    let d = string_of(d.as_slice());
    let mut c: Vec<char> = Vec::new();
    push_str(&mut c, "质量评估分数达到 ");
    push_str(&mut c, target_level);
    push_str(&mut c, " 等级");
    let c = string_of(c.as_slice());
    let id1 = create_initial_goal(tracker, "质量达标", d.as_str(), GoalType::QualityTarget, 9, c.as_str(), 10);
    ids.push(id1);
    proof {
        assert forall|x: Seq<char>| (forall|k: int| 0 <= k < ids@.len() ==> #[trigger] ids@[k]@ != x)
            implies goal_of(tracker.goal_list(), x) == goal_of(l1, x) by {
            assert(ids@[0]@ != x);
            assert(ids@[1]@ != x);
            assert(goal_of(after0, x) == goal_of(l1, x));
        }

        assert(d@ =~= initial_goal(1, tt, target_level@).1);
        assert(c@ =~= initial_goal(1, tt, target_level@).4);
        assert forall|k: int| 0 <= k < 2 && (forall|j: int| k < j < 2 ==> ids@[j]@ != ids@[k]@)
            implies (goal_of(tracker.goal_list(), #[trigger] ids@[k]@) matches Some(g)
                && is_fresh_goal(g, initial_goal(k, tt, target_level@))) by {
            if k == 0 {
                assert(ids@[1]@ != ids@[0]@);
            }
        }
    }

    let stages = DramaStage::all_stages();
    let mut i: usize = 0;
    while i < stages.len()
        invariant
            tracker.wf(),
            i <= stages.len(),
            stages@ == seq![DramaStage::Planning, DramaStage::Writing, DramaStage::Review, DramaStage::Polishing],
            ids@.len() == 2 + i,
            forall|id: Seq<char>| (forall|k: int| 0 <= k < ids@.len() ==> #[trigger] ids@[k]@ != id)
                ==> goal_of(tracker.goal_list(), id) == goal_of(l1, id),
            forall|k: int| 0 <= k < 2 + i && (forall|j: int| k < j < 2 + i ==> ids@[j]@ != ids@[k]@)
                ==> (goal_of(tracker.goal_list(), #[trigger] ids@[k]@) matches Some(g)
                    && is_fresh_goal(g, initial_goal(k, tt, target_level@))),
        decreases stages.len() - i,
    {
        let s = stages[i].as_str();
        let mut n: Vec<char> = Vec::new();
        push_str(&mut n, "完成 ");
        push_str(&mut n, s);
        push_str(&mut n, " 阶段");
        let n = string_of(n.as_slice());
        let mut d: Vec<char> = Vec::new();
        push_str(&mut d, "完成 ");
        push_str(&mut d, s);
        push_str(&mut d, " 阶段所有 skill 执行");
        let d = string_of(d.as_slice());
        let mut c: Vec<char> = Vec::new();
        push_str(&mut c, s);
        push_str(&mut c, " 阶段所有 skill 执行成功");
        let c = string_of(c.as_slice());
        let ghost gl0 = tracker.goal_list();
        let ghost ids0 = ids@;
        let id = create_initial_goal(tracker, n.as_str(), d.as_str(), GoalType::StageComplete, 7, c.as_str(), 5);
        ids.push(id);
        proof {
            let k_new = 2 + i as int;
            let f = initial_goal(k_new, tt, target_level@);
            assert(stage_name(stages@[i as int]) == s@);
            assert(n@ =~= f.0);
            assert(d@ =~= f.1);
            assert(c@ =~= f.4);
            assert forall|k: int| 0 <= k < 3 + i && (forall|j: int| k < j < 3 + i ==> ids@[j]@ != ids@[k]@)
                implies (goal_of(tracker.goal_list(), #[trigger] ids@[k]@) matches Some(g)
                    && is_fresh_goal(g, initial_goal(k, tt, target_level@))) by {
                if k < 2 + i {
                    assert(ids@[k] == ids0[k]);
                    assert(ids@[k_new]@ != ids@[k]@);
                    assert forall|j: int| k < j < 2 + i implies ids0[j]@ != ids0[k]@ by {
                        assert(ids@[j] == ids0[j]);
                    }
                    assert(goal_of(tracker.goal_list(), ids@[k]@) == goal_of(gl0, ids0[k]@));
                }
            }
            assert forall|x: Seq<char>| (forall|k: int| 0 <= k < ids@.len() ==> #[trigger] ids@[k]@ != x)
                implies goal_of(tracker.goal_list(), x) == goal_of(l1, x) by {
                assert(ids@[k_new]@ != x);
                assert forall|k: int| 0 <= k < ids0.len() implies #[trigger] ids0[k]@ != x by {
                    assert(ids@[k] == ids0[k]);
                }
            }
        }
        i += 1;
    }
    proof {
        assert forall|id: Seq<char>| (forall|k: int| 0 <= k < 6 ==> #[trigger] ids@[k]@ != id)
            implies (#[trigger] goal_of(l0, id) matches Some(g)
                ==> (goal_of(tracker.goal_list(), id) matches Some(h) && h == reset_goal(g, h.updated_at))) by {
            crate::goals::lemma_goal_of_reset(l0, l1, id);
        }
    }
    ids
}


/// The memory category of the results of a stage.
pub open spec fn stage_memory_category(s: DramaStage) -> MemoryCategory {
    match s {
        DramaStage::Planning => MemoryCategory::Decision,
        DramaStage::Writing => MemoryCategory::Plot,
        DramaStage::Review => MemoryCategory::Issue,
        DramaStage::Polishing => MemoryCategory::General,
    }
}

/// The entry `id` of the store is new, with these fields.
pub open spec fn added_entry(
    before: MemoryStore,
    after: MemoryStore,
    id: Seq<char>,
    category: MemoryCategory,
    title: Seq<char>,
    content: Seq<char>,
    tags: Seq<Seq<char>>,
    importance: i64,
    source: MemorySource,
) -> bool {
    &&& after.entry(id) matches Some(e) && {
        &&& e.id@ == id
        &&& e.category == category
        &&& e.title@ == title
        &&& e.content@ == content
        &&& e.tags@.map_values(|t: String| t@) == tags
        &&& e.importance == importance
        &&& e.source == source
        &&& e.metadata@.len() == 0
    }
    &&& forall|other: Seq<char>| other != id ==> after.entry(other) == before.entry(other)
    &&& after.category_ids(category) == before.category_ids(category).push(id)
    &&& forall|c: MemoryCategory| c != category ==> after.category_ids(c) == before.category_ids(c)
}

fn add_to_memory(
    store: &mut MemoryStore,
    category: MemoryCategory,
    title: &str,
    content: &str,
    tags: Vec<&str>,
    importance: i64,
    source: MemorySource,
) -> (r: String)
    requires
        old(store).wf(),
    ensures
        final(store).wf(),
        r@.len() == 8,
        added_entry(*old(store), *final(store), r@, category, title@, content@, tags@.map_values(|t: &str| t@), importance, source),
{
    store.add(category, title, content, tags, importance, source)
}

/// Remembers the result of a skill: its first 500 bytes under the
/// stage's category, tagged with the skill and the stage, importance 0.6.
pub fn save_skill_result_to_memory(store: &mut MemoryStore, skill_name: &str, content: &str, stage: DramaStage) -> (r: String)
    requires
        old(store).wf(),
        prefix_bytes(content@, 500) is Some,
    ensures
        final(store).wf(),
        added_entry(*old(store), *final(store), r@, stage_memory_category(stage), "Skill 结果: "@ + skill_name@,
            prefix_bytes(content@, 500).unwrap(), seq!["skill_output"@, skill_name@, stage_name(stage)], 600_000_000,
            MemorySource::SkillOutput),
{
    let category = match stage {
        DramaStage::Planning => MemoryCategory::Decision,
        DramaStage::Writing => MemoryCategory::Plot,
        DramaStage::Review => MemoryCategory::Issue,
        DramaStage::Polishing => MemoryCategory::General,
    };
    let truncated = prefix_by_bytes(content, 500);
    let mut title: Vec<char> = Vec::new();
    push_str(&mut title, "Skill 结果: ");
    push_str(&mut title, skill_name);
    let title = string_of(title.as_slice());
    let tags = vec!["skill_output", skill_name, stage.as_str()];
    proof {
        assert(tags@.map_values(|t: &str| t@) =~= seq!["skill_output"@, skill_name@, stage_name(stage)]);
    }
    add_to_memory(store, category, title.as_str(), truncated.as_str(), tags, 600_000_000, MemorySource::SkillOutput)
}

/// Remembers a requirement of the user as a preference, importance 0.9.
pub fn remember_user_input(store: &mut MemoryStore, key: &str, value: &str) -> (r: String)
    requires
        old(store).wf(),
    ensures
        final(store).wf(),
        added_entry(*old(store), *final(store), r@, MemoryCategory::Preference, "用户需求: "@ + key@, value@,
            seq!["user_input"@, "preference"@], 900_000_000, MemorySource::UserInput),
{
    let mut title: Vec<char> = Vec::new();
    push_str(&mut title, "用户需求: ");
    push_str(&mut title, key);
    let title = string_of(title.as_slice());
    let tags = vec!["user_input", "preference"];
    proof {
        assert(tags@.map_values(|t: &str| t@) =~= seq!["user_input"@, "preference"@]);
    }
    add_to_memory(store, MemoryCategory::Preference, title.as_str(), value, tags, 900_000_000, MemorySource::UserInput)
}

/// The quality score (fixed point, units of 10^-9 out of 10) from which a
/// run counts as finished: 9.
pub open spec fn quality_threshold() -> i64 {
    9_000_000_000
}

/// `h` is `g` evaluated: the evaluation, the status it gives, and the
/// time of update are new, the rest as it was.
pub open spec fn evaluated(g: Goal, h: Goal, score: i64, passed: bool, feedback: Seq<char>) -> bool {
    &&& h == Goal {
        evaluation: h.evaluation,
        status: if passed { GoalStatus::Completed } else { GoalStatus::InProgress },
        updated_at: h.updated_at,
        ..g
    }
    &&& h.evaluation matches Some(e) && e.score == score && e.max_score == 10_000_000_000 && e.passed == passed
        && e.feedback@ == feedback && e.evaluated_at == h.updated_at
}

fn evaluate_all(tracker: &mut GoalTracker, ids: &Vec<String>, score: i64, passed: bool, feedback: &str)
    requires
        old(tracker).wf(),
    ensures
        final(tracker).wf(),
        final(tracker).goal_list().len() == old(tracker).goal_list().len(),
        forall|m: int| 0 <= m < ids@.len() ==> (goal_of(old(tracker).goal_list(), (#[trigger] ids@[m])@) matches Some(g)
            ==> (goal_of(final(tracker).goal_list(), ids@[m]@) matches Some(h) && evaluated(g, h, score, passed, feedback@))),
        forall|id: Seq<char>| (forall|m: int| 0 <= m < ids@.len() ==> (#[trigger] ids@[m])@ != id)
            ==> goal_of(final(tracker).goal_list(), id) == goal_of(old(tracker).goal_list(), id),
{
    let ghost start = tracker.goal_list();
    let mut k: usize = 0;
    while k < ids.len()
        invariant
            tracker.wf(),
            k <= ids.len(),
            tracker.goal_list().len() == start.len(),
            forall|m: int| 0 <= m < k ==> (goal_of(start, (#[trigger] ids@[m])@) matches Some(g)
                ==> (goal_of(tracker.goal_list(), ids@[m]@) matches Some(h) && evaluated(g, h, score, passed, feedback@))),
            forall|id: Seq<char>| (forall|m: int| 0 <= m < k ==> (#[trigger] ids@[m])@ != id)
                ==> goal_of(tracker.goal_list(), id) == goal_of(start, id),
        decreases ids.len() - k,
    {
        let ghost cur = tracker.goal_list();
        tracker.evaluate_goal(ids[k].as_str(), score, 10_000_000_000, passed, feedback);
        proof {
            let idk = ids@[k as int]@;
            assert forall|m: int| 0 <= m < k + 1 implies (goal_of(start, (#[trigger] ids@[m])@) matches Some(g)
                ==> (goal_of(tracker.goal_list(), ids@[m]@) matches Some(h) && evaluated(g, h, score, passed, feedback@))) by {
                if m == k {
                    if goal_of(start, idk) is Some {
                        let g = goal_of(start, idk).unwrap();
                        if exists|j: int| 0 <= j < k && (#[trigger] ids@[j])@ == idk {
                            let j = choose|j: int| 0 <= j < k && (#[trigger] ids@[j])@ == idk;
                            assert(goal_of(cur, ids@[j]@) matches Some(h) && evaluated(g, h, score, passed, feedback@));
                        } else {
                            assert(goal_of(cur, idk) == goal_of(start, idk));
                        }
                    }
                } else if ids@[m]@ != idk {
                    assert(goal_of(tracker.goal_list(), ids@[m]@) == goal_of(cur, ids@[m]@));
                } else if goal_of(start, idk) is Some {
                    let g = goal_of(start, idk).unwrap();
                    assert(goal_of(cur, ids@[m]@) matches Some(h1) && evaluated(g, h1, score, passed, feedback@));
                }
            }
            assert forall|id: Seq<char>| (forall|m: int| 0 <= m < k + 1 ==> (#[trigger] ids@[m])@ != id)
                implies goal_of(tracker.goal_list(), id) == goal_of(start, id) by {
                assert(ids@[k as int]@ != id);
                assert forall|m: int| 0 <= m < k implies (#[trigger] ids@[m])@ != id by {
                    assert(ids@[m]@ != id);
                }
            }
        }
        k += 1;
    }
}

/// Records the quality score of an iteration: each quality goal is
/// evaluated with it (passed from 9 on), and it is remembered as a
/// quality report, importance 0.7.  Returns the id of the memory entry.
pub fn record_quality(tracker: &mut GoalTracker, store: &mut MemoryStore, iteration: u32, score: i64) -> (r: String)
    requires
        old(tracker).wf(),
        old(store).wf(),
    ensures
        final(tracker).wf(),
        final(store).wf(),
        final(tracker).goal_list().len() == old(tracker).goal_list().len(),
        forall|k: int| 0 <= k < old(tracker).goal_list().len() ==> {
            let g = #[trigger] old(tracker).goal_list()[k];
            g.goal_type == GoalType::QualityTarget ==> (goal_of(final(tracker).goal_list(), g.id@) matches Some(h)
                && evaluated(g, h, score, score >= quality_threshold(), "质量分数: "@ + tenths(score as int) + "/10"@))
        },
        forall|id: Seq<char>| #[trigger] goal_of(old(tracker).goal_list(), id) matches Some(g)
            ==> (g.goal_type == GoalType::QualityTarget ==> (goal_of(final(tracker).goal_list(), id) matches Some(h)
                && evaluated(g, h, score, score >= quality_threshold(), "质量分数: "@ + tenths(score as int) + "/10"@))),
        forall|id: Seq<char>| (goal_of(old(tracker).goal_list(), id) matches Some(g) && g.goal_type != GoalType::QualityTarget)
            ==> goal_of(final(tracker).goal_list(), id) == goal_of(old(tracker).goal_list(), id),
        added_entry(*old(store), *final(store), r@, MemoryCategory::QualityReport,
            "第 "@ + decimal(iteration as nat) + " 轮质量评估"@, "分数: "@ + tenths(score as int) + "/10"@,
            seq!["quality"@, "iteration_"@ + decimal(iteration as nat)], 700_000_000, MemorySource::Auto),
{
    let passed = score >= 9_000_000_000;
    let mut fb: Vec<char> = Vec::new();
    push_str(&mut fb, "质量分数: ");
    push_tenths(&mut fb, score);
    push_str(&mut fb, "/10");
    let feedback = string_of(fb.as_slice());
    let ids: Vec<String> = {
        let goals = tracker.get_by_type(&GoalType::QualityTarget);
        let mut v: Vec<String> = Vec::new();
        let mut k: usize = 0;
        while k < goals.len()
            invariant
                k <= goals.len(),
                v@.len() == k,
                forall|m: int| 0 <= m < k ==> (#[trigger] v@[m])@ == goals@[m].id@,
            decreases goals.len() - k,
        {
            v.push(goals[k].id.clone());
            k += 1;
        }
        proof {
            let q = tracker.goal_list().filter(|g: Goal| g.goal_type == GoalType::QualityTarget);
            assert(goals@.map_values(|g: &Goal| *g) == q);
            assert forall|m: int| 0 <= m < v@.len() implies (#[trigger] v@[m])@ == q[m].id@ by {
                assert(q[m] == *goals@[m]);
            }
        }
        v
    };
    let ghost start = tracker.goal_list();
    let ghost quality = start.filter(|g: Goal| g.goal_type == GoalType::QualityTarget);
    evaluate_all(tracker, &ids, score, passed, feedback.as_str());
    proof {
        start.filter_lemma(|g: Goal| g.goal_type == GoalType::QualityTarget);
        assert forall|m: int| 0 <= m < quality.len() implies goal_of(start, (#[trigger] quality[m]).id@) == Some(quality[m]) by {
            assert(quality.contains(quality[m]));
            start.lemma_filter_contains_rev(|g: Goal| g.goal_type == GoalType::QualityTarget, quality[m]);
            crate::goals::lemma_goal_in_list(start, quality[m]);
        }
        assert forall|k: int| 0 <= k < start.len() implies ({
            let g = #[trigger] start[k];
            g.goal_type == GoalType::QualityTarget ==> (goal_of(tracker.goal_list(), g.id@) matches Some(h)
                && evaluated(g, h, score, passed, feedback@))
        }) by {
            let g = start[k];
            if g.goal_type == GoalType::QualityTarget {
                assert(start.contains(g));
                assert(quality.contains(g));
                let m = choose|m: int| 0 <= m < quality.len() && quality[m] == g;
                assert(ids@[m]@ == g.id@);
                crate::goals::lemma_goal_in_list(start, g);
            }
        }
        assert forall|id: Seq<char>| #[trigger] goal_of(start, id) matches Some(g)
            ==> (g.goal_type == GoalType::QualityTarget ==> (goal_of(tracker.goal_list(), id) matches Some(h)
                && evaluated(g, h, score, passed, feedback@))) by {
            crate::goals::lemma_goal_of_some(start, id);
            if goal_of(start, id) is Some {
                let g = goal_of(start, id).unwrap();
                if g.goal_type == GoalType::QualityTarget {
                    let k = choose|k: int| 0 <= k < start.len() && start[k] == g;
                    assert(start[k] == g);
                }
            }
        }
        assert forall|id: Seq<char>| (goal_of(start, id) matches Some(g) && g.goal_type != GoalType::QualityTarget)
            implies goal_of(tracker.goal_list(), id) == goal_of(start, id) by {
            assert forall|m: int| 0 <= m < ids@.len() implies ids@[m]@ != id by {
                assert(goal_of(start, quality[m].id@) == Some(quality[m]));
                assert(quality[m].goal_type == GoalType::QualityTarget) by {
                    assert(quality.contains(quality[m]));
                }
            }
        }
    }
    let mut content: Vec<char> = Vec::new();
    push_str(&mut content, "分数: ");
    push_tenths(&mut content, score);
    push_str(&mut content, "/10");
    let content = string_of(content.as_slice());
    let mut title: Vec<char> = Vec::new();
    push_str(&mut title, "第 ");
    push_decimal(&mut title, iteration as u64);
    push_str(&mut title, " 轮质量评估");
    let title = string_of(title.as_slice());
    let mut tag: Vec<char> = Vec::new();
    push_str(&mut tag, "iteration_");
    push_decimal(&mut tag, iteration as u64);
    let tag = string_of(tag.as_slice());
    let tags = vec!["quality", tag.as_str()];
    proof {
        assert(tags@.map_values(|t: &str| t@) =~= seq!["quality"@, "iteration_"@ + decimal(iteration as nat)]);
    }
    proof {
        assert(title@ =~= "第 "@ + decimal(iteration as nat) + " 轮质量评估"@);
        assert(content@ =~= "分数: "@ + tenths(score as int) + "/10"@);
    }
    add_to_memory(store, MemoryCategory::QualityReport, title.as_str(), content.as_str(), tags, 700_000_000, MemorySource::Auto)
}


/// Puts every pending goal in progress (updated now); the other goals stay
/// as they were.
pub fn start_pending_goals(tracker: &mut GoalTracker)
    requires
        old(tracker).wf(),
    ensures
        final(tracker).wf(),
        final(tracker).goal_list().len() == old(tracker).goal_list().len(),
        forall|id: Seq<char>| #[trigger] goal_of(old(tracker).goal_list(), id) matches Some(g) ==> (
            if g.status == GoalStatus::Pending {
                goal_of(final(tracker).goal_list(), id) matches Some(h)
                    && h == (Goal { status: GoalStatus::InProgress, updated_at: h.updated_at, ..g })
            } else {
                goal_of(final(tracker).goal_list(), id) == Some(g)
            }),
{
    let ids: Vec<String> = {
        let goals = tracker.get_pending();
        let mut v: Vec<String> = Vec::new();
        let mut k: usize = 0;
        while k < goals.len()
            invariant
                k <= goals.len(),
                v@.len() == k,
                forall|m: int| 0 <= m < k ==> (#[trigger] v@[m])@ == goals@[m].id@,
            decreases goals.len() - k,
        {
            v.push(goals[k].id.clone());
            k += 1;
        }
        proof {
            let q = with_status(tracker.goal_list(), GoalStatus::Pending);
            assert(goals@.map_values(|g: &Goal| *g) == q);
            assert forall|m: int| 0 <= m < v@.len() implies (#[trigger] v@[m])@ == q[m].id@ by {
                assert(q[m] == *goals@[m]);
            }
        }
        v
    };
    let ghost start = tracker.goal_list();
    let ghost pending = with_status(start, GoalStatus::Pending);
    let mut k: usize = 0;
    while k < ids.len()
        invariant
            tracker.wf(),
            k <= ids.len(),
            tracker.goal_list().len() == start.len(),
            ids@.len() == pending.len(),
            forall|m: int| 0 <= m < ids@.len() ==> (#[trigger] ids@[m])@ == pending[m].id@,
            forall|m: int| 0 <= m < k ==> (goal_of(start, (#[trigger] ids@[m])@) matches Some(g)
                ==> (goal_of(tracker.goal_list(), ids@[m]@) matches Some(h)
                    && h == (Goal { status: GoalStatus::InProgress, updated_at: h.updated_at, ..g }))),
            forall|id: Seq<char>| (forall|m: int| 0 <= m < k ==> (#[trigger] ids@[m])@ != id)
                ==> goal_of(tracker.goal_list(), id) == goal_of(start, id),
        decreases ids.len() - k,
    {
        let ghost cur = tracker.goal_list();
        tracker.update_status(ids[k].as_str(), GoalStatus::InProgress);
        proof {
            let idk = ids@[k as int]@;
            assert forall|m: int| 0 <= m < k + 1 implies (goal_of(start, (#[trigger] ids@[m])@) matches Some(g)
                ==> (goal_of(tracker.goal_list(), ids@[m]@) matches Some(h)
                    && h == (Goal { status: GoalStatus::InProgress, updated_at: h.updated_at, ..g }))) by {
                if m == k {
                    if exists|j: int| 0 <= j < k && (#[trigger] ids@[j])@ == idk {
                        let j = choose|j: int| 0 <= j < k && (#[trigger] ids@[j])@ == idk;
                        assert(ids@[j]@ == idk);
                    } else {
                        assert(goal_of(cur, idk) == goal_of(start, idk));
                    }
                } else if ids@[m]@ != idk {
                    assert(goal_of(tracker.goal_list(), ids@[m]@) == goal_of(cur, ids@[m]@));
                }
            }
            assert forall|id: Seq<char>| (forall|m: int| 0 <= m < k + 1 ==> (#[trigger] ids@[m])@ != id)
                implies goal_of(tracker.goal_list(), id) == goal_of(start, id) by {
                assert(ids@[k as int]@ != id);
                assert forall|m: int| 0 <= m < k implies (#[trigger] ids@[m])@ != id by {
                    assert(ids@[m]@ != id);
                }
            }
        }
        k += 1;
    }
    proof {
        let pred = |g: Goal| g.status == GoalStatus::Pending;
        start.filter_lemma(pred);
        assert forall|id: Seq<char>| (#[trigger] goal_of(start, id)) is Some implies ({
            let g = goal_of(start, id).unwrap();
            if g.status == GoalStatus::Pending {
                goal_of(tracker.goal_list(), id) matches Some(h)
                    && h == (Goal { status: GoalStatus::InProgress, updated_at: h.updated_at, ..g })
            } else {
                goal_of(tracker.goal_list(), id) == Some(g)
            }}) by {
            let g = goal_of(start, id).unwrap();
            crate::goals::lemma_goal_of_some(start, id);
            if g.status == GoalStatus::Pending {
                assert(pending.contains(g));
                let m = choose|m: int| 0 <= m < pending.len() && pending[m] == g;
                assert(ids@[m]@ == id);
            } else {
                assert forall|m: int| 0 <= m < ids@.len() implies (#[trigger] ids@[m])@ != id by {
                    assert(pending.contains(pending[m]));
                    start.lemma_filter_contains_rev(pred, pending[m]);
                    crate::goals::lemma_goal_in_list(start, pending[m]);
                }
            }
        }
    }
}

/// The commit message after a stage of an iteration.
pub fn stage_commit_message(stage: DramaStage, iteration: u32) -> (r: String)
    ensures
        r@ == "[剧本] 完成 "@ + stage_name(stage) + " 阶段 (迭代 "@ + decimal(iteration as nat) + ")"@,
{
    let mut out: Vec<char> = Vec::new();
    push_str(&mut out, "[剧本] 完成 ");
    push_str(&mut out, stage.as_str());
    push_str(&mut out, " 阶段 (迭代 ");
    push_decimal(&mut out, iteration as u64);
    push_str(&mut out, ")");
    string_of(out.as_slice())
}

/// The commit message when the run ends, with the best score if any.
pub fn final_commit_message(best: Option<i64>, iterations: u32) -> (r: String)
    ensures
        r@ == match best {
            Some(s) => "[剧本] 🎉 短剧创作完成 - 质量分数："@ + tenths(s as int) + "/10 ("@ + decimal(iterations as nat)
                + " 轮迭代)"@,
            None => "[剧本] 🎉 短剧创作完成"@,
        },
{
    let mut out: Vec<char> = Vec::new();
    match best {
        Some(s) => {
            push_str(&mut out, "[剧本] 🎉 短剧创作完成 - 质量分数：");
            push_tenths(&mut out, s);
            push_str(&mut out, "/10 (");
            push_decimal(&mut out, iterations as u64);
            push_str(&mut out, " 轮迭代)");
        },
        None => push_str(&mut out, "[剧本] 🎉 短剧创作完成"),
    }
    string_of(out.as_slice())
}

/// The commit message after a skill ran.
pub fn skill_commit_message(skill_name: &str) -> (r: String)
    ensures
        r@ == "✓ "@ + skill_name@ + " skill 完成"@,
{
    let mut out: Vec<char> = Vec::new();
    push_str(&mut out, "✓ ");
    push_str(&mut out, skill_name);
    push_str(&mut out, " skill 完成");
    string_of(out.as_slice())
}

/// The commit message when a repair loop reached its target.
pub fn target_met_message(level: QualityLevel, round: u32) -> (r: String)
    ensures
        r@ == "达标 "@ + level_name(level) + " - "@ + decimal(round as nat) + " 轮完成"@,
{
    let mut out: Vec<char> = Vec::new();
    push_str(&mut out, "达标 ");
    push_str(&mut out, level.as_str());
    push_str(&mut out, " - ");
    push_decimal(&mut out, round as u64);
    push_str(&mut out, " 轮完成");
    string_of(out.as_slice())
}

/// The commit message after a repair round.
pub fn repair_round_message(round: u32, level: QualityLevel) -> (r: String)
    ensures
        r@ == "修复轮次 "@ + decimal(round as nat) + " (等级: "@ + level_name(level) + ")"@,
{
    let mut out: Vec<char> = Vec::new();
    push_str(&mut out, "修复轮次 ");
    push_decimal(&mut out, round as u64);
    push_str(&mut out, " (等级: ");
    push_str(&mut out, level.as_str());
    push_str(&mut out, ")");
    string_of(out.as_slice())
}

/// The commit message after a stage of a run with quality checks.
pub fn stage_done_message(stage: DramaStage) -> (r: String)
    ensures
        r@ == "完成 "@ + stage_name(stage) + " 阶段"@,
{
    let mut out: Vec<char> = Vec::new();
    push_str(&mut out, "完成 ");
    push_str(&mut out, stage.as_str());
    push_str(&mut out, " 阶段");
    string_of(out.as_slice())
}


/// The position of the first numeric character of `s`.
pub open spec fn first_numeric(s: Seq<char>) -> Option<int>
    decreases s.len(),
{
    if s.len() == 0 {
        None
    } else if numeric(s[0]) {
        Some(0)
    } else {
        match first_numeric(s.drop_first()) {
            Some(k) => Some(k + 1),
            None => None,
        }
    }
}

/// The leading numeric characters and dots of `s`.
pub open spec fn numeric_run(s: Seq<char>) -> Seq<char>
    decreases s.len(),
{
    if s.len() > 0 && (numeric(s[0]) || s[0] == '.') {
        seq![s[0]] + numeric_run(s.drop_first())
    } else {
        seq![]
    }
}

/// The text of the overall score in a reply: after the first
/// `"overall_score"` and the first `:` that follows, the run of numeric
/// characters and dots that starts at the first numeric character.
pub open spec fn score_text(s: Seq<char>) -> Option<Seq<char>> {
    match find(s, "\"overall_score\""@) {
        None => None,
        Some(i) => {
            let rest = s.skip(i);
            match index_of(rest, ':') {
                None => None,
                Some(c) => {
                    let after = rest.skip(c + 1);
                    match first_numeric(after) {
                        None => None,
                        Some(n) => Some(numeric_run(after.skip(n))),
                    }
                },
            }
        },
    }
}

fn first_numeric_exec(s: &[char]) -> (r: Option<usize>)
    ensures
        match r {
            Some(k) => first_numeric(s@) == Some(k as int),
            None => first_numeric(s@) is None,
        },
{
    let mut i: usize = 0;
    proof {
        assert(s@.skip(0) =~= s@);
    }
    while i < s.len()
        invariant
            i <= s.len(),
            forall|j: int| 0 <= j < i ==> !numeric(#[trigger] s@[j]),
            first_numeric(s@) == match first_numeric(s@.skip(i as int)) {
                Some(k) => Some(k + i),
                None => None::<int>,
            },
        decreases s.len() - i,
    {
        proof {
            assert(s@.skip(i as int).drop_first() =~= s@.skip(i + 1));
        }
        if is_numeric(s[i]) {
            return Some(i);
        }
        i += 1;
    }
    proof {
        assert(s@.skip(i as int).len() == 0);
    }
    None
}

fn numeric_run_exec(s: &[char]) -> (r: Vec<char>)
    ensures
        r@ == numeric_run(s@),
{
    let mut i: usize = 0;
    proof {
        assert(s@.take(0) =~= Seq::<char>::empty());
        assert(s@.skip(0) =~= s@);
    }
    while i < s.len() && (is_numeric(s[i]) || s[i] == '.')
        invariant
            i <= s.len(),
            numeric_run(s@) == s@.take(i as int) + numeric_run(s@.skip(i as int)),
        decreases s.len() - i,
    {
        proof {
            assert(s@.skip(i as int)[0] == s@[i as int]);
            assert(s@.skip(i as int).drop_first() =~= s@.skip(i + 1));
            assert(s@.take(i + 1) =~= s@.take(i as int) + seq![s@[i as int]]);
        }
        i += 1;
    }
    proof {
        if i < s.len() {
            assert(s@.skip(i as int)[0] == s@[i as int]);
        }
        assert(numeric_run(s@.skip(i as int)) =~= Seq::<char>::empty());
    }
    slice_range(s, 0, i)
}

/// The text of the overall score in a reply, if there is one.
pub fn overall_score_text(response: &str) -> (r: Option<String>)
    ensures
        match r {
            Some(t) => score_text(response@) == Some(t@),
            None => score_text(response@) is None,
        },
{
    let s = chars_of(response);
    let key = chars_of("\"overall_score\"");
    match find_exec(s.as_slice(), key.as_slice()) {
        None => None,
        Some(i) => {
            proof {
                crate::text::lemma_find_from_facts(s@, key@, 0);
            }
            let rest = slice_from(s.as_slice(), i);
            match index_of_exec(rest.as_slice(), ':') {
                None => None,
                Some(c) => {
                    proof {
                        lemma_index_of_facts(rest@, ':');
                    }
                    assert(c < rest.len());
                    let after = slice_from(rest.as_slice(), c + 1);
                    match first_numeric_exec(after.as_slice()) {
                        None => None,
                        Some(n) => {
                            proof {
                                lemma_first_numeric_bound(after@);
                            }
                            let tail = slice_from(after.as_slice(), n);
                            let run = numeric_run_exec(tail.as_slice());
                            Some(string_of(run.as_slice()))
                        },
                    }
                },
            }
        },
    }
}

proof fn lemma_first_numeric_bound(s: Seq<char>)
    ensures
        first_numeric(s) matches Some(k) ==> 0 <= k < s.len(),
    decreases s.len(),
{
    if s.len() > 0 && !numeric(s[0]) {
        lemma_first_numeric_bound(s.drop_first());
    }
}

/// The opening of the prompt that asks for a quality score.
pub open spec fn score_prompt_head() -> Seq<char> {
    "你是一位严格的短剧质量评估专家。请对以下短剧内容进行 0-10 分评分。\n\n评分维度：\n- 情节编排 (权重 15%)\n- 人物塑造 (权重 15%)\n- 对白质量 (权重 15%)\n- 情感表达 (权重 12%)\n- 节奏把控 (权重 10%)\n- 创意新颖 (权重 10%)\n- 逻辑连贯 (权重 13%)\n- 商业潜力 (权重 10%)\n\n请只返回一个 JSON：{\"overall_score\": 8.5, \"brief\": \"一句话评价\"}\n\n---\n\n内容：\n"@
}

/// The prompt that asks for a quality score of the collected content: its
/// first 6000 bytes after the instructions.
pub fn quality_score_prompt(all_content: &str) -> (r: String)
    requires
        prefix_bytes(all_content@, 6000) is Some,
    ensures
        r@ == score_prompt_head() + prefix_bytes(all_content@, 6000).unwrap(),
{
    let mut out: Vec<char> = Vec::new();
    push_str(&mut out, "你是一位严格的短剧质量评估专家。请对以下短剧内容进行 0-10 分评分。\n\n评分维度：\n- 情节编排 (权重 15%)\n- 人物塑造 (权重 15%)\n- 对白质量 (权重 15%)\n- 情感表达 (权重 12%)\n- 节奏把控 (权重 10%)\n- 创意新颖 (权重 10%)\n- 逻辑连贯 (权重 13%)\n- 商业潜力 (权重 10%)\n\n请只返回一个 JSON：{\"overall_score\": 8.5, \"brief\": \"一句话评价\"}\n\n---\n\n内容：\n");
    let cut = prefix_by_bytes(all_content, 6000);
    push_str(&mut out, cut.as_str());
    string_of(out.as_slice())
}

/// Whether the collected content is too short to be scored (under 100
/// bytes); it then gets 5 of 10.
pub fn too_short_to_score(all_content: &str) -> (r: bool)
    ensures
        r == (crate::text::byte_len(all_content@) < 100),
{
    crate::text::str_byte_len(all_content) < 100
}

/// The criteria of a review, one per line.
pub open spec fn criteria_text(review: SkillReview) -> Seq<char> {
    crate::agent::join_lines(review.criteria@.map_values(|c: String| c@))
}

/// The prompt of a review: its template with the content and the criteria
/// filled in, or a default prompt.
pub open spec fn review_prompt_text(content: Seq<char>, review: SkillReview, params: Seq<(String, String)>) -> Seq<char> {
    match review.prompt {
        Some(p) => rendered(p@, params),
        None => "请审查以下内容：\n\n"@ + content + "\n\n审查标准：\n"@ + criteria_text(review),
    }
}

/// The prompt of a review of `content`.
pub fn review_prompt(content: &str, review: &SkillReview) -> (r: String)
    ensures
        exists|params: Seq<(String, String)>| {
            &&& params.len() == 2
            &&& params[0].0@ == "content"@ && params[0].1@ == content@
            &&& params[1].0@ == "criteria"@ && params[1].1@ == criteria_text(*review)
            &&& r@ == #[trigger] review_prompt_text(content@, *review, params)
        },
{
    let mut crit: Vec<char> = Vec::new();
    let mut k: usize = 0;
    let ghost cs = review.criteria@.map_values(|c: String| c@);
    proof {
        assert(cs.take(0) =~= Seq::<Seq<char>>::empty());
    }
    while k < review.criteria.len()
        invariant
            k <= review.criteria.len(),
            cs == review.criteria@.map_values(|c: String| c@),
            crit@ == crate::agent::join_lines(cs.take(k as int)),
        decreases review.criteria.len() - k,
    {
        if k > 0 {
            push_str(&mut crit, "\n");
        }
        push_str(&mut crit, review.criteria[k].as_str());
        proof {
            assert(cs.take(k + 1).drop_last() =~= cs.take(k as int));
            if k == 0 {
                assert(crit@ =~= crate::agent::join_lines(cs.take(1)));
            } else {
                assert(crit@ =~= crate::agent::join_lines(cs.take(k + 1)));
            }
        }
        k += 1;
    }
    proof {
        assert(cs.take(review.criteria.len() as int) =~= cs);
    }
    let criteria = string_of(crit.as_slice());
    let mut params: Vec<(String, String)> = Vec::new();
    params.push((String::from_str("content"), String::from_str(content)));
    params.push((String::from_str("criteria"), criteria.clone()));
    let r = match &review.prompt {
        Some(p) => TemplateRenderer::render(p.as_str(), &params),
        None => {
            let mut out: Vec<char> = Vec::new();
            push_str(&mut out, "请审查以下内容：\n\n");
            push_str(&mut out, content);
            push_str(&mut out, "\n\n审查标准：\n");
            push_str(&mut out, criteria.as_str());
            proof {
                assert(out@ =~= review_prompt_text(content@, *review, params@));
            }
            string_of(out.as_slice())
        },
    };
    proof {
        assert(params@.len() == 2);
        assert(params@[0].0@ == "content"@ && params@[0].1@ == content@);
        assert(params@[1].0@ == "criteria"@ && params@[1].1@ == criteria_text(*review));
        assert(r@ == review_prompt_text(content@, *review, params@));
    }
    r
}

/// The JSON text of a review reply: from its first `{` (or its start when
/// there is none) through its last `}`; none when there is no `}` at or
/// after that start, where slicing the reply panics.
pub open spec fn review_json_slice(s: Seq<char>) -> Option<Seq<char>> {
    let start = match index_of(s, '{') {
        Some(i) => i,
        None => 0,
    };
    match last_index_of(s, '}') {
        Some(e) => if e >= start { Some(s.subrange(start, e + 1)) } else { None },
        None => None,
    }
}

fn review_json_bounds(s: &[char]) -> (r: Option<(usize, usize)>)
    ensures
        match r {
            Some((a, b)) => a <= b < s@.len() && review_json_slice(s@) == Some(s@.subrange(a as int, b + 1)),
            None => review_json_slice(s@) is None,
        },
{
    let start = match index_of_exec(s, '{') {
        Some(i) => i,
        None => 0,
    };
    proof {
        lemma_last_index_of_facts(s@, '}');
    }
    match last_index_of_exec(s, '}') {
        Some(e) => if e >= start { Some((start, e)) } else { None },
        None => None,
    }
}

/// The JSON text of a review reply, for replies whose slicing does not
/// panic.
pub fn review_json_text(response: &str) -> (r: String)
    requires
        review_json_slice(response@) is Some,
    ensures
        review_json_slice(response@) == Some(r@),
{
    let s = chars_of(response);
    match review_json_bounds(s.as_slice()) {
        Some((a, b)) => {
            assert(b < s.len());
            let t = slice_range(s.as_slice(), a, b + 1);
            string_of(t.as_slice())
        },
        None => String::new(),
    }
}

/// Whether slicing the JSON text out of a review reply panics.
pub fn review_json_fails(response: &str) -> (r: bool)
    ensures
        r == (review_json_slice(response@) is None),
{
    let s = chars_of(response);
    review_json_bounds(s.as_slice()).is_none()
}

/// The review assumed when a reply cannot be read: passed, no issue,
/// summary `审查完成`.
pub fn default_review_result() -> (r: ReviewResult)
    ensures
        r.passed,
        r.issues@.len() == 0,
        r.summary matches Some(t) && t@ == "审查完成"@,
{
    ReviewResult { passed: true, issues: Vec::new(), summary: Some(String::from_str("审查完成")) }
}


/// The categories of the issues, each once, in order of first appearance.
pub open spec fn issue_categories(issues: Seq<ReviewIssue>) -> Seq<Seq<char>>
    decreases issues.len(),
{
    if issues.len() == 0 {
        seq![]
    } else {
        let rest = issue_categories(issues.drop_last());
        if rest.contains(issues.last().category@) {
            rest
        } else {
            rest.push(issues.last().category@)
        }
    }
}

/// The descriptions of the issues of category `c`, in order.
pub open spec fn category_issue_lines(issues: Seq<ReviewIssue>, c: Seq<char>) -> Seq<Seq<char>> {
    issues.filter(|i: ReviewIssue| i.category@ == c).map_values(|i: ReviewIssue| i.description@)
}

/// The name of the skill that fixes the issues of category `c` of a skill.
pub open spec fn fix_skill_name(skill: Seq<char>, c: Seq<char>) -> Seq<char> {
    skill + "_"@ + c + "_fix"@
}

/// `d` is the skill made to fix the issues of category `c` of a skill in a
/// stage: a dynamic repair skill whose prompt lists the issues.
pub open spec fn is_fix_skill(d: SkillDefinition, skill: Seq<char>, stage: Seq<char>, c: Seq<char>, lines: Seq<Seq<char>>) -> bool {
    &&& d.skill.name@ == fix_skill_name(skill, c)
    &&& d.skill.description@ == "自动创建的修复 skill，用于修复 "@ + skill + " 中的 "@ + c + " 问题"@
    &&& d.skill.version@ == "0.1.0-dynamic"@
    &&& d.skill.stage@ == stage
    &&& d.skill.category@ == "repair"@
    &&& d.skill.depends_on@.len() == 0
    &&& strs(d.input.required@) == seq!["content"@]
    &&& d.input.optional@.len() == 0
    &&& d.output.format@ == "markdown"@
    &&& d.output.file_prefix@ == fix_skill_name(skill, c)
    &&& d.prompt.creation@ == "请修复以下内容中的"@ + c + "问题：\n\n问题列表：\n"@ + crate::agent::join_lines(lines)
        + "\n\n原始内容：\n{content}"@
    &&& d.prompt.repair@ == "请修复以下内容中的问题。\n\n## 原始内容\n{content}\n\n## 审查意见\n{issues}"@
    &&& d.review is None
}

fn categories_exec(issues: &Vec<ReviewIssue>) -> (r: Vec<String>)
    ensures
        strs(r@) == issue_categories(issues@),
{
    let mut r: Vec<String> = Vec::new();
    let mut k: usize = 0;
    proof {
        assert(issues@.take(0) =~= Seq::<ReviewIssue>::empty());
        assert(strs(r@) =~= Seq::<Seq<char>>::empty());
    }
    while k < issues.len()
        invariant
            k <= issues.len(),
            strs(r@) == issue_categories(issues@.take(k as int)),
        decreases issues.len() - k,
    {
        proof {
            assert(issues@.take(k + 1).drop_last() =~= issues@.take(k as int));
            assert(issues@.take(k + 1).last() == issues@[k as int]);
        }
        let c = &issues[k].category;
        let mut seen = false;
        let mut j: usize = 0;
        while j < r.len()
            invariant
                j <= r.len(),
                seen == exists|m: int| 0 <= m < j && r@[m]@ == c@,
            decreases r.len() - j,
        {
            if crate::text::str_eq(r[j].as_str(), c.as_str()) {
                seen = true;
            }
            j += 1;
        }
        proof {
            let rs = strs(r@);
            if seen {
                let m = choose|m: int| 0 <= m < j && r@[m]@ == c@;
                assert(rs[m] == c@);
                assert(rs.contains(c@));
            } else {
                assert(!rs.contains(c@)) by {
                    if rs.contains(c@) {
                        let m = choose|m: int| 0 <= m < rs.len() && rs[m] == c@;
                        assert(r@[m]@ == c@);
                    }
                }
            }
        }
        if !seen {
            let ghost r0 = r@;
            r.push(c.clone());
            proof {
                assert(strs(r@) =~= strs(r0).push(c@));
            }
        }
        k += 1;
    }
    proof {
        assert(issues@.take(issues.len() as int) =~= issues@);
    }
    r
}

fn category_lines_exec(issues: &Vec<ReviewIssue>, c: &str) -> (r: String)
    ensures
        r@ == crate::agent::join_lines(category_issue_lines(issues@, c@)),
{
    let ghost pred = |i: ReviewIssue| i.category@ == c@;
    let ghost lines = |k: int| issues@.take(k).filter(pred).map_values(|i: ReviewIssue| i.description@);
    let mut out: Vec<char> = Vec::new();
    let mut first = true;
    let mut k: usize = 0;
    proof {
        assert(issues@.take(0).filter(pred) =~= Seq::<ReviewIssue>::empty()) by {
            reveal_with_fuel(Seq::<_>::filter, 1);
        }
        assert(lines(0) =~= Seq::<Seq<char>>::empty());
    }
    while k < issues.len()
        invariant
            k <= issues.len(),
            pred == (|i: ReviewIssue| i.category@ == c@),
            lines == (|k: int| issues@.take(k).filter(pred).map_values(|i: ReviewIssue| i.description@)),
            first == (lines(k as int).len() == 0),
            out@ == crate::agent::join_lines(lines(k as int)),
        decreases issues.len() - k,
    {
        let ghost l0 = lines(k as int);
        proof {
            reveal_with_fuel(Seq::<_>::filter, 1);
            assert(issues@.take(k + 1).drop_last() =~= issues@.take(k as int));
        }
        if crate::text::str_eq(issues[k].category.as_str(), c) {
            if !first {
                push_str(&mut out, "\n");
            }
            push_str(&mut out, issues[k].description.as_str());
            first = false;
            proof {
                assert(lines(k + 1) =~= l0.push(issues@[k as int].description@));
                if l0.len() == 0 {
                    assert(out@ =~= crate::agent::join_lines(lines(k + 1)));
                } else {
                    assert(lines(k + 1).drop_last() =~= l0);
                    assert(out@ =~= crate::agent::join_lines(lines(k + 1)));
                }
            }
        } else {
            proof {
                assert(lines(k + 1) =~= l0);
            }
        }
        k += 1;
    }
    proof {
        assert(issues@.take(issues.len() as int) =~= issues@);
    }
    string_of(out.as_slice())
}

/// Makes and registers a repair skill for each category of the review's
/// issues whose fix skill the registry does not hold yet; returns the names
/// of the new skills in category order, for the caller to save them.
pub fn handle_review_issues(
    registry: &mut SkillRegistry,
    skill_name: &str,
    stage: DramaStage,
    review: &ReviewResult,
) -> (r: Vec<String>)
    requires
        old(registry).wf(),
    ensures
        final(registry).wf(),
        final(registry).history() == old(registry).history(),
        ({
            let missing = issue_categories(review.issues@).filter(
                |c: Seq<char>| lookup(old(registry).skill_list(), fix_skill_name(skill_name@, c)) is None);
            &&& strs(r@) == missing.map_values(|c: Seq<char>| fix_skill_name(skill_name@, c))
            &&& forall|k: int| 0 <= k < missing.len()
                ==> (lookup(final(registry).skill_list(), fix_skill_name(skill_name@, #[trigger] missing[k])) matches Some(d)
                    && is_fix_skill(d, skill_name@, stage_name(stage), missing[k], category_issue_lines(review.issues@, missing[k])))
            &&& forall|n: Seq<char>| (forall|k: int| 0 <= k < missing.len() ==> n != fix_skill_name(skill_name@, #[trigger] missing[k]))
                ==> lookup(final(registry).skill_list(), n) == lookup(old(registry).skill_list(), n)
        }),
{
    let cats = categories_exec(&review.issues);
    let ghost cv = strs(cats@);
    let ghost start = registry.skill_list();
    let ghost absent = |c: Seq<char>| lookup(start, fix_skill_name(skill_name@, c)) is None;
    let ghost fixname = |c: Seq<char>| fix_skill_name(skill_name@, c);
    let mut made: Vec<String> = Vec::new();
    let mut k: usize = 0;
    proof {
        assert(cv.take(0).filter(absent) =~= Seq::<Seq<char>>::empty()) by {
            reveal_with_fuel(Seq::<_>::filter, 1);
        }
        assert(strs(made@) =~= cv.take(0).filter(absent).map_values(fixname));
    }
    while k < cats.len()
        invariant
            registry.wf(),
            registry.history() == old(registry).history(),
            k <= cats.len(),
            cv == strs(cats@),
            cv == issue_categories(review.issues@),
            start == old(registry).skill_list(),
            absent == (|c: Seq<char>| lookup(start, fix_skill_name(skill_name@, c)) is None),
            fixname == (|c: Seq<char>| fix_skill_name(skill_name@, c)),
            strs(made@) == cv.take(k as int).filter(absent).map_values(fixname),
            forall|m: int| 0 <= m < cv.take(k as int).filter(absent).len()
                ==> (lookup(registry.skill_list(), fix_skill_name(skill_name@, #[trigger] cv.take(k as int).filter(absent)[m])) matches Some(d)
                    && is_fix_skill(d, skill_name@, stage_name(stage), cv.take(k as int).filter(absent)[m],
                        category_issue_lines(review.issues@, cv.take(k as int).filter(absent)[m]))),
            forall|n: Seq<char>| (forall|m: int| 0 <= m < cv.take(k as int).filter(absent).len()
                ==> n != fix_skill_name(skill_name@, #[trigger] cv.take(k as int).filter(absent)[m]))
                ==> lookup(registry.skill_list(), n) == lookup(start, n),
        decreases cats.len() - k,
    {
        let c = cats[k].as_str();
        let mut name: Vec<char> = Vec::new();
        push_str(&mut name, skill_name);
        push_str(&mut name, "_");
        push_str(&mut name, c);
        push_str(&mut name, "_fix");
        let name = string_of(name.as_slice());
        let ghost before = cv.take(k as int).filter(absent);
        let ghost reg0 = registry.skill_list();
        proof {
            reveal_with_fuel(Seq::<_>::filter, 1);
            assert(cv.take(k + 1).drop_last() =~= cv.take(k as int));
            assert(cv[k as int] == c@);
            assert(name@ =~= fix_skill_name(skill_name@, c@));
            lemma_categories_distinct(review.issues@);
            assert forall|m: int| 0 <= m < before.len() implies name@ != fix_skill_name(skill_name@, #[trigger] before[m]) by {
                lemma_filter_member_index(cv.take(k as int), absent, m);
                let j = choose|j: int| 0 <= j < cv.take(k as int).len() && cv.take(k as int)[j] == before[m];
                assert(cv[j] == before[m]);
                lemma_fix_name_injective(skill_name@, cv[j], c@);
            }
            assert(lookup(registry.skill_list(), name@) == lookup(start, name@));
        }
        let exists_now = registry.get(name.as_str()).is_some();
        if !exists_now {
            let mut description: Vec<char> = Vec::new();
            push_str(&mut description, "自动创建的修复 skill，用于修复 ");
            push_str(&mut description, skill_name);
            push_str(&mut description, " 中的 ");
            push_str(&mut description, c);
            push_str(&mut description, " 问题");
            let description = string_of(description.as_slice());
            let lines = category_lines_exec(&review.issues, c);
            let mut prompt: Vec<char> = Vec::new();
            push_str(&mut prompt, "请修复以下内容中的");
            push_str(&mut prompt, c);
            push_str(&mut prompt, "问题：\n\n问题列表：\n");
            push_str(&mut prompt, lines.as_str());
            push_str(&mut prompt, "\n\n原始内容：\n{content}");
            let prompt = string_of(prompt.as_slice());
            let skill = SkillFactory::create_dynamic_skill(
                name.as_str(), description.as_str(), prompt.as_str(), None, "repair", stage.as_str());
            proof {
                assert(is_fix_skill(skill, skill_name@, stage_name(stage), c@, category_issue_lines(review.issues@, c@)));
            }
            let ghost made0 = made@;
            registry.register(skill);
            made.push(name);
            proof {
                let after = cv.take(k + 1).filter(absent);
                assert(after =~= before.push(c@));
                assert(strs(made@) =~= strs(made0).push(fix_skill_name(skill_name@, c@)));
                assert(strs(made@) =~= after.map_values(fixname));
                assert forall|m: int| 0 <= m < after.len()
                    implies (lookup(registry.skill_list(), fix_skill_name(skill_name@, #[trigger] after[m])) matches Some(d)
                        && is_fix_skill(d, skill_name@, stage_name(stage), after[m], category_issue_lines(review.issues@, after[m]))) by {
                    if m < before.len() {
                        assert(after[m] == before[m]);
                        lemma_filter_member_index(cv.take(k as int), absent, m);
                        let j = choose|j: int| 0 <= j < k && cv.take(k as int)[j] == before[m];
                        assert(cv[j] == before[m]);
                        lemma_fix_name_injective(skill_name@, cv[j], c@);
                    }
                }
                assert forall|n: Seq<char>| (forall|m: int| 0 <= m < after.len() ==> n != fix_skill_name(skill_name@, #[trigger] after[m]))
                    implies lookup(registry.skill_list(), n) == lookup(start, n) by {
                    assert(n != fix_skill_name(skill_name@, after[before.len() as int]));
                    assert forall|m: int| 0 <= m < before.len() implies n != fix_skill_name(skill_name@, #[trigger] before[m]) by {
                        assert(after[m] == before[m]);
                        assert(n != fix_skill_name(skill_name@, after[m]));
                    }
                }
            }
        } else {
            proof {
                let after = cv.take(k + 1).filter(absent);
                assert(after =~= before);
            }
        }
        k += 1;
    }
    proof {
        assert(cv.take(cats.len() as int) =~= cv);
    }
    made
}

/// Different categories give different fix skill names.
proof fn lemma_fix_name_injective(skill: Seq<char>, a: Seq<char>, b: Seq<char>)
    ensures
        fix_skill_name(skill, a) == fix_skill_name(skill, b) ==> a == b,
{
    reveal_strlit("_");
    reveal_strlit("_fix");
    if fix_skill_name(skill, a) == fix_skill_name(skill, b) {
        let x = fix_skill_name(skill, a);
        let p = skill.len() + 1;
        assert("_"@.len() == 1);
        assert("_fix"@.len() == 4);
        assert(x.len() == skill.len() + 1 + a.len() + 4);
        assert(fix_skill_name(skill, b).len() == skill.len() + 1 + b.len() + 4);
        assert(a.len() == b.len());
        assert forall|i: int| 0 <= i < a.len() implies a[i] == b[i] by {
            assert(x[p + i] == a[i]);
            assert(fix_skill_name(skill, b)[p + i] == b[i]);
        }
        assert(a =~= b);
    }
}

/// The categories are each listed once.
proof fn lemma_categories_distinct(issues: Seq<ReviewIssue>)
    ensures
        forall|i: int, j: int| 0 <= i < j < issue_categories(issues).len()
            ==> issue_categories(issues)[i] != issue_categories(issues)[j],
    decreases issues.len(),
{
    if issues.len() > 0 {
        lemma_categories_distinct(issues.drop_last());
        let rest = issue_categories(issues.drop_last());
        if !rest.contains(issues.last().category@) {
            let cats = rest.push(issues.last().category@);
            assert forall|i: int, j: int| 0 <= i < j < cats.len() implies cats[i] != cats[j] by {
                if j == cats.len() - 1 {
                    assert(cats[i] == rest[i]);
                    if cats[i] == cats[j] {
                        assert(rest.contains(issues.last().category@));
                    }
                }
            }
        }
    }
}

/// An element of a filtered sequence is an element of the sequence.
proof fn lemma_filter_member_index(s: Seq<Seq<char>>, p: spec_fn(Seq<char>) -> bool, m: int)
    requires
        0 <= m < s.filter(p).len(),
    ensures
        exists|j: int| 0 <= j < s.len() && s[j] == s.filter(p)[m],
{
    assert(s.filter(p).contains(s.filter(p)[m]));
    s.lemma_filter_contains_rev(p, s.filter(p)[m]);
}


/// The skill made when a designed skill cannot be read: a dynamic skill of
/// the category, whose prompt asks for content of that category.
pub fn default_dynamic_skill(name: &str, description: &str, category: &str, stage: &str) -> (r: SkillDefinition)
    ensures
        r.skill.name@ == name@,
        r.skill.description@ == description@,
        r.skill.version@ == "0.1.0-dynamic"@,
        r.skill.stage@ == stage@,
        r.skill.category@ == category@,
        r.skill.depends_on@.len() == 0,
        strs(r.input.required@) == seq!["content"@],
        r.input.optional@.len() == 0,
        r.output.format@ == "markdown"@,
        r.output.file_prefix@ == name@,
        r.prompt.creation@ == "请根据以下要求生成"@ + category@ + "内容：\n{content}"@,
        r.prompt.repair@ == "请修复以下内容中的问题。\n\n## 原始内容\n{content}\n\n## 审查意见\n{issues}"@,
        r.review is None,
{
    let mut prompt: Vec<char> = Vec::new();
    push_str(&mut prompt, "请根据以下要求生成");
    push_str(&mut prompt, category);
    push_str(&mut prompt, "内容：\n{content}");
    let prompt = string_of(prompt.as_slice());
    SkillFactory::create_dynamic_skill(name, description, prompt.as_str(), None, category, stage)
}

/// What `serde_json::from_str::<Vec<String>>` gives for a text: the list
/// of strings, or none when the text is not a JSON array of strings.
pub uninterp spec fn json_string_list(text: Seq<char>) -> Option<Seq<Seq<char>>>;

/// Calls `serde_json::from_str::<Vec<String>>`; the result is named, not
/// described.
#[verifier::external_body]
fn parse_string_list(text: &str) -> (r: Option<Vec<String>>)
    ensures
        match r {
            Some(v) => json_string_list(text@) == Some(strs(v@)),
            None => json_string_list(text@) is None,
        },
{
    serde_json::from_str::<Vec<String>>(text).ok()
}

/// The order in which to run the skills of a stage, from the planner's
/// reply: the JSON list of names it gives, or else the stage's core
/// skills.
pub fn skill_order_from_reply(stage: DramaStage, reply: &str) -> (r: Vec<String>)
    ensures
        strs(r@) == match json_string_list(reply@) {
            Some(v) => v,
            None => stage_skills(stage),
        },
{
    match parse_string_list(reply) {
        Some(v) => v,
        None => {
            let core = stage.core_skills();
            let r = crate::text::owned_strings(&core);
            proof {
                assert(core@.map_values(|t: &str| t@) == stage_skills(stage));
            }
            r
        },
    }
}

/// What `serde_json::Value::String` makes of a text.
pub uninterp spec fn json_string_value(s: Seq<char>) -> serde_json::Value;

/// Calls `serde_json::Value::String`: the JSON string of a text.
#[verifier::external_body]
fn json_text(s: String) -> (r: serde_json::Value)
    ensures
        r == json_string_value(s@),
{
    serde_json::Value::String(s)
}

/// Puts the memory context (cut to `max_chars` bytes) into the context's
/// metadata under `memory_context`.
pub fn inject_memory_context(context: &mut AgentContext, store: &MemoryStore, max_chars: usize)
    requires
        store.wf(),
        prefix_bytes(store.context_text(crate::memory::prompt_categories(), 20), max_chars as int) is Some,
    ensures
        kv_lookup(final(context).metadata@, "memory_context"@) == Some(json_string_value(
            crate::memory::cut_context(store.context_text(crate::memory::prompt_categories(), 20), max_chars as nat))),
        forall|k: Seq<char>| k != "memory_context"@ ==> kv_lookup(final(context).metadata@, k) == kv_lookup(old(context).metadata@, k),
        final(context).generated_files == old(context).generated_files,
        final(context).memory == old(context).memory,
{
    let text = store.get_context_for_prompt(max_chars);
    context.set_metadata(String::from_str("memory_context"), json_text(text));
}

/// Stores the result of a skill in the context's metadata under
/// `{skill}_content`.
pub fn store_skill_content(context: &mut AgentContext, skill_name: &str, result: &str)
    ensures
        kv_lookup(final(context).metadata@, skill_name@ + "_content"@) == Some(json_string_value(result@)),
        forall|k: Seq<char>| k != skill_name@ + "_content"@ ==> kv_lookup(final(context).metadata@, k) == kv_lookup(old(context).metadata@, k),
        final(context).generated_files == old(context).generated_files,
        final(context).memory == old(context).memory,
{
    let mut key: Vec<char> = Vec::new();
    push_str(&mut key, skill_name);
    push_str(&mut key, "_content");
    let key = string_of(key.as_slice());
    context.set_metadata(key, json_text(String::from_str(result)));
}

/// Stores a value given by the user in the context's metadata.
pub fn store_user_value(context: &mut AgentContext, key: &str, value: &str)
    ensures
        kv_lookup(final(context).metadata@, key@) == Some(json_string_value(value@)),
        forall|k: Seq<char>| k != key@ ==> kv_lookup(final(context).metadata@, k) == kv_lookup(old(context).metadata@, k),
        final(context).generated_files == old(context).generated_files,
        final(context).memory == old(context).memory,
{
    context.set_metadata(String::from_str(key), json_text(String::from_str(value)));
}

/// The value of `key` in a parameter list: the first one given.
pub open spec fn param_value(ps: Seq<(String, String)>, key: Seq<char>) -> Option<Seq<char>>
    decreases ps.len(),
{
    if ps.len() == 0 {
        None
    } else if ps[0].0@ == key {
        Some(ps[0].1@)
    } else {
        param_value(ps.drop_first(), key)
    }
}

/// Two parameter lists with the same texts give the same values.
proof fn lemma_param_value_views(a: Seq<(String, String)>, b: Seq<(String, String)>, key: Seq<char>)
    requires
        a.len() == b.len(),
        forall|m: int| 0 <= m < a.len() ==> (#[trigger] a[m]).0@ == b[m].0@ && a[m].1@ == b[m].1@,
    ensures
        param_value(a, key) == param_value(b, key),
    decreases a.len(),
{
    if a.len() > 0 {
        lemma_param_value_views(a.drop_first(), b.drop_first(), key);
    }
}

/// The value of a key is that of its first pair at `k` when no earlier pair
/// has the key, and none when no pair has it.
proof fn lemma_param_value_at(ps: Seq<(String, String)>, key: Seq<char>, k: int)
    requires
        0 <= k <= ps.len(),
        forall|m: int| 0 <= m < k ==> (#[trigger] ps[m]).0@ != key,
    ensures
        k < ps.len() && ps[k].0@ == key ==> param_value(ps, key) == Some(ps[k].1@),
        k == ps.len() ==> param_value(ps, key) is None,
    decreases k,
{
    if k > 0 {
        lemma_param_value_at(ps.drop_first(), key, k - 1);
    }
}

/// Changing or adding the pair at `i` leaves the values of the keys other
/// than its own.
proof fn lemma_param_value_other(before: Seq<(String, String)>, after: Seq<(String, String)>, i: int, key: Seq<char>)
    requires
        0 <= i <= before.len(),
        after.len() == if i < before.len() { before.len() } else { before.len() + 1 },
        i < before.len() ==> after[i].0@ == before[i].0@,
        forall|m: int| 0 <= m < before.len() && m != i ==> (#[trigger] after[m]) == before[m],
        key != after[i].0@,
    ensures
        param_value(after, key) == param_value(before, key),
    decreases before.len(),
{
    if i > 0 && before.len() > 0 {
        lemma_param_value_other(before.drop_first(), after.drop_first(), i - 1, key);
    } else if i == 0 && before.len() > 0 {
        assert(after.drop_first() =~= before.drop_first());
    } else if before.len() == 0 {
        assert(after.drop_first().len() == 0);
    }
}

fn set_param(ps: &mut Vec<(String, String)>, key: String, value: String)
    ensures
        param_value(final(ps)@, key@) == Some(value@),
        forall|k: Seq<char>| k != key@ ==> #[trigger] param_value(final(ps)@, k) == param_value(old(ps)@, k),
{
    let mut i: usize = 0;
    let mut found = false;
    while !found && i < ps.len()
        invariant
            i <= ps.len(),
            ps@ == old(ps)@,
            found ==> i < ps.len() && ps@[i as int].0@ == key@,
            forall|m: int| 0 <= m < i ==> (#[trigger] ps@[m]).0@ != key@,
        decreases ps.len() - i + if found { 0int } else { 1int },
    {
        if crate::text::str_eq(ps[i].0.as_str(), key.as_str()) {
            found = true;
        } else {
            i += 1;
        }
    }
    let ghost before = ps@;
    let ghost kv = key@;
    if i < ps.len() {
        let _ = ps.remove(i);
        ps.insert(i, (key, value));
    } else {
        ps.push((key, value));
    }
    proof {
        assert forall|m: int| 0 <= m < i implies (#[trigger] ps@[m]).0@ != kv by {
            assert(ps@[m] == before[m]);
        }
        lemma_param_value_at(ps@, kv, i as int);
        assert forall|k: Seq<char>| k != kv implies #[trigger] param_value(ps@, k) == param_value(before, k) by {
            lemma_param_value_other(before, ps@, i as int, k);
        }
    }
}

/// The parameters with each of `extra` set in turn, replacing the value of
/// a parameter of the same name or coming after the others.
pub fn merge_params(base: &Vec<(String, String)>, extra: Vec<(String, String)>) -> (r: Vec<(String, String)>)
    ensures
        forall|key: Seq<char>| #[trigger] param_value(r@, key) == match last_value(extra@, key) {
            Some(v) => Some(v),
            None => param_value(base@, key),
        },
{
    let mut r: Vec<(String, String)> = Vec::new();
    let mut i: usize = 0;
    while i < base.len()
        invariant
            i <= base.len(),
            r@.len() == i,
            forall|m: int| 0 <= m < i ==> (#[trigger] r@[m]).0@ == base@[m].0@ && r@[m].1@ == base@[m].1@,
        decreases base.len() - i,
    {
        r.push((base[i].0.clone(), base[i].1.clone()));
        i += 1;
    }
    proof {
        assert forall|key: Seq<char>| #[trigger] param_value(r@, key) == param_value(base@, key) by {
            lemma_param_value_views(r@, base@, key);
        }
    }
    let ghost all = extra@;
    let mut rest = extra;
    let mut j: usize = 0;
    proof {
        assert(all.take(0) =~= Seq::<(String, String)>::empty());
        assert(all.skip(0) =~= all);
    }
    assert(all.len() == rest.len());
    while rest.len() > 0
        invariant
            all.len() <= usize::MAX,
            j + rest@.len() == all.len(),
            rest@ == all.skip(j as int),
            forall|key: Seq<char>| #[trigger] param_value(r@, key) == match last_value(all.take(j as int), key) {
                Some(v) => Some(v),
                None => param_value(base@, key),
            },
        decreases rest.len(),
    {
        let (k, v) = rest.remove(0);
        proof {
            assert(all[j as int].0 == k && all[j as int].1 == v);
            assert(all.take(j + 1).drop_last() =~= all.take(j as int));
        }
        set_param(&mut r, k, v);
        proof {
            assert(rest@ =~= all.skip(j + 1));
        }
        j += 1;
    }
    proof {
        assert(all.take(j as int) =~= all);
    }
    r
}

/// The value of `key` in a list of settings: the last one set.
pub open spec fn last_value(ps: Seq<(String, String)>, key: Seq<char>) -> Option<Seq<char>>
    decreases ps.len(),
{
    if ps.len() == 0 {
        None
    } else if ps.last().0@ == key {
        Some(ps.last().1@)
    } else {
        last_value(ps.drop_last(), key)
    }
}

/// The record of a creation run of a skill, stamped now.
pub fn creation_execution(
    skill_name: &str,
    params: Vec<(String, String)>,
    prompt: String,
    result: String,
    file_path: String,
) -> (r: SkillExecution)
    ensures
        r.skill_name@ == skill_name@,
        r.mode == SkillMode::Creation,
        r.params == params,
        r.content == prompt,
        r.result == result,
        r.review_result is None,
        r.file_path == Some(file_path),
        utc_rfc3339_stamp(r.timestamp@),
{
    SkillExecution {
        skill_name: String::from_str(skill_name),
        mode: SkillMode::Creation,
        params,
        content: prompt,
        result,
        review_result: None,
        file_path: Some(file_path),
        timestamp: now_rfc3339(),
    }
}

/// The record of a skill that failed to run, stamped now: no prompt, no
/// result, no file.
pub fn failed_execution(skill_name: &str, params: Vec<(String, String)>) -> (r: SkillExecution)
    ensures
        r.skill_name@ == skill_name@,
        r.mode == SkillMode::Creation,
        r.params == params,
        r.content@.len() == 0,
        r.result@.len() == 0,
        r.review_result is None,
        r.file_path is None,
        utc_rfc3339_stamp(r.timestamp@),
{
    SkillExecution {
        skill_name: String::from_str(skill_name),
        mode: SkillMode::Creation,
        params,
        content: String::new(),
        result: String::new(),
        review_result: None,
        file_path: None,
        timestamp: now_rfc3339(),
    }
}

/// The log entry of a skill run with quality checks, stamped now: its
/// review counts as passed when a quality level was reached.
pub fn quality_log_entry(stage: DramaStage, skill_name: &str, success: bool, quality_level: Option<&str>) -> (r: ExecutionLogEntry)
    ensures
        r.stage@ == stage_name(stage),
        r.skill_name@ == skill_name@,
        r.mode@ == "Creation+Quality"@,
        r.success == success,
        r.review_passed == Some(match quality_level { Some(l) => l@ != "N/A"@, None => false }),
        r.file_path is None,
        r.error is None,
        utc_rfc3339_stamp(r.timestamp@),
{
    let passed = match quality_level {
        Some(l) => !crate::text::str_eq(l, "N/A"),
        None => false,
    };
    ExecutionLogEntry {
        timestamp: now_rfc3339(),
        stage: String::from_str(stage.as_str()),
        skill_name: String::from_str(skill_name),
        mode: String::from_str("Creation+Quality"),
        success,
        review_passed: Some(passed),
        file_path: None,
        error: None,
    }
}

} // verus!
