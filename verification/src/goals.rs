//! Goals of a writing run: their states, attempts, evaluations and the
//! summary given to the model.
use vstd::prelude::*;
use vstd::string::StringExecFns;

use crate::agent::copy_string;
use crate::stamp::{current_time, is_lower_hex, short_id};
use crate::text::{decimal, push_decimal, push_str, str_eq, string_of};

verus! {

/// Where a goal stands.
#[derive(Debug, Clone, Copy, PartialEq, Eq, Structural)]
pub enum GoalStatus {
    Pending,
    InProgress,
    Completed,
    Failed,
    Skipped,
}

/// What a goal is about.
#[derive(Debug, Clone, Copy, PartialEq, Eq, Structural)]
pub enum GoalType {
    ScriptCreation,
    QualityTarget,
    CodeImprovement,
    StageComplete,
}

/// The evaluation of a goal.  Scores are fixed-point numbers in units of
/// 10^-9 points; times are Unix times in nanoseconds.
#[derive(Debug, Clone)]
pub struct GoalEvaluation {
    pub score: i64,
    pub max_score: i64,
    pub passed: bool,
    pub feedback: String,
    pub evaluated_at: i64,
}

/// A goal.  Times are Unix times in nanoseconds.
#[derive(Debug)]
pub struct Goal {
    pub id: String,
    pub name: String,
    pub description: String,
    pub goal_type: GoalType,
    pub priority: u8,
    pub status: GoalStatus,
    pub sub_goals: Vec<Goal>,
    pub completion_criteria: String,
    pub evaluation: Option<GoalEvaluation>,
    pub created_at: i64,
    pub updated_at: i64,
    pub max_attempts: u32,
    pub attempts: u32,
}

/// Counts of goals by status.
#[derive(Debug, Default)]
pub struct GoalStats {
    pub total: usize,
    pub completed: usize,
    pub failed: usize,
    pub in_progress: usize,
    pub pending: usize,
    pub skipped: usize,
}

/// The goal with id `id`, the first if several share it.
pub open spec fn goal_of(goals: Seq<Goal>, id: Seq<char>) -> Option<Goal>
    decreases goals.len(),
{
    if goals.len() == 0 {
        None
    } else if goals[0].id@ == id {
        Some(goals[0])
    } else {
        goal_of(goals.drop_first(), id)
    }
}

/// No two goals share an id.
pub open spec fn ids_unique(goals: Seq<Goal>) -> bool {
    forall|i: int, j: int| 0 <= i < j < goals.len() ==> goals[i].id@ != goals[j].id@
}

/// How many goals have status `s`.
pub open spec fn count_status(goals: Seq<Goal>, s: GoalStatus) -> nat
    decreases goals.len(),
{
    if goals.len() == 0 {
        0
    } else {
        count_status(goals.drop_last(), s) + if goals.last().status == s { 1nat } else { 0nat }
    }
}

/// The goals with status `s`, in order.
pub open spec fn with_status(goals: Seq<Goal>, s: GoalStatus) -> Seq<Goal> {
    goals.filter(|g: Goal| g.status == s)
}

pub proof fn lemma_goal_of_at(goals: Seq<Goal>, id: Seq<char>, k: int)
    requires
        0 <= k <= goals.len(),
        forall|j: int| 0 <= j < k ==> goals[j].id@ != id,
    ensures
        k < goals.len() && goals[k].id@ == id ==> goal_of(goals, id) == Some(goals[k]),
        k == goals.len() ==> goal_of(goals, id) is None,
    decreases k,
{
    if k > 0 {
        lemma_goal_of_at(goals.drop_first(), id, k - 1);
    }
}

/// Replacing the goal at `i` by one with the same id leaves every other
/// id's goal as it was.
pub proof fn lemma_goal_of_update(goals: Seq<Goal>, i: int, g: Goal, id: Seq<char>)
    requires
        ids_unique(goals),
        0 <= i < goals.len(),
        g.id@ == goals[i].id@,
        id != g.id@,
    ensures
        goal_of(goals.update(i, g), id) == goal_of(goals, id),
    decreases goals.len(),
{
    if i > 0 {
        assert(goals.update(i, g).drop_first() =~= goals.drop_first().update(i - 1, g));
        lemma_goal_of_update(goals.drop_first(), i - 1, g, id);
    } else {
        assert(goals.update(i, g).drop_first() =~= goals.drop_first());
    }
}

/// Appending a goal of a new id leaves every other id's goal as it was.
pub proof fn lemma_goal_of_push(goals: Seq<Goal>, g: Goal, id: Seq<char>)
    requires
        id != g.id@,
    ensures
        goal_of(goals.push(g), id) == goal_of(goals, id),
    decreases goals.len(),
{
    if goals.len() > 0 {
        assert(goals.push(g).drop_first() =~= goals.drop_first().push(g));
        lemma_goal_of_push(goals.drop_first(), g, id);
    } else {
        assert(goals.push(g).drop_first() =~= Seq::<Goal>::empty());
        assert(goals.push(g)[0] == g);
        assert(goal_of(goals.push(g).drop_first(), id) is None);
    }
}

pub proof fn lemma_count_update(goals: Seq<Goal>, i: int, g: Goal, s: GoalStatus)
    requires
        0 <= i < goals.len(),
    ensures
        count_status(goals.update(i, g), s) + (if goals[i].status == s { 1nat } else { 0nat })
            == count_status(goals, s) + (if g.status == s { 1nat } else { 0nat }),
    decreases goals.len(),
{
    if i < goals.len() - 1 {
        assert(goals.update(i, g).drop_last() =~= goals.drop_last().update(i, g));
        lemma_count_update(goals.drop_last(), i, g, s);
    } else {
        assert(goals.update(i, g).drop_last() =~= goals.drop_last());
    }
}

pub proof fn lemma_counts_total(goals: Seq<Goal>)
    ensures
        count_status(goals, GoalStatus::Pending) + count_status(goals, GoalStatus::InProgress)
            + count_status(goals, GoalStatus::Completed) + count_status(goals, GoalStatus::Failed)
            + count_status(goals, GoalStatus::Skipped) == goals.len(),
    decreases goals.len(),
{
    if goals.len() > 0 {
        lemma_counts_total(goals.drop_last());
    }
}

/// The goals of a writing run, by id.
pub struct GoalTracker {
    goals: Vec<Goal>,
}

impl GoalTracker {
    /// The goals, each id once.
    pub closed spec fn goal_list(&self) -> Seq<Goal> {
        self.goals@
    }

    pub open spec fn wf(&self) -> bool {
        ids_unique(self.goal_list())
    }

    /// A tracker holding no goal.
    pub fn new() -> (r: GoalTracker)
        ensures
            r.wf(),
            r.goal_list().len() == 0,
    {
        GoalTracker { goals: Vec::new() }
    }

    /// All goals.
    pub fn goals(&self) -> (r: &[Goal])
        ensures
            r@ == self.goal_list(),
    {
        self.goals.as_slice()
    }

    fn position(&self, id: &str) -> (r: Option<usize>)
        ensures
            match r {
                Some(i) => i < self.goal_list().len() && self.goal_list()[i as int].id@ == id@
                    && goal_of(self.goal_list(), id@) == Some(self.goal_list()[i as int]),
                None => goal_of(self.goal_list(), id@) is None
                    && forall|k: int| 0 <= k < self.goal_list().len() ==> self.goal_list()[k].id@ != id@,
            },
    {
        let mut i: usize = 0;
        while i < self.goals.len()
            invariant
                i <= self.goals.len(),
                forall|j: int| 0 <= j < i ==> self.goals@[j].id@ != id@,
            decreases self.goals.len() - i,
        {
            if str_eq(self.goals[i].id.as_str(), id) {
                proof {
                    lemma_goal_of_at(self.goals@, id@, i as int);
                }
                return Some(i);
            }
            i += 1;
        }
        proof {
            lemma_goal_of_at(self.goals@, id@, i as int);
        }
        None
    }

    /// Adds `goal`, replacing a goal of the same id; returns its id.
    pub fn add_goal(&mut self, goal: Goal) -> (r: String)
        requires
            old(self).wf(),
        ensures
            final(self).wf(),
            r@ == goal.id@,
            goal_of(final(self).goal_list(), goal.id@) == Some(goal),
            forall|id: Seq<char>| id != goal.id@ ==> goal_of(final(self).goal_list(), id) == goal_of(old(self).goal_list(), id),
    {
        let id = copy_string(&goal.id);
        match self.position(goal.id.as_str()) {
            Some(i) => {
                let ghost before = self.goals@;
                let _ = self.goals.remove(i);
                self.goals.insert(i, goal);
                proof {
                    assert(self.goals@ =~= before.update(i as int, goal));
                    let after = self.goals@;
                    assert forall|a: int, b: int| 0 <= a < b < after.len() implies after[a].id@ != after[b].id@ by {
                        if a != i { assert(after[a] == before[a]); }
                        if b != i { assert(after[b] == before[b]); }
                    }
                    assert forall|k: int| 0 <= k < i implies after[k].id@ != goal.id@ by {
                        assert(after[k] == before[k]);
                    }
                    lemma_goal_of_at(after, goal.id@, i as int);
                    assert forall|id: Seq<char>| id != goal.id@ implies goal_of(after, id) == goal_of(before, id) by {
                        lemma_goal_of_update(before, i as int, goal, id);
                    }
                }
            },
            None => {
                let ghost before = self.goals@;
                self.goals.push(goal);
                proof {
                    let after = self.goals@;
                    assert forall|a: int, b: int| 0 <= a < b < after.len() implies after[a].id@ != after[b].id@ by {
                        assert(after[a] == before[a]);
                        if b < before.len() { assert(after[b] == before[b]); }
                    }
                    assert forall|k: int| 0 <= k < before.len() implies after[k].id@ != goal.id@ by {
                        assert(after[k] == before[k]);
                    }
                    lemma_goal_of_at(after, goal.id@, before.len() as int);
                    assert forall|id: Seq<char>| id != goal.id@ implies goal_of(after, id) == goal_of(before, id) by {
                        lemma_goal_of_push(before, goal, id);
                    }
                }
            },
        }
        id
    }
}


/// Replacing the goal at `i` by one with the same id keeps ids unique and
/// changes only that id's goal.
pub proof fn lemma_replace(before: Seq<Goal>, i: int, g: Goal)
    requires
        ids_unique(before),
        0 <= i < before.len(),
        g.id@ == before[i].id@,
    ensures
        ids_unique(before.update(i, g)),
        goal_of(before.update(i, g), g.id@) == Some(g),
        forall|id: Seq<char>| id != g.id@ ==> goal_of(before.update(i, g), id) == goal_of(before, id),
{
    let after = before.update(i, g);
    assert forall|a: int, b: int| 0 <= a < b < after.len() implies after[a].id@ != after[b].id@ by {
        if a != i { assert(after[a] == before[a]); }
        if b != i { assert(after[b] == before[b]); }
    }
    assert forall|k: int| 0 <= k < i implies after[k].id@ != g.id@ by {
        assert(after[k] == before[k]);
    }
    lemma_goal_of_at(after, g.id@, i);
    assert forall|id: Seq<char>| id != g.id@ implies goal_of(after, id) == goal_of(before, id) by {
        lemma_goal_of_update(before, i, g, id);
    }
}

/// The goal after an attempt: one more attempt, and failed once the
/// attempts reach the maximum, else in progress.
pub open spec fn attempted(g: Goal, now: i64) -> Goal {
    let a = (g.attempts + 1) as u32;
    Goal {
        attempts: a,
        status: if a >= g.max_attempts { GoalStatus::Failed } else { GoalStatus::InProgress },
        updated_at: now,
        ..g
    }
}

/// The goal after a reset: pending, no attempt, no evaluation.
pub open spec fn reset_goal(g: Goal, now: i64) -> Goal {
    Goal { status: GoalStatus::Pending, attempts: 0, evaluation: None, updated_at: now, ..g }
}

impl GoalTracker {
    /// Builds a goal with a fresh id and adds it: pending, no attempt, no
    /// sub-goal, no evaluation, created and updated at `now`.
    pub fn create_goal_with(
        &mut self,
        name: &str,
        description: &str,
        goal_type: GoalType,
        priority: u8,
        completion_criteria: &str,
        max_attempts: u32,
        id: String,
        now: i64,
    ) -> (r: String)
        requires
            old(self).wf(),
        ensures
            final(self).wf(),
            r@ == id@,
            goal_of(final(self).goal_list(), id@) matches Some(g) && {
                &&& g.name@ == name@
                &&& g.description@ == description@
                &&& g.goal_type == goal_type
                &&& g.priority == priority
                &&& g.status == GoalStatus::Pending
                &&& g.sub_goals@.len() == 0
                &&& g.completion_criteria@ == completion_criteria@
                &&& g.evaluation is None
                &&& g.created_at == now
                &&& g.updated_at == now
                &&& g.max_attempts == max_attempts
                &&& g.attempts == 0
            },
            forall|other: Seq<char>| other != id@ ==> goal_of(final(self).goal_list(), other) == goal_of(old(self).goal_list(), other),
    {
        let goal = Goal {
            id,
            name: String::from_str(name),
            description: String::from_str(description),
            goal_type,
            priority,
            status: GoalStatus::Pending,
            sub_goals: Vec::new(),
            completion_criteria: String::from_str(completion_criteria),
            evaluation: None,
            created_at: now,
            updated_at: now,
            max_attempts,
            attempts: 0,
        };
        self.add_goal(goal)
    }

    /// Sets the status of goal `id`.
    pub fn update_status_at(&mut self, id: &str, status: GoalStatus, now: i64)
        requires
            old(self).wf(),
        ensures
            final(self).wf(),
            final(self).goal_list().len() == old(self).goal_list().len(),
            match goal_of(old(self).goal_list(), id@) {
                Some(g) => goal_of(final(self).goal_list(), id@) == Some(Goal { status, updated_at: now, ..g }),
                None => final(self).goal_list() == old(self).goal_list(),
            },
            forall|other: Seq<char>| other != id@ ==> goal_of(final(self).goal_list(), other) == goal_of(old(self).goal_list(), other),
    {
        match self.position(id) {
            Some(i) => {
                let ghost before = self.goals@;
                let mut g = self.goals.remove(i);
                proof {
                    assert(g == before[i as int]);
                }
                g.status = status;
                g.updated_at = now;
                let ghost gg = g;
                self.goals.insert(i, g);
                proof {
                    assert(self.goals@ =~= before.update(i as int, gg));
                    lemma_replace(before, i as int, gg);
                }
            },
            None => {},
        }
    }

    /// Records an attempt at goal `id`; false once its attempts reach the
    /// maximum (the goal then fails), true otherwise and for an unknown id.
    pub fn record_attempt_at(&mut self, id: &str, now: i64) -> (r: bool)
        requires
            old(self).wf(),
            goal_of(old(self).goal_list(), id@) matches Some(g) ==> g.attempts < u32::MAX,
        ensures
            final(self).wf(),
            final(self).goal_list().len() == old(self).goal_list().len(),
            match goal_of(old(self).goal_list(), id@) {
                Some(g) => {
                    &&& goal_of(final(self).goal_list(), id@) == Some(attempted(g, now))
                    &&& r == (g.attempts + 1 < g.max_attempts)
                },
                None => final(self).goal_list() == old(self).goal_list() && r,
            },
            forall|other: Seq<char>| other != id@ ==> goal_of(final(self).goal_list(), other) == goal_of(old(self).goal_list(), other),
    {
        match self.position(id) {
            Some(i) => {
                let ghost before = self.goals@;
                let mut g = self.goals.remove(i);
                proof {
                    assert(g == before[i as int]);
                }
                g.attempts = g.attempts + 1;
                g.status = GoalStatus::InProgress;
                g.updated_at = now;
                let reached = g.attempts >= g.max_attempts;
                if reached {
                    g.status = GoalStatus::Failed;
                }
                let ghost gg = g;
                self.goals.insert(i, g);
                proof {
                    assert(gg == attempted(before[i as int], now));
                    assert(self.goals@ =~= before.update(i as int, gg));
                    lemma_replace(before, i as int, gg);
                }
                !reached
            },
            None => true,
        }
    }

    /// Records an evaluation of goal `id`: completed when it passed, else
    /// in progress.
    pub fn evaluate_goal_at(
        &mut self,
        id: &str,
        score: i64,
        max_score: i64,
        passed: bool,
        feedback: &str,
        now: i64,
    )
        requires
            old(self).wf(),
        ensures
            final(self).wf(),
            final(self).goal_list().len() == old(self).goal_list().len(),
            match goal_of(old(self).goal_list(), id@) {
                Some(g) => goal_of(final(self).goal_list(), id@) matches Some(h) && {
                    &&& h == Goal {
                        evaluation: h.evaluation,
                        status: if passed { GoalStatus::Completed } else { GoalStatus::InProgress },
                        updated_at: now,
                        ..g
                    }
                    &&& h.evaluation matches Some(e) && e.score == score && e.max_score == max_score
                        && e.passed == passed && e.feedback@ == feedback@ && e.evaluated_at == now
                },
                None => final(self).goal_list() == old(self).goal_list(),
            },
            forall|other: Seq<char>| other != id@ ==> goal_of(final(self).goal_list(), other) == goal_of(old(self).goal_list(), other),
    {
        match self.position(id) {
            Some(i) => {
                let ghost before = self.goals@;
                let mut g = self.goals.remove(i);
                proof {
                    assert(g == before[i as int]);
                }
                g.evaluation = Some(GoalEvaluation {
                    score,
                    max_score,
                    passed,
                    feedback: String::from_str(feedback),
                    evaluated_at: now,
                });
                g.status = if passed { GoalStatus::Completed } else { GoalStatus::InProgress };
                g.updated_at = now;
                let ghost gg = g;
                self.goals.insert(i, g);
                proof {
                    assert(self.goals@ =~= before.update(i as int, gg));
                    lemma_replace(before, i as int, gg);
                }
            },
            None => {},
        }
    }

    /// The goal with id `id`.
    pub fn get(&self, id: &str) -> (r: Option<&Goal>)
        ensures
            match r {
                Some(g) => goal_of(self.goal_list(), id@) == Some(*g),
                None => goal_of(self.goal_list(), id@) is None,
            },
    {
        match self.position(id) {
            Some(i) => Some(&self.goals[i]),
            None => None,
        }
    }

    fn with_status_refs(&self, s: GoalStatus) -> (r: Vec<&Goal>)
        ensures
            r@.map_values(|g: &Goal| *g) == with_status(self.goal_list(), s),
    {
        let ghost pred = |g: Goal| g.status == s;
        let mut r: Vec<&Goal> = Vec::new();
        let mut i: usize = 0;
        proof {
            assert(self.goals@.take(0).filter(pred) =~= Seq::<Goal>::empty());
            assert(r@.map_values(|g: &Goal| *g) =~= Seq::<Goal>::empty());
        }
        while i < self.goals.len()
            invariant
                i <= self.goals.len(),
                pred == (|g: Goal| g.status == s),
                r@.map_values(|g: &Goal| *g) == self.goals@.take(i as int).filter(pred),
            decreases self.goals.len() - i,
        {
            let ghost r0 = r@;
            proof {
                reveal_with_fuel(Seq::<_>::filter, 1);
                assert(self.goals@.take(i + 1).drop_last() =~= self.goals@.take(i as int));
            }
            if self.goals[i].status == s {
                r.push(&self.goals[i]);
                proof {
                    assert(r@.map_values(|g: &Goal| *g) =~= r0.map_values(|g: &Goal| *g).push(self.goals@[i as int]));
                }
            }
            i += 1;
        }
        proof {
            assert(self.goals@.take(self.goals.len() as int) =~= self.goals@);
        }
        r
    }

    /// The goals in progress.
    pub fn get_in_progress(&self) -> (r: Vec<&Goal>)
        ensures
            r@.map_values(|g: &Goal| *g) == with_status(self.goal_list(), GoalStatus::InProgress),
    {
        self.with_status_refs(GoalStatus::InProgress)
    }

    /// The pending goals.
    pub fn get_pending(&self) -> (r: Vec<&Goal>)
        ensures
            r@.map_values(|g: &Goal| *g) == with_status(self.goal_list(), GoalStatus::Pending),
    {
        self.with_status_refs(GoalStatus::Pending)
    }

    /// The goals of type `goal_type`.
    pub fn get_by_type(&self, goal_type: &GoalType) -> (r: Vec<&Goal>)
        ensures
            r@.map_values(|g: &Goal| *g) == self.goal_list().filter(|g: Goal| g.goal_type == *goal_type),
    {
        let ghost pred = |g: Goal| g.goal_type == *goal_type;
        let mut r: Vec<&Goal> = Vec::new();
        let mut i: usize = 0;
        proof {
            assert(self.goals@.take(0).filter(pred) =~= Seq::<Goal>::empty());
            assert(r@.map_values(|g: &Goal| *g) =~= Seq::<Goal>::empty());
        }
        while i < self.goals.len()
            invariant
                i <= self.goals.len(),
                pred == (|g: Goal| g.goal_type == *goal_type),
                r@.map_values(|g: &Goal| *g) == self.goals@.take(i as int).filter(pred),
            decreases self.goals.len() - i,
        {
            let ghost r0 = r@;
            proof {
                reveal_with_fuel(Seq::<_>::filter, 1);
                assert(self.goals@.take(i + 1).drop_last() =~= self.goals@.take(i as int));
            }
            if self.goals[i].goal_type == *goal_type {
                r.push(&self.goals[i]);
                proof {
                    assert(r@.map_values(|g: &Goal| *g) =~= r0.map_values(|g: &Goal| *g).push(self.goals@[i as int]));
                }
            }
            i += 1;
        }
        proof {
            assert(self.goals@.take(self.goals.len() as int) =~= self.goals@);
        }
        r
    }

    /// Whether every goal is completed or skipped.
    pub fn all_completed(&self) -> (r: bool)
        ensures
            r == forall|k: int| 0 <= k < self.goal_list().len() ==>
                (#[trigger] self.goal_list()[k]).status == GoalStatus::Completed || self.goal_list()[k].status == GoalStatus::Skipped,
    {
        let mut i: usize = 0;
        while i < self.goals.len()
            invariant
                i <= self.goals.len(),
                forall|k: int| 0 <= k < i ==>
                    (#[trigger] self.goals@[k]).status == GoalStatus::Completed || self.goals@[k].status == GoalStatus::Skipped,
            decreases self.goals.len() - i,
        {
            let st = self.goals[i].status;
            if !(st == GoalStatus::Completed || st == GoalStatus::Skipped) {
                return false;
            }
            i += 1;
        }
        true
    }

    /// The number of goals of each status.
    pub fn get_stats(&self) -> (r: GoalStats)
        ensures
            r.total == self.goal_list().len(),
            r.completed == count_status(self.goal_list(), GoalStatus::Completed),
            r.failed == count_status(self.goal_list(), GoalStatus::Failed),
            r.in_progress == count_status(self.goal_list(), GoalStatus::InProgress),
            r.pending == count_status(self.goal_list(), GoalStatus::Pending),
            r.skipped == count_status(self.goal_list(), GoalStatus::Skipped),
    {
        let mut st = GoalStats { total: 0, completed: 0, failed: 0, in_progress: 0, pending: 0, skipped: 0 };
        let mut i: usize = 0;
        proof {
            assert(self.goals@.take(0) =~= Seq::<Goal>::empty());
        }
        while i < self.goals.len()
            invariant
                i <= self.goals.len(),
                st.completed == count_status(self.goals@.take(i as int), GoalStatus::Completed),
                st.failed == count_status(self.goals@.take(i as int), GoalStatus::Failed),
                st.in_progress == count_status(self.goals@.take(i as int), GoalStatus::InProgress),
                st.pending == count_status(self.goals@.take(i as int), GoalStatus::Pending),
                st.skipped == count_status(self.goals@.take(i as int), GoalStatus::Skipped),
            decreases self.goals.len() - i,
        {
            proof {
                assert(self.goals@.take(i + 1).drop_last() =~= self.goals@.take(i as int));
                lemma_counts_total(self.goals@.take(i as int));
            }
            match self.goals[i].status {
                GoalStatus::Completed => st.completed = st.completed + 1,
                GoalStatus::Failed => st.failed = st.failed + 1,
                GoalStatus::InProgress => st.in_progress = st.in_progress + 1,
                GoalStatus::Pending => st.pending = st.pending + 1,
                GoalStatus::Skipped => st.skipped = st.skipped + 1,
            }
            i += 1;
        }
        proof {
            assert(self.goals@.take(self.goals.len() as int) =~= self.goals@);
        }
        st.total = self.goals.len();
        st
    }

    /// Puts every goal back to pending, with no attempt and no evaluation.
    pub fn reset_at(&mut self, now: i64)
        requires
            old(self).wf(),
        ensures
            final(self).wf(),
            final(self).goal_list().len() == old(self).goal_list().len(),
            forall|k: int| 0 <= k < old(self).goal_list().len()
                ==> #[trigger] final(self).goal_list()[k] == reset_goal(old(self).goal_list()[k], now),
    {
        let mut i: usize = 0;
        while i < self.goals.len()
            invariant
                i <= self.goals.len(),
                self.goals@.len() == old(self).goals@.len(),
                ids_unique(self.goals@),
                forall|k: int| 0 <= k < i ==> #[trigger] self.goals@[k] == reset_goal(old(self).goals@[k], now),
                forall|k: int| i <= k < self.goals@.len() ==> #[trigger] self.goals@[k] == old(self).goals@[k],
            decreases self.goals.len() - i,
        {
            let ghost before = self.goals@;
            let mut g = self.goals.remove(i);
            proof {
                assert(g == before[i as int]);
            }
            g.status = GoalStatus::Pending;
            g.attempts = 0;
            g.evaluation = None;
            g.updated_at = now;
            let ghost gg = g;
            self.goals.insert(i, g);
            proof {
                assert(self.goals@ =~= before.update(i as int, gg));
                lemma_replace(before, i as int, gg);
            }
            i += 1;
        }
    }
}


/// A non-negative fixed-point number (units of 10^-9) rounded to a whole
/// number, halves to the even neighbour.
pub open spec fn round_half_even(m: nat) -> nat {
    let q = m / 1_000_000_000;
    let r = m % 1_000_000_000;
    if 2 * r < 1_000_000_000 {
        q
    } else if 2 * r > 1_000_000_000 {
        q + 1
    } else if q % 2 == 0 {
        q
    } else {
        q + 1
    }
}

/// A fixed-point number (units of 10^-9) written with no decimals, a
/// negative number keeping its sign even when it rounds to zero.
pub open spec fn whole_points(n: int) -> Seq<char> {
    if n < 0 {
        "-"@ + decimal(round_half_even((-n) as nat))
    } else {
        decimal(round_half_even(n as nat))
    }
}

fn push_whole_points(out: &mut Vec<char>, n: i64)
    ensures
        final(out)@ == old(out)@ + whole_points(n as int),
{
    let m: u64 = if n < 0 { (-(n as i128)) as u64 } else { n as u64 };
    let q = m / 1_000_000_000;
    let r = m % 1_000_000_000;
    let v = if 2 * r < 1_000_000_000 {
        q
    } else if 2 * r > 1_000_000_000 {
        q + 1
    } else if q % 2 == 0 {
        q
    } else {
        q + 1
    };
    proof {
        if n < 0 {
            assert(m == -n);
        } else {
            assert(m == n);
        }
        assert(v == round_half_even(m as nat));
    }
    if n < 0 {
        push_str(out, "-");
    }
    push_decimal(out, v);
}

/// The summary line of a goal with an evaluation, else nothing.
pub open spec fn eval_note(g: Goal) -> Seq<char> {
    match g.evaluation {
        Some(e) => " (分数: "@ + whole_points(e.score as int) + "/"@ + whole_points(e.max_score as int) + ")"@,
        None => seq![],
    }
}

/// The lines of a goal in progress.
pub open spec fn in_progress_line(g: Goal) -> Seq<char> {
    "- [进行中] "@ + g.name@ + " (尝试 "@ + decimal(g.attempts as nat) + "/"@ + decimal(g.max_attempts as nat)
        + ")"@ + eval_note(g) + "\n"@ + "  标准: "@ + g.completion_criteria@ + "\n"@
}

/// The line of a pending goal.
pub open spec fn pending_line(g: Goal) -> Seq<char> {
    "- [待处理] "@ + g.name@ + " (优先级 P"@ + decimal(g.priority as nat) + ")\n"@
}

pub open spec fn in_progress_lines(gs: Seq<Goal>) -> Seq<char>
    decreases gs.len(),
{
    if gs.len() == 0 {
        seq![]
    } else {
        in_progress_lines(gs.drop_last()) + in_progress_line(gs.last())
    }
}

pub open spec fn pending_lines(gs: Seq<Goal>) -> Seq<char>
    decreases gs.len(),
{
    if gs.len() == 0 {
        seq![]
    } else {
        pending_lines(gs.drop_last()) + pending_line(gs.last())
    }
}

/// The goal summary given to the model: the goals in progress, then the
/// pending ones, or a note that no goal is active.
pub open spec fn goals_context(goals: Seq<Goal>) -> Seq<char> {
    let ip = with_status(goals, GoalStatus::InProgress);
    let pe = with_status(goals, GoalStatus::Pending);
    "## 当前目标\n\n"@
        + (if ip.len() > 0 { "### 进行中\n"@ + in_progress_lines(ip) + "\n"@ } else { seq![] })
        + (if pe.len() > 0 { "### 待处理\n"@ + pending_lines(pe) + "\n"@ } else { seq![] })
        + (if ip.len() == 0 && pe.len() == 0 { "(无活跃目标)\n"@ } else { seq![] })
}

fn push_in_progress_line(out: &mut Vec<char>, g: &Goal)
    ensures
        final(out)@ == old(out)@ + in_progress_line(*g),
{
    push_str(out, "- [进行中] ");
    push_str(out, g.name.as_str());
    push_str(out, " (尝试 ");
    push_decimal(out, g.attempts as u64);
    push_str(out, "/");
    push_decimal(out, g.max_attempts as u64);
    push_str(out, ")");
    let ghost o1 = out@;
    match &g.evaluation {
        Some(e) => {
            push_str(out, " (分数: ");
            push_whole_points(out, e.score);
            push_str(out, "/");
            push_whole_points(out, e.max_score);
            push_str(out, ")");
        },
        None => {},
    }
    proof {
        assert(out@ =~= o1 + eval_note(*g));
    }
    push_str(out, "\n");
    push_str(out, "  标准: ");
    push_str(out, g.completion_criteria.as_str());
    push_str(out, "\n");
    proof {
        assert(final(out)@ =~= old(out)@ + in_progress_line(*g));
    }
}

impl GoalTracker {
    /// The goal summary given to the model.
    pub fn get_context_for_prompt(&self) -> (r: String)
        ensures
            r@ == goals_context(self.goal_list()),
    {
        let mut out: Vec<char> = Vec::new();
        push_str(&mut out, "## 当前目标\n\n");
        let in_progress = self.get_in_progress();
        let ghost ip = in_progress@.map_values(|g: &Goal| *g);
        if in_progress.len() > 0 {
            push_str(&mut out, "### 进行中\n");
            let ghost o0 = out@;
            let mut i: usize = 0;
            proof {
                assert(ip.take(0) =~= Seq::<Goal>::empty());
                assert(out@ =~= o0 + in_progress_lines(ip.take(0)));
            }
            while i < in_progress.len()
                invariant
                    i <= in_progress.len(),
                    ip == in_progress@.map_values(|g: &Goal| *g),
                    out@ == o0 + in_progress_lines(ip.take(i as int)),
                decreases in_progress.len() - i,
            {
                let g = in_progress[i];
                push_in_progress_line(&mut out, g);
                proof {
                    assert(ip.take(i + 1).drop_last() =~= ip.take(i as int));
                    assert(ip[i as int] == *g);
                }
                i += 1;
            }
            proof {
                assert(ip.take(in_progress.len() as int) =~= ip);
            }
            push_str(&mut out, "\n");
        }
        let ghost o2 = out@;
        let pending = self.get_pending();
        let ghost pe = pending@.map_values(|g: &Goal| *g);
        if pending.len() > 0 {
            push_str(&mut out, "### 待处理\n");
            let ghost o0 = out@;
            let mut i: usize = 0;
            proof {
                assert(pe.take(0) =~= Seq::<Goal>::empty());
                assert(out@ =~= o0 + pending_lines(pe.take(0)));
            }
            while i < pending.len()
                invariant
                    i <= pending.len(),
                    pe == pending@.map_values(|g: &Goal| *g),
                    out@ == o0 + pending_lines(pe.take(i as int)),
                decreases pending.len() - i,
            {
                let g = pending[i];
                let ghost o1 = out@;
                push_str(&mut out, "- [待处理] ");
                push_str(&mut out, g.name.as_str());
                push_str(&mut out, " (优先级 P");
                push_decimal(&mut out, g.priority as u64);
                push_str(&mut out, ")\n");
                proof {
                    assert(pe.take(i + 1).drop_last() =~= pe.take(i as int));
                    assert(pe[i as int] == *g);
                    assert(out@ =~= o1 + pending_line(*g));
                }
                i += 1;
            }
            proof {
                assert(pe.take(pending.len() as int) =~= pe);
            }
            push_str(&mut out, "\n");
        }
        let ghost o3 = out@;
        if in_progress.len() == 0 && pending.len() == 0 {
            push_str(&mut out, "(无活跃目标)\n");
        }
        proof {
            assert(o2 =~= "## 当前目标\n\n"@
                + (if ip.len() > 0 { "### 进行中\n"@ + in_progress_lines(ip) + "\n"@ } else { seq![] }));
            assert(o3 =~= o2 + (if pe.len() > 0 { "### 待处理\n"@ + pending_lines(pe) + "\n"@ } else { seq![] }));
            assert(out@ =~= goals_context(self.goal_list()));
        }
        string_of(out.as_slice())
    }
}


impl GoalTracker {
    /// Builds a goal with a fresh eight-character id and adds it: pending,
    /// no attempt, no sub-goal, no evaluation, created and updated now.
    pub fn create_goal(
        &mut self,
        name: &str,
        description: &str,
        goal_type: GoalType,
        priority: u8,
        completion_criteria: &str,
        max_attempts: u32,
    ) -> (r: String)
        requires
            old(self).wf(),
        ensures
            final(self).wf(),
            r@.len() == 8,
            forall|k: int| 0 <= k < 8 ==> is_lower_hex(#[trigger] r@[k]),
            goal_of(final(self).goal_list(), r@) matches Some(g) && {
                &&& g.name@ == name@
                &&& g.description@ == description@
                &&& g.goal_type == goal_type
                &&& g.priority == priority
                &&& g.status == GoalStatus::Pending
                &&& g.sub_goals@.len() == 0
                &&& g.completion_criteria@ == completion_criteria@
                &&& g.evaluation is None
                &&& g.created_at == g.updated_at
                &&& g.max_attempts == max_attempts
                &&& g.attempts == 0
            },
            forall|other: Seq<char>| other != r@ ==> goal_of(final(self).goal_list(), other) == goal_of(old(self).goal_list(), other),
    {
        let id = short_id();
        let now = current_time();
        self.create_goal_with(name, description, goal_type, priority, completion_criteria, max_attempts, id, now)
    }

    /// Sets the status of goal `id`, updated now.
    pub fn update_status(&mut self, id: &str, status: GoalStatus)
        requires
            old(self).wf(),
        ensures
            final(self).wf(),
            final(self).goal_list().len() == old(self).goal_list().len(),
            match goal_of(old(self).goal_list(), id@) {
                Some(g) => goal_of(final(self).goal_list(), id@) matches Some(h)
                    && h == (Goal { status, updated_at: h.updated_at, ..g }),
                None => final(self).goal_list() == old(self).goal_list(),
            },
            forall|other: Seq<char>| other != id@ ==> goal_of(final(self).goal_list(), other) == goal_of(old(self).goal_list(), other),
    {
        let now = current_time();
        self.update_status_at(id, status, now);
    }

    /// Records an attempt at goal `id`, updated now; false once its attempts
    /// reach the maximum (the goal then fails), true otherwise and for an
    /// unknown id.
    pub fn record_attempt(&mut self, id: &str) -> (r: bool)
        requires
            old(self).wf(),
            goal_of(old(self).goal_list(), id@) matches Some(g) ==> g.attempts < u32::MAX,
        ensures
            final(self).wf(),
            final(self).goal_list().len() == old(self).goal_list().len(),
            match goal_of(old(self).goal_list(), id@) {
                Some(g) => {
                    &&& goal_of(final(self).goal_list(), id@) matches Some(h)
                        && h == attempted(g, h.updated_at)
                    &&& r == (g.attempts + 1 < g.max_attempts)
                },
                None => final(self).goal_list() == old(self).goal_list() && r,
            },
            forall|other: Seq<char>| other != id@ ==> goal_of(final(self).goal_list(), other) == goal_of(old(self).goal_list(), other),
    {
        let now = current_time();
        self.record_attempt_at(id, now)
    }

    /// Records an evaluation of goal `id`, made and updated now: completed
    /// when it passed, else in progress.
    pub fn evaluate_goal(&mut self, id: &str, score: i64, max_score: i64, passed: bool, feedback: &str)
        requires
            old(self).wf(),
        ensures
            final(self).wf(),
            final(self).goal_list().len() == old(self).goal_list().len(),
            match goal_of(old(self).goal_list(), id@) {
                Some(g) => goal_of(final(self).goal_list(), id@) matches Some(h) && {
                    &&& h == Goal {
                        evaluation: h.evaluation,
                        status: if passed { GoalStatus::Completed } else { GoalStatus::InProgress },
                        updated_at: h.updated_at,
                        ..g
                    }
                    &&& h.evaluation matches Some(e) && e.score == score && e.max_score == max_score
                        && e.passed == passed && e.feedback@ == feedback@ && e.evaluated_at == h.updated_at
                },
                None => final(self).goal_list() == old(self).goal_list(),
            },
            forall|other: Seq<char>| other != id@ ==> goal_of(final(self).goal_list(), other) == goal_of(old(self).goal_list(), other),
    {
        let now = current_time();
        self.evaluate_goal_at(id, score, max_score, passed, feedback, now);
    }

    /// Puts every goal back to pending, with no attempt and no evaluation,
    /// all updated at the same moment.
    pub fn reset(&mut self)
        requires
            old(self).wf(),
        ensures
            final(self).wf(),
            final(self).goal_list().len() == old(self).goal_list().len(),
            forall|k: int| 0 <= k < old(self).goal_list().len()
                ==> #[trigger] final(self).goal_list()[k] == reset_goal(old(self).goal_list()[k], final(self).goal_list()[k].updated_at),
            forall|k: int, l: int| 0 <= k < l < old(self).goal_list().len()
                ==> #[trigger] final(self).goal_list()[k].updated_at == #[trigger] final(self).goal_list()[l].updated_at,
    {
        let now = current_time();
        self.reset_at(now);
    }

    /// A tracker holding saved goals: each added in turn, a later goal
    /// replacing an earlier one of the same id.
    pub fn from_goals(goals: Vec<Goal>) -> (r: GoalTracker)
        ensures
            r.wf(),
            forall|k: int| 0 <= k < goals@.len() ==> goal_of(r.goal_list(), #[trigger] goals@[k].id@) is Some,
    {
        let ghost all = goals@;
        let mut rest = goals;
        let mut t = GoalTracker::new();
        let mut i: usize = 0;
        assert(all.len() == rest.len());
        while rest.len() > 0
            invariant
                t.wf(),
                all.len() <= usize::MAX,
                i + rest@.len() == all.len(),
                rest@ == all.skip(i as int),
                forall|k: int| 0 <= k < i ==> goal_of(t.goal_list(), #[trigger] all[k].id@) is Some,
            decreases rest.len(),
        {
            let g = rest.remove(0);
            let ghost gid = g.id@;
            let ghost t0 = t.goal_list();
            proof {
                assert(all[i as int].id@ == gid);
            }
            t.add_goal(g);
            proof {
                assert forall|k: int| 0 <= k < i + 1 implies goal_of(t.goal_list(), #[trigger] all[k].id@) is Some by {
                    if all[k].id@ != gid {
                        assert(goal_of(t0, all[k].id@) is Some);
                    }
                }
                assert(rest@ =~= all.skip(i + 1));
            }
            i += 1;
        }
        t
    }
}


/// Resetting every goal keeps each id's goal, reset.
pub proof fn lemma_goal_of_reset(a: Seq<Goal>, b: Seq<Goal>, id: Seq<char>)
    requires
        a.len() == b.len(),
        forall|k: int| 0 <= k < a.len() ==> #[trigger] b[k] == reset_goal(a[k], b[k].updated_at),
    ensures
        goal_of(a, id) matches Some(g) ==> (goal_of(b, id) matches Some(h) && h == reset_goal(g, h.updated_at)),
    decreases a.len(),
{
    if a.len() > 0 {
        assert(b[0] == reset_goal(a[0], b[0].updated_at));
        if a[0].id@ != id {
            assert forall|k: int| 0 <= k < a.drop_first().len() implies #[trigger] b.drop_first()[k]
                == reset_goal(a.drop_first()[k], b.drop_first()[k].updated_at) by {
                assert(b[k + 1] == reset_goal(a[k + 1], b[k + 1].updated_at));
            }
            lemma_goal_of_reset(a.drop_first(), b.drop_first(), id);
        }
    }
}

/// In a list of unique ids, a goal of the list is the goal of its id.
pub proof fn lemma_goal_in_list(gs: Seq<Goal>, g: Goal)
    requires
        ids_unique(gs),
        gs.contains(g),
    ensures
        goal_of(gs, g.id@) == Some(g),
{
    let k = choose|k: int| 0 <= k < gs.len() && gs[k] == g;
    assert forall|j: int| 0 <= j < k implies gs[j].id@ != g.id@ by {
        assert(gs[j].id@ != gs[k].id@);
    }
    lemma_goal_of_at(gs, g.id@, k);
}


/// The goal of an id, when there is one, is a goal of the list with that id.
pub proof fn lemma_goal_of_some(gs: Seq<Goal>, id: Seq<char>)
    ensures
        goal_of(gs, id) matches Some(g) ==> gs.contains(g) && g.id@ == id,
    decreases gs.len(),
{
    if gs.len() > 0 {
        if gs[0].id@ == id {
            assert(gs[0] == gs[0]);
            assert(gs.contains(gs[0]));
        } else {
            lemma_goal_of_some(gs.drop_first(), id);
            if goal_of(gs, id) is Some {
                let g = goal_of(gs, id).unwrap();
                let k = choose|k: int| 0 <= k < gs.drop_first().len() && gs.drop_first()[k] == g;
                assert(gs[k + 1] == g);
            }
        }
    }
}

} // verus!
