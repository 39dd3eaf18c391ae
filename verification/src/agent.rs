//! The stages of the writing pipeline, its execution log, and the decisions
//! of its loops.
use vstd::prelude::*;
use vstd::string::StringExecFns;

use crate::quality::{get_repair_priority_list, is_priority_order, QualityIssue};
use crate::skills::{ReviewIssue, SkillExecution, SkillMode};
use crate::text::{decimal, extend_chars, push_decimal, push_str, string_of};
use crate::orchestration::{final_commit_message, quality_threshold, stage_commit_message};
use crate::tools::tenths;

verus! {

/// The four stages of the pipeline, in the order they run.
#[derive(Debug, Clone, Copy, PartialEq, Eq, Structural, Hash)]
pub enum DramaStage {
    Planning,
    Writing,
    Review,
    Polishing,
}

/// The name of a stage.
pub open spec fn stage_name(s: DramaStage) -> Seq<char> {
    match s {
        DramaStage::Planning => "planning"@,
        DramaStage::Writing => "writing"@,
        DramaStage::Review => "review"@,
        DramaStage::Polishing => "polishing"@,
    }
}

/// The core skills of a stage, in the order they run.
pub open spec fn stage_skills(s: DramaStage) -> Seq<Seq<char>> {
    match s {
        DramaStage::Planning => seq!["story_concept"@, "character_design"@, "plot_outline"@],
        DramaStage::Writing => seq!["episode_outline"@, "script_writing"@],
        DramaStage::Review => seq!["consistency_check"@, "historical_verify"@, "full_review"@],
        DramaStage::Polishing => seq!["dialogue_polish"@, "style_enhance"@],
    }
}

/// The texts of a sequence of string slices.
pub open spec fn str_views(v: Seq<&str>) -> Seq<Seq<char>> {
    v.map_values(|s: &str| s@)
}

impl DramaStage {
    /// All stages, in pipeline order.
    pub fn all_stages() -> (r: Vec<DramaStage>)
        ensures
            r@ == seq![DramaStage::Planning, DramaStage::Writing, DramaStage::Review, DramaStage::Polishing],
    {
        let r = vec![DramaStage::Planning, DramaStage::Writing, DramaStage::Review, DramaStage::Polishing];
        proof {
            assert(r@ =~= seq![DramaStage::Planning, DramaStage::Writing, DramaStage::Review, DramaStage::Polishing]);
        }
        r
    }

    pub fn as_str(&self) -> (r: &'static str)
        ensures
            r@ == stage_name(*self),
    {
        match self {
            DramaStage::Planning => "planning",
            DramaStage::Writing => "writing",
            DramaStage::Review => "review",
            DramaStage::Polishing => "polishing",
        }
    }

    /// The core skills of this stage.
    pub fn core_skills(&self) -> (r: Vec<&'static str>)
        ensures
            str_views(r@) == stage_skills(*self),
    {
        let r = match self {
            DramaStage::Planning => vec!["story_concept", "character_design", "plot_outline"],
            DramaStage::Writing => vec!["episode_outline", "script_writing"],
            DramaStage::Review => vec!["consistency_check", "historical_verify", "full_review"],
            DramaStage::Polishing => vec!["dialogue_polish", "style_enhance"],
        };
        proof {
            assert(str_views(r@) =~= stage_skills(*self));
        }
        r
    }
}

/// The state of the research loop.
#[derive(Debug, Clone, Copy, PartialEq, Eq, Structural)]
pub enum ResearchState {
    Initializing,
    Planning,
    Executing,
    Reviewing,
    Repairing,
    Committing,
    Complete,
    Error,
}

/// One line of the execution log.
#[derive(Debug, Clone)]
pub struct ExecutionLogEntry {
    pub timestamp: String,
    pub stage: String,
    pub skill_name: String,
    pub mode: String,
    pub success: bool,
    pub review_passed: Option<bool>,
    pub file_path: Option<String>,
    pub error: Option<String>,
}

/// The name of a skill mode, as `Debug` writes it.
pub open spec fn mode_name(m: SkillMode) -> Seq<char> {
    match m {
        SkillMode::Creation => "Creation"@,
        SkillMode::Repair => "Repair"@,
        SkillMode::Review => "Review"@,
    }
}

pub fn mode_str(m: SkillMode) -> (r: &'static str)
    ensures
        r@ == mode_name(m),
{
    match m {
        SkillMode::Creation => "Creation",
        SkillMode::Repair => "Repair",
        SkillMode::Review => "Review",
    }
}

/// Copies a string.
pub fn copy_string(s: &String) -> (r: String)
    ensures
        r == *s,
{
    s.clone()
}

impl ExecutionLogEntry {
    /// The log line for a run of a skill in `stage`.
    pub fn for_execution(
        execution: &SkillExecution,
        stage: DramaStage,
        success: bool,
        error: Option<String>,
    ) -> (r: ExecutionLogEntry)
        ensures
            r.timestamp@ == execution.timestamp@,
            r.stage@ == stage_name(stage),
            r.skill_name@ == execution.skill_name@,
            r.mode@ == mode_name(execution.mode),
            r.success == success,
            r.review_passed == match execution.review_result {
                Some(rv) => Some(rv.passed),
                None => None,
            },
            r.file_path == execution.file_path,
            r.error == error,
    {
        let review_passed = match &execution.review_result {
            Some(rv) => Some(rv.passed),
            None => None,
        };
        ExecutionLogEntry {
            timestamp: copy_string(&execution.timestamp),
            stage: String::from_str(stage.as_str()),
            skill_name: copy_string(&execution.skill_name),
            mode: String::from_str(mode_str(execution.mode)),
            success,
            review_passed,
            file_path: execution.file_path.clone(),
            error,
        }
    }
}

/// The report line of one log entry: a check or cross, the stage, the
/// skill, the mode and the review outcome.
pub open spec fn report_line(e: ExecutionLogEntry) -> Seq<char> {
    (if e.success { "✓"@ } else { "✗"@ }) + " "@ + e.stage@ + " - "@ + e.skill_name@ + " ("@ + e.mode@
        + ")"@ + match e.review_passed {
        Some(true) => " [审查通过]"@,
        Some(false) => " [审查未通过]"@,
        None => ""@,
    } + "\n"@
}

/// The report lines of the entries, in order.
pub open spec fn report_lines(es: Seq<ExecutionLogEntry>) -> Seq<char>
    decreases es.len(),
{
    if es.len() == 0 {
        seq![]
    } else {
        report_lines(es.drop_last()) + report_line(es.last())
    }
}

/// The execution report: a heading and one line per entry.
pub open spec fn execution_report_text(es: Seq<ExecutionLogEntry>) -> Seq<char> {
    "## 执行报告\n\n"@ + report_lines(es)
}

/// The execution report of a log.
pub fn get_execution_report(log: &Vec<ExecutionLogEntry>) -> (r: String)
    ensures
        r@ == execution_report_text(log@),
{
    let mut out: Vec<char> = Vec::new();
    push_str(&mut out, "## 执行报告\n\n");
    let mut i: usize = 0;
    proof {
        assert(log@.take(0) =~= Seq::<ExecutionLogEntry>::empty());
        assert(out@ =~= "## 执行报告\n\n"@ + report_lines(log@.take(0)));
    }
    while i < log.len()
        invariant
            i <= log.len(),
            out@ == "## 执行报告\n\n"@ + report_lines(log@.take(i as int)),
        decreases log.len() - i,
    {
        let e = &log[i];
        let ghost o0 = out@;
        push_str(&mut out, if e.success { "✓" } else { "✗" });
        push_str(&mut out, " ");
        push_str(&mut out, e.stage.as_str());
        push_str(&mut out, " - ");
        push_str(&mut out, e.skill_name.as_str());
        push_str(&mut out, " (");
        push_str(&mut out, e.mode.as_str());
        push_str(&mut out, ")");
        push_str(&mut out, match e.review_passed {
            Some(true) => " [审查通过]",
            Some(false) => " [审查未通过]",
            None => "",
        });
        push_str(&mut out, "\n");
        proof {
            assert(log@.take(i + 1).drop_last() =~= log@.take(i as int));
            assert(out@ =~= o0 + report_line(log@[i as int]));
        }
        i += 1;
    }
    proof {
        assert(log@.take(log.len() as int) =~= log@);
    }
    string_of(out.as_slice())
}


/// The lines joined with `\n` between them.
pub open spec fn join_lines(ls: Seq<Seq<char>>) -> Seq<char>
    decreases ls.len(),
{
    if ls.len() == 0 {
        seq![]
    } else if ls.len() == 1 {
        ls[0]
    } else {
        join_lines(ls.drop_last()) + "\n"@ + ls.last()
    }
}

/// The line that lists an issue to repair.
pub open spec fn issue_line(i: QualityIssue) -> Seq<char> {
    "- ["@ + i.severity@ + "]["@ + "P"@ + decimal(i.priority as nat) + "] "@ + i.description@ + " | 建议: "@
        + i.fix_suggestion@
}

/// The line that lists a review issue.
pub open spec fn review_issue_line(i: ReviewIssue) -> Seq<char> {
    "- ["@ + i.severity@ + "] "@ + i.description@
}

/// At most the first ten of the issues, one line each.
pub open spec fn repair_issues(issues: Seq<&QualityIssue>) -> Seq<char> {
    let n = if issues.len() < 10 { issues.len() } else { 10 };
    join_lines(Seq::new(n, |k: int| issue_line(*issues[k])))
}

/// All review issues, one line each.
pub open spec fn review_issues(issues: Seq<ReviewIssue>) -> Seq<char> {
    join_lines(issues.map_values(|i: ReviewIssue| review_issue_line(i)))
}

fn push_issue_line(out: &mut Vec<char>, i: &QualityIssue)
    ensures
        final(out)@ == old(out)@ + issue_line(*i),
{
    push_str(out, "- [");
    push_str(out, i.severity.as_str());
    push_str(out, "][");
    push_str(out, "P");
    push_decimal(out, i.priority as u64);
    push_str(out, "] ");
    push_str(out, i.description.as_str());
    push_str(out, " | 建议: ");
    push_str(out, i.fix_suggestion.as_str());
    proof {
        assert(final(out)@ =~= old(out)@ + issue_line(*i));
    }
}

/// The text that lists the first ten issues of a repair list.
pub fn repair_issues_text(issues: &Vec<&QualityIssue>) -> (r: String)
    ensures
        r@ == repair_issues(issues@),
{
    let n: usize = if issues.len() < 10 { issues.len() } else { 10 };
    let ghost ls = Seq::new(n as nat, |k: int| issue_line(*issues@[k]));
    let mut out: Vec<char> = Vec::new();
    let mut k: usize = 0;
    proof {
        assert(ls.take(0) =~= Seq::<Seq<char>>::empty());
    }
    while k < n
        invariant
            k <= n,
            n <= issues.len(),
            ls == Seq::new(n as nat, |k: int| issue_line(*issues@[k])),
            out@ == join_lines(ls.take(k as int)),
        decreases n - k,
    {
        let ghost o0 = out@;
        if k > 0 {
            push_str(&mut out, "\n");
        }
        push_issue_line(&mut out, issues[k]);
        proof {
            assert(ls.take(k + 1).drop_last() =~= ls.take(k as int));
            if k == 0 {
                assert(out@ =~= ls.take(1)[0]);
            } else {
                assert(out@ =~= o0 + "\n"@ + ls[k as int]);
            }
        }
        k += 1;
    }
    proof {
        assert(ls.take(n as int) =~= ls);
    }
    string_of(out.as_slice())
}

/// The text that lists the review issues.
pub fn review_issues_text(issues: &Vec<ReviewIssue>) -> (r: String)
    ensures
        r@ == review_issues(issues@),
{
    let ghost ls = issues@.map_values(|i: ReviewIssue| review_issue_line(i));
    let mut out: Vec<char> = Vec::new();
    let mut k: usize = 0;
    proof {
        assert(ls.take(0) =~= Seq::<Seq<char>>::empty());
    }
    while k < issues.len()
        invariant
            k <= issues.len(),
            ls == issues@.map_values(|i: ReviewIssue| review_issue_line(i)),
            out@ == join_lines(ls.take(k as int)),
        decreases issues.len() - k,
    {
        let ghost o0 = out@;
        if k > 0 {
            push_str(&mut out, "\n");
        }
        push_str(&mut out, "- [");
        push_str(&mut out, issues[k].severity.as_str());
        push_str(&mut out, "] ");
        push_str(&mut out, issues[k].description.as_str());
        proof {
            assert(ls.take(k + 1).drop_last() =~= ls.take(k as int));
            if k == 0 {
                assert(out@ =~= ls.take(1)[0]);
            } else {
                assert(out@ =~= o0 + "\n"@ + ls[k as int]);
            }
        }
        k += 1;
    }
    proof {
        assert(ls.take(issues.len() as int) =~= ls);
    }
    string_of(out.as_slice())
}

/// A review loop stops once the review passes or the repair rounds are used up.
pub fn review_done(passed: bool, repair_round: u32, max_repair_rounds: u32) -> (r: bool)
    ensures
        r == (passed || repair_round >= max_repair_rounds),
{
    passed || repair_round >= max_repair_rounds
}

/// The parameters of a repair prompt: the text to repair and its issues.
pub fn repair_params(content: &str, issues_text: String) -> (r: Vec<(String, String)>)
    ensures
        r@.len() == 2,
        r@[0].0@ == "content"@ && r@[0].1@ == content@,
        r@[1].0@ == "issues"@ && r@[1].1@ == issues_text@,
{
    let mut r: Vec<(String, String)> = Vec::new();
    r.push((String::from_str("content"), String::from_str(content)));
    r.push((String::from_str("issues"), issues_text));
    r
}


/// What the quality repair loop does after an evaluation.
#[derive(Debug, Clone, Copy, PartialEq, Eq, Structural)]
pub enum RepairStep {
    /// The target is met: the current text and its evaluation are the result.
    ReturnCurrent,
    /// Ask the model to repair the current text.
    Repair,
    /// Nothing is left to repair: stop with the best text.
    Stop,
}

/// The decisions of the quality repair loop: evaluate, keep the best text,
/// return once the target is met, else repair, for at most `max_rounds`
/// rounds (`0` for no limit).
pub struct RepairLoop {
    pub round: u32,
    pub max_rounds: u32,
    pub current: String,
    pub best_content: String,
    pub has_best: bool,
}

impl RepairLoop {
    pub fn new(content: &str, max_rounds: u32) -> (r: RepairLoop)
        ensures
            r.round == 0,
            r.max_rounds == max_rounds,
            r.current@ == content@,
            r.best_content@ == content@,
            !r.has_best,
    {
        RepairLoop {
            round: 0,
            max_rounds,
            current: String::from_str(content),
            best_content: String::from_str(content),
            has_best: false,
        }
    }

    /// Starts a round; false when the round limit is passed and the loop stops.
    pub fn begin_round(&mut self) -> (go: bool)
        requires
            old(self).round < u32::MAX,
        ensures
            final(self).round == old(self).round + 1,
            final(self).max_rounds == old(self).max_rounds,
            final(self).current == old(self).current,
            final(self).best_content == old(self).best_content,
            final(self).has_best == old(self).has_best,
            go == !(old(self).max_rounds > 0 && final(self).round > old(self).max_rounds),
    {
        self.round = self.round + 1;
        !(self.max_rounds > 0 && self.round > self.max_rounds)
    }

    /// Takes an evaluation of the current text.  `better` says whether it
    /// scored above the best evaluation so far; the first evaluation is
    /// always the best.  Returns whether it is the new best and what to do.
    pub fn after_evaluation(&mut self, better: bool, meets_target: bool, has_issues: bool) -> (r: (bool, RepairStep))
        ensures
            r.0 == (!old(self).has_best || better),
            r.0 ==> final(self).best_content@ == old(self).current@ && final(self).has_best,
            !r.0 ==> final(self).best_content == old(self).best_content && final(self).has_best == old(self).has_best,
            final(self).current == old(self).current,
            final(self).round == old(self).round,
            final(self).max_rounds == old(self).max_rounds,
            r.1 == if meets_target {
                RepairStep::ReturnCurrent
            } else if !has_issues {
                RepairStep::Stop
            } else {
                RepairStep::Repair
            },
    {
        let new_best = !self.has_best || better;
        if new_best {
            self.best_content = copy_string(&self.current);
            self.has_best = true;
        }
        let step = if meets_target {
            RepairStep::ReturnCurrent
        } else if !has_issues {
            RepairStep::Stop
        } else {
            RepairStep::Repair
        };
        (new_best, step)
    }

    /// The repaired text becomes the current text.
    pub fn after_repair(&mut self, repaired: String)
        ensures
            final(self).current == repaired,
            final(self).round == old(self).round,
            final(self).max_rounds == old(self).max_rounds,
            final(self).best_content == old(self).best_content,
            final(self).has_best == old(self).has_best,
    {
        self.current = repaired;
    }
}

/// The number of iterations after which the pipeline stops.
pub const MAX_ITERATIONS: u32 = 10;

/// The stage at position `k` of an iteration (the last for any later `k`).
pub open spec fn stage_at(k: u8) -> DramaStage {
    if k == 0 {
        DramaStage::Planning
    } else if k == 1 {
        DramaStage::Writing
    } else if k == 2 {
        DramaStage::Review
    } else {
        DramaStage::Polishing
    }
}

/// The stage at position `k` of an iteration.
pub fn nth_stage(k: u8) -> (r: DramaStage)
    ensures
        r == stage_at(k),
{
    if k == 0 {
        DramaStage::Planning
    } else if k == 1 {
        DramaStage::Writing
    } else if k == 2 {
        DramaStage::Review
    } else {
        DramaStage::Polishing
    }
}

/// The commit message after a stage of an iteration.
pub open spec fn stage_commit_text(stage: DramaStage, iteration: u32) -> Seq<char> {
    "[剧本] 完成 "@ + stage_name(stage) + " 阶段 (迭代 "@ + decimal(iteration as nat) + ")"@
}

/// The commit message when the run ends, with the best score if any.
pub open spec fn final_commit_text(best: Option<i64>, iterations: u32) -> Seq<char> {
    match best {
        Some(s) => "[剧本] 🎉 短剧创作完成 - 质量分数："@ + tenths(s as int) + "/10 ("@ + decimal(iterations as nat)
            + " 轮迭代)"@,
        None => "[剧本] 🎉 短剧创作完成"@,
    }
}

/// Where a pipeline run stands.
#[derive(Debug, Clone, Copy, PartialEq, Eq, Structural)]
pub enum PipelinePhase {
    /// Not started.
    Idle,
    /// An iteration was begun; its first stage comes next.
    IterationStarted,
    /// The stage at this position is running.
    InStage(u8),
    /// The stage at this position succeeded and its outputs are being committed.
    StageCommitted(u8),
    /// All stages ran; the script is being scored.
    Scoring,
    /// The final commit is being made.
    FinalCommitted,
    /// The commits are being pushed.
    Pushed,
    /// Finished or aborted.
    Over,
}

/// What happened since the last step.
#[derive(Debug, Clone, Copy, PartialEq, Eq, Structural)]
pub enum PipelineEvent {
    /// The run begins.
    Start,
    /// The last action (beginning an iteration, a commit, a push) was carried out.
    Continue,
    /// The running stage succeeded.
    StageOk,
    /// The running stage failed.
    StageFailed,
    /// The script was scored (fixed point, units of 10^-9, out of 10).
    Scored { score: i64 },
}

/// What the runner does next.
#[derive(Debug)]
pub enum PipelineAction {
    /// Begin an iteration (the memory context may be refreshed), then `Continue`.
    BeginIteration(u32),
    /// Run the stage, then report `StageOk` or `StageFailed`.
    RunStage(DramaStage),
    /// Commit with this message and scope, then `Continue`.
    Commit(String, String),
    /// Score the script, then report `Scored`.
    Score,
    /// Stop with the stage's failure.
    Abort,
    /// Make the final commit with this message, then `Continue`.
    FinalCommit(String),
    /// Push, then `Continue`.
    Push,
    /// Nothing more to do.
    Done,
}

/// An action as plain values.
pub enum ActionView {
    BeginIteration(u32),
    RunStage(DramaStage),
    Commit(Seq<char>, Seq<char>),
    Score,
    Abort,
    FinalCommit(Seq<char>),
    Push,
    Done,
}

pub open spec fn action_view(a: PipelineAction) -> ActionView {
    match a {
        PipelineAction::BeginIteration(i) => ActionView::BeginIteration(i),
        PipelineAction::RunStage(s) => ActionView::RunStage(s),
        PipelineAction::Commit(m, scope) => ActionView::Commit(m@, scope@),
        PipelineAction::Score => ActionView::Score,
        PipelineAction::Abort => ActionView::Abort,
        PipelineAction::FinalCommit(m) => ActionView::FinalCommit(m@),
        PipelineAction::Push => ActionView::Push,
        PipelineAction::Done => ActionView::Done,
    }
}

/// The pipeline run: the iteration, where it stands, and the best score so far.
pub struct PipelineLoop {
    pub iteration: u32,
    pub phase: PipelinePhase,
    pub best: Option<i64>,
}

/// The best score once `score` is known.
pub open spec fn better_best(best: Option<i64>, score: i64) -> Option<i64> {
    match best {
        Some(b) => if score > b { Some(score) } else { Some(b) },
        None => Some(score),
    }
}

/// After the stage at `k`: the next stage, or scoring after the last.
pub open spec fn after_stage(s: PipelineLoop, k: u8) -> (PipelineLoop, ActionView) {
    if k < 3 {
        (PipelineLoop { phase: PipelinePhase::InStage((k + 1) as u8), ..s }, ActionView::RunStage(stage_at((k + 1) as u8)))
    } else {
        (PipelineLoop { phase: PipelinePhase::Scoring, ..s }, ActionView::Score)
    }
}

/// The end of a run: the final commit when committing, else done.
pub open spec fn finish_run(s: PipelineLoop, auto_commit: bool) -> (PipelineLoop, ActionView) {
    if auto_commit {
        (PipelineLoop { phase: PipelinePhase::FinalCommitted, ..s }, ActionView::FinalCommit(final_commit_text(s.best, s.iteration)))
    } else {
        (PipelineLoop { phase: PipelinePhase::Over, ..s }, ActionView::Done)
    }
}

/// One step of the pipeline.  A run starts its first iteration; each
/// iteration runs planning, writing, review and polishing in turn, with a
/// commit of the script outputs after each successful stage when
/// committing; a failed stage aborts the run; after the last stage the
/// script is scored; the run ends once the score reaches the threshold or
/// after `MAX_ITERATIONS` iterations, with a final commit naming the best
/// score and then a push when asked for (both only when committing).  An
/// event that does not fit where the run stands changes nothing.
pub open spec fn pipeline_step(s: PipelineLoop, e: PipelineEvent, auto_commit: bool, push_after: bool) -> (
    PipelineLoop,
    ActionView,
) {
    match s.phase {
        PipelinePhase::Idle => match e {
            PipelineEvent::Start => (
                PipelineLoop { iteration: 1, phase: PipelinePhase::IterationStarted, best: None },
                ActionView::BeginIteration(1),
            ),
            _ => (s, ActionView::Done),
        },
        PipelinePhase::IterationStarted => match e {
            PipelineEvent::Continue => (
                PipelineLoop { phase: PipelinePhase::InStage(0), ..s },
                ActionView::RunStage(DramaStage::Planning),
            ),
            _ => (s, ActionView::Done),
        },
        PipelinePhase::InStage(k) => match e {
            PipelineEvent::StageOk => if auto_commit {
                (
                    PipelineLoop { phase: PipelinePhase::StageCommitted(k), ..s },
                    ActionView::Commit(stage_commit_text(stage_at(k), s.iteration), "script"@),
                )
            } else {
                after_stage(s, k)
            },
            PipelineEvent::StageFailed => (PipelineLoop { phase: PipelinePhase::Over, ..s }, ActionView::Abort),
            _ => (s, ActionView::Done),
        },
        PipelinePhase::StageCommitted(k) => match e {
            PipelineEvent::Continue => after_stage(s, k),
            _ => (s, ActionView::Done),
        },
        PipelinePhase::Scoring => match e {
            PipelineEvent::Scored { score } => {
                let t = PipelineLoop { best: better_best(s.best, score), ..s };
                if score >= quality_threshold() || s.iteration >= MAX_ITERATIONS {
                    finish_run(t, auto_commit)
                } else {
                    (
                        PipelineLoop { iteration: (s.iteration + 1) as u32, phase: PipelinePhase::IterationStarted, ..t },
                        ActionView::BeginIteration((s.iteration + 1) as u32),
                    )
                }
            },
            _ => (s, ActionView::Done),
        },
        PipelinePhase::FinalCommitted => match e {
            PipelineEvent::Continue => if push_after {
                (PipelineLoop { phase: PipelinePhase::Pushed, ..s }, ActionView::Push)
            } else {
                (PipelineLoop { phase: PipelinePhase::Over, ..s }, ActionView::Done)
            },
            _ => (s, ActionView::Done),
        },
        PipelinePhase::Pushed => match e {
            PipelineEvent::Continue => (PipelineLoop { phase: PipelinePhase::Over, ..s }, ActionView::Done),
            _ => (s, ActionView::Done),
        },
        PipelinePhase::Over => (s, ActionView::Done),
    }
}

impl PipelineLoop {
    /// A run not started yet.
    pub fn new() -> (r: PipelineLoop)
        ensures
            r.iteration == 0,
            r.phase == PipelinePhase::Idle,
            r.best is None,
    {
        PipelineLoop { iteration: 0, phase: PipelinePhase::Idle, best: None }
    }

    fn after_stage_exec(&mut self, k: u8) -> (r: PipelineAction)
        ensures
            (*final(self), action_view(r)) == after_stage(*old(self), k),
    {
        if k < 3 {
            self.phase = PipelinePhase::InStage(k + 1);
            PipelineAction::RunStage(nth_stage(k + 1))
        } else {
            self.phase = PipelinePhase::Scoring;
            PipelineAction::Score
        }
    }

    fn finish_exec(&mut self, auto_commit: bool) -> (r: PipelineAction)
        ensures
            (*final(self), action_view(r)) == finish_run(*old(self), auto_commit),
    {
        if auto_commit {
            self.phase = PipelinePhase::FinalCommitted;
            PipelineAction::FinalCommit(final_commit_message(self.best, self.iteration))
        } else {
            self.phase = PipelinePhase::Over;
            PipelineAction::Done
        }
    }

    /// Takes what happened and says what to do next (see `pipeline_step`).
    pub fn next(&mut self, event: PipelineEvent, auto_commit: bool, push_after: bool) -> (r: PipelineAction)
        ensures
            (*final(self), action_view(r)) == pipeline_step(*old(self), event, auto_commit, push_after),
    {
        match self.phase {
            PipelinePhase::Idle => match event {
                PipelineEvent::Start => {
                    self.iteration = 1;
                    self.phase = PipelinePhase::IterationStarted;
                    self.best = None;
                    PipelineAction::BeginIteration(1)
                },
                _ => PipelineAction::Done,
            },
            PipelinePhase::IterationStarted => match event {
                PipelineEvent::Continue => {
                    self.phase = PipelinePhase::InStage(0);
                    PipelineAction::RunStage(DramaStage::Planning)
                },
                _ => PipelineAction::Done,
            },
            PipelinePhase::InStage(k) => match event {
                PipelineEvent::StageOk => if auto_commit {
                    self.phase = PipelinePhase::StageCommitted(k);
                    let message = stage_commit_message(nth_stage(k), self.iteration);
                    let scope = String::from_str("script");
                    proof {
                        reveal_strlit("script");
                    }
                    PipelineAction::Commit(message, scope)
                } else {
                    self.after_stage_exec(k)
                },
                PipelineEvent::StageFailed => {
                    self.phase = PipelinePhase::Over;
                    PipelineAction::Abort
                },
                _ => PipelineAction::Done,
            },
            PipelinePhase::StageCommitted(k) => match event {
                PipelineEvent::Continue => self.after_stage_exec(k),
                _ => PipelineAction::Done,
            },
            PipelinePhase::Scoring => match event {
                PipelineEvent::Scored { score } => {
                    self.best = match self.best {
                        Some(b) => if score > b { Some(score) } else { Some(b) },
                        None => Some(score),
                    };
                    if score >= 9_000_000_000 || self.iteration >= MAX_ITERATIONS {
                        self.finish_exec(auto_commit)
                    } else {
                        self.iteration = self.iteration + 1;
                        self.phase = PipelinePhase::IterationStarted;
                        PipelineAction::BeginIteration(self.iteration)
                    }
                },
                _ => PipelineAction::Done,
            },
            PipelinePhase::FinalCommitted => match event {
                PipelineEvent::Continue => if push_after {
                    self.phase = PipelinePhase::Pushed;
                    PipelineAction::Push
                } else {
                    self.phase = PipelinePhase::Over;
                    PipelineAction::Done
                },
                _ => PipelineAction::Done,
            },
            PipelinePhase::Pushed => match event {
                PipelineEvent::Continue => {
                    self.phase = PipelinePhase::Over;
                    PipelineAction::Done
                },
                _ => PipelineAction::Done,
            },
            PipelinePhase::Over => PipelineAction::Done,
        }
    }
}

/// The attempts of a skill: up to `max_retries` creations, each followed by
/// a review loop when the skill has a review; the last creation is kept for
/// when every review loop fails.
pub struct RetryLoop {
    pub attempts: u32,
    pub max_retries: u32,
    pub last: Option<SkillExecution>,
}

impl RetryLoop {
    pub fn new(max_retries: u32) -> (r: RetryLoop)
        ensures
            r.attempts == 0,
            r.max_retries == max_retries,
            r.last is None,
    {
        RetryLoop { attempts: 0, max_retries, last: None }
    }

    /// Whether another attempt is made.
    pub fn may_attempt(&self) -> (r: bool)
        ensures
            r == (self.attempts < self.max_retries),
    {
        self.attempts < self.max_retries
    }

    /// The review loop of an attempt failed: keep its creation and count the attempt.
    pub fn review_failed(&mut self, execution: SkillExecution)
        requires
            old(self).attempts < old(self).max_retries,
        ensures
            final(self).attempts == old(self).attempts + 1,
            final(self).max_retries == old(self).max_retries,
            final(self).last == Some(execution),
    {
        self.last = Some(execution);
        self.attempts = self.attempts + 1;
    }

    /// What remains once no attempt is left: the last creation, if any.
    pub fn finish(self) -> (r: Option<SkillExecution>)
        ensures
            r == self.last,
    {
        self.last
    }
}

} // verus!
