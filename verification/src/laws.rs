//! Properties of the library that span several of its functions.
use vstd::prelude::*;

use crate::agent::{pipeline_step, ActionView, PipelineEvent, PipelineLoop, PipelinePhase, MAX_ITERATIONS};
use crate::git::{git_next, AnswerView, CommandOutput, GitCmd, GitOp};
use crate::goals::{count_status, lemma_counts_total, Goal, GoalStatus};
use crate::goals::GoalType;
use crate::memory::{cut_context, entry_ids_unique, MemoryCategory, MemoryStore};
use crate::orchestration::{initial_goal, quality_threshold};
use crate::skill_markdown::{clean_item, output_scan, output_step, SectionFields};
use crate::tools::{category_from_name, category_schema_name, category_short_name};
use crate::output::{join_path, output_name};
use crate::quality::{is_priority_order, level_rank, QualityIssue, QualityLevel};
use crate::skills::{filled, key_of, lookup_param, placeholder, placeholder_value, rendered};
use crate::text::{
    ascii_lower, contains, is_ascii_char, lemma_index_of_is, occurs_at, trim, byte_len, chars_for_bytes, decimal, digit_char, index_of, last_index_of, lemma_index_of_facts, lemma_last_index_of_facts, prefix_bytes,
};

verus! {

/// Every git operation ends: each step either moves to a later stage, at
/// most the fourth, and names a command, or finishes (stage 9) with an
/// answer.  So an operation runs at most four git commands.
pub proof fn law_git_operations_finish(op: GitOp, stage: u8, enabled: bool, out: CommandOutput)
    requires
        stage < 9,
    ensures
        ({
            let (next, cmd, _answer) = git_next(op, stage, enabled, out);
            ||| next == 9 && cmd is None
            ||| stage < next <= 4 && cmd is Some
        }),
{
}

/// A finished git operation stays finished: asked again, it answers at
/// once and names no command.
pub proof fn law_git_done_is_final(op: GitOp, enabled: bool, out: CommandOutput)
    ensures
        git_next(op, 9, enabled, out).0 == 9,
        git_next(op, 9, enabled, out).1 is None,
{
}

/// The repair order lists every issue exactly once.
pub proof fn law_repair_order_is_permutation(issues: Seq<QualityIssue>, order: Seq<usize>)
    requires
        is_priority_order(issues, order),
    ensures
        forall|i: usize| i < issues.len() ==> #[trigger] order.contains(i),
        order.no_duplicates(),
{
    let ints = order.map_values(|x: usize| x as int);
    assert forall|a: int, b: int| 0 <= a < ints.len() && 0 <= b < ints.len() && a != b implies ints[a] != ints[b] by {
        if a < b {
            assert(order[a] != order[b]);
        } else {
            assert(order[b] != order[a]);
        }
    }
    assert(ints.no_duplicates());
    ints.unique_seq_to_set();
    let range = vstd::set_lib::set_int_range(0, issues.len() as int);
    vstd::set_lib::lemma_int_range(0, issues.len() as int);
    assert(ints.to_set().subset_of(range)) by {
        assert forall|x: int| ints.to_set().contains(x) implies range.contains(x) by {
            let k = choose|k: int| 0 <= k < ints.len() && ints[k] == x;
            assert(order[k] < issues.len());
        }
    }
    vstd::set_lib::lemma_subset_equality(ints.to_set(), range);
    assert forall|i: usize| i < issues.len() implies #[trigger] order.contains(i) by {
        assert(range.contains(i as int));
        assert(ints.to_set().contains(i as int));
        let k = choose|k: int| 0 <= k < ints.len() && ints[k] == i as int;
        assert(order[k] == i);
    }
    assert forall|a: int, b: int| 0 <= a < order.len() && 0 <= b < order.len() && a != b implies order[a] != order[b] by {
        assert(ints[a] != ints[b]);
    }
}

/// Meeting a target is an order on levels: every level meets itself, a
/// level that meets one that meets a target meets that target, and of two
/// levels one meets the other.
pub proof fn law_meets_target_is_order(a: QualityLevel, b: QualityLevel, c: QualityLevel)
    ensures
        level_rank(a) >= level_rank(a),
        level_rank(a) >= level_rank(b) && level_rank(b) >= level_rank(c) ==> level_rank(a) >= level_rank(c),
        level_rank(a) >= level_rank(b) || level_rank(b) >= level_rank(a),
        level_rank(a) >= level_rank(b) && level_rank(b) >= level_rank(a) ==> a == b,
{
}

/// The goal counts by status add up to the number of goals.
pub proof fn law_goal_counts_add_up(goals: Seq<Goal>)
    ensures
        count_status(goals, GoalStatus::Pending) + count_status(goals, GoalStatus::InProgress)
            + count_status(goals, GoalStatus::Completed) + count_status(goals, GoalStatus::Failed)
            + count_status(goals, GoalStatus::Skipped) == goals.len(),
{
    lemma_counts_total(goals);
}

proof fn lemma_prefix_bytes_le(s: Seq<char>, n: int, p: Seq<char>)
    requires
        byte_len(s) > n,
        prefix_bytes(s, n) == Some(p),
    ensures
        byte_len(p) <= n,
        p.len() <= s.len(),
        p == s.take(p.len() as int),
{
    let k = chars_for_bytes(s, n).unwrap();
    lemma_chars_for_bytes_exact(s, n);
}

proof fn lemma_chars_for_bytes_exact(s: Seq<char>, n: int)
    requires
        chars_for_bytes(s, n) is Some,
    ensures
        chars_for_bytes(s, n).unwrap() <= s.len(),
        byte_len(s.take(chars_for_bytes(s, n).unwrap() as int)) == n,
    decreases s.len(),
{
    let k = chars_for_bytes(s, n).unwrap();
    if n == 0 {
        assert(s.take(0).len() == 0);
    } else {
        lemma_chars_for_bytes_exact(s.drop_first(), n - crate::text::utf8_width(s[0]));
        assert(s.take(k as int).drop_first() =~= s.drop_first().take(k - 1));
        assert(s.take(k as int)[0] == s[0]);
    }
}

/// The memory context given to the model keeps its structure when cut:
/// it is the whole context when that fits, else a prefix of the context of
/// at most `max` bytes that ends before a line break (or all of the first
/// `max` bytes when they hold none), followed by a note.
pub proof fn law_cut_context_keeps_prefix(ctx: Seq<char>, max: nat)
    requires
        prefix_bytes(ctx, max as int) is Some,
    ensures
        byte_len(ctx) <= max ==> cut_context(ctx, max) == ctx,
        byte_len(ctx) > max ==> exists|kept: Seq<char>| {
            &&& cut_context(ctx, max) == kept + "...\n(记忆上下文已截断)"@
            &&& kept == ctx.take(kept.len() as int)
            &&& #[trigger] byte_len(kept) <= max
        },
{
    if byte_len(ctx) > max {
        let t = prefix_bytes(ctx, max as int).unwrap();
        lemma_prefix_bytes_le(ctx, max as int, t);
        lemma_last_index_of_facts(t, '\n');
        let kept = match last_index_of(t, '\n') {
            Some(k) => t.take(k),
            None => t,
        };
        crate::text::lemma_byte_len_prefix_le(t, kept.len() as int);
        assert(kept == t.take(kept.len() as int));
        assert(kept == ctx.take(kept.len() as int));
        assert(cut_context(ctx, max) == kept + "...\n(记忆上下文已截断)"@);
    }
}

/// A text without `{` renders to itself.
proof fn lemma_no_brace_unchanged(t: Seq<char>, params: Seq<(String, String)>)
    requires
        forall|i: int| 0 <= i < t.len() ==> t[i] != '{',
    ensures
        filled(t, params) == t,
    decreases t.len(),
{
    if t.len() > 0 {
        lemma_no_brace_unchanged(t.drop_first(), params);
        assert(t =~= seq![t[0]] + t.drop_first());
    }
}

/// A template without `{` renders to itself, whatever the parameters.
pub proof fn law_plain_template_renders_to_itself(t: Seq<char>, params: Seq<(String, String)>)
    requires
        forall|i: int| 0 <= i < t.len() ==> t[i] != '{',
    ensures
        rendered(t, params) == t,
{
    lemma_no_brace_unchanged(t, params);
}

/// The first `}` of a key without `}` followed by `}` is right after the key.
proof fn lemma_close_after_key(key: Seq<char>, rest: Seq<char>)
    requires
        forall|i: int| 0 <= i < key.len() ==> key[i] != '}',
    ensures
        index_of(key + seq!['}'] + rest, '}') == Some(key.len() as int),
    decreases key.len(),
{
    if key.len() == 0 {
        assert((key + seq!['}'] + rest)[0] == '}');
    } else {
        lemma_close_after_key(key.drop_first(), rest);
        assert((key + seq!['}'] + rest).drop_first() =~= key.drop_first() + seq!['}'] + rest);
    }
}

/// A placeholder `{key}` at the start of a template becomes the value of
/// the parameter `key`, kept as it is, or nothing when no parameter has that
/// name; the rest of the template is rendered on its own.
pub proof fn law_placeholder_becomes_its_value(key: Seq<char>, rest: Seq<char>, params: Seq<(String, String)>)
    requires
        key.len() > 0,
        forall|i: int| 0 <= i < key.len() ==> key[i] != '}',
    ensures
        rendered(placeholder(key) + rest, params) == match lookup_param(params, key) {
            Some(v) => v + rendered(rest, params),
            None => rendered(rest, params),
        },
{
    let s = placeholder(key) + rest;
    assert(s.drop_first() =~= key + seq!['}'] + rest);
    lemma_close_after_key(key, rest);
    let j = key.len() as int;
    assert(s.take(j + 2) =~= placeholder(key));
    assert(s.skip(j + 2) =~= rest);
    assert(key_of(placeholder(key)) =~= key);
    assert(filled(s, params) == placeholder_value(s.take(j + 2), params) + filled(s.skip(j + 2), params));
}

/// Every entry of a memory store has an id of its own.
pub proof fn law_memory_ids_unique(store: MemoryStore)
    requires
        store.wf(),
    ensures
        entry_ids_unique(store.entry_list()),
{
    store.lemma_wf_unique();
}

/// A pipeline run never passes `MAX_ITERATIONS` iterations.
pub proof fn law_pipeline_iterations_bounded(s: PipelineLoop, e: PipelineEvent, auto_commit: bool, push_after: bool)
    requires
        s.iteration <= MAX_ITERATIONS,
    ensures
        pipeline_step(s, e, auto_commit, push_after).0.iteration <= MAX_ITERATIONS,
{
}

/// A pipeline run that is over stays over and asks for nothing more.
pub proof fn law_pipeline_over_is_final(s: PipelineLoop, e: PipelineEvent, auto_commit: bool, push_after: bool)
    requires
        s.phase == PipelinePhase::Over,
    ensures
        pipeline_step(s, e, auto_commit, push_after) == (s, ActionView::Done),
{
}

/// A decimal digit.
pub open spec fn is_digit(c: char) -> bool {
    '0' <= c && c <= '9'
}

/// Decimal notation is made of digits, at least one, and two or more from ten on.
proof fn lemma_decimal_digits(n: nat)
    ensures
        decimal(n).len() >= 1,
        n >= 10 ==> decimal(n).len() >= 2,
        forall|i: int| 0 <= i < decimal(n).len() ==> is_digit(#[trigger] decimal(n)[i]),
    decreases n,
{
    if n >= 10 {
        lemma_decimal_digits(n / 10);
        let d = decimal(n);
        assert(d == decimal(n / 10).push(digit_char((n % 10) as int)));
        assert forall|i: int| 0 <= i < d.len() implies is_digit(#[trigger] d[i]) by {
            if i < d.len() - 1 {
                assert(d[i] == decimal(n / 10)[i]);
            }
        }
    }
}

/// Different numbers have different decimal notations.
proof fn lemma_decimal_injective(a: nat, b: nat)
    requires
        decimal(a) == decimal(b),
    ensures
        a == b,
    decreases a,
{
    lemma_decimal_digits(a);
    lemma_decimal_digits(b);
    if a >= 10 && b >= 10 {
        let da = decimal(a);
        let db = decimal(b);
        assert(da.drop_last() =~= decimal(a / 10));
        assert(db.drop_last() =~= decimal(b / 10));
        assert(digit_char((a % 10) as int) == da.last());
        assert(digit_char((b % 10) as int) == db.last());
        lemma_decimal_injective(a / 10, b / 10);
    } else if a < 10 && b < 10 {
        assert(decimal(a)[0] == digit_char(a as int));
        assert(decimal(b)[0] == digit_char(b as int));
    }
}

/// Output names numbered differently differ.
proof fn lemma_output_names_differ(
    n1: nat,
    n2: nat,
    p1: Seq<char>,
    p2: Seq<char>,
    s1: Seq<char>,
    s2: Seq<char>,
    f1: Seq<char>,
    f2: Seq<char>,
)
    requires
        n1 != n2,
    ensures
        output_name(n1, p1, s1, f1) != output_name(n2, p2, s2, f2),
{
    let x = output_name(n1, p1, s1, f1);
    let y = output_name(n2, p2, s2, f2);
    let d1 = decimal(n1);
    let d2 = decimal(n2);
    lemma_decimal_digits(n1);
    lemma_decimal_digits(n2);
    reveal_strlit("_");
    assert(x.take(d1.len() as int) =~= d1);
    assert(y.take(d2.len() as int) =~= d2);
    assert(x[d1.len() as int] == '_');
    assert(y[d2.len() as int] == '_');
    if x == y {
        if d1.len() == d2.len() {
            lemma_decimal_injective(n1, n2);
        } else if d1.len() < d2.len() {
            assert(is_digit(d2[d1.len() as int]));
            assert(y[d1.len() as int] == d2[d1.len() as int]);
        } else {
            assert(is_digit(d1[d2.len() as int]));
            assert(x[d2.len() as int] == d1[d2.len() as int]);
        }
    }
}

/// Two outputs numbered differently (as successive `save_output` calls
/// number them) get different paths in one directory, whatever their
/// prefixes, time stamps and formats.
pub proof fn law_output_paths_differ(
    dir: Seq<char>,
    n1: nat,
    n2: nat,
    p1: Seq<char>,
    p2: Seq<char>,
    s1: Seq<char>,
    s2: Seq<char>,
    f1: Seq<char>,
    f2: Seq<char>,
)
    requires
        n1 != n2,
    ensures
        join_path(dir, output_name(n1, p1, s1, f1)) != join_path(dir, output_name(n2, p2, s2, f2)),
{
    let x = output_name(n1, p1, s1, f1);
    let y = output_name(n2, p2, s2, f2);
    lemma_output_names_differ(n1, n2, p1, p2, s1, s2, f1, f2);
    lemma_decimal_digits(n1);
    lemma_decimal_digits(n2);
    assert(x[0] == decimal(n1)[0]);
    assert(y[0] == decimal(n2)[0]);
    assert(is_digit(x[0]) && is_digit(y[0]));
    if dir.len() > 0 {
        if dir.last() == '/' {
            if dir + x == dir + y {
                assert((dir + x).skip(dir.len() as int) =~= x);
                assert((dir + y).skip(dir.len() as int) =~= y);
            }
        } else {
            let sep = dir + "/"@;
            if sep + x == sep + y {
                assert((sep + x).skip(sep.len() as int) =~= x);
                assert((sep + y).skip(sep.len() as int) =~= y);
            }
        }
    }
}

/// A commit is reported made only when `git commit` itself ran and
/// succeeded: a commit operation answers `Flag(true)` only after its commit
/// command launched and exited successfully, and a commit command that
/// launched but failed (a hook refused it) answers `Flag(false)`.
pub proof fn law_commit_reported_only_when_made(stage: u8, enabled: bool, out: CommandOutput)
    ensures
        git_next(GitOp::Commit, stage, enabled, out).2 == AnswerView::Flag(true)
            ==> stage == 4 && out.launched && out.success,
        stage == 4 && out.launched && !out.success
            ==> git_next(GitOp::Commit, stage, enabled, out).2 == AnswerView::Flag(false),
{
}

/// A run pushes only when asked to: no step yields `Push` unless
/// `push_after` holds, and only right after the final commit.  There the
/// runner's `Continue` yields `Push` when `push_after` holds, and otherwise
/// ends the run with `Done`.  The final commit itself comes only when
/// committing.
pub proof fn law_push_only_when_asked(s: PipelineLoop, e: PipelineEvent, auto_commit: bool, push_after: bool)
    ensures
        pipeline_step(s, e, auto_commit, push_after).1 is Push
            ==> push_after && s.phase == PipelinePhase::FinalCommitted,
        s.phase == PipelinePhase::FinalCommitted && e == PipelineEvent::Continue && push_after
            ==> pipeline_step(s, e, auto_commit, push_after).1 is Push,
        s.phase == PipelinePhase::FinalCommitted && e == PipelineEvent::Continue && !push_after
            ==> pipeline_step(s, e, auto_commit, push_after) == (
                PipelineLoop { phase: PipelinePhase::Over, ..s },
                ActionView::Done,
            ),
        s.phase != PipelinePhase::FinalCommitted
            && pipeline_step(s, e, auto_commit, push_after).0.phase == PipelinePhase::FinalCommitted ==> auto_commit,
{
}

/// A commit is made only when there is something to commit: the commit
/// command is named only after `git status` ran and listed changes, and
/// `git status` only after `git add` succeeded.
pub proof fn law_commit_only_with_changes(stage: u8, enabled: bool, out: CommandOutput)
    ensures
        git_next(GitOp::Commit, stage, enabled, out).1 == Some(GitCmd::Commit)
            ==> stage == 3 && out.launched && trim(out.stdout@).len() > 0,
        git_next(GitOp::Commit, stage, enabled, out).1 == Some(GitCmd::Status)
            ==> stage == 2 && out.launched && out.success,
{
}

/// With git disabled, no operation runs a git command.
pub proof fn law_disabled_git_runs_nothing(op: GitOp, out: CommandOutput)
    ensures
        git_next(op, 0, false, out).1 is None,
        git_next(op, 0, false, out).0 == 9,
{
}

/// Commits (after each stage, and the final one) are made only when
/// committing is configured.
pub proof fn law_commits_only_when_committing(s: PipelineLoop, e: PipelineEvent, auto_commit: bool, push_after: bool)
    ensures
        pipeline_step(s, e, auto_commit, push_after).1 is Commit ==> auto_commit,
        pipeline_step(s, e, auto_commit, push_after).1 is FinalCommit ==> auto_commit,
{
}

/// After scoring, the run ends exactly when the score reaches the
/// threshold or the iteration was the last allowed; otherwise the next
/// iteration begins.  The best score is never lowered.
pub proof fn law_scoring_decides_the_run(s: PipelineLoop, score: i64, auto_commit: bool, push_after: bool)
    requires
        s.phase == PipelinePhase::Scoring,
    ensures
        ({
            let (t, a) = pipeline_step(s, PipelineEvent::Scored { score }, auto_commit, push_after);
            &&& (t.phase == PipelinePhase::IterationStarted) == (score < quality_threshold() && s.iteration < MAX_ITERATIONS)
            &&& t.phase == PipelinePhase::IterationStarted ==> a == ActionView::BeginIteration((s.iteration + 1) as u32)
                && t.iteration == s.iteration + 1
            &&& t.best matches Some(b) && b >= score && (s.best matches Some(p) ==> b >= p)
        }),
{
}

/// Of the six goals a run starts with, the second, named 质量达标, and only
/// it is a quality target: it is the goal that `record_quality` evaluates.
pub proof fn law_run_quality_goal(k: int, title: Seq<char>, target: Seq<char>)
    requires
        0 <= k < 6,
    ensures
        (initial_goal(k, title, target).2 == GoalType::QualityTarget) == (k == 1),
        initial_goal(1, title, target).0 == "质量达标"@,
{
}

/// The lengths and first characters of the category names: any two of
/// them differ in one or the other.
proof fn lemma_category_literals()
    ensures
        "world_building"@.len() == 14 && "world_building"@[0] == 'w',
        "character"@.len() == 9 && "character"@[0] == 'c',
        "plot"@.len() == 4 && "plot"@[0] == 'p',
        "decision"@.len() == 8 && "decision"@[0] == 'd',
        "quality_report"@.len() == 14 && "quality_report"@[0] == 'q',
        "issue"@.len() == 5 && "issue"@[0] == 'i',
        "preference"@.len() == 10 && "preference"@[0] == 'p',
        "general"@.len() == 7 && "general"@[0] == 'g',
        "世界观"@.len() == 3 && "世界观"@[0] == '世',
        "人物"@.len() == 2 && "人物"@[0] == '人',
        "情节"@.len() == 2 && "情节"@[0] == '情',
        "决策"@.len() == 2 && "决策"@[0] == '决',
        "质量"@.len() == 2 && "质量"@[0] == '质',
        "问题"@.len() == 2 && "问题"@[0] == '问',
        "偏好"@.len() == 2 && "偏好"@[0] == '偏',
        "通用"@.len() == 2 && "通用"@[0] == '通',
{
    reveal_strlit("world_building");
    reveal_strlit("character");
    reveal_strlit("plot");
    reveal_strlit("decision");
    reveal_strlit("quality_report");
    reveal_strlit("issue");
    reveal_strlit("preference");
    reveal_strlit("general");
    reveal_strlit("世界观");
    reveal_strlit("人物");
    reveal_strlit("情节");
    reveal_strlit("决策");
    reveal_strlit("质量");
    reveal_strlit("问题");
    reveal_strlit("偏好");
    reveal_strlit("通用");
}

/// Made of the letters `a` to `z` and `_` only.
pub open spec fn lower_word(s: Seq<char>) -> bool {
    forall|i: int| 0 <= i < s.len() ==> ('a' <= #[trigger] s[i] && s[i] <= 'z') || s[i] == '_'
}

/// The English category names are lower-case words.
proof fn lemma_schema_names_lower(c: MemoryCategory)
    ensures
        lower_word(category_schema_name(c)),
{
    match c {
        MemoryCategory::WorldBuilding => {
            reveal_strlit("world_building");
            let w = "world_building"@;
            assert forall|i: int| 0 <= i < w.len() implies ('a' <= #[trigger] w[i] && w[i] <= 'z') || w[i] == '_' by {
                if i == 0 {} else if i == 1 {} else if i == 2 {} else if i == 3 {} else if i == 4 {} else if i == 5 {} else if i == 6 {} else if i == 7 {} else if i == 8 {} else if i == 9 {} else if i == 10 {} else if i == 11 {} else if i == 12 {} else {}
            }
        },
        MemoryCategory::Character => {
            reveal_strlit("character");
            let w = "character"@;
            assert forall|i: int| 0 <= i < w.len() implies ('a' <= #[trigger] w[i] && w[i] <= 'z') || w[i] == '_' by {
                if i == 0 {} else if i == 1 {} else if i == 2 {} else if i == 3 {} else if i == 4 {} else if i == 5 {} else if i == 6 {} else if i == 7 {} else {}
            }
        },
        MemoryCategory::Plot => {
            reveal_strlit("plot");
            let w = "plot"@;
            assert forall|i: int| 0 <= i < w.len() implies ('a' <= #[trigger] w[i] && w[i] <= 'z') || w[i] == '_' by {
                if i == 0 {} else if i == 1 {} else if i == 2 {} else {}
            }
        },
        MemoryCategory::Decision => {
            reveal_strlit("decision");
            let w = "decision"@;
            assert forall|i: int| 0 <= i < w.len() implies ('a' <= #[trigger] w[i] && w[i] <= 'z') || w[i] == '_' by {
                if i == 0 {} else if i == 1 {} else if i == 2 {} else if i == 3 {} else if i == 4 {} else if i == 5 {} else if i == 6 {} else {}
            }
        },
        MemoryCategory::QualityReport => {
            reveal_strlit("quality_report");
            let w = "quality_report"@;
            assert forall|i: int| 0 <= i < w.len() implies ('a' <= #[trigger] w[i] && w[i] <= 'z') || w[i] == '_' by {
                if i == 0 {} else if i == 1 {} else if i == 2 {} else if i == 3 {} else if i == 4 {} else if i == 5 {} else if i == 6 {} else if i == 7 {} else if i == 8 {} else if i == 9 {} else if i == 10 {} else if i == 11 {} else if i == 12 {} else {}
            }
        },
        MemoryCategory::Issue => {
            reveal_strlit("issue");
            let w = "issue"@;
            assert forall|i: int| 0 <= i < w.len() implies ('a' <= #[trigger] w[i] && w[i] <= 'z') || w[i] == '_' by {
                if i == 0 {} else if i == 1 {} else if i == 2 {} else if i == 3 {} else {}
            }
        },
        MemoryCategory::Preference => {
            reveal_strlit("preference");
            let w = "preference"@;
            assert forall|i: int| 0 <= i < w.len() implies ('a' <= #[trigger] w[i] && w[i] <= 'z') || w[i] == '_' by {
                if i == 0 {} else if i == 1 {} else if i == 2 {} else if i == 3 {} else if i == 4 {} else if i == 5 {} else if i == 6 {} else if i == 7 {} else if i == 8 {} else {}
            }
        },
        MemoryCategory::General => {
            reveal_strlit("general");
            let w = "general"@;
            assert forall|i: int| 0 <= i < w.len() implies ('a' <= #[trigger] w[i] && w[i] <= 'z') || w[i] == '_' by {
                if i == 0 {} else if i == 1 {} else if i == 2 {} else if i == 3 {} else if i == 4 {} else if i == 5 {} else {}
            }
        },
    }
}

/// Each category name that the memory tool documents reads back as its
/// category: the English name (all ASCII, and its own lower case, so the
/// case of what the model sends does not matter) and the short Chinese one.
pub proof fn law_category_names_read_back(c: MemoryCategory)
    ensures
        category_from_name(category_schema_name(c)) == c,
        category_from_name(category_short_name(c)) == c,
        forall|i: int| 0 <= i < category_schema_name(c).len() ==> is_ascii_char(#[trigger] category_schema_name(c)[i]),
        category_schema_name(c).map_values(|ch: char| ascii_lower(ch)) == category_schema_name(c),
{
    lemma_category_literals();
    lemma_schema_names_lower(c);
    let n = category_schema_name(c);
    assert(n.map_values(|ch: char| ascii_lower(ch)) =~= n);
}

/// A `Format` line of the 输出 section sets the format: after the line
/// `- **Format**:` followed by a value with no `:` in it, the format is
/// that value, trimmed, whatever it was before.
pub proof fn law_format_line_sets_format(f: SectionFields, v: Seq<char>)
    requires
        forall|i: int| 0 <= i < v.len() ==> v[i] != ':',
    ensures
        output_step(f, "- **Format**:"@ + v).output_format == trim(v),
{
    reveal_strlit("- **Format**:");
    reveal_strlit("Format");
    let p = "- **Format**:"@;
    let line = p + v;
    assert(line.subrange(4, 10) =~= "Format"@);
    assert(occurs_at(line, "Format"@, 4));
    assert(contains(line, "Format"@));
    lemma_index_of_is(line, ':', 12);
    assert(line.skip(13) =~= v);
    lemma_index_of_is(v, ':', v.len() as int);
}

/// A `File Prefix` line of the 输出 section that does not mention `Format`
/// sets the file prefix to its value, trimmed and with its backticks taken
/// off, and leaves the format as it was.
pub proof fn law_file_prefix_line_sets_prefix(f: SectionFields, v: Seq<char>)
    requires
        forall|i: int| 0 <= i < v.len() ==> v[i] != ':',
        !contains("- **File Prefix**:"@ + v, "Format"@),
    ensures
        output_step(f, "- **File Prefix**:"@ + v).file_prefix == clean_item(v),
        output_step(f, "- **File Prefix**:"@ + v).output_format == f.output_format,
{
    reveal_strlit("- **File Prefix**:");
    reveal_strlit("File Prefix");
    let line = "- **File Prefix**:"@ + v;
    assert(line.subrange(4, 15) =~= "File Prefix"@);
    assert(occurs_at(line, "File Prefix"@, 4));
    assert(contains(line, "File Prefix"@));
    lemma_index_of_is(line, ':', 17);
    assert(line.skip(18) =~= v);
    lemma_index_of_is(v, ':', v.len() as int);
}

/// In the 输出 section the last `Format` line decides the format: the
/// lines after it that do not mention `Format` leave it as that line set it.
pub proof fn law_last_format_line_decides(f: SectionFields, before: Seq<Seq<char>>, v: Seq<char>, after: Seq<Seq<char>>)
    requires
        forall|i: int| 0 <= i < v.len() ==> v[i] != ':',
        forall|j: int| 0 <= j < after.len() ==> !contains(#[trigger] after[j], "Format"@),
    ensures
        output_scan(f, before.push("- **Format**:"@ + v) + after).output_format == trim(v),
    decreases after.len(),
{
    let ls = before.push("- **Format**:"@ + v) + after;
    if after.len() == 0 {
        assert(ls =~= before.push("- **Format**:"@ + v));
        assert(ls.drop_last() =~= before);
        law_format_line_sets_format(output_scan(f, before), v);
    } else {
        let rest = after.drop_last();
        assert(ls.drop_last() =~= before.push("- **Format**:"@ + v) + rest);
        assert(ls.last() == after[after.len() - 1]);
        assert forall|j: int| 0 <= j < rest.len() implies !contains(#[trigger] rest[j], "Format"@) by {
            assert(rest[j] == after[j]);
        }
        law_last_format_line_decides(f, before, v, rest);
    }
}

} // verus!
