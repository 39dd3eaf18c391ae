//! The texts built from what the pipeline wrote and from quality
//! evaluations: what the review model scores, the repair prompt of the
//! quality loop, the evaluation report, and the requests for an evaluation
//! and for a new skill.  Scores arrive already written out as text.
use vstd::prelude::*;

use crate::quality::{level_description, level_name, QualityIssue, QualityLevel};
use crate::text::{decimal, push_decimal, push_str, string_of};

verus! {

/// The user input, one `key: value` line each.
pub open spec fn input_lines(ps: Seq<(String, String)>) -> Seq<char>
    decreases ps.len(),
{
    if ps.len() == 0 {
        Seq::empty()
    } else {
        input_lines(ps.drop_last()) + ps.last().0@ + ": "@ + ps.last().1@ + "\n"@
    }
}

/// Each output under a `=== name ===` line.
pub open spec fn output_sections(os: Seq<(String, String)>) -> Seq<char>
    decreases os.len(),
{
    if os.len() == 0 {
        Seq::empty()
    } else {
        output_sections(os.drop_last()) + "\n=== "@ + os.last().0@ + " ===\n"@ + os.last().1@
    }
}

/// Each output under a `# name` heading.
pub open spec fn chapter_sections(os: Seq<(String, String)>) -> Seq<char>
    decreases os.len(),
{
    if os.len() == 0 {
        Seq::empty()
    } else {
        chapter_sections(os.drop_last()) + "\n\n# "@ + os.last().0@ + "\n\n"@ + os.last().1@
    }
}

/// What the review model scores after an iteration: the user input, then
/// each output written so far with its skill's name.
pub fn scoring_material(input: &Vec<(String, String)>, outputs: &Vec<(String, String)>) -> (r: String)
    ensures
        r@ == input_lines(input@) + output_sections(outputs@),
{
    let mut out: Vec<char> = Vec::new();
    let mut i: usize = 0;
    while i < input.len()
        invariant
            i <= input.len(),
            out@ == input_lines(input@.take(i as int)),
        decreases input.len() - i,
    {
        proof {
            assert(input@.take(i + 1).drop_last() =~= input@.take(i as int));
        }
        push_str(&mut out, input[i].0.as_str());
        push_str(&mut out, ": ");
        push_str(&mut out, input[i].1.as_str());
        push_str(&mut out, "\n");
        i += 1;
    }
    proof {
        assert(input@.take(input.len() as int) =~= input@);
    }
    let ghost head = out@;
    let mut j: usize = 0;
    while j < outputs.len()
        invariant
            j <= outputs.len(),
            out@ == head + output_sections(outputs@.take(j as int)),
        decreases outputs.len() - j,
    {
        let ghost before = out@;
        proof {
            assert(outputs@.take(j + 1).drop_last() =~= outputs@.take(j as int));
        }
        push_str(&mut out, "\n=== ");
        push_str(&mut out, outputs[j].0.as_str());
        push_str(&mut out, " ===\n");
        push_str(&mut out, outputs[j].1.as_str());
        proof {
            let o = outputs@[j as int];
            assert(out@ =~= head + (output_sections(outputs@.take(j as int)) + "\n=== "@ + o.0@ + " ===\n"@ + o.1@));
        }
        j += 1;
    }
    proof {
        assert(outputs@.take(outputs.len() as int) =~= outputs@);
    }
    string_of(out.as_slice())
}

/// The whole script for the final evaluation: each output under a heading
/// with its skill's name.
pub fn final_material(outputs: &Vec<(String, String)>) -> (r: String)
    ensures
        r@ == chapter_sections(outputs@),
{
    let mut out: Vec<char> = Vec::new();
    let mut j: usize = 0;
    while j < outputs.len()
        invariant
            j <= outputs.len(),
            out@ == chapter_sections(outputs@.take(j as int)),
        decreases outputs.len() - j,
    {
        proof {
            assert(outputs@.take(j + 1).drop_last() =~= outputs@.take(j as int));
        }
        push_str(&mut out, "\n\n# ");
        push_str(&mut out, outputs[j].0.as_str());
        push_str(&mut out, "\n\n");
        push_str(&mut out, outputs[j].1.as_str());
        j += 1;
    }
    proof {
        assert(outputs@.take(outputs.len() as int) =~= outputs@);
    }
    string_of(out.as_slice())
}

/// The prompt that asks the model to repair a text towards the target
/// level, given its level, its score (as text) and the issues to fix.
pub open spec fn repair_prompt(
    target: Seq<char>,
    level: QualityLevel,
    score: Seq<char>,
    issues: Seq<char>,
    content: Seq<char>,
) -> Seq<char> {
    "你是顶级短剧编剧修复专家。请修复以下内容，达到目标质量等级 "@ + target + "。\n\n## 当前等级: "@ + level_name(level)
        + " ("@ + score + "/100)\n## 需要修复的问题:\n"@ + issues
        + "\n\n## 要求:\n1. 逐一修复上述问题\n2. 保持连贯性和一致性\n3. 不改变核心走向\n\n## 待修复内容:\n"@ + content
}

pub fn repair_prompt_text(
    target: &str,
    level: QualityLevel,
    score_text: &str,
    issues_text: &str,
    content: &str,
) -> (r: String)
    ensures
        r@ == repair_prompt(target@, level, score_text@, issues_text@, content@),
{
    let mut out: Vec<char> = Vec::new();
    push_str(&mut out, "你是顶级短剧编剧修复专家。请修复以下内容，达到目标质量等级 ");
    push_str(&mut out, target);
    push_str(&mut out, "。\n\n## 当前等级: ");
    push_str(&mut out, level.as_str());
    push_str(&mut out, " (");
    push_str(&mut out, score_text);
    push_str(&mut out, "/100)\n## 需要修复的问题:\n");
    push_str(&mut out, issues_text);
    push_str(&mut out, "\n\n## 要求:\n1. 逐一修复上述问题\n2. 保持连贯性和一致性\n3. 不改变核心走向\n\n## 待修复内容:\n");
    push_str(&mut out, content);
    string_of(out.as_slice())
}

/// An improvement suggestion of an evaluation, its expected gain written out.
#[derive(Debug, Clone)]
pub struct SuggestionLine {
    pub priority: u32,
    pub category: String,
    pub suggestion: String,
    pub expected: String,
}

/// What an evaluation report shows, the score written out.
#[derive(Debug, Clone)]
pub struct EvaluationFacts {
    pub level: QualityLevel,
    pub score_text: String,
    pub target: QualityLevel,
    pub meets_target: bool,
    pub summary: String,
    pub strengths: Vec<String>,
    pub issues: Vec<QualityIssue>,
    pub suggestions: Vec<SuggestionLine>,
}

pub open spec fn report_head(name: Seq<char>, f: EvaluationFacts) -> Seq<char> {
    "# 质量评估报告："@ + name + "\n\n"@ + "## 总体评估\n"@ + "- **质量等级**: "@ + level_name(f.level) + " ("@
        + level_description(f.level) + ")\n"@ + "- **总体分数**: "@ + f.score_text@ + "/100\n"@ + "- **目标等级**: "@
        + level_name(f.target) + "\n"@ + "- **是否达标**: "@ + (if f.meets_target {
        "✅ 是"@
    } else {
        "❌ 否"@
    }) + "\n\n"@ + "## 摘要\n"@ + f.summary@ + "\n\n"@
}

pub open spec fn strength_lines(ss: Seq<String>) -> Seq<char>
    decreases ss.len(),
{
    if ss.len() == 0 {
        Seq::empty()
    } else {
        strength_lines(ss.drop_last()) + "- ✅ "@ + ss.last()@ + "\n"@
    }
}

pub open spec fn issue_report_lines(is: Seq<QualityIssue>) -> Seq<char>
    decreases is.len(),
{
    if is.len() == 0 {
        Seq::empty()
    } else {
        let i = is.last();
        issue_report_lines(is.drop_last()) + "- ["@ + i.severity@ + "]["@ + i.category@ + "] "@ + i.description@
            + "\n  修复建议："@ + i.fix_suggestion@ + "\n\n"@
    }
}

pub open spec fn suggestion_lines(sg: Seq<SuggestionLine>) -> Seq<char>
    decreases sg.len(),
{
    if sg.len() == 0 {
        Seq::empty()
    } else {
        let s = sg.last();
        suggestion_lines(sg.drop_last()) + "- [优先级 "@ + decimal(s.priority as nat) + "] "@ + s.category@ + ": "@
            + s.suggestion@ + "\n  预期提升："@ + s.expected@ + "分\n\n"@
    }
}

/// The Markdown report of an evaluation: the levels and score, the summary,
/// then the strengths, issues and suggestions, each section only when it
/// has entries.
pub open spec fn quality_report(name: Seq<char>, f: EvaluationFacts) -> Seq<char> {
    report_head(name, f) + (if f.strengths@.len() == 0 {
        Seq::empty()
    } else {
        "## 亮点\n"@ + strength_lines(f.strengths@) + "\n"@
    }) + (if f.issues@.len() == 0 {
        Seq::empty()
    } else {
        "## 问题\n"@ + issue_report_lines(f.issues@)
    }) + (if f.suggestions@.len() == 0 {
        Seq::empty()
    } else {
        "## 改进建议\n"@ + suggestion_lines(f.suggestions@)
    })
}

fn push_strengths(out: &mut Vec<char>, ss: &Vec<String>)
    ensures
        final(out)@ == old(out)@ + strength_lines(ss@),
{
    let ghost start = out@;
    let mut k: usize = 0;
    while k < ss.len()
        invariant
            k <= ss.len(),
            out@ == start + strength_lines(ss@.take(k as int)),
        decreases ss.len() - k,
    {
        proof {
            assert(ss@.take(k + 1).drop_last() =~= ss@.take(k as int));
        }
        push_str(out, "- ✅ ");
        push_str(out, ss[k].as_str());
        push_str(out, "\n");
        proof {
            assert(out@ =~= start + (strength_lines(ss@.take(k as int)) + "- ✅ "@ + ss@[k as int]@ + "\n"@));
        }
        k += 1;
    }
    proof {
        assert(ss@.take(ss.len() as int) =~= ss@);
    }
}

fn push_issues(out: &mut Vec<char>, is: &Vec<QualityIssue>)
    ensures
        final(out)@ == old(out)@ + issue_report_lines(is@),
{
    let ghost start = out@;
    let mut k: usize = 0;
    while k < is.len()
        invariant
            k <= is.len(),
            out@ == start + issue_report_lines(is@.take(k as int)),
        decreases is.len() - k,
    {
        proof {
            assert(is@.take(k + 1).drop_last() =~= is@.take(k as int));
        }
        let i = &is[k];
        push_str(out, "- [");
        push_str(out, i.severity.as_str());
        push_str(out, "][");
        push_str(out, i.category.as_str());
        push_str(out, "] ");
        push_str(out, i.description.as_str());
        push_str(out, "\n  修复建议：");
        push_str(out, i.fix_suggestion.as_str());
        push_str(out, "\n\n");
        proof {
            assert(out@ =~= start + (issue_report_lines(is@.take(k as int)) + "- ["@ + i.severity@ + "]["@
                + i.category@ + "] "@ + i.description@ + "\n  修复建议："@ + i.fix_suggestion@ + "\n\n"@));
        }
        k += 1;
    }
    proof {
        assert(is@.take(is.len() as int) =~= is@);
    }
}

fn push_suggestions(out: &mut Vec<char>, sg: &Vec<SuggestionLine>)
    ensures
        final(out)@ == old(out)@ + suggestion_lines(sg@),
{
    let ghost start = out@;
    let mut k: usize = 0;
    while k < sg.len()
        invariant
            k <= sg.len(),
            out@ == start + suggestion_lines(sg@.take(k as int)),
        decreases sg.len() - k,
    {
        proof {
            assert(sg@.take(k + 1).drop_last() =~= sg@.take(k as int));
        }
        let s = &sg[k];
        push_str(out, "- [优先级 ");
        push_decimal(out, s.priority as u64);
        push_str(out, "] ");
        push_str(out, s.category.as_str());
        push_str(out, ": ");
        push_str(out, s.suggestion.as_str());
        push_str(out, "\n  预期提升：");
        push_str(out, s.expected.as_str());
        push_str(out, "分\n\n");
        proof {
            assert(out@ =~= start + (suggestion_lines(sg@.take(k as int)) + "- [优先级 "@ + decimal(s.priority as nat)
                + "] "@ + s.category@ + ": "@ + s.suggestion@ + "\n  预期提升："@ + s.expected@ + "分\n\n"@));
        }
        k += 1;
    }
    proof {
        assert(sg@.take(sg.len() as int) =~= sg@);
    }
}

/// The Markdown report of an evaluation named `name`.
pub fn quality_report_text(name: &str, facts: &EvaluationFacts) -> (r: String)
    ensures
        r@ == quality_report(name@, *facts),
{
    let mut out: Vec<char> = Vec::new();
    push_str(&mut out, "# 质量评估报告：");
    push_str(&mut out, name);
    push_str(&mut out, "\n\n");
    push_str(&mut out, "## 总体评估\n");
    push_str(&mut out, "- **质量等级**: ");
    push_str(&mut out, facts.level.as_str());
    push_str(&mut out, " (");
    push_str(&mut out, facts.level.description());
    push_str(&mut out, ")\n");
    push_str(&mut out, "- **总体分数**: ");
    push_str(&mut out, facts.score_text.as_str());
    push_str(&mut out, "/100\n");
    push_str(&mut out, "- **目标等级**: ");
    push_str(&mut out, facts.target.as_str());
    push_str(&mut out, "\n");
    push_str(&mut out, "- **是否达标**: ");
    push_str(&mut out, if facts.meets_target { "✅ 是" } else { "❌ 否" });
    push_str(&mut out, "\n\n");
    push_str(&mut out, "## 摘要\n");
    push_str(&mut out, facts.summary.as_str());
    push_str(&mut out, "\n\n");
    proof {
        assert(out@ =~= report_head(name@, *facts));
    }
    let ghost head = out@;
    if facts.strengths.len() > 0 {
        push_str(&mut out, "## 亮点\n");
        push_strengths(&mut out, &facts.strengths);
        push_str(&mut out, "\n");
    }
    let ghost part1 = out@;
    assert(part1 =~= head + (if facts.strengths@.len() == 0 {
        Seq::empty()
    } else {
        "## 亮点\n"@ + strength_lines(facts.strengths@) + "\n"@
    }));
    if facts.issues.len() > 0 {
        push_str(&mut out, "## 问题\n");
        push_issues(&mut out, &facts.issues);
    }
    let ghost part2 = out@;
    assert(part2 =~= part1 + (if facts.issues@.len() == 0 {
        Seq::empty()
    } else {
        "## 问题\n"@ + issue_report_lines(facts.issues@)
    }));
    if facts.suggestions.len() > 0 {
        push_str(&mut out, "## 改进建议\n");
        push_suggestions(&mut out, &facts.suggestions);
    }
    assert(out@ =~= part2 + (if facts.suggestions@.len() == 0 {
        Seq::empty()
    } else {
        "## 改进建议\n"@ + suggestion_lines(facts.suggestions@)
    }));
    string_of(out.as_slice())
}

/// The request that asks the review model to grade a text of a kind.
pub open spec fn evaluation_request(content_type: Seq<char>, content: Seq<char>) -> Seq<char> {
    "请评估以下"@ + content_type + "内容的质量：\n\n---\n\n"@ + content
}

pub fn evaluation_request_text(content_type: &str, content: &str) -> (r: String)
    ensures
        r@ == evaluation_request(content_type@, content@),
{
    let mut out: Vec<char> = Vec::new();
    push_str(&mut out, "请评估以下");
    push_str(&mut out, content_type);
    push_str(&mut out, "内容的质量：\n\n---\n\n");
    push_str(&mut out, content);
    string_of(out.as_slice())
}

/// The request that asks the planner model to design a skill.
pub open spec fn skill_design_request(
    name: Seq<char>,
    description: Seq<char>,
    category: Seq<char>,
    stage: Seq<char>,
) -> Seq<char> {
    "创建一个新的 skill：\n- 名称："@ + name + "\n- 描述："@ + description + "\n- 分类："@ + category + "\n- 阶段："@ + stage
}

pub fn skill_design_request_text(name: &str, description: &str, category: &str, stage: &str) -> (r: String)
    ensures
        r@ == skill_design_request(name@, description@, category@, stage@),
{
    let mut out: Vec<char> = Vec::new();
    push_str(&mut out, "创建一个新的 skill：\n- 名称：");
    push_str(&mut out, name);
    push_str(&mut out, "\n- 描述：");
    push_str(&mut out, description);
    push_str(&mut out, "\n- 分类：");
    push_str(&mut out, category);
    push_str(&mut out, "\n- 阶段：");
    push_str(&mut out, stage);
    string_of(out.as_slice())
}

} // verus!
