use auto_drama::agent::{
    get_execution_report, repair_issues_text, review_done, DramaStage, ExecutionLogEntry, PipelineAction, PipelineEvent,
    PipelineLoop, PipelinePhase, RepairLoop, RepairStep, RetryLoop,
};
use auto_drama::quality::{extract_json, extract_json_fails_exec, get_repair_priority_list, QualityIssue, QualityLevel};
use auto_drama::skills::{SkillExecution, SkillMode};

fn issue(severity: &str, priority: u32, description: &str) -> QualityIssue {
    QualityIssue {
        severity: severity.to_string(),
        category: "情节编排".to_string(),
        description: description.to_string(),
        priority,
        fix_suggestion: format!("修复{}", description),
    }
}

#[test]
fn level_names_and_descriptions() {
    assert_eq!(QualityLevel::SSS.as_str(), "SSS");
    assert_eq!(QualityLevel::AA.as_str(), "AA");
    assert_eq!(QualityLevel::C.description(), "及格 - 基本可用，有明显缺陷");
    assert_eq!(QualityLevel::SSS.description(), "传世 - 顶级中的顶级，全方位完美");
}

#[test]
fn level_parsing_ignores_case_and_defaults_to_c() {
    assert_eq!(QualityLevel::from_str_lossy("sss"), QualityLevel::SSS);
    assert_eq!(QualityLevel::from_str_lossy("Aa"), QualityLevel::AA);
    assert_eq!(QualityLevel::from_str_lossy("s"), QualityLevel::S);
    assert_eq!(QualityLevel::from_str_lossy("excellent"), QualityLevel::C);
    assert_eq!(QualityLevel::from_str_lossy(""), QualityLevel::C);
}

#[test]
fn level_name_round_trip() {
    for l in [
        QualityLevel::C,
        QualityLevel::B,
        QualityLevel::A,
        QualityLevel::AA,
        QualityLevel::AAA,
        QualityLevel::S,
        QualityLevel::SS,
        QualityLevel::SSS,
    ] {
        assert_eq!(QualityLevel::from_str_lossy(l.as_str()), l);
    }
}

#[test]
fn meeting_a_target_follows_the_level_order() {
    assert!(QualityLevel::SSS.meets_target(&QualityLevel::SSS));
    assert!(QualityLevel::SS.meets_target(&QualityLevel::A));
    assert!(!QualityLevel::AAA.meets_target(&QualityLevel::S));
    assert!(QualityLevel::C.meets_target(&QualityLevel::C));
    assert_eq!(QualityLevel::C.rank(), 0);
    assert_eq!(QualityLevel::SSS.rank(), 7);
}

#[test]
fn repair_list_orders_by_severity_then_priority_stably() {
    let issues = vec![
        issue("minor", 1, "a"),
        issue("critical", 3, "b"),
        issue("MAJOR", 2, "c"),
        issue("严重", 1, "d"),
        issue("unknown", 0, "e"),
        issue("major", 2, "f"),
        issue("建议", 1, "g"),
    ];
    let order: Vec<String> = get_repair_priority_list(&issues).iter().map(|i| i.description.clone()).collect();
    assert_eq!(order, vec!["d", "b", "c", "f", "a", "g", "e"]);
}

#[test]
fn repair_list_of_nothing_is_empty() {
    let issues: Vec<QualityIssue> = Vec::new();
    assert!(get_repair_priority_list(&issues).is_empty());
}

#[test]
fn json_is_taken_from_a_plain_fence() {
    let text = "评估如下：\n```\n{\"summary\": \"好\"}\n```\n完";
    assert!(!extract_json_fails_exec(text));
    assert_eq!(extract_json(text), "{\"summary\": \"好\"}");
}

#[test]
fn json_is_taken_from_the_braces() {
    let text = "结果 {\"a\": {\"b\": 1}} 以上";
    assert!(!extract_json_fails_exec(text));
    assert_eq!(extract_json(text), "{\"a\": {\"b\": 1}}");
}

#[test]
fn json_without_braces_is_the_whole_text() {
    assert_eq!(extract_json("no json here"), "no json here");
}

#[test]
fn only_reversed_braces_are_refused() {
    assert!(!extract_json_fails_exec("```json\n{}\n```"));
    assert!(extract_json_fails_exec("a } b { c"));
    assert!(!extract_json_fails_exec("}{"));
}

#[test]
fn repair_issue_text_lists_the_first_ten() {
    let issues: Vec<QualityIssue> = (0..12).map(|k| issue("minor", k, &format!("问题{}", k))).collect();
    let refs: Vec<&QualityIssue> = issues.iter().collect();
    let text = repair_issues_text(&refs);
    assert_eq!(text.lines().count(), 10);
    assert_eq!(text.lines().next().unwrap(), "- [minor][P0] 问题0 | 建议: 修复问题0");
    assert!(!text.contains("问题10"));
}

#[test]
fn stages_run_in_order_with_their_core_skills() {
    let stages = DramaStage::all_stages();
    let names: Vec<&str> = stages.iter().map(|s| s.as_str()).collect();
    assert_eq!(names, vec!["planning", "writing", "review", "polishing"]);
    assert_eq!(DramaStage::Planning.core_skills(), vec!["story_concept", "character_design", "plot_outline"]);
    assert_eq!(DramaStage::Polishing.core_skills(), vec!["dialogue_polish", "style_enhance"]);
}

#[test]
fn execution_report_marks_success_and_review() {
    let exec = SkillExecution {
        skill_name: "plot_outline".to_string(),
        mode: SkillMode::Creation,
        params: Vec::new(),
        content: String::new(),
        result: String::new(),
        review_result: None,
        file_path: None,
        timestamp: "t".to_string(),
    };
    let ok = ExecutionLogEntry::for_execution(&exec, DramaStage::Planning, true, None);
    let mut failed = ExecutionLogEntry::for_execution(&exec, DramaStage::Writing, false, Some("x".to_string()));
    failed.review_passed = Some(false);
    let report = get_execution_report(&vec![ok, failed]);
    assert_eq!(
        report,
        "## 执行报告\n\n✓ planning - plot_outline (Creation)\n✗ writing - plot_outline (Creation) [审查未通过]\n"
    );
}

#[test]
fn review_loop_stops_when_passed_or_rounds_used() {
    assert!(review_done(true, 0, 2));
    assert!(!review_done(false, 1, 2));
    assert!(review_done(false, 2, 2));
    assert!(review_done(false, 0, 0));
}

#[test]
fn repair_loop_keeps_the_best_text_and_stops_after_its_rounds() {
    let mut l = RepairLoop::new("v1", 2);
    assert!(l.begin_round());
    let (best, step) = l.after_evaluation(false, false, true);
    assert!(best);
    assert_eq!(step, RepairStep::Repair);
    l.after_repair("v2".to_string());
    assert!(l.begin_round());
    let (best, step) = l.after_evaluation(false, false, false);
    assert!(!best);
    assert_eq!(step, RepairStep::Stop);
    assert_eq!(l.best_content, "v1");
    assert!(!l.begin_round());
    let mut m = RepairLoop::new("x", 0);
    for _ in 0..50 {
        assert!(m.begin_round());
    }
    let (_, step) = m.after_evaluation(true, true, true);
    assert_eq!(step, RepairStep::ReturnCurrent);
}

fn run_iteration(p: &mut PipelineLoop, auto_commit: bool) -> Vec<String> {
    let mut seen = Vec::new();
    let mut action = p.next(PipelineEvent::Continue, auto_commit, false);
    loop {
        match action {
            PipelineAction::RunStage(stage) => {
                seen.push(stage.as_str().to_string());
                action = p.next(PipelineEvent::StageOk, auto_commit, false);
            }
            PipelineAction::Commit(message, scope) => {
                seen.push(format!("{} @{}", message, scope));
                action = p.next(PipelineEvent::Continue, auto_commit, false);
            }
            PipelineAction::Score => return seen,
            other => panic!("{:?}", other),
        }
    }
}

#[test]
fn pipeline_runs_stages_in_order_and_commits_each() {
    let mut p = PipelineLoop::new();
    assert!(matches!(p.next(PipelineEvent::Start, true, true), PipelineAction::BeginIteration(1)));
    let seen = run_iteration(&mut p, true);
    assert_eq!(
        seen,
        vec![
            "planning", "[剧本] 完成 planning 阶段 (迭代 1) @script",
            "writing", "[剧本] 完成 writing 阶段 (迭代 1) @script",
            "review", "[剧本] 完成 review 阶段 (迭代 1) @script",
            "polishing", "[剧本] 完成 polishing 阶段 (迭代 1) @script",
        ]
    );
    match p.next(PipelineEvent::Scored { score: 9_200_000_000 }, true, true) {
        PipelineAction::FinalCommit(m) => assert_eq!(m, "[剧本] 🎉 短剧创作完成 - 质量分数：9.2/10 (1 轮迭代)"),
        other => panic!("{:?}", other),
    }
    assert!(matches!(p.next(PipelineEvent::Continue, true, true), PipelineAction::Push));
    assert!(matches!(p.next(PipelineEvent::Continue, true, true), PipelineAction::Done));
    assert_eq!(p.phase, PipelinePhase::Over);
}

#[test]
fn pipeline_stops_at_threshold_or_after_ten_iterations() {
    let mut p = PipelineLoop::new();
    p.next(PipelineEvent::Start, false, false);
    let seen = run_iteration(&mut p, false);
    assert_eq!(seen, vec!["planning", "writing", "review", "polishing"]);
    for i in 2..=10u32 {
        match p.next(PipelineEvent::Scored { score: 5_000_000_000 + i as i64 }, false, false) {
            PipelineAction::BeginIteration(n) => assert_eq!(n, i),
            other => panic!("{:?}", other),
        }
        run_iteration(&mut p, false);
    }
    assert!(matches!(p.next(PipelineEvent::Scored { score: 1 }, false, false), PipelineAction::Done));
    assert_eq!(p.iteration, 10);
    assert_eq!(p.best, Some(5_000_000_010));
}

#[test]
fn a_failed_stage_aborts_the_run() {
    let mut p = PipelineLoop::new();
    p.next(PipelineEvent::Start, true, false);
    p.next(PipelineEvent::Continue, true, false);
    assert!(matches!(p.next(PipelineEvent::StageFailed, true, false), PipelineAction::Abort));
    assert!(matches!(p.next(PipelineEvent::Start, true, false), PipelineAction::Done));
}

#[test]
fn retries_keep_the_last_creation() {
    let mut r = RetryLoop::new(2);
    assert!(r.may_attempt());
    let e = |n: &str| SkillExecution {
        skill_name: n.to_string(),
        mode: SkillMode::Creation,
        params: Vec::new(),
        content: String::new(),
        result: n.to_string(),
        review_result: None,
        file_path: None,
        timestamp: String::new(),
    };
    r.review_failed(e("first"));
    assert!(r.may_attempt());
    r.review_failed(e("second"));
    assert!(!r.may_attempt());
    assert_eq!(r.finish().unwrap().result, "second");
    assert!(RetryLoop::new(0).finish().is_none());
}

#[test]
fn json_fenced_block_is_extracted() {
    assert_eq!(extract_json("```json\n[1,2]\n```"), "[1,2]");
    assert_eq!(extract_json("评估如下：\n```json\n{\"a\": 1}\n```\n完"), "{\"a\": 1}");
    // a tag with no closing fence falls back to the braces
    assert_eq!(extract_json("```json {\"b\": 2}"), "{\"b\": 2}");
}
