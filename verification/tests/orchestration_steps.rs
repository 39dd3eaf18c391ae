use auto_drama::agent::DramaStage;
use auto_drama::goals::{GoalStatus, GoalTracker, GoalType};
use auto_drama::llm::AgentContext;
use auto_drama::memory::{MemoryCategory, MemorySource, MemoryStore};
use auto_drama::orchestration::{
    default_dynamic_skill, default_review_result, failed_execution, final_commit_message, handle_review_issues,
    init_goals, inject_memory_context, merge_params, overall_score_text, quality_log_entry, quality_score_prompt,
    record_quality, remember_user_input, repair_round_message, review_json_fails, review_json_text, review_prompt,
    save_skill_result_to_memory, skill_commit_message, skill_order_from_reply, stage_commit_message,
    start_pending_goals, store_skill_content, target_met_message, too_short_to_score,
};
use auto_drama::quality::QualityLevel;
use auto_drama::skills::{ReviewIssue, ReviewResult, SkillFactory, SkillRegistry, SkillReview};

fn review_issue(category: &str, description: &str) -> ReviewIssue {
    ReviewIssue {
        severity: "major".to_string(),
        category: category.to_string(),
        description: description.to_string(),
        suggestion: String::new(),
    }
}

#[test]
fn a_run_starts_with_six_goals() {
    let mut t = GoalTracker::new();
    let old = t.create_goal("旧", "", GoalType::StageComplete, 1, "", 1);
    t.record_attempt(&old);
    let ids = init_goals(&mut t, Some("都市"), "SSS");
    assert_eq!(ids.len(), 6);
    let main = t.get(&ids[0]).unwrap();
    assert_eq!(main.name, "完成短剧创作");
    assert_eq!(main.description, "完成短剧「都市」的全部创作流程");
    assert_eq!(main.max_attempts, 1);
    let quality = t.get(&ids[1]).unwrap();
    assert_eq!(quality.description, "达到 SSS 质量等级");
    assert_eq!(quality.completion_criteria, "质量评估分数达到 SSS 等级");
    let review = t.get(&ids[4]).unwrap();
    assert_eq!(review.name, "完成 review 阶段");
    assert_eq!(review.completion_criteria, "review 阶段所有 skill 执行成功");
    assert_eq!(t.get(&old).unwrap().status, GoalStatus::Pending);
    assert_eq!(t.get(&old).unwrap().attempts, 0);
    let untitled = init_goals(&mut GoalTracker::new(), None, "A");
    assert_eq!(untitled.len(), 6);
}

#[test]
fn pending_goals_start_together() {
    let mut t = GoalTracker::new();
    let a = t.create_goal("a", "", GoalType::StageComplete, 1, "", 3);
    let b = t.create_goal("b", "", GoalType::StageComplete, 1, "", 3);
    t.update_status(&b, GoalStatus::Failed);
    start_pending_goals(&mut t);
    assert_eq!(t.get(&a).unwrap().status, GoalStatus::InProgress);
    assert_eq!(t.get(&b).unwrap().status, GoalStatus::Failed);
}

#[test]
fn quality_scores_update_quality_goals_and_memory() {
    let mut t = GoalTracker::new();
    let q = t.create_goal("q", "", GoalType::QualityTarget, 9, "", 10);
    let s = t.create_goal("s", "", GoalType::StageComplete, 7, "", 5);
    let mut store = MemoryStore::new(Vec::new());
    let id = record_quality(&mut t, &mut store, 2, 9_200_000_000);
    let g = t.get(&q).unwrap();
    assert_eq!(g.status, GoalStatus::Completed);
    assert_eq!(g.evaluation.as_ref().unwrap().feedback, "质量分数: 9.2/10");
    assert!(t.get(&s).unwrap().evaluation.is_none());
    let e = store.get(&id).unwrap();
    assert_eq!(e.title, "第 2 轮质量评估");
    assert_eq!(e.content, "分数: 9.2/10");
    assert_eq!(e.tags, vec!["quality".to_string(), "iteration_2".to_string()]);
    assert_eq!(e.category, MemoryCategory::QualityReport);
}

#[test]
fn remembered_inputs_and_results() {
    let mut store = MemoryStore::new(Vec::new());
    let id = remember_user_input(&mut store, "title", "都市");
    let e = store.get(&id).unwrap();
    assert_eq!((e.title.as_str(), e.content.as_str(), e.importance), ("用户需求: title", "都市", 900_000_000));
    assert_eq!(e.source, MemorySource::UserInput);
    let r = save_skill_result_to_memory(&mut store, "plot_outline", "大纲", DramaStage::Writing);
    let e = store.get(&r).unwrap();
    assert_eq!(e.category, MemoryCategory::Plot);
    assert_eq!(e.tags, vec!["skill_output".to_string(), "plot_outline".to_string(), "writing".to_string()]);
}

#[test]
fn commit_messages() {
    assert_eq!(stage_commit_message(DramaStage::Review, 3), "[剧本] 完成 review 阶段 (迭代 3)");
    assert_eq!(final_commit_message(Some(8_750_000_000), 2), "[剧本] 🎉 短剧创作完成 - 质量分数：8.8/10 (2 轮迭代)");
    assert_eq!(final_commit_message(None, 2), "[剧本] 🎉 短剧创作完成");
    assert_eq!(skill_commit_message("plot_outline"), "✓ plot_outline skill 完成");
    assert_eq!(target_met_message(QualityLevel::SS, 4), "达标 SS - 4 轮完成");
    assert_eq!(repair_round_message(2, QualityLevel::A), "修复轮次 2 (等级: A)");
}

#[test]
fn one_decimal_scores_match_float_formatting() {
    for x in [8.75f32, 8.25, 0.05, 9.95, 7.0, 3.14159] {
        let fixed = (x as f64 * 1e9).round() as i64;
        assert_eq!(
            final_commit_message(Some(fixed), 1),
            format!("[剧本] 🎉 短剧创作完成 - 质量分数：{:.1}/10 (1 轮迭代)", x)
        );
    }
}

#[test]
fn overall_score_is_read_from_the_reply() {
    assert_eq!(overall_score_text("{\"overall_score\": 8.5, \"brief\": \"好\"}").unwrap(), "8.5");
    assert_eq!(overall_score_text("\"overall_score\":\"9\"").unwrap(), "9");
    assert!(overall_score_text("{\"score\": 8}").is_none());
    assert!(overall_score_text("\"overall_score\": none").is_none());
}

#[test]
fn score_prompt_and_short_content() {
    assert!(too_short_to_score("短"));
    assert!(!too_short_to_score(&"a".repeat(100)));
    let p = quality_score_prompt("内容");
    assert!(p.starts_with("你是一位严格的短剧质量评估专家。"));
    assert!(p.ends_with("内容：\n内容"));
    assert!(p.contains("{\"overall_score\": 8.5, \"brief\": \"一句话评价\"}"));
}

#[test]
fn review_prompts_and_replies() {
    let review = SkillReview { criteria: vec!["一".to_string(), "二".to_string()], prompt: None, auto_repair: false };
    assert_eq!(review_prompt("文", &review), "请审查以下内容：\n\n文\n\n审查标准：\n一\n二");
    let templated = SkillReview { prompt: Some("审:{content}|{criteria}".to_string()), ..review };
    assert_eq!(review_prompt("文", &templated), "审:文|一\n二");
    assert_eq!(review_json_text("结果 {\"passed\": true} 完"), "{\"passed\": true}");
    assert_eq!(review_json_text("no brace }"), "no brace }");
    assert!(review_json_fails("no closing brace {"));
    assert!(review_json_fails("} then {"));
    let d = default_review_result();
    assert!(d.passed);
    assert_eq!(d.summary.unwrap(), "审查完成");
}

#[test]
fn review_issues_make_fix_skills_once_per_category() {
    let mut reg = SkillRegistry::new();
    reg.register(SkillFactory::create_dynamic_skill("plot_logic_fix", "有", "p", None, "repair", "review"));
    let review = ReviewResult {
        passed: false,
        issues: vec![
            review_issue("logic", "时间线矛盾"),
            review_issue("pace", "节奏拖沓"),
            review_issue("logic", "动机不足"),
        ],
        summary: None,
    };
    let made = handle_review_issues(&mut reg, "plot", DramaStage::Review, &review);
    assert_eq!(made, vec!["plot_pace_fix".to_string()]);
    let s = reg.get("plot_pace_fix").unwrap();
    assert_eq!(s.skill.description, "自动创建的修复 skill，用于修复 plot 中的 pace 问题");
    assert_eq!(s.prompt.creation, "请修复以下内容中的pace问题：\n\n问题列表：\n节奏拖沓\n\n原始内容：\n{content}");
    assert_eq!(s.skill.stage, "review");
    assert_eq!(reg.get("plot_logic_fix").unwrap().skill.description, "有");
    let again = handle_review_issues(&mut reg, "plot", DramaStage::Review, &review);
    assert!(again.is_empty());
    let mut fresh = SkillRegistry::new();
    let both = handle_review_issues(&mut fresh, "plot", DramaStage::Writing, &review);
    assert_eq!(both, vec!["plot_logic_fix".to_string(), "plot_pace_fix".to_string()]);
    assert_eq!(
        fresh.get("plot_logic_fix").unwrap().prompt.creation,
        "请修复以下内容中的logic问题：\n\n问题列表：\n时间线矛盾\n动机不足\n\n原始内容：\n{content}"
    );
}

#[test]
fn dynamic_skill_fallback_and_skill_order() {
    let s = default_dynamic_skill("conflict", "增强冲突", "improvement", "polishing");
    assert_eq!(s.prompt.creation, "请根据以下要求生成improvement内容：\n{content}");
    assert_eq!(skill_order_from_reply(DramaStage::Writing, "[\"script_writing\", \"episode_outline\"]"),
        vec!["script_writing".to_string(), "episode_outline".to_string()]);
    assert_eq!(skill_order_from_reply(DramaStage::Writing, "先写大纲"),
        vec!["episode_outline".to_string(), "script_writing".to_string()]);
}

#[test]
fn merged_parameters_let_dependencies_win() {
    let base = vec![("title".to_string(), "都市".to_string()), ("story_concept".to_string(), "旧".to_string())];
    let merged = merge_params(&base, vec![("story_concept".to_string(), "新".to_string()), ("plot".to_string(), "p".to_string())]);
    assert_eq!(
        merged,
        vec![
            ("title".to_string(), "都市".to_string()),
            ("story_concept".to_string(), "新".to_string()),
            ("plot".to_string(), "p".to_string()),
        ]
    );
}

#[test]
fn context_metadata_holds_json_strings() {
    let mut ctx = AgentContext::new("/p", "/o");
    let store = MemoryStore::new(Vec::new());
    inject_memory_context(&mut ctx, &store, 4000);
    assert_eq!(
        ctx.get_metadata("memory_context").unwrap(),
        &serde_json::Value::String("## 项目记忆上下文\n\n(暂无相关记忆)\n".to_string())
    );
    store_skill_content(&mut ctx, "plot", "大纲");
    assert_eq!(ctx.get_metadata("plot_content").unwrap().as_str().unwrap(), "大纲");
}

#[test]
fn execution_records() {
    let f = failed_execution("plot", vec![("a".to_string(), "b".to_string())]);
    assert!(f.result.is_empty() && f.file_path.is_none());
    assert!(!f.timestamp.is_empty());
    let e = quality_log_entry(DramaStage::Writing, "script", true, Some("AA"));
    assert_eq!((e.stage.as_str(), e.mode.as_str(), e.review_passed), ("writing", "Creation+Quality", Some(true)));
    assert_eq!(quality_log_entry(DramaStage::Writing, "s", true, Some("N/A")).review_passed, Some(false));
    assert_eq!(quality_log_entry(DramaStage::Writing, "s", true, None).review_passed, Some(false));
}

#[test]
fn records_are_stamped_in_utc_rfc3339() {
    let f = failed_execution("plot", Vec::new());
    let t: Vec<char> = f.timestamp.chars().collect();
    assert!(f.timestamp.ends_with("+00:00"), "{}", f.timestamp);
    assert_eq!((t[4], t[7], t[10], t[13], t[16]), ('-', '-', 'T', ':', ':'));
    let frac = t.len() - 25;
    assert!([0, 4, 7, 10].contains(&frac), "{}", f.timestamp);
    let e = quality_log_entry(DramaStage::Writing, "script", true, None);
    assert!(e.timestamp.ends_with("+00:00"));
}
