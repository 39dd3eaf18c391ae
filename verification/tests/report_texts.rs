use auto_drama::quality::{QualityIssue, QualityLevel};
use auto_drama::reports::{
    evaluation_request_text, final_material, quality_report_text, repair_prompt_text, scoring_material,
    skill_design_request_text, EvaluationFacts, SuggestionLine,
};

fn pair(a: &str, b: &str) -> (String, String) {
    (a.to_string(), b.to_string())
}

#[test]
fn scoring_material_lists_input_then_outputs() {
    let input = vec![pair("genre", "都市"), pair("title", "月光")];
    let outputs = vec![pair("story_concept", "概念"), pair("plot_outline", "大纲")];
    assert_eq!(
        scoring_material(&input, &outputs),
        "genre: 都市\ntitle: 月光\n\n=== story_concept ===\n概念\n=== plot_outline ===\n大纲"
    );
    assert_eq!(scoring_material(&Vec::new(), &Vec::new()), "");
}

#[test]
fn final_material_puts_each_output_under_a_heading() {
    let outputs = vec![pair("a", "x"), pair("b", "y")];
    assert_eq!(final_material(&outputs), "\n\n# a\n\nx\n\n# b\n\ny");
    assert_eq!(final_material(&Vec::new()), "");
}

#[test]
fn repair_prompt_names_target_level_score_and_issues() {
    let p = repair_prompt_text("SSS", QualityLevel::AA, "72.5", "- [major][P1] 节奏慢 | 建议: 加快", "正文");
    assert_eq!(
        p,
        "你是顶级短剧编剧修复专家。请修复以下内容，达到目标质量等级 SSS。\n\n## 当前等级: AA (72.5/100)\n## 需要修复的问题:\n- [major][P1] 节奏慢 | 建议: 加快\n\n## 要求:\n1. 逐一修复上述问题\n2. 保持连贯性和一致性\n3. 不改变核心走向\n\n## 待修复内容:\n正文"
    );
}

fn facts(strengths: Vec<String>, issues: Vec<QualityIssue>, suggestions: Vec<SuggestionLine>) -> EvaluationFacts {
    EvaluationFacts {
        level: QualityLevel::A,
        score_text: "61.0".to_string(),
        target: QualityLevel::SSS,
        meets_target: false,
        summary: "尚可".to_string(),
        strengths,
        issues,
        suggestions,
    }
}

#[test]
fn report_without_details_has_head_only() {
    let r = quality_report_text("第一集", &facts(Vec::new(), Vec::new(), Vec::new()));
    assert_eq!(
        r,
        "# 质量评估报告：第一集\n\n## 总体评估\n- **质量等级**: A (优秀 - 质量良好，少量瑕疵)\n- **总体分数**: 61.0/100\n- **目标等级**: SSS\n- **是否达标**: ❌ 否\n\n## 摘要\n尚可\n\n"
    );
}

#[test]
fn report_lists_strengths_issues_and_suggestions() {
    let issue = QualityIssue {
        severity: "major".to_string(),
        category: "情节编排".to_string(),
        description: "转折突兀".to_string(),
        priority: 1,
        fix_suggestion: "铺垫".to_string(),
    };
    let suggestion = SuggestionLine {
        priority: 2,
        category: "人物塑造".to_string(),
        suggestion: "加深动机".to_string(),
        expected: "5.0".to_string(),
    };
    let r = quality_report_text("终稿", &facts(vec!["对白自然".to_string()], vec![issue], vec![suggestion]));
    assert!(r.ends_with(
        "## 摘要\n尚可\n\n## 亮点\n- ✅ 对白自然\n\n## 问题\n- [major][情节编排] 转折突兀\n  修复建议：铺垫\n\n## 改进建议\n- [优先级 2] 人物塑造: 加深动机\n  预期提升：5.0分\n\n"
    ));
}

#[test]
fn requests_name_what_is_asked() {
    assert_eq!(
        evaluation_request_text("剧本", "正文"),
        "请评估以下剧本内容的质量：\n\n---\n\n正文"
    );
    assert_eq!(
        skill_design_request_text("conflict_enhance", "增强冲突", "improvement", "polishing"),
        "创建一个新的 skill：\n- 名称：conflict_enhance\n- 描述：增强冲突\n- 分类：improvement\n- 阶段：polishing"
    );
}
