use auto_drama::skill_markdown::{extract_inline_value, parse_markdown_skill, skill_file_kind, MarkdownSkillError, SkillFileKind};
use auto_drama::skills::{SkillExecution, SkillFactory, SkillMode, SkillRegistry, TemplateRenderer};

const CHARACTER_DESIGN: &str = "# Skill: 角色设计\n\n**Name**: `character_design`  \n**Version**: 1.0  \n**Stage**: planning  \n**Category**: creation  \n**Depends On**: `story_concept`\n\n## 描述\n\n根据故事概念设计完整的人物档案，包含主要角色和关键配角。\n\n## 输入\n\n- **Required**: `story_concept`\n- **Optional**: `character_count`, `protagonist_traits`, `antagonist_traits`, `character_notes`\n\n## 输出\n\n- **Format**: markdown\n- **File Prefix**: `人物设定`\n\n## Prompt: Creation\n\n你是一位专业的人物设计师。\n\n### 故事概念\n`{story_concept}`\n\n## Prompt: Repair\n\n- **原始内容**: `{content}`\n- **审查意见**: `{issues}`\n\n## Review\n\n### 审查标准\n- 人物立体\n- 关系清晰\n\n### Review Prompt\n请审查：{content}\n\n**Auto Repair**: true\n";

#[test]
fn markdown_skill_is_read() {
    let d = parse_markdown_skill(CHARACTER_DESIGN).unwrap();
    assert_eq!(d.skill.name, "character_design");
    assert_eq!(d.skill.version, "1.0");
    assert_eq!(d.skill.stage, "planning");
    assert_eq!(d.skill.category, "creation");
    assert_eq!(d.skill.depends_on, vec!["story_concept".to_string()]);
    assert_eq!(d.skill.description, "根据故事概念设计完整的人物档案，包含主要角色和关键配角。");
    assert_eq!(d.input.required, vec!["story_concept".to_string()]);
    assert_eq!(
        d.input.optional,
        vec!["character_count", "protagonist_traits", "antagonist_traits", "character_notes"]
            .iter()
            .map(|s| s.to_string())
            .collect::<Vec<_>>()
    );
    assert_eq!(d.output.format, "markdown");
    assert_eq!(d.output.file_prefix, "人物设定");
    assert_eq!(d.prompt.creation, "你是一位专业的人物设计师。\n\n### 故事概念\n`{story_concept}`");
    assert_eq!(d.prompt.repair, "- **原始内容**: `{content}`\n- **审查意见**: `{issues}`");
    let review = d.review.unwrap();
    assert_eq!(review.criteria, vec!["人物立体".to_string(), "关系清晰".to_string()]);
    assert_eq!(review.prompt.unwrap(), "请审查：{content}");
    assert!(review.auto_repair);
}

#[test]
fn markdown_skill_without_name_is_refused() {
    let r = parse_markdown_skill("# Skill: x\n\n**Version**: 2.0\n");
    assert!(matches!(r, Err(MarkdownSkillError::MissingName)));
}

#[test]
fn inline_values_lose_marks_and_spaces() {
    assert_eq!(extract_inline_value("**Name**: `plot_outline`"), "plot_outline");
    assert_eq!(extract_inline_value("**Stage**:  **writing** "), "writing");
    assert_eq!(extract_inline_value("no colon"), "");
    assert_eq!(extract_inline_value("a: b: c"), "b");
}

#[test]
fn skill_files_are_told_apart_by_extension() {
    assert_eq!(skill_file_kind("plot.toml"), SkillFileKind::Toml);
    assert_eq!(skill_file_kind("plot.outline.md"), SkillFileKind::Markdown);
    assert_eq!(skill_file_kind(".md"), SkillFileKind::Other);
    assert_eq!(skill_file_kind("README"), SkillFileKind::Other);
    assert_eq!(skill_file_kind("notes.txt"), SkillFileKind::Other);
}

#[test]
fn loaded_markdown_skill_is_registered() {
    let mut reg = SkillRegistry::new();
    let name = reg.load_skill_md_text(CHARACTER_DESIGN).unwrap();
    assert_eq!(name, "character_design");
    assert_eq!(reg.get("character_design").unwrap().skill.stage, "planning");
    assert_eq!(reg.list_by_stage("planning").len(), 1);
    assert!(reg.list_by_stage("writing").is_empty());
}

#[test]
fn registering_a_skill_replaces_the_same_name() {
    let mut reg = SkillRegistry::new();
    reg.register(SkillFactory::create_dynamic_skill("s", "old", "p", None, "c", "planning"));
    reg.register(SkillFactory::create_dynamic_skill("s", "new", "p", Some("r"), "c", "planning"));
    assert_eq!(reg.list().len(), 1);
    let s = reg.get("s").unwrap();
    assert_eq!(s.skill.description, "new");
    assert_eq!(s.prompt.repair, "r");
    assert!(s.review.as_ref().unwrap().auto_repair);
}

#[test]
fn dynamic_skill_has_defaults() {
    let s = SkillFactory::create_dynamic_skill("fix", "d", "请写{content}", None, "repair", "review");
    assert_eq!(s.skill.version, "0.1.0-dynamic");
    assert_eq!(s.input.required, vec!["content".to_string()]);
    assert_eq!(s.output.file_prefix, "fix");
    assert_eq!(s.prompt.repair, "请修复以下内容中的问题。\n\n## 原始内容\n{content}\n\n## 审查意见\n{issues}");
    assert!(s.review.is_none());
}

#[test]
fn rendering_fills_parameters_and_drops_unknown_placeholders() {
    let params = vec![("title".to_string(), "都市".to_string()), ("n".to_string(), "80".to_string())];
    assert_eq!(TemplateRenderer::render("《{title}》共{n}集{missing}。", &params), "《都市》共80集。");
    assert_eq!(TemplateRenderer::render("无占位符", &Vec::new()), "无占位符");
    assert_eq!(TemplateRenderer::render("{}保留", &Vec::new()), "{}保留");
}

#[test]
fn substituted_values_are_kept_verbatim() {
    let params = vec![("c".to_string(), "{x}".to_string())];
    assert_eq!(TemplateRenderer::render("[{c}]", &params), "[{x}]");
    let params = vec![("a".to_string(), "{b}".to_string())];
    assert_eq!(TemplateRenderer::render("x{a}y{{c}}z", &params), "x{b}y}z");
    assert_eq!(TemplateRenderer::render("{{a}", &Vec::new()), "");
    let twice = vec![("k".to_string(), "1".to_string()), ("k".to_string(), "2".to_string())];
    assert_eq!(TemplateRenderer::render("{k}{k}", &twice), "11");
}

fn run_of(name: &str, result: &str, file_path: Option<&str>) -> SkillExecution {
    SkillExecution {
        skill_name: name.to_string(),
        mode: SkillMode::Creation,
        params: Vec::new(),
        content: String::new(),
        result: result.to_string(),
        review_result: None,
        file_path: file_path.map(|p| p.to_string()),
        timestamp: String::new(),
    }
}

#[test]
fn dependencies_come_with_their_last_runs_in_order() {
    let mut registry = SkillRegistry::new();
    registry.record_execution(run_of("a", "first", None));
    registry.record_execution(run_of("c", "see", None));
    registry.record_execution(run_of("a", "second", Some("out/2_a.md")));
    let mut skill = SkillFactory::create_dynamic_skill("x", "d", "p", None, "c", "s");
    skill.skill.depends_on = vec!["b".to_string(), "a".to_string(), "c".to_string()];
    let sources = registry.dependency_sources(&skill);
    assert_eq!(sources.len(), 2);
    assert_eq!(sources[0].name, "a");
    assert_eq!(sources[0].result, "second");
    assert_eq!(sources[0].file_path.as_deref(), Some("out/2_a.md"));
    assert_eq!(sources[1].name, "c");
    assert_eq!(sources[1].result, "see");
    assert_eq!(sources[1].file_path, None);
}

#[test]
fn every_dependency_is_a_bare_name() {
    let d = parse_markdown_skill("**Name**: `po`\n**Depends On**: `story_concept`, `character_design`\n").unwrap();
    assert_eq!(d.skill.depends_on, vec!["story_concept".to_string(), "character_design".to_string()]);
}
