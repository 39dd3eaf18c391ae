use auto_drama::llm::{
    failed_tool_result, find_tool, unknown_tool_result, AgentContext, Memory, MemoryEntry, Message, ToolChat,
    ToolResult,
};
use auto_drama::tools::{context_tool_definition, file_tool_definition, git_tool_definition, goal_tool_definition, memory_tool_definition};

fn turn(content: &str, skill: Option<&str>, stage: Option<&str>) -> MemoryEntry {
    MemoryEntry {
        timestamp: 0,
        role: "assistant".to_string(),
        content: content.to_string(),
        skill_name: skill.map(|s| s.to_string()),
        stage: stage.map(|s| s.to_string()),
        metadata: Vec::new(),
    }
}

#[test]
fn memory_forgets_the_oldest_beyond_its_bound() {
    let mut m = Memory::new(2);
    m.add(turn("a", None, None));
    m.add(turn("b", None, None));
    m.add(turn("c", None, None));
    let recent: Vec<&str> = m.recent(5).iter().map(|e| e.content.as_str()).collect();
    assert_eq!(recent, vec!["c", "b"]);
    m.clear();
    assert!(m.recent(1).is_empty());
}

#[test]
fn history_context_shows_newest_stage_and_skill_entries() {
    let mut m = Memory::new(10);
    m.add(turn("大纲一", Some("plot"), Some("planning")));
    m.add(turn("人物", Some("character"), Some("planning")));
    m.add(turn("大纲二", Some("plot"), Some("planning")));
    assert_eq!(
        m.inject_context("plot", "planning"),
        "## 历史上下文\n\n### planning 阶段历史\n- 大纲二\n- 人物\n- 大纲一\n\n### plot Skill 历史\n- 大纲二\n- 大纲一\n"
    );
    assert_eq!(m.inject_context("x", "y"), "## 历史上下文\n\n");
    assert_eq!(m.get_by_stage("planning").len(), 3);
    assert_eq!(m.get_by_skill("character").len(), 1);
    let msgs = m.to_messages();
    assert_eq!(msgs[1].name.as_deref(), Some("character"));
}

#[test]
fn long_history_entries_are_cut_to_200_characters() {
    let mut m = Memory::new(10);
    let long: String = std::iter::repeat('剧').take(250).collect();
    m.add(turn(&long, None, Some("writing")));
    let ctx = m.inject_context("s", "writing");
    let expected: String = std::iter::repeat('剧').take(200).collect();
    assert_eq!(ctx, format!("## 历史上下文\n\n### writing 阶段历史\n- {}\n\n", expected));
}

#[test]
fn context_keeps_files_once_and_metadata_by_key() {
    let mut c = AgentContext::new("/p", "/o");
    c.add_file("a.md".to_string());
    c.add_file("a.md".to_string());
    assert_eq!(c.generated_files, vec!["a.md".to_string()]);
    c.set_metadata("k".to_string(), serde_json::Value::Bool(true));
    c.set_metadata("k".to_string(), serde_json::Value::Bool(false));
    assert_eq!(c.get_metadata("k"), Some(&serde_json::Value::Bool(false)));
    assert!(c.get_metadata("other").is_none());
    c.add_memory("user".to_string(), "你好".to_string(), None, Some("planning".to_string()));
    assert_eq!(c.get_context_injection("s", "planning"), "## 历史上下文\n\n### planning 阶段历史\n- 你好\n\n");
    assert_eq!(c.memory.as_ref().unwrap().recent(1)[0].metadata.len(), 1);
}

#[test]
fn tool_chat_answers_without_tool_calls() {
    let history = vec![Message { role: "user".to_string(), content: "写个开头".to_string(), name: None, tool_calls: None }];
    let mut chat = ToolChat::new("你是编剧", history, 3);
    assert_eq!(chat.conversation().len(), 2);
    assert_eq!(chat.conversation()[0].role, "system");
    assert!(chat.can_continue());
    let answer = chat.after_reply("开头".to_string(), None);
    assert_eq!(answer.unwrap(), "开头");
    assert_eq!(chat.final_answer(), "开头");
}

#[test]
fn tool_chat_adds_tool_results_and_ends_after_its_rounds() {
    let mut chat = ToolChat::new("s", Vec::new(), 1);
    let calls = vec![auto_drama::llm::ToolCall {
        id: "1".to_string(),
        call_type: "function".to_string(),
        function: auto_drama::llm::FunctionCall { name: "memory".to_string(), arguments: serde_json::Value::Null },
    }];
    assert!(chat.after_reply("想一想".to_string(), Some(calls)).is_none());
    chat.tool_reply("memory", failed_tool_result("坏了".to_string()));
    let last = chat.conversation().last().unwrap();
    assert_eq!((last.role.as_str(), last.content.as_str()), ("tool", "错误: 坏了"));
    chat.end_round();
    assert!(!chat.can_continue());
    assert_eq!(chat.final_answer(), "想一想");
    let ok = ToolResult { success: true, content: "好".to_string(), metadata: None, error: None };
    chat.tool_reply("goal", ok);
    assert_eq!(chat.conversation().last().unwrap().content, "好");
}

#[test]
fn tools_are_found_by_name() {
    let defs = vec![memory_tool_definition(), file_tool_definition(), goal_tool_definition(), git_tool_definition(), context_tool_definition()];
    assert_eq!(find_tool(&defs, "goal"), Some(2));
    assert_eq!(find_tool(&defs, "web"), None);
    assert_eq!(unknown_tool_result("web").error.unwrap(), "未知工具: web");
    assert_eq!(defs[0].parameters.len(), 7);
    assert_eq!(defs[0].parameters[6].default, Some(serde_json::Value::from(0.5)));
    assert_eq!(defs[2].parameters[4].default, Some(serde_json::Value::from(5)));
    assert_eq!(defs[3].parameters[2].default, Some(serde_json::Value::from("all")));
    assert!(defs[4].parameters[0].required);
}
