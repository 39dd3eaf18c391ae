use auto_drama::goals::{GoalStatus, GoalTracker, GoalType};
use auto_drama::memory::{MemoryCategory, MemoryStore};
use auto_drama::tools::{
    category_to_str, context_call_cuts_exec, context_tool_run, file_list_answer, file_read_answer,
    file_read_output_answer, file_write_answer, git_add_failed_answer, git_commit_answer, git_log_answer,
    git_push_answer, git_status_answer, goal_tool_run, memory_call_cuts_exec, memory_tool_checked, memory_tool_run, model_listed,
    parse_goal_type, parse_memory_category, split_tags, FileRequest, FileTool, FileToolArgs, GitTool, GitToolArgs,
    GitToolRequest, GoalToolArgs, MemoryToolArgs, ToolMeta,
};

fn margs(action: &str) -> MemoryToolArgs {
    MemoryToolArgs {
        action: Some(action.to_string()),
        category: None,
        title: None,
        content: None,
        tags: None,
        query: None,
        limit: None,
        max_chars: None,
        importance: None,
    }
}

fn gargs(action: Option<&str>) -> GoalToolArgs {
    GoalToolArgs {
        action: action.map(|s| s.to_string()),
        name: None,
        description: None,
        goal_type: None,
        priority: None,
        criteria: None,
        score: None,
        passed: None,
        feedback: None,
    }
}

#[test]
fn category_names_parse_in_both_languages() {
    assert_eq!(parse_memory_category("World_Building"), MemoryCategory::WorldBuilding);
    assert_eq!(parse_memory_category("人物"), MemoryCategory::Character);
    assert_eq!(parse_memory_category("QUALITY_REPORT"), MemoryCategory::QualityReport);
    assert_eq!(parse_memory_category("偏好"), MemoryCategory::Preference);
    assert_eq!(parse_memory_category("anything"), MemoryCategory::General);
    assert_eq!(category_to_str(&MemoryCategory::Issue), "问题");
    assert_eq!(category_to_str(&MemoryCategory::General), "通用");
}

#[test]
fn goal_type_names_parse_exactly() {
    assert_eq!(parse_goal_type("quality_target"), GoalType::QualityTarget);
    assert_eq!(parse_goal_type("Quality_Target"), GoalType::StageComplete);
    assert_eq!(parse_goal_type("script_creation"), GoalType::ScriptCreation);
}

#[test]
fn tags_are_trimmed_and_empty_ones_dropped() {
    assert_eq!(split_tags(" a, b ,,c , "), vec!["a".to_string(), "b".to_string(), "c".to_string()]);
    assert!(split_tags("").is_empty());
}

#[test]
fn memory_tool_saves_with_defaults() {
    let mut store = MemoryStore::new(Vec::new());
    let mut a = margs("save");
    a.content = Some("女主是律师".to_string());
    a.tags = Some("人物, 主角".to_string());
    let r = memory_tool_run(&mut store, &a);
    assert!(r.success);
    let id = match &r.meta {
        ToolMeta::Saved { id, category } => {
            assert_eq!(category, "general");
            id.clone()
        },
        _ => panic!("no id"),
    };
    assert_eq!(r.content, format!("记忆已保存 (ID: {}, 分类: general)", id));
    let e = store.get(&id).unwrap();
    assert_eq!(e.title, "未命名");
    assert_eq!(e.category, MemoryCategory::General);
    assert_eq!(e.importance, 500_000_000);
    assert_eq!(e.tags, vec!["人物".to_string(), "主角".to_string()]);
}

#[test]
fn memory_tool_searches_and_lists() {
    let mut store = MemoryStore::new(Vec::new());
    let mut a = margs("save");
    a.category = Some("plot".to_string());
    a.title = Some("开端".to_string());
    a.content = Some("雨夜相遇".to_string());
    a.importance = Some(700_000_000);
    memory_tool_run(&mut store, &a);
    let mut s = margs("search");
    s.query = Some("相遇".to_string());
    assert!(memory_call_cuts_exec(&store, &s));
    let r = memory_tool_run(&mut store, &s);
    assert_eq!(r.content, "1. [情节] **开端** (重要性: 0.7)\n   雨夜相遇");
    assert!(matches!(r.meta, ToolMeta::Count(1)));
    let mut none = margs("search");
    none.query = Some("不存在".to_string());
    assert_eq!(memory_tool_run(&mut store, &none).content, "未找到相关记忆");
    let mut c = margs("get_category");
    c.category = Some("plot".to_string());
    assert_eq!(memory_tool_run(&mut store, &c).content, "- **开端**: 雨夜相遇");
    let mut e = margs("get_category");
    e.category = Some("issue".to_string());
    assert_eq!(memory_tool_run(&mut store, &e).content, "分类 issue 下无记忆");
}

#[test]
fn memory_tool_refuses_unknown_actions() {
    let mut store = MemoryStore::new(Vec::new());
    let r = memory_tool_run(&mut store, &margs("delete"));
    assert!(!r.success);
    assert_eq!(r.content, "");
    assert_eq!(r.error.unwrap(), "未知操作: delete");
}

#[test]
fn memory_tool_spots_cuts_inside_characters() {
    let mut store = MemoryStore::new(Vec::new());
    let long: String = std::iter::repeat('剧').take(100).collect();
    let mut a = margs("save");
    a.content = Some(long);
    memory_tool_run(&mut store, &a);
    let mut s = margs("search");
    s.query = Some("剧".to_string());
    assert!(!memory_call_cuts_exec(&store, &s));
    assert!(memory_tool_checked(&mut store, &s).is_none());
    assert_eq!(store.len(), 1);
    let mut ok = margs("search");
    ok.query = Some("无".to_string());
    assert_eq!(memory_tool_checked(&mut store, &ok).unwrap().content, "未找到相关记忆");
}

#[test]
fn goal_tool_creates_lists_evaluates_and_counts() {
    let mut t = GoalTracker::new();
    let mut c = gargs(Some("create"));
    c.name = Some("写完".to_string());
    c.priority = Some(300);
    let r = goal_tool_run(&mut t, &c);
    assert!(r.success);
    let id = match &r.meta {
        ToolMeta::GoalId(id) => id.clone(),
        _ => panic!("no id"),
    };
    assert_eq!(r.content, format!("目标已创建: 写完 (ID: {})", id));
    let g = t.get(&id).unwrap();
    assert_eq!(g.priority, 44);
    assert_eq!(g.goal_type, GoalType::StageComplete);
    assert_eq!(g.completion_criteria, "完成");
    assert_eq!(g.max_attempts, 10);

    let mut ev = gargs(Some("evaluate"));
    ev.name = Some("写完".to_string());
    ev.score = Some(8_000_000_000);
    let missing = goal_tool_run(&mut t, &ev);
    assert!(!missing.success);
    assert_eq!(missing.error.unwrap(), "未找到进行中的目标: 写完");

    t.update_status(&id, GoalStatus::InProgress);
    let done = goal_tool_run(&mut t, &ev);
    assert_eq!(done.content, "目标 '写完' 已评估: 分数=8.0, 达标=false");
    assert_eq!(t.get(&id).unwrap().evaluation.as_ref().unwrap().max_score, 10_000_000_000);

    let stats = goal_tool_run(&mut t, &gargs(Some("stats")));
    assert_eq!(stats.content, "目标统计:\n- 总计: 1\n- 已完成: 0\n- 进行中: 1\n- 待处理: 0\n- 失败: 0\n- 跳过: 0");
    let list = goal_tool_run(&mut t, &gargs(None));
    assert_eq!(list.content, t.get_context_for_prompt());
    assert_eq!(goal_tool_run(&mut t, &gargs(Some("x"))).error.unwrap(), "未知目标操作: x");
}

#[test]
fn context_tool_summarises_progress() {
    let store = MemoryStore::new(Vec::new());
    let t = GoalTracker::new();
    assert!(context_call_cuts_exec(&store, &None));
    let r = context_tool_run(&store, &t, &None);
    assert_eq!(
        r.content,
        "## 项目记忆上下文\n\n(暂无相关记忆)\n\n\n## 当前目标\n\n(无活跃目标)\n\n\n## 进度统计\n- 目标完成: 0/0\n- 记忆条目: 0"
    );
    let g = context_tool_run(&store, &t, &Some("goals".to_string()));
    assert_eq!(g.content, "## 当前目标\n\n(无活跃目标)\n");
    assert_eq!(context_tool_run(&store, &t, &Some("all".to_string())).error.unwrap(), "未知上下文操作: all");
}

#[test]
fn file_tool_routes_requests() {
    let tool = FileTool::new("/out", "/proj");
    let args = FileToolArgs { action: None, path: Some("a.md".to_string()), content: None };
    match tool.request(&args) {
        FileRequest::Read { dir, path } => {
            assert_eq!(dir, "/proj");
            assert_eq!(path, "a.md");
        },
        other => panic!("{:?}", other),
    }
    let list = FileToolArgs { action: Some("list".to_string()), path: None, content: None };
    match tool.request(&list) {
        FileRequest::List { dir, path } => {
            assert_eq!(dir, "/proj");
            assert_eq!(path, ".");
        },
        other => panic!("{:?}", other),
    }
}

#[test]
fn file_written_is_read_back_by_the_same_path() {
    let tool = FileTool::new("/out", "/proj");
    let write = FileToolArgs {
        action: Some("write".to_string()),
        path: Some("a.md".to_string()),
        content: Some("x".to_string()),
    };
    let read = FileToolArgs { action: Some("read".to_string()), path: Some("a.md".to_string()), content: None };
    let w = match tool.request(&write) {
        FileRequest::Write { dir, path, content } => (dir, path, content),
        other => panic!("{:?}", other),
    };
    let r = match tool.request(&read) {
        FileRequest::Read { dir, path } => (dir, path),
        other => panic!("{:?}", other),
    };
    assert_eq!((w.0.clone(), w.1.clone()), r);
    assert_eq!(w.2, "x");
    match tool.request(&FileToolArgs { action: Some("read_output".to_string()), path: Some("b".to_string()), content: None }) {
        FileRequest::ReadOutput { dir, path } => assert_eq!((dir.as_str(), path.as_str()), ("/proj", "b")),
        other => panic!("{:?}", other),
    }
}

#[test]
fn file_answers_report_sizes_and_cut_long_texts() {
    let r = file_read_answer("a.md", &Ok("你好".to_string()));
    assert_eq!(r.content, "你好");
    assert!(matches!(r.meta, ToolMeta::File { size: 6, .. }));
    let long = "x".repeat(8005);
    let cut = file_read_answer("b", &Ok(long.clone()));
    assert_eq!(cut.content, format!("{}...\n(文件已截断，共 8005 字符)", "x".repeat(8000)));
    let out = file_read_output_answer(&Ok(long));
    assert_eq!(out.content, format!("{}...\n(文件已截断)", "x".repeat(8000)));
    let err = file_read_answer("c", &Err("No such file".to_string()));
    assert_eq!(err.error.unwrap(), "读取文件失败: No such file");
    let w = file_write_answer("d.md", "abc", &Ok(()));
    assert_eq!(w.content, "文件已写入: d.md");
    let listing = file_list_answer(&vec![("a.md".to_string(), false), ("sub".to_string(), true)]);
    assert_eq!(listing.content, "a.md\nsub/");
    assert_eq!(file_list_answer(&Vec::new()).content, "目录为空");
}

#[test]
fn git_tool_plans_commits_by_scope() {
    let tool = GitTool::new("/proj", "🤖");
    let args = GitToolArgs { action: Some("commit".to_string()), message: None, scope: Some("code".to_string()) };
    match tool.request(&args) {
        GitToolRequest::Commit { add_args, commit_args, scope } => {
            assert_eq!(add_args, vec!["add", "src/", "Cargo.toml", "config.toml", "skills/"]);
            assert_eq!(commit_args, vec!["commit", "-m", "🤖 auto commit"]);
            assert_eq!(scope, "code");
        },
        other => panic!("{:?}", other),
    }
    let status = GitToolArgs { action: None, message: None, scope: None };
    assert!(matches!(tool.request(&status), GitToolRequest::Status));
}

#[test]
fn git_tool_answers() {
    assert_eq!(git_add_failed_answer().error.unwrap(), "git add 失败");
    assert_eq!(git_commit_answer("m", "all", true, "").content, "提交成功: m");
    let failed = git_commit_answer("m", "all", false, "nothing to commit");
    assert_eq!(failed.content, "提交结果: nothing to commit");
    assert_eq!(failed.error.unwrap(), "nothing to commit");
    assert_eq!(git_status_answer("  \n").content, "工作目录干净");
    assert_eq!(git_status_answer(" M a.rs\n").content, " M a.rs\n");
    assert_eq!(git_push_answer(true, "up", "date").content, "update");
    assert_eq!(git_log_answer("").content, "无提交记录");
}

#[test]
fn models_match_by_family() {
    let models = vec!["qwen2.5:14b".to_string(), "llama3:8b".to_string()];
    assert!(model_listed(&models, "qwen2.5:7b"));
    assert!(model_listed(&models, "llama3"));
    assert!(!model_listed(&models, "mistral:7b"));
}
