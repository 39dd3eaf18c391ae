use auto_drama::config::{default_provider, AgentConfig, GitConfig, MemoryConfig, PipelineConfig, QualityConfig, SkillsConfig};
use auto_drama::git::{CommandOutput, CommitType, GitAnswer, GitError, GitManager, GitStep};
use auto_drama::output::{file_extension, join_path_exec, OutputManager};

fn out(launched: bool, success: bool, stdout: &str) -> CommandOutput {
    CommandOutput { launched, success, stdout: stdout.to_string() }
}

fn run_args(step: GitStep) -> Vec<String> {
    match step {
        GitStep::Run(args) => args,
        GitStep::Done(a) => panic!("done early: {:?}", a),
    }
}

#[test]
fn commit_types_have_names() {
    assert_eq!(CommitType::Script.as_str(), "script");
    assert_eq!(CommitType::Skill.as_str(), "skill");
}

#[test]
fn disabled_git_does_nothing() {
    let m = GitManager::new("/p", "🤖", false);
    let mut run = m.auto_commit("msg");
    assert!(matches!(run.next(&out(true, true, "")), GitStep::Done(GitAnswer::Flag(false))));
    let mut e = m.ensure_repo();
    assert!(matches!(e.next(&out(true, true, "")), GitStep::Done(GitAnswer::Unit)));
}

#[test]
fn commit_runs_probe_add_status_commit() {
    let m = GitManager::new("/p", "🤖 [auto-drama]", true).with_script_dir("scripts");
    assert_eq!(m.script_output_dir, "scripts");
    let mut run = m.commit_with_scope("完成 planning 阶段", "script");
    assert_eq!(run_args(run.next(&out(false, false, ""))), vec!["rev-parse", "--is-inside-work-tree"]);
    assert_eq!(run_args(run.next(&out(true, true, "true"))), vec!["add", "output/"]);
    assert_eq!(run_args(run.next(&out(true, true, ""))), vec!["status", "--porcelain"]);
    assert_eq!(
        run_args(run.next(&out(true, true, " M output/a.md\n"))),
        vec!["commit", "-m", "🤖 [auto-drama] 完成 planning 阶段"]
    );
    assert!(matches!(run.next(&out(true, true, "")), GitStep::Done(GitAnswer::Flag(true))));
}

#[test]
fn commit_stops_when_nothing_changed_or_add_fails() {
    let m = GitManager::new("/p", "x", true);
    let mut run = m.commit_with_scope("m", "code");
    run.next(&out(false, false, ""));
    assert_eq!(
        run_args(run.next(&out(true, true, ""))),
        vec!["add", "src/", "Cargo.toml", "Cargo.lock", "config.toml", "skills/"]
    );
    run.next(&out(true, true, ""));
    assert!(matches!(run.next(&out(true, true, "  \n")), GitStep::Done(GitAnswer::Flag(false))));

    let mut failed = m.auto_commit("m");
    failed.next(&out(false, false, ""));
    failed.next(&out(true, true, ""));
    assert!(matches!(failed.next(&out(false, false, "")), GitStep::Done(GitAnswer::Failed(GitError::AddFailed))));
    assert_eq!(GitError::AddFailed.message(), "git add 失败");
}

#[test]
fn not_a_repository_means_no_commit() {
    let m = GitManager::new("/p", "x", true);
    let mut run = m.auto_commit("m");
    run.next(&out(false, false, ""));
    assert!(matches!(run.next(&out(true, false, "")), GitStep::Done(GitAnswer::Flag(false))));
}

#[test]
fn current_commit_is_the_trimmed_hash() {
    let m = GitManager::new("/p", "x", true);
    let mut run = m.current_commit();
    run.next(&out(false, false, ""));
    assert_eq!(run_args(run.next(&out(true, true, ""))), vec!["rev-parse", "--short", "HEAD"]);
    match run.next(&out(true, true, "abc1234\n")) {
        GitStep::Done(GitAnswer::Hash(Some(h))) => assert_eq!(h, "abc1234"),
        other => panic!("{:?}", other),
    }
}

#[test]
fn tag_and_push_and_init() {
    let m = GitManager::new("/p", "x", true);
    let mut tag = m.tag_commit("v1", "第一版");
    tag.next(&out(false, false, ""));
    assert_eq!(run_args(tag.next(&out(true, true, ""))), vec!["tag", "-a", "v1", "-m", "第一版"]);
    let mut push = m.push();
    assert_eq!(run_args(push.next(&out(false, false, ""))), vec!["push"]);
    assert!(matches!(push.next(&out(true, false, "")), GitStep::Done(GitAnswer::Flag(false))));
    let mut init = m.ensure_repo();
    init.next(&out(false, false, ""));
    assert_eq!(run_args(init.next(&out(true, false, ""))), vec!["init"]);
    assert!(matches!(init.next(&out(true, true, "")), GitStep::Done(GitAnswer::Unit)));
}

#[test]
fn paths_are_joined_like_path_join() {
    assert_eq!(join_path_exec("/out", "a.md"), "/out/a.md");
    assert_eq!(join_path_exec("/out/", "a.md"), "/out/a.md");
    assert_eq!(join_path_exec("", "a.md"), "a.md");
    assert_eq!(join_path_exec("/out", "/abs/a.md"), "/abs/a.md");
    assert_eq!(
        join_path_exec("./output", "a.md"),
        std::path::Path::new("./output").join("a.md").to_string_lossy()
    );
}

#[test]
fn output_files_are_named_by_format_and_counter() {
    assert_eq!(file_extension("markdown"), "md");
    assert_eq!(file_extension("json"), "json");
    assert_eq!(file_extension("yaml"), "md");
    let mut m = OutputManager::new("./output");
    assert_eq!(m.output_dir(), "./output");
    let first = m.save_output("人物设定", "md", "内容");
    assert!(first.path.starts_with("./output/1_人物设定_"));
    assert!(first.path.ends_with(".md"));
    assert_eq!(first.content, "内容");
    let second = m.save_output("大纲", "json", "{}");
    assert!(second.path.starts_with("./output/2_大纲_"));
    assert_eq!(m.save_versioned("剧本", 3, "txt", "x").path, "./output/剧本_v3.txt");
    assert_eq!(m.save_json_report("report", "{}").path, "./output/report.json");
    assert!(m.save_log("log").path.starts_with("./output/execution_log_"));
}

#[test]
fn script_collection_lists_each_episode() {
    let m = OutputManager::new("out");
    let w = m.save_final_script_collection("都市/人生", vec![(1, "第一集内容".to_string()), (2, "第二集".to_string())]);
    assert_eq!(w.path, "out/都市_人生_完整剧本合集.md");
    assert!(w.content.starts_with("# 都市/人生\n\n*生成时间："));
    assert!(w.content.contains("*总集数：2*\n\n---\n\n## 第 1 集\n\n第一集内容\n---\n\n## 第 2 集\n\n第二集\n---\n\n"));
}

#[test]
fn defaults_match_the_documented_configuration() {
    assert_eq!(default_provider(), "ollama");
    let q = QualityConfig::default();
    assert_eq!((q.target_level.as_str(), q.infinite_repair, q.max_repair_rounds), ("SSS", true, 0));
    let p = PipelineConfig::default();
    assert_eq!((p.max_retries, p.max_repair_rounds, p.output_dir.as_str()), (3, 2, "./output"));
    assert_eq!(GitConfig::default().commit_prefix, "🤖 [auto-drama]");
    assert_eq!(SkillsConfig::default().dynamic_skills_dir, "./skills/dynamic");
    let mem = MemoryConfig::default();
    assert_eq!((mem.max_context_chars, mem.max_entries_per_category), (4000, 20));
    assert_eq!(AgentConfig::default().max_tool_rounds, 15);
}

#[test]
fn successive_outputs_get_different_paths() {
    let mut m = OutputManager::new("./output");
    let a = m.save_output("人物设定", "md", "内容");
    let b = m.save_output("人物设定", "md", "内容");
    assert_ne!(a.path, b.path);
    assert!(b.path.starts_with("./output/2_人物设定_"));
    assert_eq!(m.file_count(), 2);
}

fn is_compact_stamp(s: &str) -> bool {
    let cs: Vec<char> = s.chars().collect();
    cs.len() == 15 && cs.iter().enumerate().all(|(i, c)| if i == 8 { *c == '_' } else { c.is_ascii_digit() })
}

#[test]
fn output_names_carry_the_local_time_as_digits() {
    let mut m = OutputManager::new("/o");
    let w = m.save_output("故事概念", "markdown", "c");
    let stamp = w.path.strip_prefix("/o/1_故事概念_").unwrap().strip_suffix(".md").unwrap();
    assert!(is_compact_stamp(stamp), "{}", stamp);
    let log = m.save_log("x");
    let stamp = log.path.strip_prefix("/o/execution_log_").unwrap().strip_suffix(".md").unwrap();
    assert!(is_compact_stamp(stamp), "{}", stamp);
    let all = m.save_final_script_collection("剧", vec![(1, "a".to_string())]);
    let line = all.content.lines().nth(2).unwrap();
    let t: Vec<char> = line.strip_prefix("*生成时间：").unwrap().strip_suffix("*").unwrap().chars().collect();
    assert_eq!(t.len(), 16);
    assert_eq!((t[4], t[7], t[10], t[13]), ('-', '-', ' ', ':'));
}
