use auto_drama::goals::{GoalStatus, GoalTracker, GoalType};

#[test]
fn created_goal_is_pending_with_no_attempt() {
    let mut t = GoalTracker::new();
    let id = t.create_goal("完成短剧", "描述", GoalType::ScriptCreation, 10, "全部完成", 3);
    assert_eq!(id.len(), 8);
    let g = t.get(&id).unwrap();
    assert_eq!(g.status, GoalStatus::Pending);
    assert_eq!(g.attempts, 0);
    assert_eq!(g.max_attempts, 3);
    assert!(g.evaluation.is_none());
    assert_eq!(g.created_at, g.updated_at);
}

#[test]
fn attempts_fail_the_goal_at_the_maximum() {
    let mut t = GoalTracker::new();
    let id = t.create_goal("g", "d", GoalType::StageComplete, 5, "c", 2);
    assert!(t.record_attempt(&id));
    assert_eq!(t.get(&id).unwrap().status, GoalStatus::InProgress);
    assert!(!t.record_attempt(&id));
    assert_eq!(t.get(&id).unwrap().status, GoalStatus::Failed);
    assert!(t.record_attempt("missing"));
}

#[test]
fn evaluation_completes_a_passed_goal() {
    let mut t = GoalTracker::new();
    let id = t.create_goal("质量", "d", GoalType::QualityTarget, 9, "c", 10);
    t.evaluate_goal(&id, 9_500_000_000, 10_000_000_000, true, "好");
    let g = t.get(&id).unwrap();
    assert_eq!(g.status, GoalStatus::Completed);
    let e = g.evaluation.as_ref().unwrap();
    assert_eq!(e.score, 9_500_000_000);
    assert_eq!(e.feedback, "好");
    t.evaluate_goal(&id, 1, 10_000_000_000, false, "差");
    assert_eq!(t.get(&id).unwrap().status, GoalStatus::InProgress);
}

#[test]
fn stats_count_each_status() {
    let mut t = GoalTracker::new();
    let a = t.create_goal("a", "", GoalType::StageComplete, 1, "", 5);
    let b = t.create_goal("b", "", GoalType::StageComplete, 1, "", 5);
    let _c = t.create_goal("c", "", GoalType::StageComplete, 1, "", 5);
    t.update_status(&a, GoalStatus::Completed);
    t.update_status(&b, GoalStatus::Skipped);
    let s = t.get_stats();
    assert_eq!((s.total, s.completed, s.skipped, s.pending, s.failed, s.in_progress), (3, 1, 1, 1, 0, 0));
    assert!(!t.all_completed());
}

#[test]
fn reset_puts_every_goal_back_to_pending() {
    let mut t = GoalTracker::new();
    let a = t.create_goal("a", "", GoalType::StageComplete, 1, "", 1);
    t.record_attempt(&a);
    t.evaluate_goal(&a, 0, 10, false, "x");
    t.reset();
    let g = t.get(&a).unwrap();
    assert_eq!(g.status, GoalStatus::Pending);
    assert_eq!(g.attempts, 0);
    assert!(g.evaluation.is_none());
}

#[test]
fn all_completed_counts_skipped_goals() {
    let mut t = GoalTracker::new();
    assert!(t.all_completed());
    let a = t.create_goal("a", "", GoalType::StageComplete, 1, "", 1);
    let b = t.create_goal("b", "", GoalType::StageComplete, 1, "", 1);
    t.update_status(&a, GoalStatus::Completed);
    t.update_status(&b, GoalStatus::Skipped);
    assert!(t.all_completed());
}

#[test]
fn goal_summary_lists_goals_in_progress_then_pending() {
    let mut t = GoalTracker::new();
    assert_eq!(t.get_context_for_prompt(), "## 当前目标\n\n(无活跃目标)\n");
    let a = t.create_goal_with("写剧本", "", GoalType::ScriptCreation, 10, "完成", 3, "id-a".to_string(), 0);
    t.create_goal_with("润色", "", GoalType::StageComplete, 7, "通顺", 5, "id-b".to_string(), 0);
    t.record_attempt_at(&a, 1);
    t.evaluate_goal_at(&a, 8_500_000_000, 10_000_000_000, false, "还行", 2);
    assert_eq!(
        t.get_context_for_prompt(),
        "## 当前目标\n\n### 进行中\n- [进行中] 写剧本 (尝试 1/3) (分数: 8/10)\n  标准: 完成\n\n### 待处理\n- [待处理] 润色 (优先级 P7)\n\n"
    );
}

#[test]
fn goals_are_listed_by_type() {
    let mut t = GoalTracker::new();
    t.create_goal_with("q", "", GoalType::QualityTarget, 9, "", 10, "q1".to_string(), 0);
    t.create_goal_with("s", "", GoalType::StageComplete, 7, "", 5, "s1".to_string(), 0);
    let q = t.get_by_type(&GoalType::QualityTarget);
    assert_eq!(q.len(), 1);
    assert_eq!(q[0].id, "q1");
    assert_eq!(t.get_pending().len(), 2);
    assert!(t.get_in_progress().is_empty());
}

fn fixed(x: f32) -> i64 {
    (x as f64 * 1e9).round() as i64
}

#[test]
fn whole_point_scores_match_float_formatting() {
    for x in [8.5f32, 9.5, 0.5, 7.25, 10.0, 3.49, 6.51, 2.5] {
        let mut t = GoalTracker::new();
        t.create_goal_with("g", "", GoalType::QualityTarget, 1, "c", 5, "g1".to_string(), 0);
        t.update_status_at("g1", GoalStatus::InProgress, 1);
        t.evaluate_goal_at("g1", fixed(x), fixed(10.0), false, "", 2);
        let expected = format!(
            "## 当前目标\n\n### 进行中\n- [进行中] g (尝试 0/5) (分数: {:.0}/{:.0})\n  标准: c\n\n",
            x, 10.0f32
        );
        assert_eq!(t.get_context_for_prompt(), expected);
    }
}

#[test]
fn new_goals_are_stamped_after_the_epoch() {
    let mut t = GoalTracker::new();
    let id = t.create_goal("完成", "", GoalType::StageComplete, 5, "", 3);
    let g = t.get(&id).unwrap();
    assert!(g.created_at > 0);
    assert_eq!(g.created_at, g.updated_at);
}
