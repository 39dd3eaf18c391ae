use auto_drama::memory::{prompt_category_list, MemoryCategory, MemoryEntry, MemorySource, MemoryStore};
use auto_drama::text::prefix_by_bytes_fails;

fn entry(id: &str, category: MemoryCategory, title: &str, content: &str, importance: i64, timestamp: i64) -> MemoryEntry {
    MemoryEntry {
        id: id.to_string(),
        category,
        title: title.to_string(),
        content: content.to_string(),
        tags: vec!["Hero".to_string(), "第一幕".to_string()],
        timestamp,
        importance,
        source: MemorySource::Auto,
        metadata: Vec::new(),
    }
}

#[test]
fn saved_entry_is_read_back() {
    let mut store = MemoryStore::new(Vec::new());
    assert!(store.is_empty());
    let id = store.save(entry("a1", MemoryCategory::Character, "林月", "女主角，律师", 900_000_000, 1));
    assert_eq!(id, "a1");
    let got = store.get("a1").unwrap();
    assert_eq!(got.title, "林月");
    assert_eq!(store.len(), 1);
    assert!(store.get("zz").is_none());
}

#[test]
fn saving_an_id_again_replaces_the_entry() {
    let mut store = MemoryStore::new(Vec::new());
    store.save(entry("a1", MemoryCategory::Character, "旧", "x", 1, 1));
    store.save(entry("a1", MemoryCategory::Character, "新", "y", 1, 2));
    assert_eq!(store.len(), 1);
    assert_eq!(store.get("a1").unwrap().title, "新");
    // the index keeps one id per save: the entry is listed twice
    assert_eq!(store.get_by_category(&MemoryCategory::Character).len(), 2);
}

#[test]
fn added_entry_gets_a_short_hex_id() {
    let mut store = MemoryStore::new(Vec::new());
    let id = store.add(MemoryCategory::Plot, "第一集", "开场", vec!["a", "b"], 500_000_000, MemorySource::UserInput);
    assert_eq!(id.len(), 8);
    assert!(id.chars().all(|c| c.is_ascii_hexdigit() && !c.is_ascii_uppercase()));
    let e = store.get(&id).unwrap();
    assert_eq!(e.category, MemoryCategory::Plot);
    assert_eq!(e.tags, vec!["a".to_string(), "b".to_string()]);
    assert_eq!(e.source, MemorySource::UserInput);
    assert!(e.metadata.is_empty());
}

#[test]
fn tag_search_ignores_ascii_case() {
    let mut store = MemoryStore::new(Vec::new());
    store.save(entry("a1", MemoryCategory::Character, "t1", "c1", 1, 1));
    store.save(MemoryEntry { tags: vec!["villain".to_string()], ..entry("a2", MemoryCategory::Plot, "t2", "c2", 1, 1) });
    let hits = store.search_by_tag("HERO");
    assert_eq!(hits.len(), 1);
    assert_eq!(hits[0].id, "a1");
    assert!(store.search_by_tag("her").is_empty());
}

#[test]
fn search_ranks_by_importance_then_time_and_limits() {
    let mut store = MemoryStore::new(Vec::new());
    store.save(entry("low", MemoryCategory::Plot, "复仇计划", "x", 300_000_000, 5));
    store.save(entry("old", MemoryCategory::Plot, "复仇开始", "x", 800_000_000, 1));
    store.save(entry("new", MemoryCategory::Plot, "无关", "内容里有复仇", 800_000_000, 9));
    store.save(entry("none", MemoryCategory::Plot, "无关", "无关", 999_000_000, 9));
    let hits: Vec<&str> = store.search("复仇", 10).iter().map(|e| e.id.as_str()).collect();
    assert_eq!(hits, vec!["new", "old", "low"]);
    let two: Vec<&str> = store.search("复仇", 2).iter().map(|e| e.id.as_str()).collect();
    assert_eq!(two, vec!["new", "old"]);
    let by_tag: Vec<&str> = store.search("hero", 10).iter().map(|e| e.id.as_str()).collect();
    assert_eq!(by_tag, vec!["none", "new", "old", "low"]);
}

#[test]
fn search_query_is_lowercased() {
    let mut store = MemoryStore::new(Vec::new());
    store.save(entry("e", MemoryCategory::General, "Summary", "x", 1, 1));
    assert_eq!(store.search("SUMMARY", 5).len(), 1);
}

#[test]
fn context_lists_categories_with_entries() {
    let mut store = MemoryStore::new(Vec::new());
    assert_eq!(
        store.assemble_context(&[MemoryCategory::Plot], 20),
        "## 项目记忆上下文\n\n(暂无相关记忆)\n"
    );
    store.save(entry("a", MemoryCategory::Plot, "开端", "相遇", 1, 1));
    store.save(entry("b", MemoryCategory::Plot, "转折", "误会", 1, 2));
    store.save(entry("c", MemoryCategory::Character, "林月", "律师", 1, 3));
    let ctx = store.assemble_context(&[MemoryCategory::Character, MemoryCategory::Plot, MemoryCategory::Issue], 1);
    assert_eq!(ctx, "## 项目记忆上下文\n\n### 人物信息\n- **林月**: 律师\n\n### 情节剧情\n- **开端**: 相遇\n\n");
}

#[test]
fn prompt_context_is_cut_at_a_line_break() {
    let mut store = MemoryStore::new(Vec::new());
    store.save(entry("a", MemoryCategory::WorldBuilding, "w", "abcdefghij", 1, 1));
    let full = store.get_context_for_prompt(10_000);
    assert_eq!(full, "## 项目记忆上下文\n\n### 世界观设定\n- **w**: abcdefghij\n\n");
    let cats = prompt_category_list();
    let ctx = store.assemble_context(&cats, 20);
    assert_eq!(ctx, full);
    // the heading and its blank line take 26 bytes; 29 bytes end inside "### "
    assert!(!prefix_by_bytes_fails(&ctx, 29));
    let cut = store.get_context_for_prompt(29);
    assert_eq!(cut, "## 项目记忆上下文\n...\n(记忆上下文已截断)");
}

#[test]
fn clearing_a_category_removes_its_entries_only() {
    let mut store = MemoryStore::new(Vec::new());
    store.save(entry("a", MemoryCategory::Plot, "p", "x", 1, 1));
    store.save(entry("b", MemoryCategory::Issue, "i", "y", 1, 1));
    store.clear_category(&MemoryCategory::Plot);
    assert!(store.get("a").is_none());
    assert!(store.get("b").is_some());
    assert!(store.get_by_category(&MemoryCategory::Plot).is_empty());
    assert_eq!(store.len(), 1);
}

#[test]
fn store_is_rebuilt_from_saved_entries() {
    let store = MemoryStore::new(vec![
        entry("a", MemoryCategory::Plot, "p1", "x", 1, 1),
        entry("b", MemoryCategory::Plot, "p2", "y", 1, 2),
        entry("a", MemoryCategory::Plot, "p3", "z", 1, 3),
    ]);
    assert_eq!(store.len(), 2);
    assert_eq!(store.get("a").unwrap().title, "p3");
    assert_eq!(store.entries().len(), 2);
    assert_ne!(store.entries()[0].id, store.entries()[1].id);
}
