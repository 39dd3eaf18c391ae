//! The tools offered to the model: what each action does to the memory and
//! the goals, and the texts it answers with.
use vstd::prelude::*;
use vstd::string::StringExecFns;

use crate::llm::{ToolDefinition, ToolParam};
use crate::goals::{count_status, goal_of, goals_context, with_status, Goal, GoalStatus, GoalTracker, GoalType};
use crate::stamp::is_lower_hex;
use crate::memory::{
    prompt_categories, search_hits, MemoryCategory, MemoryEntry, MemorySource, MemoryStore,
};
use crate::skill_markdown::{split_on, split_on_exec};
use crate::text::{
    ascii_lower, chars_of, decimal, is_ascii_char, lowercase, prefix_by_bytes, prefix_by_bytes_fails, prefix_bytes, push_decimal, push_str,
    str_eq, string_of, to_lowercase, trim, trim_chars, views, byte_len, str_byte_len, extend_chars, owned_strings,
};

verus! {

/// The category a tool names, by its lowercased name: English or Chinese;
/// any other name is the general category.
pub open spec fn category_from_name(l: Seq<char>) -> MemoryCategory {
    if l == "world_building"@ || l == "世界观"@ {
        MemoryCategory::WorldBuilding
    } else if l == "character"@ || l == "人物"@ {
        MemoryCategory::Character
    } else if l == "plot"@ || l == "情节"@ {
        MemoryCategory::Plot
    } else if l == "decision"@ || l == "决策"@ {
        MemoryCategory::Decision
    } else if l == "quality_report"@ || l == "质量"@ {
        MemoryCategory::QualityReport
    } else if l == "issue"@ || l == "问题"@ {
        MemoryCategory::Issue
    } else if l == "preference"@ || l == "偏好"@ {
        MemoryCategory::Preference
    } else {
        MemoryCategory::General
    }
}

/// The English name of a category, as the memory tool's parameters list it.
pub open spec fn category_schema_name(c: MemoryCategory) -> Seq<char> {
    match c {
        MemoryCategory::WorldBuilding => "world_building"@,
        MemoryCategory::Character => "character"@,
        MemoryCategory::Plot => "plot"@,
        MemoryCategory::Decision => "decision"@,
        MemoryCategory::QualityReport => "quality_report"@,
        MemoryCategory::Issue => "issue"@,
        MemoryCategory::Preference => "preference"@,
        MemoryCategory::General => "general"@,
    }
}

/// The category named by `s`, case ignored (for an ASCII name, its ASCII
/// lower case is what is looked up).
pub fn parse_memory_category(s: &str) -> (r: MemoryCategory)
    ensures
        r == category_from_name(lowercase(s@)),
        (forall|i: int| 0 <= i < s@.len() ==> is_ascii_char(#[trigger] s@[i]))
            ==> r == category_from_name(s@.map_values(|c: char| ascii_lower(c))),
{
    let l = to_lowercase(s);
    let t = l.as_str();
    if str_eq(t, "world_building") || str_eq(t, "世界观") {
        MemoryCategory::WorldBuilding
    } else if str_eq(t, "character") || str_eq(t, "人物") {
        MemoryCategory::Character
    } else if str_eq(t, "plot") || str_eq(t, "情节") {
        MemoryCategory::Plot
    } else if str_eq(t, "decision") || str_eq(t, "决策") {
        MemoryCategory::Decision
    } else if str_eq(t, "quality_report") || str_eq(t, "质量") {
        MemoryCategory::QualityReport
    } else if str_eq(t, "issue") || str_eq(t, "问题") {
        MemoryCategory::Issue
    } else if str_eq(t, "preference") || str_eq(t, "偏好") {
        MemoryCategory::Preference
    } else {
        MemoryCategory::General
    }
}

/// The short Chinese name of a category.
pub open spec fn category_short_name(c: MemoryCategory) -> Seq<char> {
    match c {
        MemoryCategory::WorldBuilding => "世界观"@,
        MemoryCategory::Character => "人物"@,
        MemoryCategory::Plot => "情节"@,
        MemoryCategory::Decision => "决策"@,
        MemoryCategory::QualityReport => "质量"@,
        MemoryCategory::Issue => "问题"@,
        MemoryCategory::Preference => "偏好"@,
        MemoryCategory::General => "通用"@,
    }
}

/// The short Chinese name of a category.
pub fn category_to_str(cat: &MemoryCategory) -> (r: &'static str)
    ensures
        r@ == category_short_name(*cat),
{
    match cat {
        MemoryCategory::WorldBuilding => "世界观",
        MemoryCategory::Character => "人物",
        MemoryCategory::Plot => "情节",
        MemoryCategory::Decision => "决策",
        MemoryCategory::QualityReport => "质量",
        MemoryCategory::Issue => "问题",
        MemoryCategory::Preference => "偏好",
        MemoryCategory::General => "通用",
    }
}

/// The goal type a tool names; any other name is a stage goal.
pub open spec fn goal_type_from_name(s: Seq<char>) -> GoalType {
    if s == "script_creation"@ {
        GoalType::ScriptCreation
    } else if s == "quality_target"@ {
        GoalType::QualityTarget
    } else if s == "code_improvement"@ {
        GoalType::CodeImprovement
    } else {
        GoalType::StageComplete
    }
}

/// The goal type named by `s`.
pub fn parse_goal_type(s: &str) -> (r: GoalType)
    ensures
        r == goal_type_from_name(s@),
{
    if str_eq(s, "script_creation") {
        GoalType::ScriptCreation
    } else if str_eq(s, "quality_target") {
        GoalType::QualityTarget
    } else if str_eq(s, "code_improvement") {
        GoalType::CodeImprovement
    } else {
        GoalType::StageComplete
    }
}

/// The tags of a comma-separated list: each piece trimmed, empty pieces
/// dropped.
pub open spec fn tag_list(s: Seq<char>) -> Seq<Seq<char>> {
    split_on(s, ',').map_values(|p: Seq<char>| trim(p)).filter(|t: Seq<char>| t.len() > 0)
}

/// The tags of a comma-separated list.
pub fn split_tags(s: &str) -> (r: Vec<String>)
    ensures
        r@.map_values(|t: String| t@) == tag_list(s@),
{
    let cs = chars_of(s);
    let parts = split_on_exec(cs.as_slice(), ',');
    let ghost pv = views(parts@);
    let ghost trimmed = pv.map_values(|p: Seq<char>| trim(p));
    let ghost keep = |t: Seq<char>| t.len() > 0;
    let mut r: Vec<String> = Vec::new();
    let mut i: usize = 0;
    proof {
        assert(trimmed.take(0).filter(keep) =~= Seq::<Seq<char>>::empty()) by {
            reveal_with_fuel(Seq::<_>::filter, 1);
        }
        assert(r@.map_values(|t: String| t@) =~= Seq::<Seq<char>>::empty());
    }
    while i < parts.len()
        invariant
            i <= parts.len(),
            pv == views(parts@),
            pv.len() == parts@.len(),
            trimmed == pv.map_values(|p: Seq<char>| trim(p)),
            keep == (|t: Seq<char>| t.len() > 0),
            r@.map_values(|t: String| t@) == trimmed.take(i as int).filter(keep),
        decreases parts.len() - i,
    {
        let ghost r0 = r@;
        let t = trim_chars(parts[i].as_slice());
        proof {
            reveal_with_fuel(Seq::<_>::filter, 1);
            assert(trimmed.take(i + 1).drop_last() =~= trimmed.take(i as int));
            assert(pv[i as int] == parts@[i as int]@);
            assert(trimmed.take(i + 1).last() == t@);
        }
        if t.len() > 0 {
            let ts = string_of(t.as_slice());
            r.push(ts);
            proof {
                assert(r@.map_values(|t: String| t@) =~= r0.map_values(|t: String| t@).push(t@));
            }
        }
        i += 1;
    }
    proof {
        assert(trimmed.take(parts.len() as int) =~= trimmed);
    }
    r
}

/// The file tool: reads, writes and lists below the project directory.
pub struct FileTool {
    pub output_dir: String,
    pub project_dir: String,
}

impl FileTool {
    pub fn new(output_dir: &str, project_dir: &str) -> (r: FileTool)
        ensures
            r.output_dir@ == output_dir@,
            r.project_dir@ == project_dir@,
    {
        FileTool { output_dir: String::from_str(output_dir), project_dir: String::from_str(project_dir) }
    }
}

/// The git tool: commits in the project directory with a message prefix.
pub struct GitTool {
    pub project_dir: String,
    pub commit_prefix: String,
}

impl GitTool {
    pub fn new(project_dir: &str, commit_prefix: &str) -> (r: GitTool)
        ensures
            r.project_dir@ == project_dir@,
            r.commit_prefix@ == commit_prefix@,
    {
        GitTool { project_dir: String::from_str(project_dir), commit_prefix: String::from_str(commit_prefix) }
    }
}


/// The text of an optional string, or `d` when there is none.
pub open spec fn or_text(o: Option<String>, d: Seq<char>) -> Seq<char> {
    match o {
        Some(t) => t@,
        None => d,
    }
}

/// The text of an optional string, or `d` when there is none.
pub fn text_or(o: &Option<String>, d: &str) -> (r: String)
    ensures
        r@ == or_text(*o, d@),
{
    match o {
        Some(t) => t.clone(),
        None => String::from_str(d),
    }
}

/// A number, or `d` when there is none.
pub open spec fn or_num(o: Option<usize>, d: usize) -> usize {
    match o {
        Some(n) => n,
        None => d,
    }
}

/// The lines joined with `sep` between them.
pub open spec fn join_sep(ls: Seq<Seq<char>>, sep: Seq<char>) -> Seq<char>
    decreases ls.len(),
{
    if ls.len() == 0 {
        seq![]
    } else if ls.len() == 1 {
        ls[0]
    } else {
        join_sep(ls.drop_last(), sep) + sep + ls.last()
    }
}

/// `m / d` rounded to a whole number, halves to the even neighbour.
pub open spec fn round_half_even_by(m: nat, d: nat) -> nat
    recommends
        d > 0,
{
    let q = m / d;
    let r = m % d;
    if 2 * r < d {
        q
    } else if 2 * r > d {
        q + 1
    } else if q % 2 == 0 {
        q
    } else {
        q + 1
    }
}

/// A fixed-point number (units of 10^-9) written with one decimal, a
/// negative number keeping its sign even when it rounds to zero.
pub open spec fn tenths(n: int) -> Seq<char> {
    let m = round_half_even_by(if n < 0 { (-n) as nat } else { n as nat }, 100_000_000);
    (if n < 0 { "-"@ } else { seq![] }) + decimal(m / 10) + "."@ + decimal(m % 10)
}

/// Appends a fixed-point number with one decimal.
pub fn push_tenths(out: &mut Vec<char>, n: i64)
    ensures
        final(out)@ == old(out)@ + tenths(n as int),
{
    let m: u64 = if n < 0 { (-(n as i128)) as u64 } else { n as u64 };
    let d: u64 = 100_000_000;
    let q = m / d;
    let r = m % d;
    let v = if 2 * r < d {
        q
    } else if 2 * r > d {
        q + 1
    } else if q % 2 == 0 {
        q
    } else {
        q + 1
    };
    proof {
        if n < 0 {
            assert(m == -n);
        } else {
            assert(m == n);
        }
        assert(v == round_half_even_by(m as nat, 100_000_000));
    }
    let ghost o0 = out@;
    if n < 0 {
        push_str(out, "-");
    }
    push_decimal(out, v / 10);
    push_str(out, ".");
    push_decimal(out, v % 10);
    proof {
        assert(out@ =~= o0 + tenths(n as int));
    }
}

/// The first `n` bytes of every entry's content can be cut off at a
/// character boundary.
pub open spec fn contents_cut(es: Seq<MemoryEntry>, n: int) -> bool {
    forall|k: int| 0 <= k < es.len() ==> (#[trigger] prefix_bytes(es[k].content@, n)) is Some
}

/// The listing line of the `k`-th search hit (counted from one).
pub open spec fn hit_line(k: nat, e: MemoryEntry) -> Seq<char> {
    decimal(k) + ". ["@ + category_short_name(e.category) + "] **"@ + e.title@ + "** (重要性: "@
        + tenths(e.importance as int) + ")\n   "@ + prefix_bytes(e.content@, 200).unwrap()
}

/// The listing of search hits, or a note that there is none.
pub open spec fn hits_listing(es: Seq<MemoryEntry>) -> Seq<char> {
    if es.len() == 0 {
        "未找到相关记忆"@
    } else {
        join_sep(Seq::new(es.len(), |k: int| hit_line((k + 1) as nat, es[k])), "\n\n"@)
    }
}

/// The listing line of an entry of a category.
pub open spec fn category_entry_line(e: MemoryEntry) -> Seq<char> {
    "- **"@ + e.title@ + "**: "@ + prefix_bytes(e.content@, 150).unwrap()
}

/// The listing of the entries of the category named `name`, or a note that
/// it has none.
pub open spec fn category_listing(name: Seq<char>, es: Seq<MemoryEntry>) -> Seq<char> {
    if es.len() == 0 {
        "分类 "@ + name + " 下无记忆"@
    } else {
        join_sep(Seq::new(es.len(), |k: int| category_entry_line(es[k])), "\n"@)
    }
}

fn push_hit_line(out: &mut Vec<char>, k: usize, e: &MemoryEntry)
    requires
        k < usize::MAX,
        prefix_bytes(e.content@, 200) is Some,
    ensures
        final(out)@ == old(out)@ + hit_line((k + 1) as nat, *e),
{
    push_decimal(out, (k + 1) as u64);
    push_str(out, ". [");
    push_str(out, category_to_str(&e.category));
    push_str(out, "] **");
    push_str(out, e.title.as_str());
    push_str(out, "** (重要性: ");
    push_tenths(out, e.importance);
    push_str(out, ")\n   ");
    let cut = prefix_by_bytes(e.content.as_str(), 200);
    push_str(out, cut.as_str());
    proof {
        assert(final(out)@ =~= old(out)@ + hit_line((k + 1) as nat, *e));
    }
}

fn hits_listing_exec(hits: &Vec<&MemoryEntry>) -> (r: String)
    requires
        contents_cut(hits@.map_values(|e: &MemoryEntry| *e), 200),
    ensures
        r@ == hits_listing(hits@.map_values(|e: &MemoryEntry| *e)),
{
    let ghost es = hits@.map_values(|e: &MemoryEntry| *e);
    let ghost f = |k: int| hit_line((k + 1) as nat, es[k]);
    let mut out: Vec<char> = Vec::new();
    if hits.len() == 0 {
        push_str(&mut out, "未找到相关记忆");
        return string_of(out.as_slice());
    }
    let mut k: usize = 0;
    proof {
        assert(out@ =~= join_sep(Seq::new(0, f), "\n\n"@));
    }
    while k < hits.len()
        invariant
            k <= hits.len(),
            es == hits@.map_values(|e: &MemoryEntry| *e),
            f == (|k: int| hit_line((k + 1) as nat, es[k])),
            contents_cut(es, 200),
            out@ == join_sep(Seq::new(k as nat, f), "\n\n"@),
        decreases hits.len() - k,
    {
        let e = hits[k];
        if k > 0 {
            push_str(&mut out, "\n\n");
        }
        proof {
            assert(es[k as int] == *e);
        }
        push_hit_line(&mut out, k, e);
        proof {
            assert(Seq::new((k + 1) as nat, f).drop_last() =~= Seq::new(k as nat, f));
            if k == 0 {
                assert(out@ =~= join_sep(Seq::new(1, f), "\n\n"@));
            } else {
                assert(out@ =~= join_sep(Seq::new((k + 1) as nat, f), "\n\n"@));
            }
        }
        k += 1;
    }
    proof {
        assert(Seq::new(es.len(), f) =~= Seq::new(hits.len() as nat, f));
    }
    string_of(out.as_slice())
}

fn category_listing_exec(name: &str, entries: &Vec<&MemoryEntry>) -> (r: String)
    requires
        contents_cut(entries@.map_values(|e: &MemoryEntry| *e), 150),
    ensures
        r@ == category_listing(name@, entries@.map_values(|e: &MemoryEntry| *e)),
{
    let ghost es = entries@.map_values(|e: &MemoryEntry| *e);
    let ghost f = |k: int| category_entry_line(es[k]);
    let mut out: Vec<char> = Vec::new();
    if entries.len() == 0 {
        push_str(&mut out, "分类 ");
        push_str(&mut out, name);
        push_str(&mut out, " 下无记忆");
        return string_of(out.as_slice());
    }
    let mut k: usize = 0;
    proof {
        assert(out@ =~= join_sep(Seq::new(0, f), "\n"@));
    }
    while k < entries.len()
        invariant
            k <= entries.len(),
            es == entries@.map_values(|e: &MemoryEntry| *e),
            f == (|k: int| category_entry_line(es[k])),
            contents_cut(es, 150),
            out@ == join_sep(Seq::new(k as nat, f), "\n"@),
        decreases entries.len() - k,
    {
        let e = entries[k];
        if k > 0 {
            push_str(&mut out, "\n");
        }
        let ghost o1 = out@;
        push_str(&mut out, "- **");
        push_str(&mut out, e.title.as_str());
        push_str(&mut out, "**: ");
        proof {
            assert(es[k as int] == *e);
            assert(prefix_bytes(es[k as int].content@, 150) is Some);
        }
        let cut = prefix_by_bytes(e.content.as_str(), 150);
        push_str(&mut out, cut.as_str());
        proof {
            assert(out@ =~= o1 + f(k as int));
            assert(Seq::new((k + 1) as nat, f).drop_last() =~= Seq::new(k as nat, f));
            if k == 0 {
                assert(out@ =~= join_sep(Seq::new(1, f), "\n"@));
            } else {
                assert(out@ =~= join_sep(Seq::new((k + 1) as nat, f), "\n"@));
            }
        }
        k += 1;
    }
    proof {
        assert(Seq::new(es.len(), f) =~= Seq::new(entries.len() as nat, f));
    }
    string_of(out.as_slice())
}


/// What a tool call reports beside its text.
#[derive(Debug)]
pub enum ToolMeta {
    Nothing,
    Saved { id: String, category: String },
    Count(usize),
    GoalId(String),
    File { path: String, size: usize },
    Scope(String),
}

/// The answer of a tool call.
#[derive(Debug)]
pub struct ToolOutcome {
    pub success: bool,
    pub content: String,
    pub error: Option<String>,
    pub meta: ToolMeta,
}

/// The arguments of a memory tool call, as the model gave them.
#[derive(Debug)]
pub struct MemoryToolArgs {
    pub action: Option<String>,
    pub category: Option<String>,
    pub title: Option<String>,
    pub content: Option<String>,
    pub tags: Option<String>,
    pub query: Option<String>,
    pub limit: Option<usize>,
    pub max_chars: Option<usize>,
    pub importance: Option<i64>,
}

/// What a memory tool call asks for.
#[derive(Debug, Clone, Copy, PartialEq, Eq, Structural)]
pub enum MemoryAction {
    Save,
    Search,
    GetCategory,
    GetContext,
    Unknown,
}

/// The memory action an action name names.
pub open spec fn memory_action_kind(s: Seq<char>) -> MemoryAction {
    if s == "save"@ {
        MemoryAction::Save
    } else if s == "search"@ {
        MemoryAction::Search
    } else if s == "get_category"@ {
        MemoryAction::GetCategory
    } else if s == "get_context"@ {
        MemoryAction::GetContext
    } else {
        MemoryAction::Unknown
    }
}

fn memory_action_of(s: &str) -> (r: MemoryAction)
    ensures
        r == memory_action_kind(s@),
{
    if str_eq(s, "save") {
        MemoryAction::Save
    } else if str_eq(s, "search") {
        MemoryAction::Search
    } else if str_eq(s, "get_category") {
        MemoryAction::GetCategory
    } else if str_eq(s, "get_context") {
        MemoryAction::GetContext
    } else {
        MemoryAction::Unknown
    }
}

/// The action of a memory tool call; a search by default.
pub open spec fn memory_action(a: MemoryToolArgs) -> Seq<char> {
    or_text(a.action, "search"@)
}

/// The category name of a memory tool call; the general one by default.
pub open spec fn memory_category_name(a: MemoryToolArgs) -> Seq<char> {
    or_text(a.category, "general"@)
}

/// The hits of the search a memory tool call asks for (ten by default).
pub open spec fn memory_search_hits(store: MemoryStore, a: MemoryToolArgs) -> Seq<MemoryEntry> {
    search_hits(store.entry_list(), lowercase(or_text(a.query, ""@)), or_num(a.limit, 10) as nat)
}

/// The entries of the category a memory tool call names.
pub open spec fn memory_category_entries(store: MemoryStore, a: MemoryToolArgs) -> Seq<MemoryEntry> {
    store.by_category(category_from_name(lowercase(memory_category_name(a))))
}

/// The memory context a memory tool call asks for (4000 bytes by default).
pub open spec fn memory_context_text(store: MemoryStore) -> Seq<char> {
    store.context_text(prompt_categories(), 20)
}

/// A memory tool call cuts every text it cuts at a character boundary.
pub open spec fn memory_call_cuts(store: MemoryStore, a: MemoryToolArgs) -> bool {
    match memory_action_kind(memory_action(a)) {
        MemoryAction::Search => contents_cut(memory_search_hits(store, a), 200),
        MemoryAction::GetCategory => contents_cut(memory_category_entries(store, a), 150),
        MemoryAction::GetContext => prefix_bytes(memory_context_text(store), or_num(a.max_chars, 4000) as int) is Some,
        _ => true,
    }
}

fn refs_cut(es: &Vec<&MemoryEntry>, n: usize) -> (r: bool)
    ensures
        r == contents_cut(es@.map_values(|e: &MemoryEntry| *e), n as int),
{
    let ghost v = es@.map_values(|e: &MemoryEntry| *e);
    let mut k: usize = 0;
    while k < es.len()
        invariant
            k <= es.len(),
            v == es@.map_values(|e: &MemoryEntry| *e),
            forall|j: int| 0 <= j < k ==> (#[trigger] prefix_bytes(v[j].content@, n as int)) is Some,
        decreases es.len() - k,
    {
        proof {
            assert(v[k as int] == *es@[k as int]);
        }
        if prefix_by_bytes_fails(es[k].content.as_str(), n) {
            return false;
        }
        k += 1;
    }
    true
}

/// Whether a memory tool call cuts every text at a character boundary
/// (where it does not, the call is refused: slicing would panic).
pub fn memory_call_cuts_exec(store: &MemoryStore, args: &MemoryToolArgs) -> (r: bool)
    requires
        store.wf(),
    ensures
        r == memory_call_cuts(*store, *args),
{
    let action = text_or(&args.action, "search");
    let kind = memory_action_of(action.as_str());
    if kind == MemoryAction::Search {
        let query = text_or(&args.query, "");
        let limit = match args.limit { Some(n) => n, None => 10 };
        let hits = store.search(query.as_str(), limit);
        refs_cut(&hits, 200)
    } else if kind == MemoryAction::GetCategory {
        let name = text_or(&args.category, "general");
        let category = parse_memory_category(name.as_str());
        let entries = store.get_by_category(&category);
        refs_cut(&entries, 150)
    } else if kind == MemoryAction::GetContext {
        let max = match args.max_chars { Some(n) => n, None => 4000 };
        let cats = crate::memory::prompt_category_list();
        let ctx = store.assemble_context(cats.as_slice(), 20);
        !prefix_by_bytes_fails(ctx.as_str(), max)
    } else {
        true
    }
}

/// The answer to a call with an unknown action.
pub open spec fn unknown_action(o: ToolOutcome, prefix: Seq<char>, action: Seq<char>) -> bool {
    &&& !o.success
    &&& o.content@ == ""@
    &&& o.error matches Some(e) && e@ == prefix + action
    &&& o.meta is Nothing
}

fn unknown_action_outcome(prefix: &str, action: &str) -> (r: ToolOutcome)
    ensures
        unknown_action(r, prefix@, action@),
{
    let mut e: Vec<char> = Vec::new();
    push_str(&mut e, prefix);
    push_str(&mut e, action);
    let content = String::new();
    proof {
        reveal_strlit("");
        assert(e@ =~= prefix@ + action@);
        assert(content@ =~= ""@);
    }
    ToolOutcome { success: false, content, error: Some(string_of(e.as_slice())), meta: ToolMeta::Nothing }
}

/// What a memory tool call did: the store `before` became `after` and the
/// call answered `r` (see `memory_tool_run`).
pub open spec fn memory_tool_effect(before: MemoryStore, after: MemoryStore, args: MemoryToolArgs, r: ToolOutcome) -> bool {
    &&& (memory_action_kind(memory_action(args)) != MemoryAction::Save ==> after == before)
    &&& (memory_action_kind(memory_action(args)) == MemoryAction::Save ==> {
        &&& r.success && r.error is None
        &&& r.meta matches ToolMeta::Saved { id, category } && {
            let cs = memory_category_name(args);
            let cat = category_from_name(lowercase(cs));
            &&& category@ == cs
            &&& id@.len() == 8
            &&& r.content@ == "记忆已保存 (ID: "@ + id@ + ", 分类: "@ + cs + ")"@
            &&& after.entry(id@) matches Some(e) && {
                &&& e.id@ == id@
                &&& e.category == cat
                &&& e.title@ == or_text(args.title, "未命名"@)
                &&& e.content@ == or_text(args.content, ""@)
                &&& e.tags@.map_values(|t: String| t@) == tag_list(or_text(args.tags, ""@))
                &&& e.importance == match args.importance { Some(x) => x, None => 500_000_000 }
                &&& e.source == MemorySource::LlmExtract
                &&& e.metadata@.len() == 0
            }
            &&& forall|other: Seq<char>| other != id@ ==> after.entry(other) == before.entry(other)
            &&& after.category_ids(cat) == before.category_ids(cat).push(id@)
            &&& forall|c: MemoryCategory| c != cat ==> after.category_ids(c) == before.category_ids(c)
        }
    })
    &&& (memory_action_kind(memory_action(args)) == MemoryAction::Search ==> {
        let hits = memory_search_hits(before, args);
        &&& r.success && r.error is None
        &&& r.content@ == hits_listing(hits)
        &&& r.meta == ToolMeta::Count(hits.len() as usize)
    })
    &&& (memory_action_kind(memory_action(args)) == MemoryAction::GetCategory ==> {
        let es = memory_category_entries(before, args);
        &&& r.success && r.error is None
        &&& r.content@ == category_listing(memory_category_name(args), es)
        &&& r.meta == ToolMeta::Count(es.len() as usize)
    })
    &&& (memory_action_kind(memory_action(args)) == MemoryAction::GetContext ==> {
        &&& r.success && r.error is None
        &&& r.content@ == crate::memory::cut_context(memory_context_text(before), or_num(args.max_chars, 4000) as nat)
        &&& r.meta is Nothing
    })
    &&& (memory_action_kind(memory_action(args)) == MemoryAction::Unknown
        ==> unknown_action(r, "未知操作: "@, memory_action(args)))
}

/// Runs a memory tool call.
///
/// - `save` adds an entry (category `general`, title `未命名`, no content,
///   the comma-separated tags, importance 0.5 by default) from the model,
///   and reports its id;
/// - `search` lists the hits of the query (ten by default);
/// - `get_category` lists the entries of the named category;
/// - `get_context` gives the memory context cut to `max_chars` bytes
///   (4000 by default);
/// - any other action fails.
pub fn memory_tool_run(store: &mut MemoryStore, args: &MemoryToolArgs) -> (r: ToolOutcome)
    requires
        old(store).wf(),
        memory_call_cuts(*old(store), *args),
    ensures
        final(store).wf(),
        memory_tool_effect(*old(store), *final(store), *args, r),
{
    let action = text_or(&args.action, "search");
    let kind = memory_action_of(action.as_str());
    if kind == MemoryAction::Save {
        let category_name = text_or(&args.category, "general");
        let category = parse_memory_category(category_name.as_str());
        let title = text_or(&args.title, "未命名");
        let content = text_or(&args.content, "");
        let tags_text = text_or(&args.tags, "");
        let tags = split_tags(tags_text.as_str());
        let importance = match args.importance { Some(x) => x, None => 500_000_000 };
        let id = store.add_owned(category, title, content, tags, importance, MemorySource::LlmExtract);
        let mut out: Vec<char> = Vec::new();
        push_str(&mut out, "记忆已保存 (ID: ");
        push_str(&mut out, id.as_str());
        push_str(&mut out, ", 分类: ");
        push_str(&mut out, category_name.as_str());
        push_str(&mut out, ")");
        ToolOutcome {
            success: true,
            content: string_of(out.as_slice()),
            error: None,
            meta: ToolMeta::Saved { id, category: category_name },
        }
    } else if kind == MemoryAction::Search {
        let query = text_or(&args.query, "");
        let limit = match args.limit { Some(n) => n, None => 10 };
        let hits = store.search(query.as_str(), limit);
        let n = hits.len();
        let content = hits_listing_exec(&hits);
        ToolOutcome { success: true, content, error: None, meta: ToolMeta::Count(n) }
    } else if kind == MemoryAction::GetCategory {
        let name = text_or(&args.category, "general");
        let category = parse_memory_category(name.as_str());
        let entries = store.get_by_category(&category);
        let n = entries.len();
        let content = category_listing_exec(name.as_str(), &entries);
        ToolOutcome { success: true, content, error: None, meta: ToolMeta::Count(n) }
    } else if kind == MemoryAction::GetContext {
        let max = match args.max_chars { Some(n) => n, None => 4000 };
        let content = store.get_context_for_prompt(max);
        ToolOutcome { success: true, content, error: None, meta: ToolMeta::Nothing }
    } else {
        unknown_action_outcome("未知操作: ", action.as_str())
    }
}

/// Runs a memory tool call unless it would cut a text inside a character:
/// `None` then, the store unchanged.
pub fn memory_tool_checked(store: &mut MemoryStore, args: &MemoryToolArgs) -> (r: Option<ToolOutcome>)
    requires
        old(store).wf(),
    ensures
        final(store).wf(),
        r is None <==> !memory_call_cuts(*old(store), *args),
        r is None ==> *final(store) == *old(store),
        r matches Some(o) ==> memory_tool_effect(*old(store), *final(store), *args, o),
{
    if memory_call_cuts_exec(store, args) {
        Some(memory_tool_run(store, args))
    } else {
        None
    }
}


/// The arguments of a goal tool call, as the model gave them; the score is
/// a fixed-point number in units of 10^-9.
#[derive(Debug)]
pub struct GoalToolArgs {
    pub action: Option<String>,
    pub name: Option<String>,
    pub description: Option<String>,
    pub goal_type: Option<String>,
    pub priority: Option<u64>,
    pub criteria: Option<String>,
    pub score: Option<i64>,
    pub passed: Option<bool>,
    pub feedback: Option<String>,
}

/// What a goal tool call asks for.
#[derive(Debug, Clone, Copy, PartialEq, Eq, Structural)]
pub enum GoalAction {
    Create,
    List,
    Evaluate,
    Stats,
    Unknown,
}

/// The goal action an action name names.
pub open spec fn goal_action_kind(s: Seq<char>) -> GoalAction {
    if s == "create"@ {
        GoalAction::Create
    } else if s == "list"@ {
        GoalAction::List
    } else if s == "evaluate"@ {
        GoalAction::Evaluate
    } else if s == "stats"@ {
        GoalAction::Stats
    } else {
        GoalAction::Unknown
    }
}

fn goal_action_of(s: &str) -> (r: GoalAction)
    ensures
        r == goal_action_kind(s@),
{
    if str_eq(s, "create") {
        GoalAction::Create
    } else if str_eq(s, "list") {
        GoalAction::List
    } else if str_eq(s, "evaluate") {
        GoalAction::Evaluate
    } else if str_eq(s, "stats") {
        GoalAction::Stats
    } else {
        GoalAction::Unknown
    }
}

/// The action of a goal tool call; a listing by default.
pub open spec fn goal_action(a: GoalToolArgs) -> GoalAction {
    goal_action_kind(or_text(a.action, "list"@))
}

/// The first goal named `name`.
pub open spec fn first_named(gs: Seq<Goal>, name: Seq<char>) -> Option<Goal>
    decreases gs.len(),
{
    if gs.len() == 0 {
        None
    } else if gs[0].name@ == name {
        Some(gs[0])
    } else {
        first_named(gs.drop_first(), name)
    }
}

/// The goal statistics text.
pub open spec fn stats_text(gs: Seq<Goal>) -> Seq<char> {
    "目标统计:\n- 总计: "@ + decimal(gs.len()) + "\n- 已完成: "@ + decimal(count_status(gs, GoalStatus::Completed))
        + "\n- 进行中: "@ + decimal(count_status(gs, GoalStatus::InProgress))
        + "\n- 待处理: "@ + decimal(count_status(gs, GoalStatus::Pending))
        + "\n- 失败: "@ + decimal(count_status(gs, GoalStatus::Failed))
        + "\n- 跳过: "@ + decimal(count_status(gs, GoalStatus::Skipped))
}

/// `true` or `false`.
pub open spec fn bool_text(b: bool) -> Seq<char> {
    if b { "true"@ } else { "false"@ }
}

fn first_named_exec<'a>(gs: &Vec<&'a Goal>, name: &str) -> (r: Option<&'a Goal>)
    ensures
        match r {
            Some(g) => first_named(gs@.map_values(|g: &Goal| *g), name@) == Some(*g),
            None => first_named(gs@.map_values(|g: &Goal| *g), name@) is None,
        },
{
    let ghost all = gs@.map_values(|g: &Goal| *g);
    let mut k: usize = 0;
    proof {
        assert(all.skip(0) =~= all);
    }
    while k < gs.len()
        invariant
            k <= gs.len(),
            all == gs@.map_values(|g: &Goal| *g),
            first_named(all, name@) == first_named(all.skip(k as int), name@),
        decreases gs.len() - k,
    {
        let ghost rest = all.skip(k as int);
        proof {
            assert(rest[0] == *gs@[k as int]);
            assert(rest.drop_first() =~= all.skip(k + 1));
        }
        if str_eq(gs[k].name.as_str(), name) {
            return Some(gs[k]);
        }
        k += 1;
    }
    proof {
        assert(all.skip(k as int).len() == 0);
    }
    None
}

/// Runs a goal tool call.
///
/// - `create` adds a goal (named `未命名目标`, no description, a stage goal
///   of priority 5 with criteria `完成` by default; the priority is taken
///   modulo 256) allowed ten attempts, and reports its id;
/// - `list` gives the goal summary;
/// - `evaluate` records an evaluation out of 10 (score 0, not passed, no
///   feedback by default) of the first goal in progress with the given
///   name, and fails when there is none;
/// - `stats` gives the number of goals of each status;
/// - any other action fails.
pub fn goal_tool_run(tracker: &mut GoalTracker, args: &GoalToolArgs) -> (r: ToolOutcome)
    requires
        old(tracker).wf(),
    ensures
        final(tracker).wf(),
        goal_action(*args) == GoalAction::Create ==> {
            let name = or_text(args.name, "未命名目标"@);
            &&& r.success && r.error is None
            &&& r.meta matches ToolMeta::GoalId(id) && {
                &&& id@.len() == 8
                &&& forall|k: int| 0 <= k < 8 ==> is_lower_hex(#[trigger] id@[k])
                &&& r.content@ == "目标已创建: "@ + name + " (ID: "@ + id@ + ")"@
                &&& goal_of(final(tracker).goal_list(), id@) matches Some(g) && {
                    &&& g.name@ == name
                    &&& g.description@ == or_text(args.description, ""@)
                    &&& g.goal_type == goal_type_from_name(or_text(args.goal_type, "stage_complete"@))
                    &&& g.priority as int == (match args.priority { Some(p) => p, None => 5 }) % 256
                    &&& g.status == GoalStatus::Pending
                    &&& g.sub_goals@.len() == 0
                    &&& g.completion_criteria@ == or_text(args.criteria, "完成"@)
                    &&& g.evaluation is None
                    &&& g.created_at == g.updated_at
                    &&& g.max_attempts == 10
                    &&& g.attempts == 0
                }
                &&& forall|other: Seq<char>| other != id@
                    ==> goal_of(final(tracker).goal_list(), other) == goal_of(old(tracker).goal_list(), other)
            }
        },
        goal_action(*args) != GoalAction::Create && goal_action(*args) != GoalAction::Evaluate
            ==> final(tracker).goal_list() == old(tracker).goal_list(),
        goal_action(*args) == GoalAction::List ==> {
            &&& r.success && r.error is None && r.meta is Nothing
            &&& r.content@ == goals_context(old(tracker).goal_list())
        },
        goal_action(*args) == GoalAction::Stats ==> {
            &&& r.success && r.error is None && r.meta is Nothing
            &&& r.content@ == stats_text(old(tracker).goal_list())
        },
        goal_action(*args) == GoalAction::Evaluate ==> {
            let name = or_text(args.name, ""@);
            let score = match args.score { Some(x) => x, None => 0 };
            let passed = match args.passed { Some(b) => b, None => false };
            match first_named(with_status(old(tracker).goal_list(), GoalStatus::InProgress), name) {
                Some(g) => {
                    &&& r.success && r.error is None && r.meta is Nothing
                    &&& r.content@ == "目标 '"@ + name + "' 已评估: 分数="@ + tenths(score as int) + ", 达标="@
                        + bool_text(passed)
                    &&& final(tracker).goal_list().len() == old(tracker).goal_list().len()
                    &&& goal_of(final(tracker).goal_list(), g.id@) matches Some(h) && {
                        &&& h == Goal {
                            evaluation: h.evaluation,
                            status: if passed { GoalStatus::Completed } else { GoalStatus::InProgress },
                            updated_at: h.updated_at,
                            ..goal_of(old(tracker).goal_list(), g.id@).unwrap()
                        }
                        &&& h.evaluation matches Some(e) && e.score == score && e.max_score == 10_000_000_000
                            && e.passed == passed && e.feedback@ == or_text(args.feedback, ""@)
                            && e.evaluated_at == h.updated_at
                    }
                    &&& forall|other: Seq<char>| other != g.id@
                        ==> goal_of(final(tracker).goal_list(), other) == goal_of(old(tracker).goal_list(), other)
                },
                None => {
                    &&& !r.success && r.content@ == ""@ && r.meta is Nothing
                    &&& r.error matches Some(e) && e@ == "未找到进行中的目标: "@ + name
                    &&& final(tracker).goal_list() == old(tracker).goal_list()
                },
            }
        },
        goal_action(*args) == GoalAction::Unknown ==> unknown_action(r, "未知目标操作: "@, or_text(args.action, "list"@)),
{
    let action = text_or(&args.action, "list");
    let kind = goal_action_of(action.as_str());
    if kind == GoalAction::Create {
        let name = text_or(&args.name, "未命名目标");
        let description = text_or(&args.description, "");
        let kind_name = text_or(&args.goal_type, "stage_complete");
        let priority: u8 = (match args.priority { Some(p) => p, None => 5 } % 256) as u8;
        let criteria = text_or(&args.criteria, "完成");
        let goal_type = parse_goal_type(kind_name.as_str());
        let id = tracker.create_goal(name.as_str(), description.as_str(), goal_type, priority, criteria.as_str(), 10);
        let mut out: Vec<char> = Vec::new();
        push_str(&mut out, "目标已创建: ");
        push_str(&mut out, name.as_str());
        push_str(&mut out, " (ID: ");
        push_str(&mut out, id.as_str());
        push_str(&mut out, ")");
        ToolOutcome { success: true, content: string_of(out.as_slice()), error: None, meta: ToolMeta::GoalId(id) }
    } else if kind == GoalAction::List {
        let content = tracker.get_context_for_prompt();
        ToolOutcome { success: true, content, error: None, meta: ToolMeta::Nothing }
    } else if kind == GoalAction::Evaluate {
        let name = text_or(&args.name, "");
        let score = match args.score { Some(x) => x, None => 0 };
        let passed = match args.passed { Some(b) => b, None => false };
        let feedback = text_or(&args.feedback, "");
        let found = {
            let in_progress = tracker.get_in_progress();
            match first_named_exec(&in_progress, name.as_str()) {
                Some(g) => Some(g.id.clone()),
                None => None,
            }
        };
        match found {
            Some(id) => {
                proof {
                    let ip = with_status(old(tracker).goal_list(), GoalStatus::InProgress);
                    lemma_first_named_in(ip, name@);
                    let gg = first_named(ip, name@).unwrap();
                    lemma_with_status_member(old(tracker).goal_list(), GoalStatus::InProgress, gg);
                    crate::goals::lemma_goal_in_list(old(tracker).goal_list(), gg);
                }
                tracker.evaluate_goal(id.as_str(), score, 10_000_000_000, passed, feedback.as_str());
                let mut out: Vec<char> = Vec::new();
                push_str(&mut out, "目标 '");
                push_str(&mut out, name.as_str());
                push_str(&mut out, "' 已评估: 分数=");
                push_tenths(&mut out, score);
                push_str(&mut out, ", 达标=");
                push_str(&mut out, if passed { "true" } else { "false" });
                ToolOutcome { success: true, content: string_of(out.as_slice()), error: None, meta: ToolMeta::Nothing }
            },
            None => {
                let mut e: Vec<char> = Vec::new();
                push_str(&mut e, "未找到进行中的目标: ");
                push_str(&mut e, name.as_str());
                let content = String::new();
                proof {
                    reveal_strlit("");
                    assert(content@ =~= ""@);
                }
                ToolOutcome { success: false, content, error: Some(string_of(e.as_slice())), meta: ToolMeta::Nothing }
            },
        }
    } else if kind == GoalAction::Stats {
        let st = tracker.get_stats();
        let mut out: Vec<char> = Vec::new();
        push_str(&mut out, "目标统计:\n- 总计: ");
        push_decimal(&mut out, st.total as u64);
        push_str(&mut out, "\n- 已完成: ");
        push_decimal(&mut out, st.completed as u64);
        push_str(&mut out, "\n- 进行中: ");
        push_decimal(&mut out, st.in_progress as u64);
        push_str(&mut out, "\n- 待处理: ");
        push_decimal(&mut out, st.pending as u64);
        push_str(&mut out, "\n- 失败: ");
        push_decimal(&mut out, st.failed as u64);
        push_str(&mut out, "\n- 跳过: ");
        push_decimal(&mut out, st.skipped as u64);
        ToolOutcome { success: true, content: string_of(out.as_slice()), error: None, meta: ToolMeta::Nothing }
    } else {
        unknown_action_outcome("未知目标操作: ", action.as_str())
    }
}

/// The goal `first_named` finds has that name and is one of the goals.
proof fn lemma_first_named_in(gs: Seq<Goal>, name: Seq<char>)
    ensures
        first_named(gs, name) matches Some(g) ==> g.name@ == name && gs.contains(g),
    decreases gs.len(),
{
    if gs.len() > 0 && gs[0].name@ != name {
        lemma_first_named_in(gs.drop_first(), name);
        if first_named(gs, name) is Some {
            let g = first_named(gs, name).unwrap();
            let k = choose|k: int| 0 <= k < gs.drop_first().len() && gs.drop_first()[k] == g;
            assert(gs[k + 1] == g);
        }
    } else if gs.len() > 0 {
        assert(gs[0] == gs[0]);
        assert(gs.contains(gs[0]));
    }
}

/// A goal among those of a status is a goal of the list.
proof fn lemma_with_status_member(gs: Seq<Goal>, s: GoalStatus, g: Goal)
    requires
        with_status(gs, s).contains(g),
    ensures
        gs.contains(g),
{
    gs.lemma_filter_contains_rev(|x: Goal| x.status == s, g);
}


/// What a context tool call asks for.
#[derive(Debug, Clone, Copy, PartialEq, Eq, Structural)]
pub enum ContextAction {
    Summary,
    Memory,
    Goals,
    Unknown,
}

/// The context action an action name names (`full` and `summary` alike).
pub open spec fn context_action_kind(s: Seq<char>) -> ContextAction {
    if s == "full"@ || s == "summary"@ {
        ContextAction::Summary
    } else if s == "memory"@ {
        ContextAction::Memory
    } else if s == "goals"@ {
        ContextAction::Goals
    } else {
        ContextAction::Unknown
    }
}

/// A context tool call cuts the memory context at a character boundary.
pub open spec fn context_call_cuts(store: MemoryStore, action: Option<String>) -> bool {
    match context_action_kind(or_text(action, "summary"@)) {
        ContextAction::Summary => prefix_bytes(memory_context_text(store), 3000) is Some,
        ContextAction::Memory => prefix_bytes(memory_context_text(store), 6000) is Some,
        _ => true,
    }
}

/// The summary of the whole project context.
pub open spec fn summary_text(store: MemoryStore, goals: Seq<Goal>) -> Seq<char> {
    crate::memory::cut_context(memory_context_text(store), 3000) + "\n\n"@ + goals_context(goals)
        + "\n\n## 进度统计\n- 目标完成: "@ + decimal(count_status(goals, GoalStatus::Completed)) + "/"@
        + decimal(goals.len()) + "\n- 记忆条目: "@ + decimal(store.entry_list().len())
}

/// Whether a context tool call cuts the memory context at a character
/// boundary (where it does not, the call is refused: slicing would panic).
pub fn context_call_cuts_exec(store: &MemoryStore, action: &Option<String>) -> (r: bool)
    requires
        store.wf(),
    ensures
        r == context_call_cuts(*store, *action),
{
    let a = text_or(action, "summary");
    let summary = str_eq(a.as_str(), "full") || str_eq(a.as_str(), "summary");
    let memory = str_eq(a.as_str(), "memory");
    if summary || memory {
        let cats = crate::memory::prompt_category_list();
        let ctx = store.assemble_context(cats.as_slice(), 20);
        !prefix_by_bytes_fails(ctx.as_str(), if summary { 3000 } else { 6000 })
    } else {
        true
    }
}

/// Runs a context tool call: `full` or `summary` (the default) give the
/// memory context (3000 bytes), the goal summary and the progress counts;
/// `memory` the memory context (6000 bytes); `goals` the goal summary; any
/// other action fails.
pub fn context_tool_run(store: &MemoryStore, tracker: &GoalTracker, action: &Option<String>) -> (r: ToolOutcome)
    requires
        store.wf(),
        context_call_cuts(*store, *action),
    ensures
        match context_action_kind(or_text(*action, "summary"@)) {
            ContextAction::Summary => r.success && r.error is None && r.meta is Nothing
                && r.content@ == summary_text(*store, tracker.goal_list()),
            ContextAction::Memory => r.success && r.error is None && r.meta is Nothing
                && r.content@ == crate::memory::cut_context(memory_context_text(*store), 6000),
            ContextAction::Goals => r.success && r.error is None && r.meta is Nothing
                && r.content@ == goals_context(tracker.goal_list()),
            ContextAction::Unknown => unknown_action(r, "未知上下文操作: "@, or_text(*action, "summary"@)),
        },
{
    let a = text_or(action, "summary");
    if str_eq(a.as_str(), "full") || str_eq(a.as_str(), "summary") {
        let memory_context = store.get_context_for_prompt(3000);
        let goal_context = tracker.get_context_for_prompt();
        let stats = tracker.get_stats();
        let mut out: Vec<char> = Vec::new();
        push_str(&mut out, memory_context.as_str());
        push_str(&mut out, "\n\n");
        push_str(&mut out, goal_context.as_str());
        push_str(&mut out, "\n\n## 进度统计\n- 目标完成: ");
        push_decimal(&mut out, stats.completed as u64);
        push_str(&mut out, "/");
        push_decimal(&mut out, stats.total as u64);
        push_str(&mut out, "\n- 记忆条目: ");
        push_decimal(&mut out, store.len() as u64);
        ToolOutcome { success: true, content: string_of(out.as_slice()), error: None, meta: ToolMeta::Nothing }
    } else if str_eq(a.as_str(), "memory") {
        let content = store.get_context_for_prompt(6000);
        ToolOutcome { success: true, content, error: None, meta: ToolMeta::Nothing }
    } else if str_eq(a.as_str(), "goals") {
        let content = tracker.get_context_for_prompt();
        ToolOutcome { success: true, content, error: None, meta: ToolMeta::Nothing }
    } else {
        unknown_action_outcome("未知上下文操作: ", a.as_str())
    }
}


/// The arguments of a file tool call, as the model gave them.
#[derive(Debug)]
pub struct FileToolArgs {
    pub action: Option<String>,
    pub path: Option<String>,
    pub content: Option<String>,
}

/// The file operation a file tool call asks for: a path below a directory.
#[derive(Debug)]
pub enum FileRequest {
    Read { dir: String, path: String },
    Write { dir: String, path: String, content: String },
    List { dir: String, path: String },
    ReadOutput { dir: String, path: String },
    Unknown { action: String },
}

impl FileTool {
    /// The operation of a file tool call: `read` (the default), `write`,
    /// `list` (of `.` by default) and `read_output` all take their path
    /// relative to the project directory, as the tool's `path` parameter
    /// says, so a file written can be read back by the same path.
    pub fn request(&self, args: &FileToolArgs) -> (r: FileRequest)
        ensures
            ({
                let a = or_text(args.action, "read"@);
                let p = or_text(args.path, ""@);
                if a == "read"@ {
                    r matches FileRequest::Read { dir, path } && dir@ == self.project_dir@ && path@ == p
                } else if a == "write"@ {
                    r matches FileRequest::Write { dir, path, content } && dir@ == self.project_dir@ && path@ == p
                        && content@ == or_text(args.content, ""@)
                } else if a == "list"@ {
                    r matches FileRequest::List { dir, path } && dir@ == self.project_dir@
                        && path@ == or_text(args.path, "."@)
                } else if a == "read_output"@ {
                    r matches FileRequest::ReadOutput { dir, path } && dir@ == self.project_dir@ && path@ == p
                } else {
                    r matches FileRequest::Unknown { action } && action@ == a
                }
            }),
    {
        let a = text_or(&args.action, "read");
        if str_eq(a.as_str(), "read") {
            FileRequest::Read { dir: self.project_dir.clone(), path: text_or(&args.path, "") }
        } else if str_eq(a.as_str(), "write") {
            FileRequest::Write {
                dir: self.project_dir.clone(),
                path: text_or(&args.path, ""),
                content: text_or(&args.content, ""),
            }
        } else if str_eq(a.as_str(), "list") {
            FileRequest::List { dir: self.project_dir.clone(), path: text_or(&args.path, ".") }
        } else if str_eq(a.as_str(), "read_output") {
            FileRequest::ReadOutput { dir: self.project_dir.clone(), path: text_or(&args.path, "") }
        } else {
            FileRequest::Unknown { action: a }
        }
    }
}

/// The answer to an unknown file operation.
pub fn file_unknown_answer(action: &str) -> (r: ToolOutcome)
    ensures
        unknown_action(r, "未知文件操作: "@, action@),
{
    unknown_action_outcome("未知文件操作: ", action)
}

/// A failed operation: no content, the error text after `prefix`.
pub open spec fn failed_with(o: ToolOutcome, prefix: Seq<char>, e: Seq<char>) -> bool {
    &&& !o.success
    &&& o.content@ == ""@
    &&& o.error matches Some(t) && t@ == prefix + e
    &&& o.meta is Nothing
}

fn failed_outcome(prefix: &str, e: &str) -> (r: ToolOutcome)
    ensures
        failed_with(r, prefix@, e@),
{
    let mut t: Vec<char> = Vec::new();
    push_str(&mut t, prefix);
    push_str(&mut t, e);
    let content = String::new();
    proof {
        reveal_strlit("");
        assert(content@ =~= ""@);
    }
    ToolOutcome { success: false, content, error: Some(string_of(t.as_slice())), meta: ToolMeta::Nothing }
}

/// A text longer than 8000 bytes cut to its first 8000 bytes, then `note`.
pub open spec fn cut_file_text(c: Seq<char>, note: Seq<char>) -> Seq<char> {
    if byte_len(c) > 8000 {
        prefix_bytes(c, 8000).unwrap() + "...\n"@ + note
    } else {
        c
    }
}

/// The answer to a file read: the content (cut to 8000 bytes, with a note
/// of its byte length) and its path and size, or the error.
pub fn file_read_answer(path: &str, result: &Result<String, String>) -> (r: ToolOutcome)
    requires
        result matches Ok(c) ==> prefix_bytes(c@, 8000) is Some,
    ensures
        match result {
            Ok(c) => {
                &&& r.success && r.error is None
                &&& r.content@ == cut_file_text(c@, "(文件已截断，共 "@ + decimal(byte_len(c@)) + " 字符)"@)
                &&& r.meta matches ToolMeta::File { path: p, size } && p@ == path@ && size == byte_len(c@)
            },
            Err(e) => failed_with(r, "读取文件失败: "@, e@),
        },
{
    match result {
        Ok(c) => {
            let size = str_byte_len(c.as_str());
            let content = if size > 8000 {
                let mut out: Vec<char> = Vec::new();
                let cut = prefix_by_bytes(c.as_str(), 8000);
                push_str(&mut out, cut.as_str());
                push_str(&mut out, "...\n");
                push_str(&mut out, "(文件已截断，共 ");
                push_decimal(&mut out, size as u64);
                push_str(&mut out, " 字符)");
                string_of(out.as_slice())
            } else {
                c.clone()
            };
            ToolOutcome {
                success: true,
                content,
                error: None,
                meta: ToolMeta::File { path: String::from_str(path), size },
            }
        },
        Err(e) => failed_outcome("读取文件失败: ", e.as_str()),
    }
}

/// The answer to a read of an output file: the content (cut to 8000
/// bytes), or the error.
pub fn file_read_output_answer(result: &Result<String, String>) -> (r: ToolOutcome)
    requires
        result matches Ok(c) ==> prefix_bytes(c@, 8000) is Some,
    ensures
        match result {
            Ok(c) => r.success && r.error is None && r.meta is Nothing
                && r.content@ == cut_file_text(c@, "(文件已截断)"@),
            Err(e) => failed_with(r, "读取输出文件失败: "@, e@),
        },
{
    match result {
        Ok(c) => {
            let size = str_byte_len(c.as_str());
            let content = if size > 8000 {
                let mut out: Vec<char> = Vec::new();
                let cut = prefix_by_bytes(c.as_str(), 8000);
                push_str(&mut out, cut.as_str());
                push_str(&mut out, "...\n");
                push_str(&mut out, "(文件已截断)");
                string_of(out.as_slice())
            } else {
                c.clone()
            };
            ToolOutcome { success: true, content, error: None, meta: ToolMeta::Nothing }
        },
        Err(e) => failed_outcome("读取输出文件失败: ", e.as_str()),
    }
}

/// The answer to a file write: the path and the byte size written, or the
/// error.
pub fn file_write_answer(path: &str, content: &str, result: &Result<(), String>) -> (r: ToolOutcome)
    ensures
        match result {
            Ok(_) => {
                &&& r.success && r.error is None
                &&& r.content@ == "文件已写入: "@ + path@
                &&& r.meta matches ToolMeta::File { path: p, size } && p@ == path@ && size == byte_len(content@)
            },
            Err(e) => failed_with(r, "写入文件失败: "@, e@),
        },
{
    match result {
        Ok(_) => {
            let mut out: Vec<char> = Vec::new();
            push_str(&mut out, "文件已写入: ");
            push_str(&mut out, path);
            let size = str_byte_len(content);
            ToolOutcome {
                success: true,
                content: string_of(out.as_slice()),
                error: None,
                meta: ToolMeta::File { path: String::from_str(path), size },
            }
        },
        Err(e) => failed_outcome("写入文件失败: ", e.as_str()),
    }
}

/// The listing line of a directory entry: its name, with `/` after a
/// directory.
pub open spec fn dir_entry_line(e: (String, bool)) -> Seq<char> {
    e.0@ + if e.1 { "/"@ } else { seq![] }
}

/// The answer to a directory listing: one line per entry, or a note that
/// the directory is empty; and the number of entries.
pub fn file_list_answer(entries: &Vec<(String, bool)>) -> (r: ToolOutcome)
    ensures
        r.success && r.error is None,
        r.meta == ToolMeta::Count(entries.len()),
        r.content@ == if entries.len() == 0 {
            "目录为空"@
        } else {
            join_sep(entries@.map_values(|e: (String, bool)| dir_entry_line(e)), "\n"@)
        },
{
    let ghost ls = entries@.map_values(|e: (String, bool)| dir_entry_line(e));
    let mut out: Vec<char> = Vec::new();
    if entries.len() == 0 {
        push_str(&mut out, "目录为空");
    } else {
        let mut k: usize = 0;
        proof {
            assert(ls.take(0) =~= Seq::<Seq<char>>::empty());
        }
        while k < entries.len()
            invariant
                k <= entries.len(),
                ls == entries@.map_values(|e: (String, bool)| dir_entry_line(e)),
                out@ == join_sep(ls.take(k as int), "\n"@),
            decreases entries.len() - k,
        {
            if k > 0 {
                push_str(&mut out, "\n");
            }
            let ghost o1 = out@;
            push_str(&mut out, entries[k].0.as_str());
            if entries[k].1 {
                push_str(&mut out, "/");
            }
            proof {
                assert(out@ =~= o1 + dir_entry_line(entries@[k as int]));
                assert(ls.take(k + 1).drop_last() =~= ls.take(k as int));
                if k == 0 {
                    assert(out@ =~= join_sep(ls.take(1), "\n"@));
                } else {
                    assert(out@ =~= join_sep(ls.take(k + 1), "\n"@));
                }
            }
            k += 1;
        }
        proof {
            assert(ls.take(entries.len() as int) =~= ls);
        }
    }
    ToolOutcome { success: true, content: string_of(out.as_slice()), error: None, meta: ToolMeta::Count(entries.len()) }
}

/// The arguments of a git tool call, as the model gave them.
#[derive(Debug)]
pub struct GitToolArgs {
    pub action: Option<String>,
    pub message: Option<String>,
    pub scope: Option<String>,
}

/// The git commands a git tool call asks for.
#[derive(Debug)]
pub enum GitToolRequest {
    Commit { add_args: Vec<String>, commit_args: Vec<String>, scope: String },
    Status,
    Push,
    Log,
    Unknown { action: String },
}

/// The arguments of `git add` for a commit scope: the outputs, the code,
/// or everything.
pub open spec fn tool_add_args(scope: Seq<char>) -> Seq<Seq<char>> {
    if scope == "script"@ {
        seq!["add"@, "output/"@]
    } else if scope == "code"@ {
        seq!["add"@, "src/"@, "Cargo.toml"@, "config.toml"@, "skills/"@]
    } else {
        seq!["add"@, "-A"@]
    }
}

impl GitTool {
    /// The commit message with the tool's prefix.
    pub open spec fn full_message(&self, message: Seq<char>) -> Seq<char> {
        self.commit_prefix@ + " "@ + message
    }

    /// The commands of a git tool call: `commit` (message `auto commit`,
    /// scope `all` by default) adds the scope's files and commits with the
    /// prefixed message; `status` (the default), `push` and `log` run one
    /// command each.
    pub fn request(&self, args: &GitToolArgs) -> (r: GitToolRequest)
        ensures
            ({
                let a = or_text(args.action, "status"@);
                if a == "commit"@ {
                    let scope = or_text(args.scope, "all"@);
                    r matches GitToolRequest::Commit { add_args, commit_args, scope: s } && {
                        &&& s@ == scope
                        &&& add_args@.map_values(|t: String| t@) == tool_add_args(scope)
                        &&& commit_args@.map_values(|t: String| t@)
                            == seq!["commit"@, "-m"@, self.full_message(or_text(args.message, "auto commit"@))]
                    }
                } else if a == "status"@ {
                    r is Status
                } else if a == "push"@ {
                    r is Push
                } else if a == "log"@ {
                    r is Log
                } else {
                    r matches GitToolRequest::Unknown { action } && action@ == a
                }
            }),
    {
        let a = text_or(&args.action, "status");
        if str_eq(a.as_str(), "commit") {
            let message = text_or(&args.message, "auto commit");
            let scope = text_or(&args.scope, "all");
            let mut full: Vec<char> = Vec::new();
            push_str(&mut full, self.commit_prefix.as_str());
            push_str(&mut full, " ");
            push_str(&mut full, message.as_str());
            let full = string_of(full.as_slice());
            proof {
                assert(full@ =~= self.full_message(message@));
            }
            let add = if str_eq(scope.as_str(), "script") {
                vec!["add", "output/"]
            } else if str_eq(scope.as_str(), "code") {
                vec!["add", "src/", "Cargo.toml", "config.toml", "skills/"]
            } else {
                vec!["add", "-A"]
            };
            let add_args = owned_strings(&add);
            let head = vec!["commit", "-m"];
            let mut commit_args: Vec<String> = owned_strings(&head);
            let ghost c0 = commit_args@;
            commit_args.push(full);
            proof {
                assert(add@.map_values(|t: &str| t@) =~= tool_add_args(scope@));
                assert(commit_args@.map_values(|t: String| t@)
                    =~= c0.map_values(|t: String| t@).push(self.full_message(message@)));
                assert(head@.map_values(|t: &str| t@) =~= seq!["commit"@, "-m"@]);
            }
            GitToolRequest::Commit { add_args, commit_args, scope }
        } else if str_eq(a.as_str(), "status") {
            GitToolRequest::Status
        } else if str_eq(a.as_str(), "push") {
            GitToolRequest::Push
        } else if str_eq(a.as_str(), "log") {
            GitToolRequest::Log
        } else {
            GitToolRequest::Unknown { action: a }
        }
    }
}

/// The answer when `git add` fails.
pub fn git_add_failed_answer() -> (r: ToolOutcome)
    ensures
        failed_with(r, "git add 失败"@, ""@),
{
    proof {
        reveal_strlit("");
        assert("git add 失败"@ + ""@ =~= "git add 失败"@);
    }
    failed_outcome("git add 失败", "")
}

/// The answer to a commit: the prefixed message when it succeeded, else
/// the error output; and the scope.
pub fn git_commit_answer(full_message: &str, scope: &str, success: bool, stderr: &str) -> (r: ToolOutcome)
    ensures
        r.success == success,
        r.content@ == if success { "提交成功: "@ + full_message@ } else { "提交结果: "@ + stderr@ },
        success ==> r.error is None,
        !success ==> (r.error matches Some(e) && e@ == stderr@),
        r.meta matches ToolMeta::Scope(s) && s@ == scope@,
{
    let mut out: Vec<char> = Vec::new();
    if success {
        push_str(&mut out, "提交成功: ");
        push_str(&mut out, full_message);
    } else {
        push_str(&mut out, "提交结果: ");
        push_str(&mut out, stderr);
    }
    ToolOutcome {
        success,
        content: string_of(out.as_slice()),
        error: if success { None } else { Some(String::from_str(stderr)) },
        meta: ToolMeta::Scope(String::from_str(scope)),
    }
}

/// The answer to `git status --short`: the status, or a note that the
/// working tree is clean when it is only whitespace.
pub fn git_status_answer(status: &str) -> (r: ToolOutcome)
    ensures
        r.success && r.error is None && r.meta is Nothing,
        r.content@ == if trim(status@).len() == 0 { "工作目录干净"@ } else { status@ },
{
    let cs = chars_of(status);
    let t = trim_chars(cs.as_slice());
    let content = if t.len() == 0 { String::from_str("工作目录干净") } else { String::from_str(status) };
    ToolOutcome { success: true, content, error: None, meta: ToolMeta::Nothing }
}

/// The answer to `git push`: both outputs, and the error output when it
/// failed.
pub fn git_push_answer(success: bool, stdout: &str, stderr: &str) -> (r: ToolOutcome)
    ensures
        r.success == success && r.meta is Nothing,
        r.content@ == stdout@ + stderr@,
        success ==> r.error is None,
        !success ==> (r.error matches Some(e) && e@ == stderr@),
{
    let mut out: Vec<char> = Vec::new();
    push_str(&mut out, stdout);
    push_str(&mut out, stderr);
    ToolOutcome {
        success,
        content: string_of(out.as_slice()),
        error: if success { None } else { Some(String::from_str(stderr)) },
        meta: ToolMeta::Nothing,
    }
}

/// The answer to `git log --oneline -10`: the log, or a note that there is
/// no commit when it is only whitespace.
pub fn git_log_answer(log: &str) -> (r: ToolOutcome)
    ensures
        r.success && r.error is None && r.meta is Nothing,
        r.content@ == if trim(log@).len() == 0 { "无提交记录"@ } else { log@ },
{
    let cs = chars_of(log);
    let t = trim_chars(cs.as_slice());
    let content = if t.len() == 0 { String::from_str("无提交记录") } else { String::from_str(log) };
    ToolOutcome { success: true, content, error: None, meta: ToolMeta::Nothing }
}

/// The answer to an unknown git operation.
pub fn git_unknown_answer(action: &str) -> (r: ToolOutcome)
    ensures
        unknown_action(r, "未知 git 操作: "@, action@),
{
    unknown_action_outcome("未知 git 操作: ", action)
}


/// What `serde_json::from_str::<serde_json::Value>` gives for a text.
pub uninterp spec fn json_value_of_text(text: Seq<char>) -> Option<serde_json::Value>;

/// Calls `serde_json::from_str::<serde_json::Value>`: the JSON value a text
/// holds, if it is JSON; the result is named, not described.
#[verifier::external_body]
fn json_from_text(text: &str) -> (r: Option<serde_json::Value>)
    ensures
        r == json_value_of_text(text@),
{
    serde_json::from_str::<serde_json::Value>(text).ok()
}

/// A parameter as plain values: name, type, description, whether required.
pub open spec fn param_view(p: ToolParam) -> (Seq<char>, Seq<char>, Seq<char>, bool) {
    (p.name@, p.param_type@, p.description@, p.required)
}

pub open spec fn params_view(ps: Seq<ToolParam>) -> Seq<(Seq<char>, Seq<char>, Seq<char>, bool)> {
    ps.map_values(|p: ToolParam| param_view(p))
}

fn param(name: &str, kind: &str, description: &str, required: bool, default: Option<serde_json::Value>) -> (r: ToolParam)
    ensures
        param_view(r) == (name@, kind@, description@, required),
        r.default == default,
{
    ToolParam {
        name: String::from_str(name),
        param_type: String::from_str(kind),
        description: String::from_str(description),
        required,
        default,
    }
}

/// The memory tool as the model sees it.
pub fn memory_tool_definition() -> (r: ToolDefinition)
    ensures
        r.name@ == "memory"@,
        r.description@ == "保存、检索和搜索项目记忆。支持按分类保存和按关键词搜索。"@,
        params_view(r.parameters@) == seq![
            ("action"@, "string"@, "操作类型: save(保存), search(搜索), get_category(按分类获取), get_context(获取上下文摘要)"@, true),
            ("category"@, "string"@, "分类: world_building, character, plot, decision, quality_report, issue, preference, general"@, false),
            ("title"@, "string"@, "记忆标题"@, false),
            ("content"@, "string"@, "记忆内容"@, false),
            ("tags"@, "string"@, "标签(逗号分隔)"@, false),
            ("query"@, "string"@, "搜索关键词"@, false),
            ("importance"@, "number"@, "重要程度 0.0-1.0"@, false),
        ],
        forall|k: int| 0 <= k < 6 ==> (#[trigger] r.parameters@[k]).default is None,
        r.parameters@[6].default == json_value_of_text("0.5"@),
{
    let mut ps: Vec<ToolParam> = Vec::new();
    ps.push(param("action", "string", "操作类型: save(保存), search(搜索), get_category(按分类获取), get_context(获取上下文摘要)", true, None));
    ps.push(param("category", "string", "分类: world_building, character, plot, decision, quality_report, issue, preference, general", false, None));
    ps.push(param("title", "string", "记忆标题", false, None));
    ps.push(param("content", "string", "记忆内容", false, None));
    ps.push(param("tags", "string", "标签(逗号分隔)", false, None));
    ps.push(param("query", "string", "搜索关键词", false, None));
    ps.push(param("importance", "number", "重要程度 0.0-1.0", false, json_from_text("0.5")));
    proof {
        assert(params_view(ps@) =~= seq![
            ("action"@, "string"@, "操作类型: save(保存), search(搜索), get_category(按分类获取), get_context(获取上下文摘要)"@, true),
            ("category"@, "string"@, "分类: world_building, character, plot, decision, quality_report, issue, preference, general"@, false),
            ("title"@, "string"@, "记忆标题"@, false),
            ("content"@, "string"@, "记忆内容"@, false),
            ("tags"@, "string"@, "标签(逗号分隔)"@, false),
            ("query"@, "string"@, "搜索关键词"@, false),
            ("importance"@, "number"@, "重要程度 0.0-1.0"@, false),
        ]);
    }
    ToolDefinition {
        name: String::from_str("memory"),
        description: String::from_str("保存、检索和搜索项目记忆。支持按分类保存和按关键词搜索。"),
        parameters: ps,
    }
}

/// The file tool as the model sees it.
pub fn file_tool_definition() -> (r: ToolDefinition)
    ensures
        r.name@ == "file"@,
        r.description@ == "文件操作工具。支持读取、写入、列出文件和目录。"@,
        params_view(r.parameters@) == seq![
            ("action"@, "string"@, "操作: read(读取), write(写入), list(列出目录), read_output(读取输出文件)"@, true),
            ("path"@, "string"@, "文件路径(相对于项目目录)"@, false),
            ("content"@, "string"@, "写入内容"@, false),
        ],
        forall|k: int| 0 <= k < 3 ==> (#[trigger] r.parameters@[k]).default is None,
{
    let mut ps: Vec<ToolParam> = Vec::new();
    ps.push(param("action", "string", "操作: read(读取), write(写入), list(列出目录), read_output(读取输出文件)", true, None));
    ps.push(param("path", "string", "文件路径(相对于项目目录)", false, None));
    ps.push(param("content", "string", "写入内容", false, None));
    proof {
        assert(params_view(ps@) =~= seq![
            ("action"@, "string"@, "操作: read(读取), write(写入), list(列出目录), read_output(读取输出文件)"@, true),
            ("path"@, "string"@, "文件路径(相对于项目目录)"@, false),
            ("content"@, "string"@, "写入内容"@, false),
        ]);
    }
    ToolDefinition {
        name: String::from_str("file"),
        description: String::from_str("文件操作工具。支持读取、写入、列出文件和目录。"),
        parameters: ps,
    }
}

/// The goal tool as the model sees it.
pub fn goal_tool_definition() -> (r: ToolDefinition)
    ensures
        r.name@ == "goal"@,
        r.description@ == "目标管理工具。创建、查看和更新创作目标。"@,
        params_view(r.parameters@) == seq![
            ("action"@, "string"@, "操作: create(创建), list(列出), evaluate(评估), stats(统计)"@, true),
            ("name"@, "string"@, "目标名称"@, false),
            ("description"@, "string"@, "目标描述"@, false),
            ("goal_type"@, "string"@, "目标类型: script_creation, quality_target, code_improvement, stage_complete"@, false),
            ("priority"@, "number"@, "优先级 1-10"@, false),
            ("criteria"@, "string"@, "完成标准描述"@, false),
            ("score"@, "number"@, "评估分数"@, false),
            ("passed"@, "boolean"@, "是否达标"@, false),
            ("feedback"@, "string"@, "评估反馈"@, false),
        ],
        forall|k: int| 0 <= k < 9 && k != 4 ==> (#[trigger] r.parameters@[k]).default is None,
        r.parameters@[4].default == json_value_of_text("5"@),
{
    let mut ps: Vec<ToolParam> = Vec::new();
    ps.push(param("action", "string", "操作: create(创建), list(列出), evaluate(评估), stats(统计)", true, None));
    ps.push(param("name", "string", "目标名称", false, None));
    ps.push(param("description", "string", "目标描述", false, None));
    ps.push(param("goal_type", "string", "目标类型: script_creation, quality_target, code_improvement, stage_complete", false, None));
    ps.push(param("priority", "number", "优先级 1-10", false, json_from_text("5")));
    ps.push(param("criteria", "string", "完成标准描述", false, None));
    ps.push(param("score", "number", "评估分数", false, None));
    ps.push(param("passed", "boolean", "是否达标", false, None));
    ps.push(param("feedback", "string", "评估反馈", false, None));
    proof {
        assert(params_view(ps@) =~= seq![
            ("action"@, "string"@, "操作: create(创建), list(列出), evaluate(评估), stats(统计)"@, true),
            ("name"@, "string"@, "目标名称"@, false),
            ("description"@, "string"@, "目标描述"@, false),
            ("goal_type"@, "string"@, "目标类型: script_creation, quality_target, code_improvement, stage_complete"@, false),
            ("priority"@, "number"@, "优先级 1-10"@, false),
            ("criteria"@, "string"@, "完成标准描述"@, false),
            ("score"@, "number"@, "评估分数"@, false),
            ("passed"@, "boolean"@, "是否达标"@, false),
            ("feedback"@, "string"@, "评估反馈"@, false),
        ]);
    }
    ToolDefinition {
        name: String::from_str("goal"),
        description: String::from_str("目标管理工具。创建、查看和更新创作目标。"),
        parameters: ps,
    }
}

/// The git tool as the model sees it.
pub fn git_tool_definition() -> (r: ToolDefinition)
    ensures
        r.name@ == "git"@,
        r.description@ == "Git 操作工具。提交变更、查看状态、推送到远程。"@,
        params_view(r.parameters@) == seq![
            ("action"@, "string"@, "操作: commit(提交), status(状态), push(推送), log(日志)"@, true),
            ("message"@, "string"@, "提交信息"@, false),
            ("scope"@, "string"@, "提交范围: script(仅剧本), code(仅代码), all(全部)"@, false),
        ],
        r.parameters@[0].default is None,
        r.parameters@[1].default is None,
        r.parameters@[2].default == json_value_of_text("\"all\""@),
{
    let mut ps: Vec<ToolParam> = Vec::new();
    ps.push(param("action", "string", "操作: commit(提交), status(状态), push(推送), log(日志)", true, None));
    ps.push(param("message", "string", "提交信息", false, None));
    ps.push(param("scope", "string", "提交范围: script(仅剧本), code(仅代码), all(全部)", false, json_from_text("\"all\"")));
    proof {
        assert(params_view(ps@) =~= seq![
            ("action"@, "string"@, "操作: commit(提交), status(状态), push(推送), log(日志)"@, true),
            ("message"@, "string"@, "提交信息"@, false),
            ("scope"@, "string"@, "提交范围: script(仅剧本), code(仅代码), all(全部)"@, false),
        ]);
    }
    ToolDefinition {
        name: String::from_str("git"),
        description: String::from_str("Git 操作工具。提交变更、查看状态、推送到远程。"),
        parameters: ps,
    }
}

/// The context tool as the model sees it.
pub fn context_tool_definition() -> (r: ToolDefinition)
    ensures
        r.name@ == "context"@,
        r.description@ == "上下文工具。获取当前项目的完整上下文信息，包括记忆、目标和进度。"@,
        params_view(r.parameters@) == seq![
            ("action"@, "string"@, "操作: full(完整上下文), memory(仅记忆), goals(仅目标), summary(摘要)"@, true),
        ],
        r.parameters@[0].default is None,
{
    let mut ps: Vec<ToolParam> = Vec::new();
    ps.push(param("action", "string", "操作: full(完整上下文), memory(仅记忆), goals(仅目标), summary(摘要)", true, None));
    proof {
        assert(params_view(ps@) =~= seq![
            ("action"@, "string"@, "操作: full(完整上下文), memory(仅记忆), goals(仅目标), summary(摘要)"@, true),
        ]);
    }
    ToolDefinition {
        name: String::from_str("context"),
        description: String::from_str("上下文工具。获取当前项目的完整上下文信息，包括记忆、目标和进度。"),
        parameters: ps,
    }
}

/// The leading part of a model name, before its first `:` (the tag).
pub open spec fn model_family(model: Seq<char>) -> Seq<char> {
    match crate::text::index_of(model, ':') {
        Some(i) => model.take(i),
        None => model,
    }
}

/// Whether some listed model starts with the family of `model`.
pub fn model_listed(models: &Vec<String>, model: &str) -> (r: bool)
    ensures
        r == exists|k: int| 0 <= k < models@.len() && crate::text::starts_with(#[trigger] models@[k]@, model_family(model@)),
{
    let m = chars_of(model);
    let family = match crate::text::index_of_exec(m.as_slice(), ':') {
        Some(i) => {
            proof {
                crate::text::lemma_index_of_facts(m@, ':');
            }
            crate::text::slice_to(m.as_slice(), i)
        },
        None => m.clone(),
    };
    let mut k: usize = 0;
    while k < models.len()
        invariant
            k <= models.len(),
            family@ == model_family(model@),
            forall|j: int| 0 <= j < k ==> !crate::text::starts_with(#[trigger] models@[j]@, model_family(model@)),
        decreases models.len() - k,
    {
        let name = chars_of(models[k].as_str());
        if crate::text::starts_with_exec(name.as_slice(), family.as_slice()) {
            return true;
        }
        k += 1;
    }
    false
}

} // verus!
