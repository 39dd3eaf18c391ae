//! Messages, the conversation memory of an agent, its context, and the
//! decisions of the tool-calling loop.
use vstd::prelude::*;
use vstd::string::StringExecFns;

use crate::agent::copy_string;
use crate::stamp::now_seconds;
use crate::text::{chars_of, extend_chars, push_str, slice_to, str_eq, string_of};

verus! {

/// A JSON value, carried through unread.
#[verifier::external_type_specification]
#[verifier::external_body]
pub struct ExJsonValue(serde_json::Value);

/// `<serde_json::Value as Clone>::clone` (derived): the copy equals its source.
pub assume_specification[ <serde_json::Value as Clone>::clone ](v: &serde_json::Value) -> (r: serde_json::Value)
    ensures
        r == *v,
;

/// A parameter of a tool.
#[derive(Debug, Clone)]
pub struct ToolParam {
    pub name: String,
    pub param_type: String,
    pub description: String,
    pub required: bool,
    pub default: Option<serde_json::Value>,
}

/// What a tool offers to the model.
#[derive(Debug, Clone)]
pub struct ToolDefinition {
    pub name: String,
    pub description: String,
    pub parameters: Vec<ToolParam>,
}

/// What a tool returned.
#[derive(Debug, Clone)]
pub struct ToolResult {
    pub success: bool,
    pub content: String,
    pub metadata: Option<serde_json::Value>,
    pub error: Option<String>,
}

/// The function a tool call names, with its arguments.
#[derive(Debug, Clone)]
pub struct FunctionCall {
    pub name: String,
    pub arguments: serde_json::Value,
}

/// A tool call requested by the model.
#[derive(Debug, Clone)]
pub struct ToolCall {
    pub id: String,
    pub call_type: String,
    pub function: FunctionCall,
}

/// A chat message.
#[derive(Debug, Clone)]
pub struct Message {
    pub role: String,
    pub content: String,
    pub name: Option<String>,
    pub tool_calls: Option<Vec<ToolCall>>,
}

/// One remembered turn.
#[derive(Debug, Clone)]
pub struct MemoryEntry {
    pub timestamp: i64,
    pub role: String,
    pub content: String,
    pub skill_name: Option<String>,
    pub stage: Option<String>,
    pub metadata: Vec<(String, serde_json::Value)>,
}

/// The text of an optional string.
pub open spec fn opt_view(o: Option<String>) -> Option<Seq<char>> {
    match o {
        Some(s) => Some(s@),
        None => None,
    }
}

/// The entries whose stage is `stage`.
pub open spec fn with_stage(es: Seq<MemoryEntry>, stage: Seq<char>) -> Seq<MemoryEntry> {
    es.filter(|e: MemoryEntry| opt_view(e.stage) == Some(stage))
}

/// The entries whose skill is `skill`.
pub open spec fn with_skill(es: Seq<MemoryEntry>, skill: Seq<char>) -> Seq<MemoryEntry> {
    es.filter(|e: MemoryEntry| opt_view(e.skill_name) == Some(skill))
}

/// A bounded conversation memory: adding beyond the bound forgets the
/// oldest entry.
#[derive(Debug, Clone)]
pub struct Memory {
    entries: Vec<MemoryEntry>,
    max_entries: usize,
}

/// Does `o` hold the text `s`?
pub fn opt_is(o: &Option<String>, s: &str) -> (r: bool)
    ensures
        r == (opt_view(*o) == Some(s@)),
{
    match o {
        Some(x) => str_eq(x.as_str(), s),
        None => false,
    }
}

impl Memory {
    /// The remembered entries, oldest first.
    pub closed spec fn entries(&self) -> Seq<MemoryEntry> {
        self.entries@
    }

    /// How many entries are kept.
    pub closed spec fn capacity(&self) -> nat {
        self.max_entries as nat
    }

    /// The memory holds no more entries than its bound.
    pub open spec fn wf(&self) -> bool {
        self.entries().len() <= self.capacity()
    }

    pub fn new(max_entries: usize) -> (r: Memory)
        ensures
            r.wf(),
            r.entries().len() == 0,
            r.capacity() == max_entries,
    {
        Memory { entries: Vec::new(), max_entries }
    }

    /// Adds an entry, forgetting the oldest one when the bound is passed.
    pub fn add(&mut self, entry: MemoryEntry)
        ensures
            final(self).capacity() == old(self).capacity(),
            final(self).entries() == if old(self).entries().len() + 1 > old(self).capacity() {
                old(self).entries().push(entry).drop_first()
            } else {
                old(self).entries().push(entry)
            },
    {
        self.entries.push(entry);
        if self.entries.len() > self.max_entries {
            let _ = self.entries.remove(0);
            proof {
                assert(self.entries@ =~= old(self).entries@.push(entry).drop_first());
            }
        }
    }

    /// The `count` newest entries, newest first.
    pub fn recent(&self, count: usize) -> (r: Vec<&MemoryEntry>)
        ensures
            r@.len() == if count < self.entries().len() { count as nat } else { self.entries().len() },
            forall|k: int| 0 <= k < r@.len() ==> *r@[k] == self.entries()[self.entries().len() - 1 - k],
    {
        let n = self.entries.len();
        let m = if count < n { count } else { n };
        let mut r: Vec<&MemoryEntry> = Vec::new();
        let mut k: usize = 0;
        while k < m
            invariant
                k <= m,
                m <= n,
                n == self.entries.len(),
                r@.len() == k,
                forall|j: int| 0 <= j < k ==> *r@[j] == self.entries@[n - 1 - j],
            decreases m - k,
        {
            r.push(&self.entries[n - 1 - k]);
            k += 1;
        }
        r
    }

    /// The entries of stage `stage`, oldest first.
    pub fn get_by_stage(&self, stage: &str) -> (r: Vec<&MemoryEntry>)
        ensures
            r@.map_values(|e: &MemoryEntry| *e) == with_stage(self.entries(), stage@),
    {
        let ghost pred = |e: MemoryEntry| opt_view(e.stage) == Some(stage@);
        let mut r: Vec<&MemoryEntry> = Vec::new();
        let mut i: usize = 0;
        proof {
            assert(self.entries@.take(0).filter(pred) =~= Seq::<MemoryEntry>::empty());
            assert(r@.map_values(|e: &MemoryEntry| *e) =~= Seq::<MemoryEntry>::empty());
        }
        while i < self.entries.len()
            invariant
                i <= self.entries.len(),
                pred == (|e: MemoryEntry| opt_view(e.stage) == Some(stage@)),
                r@.map_values(|e: &MemoryEntry| *e) == self.entries@.take(i as int).filter(pred),
            decreases self.entries.len() - i,
        {
            let ghost r0 = r@;
            proof {
                reveal_with_fuel(Seq::<_>::filter, 1);
                assert(self.entries@.take(i + 1).drop_last() =~= self.entries@.take(i as int));
            }
            if opt_is(&self.entries[i].stage, stage) {
                r.push(&self.entries[i]);
                proof {
                    assert(r@.map_values(|e: &MemoryEntry| *e) =~= r0.map_values(|e: &MemoryEntry| *e).push(self.entries@[i as int]));
                }
            }
            i += 1;
        }
        proof {
            assert(self.entries@.take(self.entries.len() as int) =~= self.entries@);
        }
        r
    }

    /// The entries of skill `skill_name`, oldest first.
    pub fn get_by_skill(&self, skill_name: &str) -> (r: Vec<&MemoryEntry>)
        ensures
            r@.map_values(|e: &MemoryEntry| *e) == with_skill(self.entries(), skill_name@),
    {
        let ghost pred = |e: MemoryEntry| opt_view(e.skill_name) == Some(skill_name@);
        let mut r: Vec<&MemoryEntry> = Vec::new();
        let mut i: usize = 0;
        proof {
            assert(self.entries@.take(0).filter(pred) =~= Seq::<MemoryEntry>::empty());
            assert(r@.map_values(|e: &MemoryEntry| *e) =~= Seq::<MemoryEntry>::empty());
        }
        while i < self.entries.len()
            invariant
                i <= self.entries.len(),
                pred == (|e: MemoryEntry| opt_view(e.skill_name) == Some(skill_name@)),
                r@.map_values(|e: &MemoryEntry| *e) == self.entries@.take(i as int).filter(pred),
            decreases self.entries.len() - i,
        {
            let ghost r0 = r@;
            proof {
                reveal_with_fuel(Seq::<_>::filter, 1);
                assert(self.entries@.take(i + 1).drop_last() =~= self.entries@.take(i as int));
            }
            if opt_is(&self.entries[i].skill_name, skill_name) {
                r.push(&self.entries[i]);
                proof {
                    assert(r@.map_values(|e: &MemoryEntry| *e) =~= r0.map_values(|e: &MemoryEntry| *e).push(self.entries@[i as int]));
                }
            }
            i += 1;
        }
        proof {
            assert(self.entries@.take(self.entries.len() as int) =~= self.entries@);
        }
        r
    }

    /// Forgets every entry.
    pub fn clear(&mut self)
        ensures
            final(self).entries().len() == 0,
            final(self).capacity() == old(self).capacity(),
    {
        self.entries.clear();
    }
}


/// At most the first `n` characters of `s`.
pub open spec fn first_chars(s: Seq<char>, n: nat) -> Seq<char> {
    if s.len() <= n {
        s
    } else {
        s.take(n as int)
    }
}

/// One history line for each of the `k` newest entries, newest first.
pub open spec fn newest_lines(es: Seq<MemoryEntry>, k: nat) -> Seq<char>
    decreases k,
{
    if k == 0 || es.len() == 0 {
        seq![]
    } else {
        "- "@ + first_chars(es.last().content@, 200) + "\n"@ + newest_lines(es.drop_last(), (k - 1) as nat)
    }
}

/// The history block for a stage: its five newest entries.
pub open spec fn stage_block(es: Seq<MemoryEntry>, stage: Seq<char>) -> Seq<char> {
    let h = with_stage(es, stage);
    if h.len() > 0 {
        "### "@ + stage + " 阶段历史\n"@ + newest_lines(h, 5) + "\n"@
    } else {
        seq![]
    }
}

/// The history block for a skill: its three newest entries.
pub open spec fn skill_block(es: Seq<MemoryEntry>, skill: Seq<char>) -> Seq<char> {
    let h = with_skill(es, skill);
    if h.len() > 0 {
        "### "@ + skill + " Skill 历史\n"@ + newest_lines(h, 3)
    } else {
        seq![]
    }
}

/// The context text of the history for the current skill and stage.
pub open spec fn injected_context(es: Seq<MemoryEntry>, skill: Seq<char>, stage: Seq<char>) -> Seq<char> {
    "## 历史上下文\n\n"@ + stage_block(es, stage) + skill_block(es, skill)
}

/// Appends at most the first `n` characters of `s`.
fn push_first_chars(out: &mut Vec<char>, s: &str, n: usize)
    ensures
        final(out)@ == old(out)@ + first_chars(s@, n as nat),
{
    let v = chars_of(s);
    if v.len() <= n {
        extend_chars(out, v.as_slice());
    } else {
        let t = slice_to(v.as_slice(), n);
        extend_chars(out, t.as_slice());
    }
}

/// Appends the history lines of the `k` newest of the entries.
fn push_newest_lines(out: &mut Vec<char>, es: &Vec<&MemoryEntry>, k: usize)
    ensures
        final(out)@ == old(out)@ + newest_lines(es@.map_values(|e: &MemoryEntry| *e), k as nat),
{
    let ghost all = es@.map_values(|e: &MemoryEntry| *e);
    let n = es.len();
    let m = if k < n { k } else { n };
    let mut j: usize = 0;
    proof {
        assert(all.take(n as int) =~= all);
    }
    while j < m
        invariant
            j <= m,
            m <= n,
            m <= k,
            n == es.len(),
            all == es@.map_values(|e: &MemoryEntry| *e),
            out@ + newest_lines(all.take(n - j), (k - j) as nat)
                == old(out)@ + newest_lines(all, k as nat),
        decreases m - j,
    {
        let ghost o0 = out@;
        push_str(out, "- ");
        push_first_chars(out, es[n - 1 - j].content.as_str(), 200);
        push_str(out, "\n");
        proof {
            let pre = all.take(n - j);
            assert(pre.last() == all[n - 1 - j]);
            assert(pre.drop_last() =~= all.take(n - j - 1));
            assert(newest_lines(pre, (k - j) as nat) == "- "@ + first_chars(pre.last().content@, 200) + "\n"@ + newest_lines(pre.drop_last(), (k - j - 1) as nat));
            assert(out@ =~= o0 + "- "@ + first_chars(all[n - 1 - j].content@, 200) + "\n"@);
        }
        j += 1;
    }
    proof {
        assert(all.take(n as int) =~= all);
        if m == n {
            assert(all.take(n - m).len() == 0);
        }
        assert(newest_lines(all.take(n - m), (k - m) as nat) =~= Seq::<char>::empty());
    }
}

impl Memory {
    /// The history context for the current skill and stage: the five newest
    /// entries of the stage and the three newest of the skill, each cut to
    /// 200 characters.
    pub fn inject_context(&self, current_skill: &str, current_stage: &str) -> (r: String)
        ensures
            r@ == injected_context(self.entries(), current_skill@, current_stage@),
    {
        let mut out: Vec<char> = Vec::new();
        push_str(&mut out, "## 历史上下文\n\n");
        let stage_history = self.get_by_stage(current_stage);
        if stage_history.len() > 0 {
            push_str(&mut out, "### ");
            push_str(&mut out, current_stage);
            push_str(&mut out, " 阶段历史\n");
            push_newest_lines(&mut out, &stage_history, 5);
            push_str(&mut out, "\n");
        }
        let ghost o1 = out@;
        proof {
            assert(o1 =~= "## 历史上下文\n\n"@ + stage_block(self.entries(), current_stage@));
        }
        let skill_history = self.get_by_skill(current_skill);
        if skill_history.len() > 0 {
            push_str(&mut out, "### ");
            push_str(&mut out, current_skill);
            push_str(&mut out, " Skill 历史\n");
            push_newest_lines(&mut out, &skill_history, 3);
        }
        proof {
            assert(out@ =~= o1 + skill_block(self.entries(), current_skill@));
        }
        string_of(out.as_slice())
    }

    /// The entries as chat messages: role, content, and the skill as name.
    pub fn to_messages(&self) -> (r: Vec<Message>)
        ensures
            r@.len() == self.entries().len(),
            forall|k: int| #![trigger r@[k]] 0 <= k < r@.len() ==> {
                &&& r@[k].role@ == self.entries()[k].role@
                &&& r@[k].content@ == self.entries()[k].content@
                &&& opt_view(r@[k].name) == opt_view(self.entries()[k].skill_name)
                &&& r@[k].tool_calls is None
            },
    {
        let mut r: Vec<Message> = Vec::new();
        let mut i: usize = 0;
        while i < self.entries.len()
            invariant
                i <= self.entries.len(),
                r@.len() == i,
                forall|k: int| #![trigger r@[k]] 0 <= k < i ==> {
                    &&& r@[k].role@ == self.entries@[k].role@
                    &&& r@[k].content@ == self.entries@[k].content@
                    &&& opt_view(r@[k].name) == opt_view(self.entries@[k].skill_name)
                    &&& r@[k].tool_calls is None
                },
            decreases self.entries.len() - i,
        {
            let e = &self.entries[i];
            let name = match &e.skill_name {
                Some(n) => Some(copy_string(n)),
                None => None,
            };
            r.push(Message {
                role: copy_string(&e.role),
                content: copy_string(&e.content),
                name,
                tool_calls: None,
            });
            i += 1;
        }
        r
    }
}

/// The value stored for `key`: the first pair with that key.
pub open spec fn kv_lookup(kvs: Seq<(String, serde_json::Value)>, key: Seq<char>) -> Option<serde_json::Value>
    decreases kvs.len(),
{
    if kvs.len() == 0 {
        None
    } else if kvs[0].0@ == key {
        Some(kvs[0].1)
    } else {
        kv_lookup(kvs.drop_first(), key)
    }
}

pub proof fn lemma_kv_lookup_at(kvs: Seq<(String, serde_json::Value)>, key: Seq<char>, k: int)
    requires
        0 <= k <= kvs.len(),
        forall|j: int| 0 <= j < k ==> kvs[j].0@ != key,
    ensures
        k < kvs.len() && kvs[k].0@ == key ==> kv_lookup(kvs, key) == Some(kvs[k].1),
        k == kvs.len() ==> kv_lookup(kvs, key) is None,
    decreases k,
{
    if k > 0 {
        lemma_kv_lookup_at(kvs.drop_first(), key, k - 1);
    }
}

/// Copies a list of metadata pairs.
fn copy_pairs(v: &Vec<(String, serde_json::Value)>) -> (r: Vec<(String, serde_json::Value)>)
    ensures
        r@.len() == v@.len(),
        forall|k: int| 0 <= k < v@.len() ==> r@[k].0@ == v@[k].0@ && r@[k].1 == v@[k].1,
{
    let mut r: Vec<(String, serde_json::Value)> = Vec::new();
    let mut i: usize = 0;
    while i < v.len()
        invariant
            i <= v.len(),
            r@.len() == i,
            forall|k: int| 0 <= k < i ==> r@[k].0@ == v@[k].0@ && r@[k].1 == v@[k].1,
        decreases v.len() - i,
    {
        r.push((copy_string(&v[i].0), v[i].1.clone()));
        i += 1;
    }
    r
}

/// What tools and skills see while they run.
#[derive(Debug, Clone)]
pub struct AgentContext {
    pub project_dir: String,
    pub output_dir: String,
    pub conversation_history: Vec<Message>,
    pub generated_files: Vec<String>,
    pub metadata: Vec<(String, serde_json::Value)>,
    pub memory: Option<Memory>,
}

impl AgentContext {
    /// A context with no files, no metadata, and a memory of 100 entries.
    pub fn new(project_dir: &str, output_dir: &str) -> (r: AgentContext)
        ensures
            r.project_dir@ == project_dir@,
            r.output_dir@ == output_dir@,
            r.conversation_history@.len() == 0,
            r.generated_files@.len() == 0,
            r.metadata@.len() == 0,
            r.memory is Some,
            r.memory->0.entries().len() == 0,
            r.memory->0.capacity() == 100,
    {
        AgentContext {
            project_dir: String::from_str(project_dir),
            output_dir: String::from_str(output_dir),
            conversation_history: Vec::new(),
            generated_files: Vec::new(),
            metadata: Vec::new(),
            memory: Some(Memory::new(100)),
        }
    }

    /// Records a generated file, once.
    pub fn add_file(&mut self, path: String)
        ensures
            crate::skills::strs(final(self).generated_files@) == if crate::skills::strs(old(self).generated_files@).contains(path@) {
                crate::skills::strs(old(self).generated_files@)
            } else {
                crate::skills::strs(old(self).generated_files@).push(path@)
            },
            final(self).metadata == old(self).metadata,
            final(self).memory == old(self).memory,
    {
        let ghost fs = crate::skills::strs(self.generated_files@);
        let mut i: usize = 0;
        while i < self.generated_files.len()
            invariant
                i <= self.generated_files.len(),
                self.generated_files == old(self).generated_files,
                self.metadata == old(self).metadata,
                self.memory == old(self).memory,
                fs == crate::skills::strs(self.generated_files@),
                forall|k: int| 0 <= k < i ==> self.generated_files@[k]@ != path@,
            decreases self.generated_files.len() - i,
        {
            if str_eq(self.generated_files[i].as_str(), path.as_str()) {
                proof {
                    assert(fs[i as int] == path@);
                }
                return;
            }
            i += 1;
        }
        proof {
            assert(!fs.contains(path@)) by {
                if fs.contains(path@) {
                    let k = choose|k: int| 0 <= k < fs.len() && fs[k] == path@;
                    assert(self.generated_files@[k]@ == path@);
                }
            }
        }
        let ghost g0 = self.generated_files@;
        self.generated_files.push(path);
        proof {
            assert(crate::skills::strs(self.generated_files@) =~= crate::skills::strs(g0).push(path@));
        }
    }

    /// The metadata value stored for `key`.
    pub fn get_metadata(&self, key: &str) -> (r: Option<&serde_json::Value>)
        ensures
            match r {
                Some(v) => kv_lookup(self.metadata@, key@) == Some(*v),
                None => kv_lookup(self.metadata@, key@) is None,
            },
    {
        let mut i: usize = 0;
        while i < self.metadata.len()
            invariant
                i <= self.metadata.len(),
                forall|j: int| 0 <= j < i ==> self.metadata@[j].0@ != key@,
            decreases self.metadata.len() - i,
        {
            if str_eq(self.metadata[i].0.as_str(), key) {
                proof {
                    lemma_kv_lookup_at(self.metadata@, key@, i as int);
                }
                return Some(&self.metadata[i].1);
            }
            i += 1;
        }
        proof {
            lemma_kv_lookup_at(self.metadata@, key@, i as int);
        }
        None
    }

    /// Stores `value` for `key`, replacing an earlier value.
    pub fn set_metadata(&mut self, key: String, value: serde_json::Value)
        ensures
            kv_lookup(final(self).metadata@, key@) == Some(value),
            forall|k: Seq<char>| k != key@ ==> kv_lookup(final(self).metadata@, k) == kv_lookup(old(self).metadata@, k),
            final(self).generated_files == old(self).generated_files,
            final(self).memory == old(self).memory,
    {
        let mut i: usize = 0;
        while i < self.metadata.len()
            invariant
                i <= self.metadata.len(),
                self.metadata == old(self).metadata,
                self.generated_files == old(self).generated_files,
                self.memory == old(self).memory,
                forall|j: int| 0 <= j < i ==> self.metadata@[j].0@ != key@,
            decreases self.metadata.len() - i,
        {
            if str_eq(self.metadata[i].0.as_str(), key.as_str()) {
                let ghost before = self.metadata@;
                self.metadata.set(i, (key, value));
                proof {
                    let after = self.metadata@;
                    assert forall|j: int| 0 <= j < i implies after[j].0@ != key@ by {
                        assert(after[j] == before[j]);
                    }
                    lemma_kv_lookup_at(after, key@, i as int);
                    assert forall|k: Seq<char>| k != key@ implies kv_lookup(after, k) == kv_lookup(before, k) by {
                        lemma_kv_same_except(before, after, i as int, key@, k);
                    }
                }
                return;
            }
            i += 1;
        }
        let ghost before = self.metadata@;
        self.metadata.push((key, value));
        proof {
            let after = self.metadata@;
            assert forall|j: int| 0 <= j < before.len() implies after[j].0@ != key@ by {
                assert(after[j] == before[j]);
            }
            lemma_kv_lookup_at(after, key@, before.len() as int);
            assert forall|k: Seq<char>| k != key@ implies kv_lookup(after, k) == kv_lookup(before, k) by {
                lemma_kv_push(before, after, key@, k);
            }
        }
    }

    /// Remembers a turn, with a copy of the current metadata, when the
    /// context has a memory, stamped `timestamp` (Unix seconds).
    pub fn add_memory_at(
        &mut self,
        role: String,
        content: String,
        skill_name: Option<String>,
        stage: Option<String>,
        timestamp: i64,
    )
        ensures
            final(self).metadata == old(self).metadata,
            final(self).generated_files == old(self).generated_files,
            match old(self).memory {
                None => final(self).memory is None,
                Some(m) => final(self).memory is Some && exists|e: MemoryEntry| {
                    &&& e.timestamp == timestamp
                    &&& e.role == role
                    &&& e.content == content
                    &&& e.skill_name == skill_name
                    &&& e.stage == stage
                    &&& e.metadata@.len() == old(self).metadata@.len()
                    &&& (forall|k: int| 0 <= k < e.metadata@.len()
                        ==> e.metadata@[k].0@ == old(self).metadata@[k].0@ && e.metadata@[k].1 == old(self).metadata@[k].1)
                    &&& final(self).memory->0.capacity() == m.capacity()
                    &&& final(self).memory->0.entries() == if m.entries().len() + 1 > m.capacity() {
                        m.entries().push(e).drop_first()
                    } else {
                        m.entries().push(e)
                    }
                },
            },
    {
        let metadata = copy_pairs(&self.metadata);
        match &mut self.memory {
            Some(memory) => {
                let entry = MemoryEntry { timestamp, role, content, skill_name, stage, metadata };
                memory.add(entry);
            },
            None => {},
        }
    }

    /// Remembers a turn, with a copy of the current metadata, when the
    /// context has a memory, stamped with the current time (Unix seconds,
    /// never before the epoch).
    pub fn add_memory(
        &mut self,
        role: String,
        content: String,
        skill_name: Option<String>,
        stage: Option<String>,
    )
        ensures
            final(self).metadata == old(self).metadata,
            final(self).generated_files == old(self).generated_files,
            match old(self).memory {
                None => final(self).memory is None,
                Some(m) => final(self).memory is Some && exists|e: MemoryEntry| {
                    &&& e.timestamp >= 0
                    &&& e.role == role
                    &&& e.content == content
                    &&& e.skill_name == skill_name
                    &&& e.stage == stage
                    &&& e.metadata@.len() == old(self).metadata@.len()
                    &&& (forall|k: int| 0 <= k < e.metadata@.len()
                        ==> e.metadata@[k].0@ == old(self).metadata@[k].0@ && e.metadata@[k].1 == old(self).metadata@[k].1)
                    &&& final(self).memory->0.capacity() == m.capacity()
                    &&& final(self).memory->0.entries() == if m.entries().len() + 1 > m.capacity() {
                        m.entries().push(e).drop_first()
                    } else {
                        m.entries().push(e)
                    }
                },
            },
    {
        let timestamp = now_seconds();
        self.add_memory_at(role, content, skill_name, stage, timestamp);
    }

    /// The history context of the memory, or an empty text without memory.
    pub fn get_context_injection(&self, skill_name: &str, stage: &str) -> (r: String)
        ensures
            r@ == match self.memory {
                Some(m) => injected_context(m.entries(), skill_name@, stage@),
                None => seq![],
            },
    {
        match &self.memory {
            Some(m) => m.inject_context(skill_name, stage),
            None => String::new(),
        }
    }
}

proof fn lemma_kv_same_except(
    before: Seq<(String, serde_json::Value)>,
    after: Seq<(String, serde_json::Value)>,
    i: int,
    key: Seq<char>,
    k: Seq<char>,
)
    requires
        0 <= i < before.len(),
        after.len() == before.len(),
        before[i].0@ == key,
        after[i].0@ == key,
        k != key,
        forall|j: int| 0 <= j < before.len() && j != i ==> after[j] == before[j],
    ensures
        kv_lookup(after, k) == kv_lookup(before, k),
    decreases before.len(),
{
    if before.len() > 0 {
        if i == 0 {
            assert(after.drop_first() =~= before.drop_first());
        } else {
            assert(after[0] == before[0]);
            lemma_kv_same_except(before.drop_first(), after.drop_first(), i - 1, key, k);
        }
    }
}

proof fn lemma_kv_push(
    before: Seq<(String, serde_json::Value)>,
    after: Seq<(String, serde_json::Value)>,
    key: Seq<char>,
    k: Seq<char>,
)
    requires
        after.len() == before.len() + 1,
        after.last().0@ == key,
        k != key,
        forall|j: int| 0 <= j < before.len() ==> after[j] == before[j],
    ensures
        kv_lookup(after, k) == kv_lookup(before, k),
    decreases before.len(),
{
    if before.len() > 0 {
        assert(after[0] == before[0]);
        assert(after.drop_first().last() == after.last());
        assert forall|j: int| 0 <= j < before.drop_first().len() implies after.drop_first()[j] == before.drop_first()[j] by {
            assert(after[j + 1] == before[j + 1]);
        }
        lemma_kv_push(before.drop_first(), after.drop_first(), key, k);
    } else {
        assert(after[0].0@ == key);
        assert(after.drop_first().len() == 0);
        assert(kv_lookup(after.drop_first(), k) is None);
    }
}


/// The content of the last message of role `assistant`; empty if none.
pub open spec fn last_assistant(ms: Seq<Message>) -> Seq<char>
    decreases ms.len(),
{
    if ms.len() == 0 {
        seq![]
    } else if ms.last().role@ == "assistant"@ {
        ms.last().content@
    } else {
        last_assistant(ms.drop_last())
    }
}

/// The text a tool result puts into the conversation: its content, or
/// `错误: ` and its error.
pub open spec fn tool_reply_text(r: ToolResult) -> Seq<char> {
    if r.success {
        r.content@
    } else {
        "错误: "@ + match r.error {
            Some(e) => e@,
            None => seq![],
        }
    }
}

/// The index of the first tool named `name`.
pub open spec fn tool_index(defs: Seq<ToolDefinition>, name: Seq<char>) -> Option<int>
    decreases defs.len(),
{
    if defs.len() == 0 {
        None
    } else if defs[0].name@ == name {
        Some(0)
    } else {
        match tool_index(defs.drop_first(), name) {
            Some(i) => Some(i + 1),
            None => None,
        }
    }
}

proof fn lemma_tool_index_at(defs: Seq<ToolDefinition>, name: Seq<char>, k: int)
    requires
        0 <= k <= defs.len(),
        forall|j: int| 0 <= j < k ==> defs[j].name@ != name,
    ensures
        k < defs.len() && defs[k].name@ == name ==> tool_index(defs, name) == Some(k),
        k == defs.len() ==> tool_index(defs, name) is None,
    decreases k,
{
    if k > 0 {
        lemma_tool_index_at(defs.drop_first(), name, k - 1);
    }
}

/// The first tool named `name`.
pub fn find_tool(defs: &Vec<ToolDefinition>, name: &str) -> (r: Option<usize>)
    ensures
        match r {
            Some(i) => tool_index(defs@, name@) == Some(i as int),
            None => tool_index(defs@, name@) is None,
        },
{
    let mut i: usize = 0;
    while i < defs.len()
        invariant
            i <= defs.len(),
            forall|j: int| 0 <= j < i ==> defs@[j].name@ != name@,
        decreases defs.len() - i,
    {
        if str_eq(defs[i].name.as_str(), name) {
            proof {
                lemma_tool_index_at(defs@, name@, i as int);
            }
            return Some(i);
        }
        i += 1;
    }
    proof {
        lemma_tool_index_at(defs@, name@, i as int);
    }
    None
}

/// The result for a call of a tool that does not exist.
pub fn unknown_tool_result(name: &str) -> (r: ToolResult)
    ensures
        !r.success,
        r.content@.len() == 0,
        r.metadata is None,
        r.error is Some && r.error->0@ == "未知工具: "@ + name@,
{
    let mut e: Vec<char> = Vec::new();
    push_str(&mut e, "未知工具: ");
    push_str(&mut e, name);
    ToolResult { success: false, content: String::new(), metadata: None, error: Some(string_of(e.as_slice())) }
}

/// The result for a tool whose execution failed with `error`.
pub fn failed_tool_result(error: String) -> (r: ToolResult)
    ensures
        !r.success,
        r.content@.len() == 0,
        r.metadata is None,
        r.error == Some(error),
{
    ToolResult { success: false, content: String::new(), metadata: None, error: Some(error) }
}

/// The decisions of a chat in which the model may call tools: each round
/// sends the conversation; a reply without tool calls is the answer; else
/// each call's result is added and a new round starts, for at most
/// `max_rounds` rounds, after which the last assistant text is the answer.
pub struct ToolChat {
    messages: Vec<Message>,
    round: u32,
    max_rounds: u32,
}

impl ToolChat {
    pub closed spec fn messages(&self) -> Seq<Message> {
        self.messages@
    }

    pub closed spec fn round(&self) -> nat {
        self.round as nat
    }

    pub closed spec fn max_rounds(&self) -> nat {
        self.max_rounds as nat
    }

    /// The conversation opens with the system prompt and no round passes the limit.
    pub open spec fn wf(&self, system_prompt: Seq<char>) -> bool {
        &&& self.messages().len() >= 1
        &&& self.messages()[0].role@ == "system"@
        &&& self.messages()[0].content@ == system_prompt
        &&& self.round() <= self.max_rounds()
    }

    /// A chat of the system prompt followed by the earlier messages.
    pub fn new(system_prompt: &str, history: Vec<Message>, max_rounds: u32) -> (r: ToolChat)
        ensures
            r.wf(system_prompt@),
            r.messages().len() == history@.len() + 1,
            r.messages()[0].name is None && r.messages()[0].tool_calls is None,
            forall|k: int| 0 <= k < history@.len() ==> #[trigger] r.messages()[k + 1] == history@[k],
            r.round() == 0,
            r.max_rounds() == max_rounds,
    {
        let mut messages: Vec<Message> = Vec::new();
        messages.push(Message {
            role: String::from_str("system"),
            content: String::from_str(system_prompt),
            name: None,
            tool_calls: None,
        });
        let ghost h0 = history@;
        let mut history = history;
        messages.append(&mut history);
        proof {
            assert forall|k: int| 0 <= k < h0.len() implies #[trigger] messages@[k + 1] == h0[k] by {}
        }
        ToolChat { messages, round: 0, max_rounds }
    }

    /// The conversation so far.
    pub fn conversation(&self) -> (r: &Vec<Message>)
        ensures
            r@ == self.messages(),
    {
        &self.messages
    }

    /// Whether another round may start.
    pub fn can_continue(&self) -> (r: bool)
        ensures
            r == (self.round() < self.max_rounds()),
    {
        self.round < self.max_rounds
    }

    /// Records the model's reply; returns the answer when the reply asks
    /// for no tool.
    pub fn after_reply(&mut self, content: String, tool_calls: Option<Vec<ToolCall>>) -> (r: Option<String>)
        requires
            old(self).round() < old(self).max_rounds(),
        ensures
            final(self).messages().len() == old(self).messages().len() + 1,
            final(self).messages().drop_last() == old(self).messages(),
            final(self).messages().last().role@ == "assistant"@,
            final(self).messages().last().content == content,
            final(self).messages().last().name is None,
            final(self).messages().last().tool_calls == tool_calls,
            final(self).round() == old(self).round(),
            final(self).max_rounds() == old(self).max_rounds(),
            match tool_calls {
                None => r == Some(content),
                Some(calls) => if calls@.len() == 0 { r == Some(content) } else { r is None },
            },
    {
        let answer = copy_string(&content);
        let done = match &tool_calls {
            None => true,
            Some(calls) => calls.len() == 0,
        };
        let ghost m0 = self.messages@;
        self.messages.push(Message {
            role: String::from_str("assistant"),
            content,
            name: None,
            tool_calls,
        });
        proof {
            assert(self.messages@.drop_last() =~= m0);
        }
        if done {
            Some(answer)
        } else {
            None
        }
    }

    /// Adds the result of a call of the tool `func_name`.
    pub fn tool_reply(&mut self, func_name: &str, result: ToolResult)
        ensures
            final(self).messages().len() == old(self).messages().len() + 1,
            final(self).messages().drop_last() == old(self).messages(),
            final(self).messages().last().role@ == "tool"@,
            final(self).messages().last().content@ == tool_reply_text(result),
            final(self).messages().last().name is Some,
            final(self).messages().last().name->0@ == func_name@,
            final(self).messages().last().tool_calls is None,
            final(self).round() == old(self).round(),
            final(self).max_rounds() == old(self).max_rounds(),
    {
        let content = if result.success {
            result.content
        } else {
            let mut e: Vec<char> = Vec::new();
            push_str(&mut e, "错误: ");
            match &result.error {
                Some(x) => push_str(&mut e, x.as_str()),
                None => {},
            }
            proof {
                assert(e@ =~= tool_reply_text(result));
            }
            string_of(e.as_slice())
        };
        let ghost m0 = self.messages@;
        self.messages.push(Message {
            role: String::from_str("tool"),
            content,
            name: Some(String::from_str(func_name)),
            tool_calls: None,
        });
        proof {
            assert(self.messages@.drop_last() =~= m0);
        }
    }

    /// Ends a round whose tool calls have all been answered.
    pub fn end_round(&mut self)
        requires
            old(self).round() < old(self).max_rounds(),
        ensures
            final(self).round() == old(self).round() + 1,
            final(self).max_rounds() == old(self).max_rounds(),
            final(self).messages() == old(self).messages(),
    {
        self.round = self.round + 1;
    }

    /// The answer once the rounds are used up: the last assistant text.
    pub fn final_answer(&self) -> (r: String)
        ensures
            r@ == last_assistant(self.messages()),
    {
        let mut i: usize = self.messages.len();
        proof {
            assert(self.messages@.take(i as int) =~= self.messages@);
        }
        while i > 0
            invariant
                i <= self.messages.len(),
                last_assistant(self.messages@) == last_assistant(self.messages@.take(i as int)),
            decreases i,
        {
            proof {
                assert(self.messages@.take(i as int).drop_last() =~= self.messages@.take(i - 1));
            }
            if str_eq(self.messages[i - 1].role.as_str(), "assistant") {
                return copy_string(&self.messages[i - 1].content);
            }
            i -= 1;
        }
        String::new()
    }
}

} // verus!
