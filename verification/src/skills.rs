//! Skill definitions, the registry that holds them, prompt rendering and
//! skills created on demand.
use vstd::prelude::*;
use vstd::string::StringExecFns;

use crate::text::{chars_of, index_of, same_chars, slice_range, str_eq, string_of};

verus! {

/// The header of a skill.
#[derive(Debug, Clone)]
pub struct SkillMeta {
    pub name: String,
    pub description: String,
    pub version: String,
    pub stage: String,
    pub category: String,
    pub depends_on: Vec<String>,
}

/// The inputs a skill takes.
#[derive(Debug, Clone)]
pub struct SkillInput {
    pub required: Vec<String>,
    pub optional: Vec<String>,
}

/// The output a skill writes.
#[derive(Debug, Clone)]
pub struct SkillOutput {
    pub format: String,
    pub file_prefix: String,
}

/// The prompt templates of a skill.
#[derive(Debug, Clone)]
pub struct SkillPrompt {
    pub creation: String,
    pub repair: String,
}

/// How the output of a skill is reviewed.
#[derive(Debug, Clone)]
pub struct SkillReview {
    pub criteria: Vec<String>,
    pub prompt: Option<String>,
    pub auto_repair: bool,
}

/// A complete skill definition.
#[derive(Debug, Clone)]
pub struct SkillDefinition {
    pub skill: SkillMeta,
    pub input: SkillInput,
    pub output: SkillOutput,
    pub prompt: SkillPrompt,
    pub review: Option<SkillReview>,
}

/// The mode in which a skill ran.
#[derive(Debug, Clone, Copy, PartialEq, Eq, Structural)]
pub enum SkillMode {
    Creation,
    Repair,
    Review,
}

/// One issue raised by a review.
#[derive(Debug, Clone)]
pub struct ReviewIssue {
    pub severity: String,
    pub category: String,
    pub description: String,
    pub suggestion: String,
}

/// The outcome of a review: whether it passed, the issues and a summary.
#[derive(Debug, Clone)]
pub struct ReviewResult {
    pub passed: bool,
    pub issues: Vec<ReviewIssue>,
    pub summary: Option<String>,
}

/// One run of a skill.
#[derive(Debug, Clone)]
pub struct SkillExecution {
    pub skill_name: String,
    pub mode: SkillMode,
    pub params: Vec<(String, String)>,
    pub content: String,
    pub result: String,
    pub review_result: Option<ReviewResult>,
    pub file_path: Option<String>,
    pub timestamp: String,
}

/// The texts of a sequence of strings.
pub open spec fn strs(v: Seq<String>) -> Seq<Seq<char>> {
    v.map_values(|s: String| s@)
}

/// The skill named `name` in `skills`, the first one if several share it.
pub open spec fn lookup(skills: Seq<SkillDefinition>, name: Seq<char>) -> Option<SkillDefinition>
    decreases skills.len(),
{
    if skills.len() == 0 {
        None
    } else if skills[0].skill.name@ == name {
        Some(skills[0])
    } else {
        lookup(skills.drop_first(), name)
    }
}

/// No two skills share a name.
pub open spec fn names_unique(skills: Seq<SkillDefinition>) -> bool {
    forall|i: int, j: int|
        0 <= i < j < skills.len() ==> skills[i].skill.name@ != skills[j].skill.name@
}

/// The last run of the skill named `name` in `history`.
pub open spec fn last_run(history: Seq<SkillExecution>, name: Seq<char>) -> Option<SkillExecution>
    decreases history.len(),
{
    if history.len() == 0 {
        None
    } else if history.last().skill_name@ == name {
        Some(history.last())
    } else {
        last_run(history.drop_last(), name)
    }
}

pub proof fn lemma_lookup_index(skills: Seq<SkillDefinition>, name: Seq<char>, k: int)
    requires
        names_unique(skills),
        0 <= k < skills.len(),
        skills[k].skill.name@ == name,
    ensures
        lookup(skills, name) == Some(skills[k]),
    decreases skills.len(),
{
    if k > 0 {
        assert(skills[0].skill.name@ != name);
        assert(names_unique(skills.drop_first()));
        lemma_lookup_index(skills.drop_first(), name, k - 1);
    }
}

pub proof fn lemma_lookup_none(skills: Seq<SkillDefinition>, name: Seq<char>)
    requires
        forall|k: int| 0 <= k < skills.len() ==> skills[k].skill.name@ != name,
    ensures
        lookup(skills, name) is None,
    decreases skills.len(),
{
    if skills.len() > 0 {
        lemma_lookup_none(skills.drop_first(), name);
    }
}

pub proof fn lemma_lookup_found(skills: Seq<SkillDefinition>, name: Seq<char>)
    ensures
        match lookup(skills, name) {
            Some(d) => exists|k: int| 0 <= k < skills.len() && skills[k] == d && d.skill.name@ == name,
            None => forall|k: int| 0 <= k < skills.len() ==> skills[k].skill.name@ != name,
        },
    decreases skills.len(),
{
    if skills.len() > 0 && skills[0].skill.name@ != name {
        lemma_lookup_found(skills.drop_first(), name);
        match lookup(skills.drop_first(), name) {
            Some(d) => {
                let k = choose|k: int| 0 <= k < skills.drop_first().len() && skills.drop_first()[k] == d && d.skill.name@ == name;
                assert(skills[k + 1] == d);
            },
            None => {
                assert forall|k: int| 0 <= k < skills.len() implies skills[k].skill.name@ != name by {
                    if k > 0 {
                        assert(skills[k] == skills.drop_first()[k - 1]);
                    }
                }
            },
        }
    } else if skills.len() > 0 {
        assert(skills[0] == skills[0]);
    }
}

/// The registry of skills and the history of their runs.
pub struct SkillRegistry {
    skills: Vec<SkillDefinition>,
    execution_history: Vec<SkillExecution>,
}

impl SkillRegistry {
    /// The registered skills, each name once.
    pub closed spec fn skill_list(&self) -> Seq<SkillDefinition> {
        self.skills@
    }

    /// The recorded runs, oldest first.
    pub closed spec fn history(&self) -> Seq<SkillExecution> {
        self.execution_history@
    }

    /// No two registered skills share a name.
    pub open spec fn wf(&self) -> bool {
        names_unique(self.skill_list())
    }

    pub fn new() -> (r: SkillRegistry)
        ensures
            r.wf(),
            r.skill_list().len() == 0,
            r.history().len() == 0,
    {
        SkillRegistry { skills: Vec::new(), execution_history: Vec::new() }
    }

    /// Registers `skill`, replacing a skill of the same name.
    pub fn register(&mut self, skill: SkillDefinition)
        requires
            old(self).wf(),
        ensures
            final(self).wf(),
            lookup(final(self).skill_list(), skill.skill.name@) == Some(skill),
            forall|n: Seq<char>| n != skill.skill.name@
                ==> lookup(final(self).skill_list(), n) == lookup(old(self).skill_list(), n),
            final(self).history() == old(self).history(),
    {
        let ghost name = skill.skill.name@;
        let mut i: usize = 0;
        while i < self.skills.len()
            invariant
                i <= self.skills.len(),
                self.wf(),
                self.skills@ == old(self).skills@,
                self.execution_history@ == old(self).execution_history@,
                name == skill.skill.name@,
                forall|k: int| 0 <= k < i ==> self.skills@[k].skill.name@ != name,
            decreases self.skills.len() - i,
        {
            if str_eq(self.skills[i].skill.name.as_str(), skill.skill.name.as_str()) {
                let ghost before = self.skills@;
                self.skills.set(i, skill);
                proof {
                    let after = self.skills@;
                    assert(names_unique(after)) by {
                        assert forall|a: int, b: int| 0 <= a < b < after.len() implies after[a].skill.name@ != after[b].skill.name@ by {
                            if a != i && b != i {
                                assert(after[a] == before[a] && after[b] == before[b]);
                            } else if a == i {
                                assert(after[b] == before[b]);
                                assert(before[i as int].skill.name@ == name);
                            } else {
                                assert(after[a] == before[a]);
                                assert(before[i as int].skill.name@ == name);
                            }
                        }
                    }
                    lemma_lookup_index(after, name, i as int);
                    assert forall|n: Seq<char>| n != name implies lookup(after, n) == lookup(before, n) by {
                        lemma_lookup_found(before, n);
                        match lookup(before, n) {
                            Some(d) => {
                                let k = choose|k: int| 0 <= k < before.len() && before[k] == d && d.skill.name@ == n;
                                assert(k != i);
                                assert(after[k] == before[k]);
                                lemma_lookup_index(after, n, k);
                            },
                            None => {
                                assert forall|k: int| 0 <= k < after.len() implies after[k].skill.name@ != n by {
                                    if k != i {
                                        assert(after[k] == before[k]);
                                    }
                                }
                                lemma_lookup_none(after, n);
                            },
                        }
                    }
                }
                return;
            }
            i += 1;
        }
        let ghost before = self.skills@;
        self.skills.push(skill);
        proof {
            let after = self.skills@;
            assert(names_unique(after)) by {
                assert forall|a: int, b: int| 0 <= a < b < after.len() implies after[a].skill.name@ != after[b].skill.name@ by {
                    assert(after[a] == before[a]);
                    if b < before.len() {
                        assert(after[b] == before[b]);
                    }
                }
            }
            lemma_lookup_index(after, name, before.len() as int);
            assert forall|n: Seq<char>| n != name implies lookup(after, n) == lookup(before, n) by {
                lemma_lookup_found(before, n);
                match lookup(before, n) {
                    Some(d) => {
                        let k = choose|k: int| 0 <= k < before.len() && before[k] == d && d.skill.name@ == n;
                        assert(after[k] == before[k]);
                        lemma_lookup_index(after, n, k);
                    },
                    None => {
                        assert forall|k: int| 0 <= k < after.len() implies after[k].skill.name@ != n by {
                            if k < before.len() {
                                assert(after[k] == before[k]);
                            }
                        }
                        lemma_lookup_none(after, n);
                    },
                }
            }
        }
    }

    /// The skill named `name`.
    pub fn get(&self, name: &str) -> (r: Option<&SkillDefinition>)
        requires
            self.wf(),
        ensures
            match r {
                Some(d) => lookup(self.skill_list(), name@) == Some(*d),
                None => lookup(self.skill_list(), name@) is None,
            },
    {
        let mut i: usize = 0;
        while i < self.skills.len()
            invariant
                i <= self.skills.len(),
                self.wf(),
                forall|k: int| 0 <= k < i ==> self.skills@[k].skill.name@ != name@,
            decreases self.skills.len() - i,
        {
            if str_eq(self.skills[i].skill.name.as_str(), name) {
                proof {
                    lemma_lookup_index(self.skills@, name@, i as int);
                }
                return Some(&self.skills[i]);
            }
            i += 1;
        }
        proof {
            lemma_lookup_none(self.skills@, name@);
        }
        None
    }

    /// The headers of all registered skills.
    pub fn list(&self) -> (r: Vec<&SkillMeta>)
        ensures
            r@.len() == self.skill_list().len(),
            forall|k: int| 0 <= k < r@.len() ==> *r@[k] == self.skill_list()[k].skill,
    {
        let mut r: Vec<&SkillMeta> = Vec::new();
        let mut i: usize = 0;
        while i < self.skills.len()
            invariant
                i <= self.skills.len(),
                r@.len() == i,
                forall|k: int| 0 <= k < i ==> *r@[k] == self.skills@[k].skill,
            decreases self.skills.len() - i,
        {
            r.push(&self.skills[i].skill);
            i += 1;
        }
        r
    }

    /// The headers of the registered skills of stage `stage`, in registry order.
    pub fn list_by_stage(&self, stage: &str) -> (r: Vec<&SkillMeta>)
        ensures
            r@.map_values(|m: &SkillMeta| *m) == self.skill_list().map_values(
                |d: SkillDefinition| d.skill,
            ).filter(|m: SkillMeta| m.stage@ == stage@),
    {
        let ghost metas = self.skills@.map_values(|d: SkillDefinition| d.skill);
        let ghost pred = |m: SkillMeta| m.stage@ == stage@;
        let mut r: Vec<&SkillMeta> = Vec::new();
        let mut i: usize = 0;
        proof {
            assert(metas.take(0).filter(pred) =~= Seq::<SkillMeta>::empty());
            assert(r@.map_values(|m: &SkillMeta| *m) =~= Seq::<SkillMeta>::empty());
        }
        while i < self.skills.len()
            invariant
                i <= self.skills.len(),
                metas == self.skills@.map_values(|d: SkillDefinition| d.skill),
                pred == (|m: SkillMeta| m.stage@ == stage@),
                r@.map_values(|m: &SkillMeta| *m) == metas.take(i as int).filter(pred),
            decreases self.skills.len() - i,
        {
            let ghost r0 = r@;
            proof {
                reveal_with_fuel(Seq::<_>::filter, 1);
                assert(metas.take(i + 1).drop_last() =~= metas.take(i as int));
            }
            if str_eq(self.skills[i].skill.stage.as_str(), stage) {
                r.push(&self.skills[i].skill);
                proof {
                    assert(r@.map_values(|m: &SkillMeta| *m) =~= r0.map_values(|m: &SkillMeta| *m).push(self.skills@[i as int].skill));
                }
            } else {
                proof {
                    assert(r@ == r0);
                }
            }
            i += 1;
        }
        proof {
            assert(metas.take(self.skills.len() as int) =~= metas);
        }
        r
    }

    /// Appends a run to the history.
    pub fn record_execution(&mut self, execution: SkillExecution)
        ensures
            final(self).history() == old(self).history().push(execution),
            final(self).skill_list() == old(self).skill_list(),
    {
        self.execution_history.push(execution);
    }

    /// The recorded runs, oldest first.
    pub fn get_history(&self) -> (r: &[SkillExecution])
        ensures
            r@ == self.history(),
    {
        self.execution_history.as_slice()
    }

    /// The last run of the skill named `skill_name`.
    pub fn get_last_result(&self, skill_name: &str) -> (r: Option<&SkillExecution>)
        ensures
            match r {
                Some(e) => last_run(self.history(), skill_name@) == Some(*e),
                None => last_run(self.history(), skill_name@) is None,
            },
    {
        let mut i: usize = self.execution_history.len();
        proof {
            assert(self.execution_history@.take(i as int) =~= self.execution_history@);
        }
        while i > 0
            invariant
                i <= self.execution_history.len(),
                last_run(self.execution_history@, skill_name@) == last_run(self.execution_history@.take(i as int), skill_name@),
            decreases i,
        {
            let ghost pre = self.execution_history@.take(i as int);
            proof {
                assert(pre.drop_last() =~= self.execution_history@.take(i - 1));
            }
            if str_eq(self.execution_history[i - 1].skill_name.as_str(), skill_name) {
                return Some(&self.execution_history[i - 1]);
            }
            i -= 1;
        }
        None
    }
}

/// A dependency of a skill together with where its last run left its text.
#[derive(Debug, Clone)]
pub struct DependencySource {
    pub name: String,
    pub file_path: Option<String>,
    pub result: String,
}

/// A dependency source as plain values: name, file and text.
pub open spec fn source_view(d: DependencySource) -> (Seq<char>, Option<String>, String) {
    (d.name@, d.file_path, d.result)
}

/// For each dependency in order that has run: its name, and the file and
/// text of its last run.
pub open spec fn dependency_runs(history: Seq<SkillExecution>, deps: Seq<String>) -> Seq<(Seq<char>, Option<String>, String)>
    decreases deps.len(),
{
    if deps.len() == 0 {
        Seq::empty()
    } else {
        let rest = dependency_runs(history, deps.drop_last());
        match last_run(history, deps.last()@) {
            Some(e) => rest.push((deps.last()@, e.file_path, e.result)),
            None => rest,
        }
    }
}

impl SkillRegistry {
    /// For each dependency of `skill` that has run, its name, the file its
    /// last run wrote and the text that run returned, in dependency order.
    pub fn dependency_sources(&self, skill: &SkillDefinition) -> (r: Vec<DependencySource>)
        ensures
            r@.map_values(|d: DependencySource| source_view(d)) == dependency_runs(self.history(), skill.skill.depends_on@),
    {
        let deps = &skill.skill.depends_on;
        let mut r: Vec<DependencySource> = Vec::new();
        let mut i: usize = 0;
        while i < deps.len()
            invariant
                i <= deps.len(),
                deps == &skill.skill.depends_on,
                r@.map_values(|d: DependencySource| source_view(d)) == dependency_runs(self.history(), deps@.take(i as int)),
            decreases deps.len() - i,
        {
            proof {
                assert(deps@.take(i + 1).drop_last() =~= deps@.take(i as int));
                assert(deps@.take(i + 1).last() == deps@[i as int]);
            }
            let ghost r0 = r@;
            match self.get_last_result(deps[i].as_str()) {
                Some(e) => {
                    let name = string_of(chars_of(deps[i].as_str()).as_slice());
                    r.push(DependencySource {
                        name,
                        file_path: e.file_path.clone(),
                        result: e.result.clone(),
                    });
                    proof {
                        assert(r@.map_values(|d: DependencySource| source_view(d))
                            =~= r0.map_values(|d: DependencySource| source_view(d)).push(source_view(r@[r@.len() - 1])));
                    }
                },
                None => {},
            }
            i += 1;
        }
        proof {
            assert(deps@.take(deps.len() as int) =~= deps@);
        }
        r
    }
}


/// `{key}`: the placeholder for `key`.
pub open spec fn placeholder(key: Seq<char>) -> Seq<char> {
    seq!['{'] + key + seq!['}']
}

/// The value of the first parameter named `key`.
pub open spec fn lookup_param(params: Seq<(String, String)>, key: Seq<char>) -> Option<Seq<char>>
    decreases params.len(),
{
    if params.len() == 0 {
        None
    } else if params[0].0@ == key {
        Some(params[0].1@)
    } else {
        lookup_param(params.drop_first(), key)
    }
}

/// The name inside a placeholder text `{key}`.
pub open spec fn key_of(m: Seq<char>) -> Seq<char> {
    if m.len() >= 2 {
        m.subrange(1, m.len() - 1)
    } else {
        Seq::empty()
    }
}

/// What a placeholder text becomes: the value of its parameter, or nothing
/// when no parameter has its name.
pub open spec fn placeholder_value(m: Seq<char>, params: Seq<(String, String)>) -> Seq<char> {
    match lookup_param(params, key_of(m)) {
        Some(v) => v,
        None => Seq::empty(),
    }
}

/// The template with each placeholder (a `{`, at least one character that
/// is not `}`, and the `}` that closes it, matched leftmost first without
/// overlap, as the pattern `\{[^}]+\}` matches) replaced by its value, or
/// left out when no parameter has its name.  The values are kept as they
/// are.
pub open spec fn filled(s: Seq<char>, params: Seq<(String, String)>) -> Seq<char>
    decreases s.len(),
{
    if s.len() == 0 {
        s
    } else if s[0] == '{' && (match index_of(s.drop_first(), '}') {
        Some(j) => j > 0,
        None => false,
    }) {
        let j = index_of(s.drop_first(), '}')->0;
        proof {
            crate::text::lemma_index_of_facts(s.drop_first(), '}');
        }
        placeholder_value(s.take(j + 2), params) + filled(s.skip(j + 2), params)
    } else {
        seq![s[0]] + filled(s.drop_first(), params)
    }
}

/// The prompt a template gives for the parameters.
pub open spec fn rendered(t: Seq<char>, params: Seq<(String, String)>) -> Seq<char> {
    filled(t, params)
}

/// The pattern that matches a placeholder.
pub open spec fn is_placeholder_pattern(p: Seq<char>) -> bool {
    p == seq!['\\', '{', '[', '^', '}', ']', '+', '\\', '}']
}

/// What a matched placeholder text is replaced by.
pub fn placeholder_text(m: &str, params: &Vec<(String, String)>) -> (r: String)
    ensures
        r@ == placeholder_value(m@, params@),
{
    let cs = chars_of(m);
    let key = if cs.len() >= 2 {
        slice_range(cs.as_slice(), 1, cs.len() - 1)
    } else {
        Vec::new()
    };
    proof {
        assert(key@ =~= key_of(m@));
        assert(params@.skip(0) =~= params@);
    }
    let mut i: usize = 0;
    while i < params.len()
        invariant
            i <= params.len(),
            key@ == key_of(m@),
            lookup_param(params@, key@) == lookup_param(params@.skip(i as int), key@),
        decreases params.len() - i,
    {
        proof {
            assert(params@.skip(i as int).drop_first() =~= params@.skip(i + 1));
            assert(params@.skip(i as int)[0] == params@[i as int]);
        }
        let name = chars_of(params[i].0.as_str());
        if same_chars(name.as_slice(), key.as_slice()) {
            return string_of(chars_of(params[i].1.as_str()).as_slice());
        }
        i += 1;
    }
    String::new()
}

/// Calls `regex::Regex::new` on the placeholder pattern and
/// `Regex::replace_all` on `text` with a closure that hands each match to
/// `placeholder_text`: every leftmost, non-overlapping match of
/// `\{[^}]+\}` is replaced by the text `placeholder_text` gives for it,
/// the text between matches is kept.  The pattern compiles, so the `unwrap`
/// does not panic; match 0 always exists, so `caps[0]` does not panic.
#[verifier::external_body]
fn regex_replace_placeholders(pattern: &str, text: &str, params: &Vec<(String, String)>) -> (r: String)
    requires
        is_placeholder_pattern(pattern@),
    ensures
        r@ == filled(text@, params@),
{
    let re = regex::Regex::new(pattern).unwrap();
    re.replace_all(text, |caps: &regex::Captures| placeholder_text(&caps[0], params)).to_string()
}

/// Fills a prompt template.
pub struct TemplateRenderer;

impl TemplateRenderer {
    /// Replaces each `{key}` of the template by the value of the parameter
    /// `key` (the first, when several have that name) and removes every
    /// placeholder no parameter fills; the values are not scanned again.
    pub fn render(template: &str, params: &Vec<(String, String)>) -> (r: String)
        ensures
            r@ == rendered(template@, params@),
    {
        let pattern = chars_of("\\{[^}]+\\}");
        let pattern_text = string_of(pattern.as_slice());
        proof {
            reveal_strlit("\\{[^}]+\\}");
            assert(pattern_text@ =~= seq!['\\', '{', '[', '^', '}', ']', '+', '\\', '}']);
        }
        regex_replace_placeholders(pattern_text.as_str(), template, params)
    }
}

/// Builds skills on demand.
pub struct SkillFactory;

impl SkillFactory {
    /// A skill made from a description and a prompt: version
    /// `0.1.0-dynamic`, one required input `content`, markdown output named
    /// after the skill, the review prompt (or a default) as repair prompt,
    /// and a review only when a review prompt is given.
    pub fn create_dynamic_skill(
        name: &str,
        description: &str,
        prompt_template: &str,
        review_prompt: Option<&str>,
        category: &str,
        stage: &str,
    ) -> (r: SkillDefinition)
        ensures
            r.skill.name@ == name@,
            r.skill.description@ == description@,
            r.skill.version@ == "0.1.0-dynamic"@,
            r.skill.stage@ == stage@,
            r.skill.category@ == category@,
            r.skill.depends_on@.len() == 0,
            strs(r.input.required@) == seq!["content"@],
            r.input.optional@.len() == 0,
            r.output.format@ == "markdown"@,
            r.output.file_prefix@ == name@,
            r.prompt.creation@ == prompt_template@,
            r.prompt.repair@ == match review_prompt {
                Some(p) => p@,
                None => "请修复以下内容中的问题。\n\n## 原始内容\n{content}\n\n## 审查意见\n{issues}"@,
            },
            match review_prompt {
                Some(p) => {
                    &&& r.review is Some
                    &&& r.review->0.criteria@.len() == 0
                    &&& r.review->0.prompt is Some
                    &&& r.review->0.prompt->0@ == p@
                    &&& r.review->0.auto_repair
                },
                None => r.review is None,
            },
    {
        let mut required: Vec<String> = Vec::new();
        required.push(String::from_str("content"));
        proof {
            assert(strs(required@) =~= seq!["content"@]);
        }
        let repair = match review_prompt {
            Some(p) => String::from_str(p),
            None => String::from_str("请修复以下内容中的问题。\n\n## 原始内容\n{content}\n\n## 审查意见\n{issues}"),
        };
        let review = match review_prompt {
            Some(rp) => Some(SkillReview {
                criteria: Vec::new(),
                prompt: Some(String::from_str(rp)),
                auto_repair: true,
            }),
            None => None,
        };
        SkillDefinition {
            skill: SkillMeta {
                name: String::from_str(name),
                description: String::from_str(description),
                version: String::from_str("0.1.0-dynamic"),
                stage: String::from_str(stage),
                category: String::from_str(category),
                depends_on: Vec::new(),
            },
            input: SkillInput { required, optional: Vec::new() },
            output: SkillOutput {
                format: String::from_str("markdown"),
                file_prefix: String::from_str(name),
            },
            prompt: SkillPrompt { creation: String::from_str(prompt_template), repair },
            review,
        }
    }
}

} // verus!
