//! Quality levels, review issues and the order in which issues are repaired.
use vstd::prelude::*;

use crate::text::{ascii_upper, is_ascii_char, 
    chars_of, contains, contains_exec, find, find_exec, find_from, find_from_exec, index_of,
    index_of_exec, last_index_of, last_index_of_exec, lemma_find_from_facts, lemma_index_of_facts,
    lemma_last_index_of_facts, lowercase, slice_range, string_of, to_lowercase, to_uppercase, trim,
    trim_chars, uppercase, same_chars, text_is,
};

verus! {

/// The eight quality levels, from the lowest (`C`) to the highest (`SSS`).
#[derive(Debug, Clone, Copy, PartialEq, Eq, Structural, PartialOrd, Ord, Hash)]
pub enum QualityLevel {
    C,
    B,
    A,
    AA,
    AAA,
    S,
    SS,
    SSS,
}

/// The position of a level in the order `C < B < A < AA < AAA < S < SS < SSS`.
pub open spec fn level_rank(l: QualityLevel) -> nat {
    match l {
        QualityLevel::C => 0,
        QualityLevel::B => 1,
        QualityLevel::A => 2,
        QualityLevel::AA => 3,
        QualityLevel::AAA => 4,
        QualityLevel::S => 5,
        QualityLevel::SS => 6,
        QualityLevel::SSS => 7,
    }
}

/// The name of a level.
pub open spec fn level_name(l: QualityLevel) -> Seq<char> {
    match l {
        QualityLevel::C => seq!['C'],
        QualityLevel::B => seq!['B'],
        QualityLevel::A => seq!['A'],
        QualityLevel::AA => seq!['A', 'A'],
        QualityLevel::AAA => seq!['A', 'A', 'A'],
        QualityLevel::S => seq!['S'],
        QualityLevel::SS => seq!['S', 'S'],
        QualityLevel::SSS => seq!['S', 'S', 'S'],
    }
}

/// What a level means.
pub open spec fn level_description(l: QualityLevel) -> Seq<char> {
    match l {
        QualityLevel::C => "及格 - 基本可用，有明显缺陷"@,
        QualityLevel::B => "良好 - 质量尚可，有小问题"@,
        QualityLevel::A => "优秀 - 质量良好，少量瑕疵"@,
        QualityLevel::AA => "精品 - 质量上乘，几乎无瑕疵"@,
        QualityLevel::AAA => "神作 - 接近完美，极少问题"@,
        QualityLevel::S => "超神 - 超越 AAA，有独特亮点"@,
        QualityLevel::SS => "无双 - 极为罕见，多个维度突出"@,
        QualityLevel::SSS => "传世 - 顶级中的顶级，全方位完美"@,
    }
}

/// The level whose name is `u`; `C` for any other text.
pub open spec fn level_from_name(u: Seq<char>) -> QualityLevel {
    if u == seq!['C'] {
        QualityLevel::C
    } else if u == seq!['B'] {
        QualityLevel::B
    } else if u == seq!['A'] {
        QualityLevel::A
    } else if u == seq!['A', 'A'] {
        QualityLevel::AA
    } else if u == seq!['A', 'A', 'A'] {
        QualityLevel::AAA
    } else if u == seq!['S'] {
        QualityLevel::S
    } else if u == seq!['S', 'S'] {
        QualityLevel::SS
    } else if u == seq!['S', 'S', 'S'] {
        QualityLevel::SSS
    } else {
        QualityLevel::C
    }
}

/// The name of a level names that level.
pub proof fn lemma_level_name_parses(l: QualityLevel)
    ensures
        level_from_name(level_name(l)) == l,
{
    let n = level_name(l);
    let c = seq!['C'];
    let b = seq!['B'];
    let a = seq!['A'];
    let aa = seq!['A', 'A'];
    let aaa = seq!['A', 'A', 'A'];
    let s1 = seq!['S'];
    let s2 = seq!['S', 'S'];
    assert(c[0] != b[0] && c[0] != a[0] && b[0] != a[0] && c[0] != s1[0] && b[0] != s1[0] && a[0] != s1[0]);
    match l {
        QualityLevel::C => {},
        QualityLevel::B => { assert(n[0] != c[0]); },
        QualityLevel::A => { assert(n[0] != c[0] && n[0] != b[0]); },
        QualityLevel::AA => { assert(n.len() != c.len() && n.len() != b.len() && n.len() != a.len()); },
        QualityLevel::AAA => {
            assert(n.len() != c.len() && n.len() != b.len() && n.len() != a.len() && n.len() != aa.len());
        },
        QualityLevel::S => {
            assert(n[0] != c[0] && n[0] != b[0] && n[0] != a[0]);
            assert(n.len() != aa.len() && n.len() != aaa.len());
        },
        QualityLevel::SS => {
            assert(n.len() != c.len() && n.len() != b.len() && n.len() != a.len() && n.len() != aaa.len());
            assert(n.len() != s1.len() && n[0] != aa[0]);
        },
        QualityLevel::SSS => {
            assert(n.len() != c.len() && n.len() != b.len() && n.len() != a.len() && n.len() != aa.len());
            assert(n.len() != s1.len() && n.len() != s2.len() && n[0] != aaa[0]);
        },
    }
}

impl QualityLevel {
    pub fn as_str(&self) -> (r: &'static str)
        ensures
            r@ == level_name(*self),
    {
        proof {
            reveal_strlit("C");
            reveal_strlit("B");
            reveal_strlit("A");
            reveal_strlit("AA");
            reveal_strlit("AAA");
            reveal_strlit("S");
            reveal_strlit("SS");
            reveal_strlit("SSS");
        }
        match self {
            QualityLevel::C => "C",
            QualityLevel::B => "B",
            QualityLevel::A => "A",
            QualityLevel::AA => "AA",
            QualityLevel::AAA => "AAA",
            QualityLevel::S => "S",
            QualityLevel::SS => "SS",
            QualityLevel::SSS => "SSS",
        }
    }

    pub fn description(&self) -> (r: &'static str)
        ensures
            r@ == level_description(*self),
    {
        match self {
            QualityLevel::C => "及格 - 基本可用，有明显缺陷",
            QualityLevel::B => "良好 - 质量尚可，有小问题",
            QualityLevel::A => "优秀 - 质量良好，少量瑕疵",
            QualityLevel::AA => "精品 - 质量上乘，几乎无瑕疵",
            QualityLevel::AAA => "神作 - 接近完美，极少问题",
            QualityLevel::S => "超神 - 超越 AAA，有独特亮点",
            QualityLevel::SS => "无双 - 极为罕见，多个维度突出",
            QualityLevel::SSS => "传世 - 顶级中的顶级，全方位完美",
        }
    }

    /// Whether this level reaches `target`.
    pub fn meets_target(&self, target: &QualityLevel) -> (r: bool)
        ensures
            r == (level_rank(*self) >= level_rank(*target)),
    {
        self.rank() >= target.rank()
    }

    /// The position of this level, `C` being 0 and `SSS` 7.
    pub fn rank(&self) -> (r: u8)
        ensures
            r == level_rank(*self),
    {
        match self {
            QualityLevel::C => 0,
            QualityLevel::B => 1,
            QualityLevel::A => 2,
            QualityLevel::AA => 3,
            QualityLevel::AAA => 4,
            QualityLevel::S => 5,
            QualityLevel::SS => 6,
            QualityLevel::SSS => 7,
        }
    }

    /// The level named by an already upper-cased text; `C` for any other text.
    pub fn from_upper_name(u: &str) -> (r: QualityLevel)
        ensures
            r == level_from_name(u@),
    {
        let v = chars_of(u);
        let s = v.as_slice();
        let n_c = vec!['C'];
        let n_b = vec!['B'];
        let n_a = vec!['A'];
        let n_aa = vec!['A', 'A'];
        let n_aaa = vec!['A', 'A', 'A'];
        let n_s = vec!['S'];
        let n_ss = vec!['S', 'S'];
        let n_sss = vec!['S', 'S', 'S'];
        proof {
            assert(n_c@ =~= seq!['C']);
            assert(n_b@ =~= seq!['B']);
            assert(n_a@ =~= seq!['A']);
            assert(n_aa@ =~= seq!['A', 'A']);
            assert(n_aaa@ =~= seq!['A', 'A', 'A']);
            assert(n_s@ =~= seq!['S']);
            assert(n_ss@ =~= seq!['S', 'S']);
            assert(n_sss@ =~= seq!['S', 'S', 'S']);
        }
        if same_chars(s, n_c.as_slice()) {
            QualityLevel::C
        } else if same_chars(s, n_b.as_slice()) {
            QualityLevel::B
        } else if same_chars(s, n_a.as_slice()) {
            QualityLevel::A
        } else if same_chars(s, n_aa.as_slice()) {
            QualityLevel::AA
        } else if same_chars(s, n_aaa.as_slice()) {
            QualityLevel::AAA
        } else if same_chars(s, n_s.as_slice()) {
            QualityLevel::S
        } else if same_chars(s, n_ss.as_slice()) {
            QualityLevel::SS
        } else if same_chars(s, n_sss.as_slice()) {
            QualityLevel::SSS
        } else {
            QualityLevel::C
        }
    }

    /// The level named by `s`, compared after upper-casing; `C` for any other
    /// text.  The name of a level, in any ASCII case, gives that level back.
    pub fn from_str_lossy(s: &str) -> (r: QualityLevel)
        ensures
            r == level_from_name(uppercase(s@)),
            (forall|i: int| 0 <= i < s@.len() ==> is_ascii_char(#[trigger] s@[i]))
                ==> r == level_from_name(s@.map_values(|c: char| ascii_upper(c))),
            forall|l: QualityLevel| s@ == level_name(l) ==> r == l,
    {
        let u = to_uppercase(s);
        proof {
            assert forall|l: QualityLevel| s@ == level_name(l) implies level_from_name(u@) == l by {
                assert forall|i: int| 0 <= i < s@.len() implies is_ascii_char(#[trigger] s@[i])
                    && ascii_upper(s@[i]) == s@[i] by {
                    assert(s@[i] == 'A' || s@[i] == 'B' || s@[i] == 'C' || s@[i] == 'S');
                }
                assert(u@ =~= s@);
                lemma_level_name_parses(l);
            }
        }
        QualityLevel::from_upper_name(u.as_str())
    }
}


/// An issue found by a quality evaluation.
#[derive(Debug, Clone)]
pub struct QualityIssue {
    pub severity: String,
    pub category: String,
    pub description: String,
    pub priority: u32,
    pub fix_suggestion: String,
}

/// The repair rank of a lower-cased severity: critical first, then major,
/// minor, suggestion, and anything else last.
pub open spec fn severity_rank(lower: Seq<char>) -> nat {
    if lower == "critical"@ || lower == "严重"@ {
        0
    } else if lower == "major"@ || lower == "重要"@ {
        1
    } else if lower == "minor"@ || lower == "次要"@ {
        2
    } else if lower == "suggestion"@ || lower == "建议"@ {
        3
    } else {
        4
    }
}

/// The repair rank of an issue, by its severity compared in lower case.
pub open spec fn issue_rank(i: QualityIssue) -> nat {
    severity_rank(lowercase(i.severity@))
}

/// Issue `a` is repaired strictly before issue `b`: lower severity rank,
/// or equal rank and lower priority number.
pub open spec fn repaired_before(a: QualityIssue, b: QualityIssue) -> bool {
    issue_rank(a) < issue_rank(b) || (issue_rank(a) == issue_rank(b) && a.priority < b.priority)
}

/// Issues `a` and `b` have the same severity rank and the same priority.
pub open spec fn same_urgency(a: QualityIssue, b: QualityIssue) -> bool {
    issue_rank(a) == issue_rank(b) && a.priority == b.priority
}

/// `order` lists every index of `issues` once, sorted by urgency, issues of
/// equal urgency keeping their relative order (a stable sort).
pub open spec fn is_priority_order(issues: Seq<QualityIssue>, order: Seq<usize>) -> bool {
    &&& order.len() == issues.len()
    &&& forall|k: int| 0 <= k < order.len() ==> order[k] < issues.len()
    &&& forall|k: int, l: int| 0 <= k < l < order.len() ==> order[k] != order[l]
    &&& forall|k: int, l: int|
        0 <= k < l < order.len() ==> !repaired_before(issues[order[l] as int], issues[order[k] as int])
    &&& forall|k: int, l: int|
        0 <= k < l < order.len() && same_urgency(issues[order[k] as int], issues[order[l] as int])
            ==> order[k] < order[l]
}

/// The repair rank of a severity text.
pub fn severity_order(severity: &str) -> (r: u8)
    ensures
        r == severity_rank(lowercase(severity@)),
{
    let low = to_lowercase(severity);
    let v = chars_of(low.as_str());
    let s = v.as_slice();
    if text_is(s, "critical") || text_is(s, "严重") {
        0
    } else if text_is(s, "major") || text_is(s, "重要") {
        1
    } else if text_is(s, "minor") || text_is(s, "次要") {
        2
    } else if text_is(s, "suggestion") || text_is(s, "建议") {
        3
    } else {
        4
    }
}

/// The indices of `issues` in the order in which they are repaired.
pub fn priority_order(issues: &Vec<QualityIssue>) -> (order: Vec<usize>)
    ensures
        is_priority_order(issues@, order@),
{
    let n = issues.len();
    let mut ranks: Vec<u8> = Vec::new();
    let mut j: usize = 0;
    while j < n
        invariant
            j <= n,
            n == issues.len(),
            ranks.len() == j,
            forall|k: int| 0 <= k < j ==> ranks@[k] == issue_rank(issues@[k]),
        decreases n - j,
    {
        ranks.push(severity_order(issues[j].severity.as_str()));
        j += 1;
    }
    let mut order: Vec<usize> = Vec::new();
    let mut i: usize = 0;
    while i < n
        invariant
            i <= n,
            n == issues.len(),
            ranks.len() == n,
            forall|k: int| 0 <= k < n ==> ranks@[k] == issue_rank(issues@[k]),
            order.len() == i,
            forall|k: int| 0 <= k < order.len() ==> order@[k] < i,
            forall|k: int, l: int| 0 <= k < l < order.len() ==> order@[k] != order@[l],
            forall|k: int, l: int|
                0 <= k < l < order.len() ==> !repaired_before(issues@[order@[l] as int], issues@[order@[k] as int]),
            forall|k: int, l: int|
                0 <= k < l < order.len() && same_urgency(issues@[order@[k] as int], issues@[order@[l] as int])
                    ==> order@[k] < order@[l],
        decreases n - i,
    {
        let ri = ranks[i];
        let pi = issues[i].priority;
        let mut p: usize = order.len();
        while p > 0 && (ri < ranks[order[p - 1]] || (ri == ranks[order[p - 1]] && pi < issues[order[p - 1]].priority))
            invariant
                p <= order.len(),
                order.len() == i,
                i < n,
                n == issues.len(),
                ranks.len() == n,
                forall|k: int| 0 <= k < n ==> ranks@[k] == issue_rank(issues@[k]),
                forall|k: int| 0 <= k < order.len() ==> order@[k] < i,
                ri == issue_rank(issues@[i as int]),
                pi == issues@[i as int].priority,
                forall|k: int| p <= k < order.len() ==> repaired_before(issues@[i as int], issues@[order@[k] as int]),
            decreases p,
        {
            p -= 1;
        }
        let ghost old_order = order@;
        proof {
            if p > 0 {
                assert(!repaired_before(issues@[i as int], issues@[old_order[p - 1] as int]));
            }
        }
        order.insert(p, i);
        proof {
            let ii = issues@[i as int];
            assert forall|k: int| 0 <= k < order.len() implies order@[k] < i + 1 by {
                if k < p { assert(order@[k] == old_order[k]); }
                else if k > p { assert(order@[k] == old_order[k - 1]); }
            }
            assert forall|k: int, l: int| 0 <= k < l < order.len() implies order@[k] != order@[l] by {
                if k < p { assert(order@[k] == old_order[k]); }
                else if k > p { assert(order@[k] == old_order[k - 1]); }
                if l < p { assert(order@[l] == old_order[l]); }
                else if l > p { assert(order@[l] == old_order[l - 1]); }
            }
            assert forall|k: int, l: int| 0 <= k < l < order.len() implies
                !repaired_before(issues@[order@[l] as int], issues@[order@[k] as int]) by {
                if k < p { assert(order@[k] == old_order[k]); }
                else if k > p { assert(order@[k] == old_order[k - 1]); }
                if l < p { assert(order@[l] == old_order[l]); }
                else if l > p { assert(order@[l] == old_order[l - 1]); }
                if l == p && k < p - 1 {
                    assert(!repaired_before(issues@[old_order[p - 1] as int], issues@[old_order[k] as int]));
                }
                if k == p && l > p + 1 {
                    assert(repaired_before(ii, issues@[old_order[p as int] as int]));
                    assert(!repaired_before(issues@[old_order[l - 1] as int], issues@[old_order[p as int] as int]));
                }
            }
            assert forall|k: int, l: int| 0 <= k < l < order.len() && same_urgency(issues@[order@[k] as int], issues@[order@[l] as int])
                implies order@[k] < order@[l] by {
                if k < p { assert(order@[k] == old_order[k]); }
                else if k > p { assert(order@[k] == old_order[k - 1]); }
                if l < p { assert(order@[l] == old_order[l]); }
                else if l > p { assert(order@[l] == old_order[l - 1]); }
                if k == p && l > p {
                    assert(repaired_before(ii, issues@[old_order[l - 1] as int]));
                }
            }
        }
        i += 1;
    }
    order
}

/// The issues in the order in which they are repaired: by severity
/// (critical, major, minor, suggestion, other), then by priority number,
/// issues of equal urgency keeping their order.
pub fn get_repair_priority_list(issues: &Vec<QualityIssue>) -> (r: Vec<&QualityIssue>)
    ensures
        exists|order: Seq<usize>|
            is_priority_order(issues@, order)
            && r@.len() == order.len()
            && forall|k: int| 0 <= k < order.len() ==> *r@[k] == issues@[order[k] as int],
{
    let order = priority_order(issues);
    let mut r: Vec<&QualityIssue> = Vec::new();
    let mut k: usize = 0;
    while k < order.len()
        invariant
            k <= order.len(),
            is_priority_order(issues@, order@),
            r@.len() == k,
            forall|m: int| 0 <= m < k ==> *r@[m] == issues@[order@[m] as int],
        decreases order.len() - k,
    {
        r.push(&issues[order[k]]);
        k += 1;
    }
    r
}


/// The text between the first code fence and the next one, trimmed, when
/// the text holds two fences.
pub open spec fn fenced_block(t: Seq<char>) -> Option<Seq<char>> {
    match find(t, "```"@) {
        Some(s) => match find_from(t, "```"@, (s + 3) as nat) {
            Some(e) => Some(trim(t.subrange(s + 3, e))),
            None => None,
        },
        None => None,
    }
}

/// The text from the first `{` through the last `}`, or all of `t` when
/// either brace is missing.
pub open spec fn brace_span(t: Seq<char>) -> Seq<char> {
    match (index_of(t, '{'), last_index_of(t, '}')) {
        (Some(a), Some(b)) => t.subrange(a, b + 1),
        _ => t,
    }
}

/// The text between the first fence tagged `json` and the next fence after
/// the tag, trimmed, when there is such a pair.
pub open spec fn json_fenced_block(t: Seq<char>) -> Option<Seq<char>> {
    match find(t, "```json"@) {
        Some(s) => match find_from(t, "```"@, (s + 7) as nat) {
            Some(e) => Some(trim(t.subrange(s + 7, e))),
            None => None,
        },
        None => None,
    }
}

/// The JSON part of a model reply: the block fenced as `json` if there is
/// one, else the first fenced block, else the span from the first `{` to
/// the last `}`, else the whole reply.
pub open spec fn extracted_json(t: Seq<char>) -> Seq<char> {
    match json_fenced_block(t) {
        Some(b) => b,
        None => match fenced_block(t) {
            Some(b) => b,
            None => brace_span(t),
        },
    }
}

/// The texts on which extracting JSON slices out of bounds: those without
/// a fenced block whose last `}` stands before the character that precedes
/// their first `{`.
pub open spec fn extract_json_fails(t: Seq<char>) -> bool {
    &&& json_fenced_block(t) is None
    &&& fenced_block(t) is None
    &&& match (index_of(t, '{'), last_index_of(t, '}')) {
        (Some(a), Some(b)) => b + 1 < a,
        _ => false,
    }
}

/// Does extracting JSON from `text` slice out of bounds?
pub fn extract_json_fails_exec(text: &str) -> (r: bool)
    ensures
        r == extract_json_fails(text@),
{
    let t = chars_of(text);
    if json_fenced_block_exec(t.as_slice()).is_some() {
        return false;
    }
    match fenced_block_exec(t.as_slice()) {
        Some(_) => false,
        None => match (index_of_exec(t.as_slice(), '{'), last_index_of_exec(t.as_slice(), '}')) {
            (Some(a), Some(b)) => b < a && a - b > 1,
            _ => false,
        },
    }
}

fn json_fenced_block_exec(t: &[char]) -> (r: Option<Vec<char>>)
    ensures
        match r {
            Some(v) => json_fenced_block(t@) == Some(v@),
            None => json_fenced_block(t@) is None,
        },
{
    let tag = chars_of("```json");
    let fence = chars_of("```");
    proof {
        reveal_strlit("```json");
        reveal_strlit("```");
        assert(tag@.len() == 7);
        assert(fence@.len() == 3);
    }
    match find_exec(t, tag.as_slice()) {
        Some(s) => {
            proof {
                lemma_find_from_facts(t@, tag@, 0);
                assert(s + 7 <= t@.len());
                assert(t@.len() == t.len());
            }
            match find_from_exec(t, fence.as_slice(), s + 7) {
                Some(e) => {
                    proof {
                        lemma_find_from_facts(t@, fence@, (s + 7) as nat);
                    }
                    let inner = slice_range(t, s + 7, e);
                    Some(trim_chars(inner.as_slice()))
                },
                None => None,
            }
        },
        None => None,
    }
}

fn fenced_block_exec(t: &[char]) -> (r: Option<Vec<char>>)
    ensures
        match r {
            Some(v) => fenced_block(t@) == Some(v@),
            None => fenced_block(t@) is None,
        },
{
    let fence = chars_of("```");
    proof {
        reveal_strlit("```");
        assert(fence@.len() == 3);
    }
    match find_exec(t, fence.as_slice()) {
        Some(s) => {
            proof {
                lemma_find_from_facts(t@, fence@, 0);
                assert(s + 3 <= t@.len());
                assert(t@.len() == t.len());
            }
            match find_from_exec(t, fence.as_slice(), s + 3) {
                Some(e) => {
                    proof {
                        lemma_find_from_facts(t@, fence@, (s + 3) as nat);
                    }
                    let inner = slice_range(t, s + 3, e);
                    Some(trim_chars(inner.as_slice()))
                },
                None => None,
            }
        },
        None => None,
    }
}

/// The JSON part of a model reply (see `extracted_json`).
pub fn extract_json(text: &str) -> (r: String)
    requires
        !extract_json_fails(text@),
    ensures
        r@ == extracted_json(text@),
{
    let t = chars_of(text);
    if let Some(b) = json_fenced_block_exec(t.as_slice()) {
        return string_of(b.as_slice());
    }
    match fenced_block_exec(t.as_slice()) {
        Some(b) => string_of(b.as_slice()),
        None => {
            match (index_of_exec(t.as_slice(), '{'), last_index_of_exec(t.as_slice(), '}')) {
                (Some(a), Some(b)) => {
                    proof {
                        lemma_index_of_facts(t@, '{');
                        lemma_last_index_of_facts(t@, '}');
                        assert(t@.len() == t.len());
                    }
                    let span = slice_range(t.as_slice(), a, b + 1);
                    string_of(span.as_slice())
                },
                _ => string_of(t.as_slice()),
            }
        },
    }
}

} // verus!
