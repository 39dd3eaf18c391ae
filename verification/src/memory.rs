//! Long-lived project memory: entries by id, an index by category, search,
//! and the memory context given to the model.
use vstd::prelude::*;
use vstd::string::StringExecFns;

use crate::stamp::{current_time, is_lower_hex, short_id};
use crate::text::{owned_strings, byte_len, bytes_at_most, contains, contains_exec, chars_of, extend_chars, last_index_of, last_index_of_exec, lemma_last_index_of_facts, prefix_bytes, prefix_bytes_exec, push_str, slice_to, string_of, eq_ignore_ascii_case, eq_ignore_ascii_case_exec, lowercase, str_eq, to_lowercase};

verus! {

/// What a memory entry is about.
#[derive(Debug, Clone, Copy, PartialEq, Eq, Structural, Hash)]
pub enum MemoryCategory {
    WorldBuilding,
    Character,
    Plot,
    Decision,
    QualityReport,
    Issue,
    Preference,
    General,
}

/// Where a memory entry came from.
#[derive(Debug, Clone, Copy, PartialEq, Eq, Structural)]
pub enum MemorySource {
    Auto,
    LlmExtract,
    UserInput,
    SkillOutput,
    Review,
}

/// A memory entry.  `timestamp` is a Unix time in nanoseconds;
/// `importance` is a fixed-point number in units of 10^-9 (so 0 to
/// 1_000_000_000 for 0.0 to 1.0), the first key of search ranking.
#[derive(Debug, Clone)]
pub struct MemoryEntry {
    pub id: String,
    pub category: MemoryCategory,
    pub title: String,
    pub content: String,
    pub tags: Vec<String>,
    pub timestamp: i64,
    pub importance: i64,
    pub source: MemorySource,
    pub metadata: Vec<(String, String)>,
}

/// The slot of a category in the index.
pub open spec fn category_rank(c: MemoryCategory) -> nat {
    match c {
        MemoryCategory::WorldBuilding => 0,
        MemoryCategory::Character => 1,
        MemoryCategory::Plot => 2,
        MemoryCategory::Decision => 3,
        MemoryCategory::QualityReport => 4,
        MemoryCategory::Issue => 5,
        MemoryCategory::Preference => 6,
        MemoryCategory::General => 7,
    }
}

fn category_slot(c: MemoryCategory) -> (r: usize)
    ensures
        r == category_rank(c),
        r < 8,
{
    match c {
        MemoryCategory::WorldBuilding => 0,
        MemoryCategory::Character => 1,
        MemoryCategory::Plot => 2,
        MemoryCategory::Decision => 3,
        MemoryCategory::QualityReport => 4,
        MemoryCategory::Issue => 5,
        MemoryCategory::Preference => 6,
        MemoryCategory::General => 7,
    }
}

/// No two entries share an id.
pub open spec fn entry_ids_unique(s: Seq<MemoryEntry>) -> bool {
    forall|i: int, j: int| 0 <= i < j < s.len() ==> s[i].id@ != s[j].id@
}

/// Whether some entry has id `id`.
pub open spec fn has_id(s: Seq<MemoryEntry>, id: Seq<char>) -> bool {
    exists|k: int| 0 <= k < s.len() && #[trigger] s[k].id@ == id
}

/// The entry with id `id`, if any.
pub open spec fn entry_of(s: Seq<MemoryEntry>, id: Seq<char>) -> Option<MemoryEntry> {
    if has_id(s, id) {
        Some(s[choose|k: int| 0 <= k < s.len() && #[trigger] s[k].id@ == id])
    } else {
        None
    }
}

/// In a list of unique ids, the entry at `k` is the entry of its id.
pub proof fn lemma_entry_at(s: Seq<MemoryEntry>, k: int)
    requires
        entry_ids_unique(s),
        0 <= k < s.len(),
    ensures
        entry_of(s, s[k].id@) == Some(s[k]),
{
    assert(has_id(s, s[k].id@));
    let c = choose|j: int| 0 <= j < s.len() && #[trigger] s[j].id@ == s[k].id@;
    assert(c == k) by {
        if c < k {
            assert(s[c].id@ != s[k].id@);
        } else if c > k {
            assert(s[k].id@ != s[c].id@);
        }
    }
}

/// Replacing the entry at `i` by one of the same id, or appending one of a
/// new id, gives that id the new entry and leaves every other id's entry.
pub proof fn lemma_entry_put(before: Seq<MemoryEntry>, after: Seq<MemoryEntry>, i: int, e: MemoryEntry)
    requires
        entry_ids_unique(before),
        0 <= i <= before.len(),
        i < before.len() ==> before[i].id@ == e.id@ && after == before.update(i, e),
        i == before.len() ==> !has_id(before, e.id@) && after == before.push(e),
    ensures
        entry_ids_unique(after),
        entry_of(after, e.id@) == Some(e),
        forall|id: Seq<char>| id != e.id@ ==> entry_of(after, id) == entry_of(before, id),
{
    assert forall|a: int, b: int| 0 <= a < b < after.len() implies after[a].id@ != after[b].id@ by {
        if a != i { assert(after[a] == before[a]); }
        if b != i { assert(after[b] == before[b]); }
        if a == i && i == before.len() { assert(false); }
        if b == i && i == before.len() {
            assert(before[a].id@ != e.id@) by {
                if before[a].id@ == e.id@ {
                    assert(has_id(before, e.id@));
                }
            }
        }
    }
    assert(after[i] == e);
    lemma_entry_at(after, i);
    assert forall|id: Seq<char>| id != e.id@ implies entry_of(after, id) == entry_of(before, id) by {
        if has_id(before, id) {
            let k = choose|k: int| 0 <= k < before.len() && #[trigger] before[k].id@ == id;
            assert(after[k] == before[k]);
            lemma_entry_at(before, k);
            lemma_entry_at(after, k);
        } else {
            assert forall|k: int| 0 <= k < after.len() implies after[k].id@ != id by {
                if k != i {
                    assert(after[k] == before[k]);
                    if before[k].id@ == id {
                        assert(has_id(before, id));
                    }
                }
            }
        }
    }
}

/// The entries of `ids`, in order, skipping ids with no entry.
pub open spec fn resolve(s: Seq<MemoryEntry>, ids: Seq<Seq<char>>) -> Seq<MemoryEntry>
    decreases ids.len(),
{
    if ids.len() == 0 {
        seq![]
    } else {
        resolve(s, ids.drop_last()) + match entry_of(s, ids.last()) {
            Some(e) => seq![e],
            None => seq![],
        }
    }
}

/// The ids of the entries of category `c`, in order.
pub open spec fn ids_in(s: Seq<MemoryEntry>, c: MemoryCategory) -> Seq<Seq<char>>
    decreases s.len(),
{
    if s.len() == 0 {
        seq![]
    } else {
        ids_in(s.drop_last(), c) + if s.last().category == c { seq![s.last().id@] } else { seq![] }
    }
}

/// The entry of `id` after the entries of `s` were saved in turn: the
/// last one with that id.
pub open spec fn last_with_id(s: Seq<MemoryEntry>, id: Seq<char>) -> Option<MemoryEntry>
    decreases s.len(),
{
    if s.len() == 0 {
        None
    } else if s.last().id@ == id {
        Some(s.last())
    } else {
        last_with_id(s.drop_last(), id)
    }
}

/// The project memory: entries, each id once, and for each category the
/// ids saved under it, in the order in which they were saved.
pub struct MemoryStore {
    entries: Vec<MemoryEntry>,
    category_index: Vec<Vec<String>>,
}

impl MemoryStore {
    /// The entries, in the order in which their ids were first saved.
    pub closed spec fn entry_list(&self) -> Seq<MemoryEntry> {
        self.entries@
    }

    /// The ids saved under category `c`, one per save, in order.
    pub closed spec fn category_ids(&self, c: MemoryCategory) -> Seq<Seq<char>> {
        self.category_index@[category_rank(c) as int]@.map_values(|s: String| s@)
    }

    pub closed spec fn wf(&self) -> bool {
        &&& entry_ids_unique(self.entries@)
        &&& self.category_index@.len() == 8
    }

    /// The entries saved under category `c`, in the order of the index.
    pub open spec fn by_category(&self, c: MemoryCategory) -> Seq<MemoryEntry> {
        resolve(self.entry_list(), self.category_ids(c))
    }

    /// The store's entry with id `id`.
    pub open spec fn entry(&self, id: Seq<char>) -> Option<MemoryEntry> {
        entry_of(self.entry_list(), id)
    }

    pub proof fn lemma_wf_unique(&self)
        requires
            self.wf(),
        ensures
            entry_ids_unique(self.entry_list()),
    {
    }

    fn empty() -> (r: MemoryStore)
        ensures
            r.wf(),
            r.entry_list().len() == 0,
            forall|c: MemoryCategory| #[trigger] r.category_ids(c).len() == 0,
    {
        let mut index: Vec<Vec<String>> = Vec::new();
        let mut k: usize = 0;
        while k < 8
            invariant
                k <= 8,
                index@.len() == k,
                forall|j: int| 0 <= j < k ==> #[trigger] index@[j]@.len() == 0,
            decreases 8 - k,
        {
            index.push(Vec::new());
            k += 1;
        }
        let r = MemoryStore { entries: Vec::new(), category_index: index };
        proof {
            assert forall|c: MemoryCategory| #[trigger] r.category_ids(c).len() == 0 by {
                assert(index@[category_rank(c) as int]@.len() == 0);
            }
        }
        r
    }

    fn position(&self, id: &str) -> (r: Option<usize>)
        requires
            self.wf(),
        ensures
            match r {
                Some(i) => i < self.entry_list().len() && self.entry_list()[i as int].id@ == id@
                    && self.entry(id@) == Some(self.entry_list()[i as int]),
                None => !has_id(self.entry_list(), id@) && self.entry(id@) is None,
            },
    {
        let mut i: usize = 0;
        while i < self.entries.len()
            invariant
                i <= self.entries.len(),
                entry_ids_unique(self.entries@),
                forall|j: int| 0 <= j < i ==> self.entries@[j].id@ != id@,
            decreases self.entries.len() - i,
        {
            if str_eq(self.entries[i].id.as_str(), id) {
                proof {
                    lemma_entry_at(self.entries@, i as int);
                }
                return Some(i);
            }
            i += 1;
        }
        None
    }

    /// Saves `entry` under its id (replacing an entry of that id) and adds
    /// its id to the index of its category; returns the id.
    pub fn save(&mut self, entry: MemoryEntry) -> (r: String)
        requires
            old(self).wf(),
        ensures
            final(self).wf(),
            r@ == entry.id@,
            final(self).entry(entry.id@) == Some(entry),
            forall|id: Seq<char>| id != entry.id@ ==> final(self).entry(id) == old(self).entry(id),
            final(self).category_ids(entry.category) == old(self).category_ids(entry.category).push(entry.id@),
            forall|c: MemoryCategory| c != entry.category ==> final(self).category_ids(c) == old(self).category_ids(c),
            has_id(old(self).entry_list(), entry.id@) ==> final(self).entry_list().len() == old(self).entry_list().len(),
            !has_id(old(self).entry_list(), entry.id@) ==> final(self).entry_list() == old(self).entry_list().push(entry),
    {
        let id = entry.id.clone();
        let slot = category_slot(entry.category);
        let ghost old_index = self.category_index@;
        let mut ids = self.category_index.remove(slot);
        let ghost ids0 = ids@;
        ids.push(id.clone());
        self.category_index.insert(slot, ids);
        proof {
            assert(self.category_index@ =~= old_index.update(slot as int, self.category_index@[slot as int]));
            assert(self.category_index@[slot as int]@ == ids0.push(id));
            assert(self.category_index@[slot as int]@.map_values(|s: String| s@)
                =~= ids0.map_values(|s: String| s@).push(id@));
            assert forall|c: MemoryCategory| c != entry.category implies
                self.category_ids(c) == old(self).category_ids(c) by {
                assert(category_rank(c) != category_rank(entry.category));
            }
        }
        let ghost before = self.entries@;
        let ghost e = entry;
        match self.position(id.as_str()) {
            Some(i) => {
                let _ = self.entries.remove(i);
                self.entries.insert(i, entry);
                proof {
                    assert(self.entries@ =~= before.update(i as int, e));
                    lemma_entry_put(before, self.entries@, i as int, e);
                }
            },
            None => {
                self.entries.push(entry);
                proof {
                    lemma_entry_put(before, self.entries@, before.len() as int, e);
                }
            },
        }
        id
    }

    /// A store rebuilt from saved entries: each saved in turn.
    pub fn new(entries: Vec<MemoryEntry>) -> (r: MemoryStore)
        ensures
            r.wf(),
            forall|id: Seq<char>| #[trigger] r.entry(id) == last_with_id(entries@, id),
            forall|c: MemoryCategory| #[trigger] r.category_ids(c) == ids_in(entries@, c),
    {
        let ghost all = entries@;
        assert(all.len() == entries.len());
        let mut rest = entries;
        let mut store = MemoryStore::empty();
        let mut i: usize = 0;
        proof {
            assert(all.take(0) =~= Seq::<MemoryEntry>::empty());
            assert forall|c: MemoryCategory| #[trigger] store.category_ids(c) == ids_in(all.take(0), c) by {
                assert(store.category_ids(c) =~= Seq::<Seq<char>>::empty());
            }
        }
        while rest.len() > 0
            invariant
                store.wf(),
                all.len() <= usize::MAX,
                i + rest@.len() == all.len(),
                rest@ == all.skip(i as int),
                forall|id: Seq<char>| #[trigger] store.entry(id) == last_with_id(all.take(i as int), id),
                forall|c: MemoryCategory| #[trigger] store.category_ids(c) == ids_in(all.take(i as int), c),
            decreases rest.len(),
        {
            let e = rest.remove(0);
            let ghost g = e;
            let ghost s0 = store;
            proof {
                assert(g == all[i as int]);
                assert(all.take(i + 1).drop_last() =~= all.take(i as int));
                assert(all.take(i + 1).last() == g);
            }
            store.save(e);
            proof {
                assert forall|id: Seq<char>| #[trigger] store.entry(id) == last_with_id(all.take(i + 1), id) by {
                    if id != g.id@ {
                        assert(store.entry(id) == s0.entry(id));
                    }
                }
                assert forall|c: MemoryCategory| #[trigger] store.category_ids(c) == ids_in(all.take(i + 1), c) by {
                    if c != g.category {
                        assert(store.category_ids(c) == s0.category_ids(c));
                    }
                }
                assert(rest@ =~= all.skip(i + 1));
            }
            i += 1;
        }
        proof {
            assert(all.take(i as int) =~= all);
        }
        store
    }

    /// The entry with id `id`.
    pub fn get(&self, id: &str) -> (r: Option<&MemoryEntry>)
        requires
            self.wf(),
        ensures
            match r {
                Some(e) => self.entry(id@) == Some(*e),
                None => self.entry(id@) is None,
            },
    {
        match self.position(id) {
            Some(i) => Some(&self.entries[i]),
            None => None,
        }
    }

    /// All entries, for writing the store out.
    pub fn entries(&self) -> (r: &[MemoryEntry])
        ensures
            r@ == self.entry_list(),
    {
        self.entries.as_slice()
    }

    /// The number of entries.
    pub fn len(&self) -> (r: usize)
        ensures
            r == self.entry_list().len(),
    {
        self.entries.len()
    }

    /// Whether the store holds no entry.
    pub fn is_empty(&self) -> (r: bool)
        ensures
            r == (self.entry_list().len() == 0),
    {
        self.entries.len() == 0
    }
}


impl MemoryStore {
    /// Saves a new entry with a fresh eight-character id, the current
    /// time and no metadata; returns the id.
    pub fn add(
        &mut self,
        category: MemoryCategory,
        title: &str,
        content: &str,
        tags: Vec<&str>,
        importance: i64,
        source: MemorySource,
    ) -> (r: String)
        requires
            old(self).wf(),
        ensures
            final(self).wf(),
            r@.len() == 8,
            forall|k: int| 0 <= k < 8 ==> is_lower_hex(#[trigger] r@[k]),
            final(self).entry(r@) matches Some(e) && {
                &&& e.id@ == r@
                &&& e.category == category
                &&& e.title@ == title@
                &&& e.content@ == content@
                &&& e.tags@.map_values(|t: String| t@) == tags@.map_values(|t: &str| t@)
                &&& e.importance == importance
                &&& e.source == source
                &&& e.metadata@.len() == 0
            },
            forall|id: Seq<char>| id != r@ ==> final(self).entry(id) == old(self).entry(id),
            final(self).category_ids(category) == old(self).category_ids(category).push(r@),
            forall|c: MemoryCategory| c != category ==> final(self).category_ids(c) == old(self).category_ids(c),
    {
        let tags = owned_strings(&tags);
        self.add_owned(category, String::from_str(title), String::from_str(content), tags, importance, source)
    }

    pub(crate) fn add_owned(
        &mut self,
        category: MemoryCategory,
        title: String,
        content: String,
        tags: Vec<String>,
        importance: i64,
        source: MemorySource,
    ) -> (r: String)
        requires
            old(self).wf(),
        ensures
            final(self).wf(),
            r@.len() == 8,
            forall|k: int| 0 <= k < 8 ==> is_lower_hex(#[trigger] r@[k]),
            final(self).entry(r@) matches Some(e) && {
                &&& e.id@ == r@
                &&& e.category == category
                &&& e.title@ == title@
                &&& e.content@ == content@
                &&& e.tags@.map_values(|t: String| t@) == tags@.map_values(|t: String| t@)
                &&& e.importance == importance
                &&& e.source == source
                &&& e.metadata@.len() == 0
            },
            forall|id: Seq<char>| id != r@ ==> final(self).entry(id) == old(self).entry(id),
            final(self).category_ids(category) == old(self).category_ids(category).push(r@),
            forall|c: MemoryCategory| c != category ==> final(self).category_ids(c) == old(self).category_ids(c),
    {
        let id = short_id();
        let entry = MemoryEntry {
            id,
            category,
            title,
            content,
            tags,
            timestamp: current_time(),
            importance,
            source,
            metadata: Vec::new(),
        };
        self.save(entry)
    }

    fn resolve_ids(&self, ids: &Vec<String>) -> (r: Vec<&MemoryEntry>)
        requires
            self.wf(),
        ensures
            r@.map_values(|e: &MemoryEntry| *e) == resolve(self.entry_list(), ids@.map_values(|s: String| s@)),
    {
        let ghost idv = ids@.map_values(|s: String| s@);
        let mut r: Vec<&MemoryEntry> = Vec::new();
        let mut i: usize = 0;
        proof {
            assert(idv.take(0) =~= Seq::<Seq<char>>::empty());
            assert(r@.map_values(|e: &MemoryEntry| *e) =~= Seq::<MemoryEntry>::empty());
        }
        while i < ids.len()
            invariant
                self.wf(),
                i <= ids.len(),
                idv == ids@.map_values(|s: String| s@),
                r@.map_values(|e: &MemoryEntry| *e) == resolve(self.entry_list(), idv.take(i as int)),
            decreases ids.len() - i,
        {
            let ghost r0 = r@;
            proof {
                assert(idv.take(i + 1).drop_last() =~= idv.take(i as int));
                assert(idv.take(i + 1).last() == ids@[i as int]@);
            }
            match self.position(ids[i].as_str()) {
                Some(k) => {
                    r.push(&self.entries[k]);
                    proof {
                        assert(r@.map_values(|e: &MemoryEntry| *e)
                            =~= r0.map_values(|e: &MemoryEntry| *e).push(self.entries@[k as int]));
                    }
                },
                None => {
                    proof {
                        assert(r@.map_values(|e: &MemoryEntry| *e) =~= r0.map_values(|e: &MemoryEntry| *e) + seq![]);
                    }
                },
            }
            i += 1;
        }
        proof {
            assert(idv.take(ids.len() as int) =~= idv);
        }
        r
    }

    /// The entries saved under `category`, one per id in its index, in
    /// order; ids whose entry is gone are skipped.
    pub fn get_by_category(&self, category: &MemoryCategory) -> (r: Vec<&MemoryEntry>)
        requires
            self.wf(),
        ensures
            r@.map_values(|e: &MemoryEntry| *e) == self.by_category(*category),
    {
        let slot = category_slot(*category);
        self.resolve_ids(&self.category_index[slot])
    }
}

/// Whether one of `tags` equals `tag`, ASCII case ignored.
pub open spec fn has_tag(tags: Seq<String>, tag: Seq<char>) -> bool {
    exists|k: int| 0 <= k < tags.len() && eq_ignore_ascii_case(#[trigger] tags[k]@, tag)
}

fn has_tag_exec(tags: &Vec<String>, tag: &[char]) -> (r: bool)
    ensures
        r == has_tag(tags@, tag@),
{
    let mut k: usize = 0;
    while k < tags.len()
        invariant
            k <= tags.len(),
            forall|j: int| 0 <= j < k ==> !eq_ignore_ascii_case(#[trigger] tags@[j]@, tag@),
        decreases tags.len() - k,
    {
        let t = chars_of(tags[k].as_str());
        if eq_ignore_ascii_case_exec(t.as_slice(), tag) {
            return true;
        }
        k += 1;
    }
    false
}

impl MemoryStore {
    /// The entries with a tag equal to `tag`, ASCII case ignored, in store
    /// order.
    pub fn search_by_tag(&self, tag: &str) -> (r: Vec<&MemoryEntry>)
        ensures
            r@.map_values(|e: &MemoryEntry| *e) == self.entry_list().filter(|e: MemoryEntry| has_tag(e.tags@, tag@)),
    {
        let ghost pred = |e: MemoryEntry| has_tag(e.tags@, tag@);
        let tc = chars_of(tag);
        let mut r: Vec<&MemoryEntry> = Vec::new();
        let mut i: usize = 0;
        proof {
            assert(self.entries@.take(0).filter(pred) =~= Seq::<MemoryEntry>::empty());
            assert(r@.map_values(|e: &MemoryEntry| *e) =~= Seq::<MemoryEntry>::empty());
        }
        while i < self.entries.len()
            invariant
                i <= self.entries.len(),
                tc@ == tag@,
                pred == (|e: MemoryEntry| has_tag(e.tags@, tag@)),
                r@.map_values(|e: &MemoryEntry| *e) == self.entries@.take(i as int).filter(pred),
            decreases self.entries.len() - i,
        {
            let ghost r0 = r@;
            proof {
                reveal_with_fuel(Seq::<_>::filter, 1);
                assert(self.entries@.take(i + 1).drop_last() =~= self.entries@.take(i as int));
            }
            if has_tag_exec(&self.entries[i].tags, tc.as_slice()) {
                r.push(&self.entries[i]);
                proof {
                    assert(r@.map_values(|e: &MemoryEntry| *e)
                        =~= r0.map_values(|e: &MemoryEntry| *e).push(self.entries@[i as int]));
                }
            }
            i += 1;
        }
        proof {
            assert(self.entries@.take(self.entries.len() as int) =~= self.entries@);
        }
        r
    }
}


/// Whether an entry matches a lowercased query: the query occurs in its
/// lowercased title, content or one of its lowercased tags.
pub open spec fn matches_query(e: MemoryEntry, q: Seq<char>) -> bool {
    ||| contains(lowercase(e.title@), q)
    ||| contains(lowercase(e.content@), q)
    ||| exists|k: int| 0 <= k < e.tags@.len() && contains(lowercase(#[trigger] e.tags@[k]@), q)
}

/// Search ranks `a` before `b`: more important, or as important and newer.
pub open spec fn ranks_before(a: MemoryEntry, b: MemoryEntry) -> bool {
    a.importance > b.importance || (a.importance == b.importance && a.timestamp > b.timestamp)
}

/// `a` and `b` rank alike.
pub open spec fn same_rank(a: MemoryEntry, b: MemoryEntry) -> bool {
    a.importance == b.importance && a.timestamp == b.timestamp
}

/// `order` lists, once each, the positions of the entries of `s` that
/// match `q`, ranked (most important, then newest, first), entries that
/// rank alike keeping their store order.
pub open spec fn is_search_order(s: Seq<MemoryEntry>, q: Seq<char>, order: Seq<usize>) -> bool {
    &&& forall|k: int| 0 <= k < order.len() ==> order[k] < s.len() && matches_query(s[order[k] as int], q)
    &&& forall|k: int, l: int| 0 <= k < l < order.len() ==> order[k] != order[l]
    &&& forall|i: int| 0 <= i < s.len() && matches_query(#[trigger] s[i], q) ==> order.contains(i as usize)
    &&& forall|k: int, l: int|
        0 <= k < l < order.len() ==> !ranks_before(s[order[l] as int], s[order[k] as int])
    &&& forall|k: int, l: int|
        0 <= k < l < order.len() && same_rank(s[order[k] as int], s[order[l] as int]) ==> order[k] < order[l]
}

/// Position `i` comes before position `j` in search order.
pub open spec fn search_precedes(s: Seq<MemoryEntry>, i: usize, j: usize) -> bool {
    ranks_before(s[i as int], s[j as int]) || (same_rank(s[i as int], s[j as int]) && i < j)
}

/// A search order lists its positions strictly ascending in search order.
proof fn lemma_search_order_ascends(s: Seq<MemoryEntry>, q: Seq<char>, o: Seq<usize>)
    requires
        is_search_order(s, q, o),
    ensures
        forall|k: int, l: int| 0 <= k < l < o.len() ==> search_precedes(s, #[trigger] o[k], #[trigger] o[l]),
{
    assert forall|k: int, l: int| 0 <= k < l < o.len() implies search_precedes(s, #[trigger] o[k], #[trigger] o[l]) by {
        assert(o[k] != o[l]);
        assert(!ranks_before(s[o[l] as int], s[o[k] as int]));
        if same_rank(s[o[k] as int], s[o[l] as int]) {
            assert(o[k] < o[l]);
        }
    }
}

/// Two sequences of positions with the same elements, both strictly
/// ascending in search order, are equal.
proof fn lemma_ascending_unique(s: Seq<MemoryEntry>, a: Seq<usize>, b: Seq<usize>)
    requires
        forall|k: int, l: int| 0 <= k < l < a.len() ==> search_precedes(s, #[trigger] a[k], #[trigger] a[l]),
        forall|k: int, l: int| 0 <= k < l < b.len() ==> search_precedes(s, #[trigger] b[k], #[trigger] b[l]),
        forall|x: usize| a.contains(x) <==> b.contains(x),
    ensures
        a == b,
    decreases a.len(),
{
    if a.len() == 0 {
        if b.len() > 0 {
            assert(b.contains(b[0]));
        }
        assert(b =~= a);
    } else {
        assert(a.contains(a[0]));
        assert(b.len() > 0);
        assert(b.contains(b[0]));
        let j = choose|j: int| 0 <= j < b.len() && b[j] == a[0];
        let i = choose|i: int| 0 <= i < a.len() && a[i] == b[0];
        if j > 0 {
            assert(search_precedes(s, b[0], b[j]));
            if i > 0 {
                assert(search_precedes(s, a[0], a[i]));
                assert(false);
            } else {
                assert(b[0] == a[0]);
                assert(search_precedes(s, b[0], b[j]));
                assert(false);
            }
        }
        assert(a[0] == b[0]);
        let a1 = a.drop_first();
        let b1 = b.drop_first();
        assert forall|x: usize| a1.contains(x) <==> b1.contains(x) by {
            if a1.contains(x) {
                let k = choose|k: int| 0 <= k < a1.len() && a1[k] == x;
                assert(a.contains(x) && a[k + 1] == x);
                assert(search_precedes(s, a[0], a[k + 1]));
                assert(b.contains(x));
                let m = choose|m: int| 0 <= m < b.len() && b[m] == x;
                if m == 0 {
                    assert(false);
                }
                assert(b1[m - 1] == x);
            }
            if b1.contains(x) {
                let k = choose|k: int| 0 <= k < b1.len() && b1[k] == x;
                assert(b.contains(x) && b[k + 1] == x);
                assert(search_precedes(s, b[0], b[k + 1]));
                assert(a.contains(x));
                let m = choose|m: int| 0 <= m < a.len() && a[m] == x;
                if m == 0 {
                    assert(false);
                }
                assert(a1[m - 1] == x);
            }
        }
        assert forall|k: int, l: int| 0 <= k < l < a1.len() implies search_precedes(s, #[trigger] a1[k], #[trigger] a1[l]) by {
            assert(a1[k] == a[k + 1] && a1[l] == a[l + 1]);
        }
        assert forall|k: int, l: int| 0 <= k < l < b1.len() implies search_precedes(s, #[trigger] b1[k], #[trigger] b1[l]) by {
            assert(b1[k] == b[k + 1] && b1[l] == b[l + 1]);
        }
        lemma_ascending_unique(s, a1, b1);
        assert(a =~= seq![a[0]] + a1);
        assert(b =~= seq![b[0]] + b1);
    }
}

/// There is at most one search order.
pub proof fn lemma_search_order_unique(s: Seq<MemoryEntry>, q: Seq<char>, o1: Seq<usize>, o2: Seq<usize>)
    requires
        is_search_order(s, q, o1),
        is_search_order(s, q, o2),
    ensures
        o1 == o2,
{
    lemma_search_order_ascends(s, q, o1);
    lemma_search_order_ascends(s, q, o2);
    assert forall|x: usize| o1.contains(x) <==> o2.contains(x) by {
        if o1.contains(x) {
            let k = choose|k: int| 0 <= k < o1.len() && o1[k] == x;
            assert(matches_query(s[x as int], q));
            assert(o2.contains((x as int) as usize));
        }
        if o2.contains(x) {
            let k = choose|k: int| 0 <= k < o2.len() && o2[k] == x;
            assert(matches_query(s[x as int], q));
            assert(o1.contains((x as int) as usize));
        }
    }
    lemma_ascending_unique(s, o1, o2);
}

/// The search order of the entries of `s` for the lowercased query `q`.
pub open spec fn ranked_matches(s: Seq<MemoryEntry>, q: Seq<char>) -> Seq<usize> {
    choose|o: Seq<usize>| is_search_order(s, q, o)
}

/// What a search of `s` for the lowercased query `q` returns: the entries
/// in search order, at most `limit` of them.
pub open spec fn search_hits(s: Seq<MemoryEntry>, q: Seq<char>, limit: nat) -> Seq<MemoryEntry> {
    let o = ranked_matches(s, q);
    let n = if limit < o.len() { limit } else { o.len() };
    Seq::new(n, |k: int| s[o[k] as int])
}

fn contains_lowered(text: &str, q: &[char]) -> (r: bool)
    ensures
        r == contains(lowercase(text@), q@),
{
    let l = to_lowercase(text);
    let lc = chars_of(l.as_str());
    contains_exec(lc.as_slice(), q)
}

fn entry_matches(e: &MemoryEntry, q: &[char]) -> (r: bool)
    ensures
        r == matches_query(*e, q@),
{
    if contains_lowered(e.title.as_str(), q) {
        return true;
    }
    if contains_lowered(e.content.as_str(), q) {
        return true;
    }
    let mut k: usize = 0;
    while k < e.tags.len()
        invariant
            k <= e.tags.len(),
            !contains(lowercase(e.title@), q@),
            !contains(lowercase(e.content@), q@),
            forall|j: int| 0 <= j < k ==> !contains(lowercase(#[trigger] e.tags@[j]@), q@),
        decreases e.tags.len() - k,
    {
        if contains_lowered(e.tags[k].as_str(), q) {
            return true;
        }
        k += 1;
    }
    false
}


/// Inserting position `i` at `p` into a search order of the positions
/// before `i` gives a search order of the positions up to `i`.
#[verifier::spinoff_prover]
#[verifier::rlimit(40)]
proof fn lemma_insert_ranked(s: Seq<MemoryEntry>, q: Seq<char>, old_order: Seq<usize>, p: int, i: int, order: Seq<usize>)
    requires
        0 <= i < s.len(),
        i <= usize::MAX,
        0 <= p <= old_order.len(),
        order == old_order.insert(p, i as usize),
        matches_query(s[i], q),
        p > 0 ==> !ranks_before(s[i], s[old_order[p - 1] as int]),
        forall|k: int| p <= k < old_order.len() ==> ranks_before(s[i], s[old_order[k] as int]),
        forall|k: int| 0 <= k < old_order.len() ==> old_order[k] < i && matches_query(s[old_order[k] as int], q),
        forall|k: int, l: int| 0 <= k < l < old_order.len() ==> old_order[k] != old_order[l],
        forall|j: int| 0 <= j < i && matches_query(#[trigger] s[j], q) ==> old_order.contains(j as usize),
        forall|k: int, l: int|
            0 <= k < l < old_order.len() ==> !ranks_before(s[old_order[l] as int], s[old_order[k] as int]),
        forall|k: int, l: int|
            0 <= k < l < old_order.len() && same_rank(s[old_order[k] as int], s[old_order[l] as int])
                ==> old_order[k] < old_order[l],
    ensures
        forall|k: int| 0 <= k < order.len() ==> order[k] < i + 1 && matches_query(s[order[k] as int], q),
        forall|k: int, l: int| 0 <= k < l < order.len() ==> order[k] != order[l],
        forall|j: int| 0 <= j < i + 1 && matches_query(#[trigger] s[j], q) ==> order.contains(j as usize),
        forall|k: int, l: int|
            0 <= k < l < order.len() ==> !ranks_before(s[order[l] as int], s[order[k] as int]),
        forall|k: int, l: int|
            0 <= k < l < order.len() && same_rank(s[order[k] as int], s[order[l] as int])
                ==> order[k] < order[l],
{
    let ii = s[i];
    assert forall|k: int| 0 <= k < order.len() implies order[k] < i + 1
        && matches_query(s[order[k] as int], q) by {
        if k < p { assert(order[k] == old_order[k]); }
        else if k > p { assert(order[k] == old_order[k - 1]); }
    }
    assert forall|k: int, l: int| 0 <= k < l < order.len() implies order[k] != order[l] by {
        if k < p { assert(order[k] == old_order[k]); }
        else if k > p { assert(order[k] == old_order[k - 1]); }
        if l < p { assert(order[l] == old_order[l]); }
        else if l > p { assert(order[l] == old_order[l - 1]); }
    }
    assert forall|j: int| 0 <= j < i + 1 && matches_query(#[trigger] s[j], q)
        implies order.contains(j as usize) by {
        if j == i {
            assert(order[p] == i);
        } else {
            assert(old_order.contains(j as usize));
            let k = choose|k: int| 0 <= k < old_order.len() && old_order[k] == j as usize;
            if k < p {
                assert(order[k] == old_order[k]);
            } else {
                assert(order[k + 1] == old_order[k]);
            }
        }
    }
    assert forall|k: int, l: int| 0 <= k < l < order.len() implies
        !ranks_before(s[order[l] as int], s[order[k] as int]) by {
        if k < p { assert(order[k] == old_order[k]); }
        else if k > p { assert(order[k] == old_order[k - 1]); }
        if l < p { assert(order[l] == old_order[l]); }
        else if l > p { assert(order[l] == old_order[l - 1]); }
        if l == p && k < p - 1 {
            assert(!ranks_before(s[old_order[p - 1] as int], s[old_order[k] as int]));
        }
        if k == p && l > p + 1 {
            assert(ranks_before(ii, s[old_order[p] as int]));
            assert(!ranks_before(s[old_order[l - 1] as int], s[old_order[p] as int]));
        }
    }
    assert forall|k: int, l: int| 0 <= k < l < order.len()
        && same_rank(s[order[k] as int], s[order[l] as int])
        implies order[k] < order[l] by {
        if k < p { assert(order[k] == old_order[k]); }
        else if k > p { assert(order[k] == old_order[k - 1]); }
        if l < p { assert(order[l] == old_order[l]); }
        else if l > p { assert(order[l] == old_order[l - 1]); }
        if k == p && l > p {
            assert(ranks_before(ii, s[old_order[l - 1] as int]));
        }
    }
}

impl MemoryStore {
    fn search_order(&self, q: &[char]) -> (order: Vec<usize>)
        ensures
            is_search_order(self.entry_list(), q@, order@),
    {
        let ghost s = self.entries@;
        let n = self.entries.len();
        let mut order: Vec<usize> = Vec::new();
        let mut i: usize = 0;
        while i < n
            invariant
                i <= n,
                n == self.entries@.len(),
                s == self.entries@,
                forall|k: int| 0 <= k < order.len() ==> order@[k] < i && matches_query(s[order@[k] as int], q@),
                forall|k: int, l: int| 0 <= k < l < order.len() ==> order@[k] != order@[l],
                forall|j: int| 0 <= j < i && matches_query(#[trigger] s[j], q@) ==> order@.contains(j as usize),
                forall|k: int, l: int|
                    0 <= k < l < order.len() ==> !ranks_before(s[order@[l] as int], s[order@[k] as int]),
                forall|k: int, l: int|
                    0 <= k < l < order.len() && same_rank(s[order@[k] as int], s[order@[l] as int])
                        ==> order@[k] < order@[l],
            decreases n - i,
        {
            if entry_matches(&self.entries[i], q) {
                let imp = self.entries[i].importance;
                let ts = self.entries[i].timestamp;
                let mut p: usize = order.len();
                while p > 0 && (imp > self.entries[order[p - 1]].importance
                    || (imp == self.entries[order[p - 1]].importance && ts > self.entries[order[p - 1]].timestamp))
                    invariant
                        p <= order.len(),
                        i < n,
                        n == self.entries@.len(),
                        s == self.entries@,
                        forall|k: int| 0 <= k < order.len() ==> order@[k] < i,
                        imp == s[i as int].importance,
                        ts == s[i as int].timestamp,
                        forall|k: int| p <= k < order.len() ==> ranks_before(s[i as int], s[order@[k] as int]),
                    decreases p,
                {
                    p -= 1;
                }
                let ghost old_order = order@;
                proof {
                    if p > 0 {
                        assert(!ranks_before(s[i as int], s[old_order[p - 1] as int]));
                    }
                }
                order.insert(p, i);
                proof {
                    lemma_insert_ranked(s, q@, old_order, p as int, i as int, order@);
                }
            }
            i += 1;
        }
        order
    }

    /// The entries whose title, content or a tag contains `query` (all
    /// lowercased), most important first, then newest first, entries that
    /// rank alike in store order; at most `limit` of them.
    pub fn search(&self, query: &str, limit: usize) -> (r: Vec<&MemoryEntry>)
        ensures
            r@.map_values(|e: &MemoryEntry| *e) == search_hits(self.entry_list(), lowercase(query@), limit as nat),
            r@.len() <= limit,
            forall|k: int| 0 <= k < r@.len() ==> matches_query(*#[trigger] r@[k], lowercase(query@)),
            forall|k: int, l: int| 0 <= k < l < r@.len() ==> !ranks_before(*#[trigger] r@[l], *#[trigger] r@[k]),
    {
        let ql = to_lowercase(query);
        let qc = chars_of(ql.as_str());
        let order = self.search_order(qc.as_slice());
        let mut r: Vec<&MemoryEntry> = Vec::new();
        let mut k: usize = 0;
        while k < order.len() && k < limit
            invariant
                is_search_order(self.entries@, lowercase(query@), order@),
                k <= order.len(),
                k <= limit,
                r@.len() == k,
                forall|m: int| 0 <= m < k ==> *r@[m] == self.entries@[order@[m] as int],
            decreases order.len() - k,
        {
            r.push(&self.entries[order[k]]);
            k += 1;
        }
        proof {
            let s = self.entries@;
            let q = lowercase(query@);
            lemma_search_order_unique(s, q, order@, ranked_matches(s, q));
            assert(r@.map_values(|e: &MemoryEntry| *e) =~= search_hits(s, q, limit as nat));
            assert forall|k: int| 0 <= k < r@.len() implies matches_query(*#[trigger] r@[k], q) by {
                assert(*r@[k] == s[order@[k] as int]);
            }
            assert forall|k: int, l: int| 0 <= k < l < r@.len() implies !ranks_before(*#[trigger] r@[l], *#[trigger] r@[k]) by {
                assert(*r@[k] == s[order@[k] as int]);
                assert(*r@[l] == s[order@[l] as int]);
            }
        }
        r
    }
}


/// The heading of a category in the memory context.
pub open spec fn category_title(c: MemoryCategory) -> Seq<char> {
    match c {
        MemoryCategory::WorldBuilding => "世界观设定"@,
        MemoryCategory::Character => "人物信息"@,
        MemoryCategory::Plot => "情节剧情"@,
        MemoryCategory::Decision => "创作决策"@,
        MemoryCategory::QualityReport => "质量评估"@,
        MemoryCategory::Issue => "问题记录"@,
        MemoryCategory::Preference => "用户偏好"@,
        MemoryCategory::General => "通用知识"@,
    }
}

fn category_title_str(c: MemoryCategory) -> (r: &'static str)
    ensures
        r@ == category_title(c),
{
    match c {
        MemoryCategory::WorldBuilding => "世界观设定",
        MemoryCategory::Character => "人物信息",
        MemoryCategory::Plot => "情节剧情",
        MemoryCategory::Decision => "创作决策",
        MemoryCategory::QualityReport => "质量评估",
        MemoryCategory::Issue => "问题记录",
        MemoryCategory::Preference => "用户偏好",
        MemoryCategory::General => "通用知识",
    }
}

/// The context line of an entry.
pub open spec fn entry_line(e: MemoryEntry) -> Seq<char> {
    "- **"@ + e.title@ + "**: "@ + e.content@ + "\n"@
}

pub open spec fn entry_lines(es: Seq<MemoryEntry>) -> Seq<char>
    decreases es.len(),
{
    if es.len() == 0 {
        seq![]
    } else {
        entry_lines(es.drop_last()) + entry_line(es.last())
    }
}

/// At most the first `n` entries.
pub open spec fn first_entries(es: Seq<MemoryEntry>, n: nat) -> Seq<MemoryEntry> {
    if n < es.len() {
        es.take(n as int)
    } else {
        es
    }
}

/// The section of a category: its heading and the lines of at most `max`
/// of its entries; nothing for a category with no entry.
pub open spec fn category_section(es: Seq<MemoryEntry>, c: MemoryCategory, max: nat) -> Seq<char> {
    if es.len() == 0 {
        seq![]
    } else {
        "### "@ + category_title(c) + "\n"@ + entry_lines(first_entries(es, max)) + "\n"@
    }
}

/// The categories of the memory context given to the model.
pub open spec fn prompt_categories() -> Seq<MemoryCategory> {
    seq![
        MemoryCategory::WorldBuilding,
        MemoryCategory::Character,
        MemoryCategory::Plot,
        MemoryCategory::Decision,
        MemoryCategory::Preference,
    ]
}

/// The categories of the memory context given to the model.
pub fn prompt_category_list() -> (r: Vec<MemoryCategory>)
    ensures
        r@ == prompt_categories(),
{
    let r = vec![
        MemoryCategory::WorldBuilding,
        MemoryCategory::Character,
        MemoryCategory::Plot,
        MemoryCategory::Decision,
        MemoryCategory::Preference,
    ];
    assert(r@ =~= prompt_categories());
    r
}

/// A context cut to `max` bytes: when it is longer, its first `max`
/// bytes up to their last line break (all of them when there is none),
/// then a note that it was cut.  Meant for cuts at character boundaries.
pub open spec fn cut_context(ctx: Seq<char>, max: nat) -> Seq<char> {
    if byte_len(ctx) <= max {
        ctx
    } else {
        let t = prefix_bytes(ctx, max as int).unwrap();
        let kept = match last_index_of(t, '\n') {
            Some(k) => t.take(k),
            None => t,
        };
        kept + "...\n(记忆上下文已截断)"@
    }
}

impl MemoryStore {
    /// The sections of `cats`, in order.
    pub open spec fn sections(&self, cats: Seq<MemoryCategory>, max: nat) -> Seq<char>
        decreases cats.len(),
    {
        if cats.len() == 0 {
            seq![]
        } else {
            self.sections(cats.drop_last(), max) + category_section(self.by_category(cats.last()), cats.last(), max)
        }
    }

    /// The memory context of `cats`: a heading, then the section of each
    /// category with entries, or a note that there is none.
    pub open spec fn context_text(&self, cats: Seq<MemoryCategory>, max: nat) -> Seq<char> {
        "## 项目记忆上下文\n\n"@ + self.sections(cats, max)
            + if self.sections(cats, max).len() == 0 { "(暂无相关记忆)\n"@ } else { seq![] }
    }

    fn push_section(&self, out: &mut Vec<char>, c: MemoryCategory, max_entries: usize)
        requires
            self.wf(),
        ensures
            final(out)@ == old(out)@ + category_section(self.by_category(c), c, max_entries as nat),
    {
        let entries = self.get_by_category(&c);
        let ghost es = entries@.map_values(|e: &MemoryEntry| *e);
        if entries.len() == 0 {
            return;
        }
        let ghost o0 = out@;
        push_str(out, "### ");
        push_str(out, category_title_str(c));
        push_str(out, "\n");
        let ghost o1 = out@;
        let m = if max_entries < entries.len() { max_entries } else { entries.len() };
        let ghost firsts = first_entries(es, max_entries as nat);
        proof {
            assert(firsts =~= es.take(m as int));
            assert(es.take(0) =~= Seq::<MemoryEntry>::empty());
        }
        let mut j: usize = 0;
        while j < m
            invariant
                j <= m,
                m <= entries.len(),
                es == entries@.map_values(|e: &MemoryEntry| *e),
                out@ == o1 + entry_lines(es.take(j as int)),
            decreases m - j,
        {
            let e = entries[j];
            push_str(out, "- **");
            push_str(out, e.title.as_str());
            push_str(out, "**: ");
            push_str(out, e.content.as_str());
            push_str(out, "\n");
            proof {
                assert(es.take(j + 1).drop_last() =~= es.take(j as int));
                assert(es[j as int] == *e);
                assert(out@ =~= o1 + entry_lines(es.take(j + 1)));
            }
            j += 1;
        }
        push_str(out, "\n");
        proof {
            assert(out@ =~= o0 + category_section(es, c, max_entries as nat));
        }
    }

    /// The memory context of `categories`, each with at most `max_entries`
    /// entries.
    pub fn assemble_context(&self, categories: &[MemoryCategory], max_entries: usize) -> (r: String)
        requires
            self.wf(),
        ensures
            r@ == self.context_text(categories@, max_entries as nat),
    {
        let mut out: Vec<char> = Vec::new();
        push_str(&mut out, "## 项目记忆上下文\n\n");
        let ghost head = out@;
        let base = out.len();
        let mut i: usize = 0;
        proof {
            assert(categories@.take(0) =~= Seq::<MemoryCategory>::empty());
            assert(out@ =~= head + self.sections(categories@.take(0), max_entries as nat));
        }
        while i < categories.len()
            invariant
                self.wf(),
                i <= categories.len(),
                base == head.len(),
                out@ == head + self.sections(categories@.take(i as int), max_entries as nat),
            decreases categories.len() - i,
        {
            self.push_section(&mut out, categories[i], max_entries);
            proof {
                assert(categories@.take(i + 1).drop_last() =~= categories@.take(i as int));
                assert(categories@.take(i + 1).last() == categories@[i as int]);
            }
            i += 1;
        }
        proof {
            assert(categories@.take(categories.len() as int) =~= categories@);
        }
        if out.len() == base {
            push_str(&mut out, "(暂无相关记忆)\n");
        }
        string_of(out.as_slice())
    }

    /// The memory context given to the model: the world, characters, plot,
    /// decisions and preferences, twenty entries each, cut to `max_chars`
    /// bytes.  The cut must fall on a character boundary.
    pub fn get_context_for_prompt(&self, max_chars: usize) -> (r: String)
        requires
            self.wf(),
            prefix_bytes(self.context_text(prompt_categories(), 20), max_chars as int) is Some,
        ensures
            r@ == cut_context(self.context_text(prompt_categories(), 20), max_chars as nat),
    {
        let cats = prompt_category_list();
        let ctx = self.assemble_context(cats.as_slice(), 20);
        let cs = chars_of(ctx.as_str());
        if bytes_at_most(cs.as_slice(), max_chars) {
            return ctx;
        }
        match prefix_bytes_exec(cs.as_slice(), max_chars) {
            Some(t) => {
                let mut kept = match last_index_of_exec(t.as_slice(), '\n') {
                    Some(k) => {
                        proof {
                            lemma_last_index_of_facts(t@, '\n');
                        }
                        slice_to(t.as_slice(), k)
                    },
                    None => t,
                };
                push_str(&mut kept, "...\n(记忆上下文已截断)");
                string_of(kept.as_slice())
            },
            None => ctx,
        }
    }
}


/// Keeping the entries that satisfy `p` keeps ids unique, and gives each id
/// its entry when that entry is kept, none otherwise.
pub proof fn lemma_filter_entries(s: Seq<MemoryEntry>, p: spec_fn(MemoryEntry) -> bool)
    requires
        entry_ids_unique(s),
    ensures
        entry_ids_unique(s.filter(p)),
        forall|id: Seq<char>| #[trigger] entry_of(s.filter(p), id) == match entry_of(s, id) {
            Some(e) => if p(e) { Some(e) } else { None },
            None => None,
        },
    decreases s.len(),
{
    if s.len() == 0 {
        assert(s.filter(p) =~= Seq::<MemoryEntry>::empty()) by {
            reveal_with_fuel(Seq::<_>::filter, 1);
        }
    } else {
        let t = s.drop_last();
        let x = s.last();
        assert(t.push(x) =~= s);
        assert(entry_ids_unique(t));
        lemma_filter_entries(t, p);
        t.lemma_filter_push(x, p);
        assert(!has_id(t, x.id@)) by {
            if has_id(t, x.id@) {
                let k = choose|k: int| 0 <= k < t.len() && #[trigger] t[k].id@ == x.id@;
                assert(s[k] == t[k]);
            }
        }
        lemma_entry_put(t, s, t.len() as int, x);
        if p(x) {
            let ft = t.filter(p);
            assert(!has_id(ft, x.id@)) by {
                if has_id(ft, x.id@) {
                    let a = choose|a: int| 0 <= a < ft.len() && #[trigger] ft[a].id@ == x.id@;
                    assert(ft.contains(ft[a]));
                    t.lemma_filter_contains_rev(p, ft[a]);
                    let k = choose|k: int| 0 <= k < t.len() && t[k] == ft[a];
                    assert(has_id(t, x.id@));
                }
            }
            lemma_entry_put(ft, s.filter(p), ft.len() as int, x);
        }
    }
}

impl MemoryStore {
    /// Removes the entries of the ids in the index of `category` and empties
    /// that index; the other indexes keep their ids.
    pub fn clear_category(&mut self, category: &MemoryCategory)
        requires
            old(self).wf(),
        ensures
            final(self).wf(),
            final(self).category_ids(*category).len() == 0,
            forall|c: MemoryCategory| c != *category ==> final(self).category_ids(c) == old(self).category_ids(c),
            final(self).entry_list() == old(self).entry_list().filter(
                |e: MemoryEntry| !old(self).category_ids(*category).contains(e.id@)),
            forall|id: Seq<char>| #[trigger] final(self).entry(id)
                == if old(self).category_ids(*category).contains(id) { None } else { old(self).entry(id) },
    {
        let slot = category_slot(*category);
        let ghost old_index = self.category_index@;
        let ids = self.category_index.remove(slot);
        self.category_index.insert(slot, Vec::new());
        let ghost idv = ids@.map_values(|t: String| t@);
        let ghost keep = |e: MemoryEntry| !idv.contains(e.id@);
        proof {
            assert(self.category_index@ =~= old_index.update(slot as int, self.category_index@[slot as int]));
            assert(self.category_index@[slot as int]@.len() == 0);
            assert(idv == old(self).category_ids(*category));
            assert forall|c: MemoryCategory| c != *category implies
                self.category_ids(c) == old(self).category_ids(c) by {
                assert(category_rank(c) != category_rank(*category));
            }
            assert(self.category_ids(*category).len() == 0);
        }
        let ghost old_e = self.entries@;
        let ghost ci0 = self.category_index@;
        let mut i: usize = 0;
        let ghost mut j: int = 0;
        proof {
            assert(old_e.take(0).filter(keep) =~= Seq::<MemoryEntry>::empty()) by {
                reveal_with_fuel(Seq::<_>::filter, 1);
            }
            assert(self.entries@ =~= old_e.take(0).filter(keep) + old_e.skip(0));
        }
        while i < self.entries.len()
            invariant
                0 <= j <= old_e.len(),
                i == old_e.take(j).filter(keep).len(),
                self.entries@ == old_e.take(j).filter(keep) + old_e.skip(j),
                self.category_index@ == ci0,
                ci0.len() == 8,
                idv == ids@.map_values(|t: String| t@),
                keep == (|e: MemoryEntry| !idv.contains(e.id@)),
            decreases self.entries.len() - i,
        {
            let ghost cur = self.entries@;
            proof {
                assert(old_e.skip(j).len() > 0);
                assert(cur[i as int] == old_e[j]);
                old_e.take(j).lemma_filter_push(old_e[j], keep);
                assert(old_e.take(j + 1) =~= old_e.take(j).push(old_e[j]));
            }
            let mut hit = false;
            let mut k: usize = 0;
            while k < ids.len()
                invariant
                    k <= ids.len(),
                    i < self.entries.len(),
                    self.entries@ == cur,
                    idv == ids@.map_values(|t: String| t@),
                    hit == exists|m: int| 0 <= m < k && #[trigger] idv[m] == self.entries@[i as int].id@,
                decreases ids.len() - k,
            {
                proof {
                    assert(idv[k as int] == ids@[k as int]@);
                }
                if str_eq(ids[k].as_str(), self.entries[i].id.as_str()) {
                    hit = true;
                }
                k += 1;
            }
            proof {
                if hit {
                    let m = choose|m: int| 0 <= m < ids.len() && #[trigger] idv[m] == cur[i as int].id@;
                    assert(idv.contains(cur[i as int].id@));
                } else {
                    assert(!idv.contains(cur[i as int].id@));
                }
            }
            if hit {
                let _ = self.entries.remove(i);
                proof {
                    assert(self.entries@ =~= old_e.take(j + 1).filter(keep) + old_e.skip(j + 1));
                }
            } else {
                i += 1;
                proof {
                    assert(self.entries@ =~= old_e.take(j + 1).filter(keep) + old_e.skip(j + 1));
                }
            }
            proof {
                j = j + 1;
            }
        }
        proof {
            assert(old_e.skip(j).len() == 0);
            assert(j == old_e.len());
            assert(old_e.take(j) =~= old_e);
            assert(self.entries@ =~= old_e.filter(keep));
            lemma_filter_entries(old_e, keep);
        }
    }
}

} // verus!
