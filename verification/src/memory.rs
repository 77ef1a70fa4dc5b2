//! The memory store's decisions: which keys are allowed, where a memory is
//! kept, and how listings and searches select and order memories.
use vstd::prelude::*;
use crate::config::{format_named, PeasConfig};
use crate::error::PeasError;
use crate::markdown::FrontmatterFormat;
use crate::model::{ts_before, Memory, MemoryV, Timestamp};
use crate::paths::{path_join, spec_path_join};
use crate::sort::{before, key_lt, range_items, sort_items, Key};
use crate::text::{chars_of, concat, contains, contains_chars, spec_to_lowercase, to_lowercase};
use crate::update::has_string;

verus! {

/// The models of a list of memories.
pub open spec fn memory_views(v: Seq<Memory>) -> Seq<MemoryV> {
    v.map_values(|m: Memory| m@)
}

/// The characters a key may not hold, since keys become file names.
pub open spec fn forbidden_key_char(c: char) -> bool {
    c == '/' || c == '\\' || c == ':' || c == '*' || c == '?' || c == '"' || c == '<' || c == '>'
        || c == '|'
}

/// Why a memory key is refused, if it is.
pub open spec fn key_problem(key: Seq<char>) -> Option<Seq<char>> {
    if key.len() == 0 {
        Some("Key cannot be empty"@)
    } else if exists|i: int| 0 <= i < key.len() && forbidden_key_char(key[i]) {
        Some("Key contains invalid characters for filenames"@)
    } else if contains(key, ".."@) {
        Some("Key cannot contain '..'"@)
    } else {
        None
    }
}

/// The store of memories, under `.peas/memory/`.
pub struct MemoryRepository {
    pub memory_path: String,
    pub frontmatter_format: FrontmatterFormat,
}

impl MemoryRepository {
    /// The store of the project at `project_root`.
    pub fn new(config: &PeasConfig, project_root: &str) -> (r: MemoryRepository)
        ensures
            r.memory_path@ == spec_path_join(spec_path_join(project_root@, ".peas"@), "memory"@),
            r.frontmatter_format == format_named(config.peas.frontmatter@),
    {
        let d = config.data_path(project_root);
        MemoryRepository {
            memory_path: path_join(d.as_str(), "memory"),
            frontmatter_format: config.peas.frontmatter_format(),
        }
    }

    /// Refuses keys that are empty, hold a character that cannot stand in a
    /// file name, or hold `..`.
    pub fn validate_key(&self, key: &str) -> (r: Result<(), PeasError>)
        ensures
            match key_problem(key@) {
                Some(m) => r matches Err(e) && e matches PeasError::Validation(x) && x@ == m,
                None => r is Ok,
            },
    {
        let v = chars_of(key);
        if v.len() == 0 {
            return Err(PeasError::Validation("Key cannot be empty".to_owned()));
        }
        let mut i: usize = 0;
        while i < v.len()
            invariant
                i <= v.len(),
                v@ == key@,
                forall|j: int| 0 <= j < i ==> !forbidden_key_char(#[trigger] v@[j]),
            decreases v.len() - i,
        {
            let c = v[i];
            if c == '/' || c == '\\' || c == ':' || c == '*' || c == '?' || c == '"' || c == '<' || c == '>'
                || c == '|' {
                assert(forbidden_key_char(key@[i as int]));
                return Err(PeasError::Validation("Key contains invalid characters for filenames".to_owned()));
            }
            i = i + 1;
        }
        if contains_chars(&v, &chars_of("..")) {
            return Err(PeasError::Validation("Key cannot contain '..'".to_owned()));
        }
        Ok(())
    }

    /// The file name of a memory: its key and `.md`.
    pub fn generate_filename(&self, key: &str) -> (r: String)
        ensures
            r@ == key@ + ".md"@,
    {
        concat(key, ".md")
    }

    /// The path of a memory's file.
    pub fn get_file_path(&self, key: &str) -> (r: String)
        ensures
            r@ == spec_path_join(self.memory_path@, key@ + ".md"@),
    {
        let f = self.generate_filename(key);
        path_join(self.memory_path.as_str(), f.as_str())
    }
}

/// The error when a memory is missing.
pub fn memory_not_found(key: &str) -> (r: PeasError)
    ensures
        r matches PeasError::NotFound(x) && x@ == "Memory key: "@ + key@,
{
    PeasError::NotFound(concat("Memory key: ", key))
}

/// The error when a memory to create exists already.
pub fn memory_exists(key: &str) -> (r: PeasError)
    ensures
        r matches PeasError::Storage(x) && x@ == "Memory with key '"@ + key@ + "' already exists"@,
{
    let mut m = concat("Memory with key '", key);
    m.append("' already exists");
    PeasError::Storage(m)
}

// ------------------------------------------------------------ selection

/// Whether a memory's key, content or one of its tags contains the
/// (already lowercased) query, compared in lowercase.
pub open spec fn memory_hit(m: MemoryV, q: Seq<char>) -> bool {
    ||| contains(spec_to_lowercase(m.key), q)
    ||| contains(spec_to_lowercase(m.content), q)
    ||| exists|i: int| 0 <= i < m.tags.len() && contains(spec_to_lowercase(#[trigger] m.tags[i]), q)
}

fn lower_has(s: &str, q: &Vec<char>) -> (r: bool)
    ensures
        r == contains(spec_to_lowercase(s@), q@),
{
    let l = to_lowercase(s);
    contains_chars(&chars_of(l.as_str()), q)
}

fn memory_matches_query(m: &Memory, q: &Vec<char>) -> (r: bool)
    ensures
        r == memory_hit(m@, q@),
{
    if lower_has(m.key.as_str(), q) || lower_has(m.content.as_str(), q) {
        return true;
    }
    let mut i: usize = 0;
    while i < m.tags.len()
        invariant
            i <= m.tags@.len(),
            forall|j: int| 0 <= j < i ==> !contains(spec_to_lowercase(#[trigger] m@.tags[j]), q@),
        decreases m.tags.len() - i,
    {
        if lower_has(m.tags[i].as_str(), q) {
            assert(m@.tags[i as int] == m.tags@[i as int]@);
            return true;
        }
        assert(m@.tags[i as int] == m.tags@[i as int]@);
        i = i + 1;
    }
    false
}

/// Memory `x` comes before memory `y` in a listing: updated later, or at
/// the same time and earlier in the input.
pub open spec fn newer_first(ms: Seq<MemoryV>, x: int, y: int) -> bool {
    ts_before(ms[y].updated, ms[x].updated) || (ms[x].updated == ms[y].updated && x < y)
}

/// `r` is `ms` reordered by `perm`, newest first.
pub open spec fn newest_first_of(ms: Seq<MemoryV>, perm: Seq<usize>, r: Seq<MemoryV>) -> bool {
    &&& perm.len() == ms.len()
    &&& r.len() == ms.len()
    &&& forall|j: int| 0 <= j < perm.len() ==> #[trigger] perm[j] < ms.len()
    &&& forall|p: int, q: int| 0 <= p < q < perm.len() ==> newer_first(ms, #[trigger] perm[p] as int, #[trigger] perm[q] as int)
    &&& forall|j: int| 0 <= j < r.len() ==> #[trigger] r[j] == ms[perm[j] as int]
}

/// The sort key that puts later times first.
pub open spec fn newest_key(t: Timestamp) -> Key {
    ((0x7fff_ffff_ffff_ffff - t.secs as int) as u64, (0xffff_ffff_ffff_ffff - t.nanos as int) as u64, 0, 0)
}

proof fn lemma_newest_key(a: Timestamp, b: Timestamp)
    ensures
        key_lt(newest_key(a), newest_key(b)) == ts_before(b, a),
        (newest_key(a) == newest_key(b)) == (a == b),
{
    let sa = 0x7fff_ffff_ffff_ffff - a.secs as int;
    let sb = 0x7fff_ffff_ffff_ffff - b.secs as int;
    assert(0 <= sa < 0x1_0000_0000_0000_0000);
    assert(0 <= sb < 0x1_0000_0000_0000_0000);
    assert((sa as u64) as int == sa);
    assert((sb as u64) as int == sb);
    let na = 0xffff_ffff_ffff_ffff - a.nanos as int;
    let nb = 0xffff_ffff_ffff_ffff - b.nanos as int;
    assert((na as u64) as int == na);
    assert((nb as u64) as int == nb);
}

/// The memories, newest first (by update time), ties kept in input order.
pub fn sort_newest_first(ms: Vec<Memory>) -> (r: Vec<Memory>)
    ensures
        exists|perm: Seq<usize>| newest_first_of(memory_views(ms@), perm, memory_views(r@)),
{
    let n = ms.len();
    let ghost mv = memory_views(ms@);
    let mut keys: Vec<Key> = Vec::new();
    let mut i: usize = 0;
    while i < n
        invariant
            n == ms.len(),
            i <= n,
            keys@.len() == i,
            forall|k: int| 0 <= k < i ==> #[trigger] keys@[k] == newest_key(ms@[k].updated),
        decreases n - i,
    {
        let t = ms[i].updated;
        let s: u64 = (0x7fff_ffff_ffff_ffffi128 - t.secs as i128) as u64;
        let ns: u64 = 0xffff_ffff_ffff_ffffu64 - t.nanos as u64;
        keys.push((s, ns, 0, 0));
        i = i + 1;
    }
    let items = range_items(n);
    let order = sort_items(&items, &keys);
    let mut out: Vec<Memory> = Vec::new();
    let mut j: usize = 0;
    while j < order.len()
        invariant
            j <= order@.len(),
            order@.len() == n,
            n == ms.len(),
            mv == memory_views(ms@),
            order@.to_set() == items@.to_set(),
            items@.len() == n,
            forall|k: int| 0 <= k < n ==> #[trigger] items@[k] == k,
            out@.len() == j,
            forall|k: int| 0 <= k < j ==> #[trigger] memory_views(out@)[k] == mv[order@[k] as int],
        decreases order.len() - j,
    {
        let x = order[j];
        assert(order@.to_set().contains(x));
        assert(items@.to_set().contains(x));
        proof {
            let w = choose|w: int| 0 <= w < items@.len() && items@[w] == x;
        }
        let ghost o = out@;
        out.push(ms[x].clone());
        assert forall|k: int| 0 <= k < j + 1 implies #[trigger] memory_views(out@)[k] == mv[order@[k] as int] by {
            if k < j {
                assert(memory_views(out@)[k] == memory_views(o)[k]);
            }
        }
        j = j + 1;
    }
    proof {
        assert forall|q: int| 0 <= q < order@.len() implies #[trigger] order@[q] < mv.len() by {
            assert(order@.to_set().contains(order@[q]));
            assert(items@.to_set().contains(order@[q]));
            let w = choose|w: int| 0 <= w < items@.len() && items@[w] == order@[q];
        }
        assert forall|p: int, q: int| 0 <= p < q < order@.len() implies newer_first(
            mv,
            #[trigger] order@[p] as int,
            #[trigger] order@[q] as int,
        ) by {
            assert(before(keys@, order@[p], order@[q]));
            assert(order@[p] < mv.len() && order@[q] < mv.len());
            lemma_newest_key(ms@[order@[p] as int].updated, ms@[order@[q] as int].updated);
        }
        assert(newest_first_of(mv, order@, memory_views(out@)));
    }
    out
}

/// The memories carrying the tag, or all of them when there is none.
pub open spec fn tagged(ms: Seq<MemoryV>, tag: Option<Seq<char>>) -> Seq<MemoryV> {
    ms.filter(|m: MemoryV| has_tag_opt(m, tag))
}

/// Whether a memory carries the tag, if one is given.
pub open spec fn has_tag_opt(m: MemoryV, tag: Option<Seq<char>>) -> bool {
    match tag {
        Some(t) => m.tags.contains(t),
        None => true,
    }
}

/// The view of an optional string slice.
pub open spec fn opt_view(o: Option<&str>) -> Option<Seq<char>> {
    match o {
        Some(s) => Some(s@),
        None => None,
    }
}

/// The memories with the tag (all of them without one), newest first.
pub fn list_memories(ms: Vec<Memory>, tag: Option<&str>) -> (r: Vec<Memory>)
    ensures
        exists|perm: Seq<usize>| newest_first_of(tagged(memory_views(ms@), opt_view(tag)), perm, memory_views(r@)),
{
    let ghost f = |m: MemoryV| has_tag_opt(m, opt_view(tag));
    let ghost all = memory_views(ms@);
    let n = ms.len();
    let mut kept: Vec<Memory> = Vec::new();
    let mut k: usize = 0;
    for m in it: ms
        invariant
            all == memory_views(it.seq()),
            k == it.index(),
            k <= all.len(),
            all.len() == n,
            f == (|m: MemoryV| has_tag_opt(m, opt_view(tag))),
            memory_views(kept@) == all.take(k as int).filter(f),
    {
        let ghost pre = all.take(k as int);
        assert(all.take(k + 1) =~= pre.push(m@));
        proof {
            pre.lemma_filter_push(m@, f);
        }
        let keep = match tag {
            Some(t) => has_string(&m.tags, t),
            None => true,
        };
        assert(keep == has_tag_opt(m@, opt_view(tag)));
        if keep {
            let ghost o = kept@;
            let ghost mv = m@;
            kept.push(m);
            assert(memory_views(kept@) =~= memory_views(o).push(mv));
        }
        k = k + 1;
    }
    assert(all.take(n as int) =~= all);
    assert(memory_views(kept@) == tagged(all, opt_view(tag)));
    let r = sort_newest_first(kept);
    let ghost perm = choose|perm: Seq<usize>| newest_first_of(tagged(all, opt_view(tag)), perm, memory_views(r@));
    assert(newest_first_of(tagged(all, opt_view(tag)), perm, memory_views(r@)));
    r
}

/// The memories that match the (lowercased) query.
pub open spec fn hits(ms: Seq<MemoryV>, q: Seq<char>) -> Seq<MemoryV> {
    ms.filter(|m: MemoryV| memory_hit(m, q))
}

/// The memories whose key, content or a tag contains the query, ignoring
/// case, newest first.
pub fn search_memories(ms: Vec<Memory>, query: &str) -> (r: Vec<Memory>)
    ensures
        exists|perm: Seq<usize>| newest_first_of(hits(memory_views(ms@), spec_to_lowercase(query@)), perm, memory_views(r@)),
{
    let ql = to_lowercase(query);
    let q = chars_of(ql.as_str());
    let ghost f = |m: MemoryV| memory_hit(m, spec_to_lowercase(query@));
    let ghost all = memory_views(ms@);
    let n = ms.len();
    let mut kept: Vec<Memory> = Vec::new();
    let mut k: usize = 0;
    for m in it: ms
        invariant
            all == memory_views(it.seq()),
            k == it.index(),
            k <= all.len(),
            all.len() == n,
            q@ == spec_to_lowercase(query@),
            f == (|m: MemoryV| memory_hit(m, spec_to_lowercase(query@))),
            memory_views(kept@) == all.take(k as int).filter(f),
    {
        let ghost pre = all.take(k as int);
        assert(all.take(k + 1) =~= pre.push(m@));
        proof {
            pre.lemma_filter_push(m@, f);
        }
        if memory_matches_query(&m, &q) {
            let ghost o = kept@;
            let ghost mv = m@;
            kept.push(m);
            assert(memory_views(kept@) =~= memory_views(o).push(mv));
        }
        k = k + 1;
    }
    assert(all.take(n as int) =~= all);
    assert(memory_views(kept@) == hits(all, spec_to_lowercase(query@)));
    let r = sort_newest_first(kept);
    let ghost perm = choose|perm: Seq<usize>| newest_first_of(hits(all, spec_to_lowercase(query@)), perm, memory_views(r@));
    assert(newest_first_of(hits(all, spec_to_lowercase(query@)), perm, memory_views(r@)));
    r
}

} // verus!
