//! The decisions of the ticket store: ids, file names, which file holds a
//! ticket, the order of a listing, and stale-write detection.
use vstd::prelude::*;
use crate::cache::PeaCache;
use crate::config::{format_named, IdMode, PeasConfig};
use crate::error::PeasError;
use crate::markdown::{detect_format, detect_spec, FrontmatterFormat};
use crate::model::{raw_time, strs, ts_before, Pea, PeaV, Timestamp};
use crate::paths::spec_path_join;
use crate::sort::{before, sort_items, range_items, Key};
use crate::suggest::pea_views;
use crate::text::{decimal_parse_round_trip, chars_of, concat, concat3, decimal, pad_left_zeros, pad_zeros, parse_u64, parse_u64_spec, starts_with, str_starts_with, string_of, trim, trim_str, decimal_chars};

verus! {

// ------------------------------------------------------------ outside calls

/// What `slug::slugify` makes of a string.
pub uninterp spec fn spec_slugify(s: Seq<char>) -> Seq<char>;

/// Whether `c` may stand in a slug: `a`-`z`, `0`-`9` or `-`.
pub open spec fn slug_char(c: char) -> bool {
    ('a' <= c && c <= 'z') || ('0' <= c && c <= '9') || c == '-'
}

/// `slug::slugify`. Trusted: the result is named by `spec_slugify`; as the
/// crate documents, it holds only `a`-`z`, `0`-`9` and `-`, never two `-`
/// in a row, and neither starts nor ends with `-`.
#[verifier::external_body]
fn slugify(s: &str) -> (r: String)
    ensures
        r@ == spec_slugify(s@),
        forall|i: int| 0 <= i < r@.len() ==> slug_char(#[trigger] r@[i]),
        forall|i: int| 0 <= i < r@.len() - 1 ==> !(#[trigger] r@[i] == '-' && r@[i + 1] == '-'),
        r@.len() > 0 ==> r@[0] != '-' && r@.last() != '-',
{
    slug::slugify(s)
}

/// The characters of a random ticket suffix.
pub open spec fn id_char(c: char) -> bool {
    ('0' <= c && c <= '9') || ('a' <= c && c <= 'z')
}

/// `nanoid::format` with the default random source. Trusted: the result
/// is random; the crate's source shows that it draws characters of the
/// alphabet until the string has `size` bytes, so with an ASCII alphabet it
/// has exactly `size` characters, each from the alphabet. An empty alphabet
/// or a `size` of zero never returns, an alphabet longer than 255 panics and
/// a `size` above `usize::MAX / 8` overflows, so all are excluded.
#[verifier::external_body]
fn nanoid_suffix(alphabet: &[char], size: usize) -> (r: String)
    requires
        0 < alphabet@.len() <= 255,
        forall|i: int| 0 <= i < alphabet@.len() ==> (#[trigger] alphabet@[i] as u32) < 128,
        0 < size <= usize::MAX / 8,
    ensures
        r@.len() == size,
        forall|i: int| 0 <= i < r@.len() ==> alphabet@.contains(#[trigger] r@[i]),
{
    nanoid::format(nanoid::rngs::default, alphabet, size)
}

/// The characters of a random ticket suffix, in order: `0`-`9`, `a`-`z`.
pub open spec fn id_alphabet() -> Seq<char> {
    seq!['0', '1', '2', '3', '4', '5', '6', '7', '8', '9', 'a', 'b', 'c', 'd', 'e', 'f', 'g', 'h',
        'i', 'j', 'k', 'l', 'm', 'n', 'o', 'p', 'q', 'r', 's', 't', 'u', 'v', 'w', 'x', 'y', 'z']
}

/// Every character of the suffix alphabet is a suffix character and ASCII.
proof fn lemma_id_alphabet()
    ensures
        id_alphabet().len() == 36,
        forall|k: int|
            0 <= k < id_alphabet().len() ==> id_char(#[trigger] id_alphabet()[k]) && (
            id_alphabet()[k] as u32) < 128,
{
    assert forall|k: int| 0 <= k < id_alphabet().len() implies id_char(#[trigger] id_alphabet()[k])
        && (id_alphabet()[k] as u32) < 128 by {
        assert(k == 0 || k == 1 || k == 2 || k == 3 || k == 4 || k == 5 || k == 6 || k == 7 || k == 8 || k == 9 || k == 10 || k == 11 || k == 12 || k == 13 || k == 14 || k == 15 || k == 16 || k == 17 || k == 18 || k == 19 || k == 20 || k == 21 || k == 22 || k == 23 || k == 24 || k == 25 || k == 26 || k == 27 || k == 28 || k == 29 || k == 30 || k == 31 || k == 32 || k == 33 || k == 34 || k == 35);
    }
}

fn id_alphabet_chars() -> (r: Vec<char>)
    ensures
        r@ == id_alphabet(),
{
    let r = vec!['0', '1', '2', '3', '4', '5', '6', '7', '8', '9', 'a', 'b', 'c', 'd', 'e', 'f', 'g', 'h',
        'i', 'j', 'k', 'l', 'm', 'n', 'o', 'p', 'q', 'r', 's', 't', 'u', 'v', 'w', 'x', 'y', 'z'];
    assert(r@ =~= id_alphabet());
    r
}

/// How chrono's `Display` writes a UTC time, where chrono can represent it.
pub uninterp spec fn spec_show_time(secs: i64, nanos: u32) -> Option<Seq<char>>;

/// `DateTime::<Utc>::from_timestamp` then `Display`. Trusted: the text is
/// named by `spec_show_time`; `None` is chrono's refusal of a time outside
/// its range.
#[verifier::external_body]
fn show_time(t: Timestamp) -> (r: Option<String>)
    ensures
        match r {
            Some(x) => spec_show_time(t.secs, t.nanos) == Some(x@),
            None => spec_show_time(t.secs, t.nanos) is None,
        },
{
    chrono::DateTime::from_timestamp(t.secs, t.nanos).map(|d| d.to_string())
}

/// A time as messages show it: as chrono writes it, or raw where chrono
/// cannot represent it.
pub open spec fn time_shown(t: Timestamp) -> Seq<char> {
    match spec_show_time(t.secs, t.nanos) {
        Some(x) => x,
        None => raw_time(t.secs, t.nanos),
    }
}

fn time_text(t: Timestamp) -> (r: String)
    ensures
        r@ == time_shown(t),
{
    match show_time(t) {
        Some(x) => x,
        None => t.raw_text(),
    }
}

// ------------------------------------------------------------ the store

/// The settings of a ticket store, and its cache.
pub struct PeaRepository {
    pub data_path: String,
    pub archive_path: String,
    pub prefix: String,
    pub id_length: usize,
    pub id_mode: IdMode,
    pub frontmatter_format: FrontmatterFormat,
    pub cache: PeaCache,
}

/// The file name of a ticket: its id, `--`, the slug of its title cut to
/// 50 characters, and `.md`.
pub open spec fn filename_spec(id: Seq<char>, title: Seq<char>) -> Seq<char> {
    slug_filename(id, spec_slugify(title))
}

/// The file name of a ticket from its id and its title's slug: id, `--`,
/// the slug cut to 50 characters, `.md`.
pub open spec fn slug_filename(id: Seq<char>, slug: Seq<char>) -> Seq<char> {
    id + "--"@ + (if slug.len() > 50 { slug.take(50) } else { slug }) + ".md"@
}

/// The id that lookups search for: the id as given when it starts with the
/// prefix, else the prefix put in front.
pub open spec fn search_id_spec(prefix: Seq<char>, id: Seq<char>) -> Seq<char> {
    if starts_with(id, prefix) {
        id
    } else {
        prefix + id
    }
}

/// The first of the file names that starts with `search`.
pub open spec fn first_match(names: Seq<Seq<char>>, search: Seq<char>, k: int) -> Option<int>
    decreases names.len() - k,
{
    if k < 0 || k >= names.len() {
        None
    } else if starts_with(names[k], search) {
        Some(k)
    } else {
        first_match(names, search, k + 1)
    }
}

/// The counter that follows the content of the counter file: its trimmed
/// number plus one, starting from 0 when the file is missing or unreadable.
pub open spec fn next_counter(content: Option<Seq<char>>) -> int {
    match content {
        Some(c) => match parse_u64_spec(trim(c)) {
            Some(n) => n + 1,
            None => 1,
        },
        None => 1,
    }
}

/// The time a ticket's sort key stands for: seconds shifted to be
/// non-negative, then nanoseconds.
pub open spec fn time_key(t: Timestamp) -> Key {
    ((t.secs as int + 0x8000_0000_0000_0000) as u64, t.nanos as u64, 0, 0)
}

/// The file name of a ticket: id, `--`, the title's slug cut to 50
/// characters, `.md`.
pub fn ticket_filename(id: &str, title: &str) -> (r: String)
    ensures
        r@ == filename_spec(id@, title@),
{
    let slug = slugify(title);
    filename_with_slug(id, slug.as_str())
}

/// The file name of a ticket from its id and the slug of its title.
pub fn filename_with_slug(id: &str, slug: &str) -> (r: String)
    ensures
        r@ == slug_filename(id@, slug@),
{
    let sv = chars_of(slug);
    let cut: Vec<char> = if sv.len() > 50 {
        let mut c: Vec<char> = Vec::new();
        let mut i: usize = 0;
        while i < 50
            invariant
                i <= 50,
                sv.len() > 50,
                c@ == sv@.take(i as int),
            decreases 50 - i,
        {
            c.push(sv[i]);
            i = i + 1;
            assert(sv@.take(i as int) =~= sv@.take(i - 1).push(sv@[i - 1]));
        }
        c
    } else {
        sv
    };
    let cs = string_of(&cut);
    let mut r = concat3(id, "--", cs.as_str());
    r.append(".md");
    r
}

impl PeaRepository {
    /// A store for the project at `project_root` with the given settings.
    pub fn new(config: &PeasConfig, project_root: &str) -> (r: PeaRepository)
        ensures
            r.data_path@ == spec_path_join(project_root@, ".peas"@),
            r.archive_path@ == spec_path_join(spec_path_join(project_root@, ".peas"@), "archive"@),
            r.prefix@ == config.peas.prefix@,
            r.id_length == config.peas.id_length,
            r.id_mode == config.peas.id_mode,
            r.frontmatter_format == format_named(config.peas.frontmatter@),
            r.cache.wf(),
            r.cache@.list is None,
            r.cache@.by_id == Map::<Seq<char>, PeaV>::empty(),
    {
        PeaRepository {
            data_path: config.data_path(project_root),
            archive_path: config.archive_path(project_root),
            prefix: config.peas.prefix.clone(),
            id_length: config.peas.id_length,
            id_mode: config.peas.id_mode,
            frontmatter_format: config.peas.frontmatter_format(),
            cache: PeaCache::new(),
        }
    }

    /// Forgets what is cached.
    pub fn invalidate_cache(&mut self)
        ensures
            final(self).cache.wf(),
            final(self).cache@.list is None,
            final(self).cache@.by_id == Map::<Seq<char>, PeaV>::empty(),
            final(self).prefix == old(self).prefix,
            final(self).id_length == old(self).id_length,
            final(self).id_mode == old(self).id_mode,
    {
        self.cache.invalidate();
    }

    /// The format a ticket is written back in: that of its file as it
    /// stands, else the configured one.
    pub fn rewrite_format(&self, existing: &str) -> (r: FrontmatterFormat)
        ensures
            r == match detect_spec(existing@) {
                Some(f) => f,
                None => self.frontmatter_format,
            },
    {
        match detect_format(existing) {
            Some(f) => f,
            None => self.frontmatter_format,
        }
    }

    /// The file name of a ticket.
    pub fn generate_filename(&self, id: &str, title: &str) -> (r: String)
        ensures
            r@ == filename_spec(id@, title@),
    {
        ticket_filename(id, title)
    }

    /// A random id suffix of the configured length.
    pub fn generate_random_suffix(&self) -> (r: String)
        requires
            0 < self.id_length <= usize::MAX / 8,
        ensures
            r@.len() == self.id_length,
            forall|i: int| 0 <= i < r@.len() ==> id_char(#[trigger] r@[i]),
    {
        let alphabet = id_alphabet_chars();
        proof {
            lemma_id_alphabet();
        }
        let r = nanoid_suffix(alphabet.as_slice(), self.id_length);
        assert forall|i: int| 0 <= i < r@.len() implies id_char(#[trigger] r@[i]) by {
            let k = choose|k: int| 0 <= k < id_alphabet().len() && id_alphabet()[k] == r@[i];
        }
        r
    }

    /// The next sequential counter and its suffix, given the content of the
    /// counter file (if it could be read): the number zero-padded to the
    /// configured length.
    pub fn generate_sequential_suffix(&self, counter_file: Option<&str>) -> (r: (u64, String))
        requires
            next_counter(match counter_file {
                Some(c) => Some(c@),
                None => None,
            }) <= u64::MAX,
        ensures
            r.0 == next_counter(match counter_file {
                Some(c) => Some(c@),
                None => None,
            }),
            r.1@ == pad_zeros(decimal(r.0 as nat), self.id_length as nat),
    {
        let current: u64 = match counter_file {
            Some(c) => {
                let t = trim_str(c);
                let v = chars_of(t.as_str());
                match parse_u64(&v) {
                    Some(n) => n,
                    None => 0,
                }
            },
            None => 0,
        };
        let next = current + 1;
        let digits = decimal_chars(next);
        let padded = pad_left_zeros(&digits, self.id_length);
        (next, string_of(&padded))
    }

    /// A ticket id from a suffix: the prefix, then the suffix.
    pub fn make_id(&self, suffix: &str) -> (r: String)
        ensures
            r@ == self.prefix@ + suffix@,
    {
        concat(self.prefix.as_str(), suffix)
    }

    /// A new id: a random suffix, or the next sequential number given the
    /// counter file's content. Returns the id and, for sequential ids, the
    /// counter to store.
    pub fn generate_id(&self, counter_file: Option<&str>) -> (r: (String, Option<u64>))
        requires
            self.id_mode == IdMode::Random ==> 0 < self.id_length <= usize::MAX / 8,
            self.id_mode == IdMode::Sequential ==> next_counter(match counter_file {
                Some(c) => Some(c@),
                None => None,
            }) <= u64::MAX,
        ensures
            match self.id_mode {
                IdMode::Random => {
                    &&& r.1 is None
                    &&& r.0@.len() == self.prefix@.len() + self.id_length
                    &&& r.0@.take(self.prefix@.len() as int) == self.prefix@
                    &&& forall|i: int| self.prefix@.len() <= i < r.0@.len() ==> id_char(#[trigger] r.0@[i])
                },
                IdMode::Sequential => {
                    let n = next_counter(match counter_file {
                        Some(c) => Some(c@),
                        None => None,
                    });
                    &&& r.1 == Some(n as u64)
                    &&& r.0@ == self.prefix@ + pad_zeros(decimal(n as nat), self.id_length as nat)
                },
            },
    {
        match self.id_mode {
            IdMode::Random => {
                let s = self.generate_random_suffix();
                let id = self.make_id(s.as_str());
                assert(id@.take(self.prefix@.len() as int) =~= self.prefix@);
                assert forall|i: int| self.prefix@.len() <= i < id@.len() implies id_char(#[trigger] id@[i]) by {
                    assert(id@[i] == s@[i - self.prefix@.len()]);
                }
                (id, None)
            },
            IdMode::Sequential => {
                let (n, s) = self.generate_sequential_suffix(counter_file);
                (self.make_id(s.as_str()), Some(n))
            },
        }
    }

    /// The id a lookup searches for.
    pub fn search_id(&self, id: &str) -> (r: String)
        ensures
            r@ == search_id_spec(self.prefix@, id@),
    {
        if str_starts_with(id, self.prefix.as_str()) {
            id.to_owned()
        } else {
            concat(self.prefix.as_str(), id)
        }
    }

    /// Which of the file names in the data directory holds the ticket: the
    /// first that starts with the searched id; `NotFound` when none does.
    pub fn find_file_by_id(&self, names: &Vec<String>, id: &str) -> (r: Result<usize, PeasError>)
        ensures
            match first_match(strs(names@), search_id_spec(self.prefix@, id@), 0) {
                Some(k) => r matches Ok(i) && i == k,
                None => r matches Err(e) && e matches PeasError::NotFound(x) && x@ == id@,
            },
    {
        let search = self.search_id(id);
        let ghost sv = strs(names@);
        let mut k: usize = 0;
        while k < names.len()
            invariant
                k <= names@.len(),
                sv == strs(names@),
                search@ == search_id_spec(self.prefix@, id@),
                first_match(sv, search@, 0) == first_match(sv, search@, k as int),
            decreases names.len() - k,
        {
            if str_starts_with(names[k].as_str(), search.as_str()) {
                assert(sv[k as int] == names@[k as int]@);
                return Ok(k);
            }
            assert(sv[k as int] == names@[k as int]@);
            k = k + 1;
        }
        Err(PeasError::NotFound(id.to_owned()))
    }

    /// Whether a file of the data directory is a ticket of this store: its
    /// name starts with the prefix.
    pub fn is_pea_file(&self, filename: &str) -> (r: bool)
        ensures
            r == starts_with(filename@, self.prefix@),
    {
        str_starts_with(filename, self.prefix.as_str())
    }
}

// ------------------------------------------------------------ listing

/// Ticket `x` comes before ticket `y` in a listing: created earlier, or at
/// the same time and earlier in the input.
pub open spec fn created_before(ps: Seq<PeaV>, x: int, y: int) -> bool {
    ts_before(ps[x].created, ps[y].created) || (ps[x].created == ps[y].created && x < y)
}

/// `r` is `ps` reordered by `perm`, a listing order over all of `ps`.
pub open spec fn listing_of(ps: Seq<PeaV>, perm: Seq<usize>, r: Seq<PeaV>) -> bool {
    &&& perm.len() == ps.len()
    &&& r.len() == ps.len()
    &&& forall|j: int| 0 <= j < perm.len() ==> #[trigger] perm[j] < ps.len()
    &&& forall|p: int, q: int| 0 <= p < q < perm.len() ==> created_before(ps, #[trigger] perm[p] as int, #[trigger] perm[q] as int)
    &&& forall|j: int| 0 <= j < r.len() ==> #[trigger] r[j] == ps[perm[j] as int]
}

proof fn lemma_time_key(a: Timestamp, b: Timestamp)
    ensures
        crate::sort::key_lt(time_key(a), time_key(b)) == ts_before(a, b),
        (time_key(a) == time_key(b)) == (a == b),
{
    let sa = a.secs as int + 0x8000_0000_0000_0000;
    let sb = b.secs as int + 0x8000_0000_0000_0000;
    assert(0 <= sa < 0x1_0000_0000_0000_0000);
    assert(0 <= sb < 0x1_0000_0000_0000_0000);
    assert((sa as u64) as int == sa);
    assert((sb as u64) as int == sb);
}

/// The order of a listing: by creation time, ties kept in input order.
pub fn sort_by_created(peas: Vec<Pea>) -> (r: Vec<Pea>)
    ensures
        exists|perm: Seq<usize>| listing_of(pea_views(peas@), perm, pea_views(r@)),
{
    let n = peas.len();
    let ghost ps = pea_views(peas@);
    let mut keys: Vec<Key> = Vec::new();
    let mut i: usize = 0;
    while i < n
        invariant
            n == peas.len(),
            i <= n,
            keys@.len() == i,
            forall|k: int| 0 <= k < i ==> #[trigger] keys@[k] == time_key(peas@[k].created),
        decreases n - i,
    {
        let t = peas[i].created;
        let shifted: u64 = (t.secs as i128 + 0x8000_0000_0000_0000i128) as u64;
        keys.push((shifted, t.nanos as u64, 0, 0));
        i = i + 1;
    }
    let items = range_items(n);
    assert forall|k: int| 0 <= k < items.len() implies #[trigger] items@[k] < keys.len() by {}
    let order = sort_items(&items, &keys);
    let mut out: Vec<Pea> = Vec::new();
    let mut j: usize = 0;
    while j < order.len()
        invariant
            j <= order@.len(),
            order@.len() == n,
            n == peas.len(),
            ps == pea_views(peas@),
            order@.to_set() == items@.to_set(),
            items@.len() == n,
            forall|k: int| 0 <= k < n ==> #[trigger] items@[k] == k,
            out@.len() == j,
            forall|k: int| 0 <= k < j ==> #[trigger] pea_views(out@)[k] == ps[order@[k] as int],
        decreases order.len() - j,
    {
        let x = order[j];
        assert(order@.to_set().contains(x));
        assert(items@.to_set().contains(x));
        proof {
            let w = choose|w: int| 0 <= w < items@.len() && items@[w] == x;
        }
        assert(x < n);
        let ghost o = out@;
        out.push(peas[x].clone());
        assert forall|k: int| 0 <= k < j + 1 implies #[trigger] pea_views(out@)[k] == ps[order@[k] as int] by {
            if k < j {
                assert(pea_views(out@)[k] == pea_views(o)[k]);
            }
        }
        j = j + 1;
    }
    proof {
        assert forall|q: int| 0 <= q < order@.len() implies #[trigger] order@[q] < ps.len() by {
            assert(order@.to_set().contains(order@[q]));
            assert(items@.to_set().contains(order@[q]));
            let w = choose|w: int| 0 <= w < items@.len() && items@[w] == order@[q];
        }
        assert forall|p: int, q: int| 0 <= p < q < order@.len() implies created_before(
            ps,
            #[trigger] order@[p] as int,
            #[trigger] order@[q] as int,
        ) by {
            assert(before(keys@, order@[p], order@[q]));
            assert(order@[p] < ps.len() && order@[q] < ps.len());
            lemma_time_key(peas@[order@[p] as int].created, peas@[order@[q] as int].created);
        }
        assert(listing_of(ps, order@, pea_views(out@)));
    }
    out
}

// ------------------------------------------------------------ stale writes

/// The message when a ticket changed on disk since it was read, with the
/// two update times as shown.
pub open spec fn stale_text(id: Seq<char>, mine: Seq<char>, current: Seq<char>) -> Seq<char> {
    "Concurrent modification detected for pea '"@ + id
        + "'. The file was modified by another process.\nYour version was updated at: "@ + mine
        + "\nCurrent version was updated at: "@ + current + "\nPlease reload and try again."@
}

/// The message when a ticket changed on disk since it was read.
pub open spec fn stale_msg(id: Seq<char>, mine: Timestamp, current: Timestamp) -> Seq<char> {
    stale_text(id, time_shown(mine), time_shown(current))
}

/// The error refusing a stale write, given the two update times as shown.
pub fn stale_error(id: &str, mine: &str, current: &str) -> (r: PeasError)
    ensures
        r matches PeasError::Storage(m) && m@ == stale_text(id@, mine@, current@),
{
    let mut m = concat3(
        "Concurrent modification detected for pea '",
        id,
        "'. The file was modified by another process.\nYour version was updated at: ",
    );
    m.append(mine);
    m.append("\nCurrent version was updated at: ");
    m.append(current);
    m.append("\nPlease reload and try again.");
    PeasError::Storage(m)
}

/// Refuses to write a ticket whose stored copy was updated at another time
/// than the copy being written was read at.
pub fn check_not_stale(mine: &Pea, current: &Pea) -> (r: Result<(), PeasError>)
    ensures
        current.updated == mine.updated <==> r is Ok,
        r matches Err(e) ==> e matches PeasError::Storage(m) && m@ == stale_msg(
            mine@.id,
            mine.updated,
            current.updated,
        ),
{
    if current.updated.same_as(&mine.updated) {
        Ok(())
    } else {
        let a = time_text(mine.updated);
        let b = time_text(current.updated);
        Err(stale_error(mine.id.as_str(), a.as_str(), b.as_str()))
    }
}

/// The counter written after an id is generated reads back as that
/// number, so the next sequential id takes the number after it: ids keep
/// counting up across stores that share the counter file.
pub proof fn sequential_counter_continues(n: u64)
    ensures
        next_counter(Some(decimal(n as nat))) == n + 1,
{
    decimal_parse_round_trip(n);
}

/// A listing holds every ticket once: its order has no position twice.
pub proof fn listing_has_no_repeats(ps: Seq<PeaV>, perm: Seq<usize>, r: Seq<PeaV>)
    requires
        listing_of(ps, perm, r),
    ensures
        forall|p: int, q: int| 0 <= p < q < perm.len() ==> perm[p] != perm[q],
{
    assert forall|p: int, q: int| 0 <= p < q < perm.len() implies perm[p] != perm[q] by {
        assert(created_before(ps, perm[p] as int, perm[q] as int));
        if perm[p] == perm[q] {
            assert(!ts_before(ps[perm[p] as int].created, ps[perm[p] as int].created));
        }
    }
}

/// A listing is in creation order: no ticket comes after one created
/// later.
pub proof fn listing_in_creation_order(ps: Seq<PeaV>, perm: Seq<usize>, r: Seq<PeaV>)
    requires
        listing_of(ps, perm, r),
    ensures
        forall|p: int, q: int| 0 <= p < q < r.len() ==> !ts_before(#[trigger] r[q].created, #[trigger] r[p].created),
{
    assert forall|p: int, q: int| 0 <= p < q < r.len() implies !ts_before(#[trigger] r[q].created, #[trigger] r[p].created) by {
        assert(created_before(ps, perm[p] as int, perm[q] as int));
        assert(r[p] == ps[perm[p] as int]);
        assert(r[q] == ps[perm[q] as int]);
    }
}

/// What the store writes is what it finds: the file a ticket is saved to
/// is a ticket file of the store, and a lookup of the ticket's id picks
/// that file from a directory listing, provided no file listed before it
/// also starts with the id (a lookup matches file names by prefix, so the
/// file of a longer id such as `peas-abc12` would shadow `peas-abc1`).
pub proof fn written_file_is_found(prefix: Seq<char>, id: Seq<char>, title: Seq<char>, names: Seq<Seq<char>>, k: int)
    requires
        starts_with(id, prefix),
        0 <= k < names.len(),
        names[k] == filename_spec(id, title),
        forall|j: int| 0 <= j < k ==> !starts_with(#[trigger] names[j], id),
    ensures
        starts_with(filename_spec(id, title), prefix),
        first_match(names, search_id_spec(prefix, id), 0) == Some(k),
{
    let f = filename_spec(id, title);
    assert(f.take(id.len() as int) =~= id);
    assert(f.take(prefix.len() as int) =~= id.take(prefix.len() as int));
    assert(search_id_spec(prefix, id) == id);
    lemma_first_match_from(names, id, 0, k);
}

proof fn lemma_first_match_from(names: Seq<Seq<char>>, search: Seq<char>, j: int, k: int)
    requires
        0 <= j <= k < names.len(),
        starts_with(names[k], search),
        forall|i: int| 0 <= i < k ==> !starts_with(#[trigger] names[i], search),
    ensures
        first_match(names, search, j) == Some(k),
    decreases k - j,
{
    if j < k {
        lemma_first_match_from(names, search, j + 1, k);
    }
}

} // verus!
