//! The decisions of `peas archive`: which tickets, how old, and the
//! answers to its questions.
use vstd::prelude::*;
use crate::cli::{opt_priority, opt_status, opt_type, priority_of, status_of, type_of, ArchiveParams};
use crate::model::{opt_str, Pea, PeaV, Timestamp};
use crate::query::Criteria;
use crate::suggest::pea_views;
use crate::text::{decimal, lemma_decimal_digits, lemma_trim_id, chars_of, concat3, parse_i64, parse_i64_spec, slice_vec, str_eq, string_of, trim, trim_str};

verus! {

/// The largest number of days a chrono `TimeDelta` can hold: its bound is
/// `i64::MAX` milliseconds.
pub const MAX_DELTA_DAYS: i64 = 106751991167;

/// A span of whole days.
#[derive(Debug, Clone, Copy, PartialEq, Eq, Structural)]
pub struct Period {
    pub days: i64,
}

impl Period {
    /// The span's length in days.
    pub open spec fn days_spec(&self) -> int {
        self.days as int
    }

    /// The span's length in days.
    pub fn num_days(&self) -> (r: i64)
        ensures
            r == self.days_spec(),
    {
        self.days
    }
}

/// The days a count of a unit stands for: days, weeks, months of 30 days
/// and years of 365 days.
pub open spec fn unit_days(u: char, n: int) -> Option<int> {
    if u == 'd' {
        Some(n)
    } else if u == 'w' {
        Some(7 * n)
    } else if u == 'm' {
        Some(30 * n)
    } else if u == 'y' {
        Some(365 * n)
    } else {
        None
    }
}

/// What a duration such as `30d`, `4w`, `6m` or `1y` stands for, in days,
/// or the message it is refused with. Surrounding whitespace is ignored.
pub open spec fn duration_spec(s: Seq<char>) -> Result<int, Seq<char>> {
    let t = trim(s);
    if t.len() == 0 {
        Err("Empty duration string"@)
    } else {
        match parse_i64_spec(t.drop_last()) {
            None => Err("Invalid duration '"@ + t + "': expected format like 30d, 4w, 6m, 1y"@),
            Some(n) => if n <= 0 {
                Err("Duration must be positive: "@ + t)
            } else {
                match unit_days(t.last(), n as int) {
                    Some(d) => Ok(d),
                    None => Err(
                        "Unknown duration unit '"@ + seq![t.last()]
                            + "': use d (days), w (weeks), m (months), y (years)"@,
                    ),
                }
            },
        }
    }
}

/// The durations on which reading one does not fail outright: a valid
/// duration fits in a `TimeDelta`.
pub open spec fn duration_defined(s: Seq<char>) -> bool {
    duration_spec(s) matches Ok(d) ==> d <= MAX_DELTA_DAYS
}

/// Whether reading a duration is defined on `s` (see `duration_defined`).
pub fn duration_in_range(s: &str) -> (r: bool)
    ensures
        r == duration_defined(s@),
{
    let t = trim_str(s);
    let v = chars_of(t.as_str());
    if v.len() == 0 {
        return true;
    }
    let unit = v[v.len() - 1];
    let num = slice_vec(&v, 0, v.len() - 1);
    assert(num@ =~= t@.drop_last());
    let n = match parse_i64(&num) {
        Some(n) => n,
        None => {
            return true;
        },
    };
    if n <= 0 {
        return true;
    }
    let factor: i64 = if unit == 'd' {
        1
    } else if unit == 'w' {
        7
    } else if unit == 'm' {
        30
    } else if unit == 'y' {
        365
    } else {
        return true;
    };
    n <= MAX_DELTA_DAYS / factor
}

/// Reads a duration such as `30d`, `4w`, `6m` or `1y`.
pub fn parse_duration(s: &str) -> (r: Result<Period, String>)
    requires
        duration_defined(s@),
    ensures
        match duration_spec(s@) {
            Ok(d) => r matches Ok(p) && p.days_spec() == d,
            Err(m) => r matches Err(e) && e@ == m,
        },
{
    let t = trim_str(s);
    let v = chars_of(t.as_str());
    if v.len() == 0 {
        return Err("Empty duration string".to_owned());
    }
    let unit = v[v.len() - 1];
    let num = slice_vec(&v, 0, v.len() - 1);
    assert(num@ =~= t@.drop_last());
    let n = match parse_i64(&num) {
        Some(n) => n,
        None => {
            return Err(concat3("Invalid duration '", t.as_str(), "': expected format like 30d, 4w, 6m, 1y"));
        },
    };
    if n <= 0 {
        let mut m = "Duration must be positive: ".to_owned();
        m.append(t.as_str());
        return Err(m);
    }
    if unit == 'd' {
        Ok(Period { days: n })
    } else if unit == 'w' {
        Ok(Period { days: n * 7 })
    } else if unit == 'm' {
        Ok(Period { days: n * 30 })
    } else if unit == 'y' {
        Ok(Period { days: n * 365 })
    } else {
        let mut u: Vec<char> = Vec::new();
        u.push(unit);
        let us = string_of(&u);
        Err(concat3("Unknown duration unit '", us.as_str(), "': use d (days), w (weeks), m (months), y (years)"))
    }
}

/// What chrono gives for a time (seconds and nanoseconds since the epoch)
/// moved back by a number of days: the seconds and nanoseconds of the
/// result, or `None` where chrono refuses (a time or span outside its
/// range).
pub uninterp spec fn spec_days_before(secs: i64, nanos: u32, days: i64) -> Option<(i64, u32)>;

/// `at` moved back by `days` days (`DateTime<Utc> - TimeDelta::days`,
/// through chrono's checked forms). Trusted: the result is named by
/// `spec_days_before`; where chrono gives a time for a time that is not a
/// leap second (nanoseconds below one billion), it is exactly that many
/// seconds earlier with the same sub-second part, as chrono's arithmetic
/// on whole days shows. A leap second is left by the subtraction, so of
/// such a time only the name is stated; when chrono refuses is not stated.
#[verifier::external_body]
fn days_before(at: Timestamp, days: i64) -> (r: Option<Timestamp>)
    ensures
        match r {
            Some(t) => spec_days_before(at.secs, at.nanos, days) == Some((t.secs, t.nanos)),
            None => spec_days_before(at.secs, at.nanos, days) is None,
        },
        at.nanos < 1_000_000_000 ==> (r matches Some(t) ==> t.secs == at.secs - days * 86400
            && t.nanos == at.nanos),
{
    let dt = chrono::DateTime::from_timestamp(at.secs, at.nanos)?;
    let c = dt.checked_sub_signed(chrono::TimeDelta::try_days(days)?)?;
    Some(Timestamp { secs: c.timestamp(), nanos: c.timestamp_subsec_nanos() })
}

/// The time a period before `now`, as chrono computes it: exactly that many
/// days earlier for a time that is not a leap second; `None` where chrono
/// cannot represent it.
pub fn cutoff_before(now: Timestamp, p: Period) -> (r: Option<Timestamp>)
    ensures
        match spec_days_before(now.secs, now.nanos, p.days) {
            Some((secs, nanos)) => r == Some(Timestamp { secs, nanos }),
            None => r is None,
        },
        now.nanos < 1_000_000_000 ==> (r matches Some(t) ==> t.secs == now.secs - p.days_spec()
            * 86400 && t.nanos == now.nanos),
{
    days_before(now, p.days)
}

// ------------------------------------------------------------ modes

/// What `peas archive` does with its arguments.
pub enum ArchiveMode {
    /// Archive the one ticket.
    Single(String),
    /// Archive the ticket and all its descendants.
    Recursive(String),
    /// Archive the tickets that meet the filters.
    Batch,
    /// Neither an id nor a filter was given.
    MissingFilter,
}

/// The message when `peas archive` gets neither an id nor a filter.
pub open spec fn missing_filter_msg() -> Seq<char> {
    "Provide a pea ID or at least one filter (--status, --type, --priority, --tag, --older-than)"@
}

/// The message when `peas archive` gets neither an id nor a filter.
pub fn missing_filter_message() -> (r: String)
    ensures
        r@ == missing_filter_msg(),
{
    "Provide a pea ID or at least one filter (--status, --type, --priority, --tag, --older-than)".to_owned()
}

/// Chooses what `peas archive` does: an id wins (recursively with
/// `recursive`); else some filter is needed.
pub fn archive_mode(params: &ArchiveParams) -> (r: ArchiveMode)
    ensures
        match params.id {
            Some(id) => if params.recursive {
                r matches ArchiveMode::Recursive(x) && x@ == id@
            } else {
                r matches ArchiveMode::Single(x) && x@ == id@
            },
            None => if params.status is None && params.pea_type is None && params.priority is None
                && params.tag is None && params.older_than is None {
                r is MissingFilter
            } else {
                r is Batch
            },
        },
{
    match &params.id {
        Some(id) => {
            if params.recursive {
                ArchiveMode::Recursive(id.clone())
            } else {
                ArchiveMode::Single(id.clone())
            }
        },
        None => {
            if params.status.is_none() && params.pea_type.is_none() && params.priority.is_none()
                && params.tag.is_none() && params.older_than.is_none() {
                ArchiveMode::MissingFilter
            } else {
                ArchiveMode::Batch
            }
        },
    }
}

/// The selection criteria of a batch archive; `cutoff` is the time an
/// `--older-than` duration reaches back to.
pub fn archive_criteria(params: &ArchiveParams, cutoff: Option<Timestamp>) -> (r: Criteria)
    ensures
        r.pea_type == opt_type(params.pea_type),
        r.status == opt_status(params.status),
        r.priority == opt_priority(params.priority),
        r.parent is None,
        opt_str(r.tag) == opt_str(params.tag),
        r.is_open is None,
        r.updated_before == cutoff,
{
    Criteria {
        pea_type: type_of(params.pea_type),
        status: status_of(params.status),
        priority: priority_of(params.priority),
        parent: None,
        tag: match &params.tag {
            Some(t) => Some(t.clone()),
            None => None,
        },
        is_open: None,
        updated_before: cutoff,
    }
}

// ------------------------------------------------------------ answers

/// Whether an answer to "Also delete N asset(s)? [Y/n]" is a yes: empty
/// (the default) or `y` in either case, around whitespace.
pub open spec fn default_yes(input: Seq<char>) -> bool {
    let t = trim(input);
    t.len() == 0 || t == "y"@ || t == "Y"@
}

/// Whether an answer to "Archive N ticket(s)? [y/N]" is a yes: `y` in
/// either case, around whitespace.
pub open spec fn explicit_yes(input: Seq<char>) -> bool {
    let t = trim(input);
    t == "y"@ || t == "Y"@
}

/// Whether an answer to a `[Y/n]` question is a yes.
pub fn answer_default_yes(input: &str) -> (r: bool)
    ensures
        r == default_yes(input@),
{
    let t = trim_str(input);
    t.as_str().is_empty() || str_eq(t.as_str(), "y") || str_eq(t.as_str(), "Y")
}

/// Whether an answer to a `[y/N]` question is a yes.
pub fn answer_explicit_yes(input: &str) -> (r: bool)
    ensures
        r == explicit_yes(input@),
{
    let t = trim_str(input);
    str_eq(t.as_str(), "y") || str_eq(t.as_str(), "Y")
}

// ------------------------------------------------------------ descendants

/// The positions of the tickets whose parent is `id`, in order.
pub open spec fn children_of(all: Seq<PeaV>, id: Seq<char>) -> Seq<int>
    decreases all.len(),
{
    if all.len() == 0 {
        Seq::empty()
    } else {
        let prev = children_of(all.drop_last(), id);
        if all.last().parent == Some(id) {
            prev.push(all.len() - 1)
        } else {
            prev
        }
    }
}

/// The ids of the tickets at the given positions.
pub open spec fn ids_at(all: Seq<PeaV>, idx: Seq<int>) -> Seq<Seq<char>> {
    idx.map_values(|i: int| all[i].id)
}

/// The walk that collects descendants: the last id on the stack is taken
/// off, its children are listed and their ids put on the stack, until the
/// stack is empty; `None` when `fuel` steps do not suffice.
pub open spec fn walk(all: Seq<PeaV>, stack: Seq<Seq<char>>, fuel: nat) -> Option<Seq<int>>
    decreases fuel,
{
    if stack.len() == 0 {
        Some(Seq::empty())
    } else if fuel == 0 {
        None
    } else {
        let kids = children_of(all, stack.last());
        match walk(all, stack.drop_last() + ids_at(all, kids), (fuel - 1) as nat) {
            Some(rest) => Some(kids + rest),
            None => None,
        }
    }
}

fn children_indices(all: &Vec<Pea>, id: &str) -> (r: Vec<usize>)
    ensures
        r@.map_values(|i: usize| i as int) == children_of(pea_views(all@), id@),
        forall|k: int| 0 <= k < r@.len() ==> r@[k] < all@.len(),
{
    let ghost ps = pea_views(all@);
    let mut out: Vec<usize> = Vec::new();
    let mut i: usize = 0;
    while i < all.len()
        invariant
            i <= all.len(),
            ps == pea_views(all@),
            out@.map_values(|i: usize| i as int) == children_of(ps.take(i as int), id@),
            forall|k: int| 0 <= k < out@.len() ==> out@[k] < i,
        decreases all.len() - i,
    {
        let ghost t = ps.take(i + 1);
        assert(t.drop_last() =~= ps.take(i as int));
        assert(t.last() == all@[i as int]@);
        let is_child = match &all[i].parent {
            Some(p) => str_eq(p.as_str(), id),
            None => false,
        };
        if is_child {
            let ghost o = out@;
            out.push(i);
            assert(out@.map_values(|i: usize| i as int) =~= o.map_values(|i: usize| i as int).push(i as int));
        }
        i = i + 1;
    }
    assert(ps.take(all.len() as int) =~= ps);
    out
}

/// The positions of the descendants of `root` in `all`, in the order the
/// walk meets them, when the walk ends within `fuel` steps; `None` when it
/// does not (a cycle of parents through `root` makes it endless).
pub fn collect_descendants(all: &Vec<Pea>, root: &str, fuel: usize) -> (r: Option<Vec<usize>>)
    ensures
        match walk(pea_views(all@), seq![root@], fuel as nat) {
            Some(s) => r matches Some(v) && v@.map_values(|i: usize| i as int) == s,
            None => r is None,
        },
{
    let ghost ps = pea_views(all@);
    let ghost total = walk(ps, seq![root@], fuel as nat);
    let mut stack: Vec<String> = Vec::new();
    stack.push(root.to_owned());
    let mut out: Vec<usize> = Vec::new();
    let mut f = fuel;
    assert(stack@.map_values(|s: String| s@) =~= seq![root@]);
    while stack.len() > 0
        invariant
            ps == pea_views(all@),
            total == walk(ps, seq![root@], fuel as nat),
            total == match walk(ps, stack@.map_values(|s: String| s@), f as nat) {
                Some(rest) => Some(out@.map_values(|i: usize| i as int) + rest),
                None => None::<Seq<int>>,
            },
        decreases f,
    {
        if f == 0 {
            return None;
        }
        let ghost before = stack@.map_values(|s: String| s@);
        let cur = stack.pop().unwrap();
        assert(stack@.map_values(|s: String| s@) =~= before.drop_last());
        assert(cur@ == before.last());
        let kids = children_indices(all, cur.as_str());
        let ghost kv = kids@.map_values(|i: usize| i as int);
        let ghost o = out@;
        let mut k: usize = 0;
        while k < kids.len()
            invariant
                k <= kids.len(),
                kv == kids@.map_values(|i: usize| i as int),
                forall|q: int| 0 <= q < kids@.len() ==> kids@[q] < all@.len(),
                ps == pea_views(all@),
                stack@.map_values(|s: String| s@) == before.drop_last() + ids_at(ps, kv.take(k as int)),
                out@.map_values(|i: usize| i as int) == o.map_values(|i: usize| i as int) + kv.take(k as int),
            decreases kids.len() - k,
        {
            let j = kids[k];
            let ghost so = stack@;
            let ghost oo = out@;
            stack.push(all[j].id.clone());
            out.push(j);
            assert(kv.take(k + 1) =~= kv.take(k as int).push(j as int));
            assert(ids_at(ps, kv.take(k + 1)) =~= ids_at(ps, kv.take(k as int)).push(ps[j as int].id));
            assert(stack@.map_values(|s: String| s@) =~= so.map_values(|s: String| s@).push(all@[j as int].id@));
            assert(out@.map_values(|i: usize| i as int) =~= oo.map_values(|i: usize| i as int).push(j as int));
            k = k + 1;
        }
        assert(kv.take(kids.len() as int) =~= kv);
        f = f - 1;
        assert(out@.map_values(|i: usize| i as int) =~= o.map_values(|i: usize| i as int) + kv);
    }
    assert(stack@.map_values(|s: String| s@) =~= Seq::<Seq<char>>::empty());
    assert(out@.map_values(|i: usize| i as int) + Seq::<int>::empty() =~= out@.map_values(|i: usize| i as int));
    Some(out)
}

/// A duration written as a positive count and a unit reads back as that
/// many days of the unit: `30d` is 30 days, `4w` 28, `6m` 180 and `1y`
/// 365, whatever whitespace surrounds it.
pub proof fn duration_round_trip(n: nat, u: char)
    requires
        0 < n <= i64::MAX,
        u == 'd' || u == 'w' || u == 'm' || u == 'y',
    ensures
        duration_spec(decimal(n).push(u)) matches Ok(d) && unit_days(u, n as int) == Some(d),
        unit_days(u, n as int) matches Some(d) && d >= n,
{
    let s = decimal(n).push(u);
    lemma_decimal_digits(n);
    assert(s[0] == decimal(n)[0]);
    lemma_trim_id(s);
    assert(s.drop_last() =~= decimal(n));
    assert(decimal(n)[0] != '-') by {
        assert(crate::text::is_digit(decimal(n)[0]));
    }
}

} // verus!
