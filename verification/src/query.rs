//! Selecting tickets: the filters of `peas list`, `peas archive` and the
//! GraphQL `peas` query, text search, paging, counts and descendants.
use vstd::prelude::*;
use crate::cli::{opt_priority, opt_status, opt_type, priority_of, status_of, type_of, ListParams};
use crate::model::{opt_str, status_is_open, ts_before, Pea, PeaPriority, PeaStatus, PeaType, PeaV, Timestamp};
use crate::suggest::pea_views;
use crate::text::{contains, contains_chars, chars_of, spec_to_lowercase, str_eq, to_lowercase};
use crate::update::has_string;

verus! {

/// The conditions a ticket must meet to be selected; `None` leaves a
/// condition out.
pub struct Criteria {
    pub pea_type: Option<PeaType>,
    pub status: Option<PeaStatus>,
    pub priority: Option<PeaPriority>,
    /// The ticket's parent is this id.
    pub parent: Option<String>,
    /// The ticket carries this tag.
    pub tag: Option<String>,
    /// The ticket is open (or, with `false`, closed).
    pub is_open: Option<bool>,
    /// The ticket was last updated strictly before this time.
    pub updated_before: Option<Timestamp>,
}

/// The selection of `peas list`: type, status, priority, parent and tag
/// where given.
pub fn list_criteria(params: &ListParams) -> (r: Criteria)
    ensures
        r.pea_type == opt_type(params.pea_type),
        r.status == opt_status(params.status),
        r.priority == opt_priority(params.priority),
        opt_str(r.parent) == opt_str(params.parent),
        opt_str(r.tag) == opt_str(params.tag),
        r.is_open is None,
        r.updated_before is None,
{
    Criteria {
        pea_type: type_of(params.pea_type),
        status: status_of(params.status),
        priority: priority_of(params.priority),
        parent: match &params.parent {
            Some(p) => Some(p.clone()),
            None => None,
        },
        tag: match &params.tag {
            Some(t) => Some(t.clone()),
            None => None,
        },
        is_open: None,
        updated_before: None,
    }
}

/// Whether a ticket meets every condition given.
pub open spec fn meets(c: Criteria, p: PeaV) -> bool {
    &&& (c.pea_type matches Some(t) ==> p.pea_type == t)
    &&& (c.status matches Some(s) ==> p.status == s)
    &&& (c.priority matches Some(x) ==> p.priority == x)
    &&& (c.parent matches Some(par) ==> p.parent == Some(par@))
    &&& (c.tag matches Some(t) ==> p.tags.contains(t@))
    &&& (c.is_open matches Some(o) ==> status_is_open(p.status) == o)
    &&& (c.updated_before matches Some(cut) ==> ts_before(p.updated, cut))
}

/// Whether a ticket meets every condition given.
pub fn meets_criteria(c: &Criteria, p: &Pea) -> (r: bool)
    ensures
        r == meets(*c, p@),
{
    match c.pea_type {
        Some(t) => {
            if p.pea_type != t {
                return false;
            }
        },
        None => {},
    }
    match c.status {
        Some(s) => {
            if p.status != s {
                return false;
            }
        },
        None => {},
    }
    match c.priority {
        Some(x) => {
            if p.priority != x {
                return false;
            }
        },
        None => {},
    }
    match &c.parent {
        Some(par) => {
            match &p.parent {
                Some(pp) => {
                    if !str_eq(pp.as_str(), par.as_str()) {
                        return false;
                    }
                },
                None => {
                    return false;
                },
            }
        },
        None => {},
    }
    match &c.tag {
        Some(t) => {
            if !has_string(&p.tags, t.as_str()) {
                return false;
            }
        },
        None => {},
    }
    match c.is_open {
        Some(o) => {
            if p.is_open() != o {
                return false;
            }
        },
        None => {},
    }
    match c.updated_before {
        Some(cut) => {
            if !p.updated.is_before(&cut) {
                return false;
            }
        },
        None => {},
    }
    true
}

/// The tickets that meet the criteria, in their order.
pub fn filter_peas(peas: Vec<Pea>, c: &Criteria) -> (r: Vec<Pea>)
    ensures
        pea_views(r@) == pea_views(peas@).filter(|p: PeaV| meets(*c, p)),
{
    let ghost f = |p: PeaV| meets(*c, p);
    let ghost all = pea_views(peas@);
    let n = peas.len();
    let mut out: Vec<Pea> = Vec::new();
    let mut k: usize = 0;
    for p in it: peas
        invariant
            all == pea_views(it.seq()),
            k == it.index(),
            k <= all.len(),
            all.len() == n,
            f == (|p: PeaV| meets(*c, p)),
            pea_views(out@) == all.take(k as int).filter(f),
    {
        let ghost pre = all.take(k as int);
        assert(all.take(k + 1) =~= pre.push(p@));
        proof {
            pre.lemma_filter_push(p@, f);
        }
        if meets_criteria(c, &p) {
            let ghost o = out@;
            let ghost pv = p@;
            out.push(p);
            assert(pea_views(out@) =~= pea_views(o).push(pv));
        }
        k = k + 1;
    }
    assert(all.take(all.len() as int) =~= all);
    out
}

// ------------------------------------------------------------ text search

/// Whether a ticket's title, body or id contains the (already lowercased)
/// query, compared in lowercase.
pub open spec fn text_hit(p: PeaV, query_lower: Seq<char>) -> bool {
    ||| contains(spec_to_lowercase(p.title), query_lower)
    ||| contains(spec_to_lowercase(p.body), query_lower)
    ||| contains(spec_to_lowercase(p.id), query_lower)
}

fn lower_contains(s: &str, q: &[char]) -> (r: bool)
    ensures
        r == contains(spec_to_lowercase(s@), q@),
{
    let l = to_lowercase(s);
    let v = chars_of(l.as_str());
    contains_chars(&v, q)
}

/// Whether a ticket's title, body or id contains the query, ignoring case.
pub fn text_matches(p: &Pea, query_lower: &[char]) -> (r: bool)
    ensures
        r == text_hit(p@, query_lower@),
{
    lower_contains(p.title.as_str(), query_lower) || lower_contains(p.body.as_str(), query_lower)
        || lower_contains(p.id.as_str(), query_lower)
}

/// The tickets whose title, body or id contains `query`, ignoring case, in
/// their order, at most `limit` of them.
pub fn text_search(peas: Vec<Pea>, query: &str, limit: usize) -> (r: Vec<Pea>)
    ensures
        ({
            let hits = pea_views(peas@).filter(|p: PeaV| text_hit(p, spec_to_lowercase(query@)));
            pea_views(r@) == hits.take(if hits.len() < limit { hits.len() as int } else { limit as int })
        }),
{
    let ql = to_lowercase(query);
    let q = chars_of(ql.as_str());
    let ghost f = |p: PeaV| text_hit(p, spec_to_lowercase(query@));
    let ghost all = pea_views(peas@);
    let n = peas.len();
    let mut out: Vec<Pea> = Vec::new();
    let mut k: usize = 0;
    for p in it: peas
        invariant
            all == pea_views(it.seq()),
            k == it.index(),
            k <= all.len(),
            all.len() == n,
            q@ == spec_to_lowercase(query@),
            f == (|p: PeaV| text_hit(p, spec_to_lowercase(query@))),
            pea_views(out@) == ({
                let h = all.take(k as int).filter(f);
                h.take(if h.len() < limit { h.len() as int } else { limit as int })
            }),
    {
        let ghost pre = all.take(k as int);
        assert(all.take(k + 1) =~= pre.push(p@));
        proof {
            pre.lemma_filter_push(p@, f);
        }
        let ghost h0 = pre.filter(f);
        let ghost h1 = all.take(k + 1).filter(f);
        if text_matches(&p, &q) {
            if out.len() < limit {
                let ghost o = out@;
                let ghost pv = p@;
                out.push(p);
                assert(pea_views(out@) =~= pea_views(o).push(pv));
                assert(h1 =~= h0.push(pv));
                assert(h1.take(if h1.len() < limit { h1.len() as int } else { limit as int })
                    =~= h0.take(if h0.len() < limit { h0.len() as int } else { limit as int }).push(pv));
            } else {
                assert(pea_views(out@).len() == out@.len());
                assert(h1 =~= h0.push(p@));
                assert(h1.take(limit as int) =~= h0.take(limit as int));
            }
        }
        k = k + 1;
    }
    assert(all.take(all.len() as int) =~= all);
    out
}

// ------------------------------------------------------------ paging

/// Skips `offset` tickets and keeps at most `limit` of the rest.
pub fn paginate(peas: Vec<Pea>, offset: usize, limit: usize) -> (r: Vec<Pea>)
    ensures
        pea_views(r@) == ({
            let rest = pea_views(peas@).skip(if offset < peas@.len() { offset as int } else { peas@.len() as int });
            rest.take(if rest.len() < limit { rest.len() as int } else { limit as int })
        }),
{
    let ghost all = pea_views(peas@);
    let n = peas.len();
    let start: usize = if offset < n { offset } else { n };
    let end: usize = if n - start < limit { n } else { start + limit };
    let mut out: Vec<Pea> = Vec::new();
    let mut k: usize = 0;
    for p in it: peas
        invariant
            all == pea_views(it.seq()),
            n == all.len(),
            k == it.index(),
            start <= end <= n,
            pea_views(out@) == all.subrange(start as int, if k < start { start as int } else if k < end { k as int } else { end as int }),
    {
        if start <= k && k < end {
            let ghost o = out@;
            let ghost pv = p@;
            out.push(p);
            assert(pea_views(out@) =~= pea_views(o).push(pv));
            assert(all.subrange(start as int, k + 1) =~= all.subrange(start as int, k as int).push(all[k as int]));
        }
        k = k + 1;
    }
    assert(pea_views(out@) =~= ({
        let rest = all.skip(start as int);
        rest.take(if rest.len() < limit { rest.len() as int } else { limit as int })
    }));
    out
}

// ------------------------------------------------------------ counts

/// Counts of tickets by status and by type.
pub struct Counts {
    pub total: usize,
    pub draft: usize,
    pub todo: usize,
    pub in_progress: usize,
    pub completed: usize,
    pub scrapped: usize,
    pub milestone: usize,
    pub epic: usize,
    pub story: usize,
    pub feature: usize,
    pub bug: usize,
    pub chore: usize,
    pub research: usize,
    pub task: usize,
}

/// How many tickets have status `s`.
pub open spec fn with_status(ps: Seq<PeaV>, s: PeaStatus) -> nat {
    ps.filter(|p: PeaV| p.status == s).len()
}

/// How many tickets have type `t`.
pub open spec fn with_type(ps: Seq<PeaV>, t: PeaType) -> nat {
    ps.filter(|p: PeaV| p.pea_type == t).len()
}

fn bump(c: &mut usize, n: usize)
    requires
        *old(c) < n,
    ensures
        *final(c) == *old(c) + 1,
{
    *c = *c + 1;
}

/// Counts the tickets by status and by type.
pub fn count_peas(peas: &Vec<Pea>) -> (r: Counts)
    ensures
        r.total == peas@.len(),
        r.draft == with_status(pea_views(peas@), PeaStatus::Draft),
        r.todo == with_status(pea_views(peas@), PeaStatus::Todo),
        r.in_progress == with_status(pea_views(peas@), PeaStatus::InProgress),
        r.completed == with_status(pea_views(peas@), PeaStatus::Completed),
        r.scrapped == with_status(pea_views(peas@), PeaStatus::Scrapped),
        r.milestone == with_type(pea_views(peas@), PeaType::Milestone),
        r.epic == with_type(pea_views(peas@), PeaType::Epic),
        r.story == with_type(pea_views(peas@), PeaType::Story),
        r.feature == with_type(pea_views(peas@), PeaType::Feature),
        r.bug == with_type(pea_views(peas@), PeaType::Bug),
        r.chore == with_type(pea_views(peas@), PeaType::Chore),
        r.research == with_type(pea_views(peas@), PeaType::Research),
        r.task == with_type(pea_views(peas@), PeaType::Task),
{
    let ghost all = pea_views(peas@);
    let mut r = Counts {
        total: peas.len(),
        draft: 0,
        todo: 0,
        in_progress: 0,
        completed: 0,
        scrapped: 0,
        milestone: 0,
        epic: 0,
        story: 0,
        feature: 0,
        bug: 0,
        chore: 0,
        research: 0,
        task: 0,
    };
    let n = peas.len();
    let mut k: usize = 0;
    while k < n
        invariant
            n == peas.len(),
            all == pea_views(peas@),
            k <= n,
            r.total == n,
            r.draft == with_status(all.take(k as int), PeaStatus::Draft),
            r.todo == with_status(all.take(k as int), PeaStatus::Todo),
            r.in_progress == with_status(all.take(k as int), PeaStatus::InProgress),
            r.completed == with_status(all.take(k as int), PeaStatus::Completed),
            r.scrapped == with_status(all.take(k as int), PeaStatus::Scrapped),
            r.milestone == with_type(all.take(k as int), PeaType::Milestone),
            r.epic == with_type(all.take(k as int), PeaType::Epic),
            r.story == with_type(all.take(k as int), PeaType::Story),
            r.feature == with_type(all.take(k as int), PeaType::Feature),
            r.bug == with_type(all.take(k as int), PeaType::Bug),
            r.chore == with_type(all.take(k as int), PeaType::Chore),
            r.research == with_type(all.take(k as int), PeaType::Research),
            r.task == with_type(all.take(k as int), PeaType::Task),
        decreases n - k,
    {
        let ghost pre = all.take(k as int);
        let ghost p = all[k as int];
        assert(all.take(k + 1) =~= pre.push(p));
        proof {
            lemma_status_counts_step(pre, p);
            lemma_type_counts_step(pre, p);
            lemma_status_count_bound(pre, PeaStatus::Draft);
            lemma_status_count_bound(pre, PeaStatus::Todo);
            lemma_status_count_bound(pre, PeaStatus::InProgress);
            lemma_status_count_bound(pre, PeaStatus::Completed);
            lemma_status_count_bound(pre, PeaStatus::Scrapped);
            lemma_type_count_bound(pre, PeaType::Milestone);
            lemma_type_count_bound(pre, PeaType::Epic);
            lemma_type_count_bound(pre, PeaType::Story);
            lemma_type_count_bound(pre, PeaType::Feature);
            lemma_type_count_bound(pre, PeaType::Bug);
            lemma_type_count_bound(pre, PeaType::Chore);
            lemma_type_count_bound(pre, PeaType::Research);
            lemma_type_count_bound(pre, PeaType::Task);
        }
        match peas[k].status {
            PeaStatus::Draft => bump(&mut r.draft, n),
            PeaStatus::Todo => bump(&mut r.todo, n),
            PeaStatus::InProgress => bump(&mut r.in_progress, n),
            PeaStatus::Completed => bump(&mut r.completed, n),
            PeaStatus::Scrapped => bump(&mut r.scrapped, n),
        }
        match peas[k].pea_type {
            PeaType::Milestone => bump(&mut r.milestone, n),
            PeaType::Epic => bump(&mut r.epic, n),
            PeaType::Story => bump(&mut r.story, n),
            PeaType::Feature => bump(&mut r.feature, n),
            PeaType::Bug => bump(&mut r.bug, n),
            PeaType::Chore => bump(&mut r.chore, n),
            PeaType::Research => bump(&mut r.research, n),
            PeaType::Task => bump(&mut r.task, n),
        }
        k = k + 1;
    }
    assert(all.take(n as int) =~= all);
    r
}

proof fn lemma_status_counts_step(pre: Seq<PeaV>, p: PeaV)
    ensures
        forall|s: PeaStatus|
            #[trigger] with_status(pre.push(p), s) == with_status(pre, s) + if p.status == s {
                1nat
            } else {
                0nat
            },
{
    assert forall|s: PeaStatus|
        #[trigger] with_status(pre.push(p), s) == with_status(pre, s) + if p.status == s {
            1nat
        } else {
            0nat
        } by {
        pre.lemma_filter_push(p, |q: PeaV| q.status == s);
    }
}

proof fn lemma_type_counts_step(pre: Seq<PeaV>, p: PeaV)
    ensures
        forall|t: PeaType|
            #[trigger] with_type(pre.push(p), t) == with_type(pre, t) + if p.pea_type == t {
                1nat
            } else {
                0nat
            },
{
    assert forall|t: PeaType|
        #[trigger] with_type(pre.push(p), t) == with_type(pre, t) + if p.pea_type == t {
            1nat
        } else {
            0nat
        } by {
        pre.lemma_filter_push(p, |q: PeaV| q.pea_type == t);
    }
}

proof fn lemma_status_count_bound(pre: Seq<PeaV>, s: PeaStatus)
    ensures
        with_status(pre, s) <= pre.len(),
{
    pre.lemma_filter_len(|q: PeaV| q.status == s);
}

proof fn lemma_type_count_bound(pre: Seq<PeaV>, t: PeaType)
    ensures
        with_type(pre, t) <= pre.len(),
{
    pre.lemma_filter_len(|q: PeaV| q.pea_type == t);
}

/// A ticket has everything the criteria ask for: the type, status and
/// priority given, the parent given, the tag given among its tags, open or
/// closed as asked, last updated before the cutoff.
pub open spec fn has_all_asked(c: Criteria, p: PeaV) -> bool {
    &&& forall|t: PeaType| c.pea_type == Some(t) ==> p.pea_type == t
    &&& forall|s: PeaStatus| c.status == Some(s) ==> p.status == s
    &&& forall|x: PeaPriority| c.priority == Some(x) ==> p.priority == x
    &&& forall|par: String| c.parent == Some(par) ==> p.parent == Some(par@)
    &&& forall|t: String| c.tag == Some(t) ==> p.tags.contains(t@)
    &&& forall|o: bool| c.is_open == Some(o) ==> status_is_open(p.status) == o
    &&& forall|cut: Timestamp| c.updated_before == Some(cut) ==> ts_before(p.updated, cut)
}

/// Filtering keeps exactly the tickets that have everything the criteria
/// ask for, in their order: each ticket kept has the status (type,
/// priority, parent, tag, ...) asked for, none without it is kept, and
/// each one with all of it is kept.
pub proof fn filter_keeps_exactly_what_is_asked(ps: Seq<PeaV>, c: Criteria)
    ensures
        ({
            let r = ps.filter(|p: PeaV| meets(c, p));
            &&& forall|k: int| 0 <= k < r.len() ==> has_all_asked(c, #[trigger] r[k]) && ps.contains(r[k])
            &&& forall|k: int| 0 <= k < ps.len() && has_all_asked(c, ps[k]) ==> #[trigger] r.contains(ps[k])
        }),
{
    let f = |p: PeaV| meets(c, p);
    let r = ps.filter(f);
    assert forall|k: int| 0 <= k < r.len() implies has_all_asked(c, #[trigger] r[k]) && ps.contains(r[k]) by {
        ps.lemma_filter_pred(f, k);
        assert(r.contains(r[k]));
        ps.lemma_filter_contains_rev(f, r[k]);
    }
    assert forall|k: int| 0 <= k < ps.len() && has_all_asked(c, ps[k]) implies #[trigger] r.contains(ps[k]) by {
        assert(f(ps[k]));
        ps.lemma_filter_contains(f, k);
    }
}

/// Text search finds tickets by title, body or id, ignoring case: each
/// ticket found contains the lowercase query in the lowercase of its
/// title, body or id; no more than `limit` are found; and when fewer are,
/// every ticket that contains it is found.
pub proof fn text_search_finds_what_contains_the_query(ps: Seq<PeaV>, query: Seq<char>, limit: nat)
    ensures
        ({
            let lq = spec_to_lowercase(query);
            let hits = ps.filter(|p: PeaV| text_hit(p, lq));
            let r = hits.take(if hits.len() < limit { hits.len() as int } else { limit as int });
            &&& r.len() <= limit
            &&& forall|k: int| 0 <= k < r.len() ==> ps.contains(#[trigger] r[k]) && (contains(
                spec_to_lowercase(r[k].title),
                lq,
            ) || contains(spec_to_lowercase(r[k].body), lq) || contains(spec_to_lowercase(r[k].id), lq))
            &&& r.len() < limit ==> forall|k: int|
                0 <= k < ps.len() && (contains(spec_to_lowercase(ps[k].title), lq) || contains(
                    spec_to_lowercase(ps[k].body),
                    lq,
                ) || contains(spec_to_lowercase(ps[k].id), lq)) ==> #[trigger] r.contains(ps[k])
        }),
{
    let lq = spec_to_lowercase(query);
    let f = |p: PeaV| text_hit(p, lq);
    let hits = ps.filter(f);
    let m: int = if hits.len() < limit { hits.len() as int } else { limit as int };
    let r = hits.take(m);
    assert forall|k: int| 0 <= k < r.len() implies ps.contains(#[trigger] r[k]) && (contains(
        spec_to_lowercase(r[k].title),
        lq,
    ) || contains(spec_to_lowercase(r[k].body), lq) || contains(spec_to_lowercase(r[k].id), lq)) by {
        assert(r[k] == hits[k]);
        ps.lemma_filter_pred(f, k);
        assert(hits.contains(hits[k]));
        ps.lemma_filter_contains_rev(f, hits[k]);
    }
    if r.len() < limit {
        assert(r =~= hits);
        assert forall|k: int|
            0 <= k < ps.len() && (contains(spec_to_lowercase(ps[k].title), lq) || contains(
                spec_to_lowercase(ps[k].body),
                lq,
            ) || contains(spec_to_lowercase(ps[k].id), lq)) implies #[trigger] r.contains(ps[k]) by {
            assert(f(ps[k]));
            ps.lemma_filter_contains(f, k);
        }
    }
}

} // verus!
