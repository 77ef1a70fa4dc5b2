//! Choosing the next ticket to work on.
use vstd::prelude::*;
use crate::model::{priority_rank, status_is_open, Pea, PeaPriority, PeaStatus, PeaType, PeaV};
use crate::sort::{before, increasing, key_lt, sort_items, sorted_by, Key};
use crate::text::{concat3, decimal, str_eq, u64_to_string};
use crate::update::has_string;

verus! {

/// The models of a list of peas.
pub open spec fn pea_views(v: Seq<Pea>) -> Seq<PeaV> {
    v.map_values(|p: Pea| p@)
}

/// Milestones and epics group other tickets and are not worked on directly.
pub open spec fn is_container(t: PeaType) -> bool {
    t == PeaType::Milestone || t == PeaType::Epic
}

/// A ticket that is neither completed nor scrapped still holds up the
/// tickets it blocks.
pub open spec fn unfinished(s: PeaStatus) -> bool {
    s != PeaStatus::Completed && s != PeaStatus::Scrapped
}

/// Some unfinished ticket lists `id` among the tickets it blocks.
pub open spec fn is_blocked(ps: Seq<PeaV>, id: Seq<char>) -> bool {
    exists|k: int| 0 <= k < ps.len() && unfinished(ps[k].status) && #[trigger] ps[k].blocking.contains(id)
}

/// An open ticket that is not a container and that no unfinished ticket
/// blocks.
pub open spec fn is_candidate(ps: Seq<PeaV>, p: PeaV) -> bool {
    &&& status_is_open(p.status)
    &&& !is_container(p.pea_type)
    &&& !is_blocked(ps, p.id)
}

/// How many tickets a pea blocks: the entries of its blocking list.
pub open spec fn blocks_count(p: PeaV) -> nat {
    p.blocking.len()
}

/// Bugs first, then features, stories, chores, research and tasks.
pub open spec fn type_rank(t: PeaType) -> nat {
    match t {
        PeaType::Bug => 0,
        PeaType::Feature => 1,
        PeaType::Story => 2,
        PeaType::Chore => 3,
        PeaType::Research => 4,
        PeaType::Task => 5,
        _ => 6,
    }
}

/// The ranking key of a pea: in-progress first, then those blocking more
/// tickets, then by priority, then by type.
pub open spec fn suggest_key(ps: Seq<PeaV>, p: PeaV) -> Key {
    (
        if p.status == PeaStatus::InProgress {
            0u64
        } else {
            1u64
        },
        (u64::MAX - blocks_count(p)) as u64,
        priority_rank(p.priority) as u64,
        type_rank(p.pea_type) as u64,
    )
}

/// Why a pea is suggested.
pub open spec fn reason_spec(ps: Seq<PeaV>, p: PeaV) -> Seq<char> {
    if p.status == PeaStatus::InProgress {
        "Currently in progress"@
    } else if blocks_count(p) > 0 {
        "Blocking "@ + decimal(blocks_count(p)) + " ticket(s)"@
    } else if p.priority == PeaPriority::Critical {
        "Critical priority"@
    } else if p.priority == PeaPriority::High {
        "High priority"@
    } else if p.pea_type == PeaType::Bug {
        "Bug fix"@
    } else {
        "Next in queue"@
    }
}

/// An open container with no open, non-container child.
pub open spec fn is_empty_container(ps: Seq<PeaV>, e: PeaV) -> bool {
    &&& status_is_open(e.status)
    &&& is_container(e.pea_type)
    &&& forall|k: int|
        0 <= k < ps.len() ==> !(#[trigger] ps[k].parent == Some(e.id) && status_is_open(
            ps[k].status,
        ) && !is_container(ps[k].pea_type))
}

/// One suggested ticket.
#[derive(Debug)]
pub struct SuggestedItem {
    /// Index of the ticket in the list given.
    pub index: usize,
    pub reason: String,
    pub blocks_count: usize,
}

/// The outcome of a suggestion.
#[derive(Debug)]
pub enum Suggestion {
    /// Actionable tickets, best first.
    Ranked(Vec<SuggestedItem>),
    /// No actionable ticket; an open epic or milestone without open
    /// children (its index) should be broken down or closed.
    EmptyContainer(usize),
    /// Nothing to suggest.
    Nothing,
}

/// Whether some unfinished pea lists `id` among the tickets it blocks.
fn blocked(peas: &Vec<Pea>, id: &str) -> (r: bool)
    ensures
        r == is_blocked(pea_views(peas@), id@),
{
    let ghost ps = pea_views(peas@);
    let mut k: usize = 0;
    while k < peas.len()
        invariant
            k <= peas.len(),
            ps == pea_views(peas@),
            forall|q: int| 0 <= q < k ==> !(unfinished(ps[q].status) && #[trigger] ps[q].blocking.contains(id@)),
        decreases peas.len() - k,
    {
        let q = &peas[k];
        assert(ps[k as int] == q@);
        if q.status != PeaStatus::Completed && q.status != PeaStatus::Scrapped && has_string(&q.blocking, id) {
            assert(unfinished(ps[k as int].status) && ps[k as int].blocking.contains(id@));
            return true;
        }
        k = k + 1;
    }
    false
}

/// Whether a pea is a candidate for work.
fn candidate(peas: &Vec<Pea>, i: usize) -> (r: bool)
    requires
        i < peas.len(),
    ensures
        r == is_candidate(pea_views(peas@), peas@[i as int]@),
{
    let p = &peas[i];
    if !p.is_open() {
        return false;
    }
    match p.pea_type {
        PeaType::Milestone | PeaType::Epic => {
            return false;
        },
        _ => {},
    }
    !blocked(peas, p.id.as_str())
}

/// The reason text for a suggestion.
fn reason_text(p: &Pea, blocks: usize) -> (r: String)
    ensures
        r@ == (if p.status == PeaStatus::InProgress {
            "Currently in progress"@
        } else if blocks > 0 {
            "Blocking "@ + decimal(blocks as nat) + " ticket(s)"@
        } else if p.priority == PeaPriority::Critical {
            "Critical priority"@
        } else if p.priority == PeaPriority::High {
            "High priority"@
        } else if p.pea_type == PeaType::Bug {
            "Bug fix"@
        } else {
            "Next in queue"@
        }),
{
    if p.status == PeaStatus::InProgress {
        "Currently in progress".to_owned()
    } else if blocks > 0 {
        let n = u64_to_string(blocks as u64);
        concat3("Blocking ", n.as_str(), " ticket(s)")
    } else if p.priority == PeaPriority::Critical {
        "Critical priority".to_owned()
    } else if p.priority == PeaPriority::High {
        "High priority".to_owned()
    } else if p.pea_type == PeaType::Bug {
        "Bug fix".to_owned()
    } else {
        "Next in queue".to_owned()
    }
}

fn type_rank_of(t: PeaType) -> (r: u64)
    ensures
        r == type_rank(t),
{
    match t {
        PeaType::Bug => 0,
        PeaType::Feature => 1,
        PeaType::Story => 2,
        PeaType::Chore => 3,
        PeaType::Research => 4,
        PeaType::Task => 5,
        _ => 6,
    }
}

/// Whether the pea at index `e` is an open container without open,
/// non-container children.
fn empty_container(peas: &Vec<Pea>, e: usize) -> (r: bool)
    requires
        e < peas.len(),
    ensures
        r == is_empty_container(pea_views(peas@), peas@[e as int]@),
{
    let c = &peas[e];
    if !c.is_open() {
        return false;
    }
    match c.pea_type {
        PeaType::Milestone | PeaType::Epic => {},
        _ => {
            return false;
        },
    }
    let ghost ps = pea_views(peas@);
    let mut k: usize = 0;
    while k < peas.len()
        invariant
            k <= peas.len(),
            c == peas@[e as int],
            ps == pea_views(peas@),
            forall|q: int|
                0 <= q < k ==> !(#[trigger] ps[q].parent == Some(c@.id) && status_is_open(
                    ps[q].status,
                ) && !is_container(ps[q].pea_type)),
        decreases peas.len() - k,
    {
        let p = &peas[k];
        let child = match &p.parent {
            Some(par) => str_eq(par.as_str(), c.id.as_str()),
            None => false,
        };
        let container = match p.pea_type {
            PeaType::Milestone | PeaType::Epic => true,
            _ => false,
        };
        if child && p.is_open() && !container {
            assert(ps[k as int] == p@);
            assert(ps[k as int].parent == Some(c@.id));
            return false;
        }
        k = k + 1;
    }
    true
}

/// The indices of the candidates among the first `n` peas, in order.
pub open spec fn candidates_upto(ps: Seq<PeaV>, n: int) -> Seq<usize>
    decreases n,
{
    if n <= 0 {
        Seq::empty()
    } else if is_candidate(ps, ps[n - 1]) {
        candidates_upto(ps, n - 1).push((n - 1) as usize)
    } else {
        candidates_upto(ps, n - 1)
    }
}

/// `s` holds exactly the indices of candidates among the first `n` peas,
/// in increasing order.
pub open spec fn exactly_candidates(ps: Seq<PeaV>, s: Seq<usize>, n: int) -> bool {
    &&& increasing(s)
    &&& forall|k: int| 0 <= k < s.len() ==> #[trigger] s[k] < n && is_candidate(ps, ps[s[k] as int])
    &&& forall|i: int| 0 <= i < n && is_candidate(ps, ps[i]) ==> s.contains(i as usize)
}

/// The ranked suggestion `idx` is right for `ps` and `limit`: all are
/// candidates, best first, as many as the limit allows, and every candidate
/// left out ranks after every one taken.
pub open spec fn ranked_correctly(ps: Seq<PeaV>, idx: Seq<usize>, limit: nat) -> bool {
    let keys = Seq::new(ps.len(), |i: int| suggest_key(ps, ps[i]));
    let ncand = Set::new(|i: usize| (i as int) < ps.len() && is_candidate(ps, ps[i as int])).len();
    &&& forall|k: int| 0 <= k < idx.len() ==> (#[trigger] idx[k] as int) < ps.len() && is_candidate(
        ps,
        ps[idx[k] as int],
    )
    &&& sorted_by(keys, idx)
    &&& forall|c: usize, k: int|
        (c as int) < ps.len() && is_candidate(ps, ps[c as int]) && !idx.contains(c) && 0 <= k
            < idx.len() ==> #[trigger] before(keys, idx[k], c)
    &&& (idx.len() == limit || forall|c: usize|
        (c as int) < ps.len() && is_candidate(ps, ps[c as int]) ==> #[trigger] idx.contains(c))
    &&& idx.len() <= limit
}

/// Suggests what to work on next among `peas`, at most `limit` tickets.
pub fn suggest(peas: &Vec<Pea>, limit: usize) -> (r: Suggestion)
    ensures
        match r {
            Suggestion::Ranked(items) => {
                &&& items.len() > 0 || limit == 0
                &&& ranked_correctly(
                    pea_views(peas@),
                    items@.map_values(|it: SuggestedItem| it.index),
                    limit as nat,
                )
                &&& forall|k: int|
                    0 <= k < items.len() ==> {
                        let p = pea_views(peas@)[#[trigger] items@[k].index as int];
                        &&& items@[k].blocks_count == blocks_count(p)
                        &&& items@[k].reason@ == reason_spec(pea_views(peas@), p)
                    }
            },
            Suggestion::EmptyContainer(e) => {
                &&& (forall|i: int|
                    0 <= i < peas.len() ==> !is_candidate(pea_views(peas@), #[trigger] peas@[i]@))
                &&& e < peas.len()
                &&& is_empty_container(pea_views(peas@), peas@[e as int]@)
                &&& forall|i: int|
                    0 <= i < e ==> !is_empty_container(pea_views(peas@), #[trigger] peas@[i]@)
            },
            Suggestion::Nothing => {
                &&& forall|i: int|
                    0 <= i < peas.len() ==> !is_candidate(pea_views(peas@), #[trigger] peas@[i]@)
                &&& forall|i: int|
                    0 <= i < peas.len() ==> !is_empty_container(
                        pea_views(peas@),
                        #[trigger] peas@[i]@,
                    )
            },
        },
{
    let ghost ps = pea_views(peas@);
    let n = peas.len();
    // candidates and their keys
    let mut cands: Vec<usize> = Vec::new();
    let mut keys: Vec<Key> = Vec::new();
    let mut i: usize = 0;
    while i < n
        invariant
            i <= n,
            n == peas.len(),
            ps == pea_views(peas@),
            keys.len() == i,
            forall|k: int| 0 <= k < i ==> #[trigger] keys@[k] == suggest_key(ps, ps[k]),
            exactly_candidates(ps, cands@, i as int),
        decreases n - i,
    {
        let p = &peas[i];
        let cnt = p.blocking.len();
        assert(ps[i as int] == p@);
        let a: u64 = if p.status == PeaStatus::InProgress {
            0
        } else {
            1
        };
        keys.push((a, u64::MAX - cnt as u64, p.priority.rank() as u64, type_rank_of(p.pea_type)));
        let ghost old_c = cands@;
        if candidate(peas, i) {
            cands.push(i);
            proof {
                assert forall|j: int| 0 <= j < i + 1 && is_candidate(ps, ps[j]) implies cands@.contains(
                    j as usize,
                ) by {
                    if j == i {
                        assert(cands@[old_c.len() as int] == i);
                    } else {
                        assert(old_c.contains(j as usize));
                        let w = choose|w: int| 0 <= w < old_c.len() && old_c[w] == j as usize;
                        assert(cands@[w] == j as usize);
                    }
                }
            }
        } else {
            proof {
                assert(!is_candidate(ps, ps[i as int]));
            }
        }
        i = i + 1;
    }
    let ghost keyseq = Seq::new(ps.len(), |k: int| suggest_key(ps, ps[k]));
    assert(keys@ =~= keyseq);
    if cands.len() > 0 {
        let order = sort_items(&cands, &keys);
        proof {
            assert forall|q: int| 0 <= q < order.len() implies #[trigger] order@[q] < n by {
                assert(order@.to_set().contains(order@[q]));
                assert(cands@.to_set().contains(order@[q]));
                let w = choose|w: int| 0 <= w < cands@.len() && cands@[w] == order@[q];
            }
        }
        let m = if limit < order.len() {
            limit
        } else {
            order.len()
        };
        let mut items: Vec<SuggestedItem> = Vec::new();
        let mut k: usize = 0;
        while k < m
            invariant
                k <= m <= order.len(),
                order.len() == cands.len(),
                n == peas.len(),
                ps == pea_views(peas@),
                forall|q: int| 0 <= q < order.len() ==> #[trigger] order@[q] < n,
                items.len() == k,
                forall|q: int| 0 <= q < k ==> #[trigger] items@[q].index == order@[q],
                forall|q: int|
                    0 <= q < k ==> {
                        let p = ps[#[trigger] items@[q].index as int];
                        &&& items@[q].blocks_count == blocks_count(p)
                        &&& items@[q].reason@ == reason_spec(ps, p)
                    },
            decreases m - k,
        {
            let ix = order[k];
            let cnt = peas[ix].blocking.len();
            assert(ps[ix as int] == peas@[ix as int]@);
            let reason = reason_text(&peas[ix], cnt);
            items.push(SuggestedItem { index: ix, reason, blocks_count: cnt });
            k = k + 1;
        }
        proof {
            let idx = items@.map_values(|it: SuggestedItem| it.index);
            assert(idx =~= order@.take(m as int));
            assert forall|q: int| 0 <= q < order.len() implies (#[trigger] order@[q] as int) < ps.len()
                && is_candidate(ps, ps[order@[q] as int]) by {
                assert(order@.to_set().contains(order@[q]));
                assert(cands@.to_set().contains(order@[q]));
                let w = choose|w: int| 0 <= w < cands@.len() && cands@[w] == order@[q];
            }
            assert forall|c: usize, q: int|
                (c as int) < ps.len() && is_candidate(ps, ps[c as int]) && !idx.contains(c) && 0 <= q
                    < idx.len() implies #[trigger] before(keyseq, idx[q], c) by {
                assert(cands@.contains(c));
                assert(cands@.to_set().contains(c));
                assert(order@.to_set().contains(c));
                let w = choose|w: int| 0 <= w < order@.len() && order@[w] == c;
                if w < m {
                    assert(idx[w] == c);
                }
                assert(idx[q] == order@[q]);
            }
            assert forall|c: usize|
                (c as int) < ps.len() && is_candidate(ps, ps[c as int]) && idx.len() != limit implies #[trigger] idx.contains(
                c,
            ) by {
                assert(m == order.len());
                assert(cands@.contains(c));
                assert(cands@.to_set().contains(c));
                assert(order@.to_set().contains(c));
                let w = choose|w: int| 0 <= w < order@.len() && order@[w] == c;
                assert(idx[w] == c);
            }
            assert(sorted_by(keyseq, idx)) by {
                assert forall|p: int, q: int| 0 <= p < q < idx.len() implies before(
                    keyseq,
                    #[trigger] idx[p],
                    #[trigger] idx[q],
                ) by {
                    assert(idx[p] == order@[p] && idx[q] == order@[q]);
                }
            }
        }
        return Suggestion::Ranked(items);
    }
    proof {
        assert forall|q: int| 0 <= q < peas.len() implies !is_candidate(ps, #[trigger] peas@[q]@) by {
            assert(ps[q] == peas@[q]@);
            if is_candidate(ps, ps[q]) {
                assert(cands@.contains(q as usize));
            }
        }
    }
    let mut e: usize = 0;
    while e < n
        invariant
            e <= n,
            n == peas.len(),
            ps == pea_views(peas@),
            forall|q: int| 0 <= q < e ==> !is_empty_container(ps, #[trigger] peas@[q]@),
            forall|q: int| 0 <= q < peas.len() ==> !is_candidate(ps, #[trigger] peas@[q]@),
        decreases n - e,
    {
        if empty_container(peas, e) {
            return Suggestion::EmptyContainer(e);
        }
        e = e + 1;
    }
    Suggestion::Nothing
}

/// Suggestions are actionable and work in progress comes first: every
/// suggested ticket is open, is not an epic or milestone, and no unfinished
/// ticket lists it among the tickets it blocks; and no suggestion that is not in progress comes
/// before one that is.
pub proof fn suggestions_actionable(ps: Seq<PeaV>, idx: Seq<usize>, limit: nat)
    requires
        ranked_correctly(ps, idx, limit),
    ensures
        forall|k: int|
            0 <= k < idx.len() ==> {
                let p = ps[#[trigger] idx[k] as int];
                &&& status_is_open(p.status)
                &&& !is_container(p.pea_type)
                &&& forall|q: int|
                    0 <= q < ps.len() && unfinished(ps[q].status) ==> !(#[trigger] ps[q].blocking.contains(p.id))
            },
        forall|a: int, b: int|
            0 <= a < b < idx.len() && ps[#[trigger] idx[b] as int].status == PeaStatus::InProgress
                ==> ps[#[trigger] idx[a] as int].status == PeaStatus::InProgress,
{
    let keys = Seq::new(ps.len(), |i: int| suggest_key(ps, ps[i]));
    assert forall|a: int, b: int|
        0 <= a < b < idx.len() && ps[#[trigger] idx[b] as int].status == PeaStatus::InProgress
            implies ps[#[trigger] idx[a] as int].status == PeaStatus::InProgress by {
        assert(before(keys, idx[a], idx[b]));
        assert(keys[idx[b] as int].0 == 0);
    }
}

/// The order of types among otherwise equal suggestions: bugs, features,
/// stories, chores, research, then tasks.
pub open spec fn type_order() -> Seq<PeaType> {
    seq![PeaType::Bug, PeaType::Feature, PeaType::Story, PeaType::Chore, PeaType::Research, PeaType::Task]
}

/// The order of priorities: critical, high, normal, low, deferred.
pub open spec fn priority_order() -> Seq<PeaPriority> {
    seq![PeaPriority::Critical, PeaPriority::High, PeaPriority::Normal, PeaPriority::Low, PeaPriority::Deferred]
}

/// `x` is to be worked on before `y`: it is in progress and `y` is not;
/// or, alike in that, it blocks more tickets; or, alike in that too, its
/// priority is higher; or, alike in all three, its type comes first in
/// `type_order`.
pub open spec fn ranks_ahead(x: PeaV, y: PeaV) -> bool {
    let same_progress = (x.status == PeaStatus::InProgress) == (y.status == PeaStatus::InProgress);
    ||| x.status == PeaStatus::InProgress && y.status != PeaStatus::InProgress
    ||| same_progress && x.blocking.len() > y.blocking.len()
    ||| same_progress && x.blocking.len() == y.blocking.len() && exists|i: int, j: int|
        0 <= i < j < priority_order().len() && priority_order()[i] == x.priority && priority_order()[j]
            == y.priority
    ||| same_progress && x.blocking.len() == y.blocking.len() && x.priority == y.priority && exists|
        i: int,
        j: int,
    | 0 <= i < j < type_order().len() && type_order()[i] == x.pea_type && type_order()[j] == y.pea_type
}

/// Of two candidates, the one that ranks ahead is suggested first (a bug
/// before a task alike in all else, say): whenever the other is
/// suggested, it is too, and ahead of it.
pub proof fn suggestions_follow_ranking(ps: Seq<PeaV>, idx: Seq<usize>, limit: nat, x: usize, y: usize)
    requires
        ranked_correctly(ps, idx, limit),
        (x as int) < ps.len(),
        (y as int) < ps.len(),
        ps[x as int].blocking.len() <= u64::MAX,
        ps[y as int].blocking.len() <= u64::MAX,
        is_candidate(ps, ps[x as int]),
        is_candidate(ps, ps[y as int]),
        ranks_ahead(ps[x as int], ps[y as int]),
    ensures
        idx.contains(y) ==> exists|kx: int, ky: int|
            0 <= kx < ky < idx.len() && idx[kx] == x && idx[ky] == y,
{
    let keys = Seq::new(ps.len(), |k: int| suggest_key(ps, ps[k]));
    let px = ps[x as int];
    let py = ps[y as int];
    if exists|i: int, j: int|
        0 <= i < j < priority_order().len() && priority_order()[i] == px.priority && priority_order()[j]
            == py.priority {
        let (i, j) = choose|i: int, j: int|
            0 <= i < j < priority_order().len() && priority_order()[i] == px.priority && priority_order()[j]
                == py.priority;
        assert(i == 0 || i == 1 || i == 2 || i == 3 || i == 4);
        assert(j == 0 || j == 1 || j == 2 || j == 3 || j == 4);
        assert(priority_rank(px.priority) < priority_rank(py.priority));
    }
    if exists|i: int, j: int|
        0 <= i < j < type_order().len() && type_order()[i] == px.pea_type && type_order()[j] == py.pea_type {
        let (i, j) = choose|i: int, j: int|
            0 <= i < j < type_order().len() && type_order()[i] == px.pea_type && type_order()[j]
                == py.pea_type;
        assert(i == 0 || i == 1 || i == 2 || i == 3 || i == 4 || i == 5);
        assert(j == 0 || j == 1 || j == 2 || j == 3 || j == 4 || j == 5);
        assert(type_rank(px.pea_type) < type_rank(py.pea_type));
    }
    assert(key_lt(keys[x as int], keys[y as int]));
    if idx.contains(y) {
        let ky = choose|ky: int| 0 <= ky < idx.len() && idx[ky] == y;
        if !idx.contains(x) {
            assert(before(keys, idx[ky], x));
            assert(false);
        }
        let kx = choose|kx: int| 0 <= kx < idx.len() && idx[kx] == x;
        if kx >= ky {
            if kx > ky {
                assert(before(keys, idx[ky], idx[kx]));
            }
            assert(false);
        }
        assert(0 <= kx < ky < idx.len() && idx[kx] == x && idx[ky] == y);
    }
}
/// Why a ticket is suggested: work in progress says so; otherwise a ticket
/// that blocks others says how many; otherwise a critical or high priority
/// says so; otherwise a bug is a bug fix; anything else is next in queue.
pub proof fn suggestion_reasons(ps: Seq<PeaV>, p: PeaV)
    ensures
        p.status == PeaStatus::InProgress ==> reason_spec(ps, p) == "Currently in progress"@,
        p.status != PeaStatus::InProgress && p.blocking.len() > 0 ==> reason_spec(ps, p) == "Blocking "@
            + decimal(p.blocking.len()) + " ticket(s)"@,
        p.status != PeaStatus::InProgress && p.blocking.len() == 0 ==> reason_spec(ps, p) == (
        if p.priority == PeaPriority::Critical {
            "Critical priority"@
        } else if p.priority == PeaPriority::High {
            "High priority"@
        } else if p.pea_type == PeaType::Bug {
            "Bug fix"@
        } else {
            "Next in queue"@
        }),
{
}

} // verus!
