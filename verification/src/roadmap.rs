//! The roadmap: milestones, their epics, and the epics' tickets.
use vstd::prelude::*;
use crate::model::{Pea, PeaStatus, PeaType, PeaV};
use crate::suggest::pea_views;
use crate::text::{lines, lines_of, str_eq, str_views};

verus! {

/// The positions of the tickets that satisfy `f`, in order.
pub open spec fn positions(ps: Seq<PeaV>, f: spec_fn(PeaV) -> bool) -> Seq<int>
    decreases ps.len(),
{
    if ps.len() == 0 {
        Seq::empty()
    } else if f(ps.last()) {
        positions(ps.drop_last(), f).push(ps.len() - 1)
    } else {
        positions(ps.drop_last(), f)
    }
}

/// An epic of the roadmap and the positions of its tickets.
pub struct RoadmapEpic {
    pub epic: usize,
    pub tasks: Vec<usize>,
}

/// A milestone of the roadmap and its epics.
pub struct RoadmapMilestone {
    pub milestone: usize,
    pub epics: Vec<RoadmapEpic>,
}

/// Milestones.
pub open spec fn is_milestone() -> spec_fn(PeaV) -> bool {
    |p: PeaV| p.pea_type == PeaType::Milestone
}

/// Epics under the milestone with id `m`.
pub open spec fn epic_of(m: Seq<char>) -> spec_fn(PeaV) -> bool {
    |p: PeaV| p.pea_type == PeaType::Epic && p.parent == Some(m)
}

/// Tickets under the epic with id `e`.
pub open spec fn child_of(e: Seq<char>) -> spec_fn(PeaV) -> bool {
    |p: PeaV| p.parent == Some(e)
}

fn positions_where(peas: &Vec<Pea>, kind: u8, parent: &str) -> (r: Vec<usize>)
    requires
        kind < 3,
    ensures
        r@.map_values(|i: usize| i as int) == positions(
            pea_views(peas@),
            if kind == 0 {
                is_milestone()
            } else if kind == 1 {
                epic_of(parent@)
            } else {
                child_of(parent@)
            },
        ),
        forall|k: int| 0 <= k < r@.len() ==> r@[k] < peas@.len(),
{
    let ghost ps = pea_views(peas@);
    let ghost f = if kind == 0 {
        is_milestone()
    } else if kind == 1 {
        epic_of(parent@)
    } else {
        child_of(parent@)
    };
    let mut out: Vec<usize> = Vec::new();
    let mut i: usize = 0;
    while i < peas.len()
        invariant
            i <= peas@.len(),
            kind < 3,
            ps == pea_views(peas@),
            f == if kind == 0 {
                is_milestone()
            } else if kind == 1 {
                epic_of(parent@)
            } else {
                child_of(parent@)
            },
            out@.map_values(|i: usize| i as int) == positions(ps.take(i as int), f),
            forall|k: int| 0 <= k < out@.len() ==> out@[k] < i,
        decreases peas.len() - i,
    {
        let ghost t = ps.take(i + 1);
        assert(t.drop_last() =~= ps.take(i as int));
        assert(t.last() == peas@[i as int]@);
        let p = &peas[i];
        let parent_is = match &p.parent {
            Some(x) => str_eq(x.as_str(), parent),
            None => false,
        };
        let keep = if kind == 0 {
            p.pea_type == PeaType::Milestone
        } else if kind == 1 {
            p.pea_type == PeaType::Epic && parent_is
        } else {
            parent_is
        };
        assert(keep == f(p@));
        if keep {
            let ghost o = out@;
            out.push(i);
            assert(out@.map_values(|i: usize| i as int) =~= o.map_values(|i: usize| i as int).push(i as int));
        }
        i = i + 1;
    }
    assert(ps.take(peas.len() as int) =~= ps);
    out
}

/// The roadmap: each milestone in order, each with its epics in order,
/// each with the tickets under it in order.
pub fn roadmap(peas: &Vec<Pea>) -> (r: Vec<RoadmapMilestone>)
    ensures
        r@.map_values(|m: RoadmapMilestone| m.milestone as int) == positions(pea_views(peas@), is_milestone()),
        forall|k: int| 0 <= k < r@.len() ==> {
            let m = #[trigger] r@[k];
            let mid = pea_views(peas@)[m.milestone as int].id;
            &&& m.milestone < peas@.len()
            &&& m.epics@.map_values(|e: RoadmapEpic| e.epic as int) == positions(pea_views(peas@), epic_of(mid))
            &&& forall|j: int| 0 <= j < m.epics@.len() ==> {
                let e = #[trigger] m.epics@[j];
                &&& e.epic < peas@.len()
                &&& e.tasks@.map_values(|i: usize| i as int) == positions(
                    pea_views(peas@),
                    child_of(pea_views(peas@)[e.epic as int].id),
                )
            }
        },
{
    let ghost ps = pea_views(peas@);
    let ms = positions_where(peas, 0, "");
    let mut out: Vec<RoadmapMilestone> = Vec::new();
    let mut k: usize = 0;
    while k < ms.len()
        invariant
            k <= ms@.len(),
            ps == pea_views(peas@),
            ms@.map_values(|i: usize| i as int) == positions(ps, is_milestone()),
            forall|q: int| 0 <= q < ms@.len() ==> ms@[q] < peas@.len(),
            out@.map_values(|m: RoadmapMilestone| m.milestone as int) == ms@.take(k as int).map_values(|i: usize| i as int),
            forall|q: int| 0 <= q < out@.len() ==> {
                let m = #[trigger] out@[q];
                let mid = ps[m.milestone as int].id;
                &&& m.milestone < peas@.len()
                &&& m.epics@.map_values(|e: RoadmapEpic| e.epic as int) == positions(ps, epic_of(mid))
                &&& forall|j: int| 0 <= j < m.epics@.len() ==> {
                    let e = #[trigger] m.epics@[j];
                    &&& e.epic < peas@.len()
                    &&& e.tasks@.map_values(|i: usize| i as int) == positions(ps, child_of(ps[e.epic as int].id))
                }
            },
        decreases ms.len() - k,
    {
        let mi = ms[k];
        let es = positions_where(peas, 1, peas[mi].id.as_str());
        let mut epics: Vec<RoadmapEpic> = Vec::new();
        let mut j: usize = 0;
        while j < es.len()
            invariant
                j <= es@.len(),
                ps == pea_views(peas@),
                forall|q: int| 0 <= q < es@.len() ==> es@[q] < peas@.len(),
                epics@.map_values(|e: RoadmapEpic| e.epic as int) == es@.take(j as int).map_values(|i: usize| i as int),
                forall|q: int| 0 <= q < epics@.len() ==> {
                    let e = #[trigger] epics@[q];
                    &&& e.epic < peas@.len()
                    &&& e.tasks@.map_values(|i: usize| i as int) == positions(ps, child_of(ps[e.epic as int].id))
                },
            decreases es.len() - j,
        {
            let ei = es[j];
            let tasks = positions_where(peas, 2, peas[ei].id.as_str());
            let ghost o = epics@;
            epics.push(RoadmapEpic { epic: ei, tasks });
            assert(epics@.map_values(|e: RoadmapEpic| e.epic as int) =~= o.map_values(|e: RoadmapEpic| e.epic as int).push(ei as int));
            assert(es@.take(j + 1).map_values(|i: usize| i as int) =~= es@.take(j as int).map_values(|i: usize| i as int).push(ei as int));
            j = j + 1;
        }
        assert(es@.take(es.len() as int) =~= es@);
        let ghost o = out@;
        out.push(RoadmapMilestone { milestone: mi, epics });
        assert(out@.map_values(|m: RoadmapMilestone| m.milestone as int) =~= o.map_values(|m: RoadmapMilestone| m.milestone as int).push(mi as int));
        assert(ms@.take(k + 1).map_values(|i: usize| i as int) =~= ms@.take(k as int).map_values(|i: usize| i as int).push(mi as int));
        k = k + 1;
    }
    assert(ms@.take(ms.len() as int) =~= ms@);
    out
}

/// The box a ticket's status shows on the roadmap.
pub open spec fn icon_spec(s: PeaStatus) -> Seq<char> {
    match s {
        PeaStatus::Completed => "[x]"@,
        PeaStatus::InProgress => "[-]"@,
        _ => "[ ]"@,
    }
}

/// The box a ticket's status shows on the roadmap.
pub fn status_icon(s: PeaStatus) -> (r: &'static str)
    ensures
        r@ == icon_spec(s),
{
    match s {
        PeaStatus::Completed => "[x]",
        PeaStatus::InProgress => "[-]",
        _ => "[ ]",
    }
}

/// The first line of a text, or nothing.
pub fn first_line(text: &str) -> (r: String)
    ensures
        r@ == if lines(text@).len() > 0 {
            lines(text@)[0]
        } else {
            Seq::empty()
        },
{
    let ls = lines_of(text);
    if ls.len() > 0 {
        assert(str_views(ls@)[0] == ls@[0]@);
        ls[0].clone()
    } else {
        String::new()
    }
}

} // verus!
