//! The in-memory cache of a ticket store: the full list when it has been
//! read, and the tickets known by id.
use vstd::prelude::*;
use crate::model::{Pea, PeaV};
use crate::suggest::pea_views;
use crate::text::str_eq;

verus! {

/// The model of the cache: the cached list, if any, and the tickets by id.
pub struct CacheV {
    pub list: Option<Seq<PeaV>>,
    pub by_id: Map<Seq<char>, PeaV>,
}

/// Cached tickets. The tickets by id are kept with no id twice, in a
/// vector searched by id: a map keyed by `String` would hide its contents
/// from the proofs, and the contracts state what is found by id.
pub struct PeaCache {
    list: Option<Vec<Pea>>,
    by_id: Vec<Pea>,
}

/// The map a list gives when each ticket is inserted in turn, later ones
/// replacing earlier ones with the same id.
pub open spec fn list_map(v: Seq<PeaV>) -> Map<Seq<char>, PeaV>
    decreases v.len(),
{
    if v.len() == 0 {
        Map::empty()
    } else {
        list_map(v.drop_last()).insert(v.last().id, v.last())
    }
}

/// No two tickets share an id.
pub open spec fn distinct_ids(v: Seq<PeaV>) -> bool {
    forall|i: int, j: int| 0 <= i < j < v.len() ==> v[i].id != v[j].id
}

/// The position of the first ticket with the given id (meaningful only
/// when there is one).
pub open spec fn first_with_id(v: Seq<PeaV>, id: Seq<char>) -> int {
    choose|i: int| 0 <= i < v.len() && v[i].id == id && forall|j: int| 0 <= j < i ==> v[j].id != id
}

proof fn lemma_map_dom(v: Seq<PeaV>)
    ensures
        forall|id: Seq<char>| #[trigger] list_map(v).dom().contains(id) <==> exists|i: int| 0 <= i < v.len() && v[i].id == id,
    decreases v.len(),
{
    if v.len() > 0 {
        let d = v.drop_last();
        lemma_map_dom(d);
        assert forall|id: Seq<char>| #[trigger] list_map(v).dom().contains(id) <==> exists|i: int| 0 <= i < v.len() && v[i].id == id by {
            if list_map(v).dom().contains(id) && id != v.last().id {
                assert(list_map(d).dom().contains(id));
                let i = choose|i: int| 0 <= i < d.len() && d[i].id == id;
                assert(d[i] == v[i]);
            }
            if list_map(v).dom().contains(id) && id == v.last().id {
                assert(v[v.len() - 1].id == id);
            }
            if exists|i: int| 0 <= i < v.len() && v[i].id == id {
                let i = choose|i: int| 0 <= i < v.len() && v[i].id == id;
                if i < v.len() - 1 {
                    assert(d[i] == v[i]);
                    assert(list_map(d).dom().contains(id));
                }
            }
        }
    }
}

proof fn lemma_map_value(v: Seq<PeaV>, i: int)
    requires
        distinct_ids(v),
        0 <= i < v.len(),
    ensures
        list_map(v).dom().contains(v[i].id),
        list_map(v)[v[i].id] == v[i],
    decreases v.len(),
{
    if i < v.len() - 1 {
        lemma_map_value(v.drop_last(), i);
        assert(v.drop_last()[i] == v[i]);
    }
}

proof fn lemma_first_unique(v: Seq<PeaV>, id: Seq<char>, i: int)
    requires
        0 <= i < v.len(),
        v[i].id == id,
        forall|j: int| 0 <= j < i ==> v[j].id != id,
    ensures
        first_with_id(v, id) == i,
{
    let k = first_with_id(v, id);
    if k < i {
        assert(v[k].id != id);
    } else if k > i {
        assert(v[i].id != id);
    }
}

proof fn lemma_map_update(v: Seq<PeaV>, i: int, p: PeaV)
    requires
        distinct_ids(v),
        0 <= i < v.len(),
        v[i].id == p.id,
    ensures
        list_map(v.update(i, p)) == list_map(v).insert(p.id, p),
        distinct_ids(v.update(i, p)),
    decreases v.len(),
{
    let w = v.update(i, p);
    assert(w.last() == if i == v.len() - 1 { p } else { v.last() });
    if i == v.len() - 1 {
        assert(w.drop_last() =~= v.drop_last());
        assert(list_map(w) =~= list_map(v).insert(p.id, p));
    } else {
        assert(w.drop_last() =~= v.drop_last().update(i, p));
        lemma_map_update(v.drop_last(), i, p);
        assert(v.last().id != p.id);
        assert(list_map(w) =~= list_map(v).insert(p.id, p));
    }
    assert forall|a: int, b: int| 0 <= a < b < w.len() implies w[a].id != w[b].id by {
        if a == i {
            assert(v[b].id != v[i].id);
        } else if b == i {
            assert(v[a].id != v[i].id);
        }
    }
}

proof fn lemma_map_push(v: Seq<PeaV>, p: PeaV)
    requires
        distinct_ids(v),
        forall|j: int| 0 <= j < v.len() ==> v[j].id != p.id,
    ensures
        list_map(v.push(p)) == list_map(v).insert(p.id, p),
        distinct_ids(v.push(p)),
{
    assert(v.push(p).drop_last() =~= v);
}

proof fn lemma_map_remove_at(v: Seq<PeaV>, i: int)
    requires
        distinct_ids(v),
        0 <= i < v.len(),
    ensures
        list_map(v.remove(i)) == list_map(v).remove(v[i].id),
        distinct_ids(v.remove(i)),
{
    let w = v.remove(i);
    let id = v[i].id;
    assert forall|a: int, b: int| 0 <= a < b < w.len() implies w[a].id != w[b].id by {
        let a2 = if a < i { a } else { a + 1 };
        let b2 = if b < i { b } else { b + 1 };
        assert(w[a] == v[a2]);
        assert(w[b] == v[b2]);
    }
    lemma_map_dom(v);
    lemma_map_dom(w);
    assert forall|key: Seq<char>| #[trigger] list_map(w).dom().contains(key) <==> list_map(v).remove(id).dom().contains(key) by {
        if list_map(w).dom().contains(key) {
            let k = choose|k: int| 0 <= k < w.len() && w[k].id == key;
            let k2 = if k < i { k } else { k + 1 };
            assert(w[k] == v[k2]);
            assert(v[k2].id != id);
        }
        if list_map(v).remove(id).dom().contains(key) {
            let k = choose|k: int| 0 <= k < v.len() && v[k].id == key;
            assert(k != i);
            let k2 = if k < i { k } else { k - 1 };
            assert(w[k2] == v[k]);
        }
    }
    assert forall|key: Seq<char>| list_map(w).dom().contains(key) implies #[trigger] list_map(w)[key] == list_map(v).remove(id)[key] by {
        let k = choose|k: int| 0 <= k < w.len() && w[k].id == key;
        let k2 = if k < i { k } else { k + 1 };
        assert(w[k] == v[k2]);
        lemma_map_value(w, k);
        lemma_map_value(v, k2);
    }
    assert(list_map(w) =~= list_map(v).remove(id));
}

impl View for PeaCache {
    type V = CacheV;

    closed spec fn view(&self) -> CacheV {
        CacheV {
            list: match self.list {
                Some(l) => Some(pea_views(l@)),
                None => None,
            },
            by_id: list_map(pea_views(self.by_id@)),
        }
    }
}

impl PeaCache {
    /// The cache's invariant: the tickets by id have distinct ids.
    pub closed spec fn wf(&self) -> bool {
        distinct_ids(pea_views(self.by_id@))
    }

    /// An empty cache.
    pub fn new() -> (r: PeaCache)
        ensures
            r.wf(),
            r@.list is None,
            r@.by_id == Map::<Seq<char>, PeaV>::empty(),
    {
        let r = PeaCache { list: None, by_id: Vec::new() };
        assert(pea_views(r.by_id@) =~= Seq::<PeaV>::empty());
        r
    }

    /// Forgets everything.
    pub fn invalidate(&mut self)
        ensures
            final(self).wf(),
            final(self)@.list is None,
            final(self)@.by_id == Map::<Seq<char>, PeaV>::empty(),
    {
        self.list = None;
        self.by_id = Vec::new();
        assert(pea_views(self.by_id@) =~= Seq::<PeaV>::empty());
    }

    fn position_of(&self, id: &str) -> (r: Option<usize>)
        ensures
            match r {
                Some(i) => i < self.by_id@.len() && self.by_id@[i as int]@.id == id@,
                None => forall|i: int| 0 <= i < self.by_id@.len() ==> self.by_id@[i]@.id != id@,
            },
    {
        let mut i: usize = 0;
        while i < self.by_id.len()
            invariant
                i <= self.by_id@.len(),
                forall|j: int| 0 <= j < i ==> self.by_id@[j]@.id != id@,
            decreases self.by_id.len() - i,
        {
            if str_eq(self.by_id[i].id.as_str(), id) {
                return Some(i);
            }
            i = i + 1;
        }
        None
    }

    /// The cached ticket with the given id, if any.
    pub fn get_by_id(&self, id: &str) -> (r: Option<&Pea>)
        requires
            self.wf(),
        ensures
            match r {
                Some(p) => self@.by_id.dom().contains(id@) && self@.by_id[id@] == p@,
                None => !self@.by_id.dom().contains(id@),
            },
    {
        proof {
            lemma_map_dom(pea_views(self.by_id@));
        }
        match self.position_of(id) {
            Some(i) => {
                proof {
                    lemma_map_value(pea_views(self.by_id@), i as int);
                }
                Some(&self.by_id[i])
            },
            None => {
                assert(forall|i: int| 0 <= i < pea_views(self.by_id@).len() ==> pea_views(self.by_id@)[i].id != id@);
                None
            },
        }
    }

    /// The cached list, if it has been set.
    pub fn get_list(&self) -> (r: Option<&Vec<Pea>>)
        ensures
            match r {
                Some(l) => self@.list == Some(pea_views(l@)),
                None => self@.list is None,
            },
    {
        match &self.list {
            Some(l) => Some(l),
            None => None,
        }
    }

    /// Records a ticket: it is known by its id from now on, and it replaces
    /// its copy in the cached list; a ticket the list lacks drops the list.
    pub fn update_pea(&mut self, pea: &Pea)
        requires
            old(self).wf(),
        ensures
            final(self).wf(),
            final(self)@.by_id == old(self)@.by_id.insert(pea@.id, pea@),
            final(self)@.by_id.dom().contains(pea@.id),
            final(self)@.by_id[pea@.id] == pea@,
            forall|other: Seq<char>|
                other != pea@.id ==> (#[trigger] final(self)@.by_id.dom().contains(other) == old(self)@.by_id.dom().contains(other)
                    && (old(self)@.by_id.dom().contains(other) ==> final(self)@.by_id[other] == old(self)@.by_id[other])),
            match old(self)@.list {
                Some(l) => if exists|i: int| 0 <= i < l.len() && l[i].id == pea@.id {
                    final(self)@.list == Some(l.update(first_with_id(l, pea@.id), pea@))
                } else {
                    final(self)@.list is None
                },
                None => final(self)@.list is None,
            },
    {
        proof {
            lemma_map_dom(pea_views(self.by_id@));
        }
        let ghost ov = pea_views(self.by_id@);
        match self.position_of(pea.id.as_str()) {
            Some(i) => {
                proof {
                    lemma_map_update(ov, i as int, pea@);
                }
                self.by_id.set(i, pea.clone());
                assert(pea_views(self.by_id@) =~= ov.update(i as int, pea@));
            },
            None => {
                proof {
                    lemma_map_push(ov, pea@);
                }
                self.by_id.push(pea.clone());
                assert(pea_views(self.by_id@) =~= ov.push(pea@));
            },
        }
        let ghost ol = self@.list;
        let mut taken: Option<Vec<Pea>> = None;
        std::mem::swap(&mut taken, &mut self.list);
        match taken {
            Some(mut l) => {
                let ghost lv = pea_views(l@);
                match first_index(&l, pea.id.as_str()) {
                    Some(i) => {
                        proof {
                            lemma_first_unique(lv, pea@.id, i as int);
                        }
                        assert(lv[i as int].id == pea@.id);
                        l.set(i, pea.clone());
                        assert(pea_views(l@) =~= lv.update(i as int, pea@));
                        self.list = Some(l);
                    },
                    None => {
                        assert(!exists|k: int| 0 <= k < lv.len() && lv[k].id == pea@.id);
                        assert(self.list is None);
                    },
                }
            },
            None => {},
        }
    }

    /// Forgets a ticket: it is no longer known by id, and it leaves the
    /// cached list.
    pub fn remove_pea(&mut self, id: &str)
        requires
            old(self).wf(),
        ensures
            final(self).wf(),
            final(self)@.by_id == old(self)@.by_id.remove(id@),
            !final(self)@.by_id.dom().contains(id@),
            forall|other: Seq<char>|
                other != id@ ==> (#[trigger] final(self)@.by_id.dom().contains(other) == old(self)@.by_id.dom().contains(other)
                    && (old(self)@.by_id.dom().contains(other) ==> final(self)@.by_id[other] == old(self)@.by_id[other])),
            match old(self)@.list {
                Some(l) => final(self)@.list == Some(l.filter(|p: PeaV| p.id != id@)),
                None => final(self)@.list is None,
            },
    {
        let ghost ov = pea_views(self.by_id@);
        proof {
            lemma_map_dom(ov);
        }
        match first_index(&self.by_id, id) {
            Some(i) => {
                proof {
                    lemma_map_remove_at(ov, i as int);
                }
                self.by_id.remove(i);
                assert(pea_views(self.by_id@) =~= ov.remove(i as int));
            },
            None => {
                assert(!list_map(ov).dom().contains(id@));
                assert(list_map(ov).remove(id@) =~= list_map(ov));
            },
        }
        let mut taken: Option<Vec<Pea>> = None;
        std::mem::swap(&mut taken, &mut self.list);
        match taken {
            Some(l) => {
                self.list = Some(keep_other_ids(&l, id));
            },
            None => {},
        }
    }

    /// Caches a full list: it becomes the cached list, and each of its
    /// tickets is known by id (the last one, where ids repeat).
    pub fn set_list(&mut self, peas: Vec<Pea>)
        ensures
            final(self).wf(),
            final(self)@.list == Some(pea_views(peas@)),
            final(self)@.by_id == list_map(pea_views(peas@)),
    {
        let mut by_id: Vec<Pea> = Vec::new();
        let ghost pv = pea_views(peas@);
        let mut k: usize = 0;
        while k < peas.len()
            invariant
                k <= peas@.len(),
                pv == pea_views(peas@),
                distinct_ids(pea_views(by_id@)),
                list_map(pea_views(by_id@)) == list_map(pv.take(k as int)),
            decreases peas.len() - k,
        {
            let ghost bv = pea_views(by_id@);
            let p = &peas[k];
            assert(pv.take(k + 1).drop_last() =~= pv.take(k as int));
            assert(pv.take(k + 1).last() == p@);
            match position_in(&by_id, p.id.as_str()) {
                Some(i) => {
                    proof {
                        lemma_map_update(bv, i as int, p@);
                    }
                    by_id.set(i, p.clone());
                    assert(pea_views(by_id@) =~= bv.update(i as int, p@));
                },
                None => {
                    proof {
                        lemma_map_push(bv, p@);
                    }
                    by_id.push(p.clone());
                    assert(pea_views(by_id@) =~= bv.push(p@));
                },
            }
            k = k + 1;
        }
        assert(pv.take(peas.len() as int) =~= pv);
        self.by_id = by_id;
        self.list = Some(peas);
    }
}

fn position_in(v: &Vec<Pea>, id: &str) -> (r: Option<usize>)
    ensures
        match r {
            Some(i) => i < v@.len() && pea_views(v@)[i as int].id == id@,
            None => forall|i: int| 0 <= i < v@.len() ==> pea_views(v@)[i].id != id@,
        },
{
    first_index(v, id)
}

fn first_index(v: &Vec<Pea>, id: &str) -> (r: Option<usize>)
    ensures
        match r {
            Some(i) => i < v@.len() && v@[i as int]@.id == id@ && forall|j: int| 0 <= j < i ==> v@[j]@.id != id@,
            None => forall|i: int| 0 <= i < v@.len() ==> v@[i]@.id != id@,
        },
{
    let mut i: usize = 0;
    while i < v.len()
        invariant
            i <= v@.len(),
            forall|j: int| 0 <= j < i ==> v@[j]@.id != id@,
        decreases v.len() - i,
    {
        if str_eq(v[i].id.as_str(), id) {
            return Some(i);
        }
        i = i + 1;
    }
    None
}

fn keep_other_ids(v: &Vec<Pea>, id: &str) -> (r: Vec<Pea>)
    ensures
        pea_views(r@) == pea_views(v@).filter(|q: PeaV| q.id != id@),
{
    let ghost f = |q: PeaV| q.id != id@;
    let ghost all = pea_views(v@);
    let mut out: Vec<Pea> = Vec::new();
    let mut k: usize = 0;
    while k < v.len()
        invariant
            k <= v@.len(),
            all == pea_views(v@),
            f == (|q: PeaV| q.id != id@),
            pea_views(out@) == all.take(k as int).filter(f),
        decreases v.len() - k,
    {
        let ghost pre = all.take(k as int);
        assert(all.take(k + 1) =~= pre.push(v@[k as int]@));
        proof {
            pre.lemma_filter_push(v@[k as int]@, f);
        }
        if !str_eq(v[k].id.as_str(), id) {
            let ghost o = pea_views(out@);
            out.push(v[k].clone());
            assert(pea_views(out@) =~= o.push(v@[k as int]@));
        }
        k = k + 1;
    }
    assert(all.take(v.len() as int) =~= all);
    out
}

/// After a full list is cached, each of its ids finds the last ticket in
/// the list with that id, and no other id is found.
pub proof fn cache_list_lookup(v: Seq<PeaV>, i: int)
    requires
        0 <= i < v.len(),
        forall|j: int| i < j < v.len() ==> v[j].id != v[i].id,
    ensures
        list_map(v).dom().contains(v[i].id),
        list_map(v)[v[i].id] == v[i],
    decreases v.len(),
{
    if i < v.len() - 1 {
        cache_list_lookup(v.drop_last(), i);
        assert(v.drop_last()[i] == v[i]);
    }
}

/// After a full list is cached, ids not in it are not found.
pub proof fn cache_list_only_its_ids(v: Seq<PeaV>, id: Seq<char>)
    requires
        forall|j: int| 0 <= j < v.len() ==> v[j].id != id,
    ensures
        !list_map(v).dom().contains(id),
{
    lemma_map_dom(v);
}

} // verus!
