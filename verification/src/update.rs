//! Editing a ticket: what `peas update` changes, and the change list it
//! shows on a dry run.
use vstd::prelude::*;
use crate::model::{opt_str, pea_type_name, priority_name, status_name, strs, Pea, PeaPriority, PeaStatus, PeaType, PeaV};
use crate::text::{clone_strings, concat3, str_eq};

verus! {

// ------------------------------------------------------------ string lists

/// `ys` added to `xs` one by one, each only where it is not there yet.
pub open spec fn add_missing(xs: Seq<Seq<char>>, ys: Seq<Seq<char>>) -> Seq<Seq<char>>
    decreases ys.len(),
{
    if ys.len() == 0 {
        xs
    } else {
        let p = add_missing(xs, ys.drop_last());
        if p.contains(ys.last()) {
            p
        } else {
            p.push(ys.last())
        }
    }
}

/// `xs` without every element that occurs in `ys`.
pub open spec fn without(xs: Seq<Seq<char>>, ys: Seq<Seq<char>>) -> Seq<Seq<char>> {
    xs.filter(|x: Seq<char>| !ys.contains(x))
}

/// Whether `s` is one of the strings in `v`.
pub fn has_string(v: &Vec<String>, s: &str) -> (r: bool)
    ensures
        r == strs(v@).contains(s@),
{
    let mut i: usize = 0;
    while i < v.len()
        invariant
            i <= v.len(),
            forall|j: int| 0 <= j < i ==> v@[j]@ != s@,
        decreases v.len() - i,
    {
        if str_eq(v[i].as_str(), s) {
            assert(strs(v@)[i as int] == s@);
            return true;
        }
        i = i + 1;
    }
    assert forall|j: int| 0 <= j < strs(v@).len() implies strs(v@)[j] != s@ by {
        assert(strs(v@)[j] == v@[j]@);
    }
    false
}

/// Appends `s` to `v` unless it is there already; says whether it did.
pub fn push_missing(v: &mut Vec<String>, s: &str) -> (added: bool)
    ensures
        added == !strs(old(v)@).contains(s@),
        strs(final(v)@) == if added {
            strs(old(v)@).push(s@)
        } else {
            strs(old(v)@)
        },
{
    if has_string(v, s) {
        false
    } else {
        let ghost o = v@;
        v.push(s.to_owned());
        assert(strs(v@) =~= strs(o).push(s@));
        true
    }
}

/// Adds each of `ys` to `v` where it is missing.
pub fn add_all_missing(v: &mut Vec<String>, ys: &Vec<String>)
    ensures
        strs(final(v)@) == add_missing(strs(old(v)@), strs(ys@)),
{
    let ghost start = strs(v@);
    let mut k: usize = 0;
    while k < ys.len()
        invariant
            k <= ys.len(),
            strs(v@) == add_missing(start, strs(ys@).take(k as int)),
        decreases ys.len() - k,
    {
        let ghost t = strs(ys@).take(k + 1);
        assert(t.drop_last() =~= strs(ys@).take(k as int));
        assert(t.last() == ys@[k as int]@);
        push_missing(v, ys[k].as_str());
        k = k + 1;
    }
    assert(strs(ys@).take(ys.len() as int) =~= strs(ys@));
}

/// `v` without the strings that occur in `ys`.
pub fn remove_all(v: &Vec<String>, ys: &Vec<String>) -> (r: Vec<String>)
    ensures
        strs(r@) == without(strs(v@), strs(ys@)),
{
    let ghost f = |x: Seq<char>| !strs(ys@).contains(x);
    let mut out: Vec<String> = Vec::new();
    let mut k: usize = 0;
    while k < v.len()
        invariant
            k <= v.len(),
            f == (|x: Seq<char>| !strs(ys@).contains(x)),
            strs(out@) == strs(v@).take(k as int).filter(f),
        decreases v.len() - k,
    {
        let ghost pre = strs(v@).take(k as int);
        assert(strs(v@).take(k + 1) =~= pre.push(v@[k as int]@));
        proof {
            pre.lemma_filter_push(v@[k as int]@, f);
        }
        if !has_string(ys, v[k].as_str()) {
            let ghost o = out@;
            out.push(v[k].clone());
            assert(strs(out@) =~= strs(o).push(v@[k as int]@));
        }
        k = k + 1;
    }
    assert(strs(v@).take(v.len() as int) =~= strs(v@));
    out
}

// ------------------------------------------------------------ the update

/// What `peas update` is asked to change. `None` and empty lists leave a
/// field as it is; an empty `parent` clears the parent.
pub struct UpdateRequest {
    pub title: Option<String>,
    pub pea_type: Option<PeaType>,
    pub status: Option<PeaStatus>,
    pub priority: Option<PeaPriority>,
    pub body: Option<String>,
    pub parent: Option<String>,
    pub add_tag: Vec<String>,
    pub remove_tag: Vec<String>,
    pub add_blocks: Vec<String>,
    pub remove_blocks: Vec<String>,
    pub add_blocked_by: Vec<String>,
    pub remove_blocked_by: Vec<String>,
}

/// A ticket after an update request, before it is saved.
pub open spec fn updated_spec(p: PeaV, r: UpdateRequest) -> PeaV {
    PeaV {
        title: match r.title {
            Some(t) => t@,
            None => p.title,
        },
        pea_type: match r.pea_type {
            Some(t) => t,
            None => p.pea_type,
        },
        status: match r.status {
            Some(s) => s,
            None => p.status,
        },
        priority: match r.priority {
            Some(x) => x,
            None => p.priority,
        },
        body: match r.body {
            Some(b) => b@,
            None => p.body,
        },
        parent: match r.parent {
            Some(x) => if x@.len() == 0 {
                None
            } else {
                Some(x@)
            },
            None => p.parent,
        },
        tags: without(add_missing(p.tags, strs(r.add_tag@)), strs(r.remove_tag@)),
        blocking: without(add_missing(p.blocking, strs(r.add_blocks@)), strs(r.remove_blocks@)),
        ..p
    }
}

/// Applies an update request to a ticket, leaving the original as it is.
pub fn apply_update(original: &Pea, req: &UpdateRequest) -> (r: Pea)
    ensures
        r@ == updated_spec(original@, *req),
{
    let mut pea = original.clone();
    match &req.title {
        Some(t) => {
            pea.title = t.clone();
        },
        None => {},
    }
    match req.pea_type {
        Some(t) => {
            pea.pea_type = t;
        },
        None => {},
    }
    match req.status {
        Some(s) => {
            pea.status = s;
        },
        None => {},
    }
    match req.priority {
        Some(p) => {
            pea.priority = p;
        },
        None => {},
    }
    match &req.body {
        Some(b) => {
            pea.body = b.clone();
        },
        None => {},
    }
    match &req.parent {
        Some(p) => {
            pea.parent = if p.as_str().is_empty() {
                None
            } else {
                Some(p.clone())
            };
        },
        None => {},
    }
    let mut tags = clone_strings(&pea.tags);
    add_all_missing(&mut tags, &req.add_tag);
    pea.tags = remove_all(&tags, &req.remove_tag);
    let mut blocking = clone_strings(&pea.blocking);
    add_all_missing(&mut blocking, &req.add_blocks);
    pea.blocking = remove_all(&blocking, &req.remove_blocks);
    pea
}

/// Adds `id` to the blocking list of a ticket that blocks it; says whether
/// the list changed (and the ticket needs saving).
pub fn add_blocked_by(blocker: &mut Pea, id: &str) -> (changed: bool)
    ensures
        changed == !old(blocker)@.blocking.contains(id@),
        final(blocker)@ == (PeaV {
            blocking: if changed {
                old(blocker)@.blocking.push(id@)
            } else {
                old(blocker)@.blocking
            },
            ..old(blocker)@
        }),
{
    push_missing(&mut blocker.blocking, id)
}

/// Removes `id` from the blocking list of a ticket.
pub fn remove_blocked_by(blocker: &mut Pea, id: &str)
    ensures
        final(blocker)@ == (PeaV {
            blocking: old(blocker)@.blocking.filter(|x: Seq<char>| x != id@),
            ..old(blocker)@
        }),
{
    let mut one: Vec<String> = Vec::new();
    one.push(id.to_owned());
    let ghost o = blocker@.blocking;
    let kept = remove_all(&blocker.blocking, &one);
    assert(strs(one@) =~= seq![id@]);
    assert(without(o, strs(one@)) =~= o.filter(|x: Seq<char>| x != id@)) by {
        assert((|x: Seq<char>| !seq![id@].contains(x)) =~= (|x: Seq<char>| x != id@)) by {
            assert forall|x: Seq<char>| seq![id@].contains(x) <==> x == id@ by {
                if x == id@ {
                    assert(seq![id@][0] == x);
                }
            }
        }
    }
    blocker.blocking = kept;
}

// ------------------------------------------------------------ dry run

/// The `Debug` rendering of a list of strings, as `format!("{:?}")` gives it.
pub uninterp spec fn debug_strings(v: Seq<Seq<char>>) -> Seq<char>;

/// The `Debug` rendering of an optional string, as `format!("{:?}")` gives it.
pub uninterp spec fn debug_opt_string(o: Option<Seq<char>>) -> Seq<char>;

/// `format!("{:?}", v)` on a list of strings.
#[verifier::external_body]
fn fmt_debug_strings(v: &Vec<String>) -> (r: String)
    ensures
        r@ == debug_strings(strs(v@)),
{
    format!("{:?}", v)
}

/// `format!("{:?}", o)` on an optional string.
#[verifier::external_body]
fn fmt_debug_opt(o: &Option<String>) -> (r: String)
    ensures
        r@ == debug_opt_string(opt_str(*o)),
{
    format!("{:?}", o)
}

/// The change line for the title, if it changed.
pub open spec fn title_change(o: PeaV, u: PeaV) -> Seq<Seq<char>> {
    if u.title != o.title {
        seq!["title: '"@ + o.title + "' -> '"@ + u.title + "'"@]
    } else {
        seq![]
    }
}

/// The change lines for type, status and priority.
pub open spec fn kind_changes(o: PeaV, u: PeaV) -> Seq<Seq<char>> {
    let ty: Seq<Seq<char>> = if u.pea_type != o.pea_type {
        seq!["type: "@ + pea_type_name(o.pea_type) + " -> "@ + pea_type_name(u.pea_type)]
    } else {
        seq![]
    };
    let st: Seq<Seq<char>> = if u.status != o.status {
        seq!["status: "@ + status_name(o.status) + " -> "@ + status_name(u.status)]
    } else {
        seq![]
    };
    let pr: Seq<Seq<char>> = if u.priority != o.priority {
        seq!["priority: "@ + priority_name(o.priority) + " -> "@ + priority_name(u.priority)]
    } else {
        seq![]
    };
    ty + st + pr
}

/// The change lines for the simple fields, in the order title, type,
/// status, priority, parent, tags, blocking.
pub open spec fn field_changes(o: PeaV, u: PeaV) -> Seq<Seq<char>> {
    title_change(o, u) + kind_changes(o, u) + list_changes(o, u)
}

/// The change lines for parent, tags and blocking.
pub open spec fn list_changes(o: PeaV, u: PeaV) -> Seq<Seq<char>> {
    let pa: Seq<Seq<char>> = if u.parent != o.parent {
        seq!["parent: "@ + debug_opt_string(o.parent) + " -> "@ + debug_opt_string(u.parent)]
    } else {
        seq![]
    };
    let tg: Seq<Seq<char>> = if u.tags != o.tags {
        seq!["tags: "@ + debug_strings(o.tags) + " -> "@ + debug_strings(u.tags)]
    } else {
        seq![]
    };
    let bl: Seq<Seq<char>> = if u.blocking != o.blocking {
        seq!["blocking: "@ + debug_strings(o.blocking) + " -> "@ + debug_strings(u.blocking)]
    } else {
        seq![]
    };
    pa + tg + bl
}

/// The line for a blocked-by request to add `b`.
pub open spec fn add_bb_line(b: Seq<char>) -> Seq<char> {
    "blocked-by: add "@ + b + " (will update "@ + b + ")"@
}

/// The line for a blocked-by request to remove `b`.
pub open spec fn rm_bb_line(b: Seq<char>) -> Seq<char> {
    "blocked-by: remove "@ + b + " (will update "@ + b + ")"@
}

/// One line of the change list for each field that differs, in the order
/// title, type, status, priority, parent, tags, blocking, the blocked-by
/// requests, body.
pub open spec fn change_list(o: PeaV, u: PeaV, add_bb: Seq<Seq<char>>, rm_bb: Seq<Seq<char>>) -> Seq<Seq<char>> {
    let body: Seq<Seq<char>> = if u.body != o.body {
        seq!["body: [changed]"@]
    } else {
        seq![]
    };
    field_changes(o, u) + add_bb.map_values(|b: Seq<char>| add_bb_line(b)) + rm_bb.map_values(
        |b: Seq<char>| rm_bb_line(b),
    ) + body
}

fn strings_equal(a: &Vec<String>, b: &Vec<String>) -> (r: bool)
    ensures
        r == (strs(a@) == strs(b@)),
{
    if a.len() != b.len() {
        assert(strs(a@).len() != strs(b@).len());
        return false;
    }
    let mut i: usize = 0;
    while i < a.len()
        invariant
            i <= a.len(),
            a.len() == b.len(),
            forall|j: int| 0 <= j < i ==> a@[j]@ == b@[j]@,
        decreases a.len() - i,
    {
        if !str_eq(a[i].as_str(), b[i].as_str()) {
            assert(strs(a@)[i as int] != strs(b@)[i as int]);
            return false;
        }
        i = i + 1;
    }
    assert(strs(a@) =~= strs(b@));
    true
}

fn opt_equal(a: &Option<String>, b: &Option<String>) -> (r: bool)
    ensures
        r == (opt_str(*a) == opt_str(*b)),
{
    match (a, b) {
        (Some(x), Some(y)) => str_eq(x.as_str(), y.as_str()),
        (None, None) => true,
        _ => false,
    }
}

fn push_line(out: &mut Vec<String>, line: String)
    ensures
        strs(final(out)@) == strs(old(out)@).push(line@),
{
    let ghost o = out@;
    out.push(line);
    assert(strs(out@) =~= strs(o).push(line@));
}

fn push_arrow(out: &mut Vec<String>, head: &str, before: &str, after: &str)
    ensures
        strs(final(out)@) == strs(old(out)@).push(head@ + before@ + " -> "@ + after@),
{
    let mut line = concat3(head, before, " -> ");
    line.append(after);
    push_line(out, line);
}

fn push_kind_changes(out: &mut Vec<String>, original: &Pea, updated: &Pea)
    ensures
        strs(final(out)@) == strs(old(out)@) + kind_changes(original@, updated@),
{
    let ghost s0 = strs(out@);
    if updated.pea_type != original.pea_type {
        push_arrow(out, "type: ", original.pea_type.as_str(), updated.pea_type.as_str());
    }
    let ghost s1 = strs(out@);
    if updated.status != original.status {
        push_arrow(out, "status: ", original.status.as_str(), updated.status.as_str());
    }
    let ghost s2 = strs(out@);
    if updated.priority != original.priority {
        push_arrow(out, "priority: ", original.priority.as_str(), updated.priority.as_str());
    }
    assert(strs(out@) =~= s0 + kind_changes(original@, updated@));
}

fn push_field_changes(out: &mut Vec<String>, original: &Pea, updated: &Pea)
    ensures
        strs(final(out)@) == strs(old(out)@) + field_changes(original@, updated@),
{
    let ghost s0 = strs(out@);
    if !str_eq(updated.title.as_str(), original.title.as_str()) {
        let mut line = concat3("title: '", original.title.as_str(), "' -> '");
        line.append(updated.title.as_str());
        line.append("'");
        push_line(out, line);
    }
    assert(strs(out@) =~= s0 + title_change(original@, updated@));
    push_kind_changes(out, original, updated);
    push_list_changes(out, original, updated);
    assert(strs(out@) =~= s0 + field_changes(original@, updated@));
}

fn push_list_changes(out: &mut Vec<String>, original: &Pea, updated: &Pea)
    ensures
        strs(final(out)@) == strs(old(out)@) + list_changes(original@, updated@),
{
    let ghost s0 = strs(out@);
    if !opt_equal(&updated.parent, &original.parent) {
        let a = fmt_debug_opt(&original.parent);
        let b = fmt_debug_opt(&updated.parent);
        push_arrow(out, "parent: ", a.as_str(), b.as_str());
    }
    let ghost s1 = strs(out@);
    if !strings_equal(&updated.tags, &original.tags) {
        let a = fmt_debug_strings(&original.tags);
        let b = fmt_debug_strings(&updated.tags);
        push_arrow(out, "tags: ", a.as_str(), b.as_str());
    }
    let ghost s2 = strs(out@);
    if !strings_equal(&updated.blocking, &original.blocking) {
        let a = fmt_debug_strings(&original.blocking);
        let b = fmt_debug_strings(&updated.blocking);
        push_arrow(out, "blocking: ", a.as_str(), b.as_str());
    }
    assert(strs(out@) =~= s0 + list_changes(original@, updated@));
}

/// The change list a dry run of `peas update` prints.
pub fn update_changes(
    original: &Pea,
    updated: &Pea,
    add_bb: &Vec<String>,
    rm_bb: &Vec<String>,
) -> (r: Vec<String>)
    ensures
        strs(r@) == change_list(original@, updated@, strs(add_bb@), strs(rm_bb@)),
{
    let mut out: Vec<String> = Vec::new();
    push_field_changes(&mut out, original, updated);
    let ghost fixed = strs(out@);
    let ghost fa = |b: Seq<char>| add_bb_line(b);
    let ghost fr = |b: Seq<char>| rm_bb_line(b);
    let mut k: usize = 0;
    while k < add_bb.len()
        invariant
            k <= add_bb.len(),
            fa == (|b: Seq<char>| add_bb_line(b)),
            strs(out@) == fixed + strs(add_bb@).take(k as int).map_values(fa),
        decreases add_bb.len() - k,
    {
        let b = add_bb[k].as_str();
        let mut line = concat3("blocked-by: add ", b, " (will update ");
        line.append(b);
        line.append(")");
        push_line(&mut out, line);
        k = k + 1;
        assert(strs(add_bb@).take(k as int).map_values(fa) =~= strs(add_bb@).take(k - 1).map_values(
            fa,
        ).push(fa(add_bb@[k - 1]@)));
    }
    assert(strs(add_bb@).take(add_bb.len() as int) =~= strs(add_bb@));
    let ghost mid = strs(out@);
    k = 0;
    while k < rm_bb.len()
        invariant
            k <= rm_bb.len(),
            fr == (|b: Seq<char>| rm_bb_line(b)),
            strs(out@) == mid + strs(rm_bb@).take(k as int).map_values(fr),
        decreases rm_bb.len() - k,
    {
        let b = rm_bb[k].as_str();
        let mut line = concat3("blocked-by: remove ", b, " (will update ");
        line.append(b);
        line.append(")");
        push_line(&mut out, line);
        k = k + 1;
        assert(strs(rm_bb@).take(k as int).map_values(fr) =~= strs(rm_bb@).take(k - 1).map_values(
            fr,
        ).push(fr(rm_bb@[k - 1]@)));
    }
    assert(strs(rm_bb@).take(rm_bb.len() as int) =~= strs(rm_bb@));
    let ghost before_body = strs(out@);
    if !str_eq(updated.body.as_str(), original.body.as_str()) {
        push_line(&mut out, "body: [changed]".to_owned());
    }
    assert(strs(out@) =~= change_list(original@, updated@, strs(add_bb@), strs(rm_bb@)));
    out
}

/// Adding the same strings twice changes nothing the second time: adding
/// tags or blocked ids is idempotent.
pub proof fn add_missing_idempotent(xs: Seq<Seq<char>>, ys: Seq<Seq<char>>)
    ensures
        add_missing(add_missing(xs, ys), ys) == add_missing(xs, ys),
{
    lemma_add_missing_has(xs, ys);
    lemma_add_present(add_missing(xs, ys), ys);
}

/// Everything added is there afterwards, and so is everything that was.
pub proof fn lemma_add_missing_has(xs: Seq<Seq<char>>, ys: Seq<Seq<char>>)
    ensures
        forall|y: Seq<char>| ys.contains(y) ==> #[trigger] add_missing(xs, ys).contains(y),
        forall|x: Seq<char>| xs.contains(x) ==> #[trigger] add_missing(xs, ys).contains(x),
    decreases ys.len(),
{
    if ys.len() > 0 {
        let p = add_missing(xs, ys.drop_last());
        lemma_add_missing_has(xs, ys.drop_last());
        assert forall|y: Seq<char>| ys.contains(y) implies #[trigger] add_missing(xs, ys).contains(y) by {
            let k = choose|k: int| 0 <= k < ys.len() && ys[k] == y;
            if k < ys.len() - 1 {
                assert(ys.drop_last()[k] == y);
                assert(p.contains(y));
                if !p.contains(ys.last()) {
                    let j = choose|j: int| 0 <= j < p.len() && p[j] == y;
                    assert(p.push(ys.last())[j] == y);
                }
            } else if !p.contains(ys.last()) {
                assert(p.push(ys.last())[p.len() as int] == y);
            }
        }
        assert forall|x: Seq<char>| xs.contains(x) implies #[trigger] add_missing(xs, ys).contains(x) by {
            assert(p.contains(x));
            if !p.contains(ys.last()) {
                let j = choose|j: int| 0 <= j < p.len() && p[j] == x;
                assert(p.push(ys.last())[j] == x);
            }
        }
    }
}

/// Adding strings that are all present already changes nothing.
pub proof fn lemma_add_present(xs: Seq<Seq<char>>, ys: Seq<Seq<char>>)
    requires
        forall|y: Seq<char>| ys.contains(y) ==> xs.contains(y),
    ensures
        add_missing(xs, ys) == xs,
    decreases ys.len(),
{
    if ys.len() > 0 {
        assert forall|y: Seq<char>| ys.drop_last().contains(y) implies xs.contains(y) by {
            let k = choose|k: int| 0 <= k < ys.drop_last().len() && ys.drop_last()[k] == y;
            assert(ys[k] == y);
        }
        lemma_add_present(xs, ys.drop_last());
        assert(ys.contains(ys.last()));
    }
}

/// A list without repeats stays without repeats when strings are added.
pub proof fn add_missing_keeps_distinct(xs: Seq<Seq<char>>, ys: Seq<Seq<char>>)
    requires
        xs.no_duplicates(),
    ensures
        add_missing(xs, ys).no_duplicates(),
    decreases ys.len(),
{
    if ys.len() > 0 {
        add_missing_keeps_distinct(xs, ys.drop_last());
        let p = add_missing(xs, ys.drop_last());
        if !p.contains(ys.last()) {
            assert forall|i: int, j: int| 0 <= i < j < p.push(ys.last()).len() implies p.push(ys.last())[i] != p.push(ys.last())[j] by {
                if j == p.len() {
                    assert(p[i] == p.push(ys.last())[i]);
                }
            }
        }
    }
}

/// After removing strings, none of them is left.
pub proof fn without_removes_all(xs: Seq<Seq<char>>, ys: Seq<Seq<char>>)
    ensures
        forall|y: Seq<char>| ys.contains(y) ==> !(#[trigger] without(xs, ys).contains(y)),
{
    let f = |x: Seq<char>| !ys.contains(x);
    assert forall|y: Seq<char>| ys.contains(y) implies !(#[trigger] without(xs, ys).contains(y)) by {
        if without(xs, ys).contains(y) {
            let k = choose|k: int| 0 <= k < xs.filter(f).len() && xs.filter(f)[k] == y;
            xs.filter_lemma(f);
            assert(f(xs.filter(f)[k]));
        }
    }
}

/// An update sets what it names and keeps the rest: a title, type, status,
/// priority or body given is the ticket's afterwards, and one not given is
/// the ticket's before; a parent given is set (an empty one clears it);
/// tags and blocked tickets given to add are there afterwards unless also
/// given to remove, those given to remove are gone, and the others stay;
/// the id, times and attachments do not change.
pub proof fn update_sets_what_it_names(p: PeaV, r: UpdateRequest)
    ensures
        ({
            let u = updated_spec(p, r);
            &&& (r.title matches Some(t) ==> u.title == t@)
            &&& (r.title is None ==> u.title == p.title)
            &&& (r.pea_type matches Some(t) ==> u.pea_type == t)
            &&& (r.pea_type is None ==> u.pea_type == p.pea_type)
            &&& (r.status matches Some(x) ==> u.status == x)
            &&& (r.status is None ==> u.status == p.status)
            &&& (r.priority matches Some(x) ==> u.priority == x)
            &&& (r.priority is None ==> u.priority == p.priority)
            &&& (r.body matches Some(b) ==> u.body == b@)
            &&& (r.body is None ==> u.body == p.body)
            &&& (r.parent matches Some(x) ==> u.parent == (if x@.len() == 0 {
                None
            } else {
                Some(x@)
            }))
            &&& (r.parent is None ==> u.parent == p.parent)
            &&& u.id == p.id && u.created == p.created && u.updated == p.updated && u.assets == p.assets
            &&& forall|t: Seq<char>|
                strs(r.add_tag@).contains(t) && !strs(r.remove_tag@).contains(t) ==> #[trigger] u.tags.contains(t)
            &&& forall|t: Seq<char>| strs(r.remove_tag@).contains(t) ==> !(#[trigger] u.tags.contains(t))
            &&& forall|t: Seq<char>|
                p.tags.contains(t) && !strs(r.remove_tag@).contains(t) ==> #[trigger] u.tags.contains(t)
            &&& forall|b: Seq<char>|
                strs(r.add_blocks@).contains(b) && !strs(r.remove_blocks@).contains(b)
                    ==> #[trigger] u.blocking.contains(b)
            &&& forall|b: Seq<char>| strs(r.remove_blocks@).contains(b) ==> !(#[trigger] u.blocking.contains(b))
            &&& forall|b: Seq<char>|
                p.blocking.contains(b) && !strs(r.remove_blocks@).contains(b) ==> #[trigger] u.blocking.contains(b)
        }),
{
    let u = updated_spec(p, r);
    lemma_add_missing_has(p.tags, strs(r.add_tag@));
    lemma_add_missing_has(p.blocking, strs(r.add_blocks@));
    without_removes_all(add_missing(p.tags, strs(r.add_tag@)), strs(r.remove_tag@));
    without_removes_all(add_missing(p.blocking, strs(r.add_blocks@)), strs(r.remove_blocks@));
    lemma_without_keeps(add_missing(p.tags, strs(r.add_tag@)), strs(r.remove_tag@));
    lemma_without_keeps(add_missing(p.blocking, strs(r.add_blocks@)), strs(r.remove_blocks@));
}

/// What is not removed stays.
pub proof fn lemma_without_keeps(xs: Seq<Seq<char>>, ys: Seq<Seq<char>>)
    ensures
        forall|x: Seq<char>| xs.contains(x) && !ys.contains(x) ==> #[trigger] without(xs, ys).contains(x),
{
    let f = |x: Seq<char>| !ys.contains(x);
    assert forall|x: Seq<char>| xs.contains(x) && !ys.contains(x) implies #[trigger] without(xs, ys).contains(x) by {
        let k = choose|k: int| 0 <= k < xs.len() && xs[k] == x;
        xs.lemma_filter_contains(f, k);
    }
}

} // verus!
