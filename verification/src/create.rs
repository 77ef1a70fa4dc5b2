//! Making new tickets (`peas create`, `peas bulk create`) and the bulk
//! edits of `peas bulk`.
use vstd::prelude::*;
use crate::cli::{arg_priority, arg_status, arg_type, template_body, template_priority, template_status, template_tags, template_type, BulkAction, PeaPriorityArg, PeaStatusArg, PeaTypeArg, TemplateArg};
use crate::config::{configured_status, configured_type, PeasSettings};
use crate::error::PeasError;
use crate::model::{fresh_pea, opt_str, strs, Pea, PeaPriority, PeaStatus, PeaType, PeaV, Timestamp};
use crate::text::{clone_strings, lines, lines_of, str_views, trim, trim_str};
use crate::update::{add_all_missing, add_missing, push_missing};

verus! {

// ------------------------------------------------------------ create

/// What `peas create` is asked to make. `body` is the body already read
/// (from the argument, a file or standard input).
pub struct CreateRequest {
    pub title: String,
    pub pea_type: Option<PeaTypeArg>,
    pub status: Option<PeaStatusArg>,
    pub priority: Option<PeaPriorityArg>,
    pub body: Option<String>,
    pub parent: Option<String>,
    pub blocking: Vec<String>,
    pub tags: Vec<String>,
    pub template: Option<TemplateArg>,
}

/// The ticket `peas create` makes with id `id` at time `at` under the
/// settings `cfg`: a template sets type, priority, status, tags and body;
/// explicit arguments win over it (but for the type, which the template
/// fixes); tags given on the command line are added to the template's; a
/// type or status that neither gives is the configured default.
pub open spec fn created_spec(id: Seq<char>, r: CreateRequest, cfg: PeasSettings, at: Timestamp) -> PeaV {
    let pea_type = match r.template {
        Some(t) => template_type(t),
        None => match r.pea_type {
            Some(a) => arg_type(a),
            None => configured_type(cfg),
        },
    };
    let tmpl_priority = match r.template {
        Some(t) => Some(template_priority(t)),
        None => None,
    };
    let tmpl_status = match r.template {
        Some(t) => template_status(t),
        None => None,
    };
    let tmpl_tags = match r.template {
        Some(t) => template_tags(t),
        None => Seq::empty(),
    };
    let tmpl_body = match r.template {
        Some(t) => template_body(t),
        None => None,
    };
    let base = fresh_pea(id, r.title@, pea_type, at);
    PeaV {
        status: match r.status {
            Some(s) => arg_status(s),
            None => match tmpl_status {
                Some(s) => s,
                None => configured_status(cfg),
            },
        },
        priority: match r.priority {
            Some(p) => arg_priority(p),
            None => match tmpl_priority {
                Some(p) => p,
                None => base.priority,
            },
        },
        tags: add_missing(tmpl_tags, strs(r.tags@)),
        parent: opt_str(r.parent),
        blocking: strs(r.blocking@),
        body: match r.body {
            Some(b) => b@,
            None => match tmpl_body {
                Some(b) => b,
                None => base.body,
            },
        },
        ..base
    }
}

/// Builds the ticket `peas create` makes with the given id under the
/// project's settings, created now.
pub fn build_pea(id: String, req: CreateRequest, settings: &PeasSettings) -> (r: Pea)
    ensures
        r@ == created_spec(id@, req, *settings, r.created),
{
    let ghost rq = req;
    let ghost id_v = id@;
    let (pea_type, default_priority, default_status, default_tags, body_template) = match req.template {
        Some(t) => {
            let s = t.settings();
            (s.pea_type, s.priority, s.status, s.tags, s.body_template)
        },
        None => {
            let t = match req.pea_type {
                Some(a) => PeaType::from(a),
                None => settings.new_type(),
            };
            (t, None, None, Vec::new(), None)
        },
    };
    assert(strs(default_tags@) == match rq.template {
        Some(t) => template_tags(t),
        None => Seq::<Seq<char>>::empty(),
    });
    let mut pea = Pea::new(id, req.title, pea_type);
    let ghost at = pea.created;
    match req.status {
        Some(s) => {
            pea = pea.with_status(PeaStatus::from(s));
        },
        None => match default_status {
            Some(s) => {
                pea = pea.with_status(s);
            },
            None => {
                pea = pea.with_status(settings.new_status());
            },
        },
    }
    match req.priority {
        Some(p) => {
            pea = pea.with_priority(PeaPriority::from(p));
        },
        None => match default_priority {
            Some(p) => {
                pea = pea.with_priority(p);
            },
            None => {},
        },
    }
    let mut all_tags = default_tags;
    add_all_missing(&mut all_tags, &req.tags);
    if all_tags.len() > 0 {
        pea = pea.with_tags(all_tags);
    } else {
        assert(strs(all_tags@) =~= pea@.tags);
    }
    if req.parent.is_some() {
        pea = pea.with_parent(req.parent);
    }
    if req.blocking.len() > 0 {
        pea = pea.with_blocking(req.blocking);
    } else {
        assert(strs(req.blocking@) =~= pea@.blocking);
    }
    match req.body {
        Some(b) => {
            pea = pea.with_body(b);
        },
        None => match body_template {
            Some(bt) => {
                pea = pea.with_body(bt.to_owned());
            },
            None => {},
        },
    }
    assert(pea.created == at);
    pea
}

// ------------------------------------------------------------ bulk create

/// The titles `peas bulk create` reads: one per line, trimmed, empty lines
/// left out.
pub open spec fn bulk_titles_spec(input: Seq<char>) -> Seq<Seq<char>> {
    lines(input).map_values(|l: Seq<char>| trim(l)).filter(|l: Seq<char>| l.len() > 0)
}

/// The titles in the input of `peas bulk create`.
pub fn bulk_titles(input: &str) -> (r: Vec<String>)
    ensures
        strs(r@) == bulk_titles_spec(input@),
{
    let ls = lines_of(input);
    let ghost trimmed = str_views(ls@).map_values(|l: Seq<char>| trim(l));
    let ghost f = |l: Seq<char>| l.len() > 0;
    let mut out: Vec<String> = Vec::new();
    let mut k: usize = 0;
    while k < ls.len()
        invariant
            k <= ls.len(),
            trimmed == str_views(ls@).map_values(|l: Seq<char>| trim(l)),
            f == (|l: Seq<char>| l.len() > 0),
            strs(out@) == trimmed.take(k as int).filter(f),
        decreases ls.len() - k,
    {
        let t = trim_str(ls[k].as_str());
        let ghost pre = trimmed.take(k as int);
        assert(trimmed.take(k + 1) =~= pre.push(t@));
        proof {
            pre.lemma_filter_push(t@, f);
        }
        if t.as_str().is_empty() {
        } else {
            let ghost o = out@;
            out.push(t);
            assert(strs(out@) =~= strs(o).push(t@));
        }
        k = k + 1;
    }
    assert(trimmed.take(ls.len() as int) =~= trimmed);
    out
}

/// A ticket of `peas bulk create`: type, parent, tags, status and
/// priority where given; a type or status not given is the configured
/// default.
pub open spec fn bulk_pea_spec(
    id: Seq<char>,
    title: Seq<char>,
    pea_type: Option<PeaType>,
    parent: Option<Seq<char>>,
    tags: Seq<Seq<char>>,
    status: Option<PeaStatus>,
    priority: Option<PeaPriority>,
    cfg: PeasSettings,
    at: Timestamp,
) -> PeaV {
    let t = match pea_type {
        Some(t) => t,
        None => configured_type(cfg),
    };
    let base = fresh_pea(id, title, t, at);
    PeaV {
        parent,
        tags,
        status: match status {
            Some(s) => s,
            None => configured_status(cfg),
        },
        priority: match priority {
            Some(p) => p,
            None => base.priority,
        },
        ..base
    }
}

/// Builds one ticket of `peas bulk create` under the project's settings,
/// created now.
pub fn bulk_pea(
    id: String,
    title: String,
    pea_type: Option<PeaType>,
    parent: &Option<String>,
    tags: &Vec<String>,
    status: Option<PeaStatus>,
    priority: Option<PeaPriority>,
    settings: &PeasSettings,
) -> (r: Pea)
    ensures
        r@ == bulk_pea_spec(
            id@,
            title@,
            pea_type,
            opt_str(*parent),
            strs(tags@),
            status,
            priority,
            *settings,
            r.created,
        ),
{
    let t = match pea_type {
        Some(t) => t,
        None => settings.new_type(),
    };
    let mut pea = Pea::new(id, title, t);
    let ghost at = pea.created;
    match parent {
        Some(p) => {
            pea = pea.with_parent(Some(p.clone()));
        },
        None => {},
    }
    if tags.len() > 0 {
        pea = pea.with_tags(clone_strings(tags));
    } else {
        assert(strs(tags@) =~= pea@.tags);
    }
    match status {
        Some(s) => {
            pea = pea.with_status(s);
        },
        None => {
            pea = pea.with_status(settings.new_status());
        },
    }
    match priority {
        Some(p) => {
            pea = pea.with_priority(p);
        },
        None => {},
    }
    assert(pea.created == at);
    pea
}

// ------------------------------------------------------------ bulk edits

/// What a bulk action does to one ticket: the ticket after it, whether it
/// needs saving, and why it was skipped when it does not. `None` for
/// `Create`, which edits no ticket.
pub open spec fn bulk_edit_spec(p: PeaV, a: BulkAction) -> Option<(PeaV, bool, Option<Seq<char>>)> {
    match a {
        BulkAction::Status { status, .. } => Some(
            (PeaV { status: arg_status(status), ..p }, true, None),
        ),
        BulkAction::Start { .. } => Some((PeaV { status: PeaStatus::InProgress, ..p }, true, None)),
        BulkAction::Done { .. } => Some((PeaV { status: PeaStatus::Completed, ..p }, true, None)),
        BulkAction::Tag { tag, .. } => if p.tags.contains(tag@) {
            Some((p, false, Some("already has tag"@)))
        } else {
            Some((PeaV { tags: p.tags.push(tag@), ..p }, true, None))
        },
        BulkAction::Parent { parent, .. } => Some(
            (PeaV { parent: Some(parent@), ..p }, true, None),
        ),
        BulkAction::Create { .. } => None,
    }
}

/// Applies a bulk action to one ticket. Returns whether it needs saving
/// and, when not, why.
pub fn apply_bulk_edit(pea: &mut Pea, action: &BulkAction) -> (r: (bool, Option<String>))
    requires
        !(action is Create),
    ensures
        bulk_edit_spec(old(pea)@, *action) == Some((final(pea)@, r.0, opt_str(r.1))),
{
    match action {
        BulkAction::Status { status, .. } => {
            pea.status = PeaStatus::from(*status);
            (true, None)
        },
        BulkAction::Start { .. } => {
            pea.status = PeaStatus::InProgress;
            (true, None)
        },
        BulkAction::Done { .. } => {
            pea.status = PeaStatus::Completed;
            (true, None)
        },
        BulkAction::Tag { tag, .. } => {
            if push_missing(&mut pea.tags, tag.as_str()) {
                (true, None)
            } else {
                (false, Some("already has tag".to_owned()))
            }
        },
        BulkAction::Parent { parent, .. } => {
            pea.parent = Some(parent.clone());
            (true, None)
        },
        BulkAction::Create { .. } => (false, None),
    }
}

/// How a bulk edit goes on, once every ticket has been loaded.
pub enum BulkPlan {
    /// Some tickets failed to load: nothing is written. Their positions
    /// among the requested ids, with the errors.
    Aborted(Vec<(usize, PeasError)>),
    /// Every ticket loaded: the edited tickets to save, in request order,
    /// and the skipped ones with their reasons.
    Apply { to_save: Vec<Pea>, skipped: Vec<(String, String)> },
}

/// The edited tickets to save, in order, from loaded tickets.
pub open spec fn to_save_spec(loaded: Seq<PeaV>, a: BulkAction) -> Seq<PeaV>
    decreases loaded.len(),
{
    if loaded.len() == 0 {
        Seq::empty()
    } else {
        let prev = to_save_spec(loaded.drop_last(), a);
        match bulk_edit_spec(loaded.last(), a) {
            Some((p, true, _)) => prev.push(p),
            _ => prev,
        }
    }
}

/// The skipped tickets, in order: their ids and the reasons.
pub open spec fn skipped_spec(loaded: Seq<PeaV>, a: BulkAction) -> Seq<(Seq<char>, Seq<char>)>
    decreases loaded.len(),
{
    if loaded.len() == 0 {
        Seq::empty()
    } else {
        let prev = skipped_spec(loaded.drop_last(), a);
        match bulk_edit_spec(loaded.last(), a) {
            Some((p, false, reason)) => prev.push(
                (
                    loaded.last().id,
                    match reason {
                        Some(x) => x,
                        None => "no change"@,
                    },
                ),
            ),
            _ => prev,
        }
    }
}

/// The loaded tickets of a list of load results in which none failed.
pub open spec fn loaded_views(v: Seq<Result<Pea, PeasError>>) -> Seq<PeaV> {
    v.map_values(|r: Result<Pea, PeasError>| match r {
        Ok(p) => p@,
        Err(_) => arbitrary(),
    })
}

/// Plans a bulk edit from the load result of each requested id: abort
/// when any failed (no change is made then), else edit every ticket.
pub fn plan_bulk(loaded: Vec<Result<Pea, PeasError>>, action: &BulkAction) -> (r: BulkPlan)
    requires
        !(action is Create),
    ensures
        (exists|i: int| 0 <= i < loaded@.len() && loaded@[i] is Err) <==> r is Aborted,
        r matches BulkPlan::Aborted(errs) ==> {
            &&& forall|k: int| 0 <= k < errs@.len() ==> {
                let (i, e) = #[trigger] errs@[k];
                i < loaded@.len() && loaded@[i as int] == Err::<Pea, PeasError>(e)
            }
            &&& forall|i: int|
                0 <= i < loaded@.len() && loaded@[i] is Err ==> exists|k: int|
                    0 <= k < errs@.len() && (#[trigger] errs@[k]).0 == i
        },
        r matches BulkPlan::Apply { to_save, skipped } ==> {
            &&& to_save@.map_values(|p: Pea| p@) == to_save_spec(loaded_views(loaded@), *action)
            &&& skipped@.map_values(|s: (String, String)| (s.0@, s.1@)) == skipped_spec(
                loaded_views(loaded@),
                *action,
            )
        },
{
    let ghost lv = loaded@;
    let mut errs: Vec<(usize, PeasError)> = Vec::new();
    let mut to_save: Vec<Pea> = Vec::new();
    let mut skipped: Vec<(String, String)> = Vec::new();
    let mut k: usize = 0;
    let n = loaded.len();
    let ghost views = loaded_views(lv);
    let mut any_err = false;
    for x in it: loaded
        invariant
            it.seq() == lv,
            k == it.index(),
            k <= lv.len(),
            lv.len() == n,
            any_err <==> exists|i: int| 0 <= i < k && lv[i] is Err,
            forall|q: int| 0 <= q < errs@.len() ==> {
                let (i, e) = #[trigger] errs@[q];
                i < k && lv[i as int] == Err::<Pea, PeasError>(e)
            },
            forall|i: int| 0 <= i < k && lv[i] is Err ==> exists|q: int|
                0 <= q < errs@.len() && (#[trigger] errs@[q]).0 == i,
            !any_err ==> to_save@.map_values(|p: Pea| p@) == to_save_spec(views.take(k as int), *action),
            !any_err ==> skipped@.map_values(|s: (String, String)| (s.0@, s.1@)) == skipped_spec(
                views.take(k as int),
                *action,
            ),
            views == loaded_views(lv),
            !(action is Create),
    {
        let ghost vt = views.take(k + 1);
        assert(vt.drop_last() =~= views.take(k as int));
        match x {
            Ok(mut pea) => {
                assert(vt.last() == pea@);
                let ghost before = pea@;
                let (save, reason) = apply_bulk_edit(&mut pea, action);
                if !any_err {
                    if save {
                        let ghost o = to_save@;
                        let ghost edited = pea@;
                        to_save.push(pea);
                        assert(to_save@.map_values(|p: Pea| p@) =~= o.map_values(|p: Pea| p@).push(edited));
                    } else {
                        let ghost o = skipped@;
                        let id = pea.id;
                        let why = match reason {
                            Some(w) => w,
                            None => "no change".to_owned(),
                        };
                        let ghost item = (id@, why@);
                        skipped.push((id, why));
                        assert(skipped@.map_values(|s: (String, String)| (s.0@, s.1@)) =~= o.map_values(
                            |s: (String, String)| (s.0@, s.1@),
                        ).push(item));
                    }
                }
            },
            Err(e) => {
                let ghost q = errs@.len();
                let ghost o = errs@;
                errs.push((k, e));
                assert(errs@[q as int].0 == k);
                assert forall|i: int| 0 <= i < k + 1 && lv[i] is Err implies exists|q2: int|
                    0 <= q2 < errs@.len() && (#[trigger] errs@[q2]).0 == i by {
                    if i < k {
                        let q1 = choose|q1: int| 0 <= q1 < o.len() && (#[trigger] o[q1]).0 == i;
                        assert(errs@[q1] == o[q1]);
                    } else {
                        assert(errs@[q as int].0 == i);
                    }
                }
                any_err = true;
            },
        }
        k = k + 1;
    }
    assert(views.take(lv.len() as int) =~= views);
    if any_err {
        BulkPlan::Aborted(errs)
    } else {
        BulkPlan::Apply { to_save, skipped }
    }
}

/// Tagging is idempotent: once a bulk tag has been applied, applying it
/// again skips the ticket with the reason "already has tag" and leaves it
/// as it is.
pub proof fn bulk_tag_idempotent(p: PeaV, a: BulkAction)
    requires
        a is Tag,
    ensures
        bulk_edit_spec(p, a) matches Some((q, _, _)) && bulk_edit_spec(q, a) == Some(
            (q, false, Some("already has tag"@)),
        ),
{
    if let BulkAction::Tag { tag, .. } = a {
        if !p.tags.contains(tag@) {
            let t = p.tags.push(tag@);
            assert(t[t.len() - 1] == tag@);
        }
    }
}

/// A new ticket has what was asked for: a status, priority or body given
/// explicitly is the ticket's, with or without a template; the type is the
/// template's when one is used, else the one given; each tag given (and
/// each of the template's) is on the ticket; the parent and blocked
/// tickets are those given; it is created and updated at `at`. What
/// neither the request nor a template gives is the default: the configured
/// status and type, normal priority, an empty body.
pub proof fn created_has_what_was_asked(id: Seq<char>, r: CreateRequest, cfg: PeasSettings, at: Timestamp)
    ensures
        ({
            let c = created_spec(id, r, cfg, at);
            &&& c.id == id && c.title == r.title@
            &&& c.created == at && c.updated == at
            &&& (r.status matches Some(x) ==> c.status == arg_status(x))
            &&& (r.priority matches Some(x) ==> c.priority == arg_priority(x))
            &&& (r.body matches Some(b) ==> c.body == b@)
            &&& (r.template matches Some(t) ==> c.pea_type == template_type(t))
            &&& (r.template is None ==> (r.pea_type matches Some(a) ==> c.pea_type == arg_type(a)))
            &&& (r.template is None && r.pea_type is None ==> c.pea_type == configured_type(cfg))
            &&& (r.template is None && r.status is None ==> c.status == configured_status(cfg))
            &&& (r.template is None && r.priority is None ==> c.priority == PeaPriority::Normal)
            &&& (r.template is None && r.body is None ==> c.body.len() == 0)
            &&& c.parent == opt_str(r.parent)
            &&& c.blocking == strs(r.blocking@)
            &&& forall|t: Seq<char>| strs(r.tags@).contains(t) ==> #[trigger] c.tags.contains(t)
            &&& (r.template matches Some(tm) ==> forall|t: Seq<char>|
                template_tags(tm).contains(t) ==> #[trigger] c.tags.contains(t))
            &&& (r.template is None ==> forall|t: Seq<char>|
                #[trigger] c.tags.contains(t) ==> strs(r.tags@).contains(t))
            &&& c.assets.len() == 0
        }),
{
    let tmpl_tags = match r.template {
        Some(t) => template_tags(t),
        None => Seq::empty(),
    };
    crate::update::lemma_add_missing_has(tmpl_tags, strs(r.tags@));
    if r.template is None {
        lemma_add_missing_only(Seq::empty(), strs(r.tags@));
    }
}

/// Adding to nothing gives only what was added.
proof fn lemma_add_missing_only(xs: Seq<Seq<char>>, ys: Seq<Seq<char>>)
    requires
        xs.len() == 0,
    ensures
        forall|t: Seq<char>| #[trigger] add_missing(xs, ys).contains(t) ==> ys.contains(t),
    decreases ys.len(),
{
    if ys.len() > 0 {
        lemma_add_missing_only(xs, ys.drop_last());
        let p = add_missing(xs, ys.drop_last());
        assert forall|t: Seq<char>| #[trigger] add_missing(xs, ys).contains(t) implies ys.contains(t) by {
            if p.contains(t) {
                assert(ys.drop_last().contains(t));
                let k = choose|k: int| 0 <= k < ys.drop_last().len() && ys.drop_last()[k] == t;
                assert(ys[k] == t);
            } else {
                let q = add_missing(xs, ys);
                let k = choose|k: int| 0 <= k < q.len() && q[k] == t;
                if k < p.len() {
                    assert(q[k] == p[k]);
                }
                assert(ys[ys.len() - 1] == t);
            }
        }
    }
}

/// A ticket of `peas bulk create` has the type, parent, tags, status and
/// priority given; a type or status not given is the configured one, a
/// priority not given is normal; its body is empty and it is created and
/// updated at `at`.
pub proof fn bulk_created_has_what_was_asked(
    id: Seq<char>,
    title: Seq<char>,
    pea_type: Option<PeaType>,
    parent: Option<Seq<char>>,
    tags: Seq<Seq<char>>,
    status: Option<PeaStatus>,
    priority: Option<PeaPriority>,
    cfg: PeasSettings,
    at: Timestamp,
)
    ensures
        ({
            let c = bulk_pea_spec(id, title, pea_type, parent, tags, status, priority, cfg, at);
            &&& c.id == id && c.title == title && c.parent == parent && c.tags == tags
            &&& c.created == at && c.updated == at && c.body.len() == 0 && c.blocking.len() == 0
            &&& (pea_type matches Some(t) ==> c.pea_type == t)
            &&& (pea_type is None ==> c.pea_type == configured_type(cfg))
            &&& (status matches Some(x) ==> c.status == x)
            &&& (status is None ==> c.status == configured_status(cfg))
            &&& (priority matches Some(x) ==> c.priority == x)
            &&& (priority is None ==> c.priority == PeaPriority::Normal)
        }),
{
}

/// A bulk edit does what its name says: `status` sets the status given,
/// `start` sets in progress, `done` sets completed, `parent` sets the
/// parent, and `tag` adds the tag (a ticket that has it already is left as
/// it is and skipped); nothing else about the ticket changes, and every
/// changed ticket is to be saved.
pub proof fn bulk_edit_does_what_it_says(p: PeaV, a: BulkAction)
    requires
        !(a is Create),
    ensures
        bulk_edit_spec(p, a) matches Some((q, save, why)) && {
            &&& q.id == p.id && q.title == p.title && q.pea_type == p.pea_type && q.priority == p.priority
            &&& q.body == p.body && q.blocking == p.blocking && q.created == p.created && q.updated == p.updated
            &&& (a matches BulkAction::Status { status, .. } ==> q.status == arg_status(status) && save)
            &&& (a is Start ==> q.status == PeaStatus::InProgress && save)
            &&& (a is Done ==> q.status == PeaStatus::Completed && save)
            &&& (a matches BulkAction::Parent { parent, .. } ==> q.parent == Some(parent@) && save)
            &&& (a matches BulkAction::Tag { tag, .. } ==> q.tags.contains(tag@) && q.status == p.status && (
            save <==> !p.tags.contains(tag@)) && (p.tags.contains(tag@) ==> q == p && why is Some) && (
            forall|t: Seq<char>| p.tags.contains(t) ==> #[trigger] q.tags.contains(t)))
        },
{
    if let BulkAction::Tag { tag, .. } = a {
        if !p.tags.contains(tag@) {
            let q = p.tags.push(tag@);
            assert(q[q.len() - 1] == tag@);
            assert forall|t: Seq<char>| p.tags.contains(t) implies #[trigger] q.contains(t) by {
                let k = choose|k: int| 0 <= k < p.tags.len() && p.tags[k] == t;
                assert(q[k] == t);
            }
        }
    }
}

} // verus!
