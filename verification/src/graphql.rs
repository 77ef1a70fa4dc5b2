//! The GraphQL interface's values and what its queries and mutations
//! compute; serving them is left to the server.
use vstd::prelude::*;
use vstd::std_specs::convert::FromSpecImpl;
use crate::config::{configured_status, configured_type, PeasConfig, PeasSettings};
use crate::model::{fresh_pea, now, opt_str, raw_time, strs, Memory as ModelMemory, Pea as ModelPea, PeaPriority as ModelPriority, PeaStatus as ModelStatus, PeaType as ModelType, PeaV, Timestamp};
use crate::query::{count_peas, filter_peas, meets, paginate, with_status, with_type, Counts, Criteria};
use crate::suggest::pea_views;
use crate::text::{clone_opt, clone_strings};
use crate::update::{add_all_missing, add_missing, remove_all, without, push_missing};

verus! {

/// A ticket type, as the interface names it.
#[derive(Clone, Copy, Debug, PartialEq, Eq, Structural)]
pub enum PeaType {
    Milestone,
    Epic,
    Story,
    Feature,
    Bug,
    Chore,
    Research,
    Task,
}

/// A status, as the interface names it.
#[derive(Clone, Copy, Debug, PartialEq, Eq, Structural)]
pub enum PeaStatus {
    Draft,
    Todo,
    InProgress,
    Completed,
    Scrapped,
}

/// A priority, as the interface names it.
#[derive(Clone, Copy, Debug, PartialEq, Eq, Structural)]
pub enum PeaPriority {
    Critical,
    High,
    Normal,
    Low,
    Deferred,
}

/// The model type an interface type stands for.
pub open spec fn to_model_type(t: PeaType) -> ModelType {
    match t {
        PeaType::Milestone => ModelType::Milestone,
        PeaType::Epic => ModelType::Epic,
        PeaType::Story => ModelType::Story,
        PeaType::Feature => ModelType::Feature,
        PeaType::Bug => ModelType::Bug,
        PeaType::Chore => ModelType::Chore,
        PeaType::Research => ModelType::Research,
        PeaType::Task => ModelType::Task,
    }
}

/// The interface type a model type is shown as.
pub open spec fn from_model_type(t: ModelType) -> PeaType {
    match t {
        ModelType::Milestone => PeaType::Milestone,
        ModelType::Epic => PeaType::Epic,
        ModelType::Story => PeaType::Story,
        ModelType::Feature => PeaType::Feature,
        ModelType::Bug => PeaType::Bug,
        ModelType::Chore => PeaType::Chore,
        ModelType::Research => PeaType::Research,
        ModelType::Task => PeaType::Task,
    }
}

/// The model status an interface status stands for.
pub open spec fn to_model_status(s: PeaStatus) -> ModelStatus {
    match s {
        PeaStatus::Draft => ModelStatus::Draft,
        PeaStatus::Todo => ModelStatus::Todo,
        PeaStatus::InProgress => ModelStatus::InProgress,
        PeaStatus::Completed => ModelStatus::Completed,
        PeaStatus::Scrapped => ModelStatus::Scrapped,
    }
}

/// The interface status a model status is shown as.
pub open spec fn from_model_status(s: ModelStatus) -> PeaStatus {
    match s {
        ModelStatus::Draft => PeaStatus::Draft,
        ModelStatus::Todo => PeaStatus::Todo,
        ModelStatus::InProgress => PeaStatus::InProgress,
        ModelStatus::Completed => PeaStatus::Completed,
        ModelStatus::Scrapped => PeaStatus::Scrapped,
    }
}

/// The model priority an interface priority stands for.
pub open spec fn to_model_priority(p: PeaPriority) -> ModelPriority {
    match p {
        PeaPriority::Critical => ModelPriority::Critical,
        PeaPriority::High => ModelPriority::High,
        PeaPriority::Normal => ModelPriority::Normal,
        PeaPriority::Low => ModelPriority::Low,
        PeaPriority::Deferred => ModelPriority::Deferred,
    }
}

/// The interface priority a model priority is shown as.
pub open spec fn from_model_priority(p: ModelPriority) -> PeaPriority {
    match p {
        ModelPriority::Critical => PeaPriority::Critical,
        ModelPriority::High => PeaPriority::High,
        ModelPriority::Normal => PeaPriority::Normal,
        ModelPriority::Low => PeaPriority::Low,
        ModelPriority::Deferred => PeaPriority::Deferred,
    }
}

impl From<ModelType> for PeaType {
    fn from(t: ModelType) -> (r: PeaType) {
        match t {
            ModelType::Milestone => PeaType::Milestone,
            ModelType::Epic => PeaType::Epic,
            ModelType::Story => PeaType::Story,
            ModelType::Feature => PeaType::Feature,
            ModelType::Bug => PeaType::Bug,
            ModelType::Chore => PeaType::Chore,
            ModelType::Research => PeaType::Research,
            ModelType::Task => PeaType::Task,
        }
    }
}

impl FromSpecImpl<ModelType> for PeaType {
    open spec fn obeys_from_spec() -> bool {
        true
    }

    open spec fn from_spec(v: ModelType) -> PeaType {
        from_model_type(v)
    }
}

impl From<PeaType> for ModelType {
    fn from(t: PeaType) -> (r: ModelType) {
        match t {
            PeaType::Milestone => ModelType::Milestone,
            PeaType::Epic => ModelType::Epic,
            PeaType::Story => ModelType::Story,
            PeaType::Feature => ModelType::Feature,
            PeaType::Bug => ModelType::Bug,
            PeaType::Chore => ModelType::Chore,
            PeaType::Research => ModelType::Research,
            PeaType::Task => ModelType::Task,
        }
    }
}

impl FromSpecImpl<PeaType> for ModelType {
    open spec fn obeys_from_spec() -> bool {
        true
    }

    open spec fn from_spec(v: PeaType) -> ModelType {
        to_model_type(v)
    }
}

impl From<ModelStatus> for PeaStatus {
    fn from(s: ModelStatus) -> (r: PeaStatus) {
        match s {
            ModelStatus::Draft => PeaStatus::Draft,
            ModelStatus::Todo => PeaStatus::Todo,
            ModelStatus::InProgress => PeaStatus::InProgress,
            ModelStatus::Completed => PeaStatus::Completed,
            ModelStatus::Scrapped => PeaStatus::Scrapped,
        }
    }
}

impl FromSpecImpl<ModelStatus> for PeaStatus {
    open spec fn obeys_from_spec() -> bool {
        true
    }

    open spec fn from_spec(v: ModelStatus) -> PeaStatus {
        from_model_status(v)
    }
}

impl From<PeaStatus> for ModelStatus {
    fn from(s: PeaStatus) -> (r: ModelStatus) {
        match s {
            PeaStatus::Draft => ModelStatus::Draft,
            PeaStatus::Todo => ModelStatus::Todo,
            PeaStatus::InProgress => ModelStatus::InProgress,
            PeaStatus::Completed => ModelStatus::Completed,
            PeaStatus::Scrapped => ModelStatus::Scrapped,
        }
    }
}

impl FromSpecImpl<PeaStatus> for ModelStatus {
    open spec fn obeys_from_spec() -> bool {
        true
    }

    open spec fn from_spec(v: PeaStatus) -> ModelStatus {
        to_model_status(v)
    }
}

impl From<ModelPriority> for PeaPriority {
    fn from(p: ModelPriority) -> (r: PeaPriority) {
        match p {
            ModelPriority::Critical => PeaPriority::Critical,
            ModelPriority::High => PeaPriority::High,
            ModelPriority::Normal => PeaPriority::Normal,
            ModelPriority::Low => PeaPriority::Low,
            ModelPriority::Deferred => PeaPriority::Deferred,
        }
    }
}

impl FromSpecImpl<ModelPriority> for PeaPriority {
    open spec fn obeys_from_spec() -> bool {
        true
    }

    open spec fn from_spec(v: ModelPriority) -> PeaPriority {
        from_model_priority(v)
    }
}

impl From<PeaPriority> for ModelPriority {
    fn from(p: PeaPriority) -> (r: ModelPriority) {
        match p {
            PeaPriority::Critical => ModelPriority::Critical,
            PeaPriority::High => ModelPriority::High,
            PeaPriority::Normal => ModelPriority::Normal,
            PeaPriority::Low => ModelPriority::Low,
            PeaPriority::Deferred => ModelPriority::Deferred,
        }
    }
}

impl FromSpecImpl<PeaPriority> for ModelPriority {
    open spec fn obeys_from_spec() -> bool {
        true
    }

    open spec fn from_spec(v: PeaPriority) -> ModelPriority {
        to_model_priority(v)
    }
}

/// Converting a model type to the interface and back gives it back, and
/// the other way round.
pub proof fn type_conversion_round_trip(t: ModelType)
    ensures
        to_model_type(from_model_type(t)) == t,
        forall|x: PeaType| from_model_type(#[trigger] to_model_type(x)) == x,
{
}

/// Converting a model status to the interface and back gives it back, and
/// the other way round.
pub proof fn status_conversion_round_trip(s: ModelStatus)
    ensures
        to_model_status(from_model_status(s)) == s,
        forall|x: PeaStatus| from_model_status(#[trigger] to_model_status(x)) == x,
{
}

/// Converting a model priority to the interface and back gives it back,
/// and the other way round.
pub proof fn priority_conversion_round_trip(p: ModelPriority)
    ensures
        to_model_priority(from_model_priority(p)) == p,
        forall|x: PeaPriority| from_model_priority(#[trigger] to_model_priority(x)) == x,
{
}

// ------------------------------------------------------------ objects

/// How chrono writes a UTC time in RFC 3339, where chrono can represent it.
pub uninterp spec fn spec_rfc3339(secs: i64, nanos: u32) -> Option<Seq<char>>;

/// `DateTime::<Utc>::from_timestamp` then `to_rfc3339`. Trusted: the text
/// is named by `spec_rfc3339`; `None` is chrono's refusal of a time outside
/// its range.
#[verifier::external_body]
fn rfc3339(t: Timestamp) -> (r: Option<String>)
    ensures
        match r {
            Some(x) => spec_rfc3339(t.secs, t.nanos) == Some(x@),
            None => spec_rfc3339(t.secs, t.nanos) is None,
        },
{
    chrono::DateTime::from_timestamp(t.secs, t.nanos).map(|d| d.to_rfc3339())
}

/// A time as the interface shows it: in RFC 3339, or raw where chrono
/// cannot represent it.
pub open spec fn time_rfc3339(t: Timestamp) -> Seq<char> {
    match spec_rfc3339(t.secs, t.nanos) {
        Some(x) => x,
        None => raw_time(t.secs, t.nanos),
    }
}

fn time_text(t: Timestamp) -> (r: String)
    ensures
        r@ == time_rfc3339(t),
{
    match rfc3339(t) {
        Some(x) => x,
        None => t.raw_text(),
    }
}

/// A ticket as the interface shows it.
pub struct Pea {
    pub id: String,
    pub title: String,
    pub pea_type: PeaType,
    pub status: PeaStatus,
    pub priority: PeaPriority,
    pub tags: Vec<String>,
    pub parent: Option<String>,
    pub blocking: Vec<String>,
    pub created: String,
    pub updated: String,
    pub body: String,
}

/// Shows a ticket through the interface, times in RFC 3339.
pub fn show_pea(p: ModelPea) -> (r: Pea)
    ensures
        r.id@ == p@.id,
        r.title@ == p@.title,
        r.pea_type == from_model_type(p.pea_type),
        r.status == from_model_status(p.status),
        r.priority == from_model_priority(p.priority),
        strs(r.tags@) == p@.tags,
        opt_str(r.parent) == p@.parent,
        strs(r.blocking@) == p@.blocking,
        r.created@ == time_rfc3339(p.created),
        r.updated@ == time_rfc3339(p.updated),
        r.body@ == p@.body,
{
    let created = time_text(p.created);
    let updated = time_text(p.updated);
    Pea {
        id: p.id,
        title: p.title,
        pea_type: PeaType::from(p.pea_type),
        status: PeaStatus::from(p.status),
        priority: PeaPriority::from(p.priority),
        tags: p.tags,
        parent: p.parent,
        blocking: p.blocking,
        created,
        updated,
        body: p.body,
    }
}

/// A memory as the interface shows it.
pub struct Memory {
    pub key: String,
    pub content: String,
    pub tags: Vec<String>,
    pub created: String,
    pub updated: String,
}

/// Shows a memory through the interface, times in RFC 3339.
pub fn show_memory(m: ModelMemory) -> (r: Memory)
    ensures
        r.key@ == m@.key,
        r.content@ == m@.content,
        strs(r.tags@) == m@.tags,
        r.created@ == time_rfc3339(m.created),
        r.updated@ == time_rfc3339(m.updated),
{
    let created = time_text(m.created);
    let updated = time_text(m.updated);
    Memory { key: m.key, content: m.content, tags: m.tags, created, updated }
}

/// The filter of the `peas` query.
pub struct PeaFilter {
    pub pea_type: Option<PeaType>,
    pub status: Option<PeaStatus>,
    pub priority: Option<PeaPriority>,
    pub parent: Option<String>,
    pub tag: Option<String>,
    pub is_open: Option<bool>,
}

/// A page of tickets and how many there are in all.
pub struct PeaConnection {
    pub nodes: Vec<Pea>,
    pub total_count: usize,
}

/// Counts by status.
pub struct StatusCounts {
    pub draft: usize,
    pub todo: usize,
    pub in_progress: usize,
    pub completed: usize,
    pub scrapped: usize,
}

/// Counts by type.
pub struct TypeCounts {
    pub milestone: usize,
    pub epic: usize,
    pub story: usize,
    pub feature: usize,
    pub bug: usize,
    pub chore: usize,
    pub research: usize,
    pub task: usize,
}

/// The project's statistics.
pub struct ProjectStats {
    pub total: usize,
    pub by_status: StatusCounts,
    pub by_type: TypeCounts,
}

/// The input of `createPea`.
pub struct CreatePeaInput {
    pub title: String,
    pub pea_type: Option<PeaType>,
    pub status: Option<PeaStatus>,
    pub priority: Option<PeaPriority>,
    pub body: Option<String>,
    pub parent: Option<String>,
    pub blocking: Option<Vec<String>>,
    pub tags: Option<Vec<String>>,
}

/// The input of `updatePea`.
pub struct UpdatePeaInput {
    pub id: String,
    pub title: Option<String>,
    pub pea_type: Option<PeaType>,
    pub status: Option<PeaStatus>,
    pub priority: Option<PeaPriority>,
    pub body: Option<String>,
    pub parent: Option<String>,
    pub blocking: Option<Vec<String>>,
    pub add_tags: Option<Vec<String>>,
    pub remove_tags: Option<Vec<String>>,
}

/// The input of `createMemory`.
pub struct CreateMemoryInput {
    pub key: String,
    pub content: String,
    pub tags: Option<Vec<String>>,
}

/// The input of `updateMemory`.
pub struct UpdateMemoryInput {
    pub key: String,
    pub content: String,
    pub tags: Option<Vec<String>>,
}

/// What the server shares with every request: the configuration and the
/// project's root.
pub struct AppState {
    pub config: PeasConfig,
    pub project_root: String,
}

/// The query root.
pub struct QueryRoot;

/// The mutation root.
pub struct MutationRoot;

// ------------------------------------------------------------ queries

/// The selection criteria of a `peas` filter.
pub fn filter_criteria(f: &PeaFilter) -> (r: Criteria)
    ensures
        r == filter_of(*f),
{
    Criteria {
        pea_type: match f.pea_type {
            Some(t) => Some(ModelType::from(t)),
            None => None,
        },
        status: match f.status {
            Some(s) => Some(ModelStatus::from(s)),
            None => None,
        },
        priority: match f.priority {
            Some(p) => Some(ModelPriority::from(p)),
            None => None,
        },
        parent: clone_opt(&f.parent),
        tag: clone_opt(&f.tag),
        is_open: f.is_open,
        updated_before: None,
    }
}

/// What the `peas` query selects: the tickets meeting the filter, then at
/// most `limit` (100 by default) of them after skipping `offset` (0 by
/// default); with the number that met the filter.
pub fn select_peas(peas: Vec<ModelPea>, filter: Option<&PeaFilter>, limit: Option<usize>, offset: Option<usize>) -> (r: (Vec<ModelPea>, usize))
    ensures
        ({
            let chosen = match filter {
                Some(f) => pea_views(peas@).filter(|p: PeaV| meets(filter_of(*f), p)),
                None => pea_views(peas@),
            };
            let off: int = match offset {
                Some(o) => o as int,
                None => 0,
            };
            let lim: int = match limit {
                Some(l) => l as int,
                None => 100,
            };
            let rest = chosen.skip(if off < chosen.len() { off } else { chosen.len() as int });
            &&& r.1 == chosen.len()
            &&& pea_views(r.0@) == rest.take(if rest.len() < lim { rest.len() as int } else { lim })
        }),
{
    let selected = match filter {
        Some(f) => {
            let c = filter_criteria(f);
            assert(c == filter_of(*f));
            filter_peas(peas, &c)
        },
        None => peas,
    };
    let total = selected.len();
    let off = match offset {
        Some(o) => o,
        None => 0,
    };
    let lim = match limit {
        Some(l) => l,
        None => 100,
    };
    (paginate(selected, off, lim), total)
}

/// The criteria a filter stands for.
pub open spec fn filter_of(f: PeaFilter) -> Criteria {
    Criteria {
        pea_type: match f.pea_type {
            Some(t) => Some(to_model_type(t)),
            None => None,
        },
        status: match f.status {
            Some(s) => Some(to_model_status(s)),
            None => None,
        },
        priority: match f.priority {
            Some(p) => Some(to_model_priority(p)),
            None => None,
        },
        parent: f.parent,
        tag: f.tag,
        is_open: f.is_open,
        updated_before: None,
    }
}

/// The statistics of the `stats` query.
pub fn project_stats(peas: &Vec<ModelPea>) -> (r: ProjectStats)
    ensures
        r.total == peas@.len(),
        r.by_status.draft == with_status(pea_views(peas@), ModelStatus::Draft),
        r.by_status.todo == with_status(pea_views(peas@), ModelStatus::Todo),
        r.by_status.in_progress == with_status(pea_views(peas@), ModelStatus::InProgress),
        r.by_status.completed == with_status(pea_views(peas@), ModelStatus::Completed),
        r.by_status.scrapped == with_status(pea_views(peas@), ModelStatus::Scrapped),
        r.by_type.milestone == with_type(pea_views(peas@), ModelType::Milestone),
        r.by_type.epic == with_type(pea_views(peas@), ModelType::Epic),
        r.by_type.story == with_type(pea_views(peas@), ModelType::Story),
        r.by_type.feature == with_type(pea_views(peas@), ModelType::Feature),
        r.by_type.bug == with_type(pea_views(peas@), ModelType::Bug),
        r.by_type.chore == with_type(pea_views(peas@), ModelType::Chore),
        r.by_type.research == with_type(pea_views(peas@), ModelType::Research),
        r.by_type.task == with_type(pea_views(peas@), ModelType::Task),
{
    let c = count_peas(peas);
    ProjectStats {
        total: c.total,
        by_status: StatusCounts {
            draft: c.draft,
            todo: c.todo,
            in_progress: c.in_progress,
            completed: c.completed,
            scrapped: c.scrapped,
        },
        by_type: TypeCounts {
            milestone: c.milestone,
            epic: c.epic,
            story: c.story,
            feature: c.feature,
            bug: c.bug,
            chore: c.chore,
            research: c.research,
            task: c.task,
        },
    }
}

// ------------------------------------------------------------ mutations

/// The ticket `createPea` makes with id `id` at time `at`.
pub open spec fn created_from_input(id: Seq<char>, i: CreatePeaInput, cfg: PeasSettings, at: Timestamp) -> PeaV {
    let base = fresh_pea(
        id,
        i.title@,
        match i.pea_type {
            Some(t) => to_model_type(t),
            None => configured_type(cfg),
        },
        at,
    );
    PeaV {
        status: match i.status {
            Some(s) => to_model_status(s),
            None => configured_status(cfg),
        },
        priority: match i.priority {
            Some(p) => to_model_priority(p),
            None => base.priority,
        },
        body: match i.body {
            Some(b) => b@,
            None => base.body,
        },
        parent: opt_str(i.parent),
        blocking: match i.blocking {
            Some(b) => strs(b@),
            None => base.blocking,
        },
        tags: match i.tags {
            Some(t) => strs(t@),
            None => base.tags,
        },
        ..base
    }
}

/// Builds the ticket `createPea` makes with the given id, created now.
pub fn pea_from_input(id: String, input: CreatePeaInput, settings: &PeasSettings) -> (r: ModelPea)
    ensures
        r@ == created_from_input(id@, input, *settings, r.created),
{
    let ghost inp = input;
    let pea_type = match input.pea_type {
        Some(t) => ModelType::from(t),
        None => settings.new_type(),
    };
    let mut pea = ModelPea::new(id, input.title, pea_type);
    let ghost at = pea.created;
    match input.status {
        Some(s) => {
            pea = pea.with_status(ModelStatus::from(s));
        },
        None => {
            pea = pea.with_status(settings.new_status());
        },
    }
    match input.priority {
        Some(p) => {
            pea = pea.with_priority(ModelPriority::from(p));
        },
        None => {},
    }
    match input.body {
        Some(b) => {
            pea = pea.with_body(b);
        },
        None => {},
    }
    if input.parent.is_some() {
        pea = pea.with_parent(input.parent);
    }
    match input.blocking {
        Some(b) => {
            pea = pea.with_blocking(b);
        },
        None => {},
    }
    match input.tags {
        Some(t) => {
            pea = pea.with_tags(t);
        },
        None => {},
    }
    assert(pea.created == at);
    pea
}

/// A ticket after `updatePea`, before its update time is set.
pub open spec fn updated_from_input(p: PeaV, i: UpdatePeaInput) -> PeaV {
    PeaV {
        title: match i.title {
            Some(t) => t@,
            None => p.title,
        },
        pea_type: match i.pea_type {
            Some(t) => to_model_type(t),
            None => p.pea_type,
        },
        status: match i.status {
            Some(s) => to_model_status(s),
            None => p.status,
        },
        priority: match i.priority {
            Some(x) => to_model_priority(x),
            None => p.priority,
        },
        body: match i.body {
            Some(b) => b@,
            None => p.body,
        },
        parent: match i.parent {
            Some(x) => if x@.len() == 0 {
                None
            } else {
                Some(x@)
            },
            None => p.parent,
        },
        blocking: match i.blocking {
            Some(b) => strs(b@),
            None => p.blocking,
        },
        tags: without(
            add_missing(
                p.tags,
                match i.add_tags {
                    Some(t) => strs(t@),
                    None => Seq::empty(),
                },
            ),
            match i.remove_tags {
                Some(t) => strs(t@),
                None => Seq::empty(),
            },
        ),
        ..p
    }
}

/// Applies `updatePea`'s input to a ticket and sets its update time to
/// `at`.
pub fn apply_update_input(pea: ModelPea, input: UpdatePeaInput, at: Timestamp) -> (r: ModelPea)
    ensures
        r@ == (PeaV { updated: at, ..updated_from_input(pea@, input) }),
{
    let ghost inp = input;
    let ghost before = pea@;
    let mut pea = pea;
    match input.title {
        Some(t) => {
            pea.title = t;
        },
        None => {},
    }
    match input.pea_type {
        Some(t) => {
            pea.pea_type = ModelType::from(t);
        },
        None => {},
    }
    match input.status {
        Some(s) => {
            pea.status = ModelStatus::from(s);
        },
        None => {},
    }
    match input.priority {
        Some(p) => {
            pea.priority = ModelPriority::from(p);
        },
        None => {},
    }
    match input.body {
        Some(b) => {
            pea.body = b;
        },
        None => {},
    }
    match input.parent {
        Some(p) => {
            pea.parent = if p.as_str().is_empty() {
                None
            } else {
                Some(p)
            };
        },
        None => {},
    }
    match input.blocking {
        Some(b) => {
            pea.blocking = b;
        },
        None => {},
    }
    let add = match input.add_tags {
        Some(t) => t,
        None => Vec::new(),
    };
    let remove = match input.remove_tags {
        Some(t) => t,
        None => Vec::new(),
    };
    assert(strs(add@) == match inp.add_tags {
        Some(t) => strs(t@),
        None => Seq::<Seq<char>>::empty(),
    });
    assert(strs(remove@) == match inp.remove_tags {
        Some(t) => strs(t@),
        None => Seq::<Seq<char>>::empty(),
    });
    let mut tags = clone_strings(&pea.tags);
    add_all_missing(&mut tags, &add);
    pea.tags = remove_all(&tags, &remove);
    pea.touch_at(at);
    pea
}

/// Sets a ticket's status (`setStatus`) and its update time to `at`.
pub fn set_status_at(pea: &mut ModelPea, status: PeaStatus, at: Timestamp)
    ensures
        final(pea)@ == (PeaV { status: to_model_status(status), updated: at, ..old(pea)@ }),
{
    pea.status = ModelStatus::from(status);
    pea.touch_at(at);
}

/// Adds a tag (`addTag`): when the ticket lacks it, it is added and the
/// update time set to `at`; says whether the ticket changed.
pub fn add_tag_at(pea: &mut ModelPea, tag: &str, at: Timestamp) -> (changed: bool)
    ensures
        changed == !old(pea)@.tags.contains(tag@),
        final(pea)@ == if changed {
            PeaV { tags: old(pea)@.tags.push(tag@), updated: at, ..old(pea)@ }
        } else {
            old(pea)@
        },
{
    if push_missing(&mut pea.tags, tag) {
        pea.touch_at(at);
        true
    } else {
        false
    }
}

/// Removes a tag (`removeTag`) and sets the update time to `at`.
pub fn remove_tag_at(pea: &mut ModelPea, tag: &str, at: Timestamp)
    ensures
        final(pea)@ == (PeaV {
            tags: old(pea)@.tags.filter(|x: Seq<char>| x != tag@),
            updated: at,
            ..old(pea)@
        }),
{
    let mut one: Vec<String> = Vec::new();
    one.push(tag.to_owned());
    let ghost o = pea@.tags;
    let kept = remove_all(&pea.tags, &one);
    assert(strs(one@) =~= seq![tag@]);
    assert(without(o, strs(one@)) =~= o.filter(|x: Seq<char>| x != tag@)) by {
        assert((|x: Seq<char>| !seq![tag@].contains(x)) =~= (|x: Seq<char>| x != tag@)) by {
            assert forall|x: Seq<char>| seq![tag@].contains(x) <==> x == tag@ by {
                if x == tag@ {
                    assert(seq![tag@][0] == x);
                }
            }
        }
    }
    pea.tags = kept;
    pea.touch_at(at);
}

/// `createPea` makes what was asked for: the type, status, priority, body,
/// blocked tickets and tags given are the ticket's; what is not given is
/// the default (the configured type and status, normal priority, an empty
/// body, no tags, no blocked tickets); the parent is the one given; it is
/// created and updated at `at`.
pub proof fn graphql_create_has_what_was_asked(id: Seq<char>, i: CreatePeaInput, cfg: PeasSettings, at: Timestamp)
    ensures
        ({
            let c = created_from_input(id, i, cfg, at);
            &&& c.id == id && c.title == i.title@ && c.created == at && c.updated == at
            &&& (i.pea_type matches Some(t) ==> c.pea_type == to_model_type(t))
            &&& (i.pea_type is None ==> c.pea_type == configured_type(cfg))
            &&& (i.status matches Some(x) ==> c.status == to_model_status(x))
            &&& (i.status is None ==> c.status == configured_status(cfg))
            &&& (i.priority matches Some(x) ==> c.priority == to_model_priority(x))
            &&& (i.priority is None ==> c.priority == ModelPriority::Normal)
            &&& (i.body matches Some(b) ==> c.body == b@)
            &&& (i.body is None ==> c.body.len() == 0)
            &&& (i.blocking matches Some(b) ==> c.blocking == strs(b@))
            &&& (i.blocking is None ==> c.blocking.len() == 0)
            &&& (i.tags matches Some(t) ==> c.tags == strs(t@))
            &&& (i.tags is None ==> c.tags.len() == 0)
            &&& c.parent == opt_str(i.parent)
        }),
{
}

/// `updatePea` sets what it names and keeps the rest: a title, type,
/// status, priority, body or blocked list given is the ticket's
/// afterwards, one not given is the ticket's before; a parent given is set
/// (an empty one clears it); tags given to add are there unless also
/// removed, tags given to remove are gone, other tags stay; the id and
/// times do not change.
pub proof fn graphql_update_sets_what_it_names(p: PeaV, i: UpdatePeaInput)
    ensures
        ({
            let u = updated_from_input(p, i);
            let add = match i.add_tags {
                Some(t) => strs(t@),
                None => Seq::<Seq<char>>::empty(),
            };
            let rm = match i.remove_tags {
                Some(t) => strs(t@),
                None => Seq::<Seq<char>>::empty(),
            };
            &&& (i.title matches Some(t) ==> u.title == t@)
            &&& (i.title is None ==> u.title == p.title)
            &&& (i.pea_type matches Some(t) ==> u.pea_type == to_model_type(t))
            &&& (i.pea_type is None ==> u.pea_type == p.pea_type)
            &&& (i.status matches Some(x) ==> u.status == to_model_status(x))
            &&& (i.status is None ==> u.status == p.status)
            &&& (i.priority matches Some(x) ==> u.priority == to_model_priority(x))
            &&& (i.priority is None ==> u.priority == p.priority)
            &&& (i.body matches Some(b) ==> u.body == b@)
            &&& (i.body is None ==> u.body == p.body)
            &&& (i.blocking matches Some(b) ==> u.blocking == strs(b@))
            &&& (i.blocking is None ==> u.blocking == p.blocking)
            &&& (i.parent matches Some(x) ==> u.parent == (if x@.len() == 0 {
                None
            } else {
                Some(x@)
            }))
            &&& (i.parent is None ==> u.parent == p.parent)
            &&& u.id == p.id && u.created == p.created && u.updated == p.updated
            &&& forall|t: Seq<char>| add.contains(t) && !rm.contains(t) ==> #[trigger] u.tags.contains(t)
            &&& forall|t: Seq<char>| rm.contains(t) ==> !(#[trigger] u.tags.contains(t))
            &&& forall|t: Seq<char>| p.tags.contains(t) && !rm.contains(t) ==> #[trigger] u.tags.contains(t)
        }),
{
    let add = match i.add_tags {
        Some(t) => strs(t@),
        None => Seq::<Seq<char>>::empty(),
    };
    let rm = match i.remove_tags {
        Some(t) => strs(t@),
        None => Seq::<Seq<char>>::empty(),
    };
    crate::update::lemma_add_missing_has(p.tags, add);
    crate::update::without_removes_all(add_missing(p.tags, add), rm);
    crate::update::lemma_without_keeps(add_missing(p.tags, add), rm);
}

} // verus!
