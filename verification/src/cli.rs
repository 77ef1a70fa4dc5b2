//! The values the command line hands to the library: argument enums,
//! subcommand actions, templates and the parameter sets of the commands.
use vstd::prelude::*;
use vstd::std_specs::convert::FromSpecImpl;
use crate::model::{PeaPriority, PeaStatus, PeaType};

verus! {

/// A ticket type as given on the command line.
#[derive(Clone, Copy, Debug, PartialEq, Eq, Structural)]
pub enum PeaTypeArg {
    Milestone,
    Epic,
    Story,
    Feature,
    Bug,
    Chore,
    Research,
    Task,
}

/// The ticket type an argument names.
pub open spec fn arg_type(a: PeaTypeArg) -> PeaType {
    match a {
        PeaTypeArg::Milestone => PeaType::Milestone,
        PeaTypeArg::Epic => PeaType::Epic,
        PeaTypeArg::Story => PeaType::Story,
        PeaTypeArg::Feature => PeaType::Feature,
        PeaTypeArg::Bug => PeaType::Bug,
        PeaTypeArg::Chore => PeaType::Chore,
        PeaTypeArg::Research => PeaType::Research,
        PeaTypeArg::Task => PeaType::Task,
    }
}

impl From<PeaTypeArg> for PeaType {
    fn from(arg: PeaTypeArg) -> (r: PeaType) {
        match arg {
            PeaTypeArg::Milestone => PeaType::Milestone,
            PeaTypeArg::Epic => PeaType::Epic,
            PeaTypeArg::Story => PeaType::Story,
            PeaTypeArg::Feature => PeaType::Feature,
            PeaTypeArg::Bug => PeaType::Bug,
            PeaTypeArg::Chore => PeaType::Chore,
            PeaTypeArg::Research => PeaType::Research,
            PeaTypeArg::Task => PeaType::Task,
        }
    }
}

impl FromSpecImpl<PeaTypeArg> for PeaType {
    open spec fn obeys_from_spec() -> bool {
        true
    }

    open spec fn from_spec(v: PeaTypeArg) -> PeaType {
        arg_type(v)
    }
}

/// A status as given on the command line.
#[derive(Clone, Copy, Debug, PartialEq, Eq, Structural)]
pub enum PeaStatusArg {
    Draft,
    Todo,
    InProgress,
    Completed,
    Scrapped,
}

/// The status an argument names.
pub open spec fn arg_status(a: PeaStatusArg) -> PeaStatus {
    match a {
        PeaStatusArg::Draft => PeaStatus::Draft,
        PeaStatusArg::Todo => PeaStatus::Todo,
        PeaStatusArg::InProgress => PeaStatus::InProgress,
        PeaStatusArg::Completed => PeaStatus::Completed,
        PeaStatusArg::Scrapped => PeaStatus::Scrapped,
    }
}

impl From<PeaStatusArg> for PeaStatus {
    fn from(arg: PeaStatusArg) -> (r: PeaStatus) {
        match arg {
            PeaStatusArg::Draft => PeaStatus::Draft,
            PeaStatusArg::Todo => PeaStatus::Todo,
            PeaStatusArg::InProgress => PeaStatus::InProgress,
            PeaStatusArg::Completed => PeaStatus::Completed,
            PeaStatusArg::Scrapped => PeaStatus::Scrapped,
        }
    }
}

impl FromSpecImpl<PeaStatusArg> for PeaStatus {
    open spec fn obeys_from_spec() -> bool {
        true
    }

    open spec fn from_spec(v: PeaStatusArg) -> PeaStatus {
        arg_status(v)
    }
}

/// A priority as given on the command line.
#[derive(Clone, Copy, Debug, PartialEq, Eq, Structural)]
pub enum PeaPriorityArg {
    Critical,
    High,
    Normal,
    Low,
    Deferred,
}

/// The priority an argument names.
pub open spec fn arg_priority(a: PeaPriorityArg) -> PeaPriority {
    match a {
        PeaPriorityArg::Critical => PeaPriority::Critical,
        PeaPriorityArg::High => PeaPriority::High,
        PeaPriorityArg::Normal => PeaPriority::Normal,
        PeaPriorityArg::Low => PeaPriority::Low,
        PeaPriorityArg::Deferred => PeaPriority::Deferred,
    }
}

impl From<PeaPriorityArg> for PeaPriority {
    fn from(arg: PeaPriorityArg) -> (r: PeaPriority) {
        match arg {
            PeaPriorityArg::Critical => PeaPriority::Critical,
            PeaPriorityArg::High => PeaPriority::High,
            PeaPriorityArg::Normal => PeaPriority::Normal,
            PeaPriorityArg::Low => PeaPriority::Low,
            PeaPriorityArg::Deferred => PeaPriority::Deferred,
        }
    }
}

impl FromSpecImpl<PeaPriorityArg> for PeaPriority {
    open spec fn obeys_from_spec() -> bool {
        true
    }

    open spec fn from_spec(v: PeaPriorityArg) -> PeaPriority {
        arg_priority(v)
    }
}

/// The optional status argument, converted.
pub open spec fn opt_status(a: Option<PeaStatusArg>) -> Option<PeaStatus> {
    match a {
        Some(s) => Some(arg_status(s)),
        None => None,
    }
}

/// The optional priority argument, converted.
pub open spec fn opt_priority(a: Option<PeaPriorityArg>) -> Option<PeaPriority> {
    match a {
        Some(p) => Some(arg_priority(p)),
        None => None,
    }
}

/// The optional type argument, converted.
pub open spec fn opt_type(a: Option<PeaTypeArg>) -> Option<PeaType> {
    match a {
        Some(t) => Some(arg_type(t)),
        None => None,
    }
}

/// Converts an optional status argument.
pub fn status_of(a: Option<PeaStatusArg>) -> (r: Option<PeaStatus>)
    ensures
        r == opt_status(a),
{
    match a {
        Some(s) => Some(PeaStatus::from(s)),
        None => None,
    }
}

/// Converts an optional priority argument.
pub fn priority_of(a: Option<PeaPriorityArg>) -> (r: Option<PeaPriority>)
    ensures
        r == opt_priority(a),
{
    match a {
        Some(p) => Some(PeaPriority::from(p)),
        None => None,
    }
}

/// Converts an optional type argument.
pub fn type_of(a: Option<PeaTypeArg>) -> (r: Option<PeaType>)
    ensures
        r == opt_type(a),
{
    match a {
        Some(t) => Some(PeaType::from(t)),
        None => None,
    }
}

// ---------------------------------------------------------------- templates

/// Built-in templates for common ticket patterns.
#[derive(Clone, Copy, Debug, PartialEq, Eq, Structural)]
pub enum TemplateArg {
    /// Bug report with high priority
    Bug,
    /// Feature request with normal priority
    Feature,
    /// Epic for grouping related features
    Epic,
    /// Milestone for major releases
    Milestone,
    /// Chore/maintenance task
    Chore,
    /// Research/investigation task
    Research,
}

/// Template settings applied during creation.
pub struct TemplateSettings {
    pub pea_type: PeaType,
    pub priority: Option<PeaPriority>,
    pub status: Option<PeaStatus>,
    pub tags: Vec<String>,
    pub body_template: Option<&'static str>,
}

/// The type a template gives.
pub open spec fn template_type(t: TemplateArg) -> PeaType {
    match t {
        TemplateArg::Bug => PeaType::Bug,
        TemplateArg::Feature => PeaType::Feature,
        TemplateArg::Epic => PeaType::Epic,
        TemplateArg::Milestone => PeaType::Milestone,
        TemplateArg::Chore => PeaType::Chore,
        TemplateArg::Research => PeaType::Research,
    }
}

/// The priority a template gives.
pub open spec fn template_priority(t: TemplateArg) -> PeaPriority {
    match t {
        TemplateArg::Bug => PeaPriority::High,
        TemplateArg::Chore => PeaPriority::Low,
        _ => PeaPriority::Normal,
    }
}

/// The status a template gives, if any: epics and milestones start as drafts.
pub open spec fn template_status(t: TemplateArg) -> Option<PeaStatus> {
    match t {
        TemplateArg::Epic | TemplateArg::Milestone => Some(PeaStatus::Draft),
        _ => None,
    }
}

/// The tags a template gives.
pub open spec fn template_tags(t: TemplateArg) -> Seq<Seq<char>> {
    match t {
        TemplateArg::Bug => seq!["bug"@],
        TemplateArg::Feature => seq!["feature"@],
        TemplateArg::Chore => seq!["chore"@],
        TemplateArg::Research => seq!["research"@],
        _ => seq![],
    }
}

/// The body a template starts from, if any.
pub open spec fn template_body(t: TemplateArg) -> Option<Seq<char>> {
    match t {
        TemplateArg::Bug => Some(
            "## Description\n\n## Steps to Reproduce\n1. \n2. \n3. \n\n## Expected Behavior\n\n## Actual Behavior\n"@,
        ),
        TemplateArg::Feature => Some(
            "## Description\n\n## Acceptance Criteria\n- [ ] \n- [ ] \n\n## Notes\n"@,
        ),
        TemplateArg::Epic => Some("## Overview\n\n## Goals\n- \n\n## Success Metrics\n"@),
        TemplateArg::Milestone => Some(
            "## Description\n\n## Target Date\n\n## Key Deliverables\n- \n"@,
        ),
        TemplateArg::Chore => None,
        TemplateArg::Research => Some("## Question\n\n## Background\n\n## Findings\n"@),
    }
}

/// The view of an optional static string.
pub open spec fn opt_static(o: Option<&'static str>) -> Option<Seq<char>> {
    match o {
        Some(s) => Some(s@),
        None => None,
    }
}

fn one_tag(t: &str) -> (r: Vec<String>)
    ensures
        r@.len() == 1,
        r@[0]@ == t@,
{
    let mut v: Vec<String> = Vec::new();
    v.push(t.to_owned());
    v
}

impl TemplateArg {
    /// The settings this template applies.
    pub fn settings(&self) -> (r: TemplateSettings)
        ensures
            r.pea_type == template_type(*self),
            r.priority == Some(template_priority(*self)),
            r.status == template_status(*self),
            r.tags@.map_values(|s: String| s@) == template_tags(*self),
            opt_static(r.body_template) == template_body(*self),
    {
        let r = match self {
            TemplateArg::Bug => TemplateSettings {
                pea_type: PeaType::Bug,
                priority: Some(PeaPriority::High),
                status: None,
                tags: one_tag("bug"),
                body_template: Some(
                    "## Description\n\n## Steps to Reproduce\n1. \n2. \n3. \n\n## Expected Behavior\n\n## Actual Behavior\n",
                ),
            },
            TemplateArg::Feature => TemplateSettings {
                pea_type: PeaType::Feature,
                priority: Some(PeaPriority::Normal),
                status: None,
                tags: one_tag("feature"),
                body_template: Some(
                    "## Description\n\n## Acceptance Criteria\n- [ ] \n- [ ] \n\n## Notes\n",
                ),
            },
            TemplateArg::Epic => TemplateSettings {
                pea_type: PeaType::Epic,
                priority: Some(PeaPriority::Normal),
                status: Some(PeaStatus::Draft),
                tags: Vec::new(),
                body_template: Some("## Overview\n\n## Goals\n- \n\n## Success Metrics\n"),
            },
            TemplateArg::Milestone => TemplateSettings {
                pea_type: PeaType::Milestone,
                priority: Some(PeaPriority::Normal),
                status: Some(PeaStatus::Draft),
                tags: Vec::new(),
                body_template: Some(
                    "## Description\n\n## Target Date\n\n## Key Deliverables\n- \n",
                ),
            },
            TemplateArg::Chore => TemplateSettings {
                pea_type: PeaType::Chore,
                priority: Some(PeaPriority::Low),
                status: None,
                tags: one_tag("chore"),
                body_template: None,
            },
            TemplateArg::Research => TemplateSettings {
                pea_type: PeaType::Research,
                priority: Some(PeaPriority::Normal),
                status: None,
                tags: one_tag("research"),
                body_template: Some("## Question\n\n## Background\n\n## Findings\n"),
            },
        };
        assert(r.tags@.map_values(|s: String| s@) =~= template_tags(*self));
        r
    }
}

// ------------------------------------------------------------ subcommands

/// The bulk operations.
#[allow(inconsistent_fields)]
pub enum BulkAction {
    /// Set status of multiple peas
    Status { status: PeaStatusArg, ids: Vec<String>, json: bool },
    /// Start multiple peas (set to in-progress)
    Start { ids: Vec<String>, json: bool },
    /// Complete multiple peas (set to completed)
    Done { ids: Vec<String>, json: bool },
    /// Add a tag to multiple peas
    Tag { tag: String, ids: Vec<String>, json: bool },
    /// Set parent of multiple peas
    Parent { parent: String, ids: Vec<String>, json: bool },
    /// Create multiple peas at once (titles one per line)
    Create {
        pea_type: Option<PeaTypeArg>,
        parent: Option<String>,
        tag: Vec<String>,
        priority: Option<PeaPriorityArg>,
        status: Option<PeaStatusArg>,
        json: bool,
        dry_run: bool,
    },
}

/// The memory operations.
#[allow(inconsistent_fields)]
pub enum MemoryAction {
    /// Save or update a memory entry
    Save { key: String, content: String, tag: Vec<String>, json: bool },
    /// Query a memory entry by key
    Query { key: String, json: bool },
    /// List all memory entries
    List { tag: Option<String>, json: bool },
    /// Edit a memory entry in $EDITOR
    Edit { key: String },
    /// Delete a memory entry
    Delete { key: String, json: bool },
}

/// The asset operations.
#[allow(inconsistent_fields)]
pub enum AssetAction {
    /// Add an asset to a ticket
    Add { ticket_id: String, file: String, json: bool },
    /// List all assets for a ticket
    List { ticket_id: String, json: bool },
    /// Remove an asset from a ticket
    Remove { ticket_id: String, filename: String, force: bool, json: bool },
    /// Open an asset in the default application
    Open { ticket_id: String, filename: String },
}

/// The filters of `peas list`.
pub struct ListParams {
    pub pea_type: Option<PeaTypeArg>,
    pub status: Option<PeaStatusArg>,
    pub priority: Option<PeaPriorityArg>,
    pub parent: Option<String>,
    pub tag: Option<String>,
    pub archived: bool,
    pub json: bool,
}

/// The target, filters and switches of `peas archive`.
pub struct ArchiveParams {
    pub id: Option<String>,
    pub status: Option<PeaStatusArg>,
    pub pea_type: Option<PeaTypeArg>,
    pub priority: Option<PeaPriorityArg>,
    pub tag: Option<String>,
    pub older_than: Option<String>,
    pub recursive: bool,
    pub keep_assets: bool,
    pub confirm: bool,
    pub dry_run: bool,
    pub json: bool,
}

/// The command line: a command and the options every command takes.
pub struct Cli {
    pub command: Commands,
    /// Path to the configuration file (searched upward by default).
    pub config: Option<String>,
    /// Path to the data directory (deprecated and ignored).
    pub peas_path: Option<String>,
    /// Verbose logging.
    pub verbose: bool,
    /// A file to write logs to.
    pub log_file: Option<String>,
}

/// The commands.
#[allow(inconsistent_fields)]
pub enum Commands {
    /// Initialize a new peas project
    Init { prefix: String, id_length: usize },
    /// Create a new pea
    Create {
        title: String,
        pea_type: Option<PeaTypeArg>,
        status: Option<PeaStatusArg>,
        priority: Option<PeaPriorityArg>,
        body: Option<String>,
        body_file: Option<String>,
        parent: Option<String>,
        blocking: Vec<String>,
        tag: Vec<String>,
        template: Option<TemplateArg>,
        json: bool,
        dry_run: bool,
    },
    /// Show a pea's details
    Show { id: String, json: bool },
    /// List peas
    List {
        pea_type: Option<PeaTypeArg>,
        status: Option<PeaStatusArg>,
        priority: Option<PeaPriorityArg>,
        parent: Option<String>,
        tag: Option<String>,
        archived: bool,
        json: bool,
    },
    /// Update a pea
    Update {
        id: String,
        title: Option<String>,
        pea_type: Option<PeaTypeArg>,
        status: Option<PeaStatusArg>,
        priority: Option<PeaPriorityArg>,
        body: Option<String>,
        parent: Option<String>,
        add_tag: Vec<String>,
        remove_tag: Vec<String>,
        add_blocks: Vec<String>,
        remove_blocks: Vec<String>,
        add_blocked_by: Vec<String>,
        remove_blocked_by: Vec<String>,
        json: bool,
        dry_run: bool,
    },
    /// Archive peas
    Archive {
        id: Option<String>,
        status: Option<PeaStatusArg>,
        pea_type: Option<PeaTypeArg>,
        priority: Option<PeaPriorityArg>,
        tag: Option<String>,
        older_than: Option<String>,
        recursive: bool,
        keep_assets: bool,
        confirm: bool,
        dry_run: bool,
        json: bool,
    },
    /// Delete a pea permanently
    Delete { id: String, force: bool, json: bool },
    /// Search peas
    Search { query: String, json: bool },
    /// Mark a pea as in-progress
    Start { id: String, json: bool },
    /// Mark a pea as completed
    Done { id: String, json: bool },
    /// Rename a pea's id
    Mv { old_suffix: String, new_suffix: String, force: bool },
    /// Run a GraphQL query
    Query { query: String, variables: Option<String> },
    /// Run a GraphQL mutation
    Mutate { mutation: String, variables: Option<String> },
    /// Start the GraphQL server
    Serve { port: u16 },
    /// Print instructions for agents
    Prime,
    /// Print project context as JSON
    Context,
    /// Suggest the next ticket to work on
    Suggest { json: bool, limit: usize },
    /// Show the roadmap
    Roadmap,
    /// Import beans files
    ImportBeans { path: String, dry_run: bool },
    /// Export peas as beans files
    ExportBeans { output: String },
    /// Bulk operations
    Bulk { action: BulkAction },
    /// Memory operations
    Memory { action: MemoryAction },
    /// Asset operations
    Asset { action: AssetAction },
    /// Check the project for problems
    Doctor { fix: bool },
    /// Move a legacy configuration to `.peas/config.toml`
    Migrate { dry_run: bool },
}

impl Commands {
    /// Whether the command works on a project's configuration: all but
    /// `init`, `migrate` and `doctor`, which look at the working directory
    /// themselves.
    pub fn needs_config(&self) -> (r: bool)
        ensures
            r == !(self is Init || self is Migrate || self is Doctor),
    {
        match self {
            Commands::Init { .. } | Commands::Migrate { .. } | Commands::Doctor { .. } => false,
            _ => true,
        }
    }
}

} // verus!
