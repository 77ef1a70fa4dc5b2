//! Project configuration: its settings and defaults, where the data lives,
//! and where the configuration file is found.
use vstd::prelude::*;
use crate::error::PeasError;
use crate::markdown::FrontmatterFormat;
use crate::paths::{path_extension, path_join, path_parent, spec_path_extension, spec_path_join, spec_path_parent};
use crate::text::str_eq;
use crate::update::has_string;
use crate::model::{status_from_lower, strs, type_from_lower, PeaStatus, PeaType};
use crate::text::spec_to_lowercase;

verus! {

/// URL of the JSON Schema for peas configuration files.
pub const SCHEMA_URL: &'static str = "https://raw.githubusercontent.com/asaaki/peas/refs/heads/main/schemas/peas.json";

/// Name of the data directory.
pub const DATA_DIR: &'static str = ".peas";

/// How ticket ids are made.
#[derive(Debug, Clone, Copy, PartialEq, Eq, Structural)]
pub enum IdMode {
    /// Random alphanumeric suffix (the default).
    Random,
    /// Sequential number, zero-padded.
    Sequential,
}

impl Default for IdMode {
    fn default() -> (r: IdMode)
        ensures
            r == IdMode::Random,
    {
        IdMode::Random
    }
}

/// The `[peas]` settings.
#[derive(Debug, Clone)]
pub struct PeasSettings {
    /// Deprecated and ignored: data always lives in `.peas/`.
    pub path: Option<String>,
    pub prefix: String,
    pub id_length: usize,
    pub id_mode: IdMode,
    pub default_status: String,
    pub default_type: String,
    pub frontmatter: String,
}

/// The `[tui]` settings.
#[derive(Debug, Clone)]
pub struct TuiSettings {
    pub use_type_emojis: bool,
}

/// A project's configuration.
#[derive(Debug, Clone)]
pub struct PeasConfig {
    pub peas: PeasSettings,
    pub tui: TuiSettings,
}

/// The default id prefix.
pub fn default_prefix() -> (r: String)
    ensures
        r@ == "peas-"@,
{
    "peas-".to_owned()
}

/// The default length of an id suffix.
pub fn default_id_length() -> (r: usize)
    ensures
        r == 5,
{
    5
}

/// The default status of new tickets, by name.
pub fn default_status() -> (r: String)
    ensures
        r@ == "todo"@,
{
    "todo".to_owned()
}

/// The default type of new tickets, by name.
pub fn default_type() -> (r: String)
    ensures
        r@ == "task"@,
{
    "task".to_owned()
}

/// The default frontmatter format, by name.
pub fn default_frontmatter() -> (r: String)
    ensures
        r@ == "toml"@,
{
    "toml".to_owned()
}

/// Whether the interface shows type emojis by default.
pub fn default_use_type_emojis() -> (r: bool)
    ensures
        !r,
{
    false
}

/// The default settings.
pub open spec fn default_settings_spec(s: PeasSettings) -> bool {
    &&& s.path is None
    &&& s.prefix@ == "peas-"@
    &&& s.id_length == 5
    &&& s.id_mode == IdMode::Random
    &&& s.default_status@ == "todo"@
    &&& s.default_type@ == "task"@
    &&& s.frontmatter@ == "toml"@
}

impl Default for PeasSettings {
    fn default() -> (r: PeasSettings)
        ensures
            default_settings_spec(r),
    {
        PeasSettings {
            path: None,
            prefix: default_prefix(),
            id_length: default_id_length(),
            id_mode: IdMode::default(),
            default_status: default_status(),
            default_type: default_type(),
            frontmatter: default_frontmatter(),
        }
    }
}

impl Default for TuiSettings {
    fn default() -> (r: TuiSettings)
        ensures
            !r.use_type_emojis,
    {
        TuiSettings { use_type_emojis: default_use_type_emojis() }
    }
}

impl Default for PeasConfig {
    fn default() -> (r: PeasConfig)
        ensures
            default_settings_spec(r.peas),
            !r.tui.use_type_emojis,
    {
        PeasConfig { peas: PeasSettings::default(), tui: TuiSettings::default() }
    }
}

/// The frontmatter format a setting names: `toml` and `json` name theirs,
/// anything else YAML.
pub open spec fn format_named(s: Seq<char>) -> FrontmatterFormat {
    if s == "toml"@ {
        FrontmatterFormat::Toml
    } else if s == "json"@ {
        FrontmatterFormat::Json
    } else {
        FrontmatterFormat::Yaml
    }
}

/// The status a new ticket gets when none is given: the configured
/// `default_status` where it names a status (in any case), else `todo`.
pub open spec fn configured_status(s: PeasSettings) -> PeaStatus {
    match status_from_lower(spec_to_lowercase(s.default_status@)) {
        Some(x) => x,
        None => PeaStatus::Todo,
    }
}

/// The type a new ticket gets when none is given: the configured
/// `default_type` where it names a type (in any case), else `task`.
pub open spec fn configured_type(s: PeasSettings) -> PeaType {
    match type_from_lower(spec_to_lowercase(s.default_type@)) {
        Some(x) => x,
        None => PeaType::Task,
    }
}

impl PeasSettings {
    /// The status for new tickets that are given none.
    pub fn new_status(&self) -> (r: PeaStatus)
        ensures
            r == configured_status(*self),
    {
        match PeaStatus::parse(self.default_status.as_str()) {
            Ok(x) => x,
            Err(_) => PeaStatus::Todo,
        }
    }

    /// The type for new tickets that are given none.
    pub fn new_type(&self) -> (r: PeaType)
        ensures
            r == configured_type(*self),
    {
        match PeaType::parse(self.default_type.as_str()) {
            Ok(x) => x,
            Err(_) => PeaType::Task,
        }
    }

    /// The frontmatter format named by the settings: `toml`, `json`, or
    /// YAML for anything else.
    pub fn frontmatter_format(&self) -> (r: FrontmatterFormat)
        ensures
            r == format_named(self.frontmatter@),
    {
        if str_eq(self.frontmatter.as_str(), "toml") {
            FrontmatterFormat::Toml
        } else if str_eq(self.frontmatter.as_str(), "json") {
            FrontmatterFormat::Json
        } else {
            FrontmatterFormat::Yaml
        }
    }
}

impl PeasConfig {
    /// The data directory of a project.
    pub fn data_path(&self, project_root: &str) -> (r: String)
        ensures
            r@ == spec_path_join(project_root@, ".peas"@),
    {
        path_join(project_root, DATA_DIR)
    }

    /// The archive directory of a project.
    pub fn archive_path(&self, project_root: &str) -> (r: String)
        ensures
            r@ == spec_path_join(spec_path_join(project_root@, ".peas"@), "archive"@),
    {
        let d = self.data_path(project_root);
        path_join(d.as_str(), "archive")
    }

    /// Finds the configuration file from `start_path` upward, given which
    /// paths are directories and which files exist; returns its path and
    /// whether it is at a legacy location.
    pub fn find_config_file(start_path: &str, probe: &FsProbe) -> (r: Result<(String, bool), PeasError>)
        ensures
            match config_search(start_path@, strs(probe.dirs@), strs(probe.files@)) {
                Some((p, legacy)) => r matches Ok((q, l)) && q@ == p && l == legacy,
                None => r matches Err(e) && e == PeasError::NotInitialized,
            },
        decreases start_path@.len(),
    {
        match config_here(start_path, probe) {
            Some(found) => Ok(found),
            None => match path_parent(start_path) {
                Some(parent) => Self::find_config_file(parent.as_str(), probe),
                None => Err(PeasError::NotInitialized),
            },
        }
    }
}

// ------------------------------------------------------------ loading

/// The syntax a configuration file is read in.
#[derive(Debug, Clone, Copy, PartialEq, Eq, Structural)]
pub enum ConfigSyntax {
    Toml,
    Json,
    Yaml,
}

/// The syntax a configuration file's extension names: TOML for `toml`,
/// JSON for `json`, YAML for anything else (`yml`, `yaml`, none).
pub open spec fn syntax_of(ext: Option<Seq<char>>) -> ConfigSyntax {
    match ext {
        Some(e) => if e == "toml"@ {
            ConfigSyntax::Toml
        } else if e == "json"@ {
            ConfigSyntax::Json
        } else {
            ConfigSyntax::Yaml
        },
        None => ConfigSyntax::Yaml,
    }
}

/// The project root a configuration file belongs to: the directory holding
/// a legacy file, or the parent of the `.peas/` directory holding the
/// current one.
pub open spec fn root_of(config_path: Seq<char>, is_legacy: bool) -> Option<Seq<char>> {
    match spec_path_parent(config_path) {
        None => None,
        Some(dir) => if is_legacy {
            Some(dir)
        } else {
            spec_path_parent(dir)
        },
    }
}

impl PeasConfig {
    /// The syntax to read a configuration file in, by its extension.
    pub fn syntax_of_file(config_path: &str) -> (r: ConfigSyntax)
        ensures
            r == syntax_of(spec_path_extension(config_path@)),
    {
        match path_extension(config_path) {
            Some(e) => {
                if str_eq(e.as_str(), "toml") {
                    ConfigSyntax::Toml
                } else if str_eq(e.as_str(), "json") {
                    ConfigSyntax::Json
                } else {
                    ConfigSyntax::Yaml
                }
            },
            None => ConfigSyntax::Yaml,
        }
    }

    /// The project root of a configuration file found by
    /// `find_config_file`; an error when the path has no such parent.
    pub fn project_root(config_path: &str, is_legacy: bool) -> (r: Result<String, PeasError>)
        ensures
            match root_of(config_path@, is_legacy) {
                Some(root) => r matches Ok(x) && x@ == root,
                None => r matches Err(e) && e matches PeasError::Config(m)
                    && m@ == "Config file has no parent directory"@,
            },
    {
        let no_parent = "Config file has no parent directory";
        match path_parent(config_path) {
            None => Err(PeasError::Config(no_parent.to_owned())),
            Some(dir) => {
                if is_legacy {
                    Ok(dir)
                } else {
                    match path_parent(dir.as_str()) {
                        Some(root) => Ok(root),
                        None => Err(PeasError::Config(no_parent.to_owned())),
                    }
                }
            },
        }
    }
}

// ------------------------------------------------------------ search

/// What is known of the file system: the paths that are directories and
/// the files that exist.
pub struct FsProbe {
    pub dirs: Vec<String>,
    pub files: Vec<String>,
}

/// The configuration file names inside `.peas/`, in order of preference.
pub open spec fn new_names() -> Seq<Seq<char>> {
    seq!["config.toml"@, "config.yml"@, "config.yaml"@, "config.json"@]
}

/// The legacy configuration file names, in order of preference.
pub open spec fn legacy_names() -> Seq<Seq<char>> {
    seq![".peas.toml"@, ".peas.yml"@, ".peas.yaml"@, ".peas.json"@]
}

/// The first of `names` that exists in `dir`, from position `k` on.
pub open spec fn first_existing(dir: Seq<char>, names: Seq<Seq<char>>, files: Seq<Seq<char>>, k: int) -> Option<Seq<char>>
    decreases names.len() - k,
{
    if k >= names.len() || k < 0 {
        None
    } else if files.contains(spec_path_join(dir, names[k])) {
        Some(spec_path_join(dir, names[k]))
    } else {
        first_existing(dir, names, files, k + 1)
    }
}

/// The configuration file of `dir` itself: one inside `.peas/` when that
/// is a directory, else a legacy one.
pub open spec fn config_at(dir: Seq<char>, dirs: Seq<Seq<char>>, files: Seq<Seq<char>>) -> Option<(Seq<char>, bool)> {
    let peas = spec_path_join(dir, ".peas"@);
    let fresh = if dirs.contains(peas) {
        first_existing(peas, new_names(), files, 0)
    } else {
        None
    };
    match fresh {
        Some(p) => Some((p, false)),
        None => match first_existing(dir, legacy_names(), files, 0) {
            Some(p) => Some((p, true)),
            None => None,
        },
    }
}

/// The configuration file found from `dir` upward, with whether it is at
/// a legacy location.
pub open spec fn config_search(dir: Seq<char>, dirs: Seq<Seq<char>>, files: Seq<Seq<char>>) -> Option<(Seq<char>, bool)>
    decreases dir.len(),
{
    match config_at(dir, dirs, files) {
        Some(x) => Some(x),
        None => match spec_path_parent(dir) {
            Some(p) => if p.len() < dir.len() {
                config_search(p, dirs, files)
            } else {
                None
            },
            None => None,
        },
    }
}

fn name_at(legacy: bool, k: usize) -> (r: &'static str)
    requires
        k < 4,
    ensures
        r@ == if legacy {
            legacy_names()[k as int]
        } else {
            new_names()[k as int]
        },
{
    if legacy {
        if k == 0 {
            ".peas.toml"
        } else if k == 1 {
            ".peas.yml"
        } else if k == 2 {
            ".peas.yaml"
        } else {
            ".peas.json"
        }
    } else {
        if k == 0 {
            "config.toml"
        } else if k == 1 {
            "config.yml"
        } else if k == 2 {
            "config.yaml"
        } else {
            "config.json"
        }
    }
}

fn find_existing(dir: &str, legacy: bool, probe: &FsProbe) -> (r: Option<String>)
    ensures
        match first_existing(dir@, if legacy { legacy_names() } else { new_names() }, strs(probe.files@), 0) {
            Some(p) => r matches Some(q) && q@ == p,
            None => r is None,
        },
{
    let ghost names = if legacy {
        legacy_names()
    } else {
        new_names()
    };
    let mut k: usize = 0;
    while k < 4
        invariant
            k <= 4,
            names == if legacy { legacy_names() } else { new_names() },
            first_existing(dir@, names, strs(probe.files@), 0) == first_existing(
                dir@,
                names,
                strs(probe.files@),
                k as int,
            ),
        decreases 4 - k,
    {
        let candidate = path_join(dir, name_at(legacy, k));
        if has_string(&probe.files, candidate.as_str()) {
            return Some(candidate);
        }
        k = k + 1;
    }
    None
}

fn config_here(dir: &str, probe: &FsProbe) -> (r: Option<(String, bool)>)
    ensures
        match config_at(dir@, strs(probe.dirs@), strs(probe.files@)) {
            Some((p, legacy)) => r matches Some((q, l)) && q@ == p && l == legacy,
            None => r is None,
        },
{
    let peas = path_join(dir, DATA_DIR);
    if has_string(&probe.dirs, peas.as_str()) {
        match find_existing(peas.as_str(), false, probe) {
            Some(p) => {
                return Some((p, false));
            },
            None => {},
        }
    }
    match find_existing(dir, true, probe) {
        Some(p) => Some((p, true)),
        None => None,
    }
}

} // verus!
