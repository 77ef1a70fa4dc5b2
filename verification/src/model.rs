//! The data model: pea types, statuses, priorities, timestamps, peas and
//! memories.
use vstd::prelude::*;
use crate::error::PeasError;
use crate::text::{decimal, decimal_chars, pad_left_zeros, pad_zeros, string_of, ascii_lower, clone_opt, clone_strings, concat, is_ascii_seq, owned, spec_to_lowercase, str_eq, to_lowercase};

verus! {

// ---------------------------------------------------------------- PeaType

/// The type of a pea (issue/ticket).
#[derive(Debug, Clone, Copy, PartialEq, Eq, Structural)]
pub enum PeaType {
    Milestone,
    Epic,
    Story,
    Feature,
    Bug,
    Chore,
    Research,
    Task,
}

/// The lowercase name of a pea type, as it is shown and stored.
pub open spec fn pea_type_name(t: PeaType) -> Seq<char> {
    match t {
        PeaType::Milestone => "milestone"@,
        PeaType::Epic => "epic"@,
        PeaType::Story => "story"@,
        PeaType::Feature => "feature"@,
        PeaType::Bug => "bug"@,
        PeaType::Chore => "chore"@,
        PeaType::Research => "research"@,
        PeaType::Task => "task"@,
    }
}

/// The type a lowercased name denotes; `"spike"` is an alias for research.
pub open spec fn type_from_lower(s: Seq<char>) -> Option<PeaType> {
    if s == "milestone"@ {
        Some(PeaType::Milestone)
    } else if s == "epic"@ {
        Some(PeaType::Epic)
    } else if s == "story"@ {
        Some(PeaType::Story)
    } else if s == "feature"@ {
        Some(PeaType::Feature)
    } else if s == "bug"@ {
        Some(PeaType::Bug)
    } else if s == "chore"@ {
        Some(PeaType::Chore)
    } else if s == "research"@ || s == "spike"@ {
        Some(PeaType::Research)
    } else if s == "task"@ {
        Some(PeaType::Task)
    } else {
        None
    }
}

/// `r` is the outcome of parsing `s` when `found` is what its lowercase
/// denotes: the value, or a parse error whose message is `what` then `s`.
pub open spec fn parsed_as<T>(r: Result<T, PeasError>, found: Option<T>, what: Seq<char>, s: Seq<
    char,
>) -> bool {
    match found {
        Some(v) => r == Ok::<T, PeasError>(v),
        None => r matches Err(PeasError::Parse(m)) && m@ == what + s,
    }
}

impl PeaType {
    /// The lowercase name of this type.
    pub fn as_str(&self) -> (r: &'static str)
        ensures
            r@ == pea_type_name(*self),
    {
        match self {
            PeaType::Milestone => "milestone",
            PeaType::Epic => "epic",
            PeaType::Story => "story",
            PeaType::Feature => "feature",
            PeaType::Bug => "bug",
            PeaType::Chore => "chore",
            PeaType::Research => "research",
            PeaType::Task => "task",
        }
    }

    /// The lowercase name of this type, as a string (what `Display` shows).
    pub fn to_string(&self) -> (r: String)
        ensures
            r@ == pea_type_name(*self),
    {
        owned(self.as_str())
    }

    /// Parses `s`, given its lowercase `lower`.
    pub fn parse_lowered(s: &str, lower: &str) -> (r: Result<PeaType, PeasError>)
        ensures
            parsed_as(r, type_from_lower(lower@), "Invalid pea type: "@, s@),
    {
        let found = if str_eq(lower, "milestone") {
            Some(PeaType::Milestone)
        } else if str_eq(lower, "epic") {
            Some(PeaType::Epic)
        } else if str_eq(lower, "story") {
            Some(PeaType::Story)
        } else if str_eq(lower, "feature") {
            Some(PeaType::Feature)
        } else if str_eq(lower, "bug") {
            Some(PeaType::Bug)
        } else if str_eq(lower, "chore") {
            Some(PeaType::Chore)
        } else if str_eq(lower, "research") || str_eq(lower, "spike") {
            Some(PeaType::Research)
        } else if str_eq(lower, "task") {
            Some(PeaType::Task)
        } else {
            None
        };
        match found {
            Some(t) => Ok(t),
            None => Err(PeasError::Parse(concat("Invalid pea type: ", s))),
        }
    }

    /// Parses a pea type, ignoring case.
    pub fn parse(s: &str) -> (r: Result<PeaType, PeasError>)
        ensures
            parsed_as(r, type_from_lower(spec_to_lowercase(s@)), "Invalid pea type: "@, s@),
            is_ascii_seq(s@) ==> parsed_as(r, type_from_lower(ascii_lower(s@)), "Invalid pea type: "@, s@),
    {
        let lower = to_lowercase(s);
        PeaType::parse_lowered(s, lower.as_str())
    }

    /// The default type, `Task`.
    pub fn default_type() -> (r: PeaType)
        ensures
            r == PeaType::Task,
    {
        PeaType::Task
    }
}

impl Default for PeaType {
    fn default() -> (r: PeaType)
        ensures
            r == PeaType::Task,
    {
        PeaType::Task
    }
}

impl std::str::FromStr for PeaType {
    type Err = PeasError;

    fn from_str(s: &str) -> (r: Result<PeaType, PeasError>)
        ensures
            parsed_as(r, type_from_lower(spec_to_lowercase(s@)), "Invalid pea type: "@, s@),
            is_ascii_seq(s@) ==> parsed_as(r, type_from_lower(ascii_lower(s@)), "Invalid pea type: "@, s@),
    {
        PeaType::parse(s)
    }
}

// -------------------------------------------------------------- PeaStatus

/// The workflow status of a pea.
#[derive(Debug, Clone, Copy, PartialEq, Eq, Structural)]
pub enum PeaStatus {
    Draft,
    Todo,
    InProgress,
    Completed,
    Scrapped,
}

/// The name of a status, as it is shown and stored.
pub open spec fn status_name(s: PeaStatus) -> Seq<char> {
    match s {
        PeaStatus::Draft => "draft"@,
        PeaStatus::Todo => "todo"@,
        PeaStatus::InProgress => "in-progress"@,
        PeaStatus::Completed => "completed"@,
        PeaStatus::Scrapped => "scrapped"@,
    }
}

/// The status a lowercased name denotes, with its aliases.
pub open spec fn status_from_lower(s: Seq<char>) -> Option<PeaStatus> {
    if s == "draft"@ {
        Some(PeaStatus::Draft)
    } else if s == "todo"@ {
        Some(PeaStatus::Todo)
    } else if s == "in-progress"@ || s == "inprogress"@ || s == "in_progress"@ {
        Some(PeaStatus::InProgress)
    } else if s == "completed"@ || s == "done"@ {
        Some(PeaStatus::Completed)
    } else if s == "scrapped"@ || s == "cancelled"@ || s == "canceled"@ {
        Some(PeaStatus::Scrapped)
    } else {
        None
    }
}

impl PeaStatus {
    /// The name of this status.
    pub fn as_str(&self) -> (r: &'static str)
        ensures
            r@ == status_name(*self),
    {
        match self {
            PeaStatus::Draft => "draft",
            PeaStatus::Todo => "todo",
            PeaStatus::InProgress => "in-progress",
            PeaStatus::Completed => "completed",
            PeaStatus::Scrapped => "scrapped",
        }
    }

    /// The name of this status, as a string (what `Display` shows).
    pub fn to_string(&self) -> (r: String)
        ensures
            r@ == status_name(*self),
    {
        owned(self.as_str())
    }

    /// Parses `s`, given its lowercase `lower`.
    pub fn parse_lowered(s: &str, lower: &str) -> (r: Result<PeaStatus, PeasError>)
        ensures
            parsed_as(r, status_from_lower(lower@), "Invalid pea status: "@, s@),
    {
        let found = if str_eq(lower, "draft") {
            Some(PeaStatus::Draft)
        } else if str_eq(lower, "todo") {
            Some(PeaStatus::Todo)
        } else if str_eq(lower, "in-progress") || str_eq(lower, "inprogress") || str_eq(
            lower,
            "in_progress",
        ) {
            Some(PeaStatus::InProgress)
        } else if str_eq(lower, "completed") || str_eq(lower, "done") {
            Some(PeaStatus::Completed)
        } else if str_eq(lower, "scrapped") || str_eq(lower, "cancelled") || str_eq(
            lower,
            "canceled",
        ) {
            Some(PeaStatus::Scrapped)
        } else {
            None
        };
        match found {
            Some(t) => Ok(t),
            None => Err(PeasError::Parse(concat("Invalid pea status: ", s))),
        }
    }

    /// Parses a status, ignoring case.
    pub fn parse(s: &str) -> (r: Result<PeaStatus, PeasError>)
        ensures
            parsed_as(r, status_from_lower(spec_to_lowercase(s@)), "Invalid pea status: "@, s@),
            is_ascii_seq(s@) ==> parsed_as(r, status_from_lower(ascii_lower(s@)), "Invalid pea status: "@, s@),
    {
        let lower = to_lowercase(s);
        PeaStatus::parse_lowered(s, lower.as_str())
    }

    /// Whether the status counts as open: draft, todo or in progress.
    pub fn is_open(&self) -> (r: bool)
        ensures
            r == status_is_open(*self),
    {
        match self {
            PeaStatus::Draft | PeaStatus::Todo | PeaStatus::InProgress => true,
            _ => false,
        }
    }

    /// Whether the status counts as closed: completed or scrapped.
    pub fn is_closed(&self) -> (r: bool)
        ensures
            r == !status_is_open(*self),
    {
        match self {
            PeaStatus::Completed | PeaStatus::Scrapped => true,
            _ => false,
        }
    }
}

/// Draft, todo and in-progress peas are open; the others are closed.
pub open spec fn status_is_open(s: PeaStatus) -> bool {
    s == PeaStatus::Draft || s == PeaStatus::Todo || s == PeaStatus::InProgress
}

impl Default for PeaStatus {
    fn default() -> (r: PeaStatus)
        ensures
            r == PeaStatus::Todo,
    {
        PeaStatus::Todo
    }
}

impl std::str::FromStr for PeaStatus {
    type Err = PeasError;

    fn from_str(s: &str) -> (r: Result<PeaStatus, PeasError>)
        ensures
            parsed_as(r, status_from_lower(spec_to_lowercase(s@)), "Invalid pea status: "@, s@),
            is_ascii_seq(s@) ==> parsed_as(r, status_from_lower(ascii_lower(s@)), "Invalid pea status: "@, s@),
    {
        PeaStatus::parse(s)
    }
}

// ------------------------------------------------------------ PeaPriority

/// The priority of a pea.
#[derive(Debug, Clone, Copy, PartialEq, Eq, Structural)]
pub enum PeaPriority {
    Critical,
    High,
    Normal,
    Low,
    Deferred,
}

/// The name of a priority, as it is shown and stored.
pub open spec fn priority_name(p: PeaPriority) -> Seq<char> {
    match p {
        PeaPriority::Critical => "critical"@,
        PeaPriority::High => "high"@,
        PeaPriority::Normal => "normal"@,
        PeaPriority::Low => "low"@,
        PeaPriority::Deferred => "deferred"@,
    }
}

/// The priority a lowercased name denotes, with the short forms `p0`..`p4`.
pub open spec fn priority_from_lower(s: Seq<char>) -> Option<PeaPriority> {
    if s == "critical"@ || s == "p0"@ {
        Some(PeaPriority::Critical)
    } else if s == "high"@ || s == "p1"@ {
        Some(PeaPriority::High)
    } else if s == "normal"@ || s == "p2"@ {
        Some(PeaPriority::Normal)
    } else if s == "low"@ || s == "p3"@ {
        Some(PeaPriority::Low)
    } else if s == "deferred"@ || s == "p4"@ {
        Some(PeaPriority::Deferred)
    } else {
        None
    }
}

/// The rank of a priority, most urgent first.
pub open spec fn priority_rank(p: PeaPriority) -> nat {
    match p {
        PeaPriority::Critical => 0,
        PeaPriority::High => 1,
        PeaPriority::Normal => 2,
        PeaPriority::Low => 3,
        PeaPriority::Deferred => 4,
    }
}

impl PeaPriority {
    /// The name of this priority.
    pub fn as_str(&self) -> (r: &'static str)
        ensures
            r@ == priority_name(*self),
    {
        match self {
            PeaPriority::Critical => "critical",
            PeaPriority::High => "high",
            PeaPriority::Normal => "normal",
            PeaPriority::Low => "low",
            PeaPriority::Deferred => "deferred",
        }
    }

    /// The name of this priority, as a string (what `Display` shows).
    pub fn to_string(&self) -> (r: String)
        ensures
            r@ == priority_name(*self),
    {
        owned(self.as_str())
    }

    /// The rank of this priority, most urgent first.
    pub fn rank(&self) -> (r: u8)
        ensures
            r == priority_rank(*self),
    {
        match self {
            PeaPriority::Critical => 0,
            PeaPriority::High => 1,
            PeaPriority::Normal => 2,
            PeaPriority::Low => 3,
            PeaPriority::Deferred => 4,
        }
    }

    /// Parses `s`, given its lowercase `lower`.
    pub fn parse_lowered(s: &str, lower: &str) -> (r: Result<PeaPriority, PeasError>)
        ensures
            parsed_as(r, priority_from_lower(lower@), "Invalid priority: "@, s@),
    {
        let found = if str_eq(lower, "critical") || str_eq(lower, "p0") {
            Some(PeaPriority::Critical)
        } else if str_eq(lower, "high") || str_eq(lower, "p1") {
            Some(PeaPriority::High)
        } else if str_eq(lower, "normal") || str_eq(lower, "p2") {
            Some(PeaPriority::Normal)
        } else if str_eq(lower, "low") || str_eq(lower, "p3") {
            Some(PeaPriority::Low)
        } else if str_eq(lower, "deferred") || str_eq(lower, "p4") {
            Some(PeaPriority::Deferred)
        } else {
            None
        };
        match found {
            Some(t) => Ok(t),
            None => Err(PeasError::Parse(concat("Invalid priority: ", s))),
        }
    }

    /// Parses a priority, ignoring case.
    pub fn parse(s: &str) -> (r: Result<PeaPriority, PeasError>)
        ensures
            parsed_as(r, priority_from_lower(spec_to_lowercase(s@)), "Invalid priority: "@, s@),
            is_ascii_seq(s@) ==> parsed_as(r, priority_from_lower(ascii_lower(s@)), "Invalid priority: "@, s@),
    {
        let lower = to_lowercase(s);
        PeaPriority::parse_lowered(s, lower.as_str())
    }
}

impl Default for PeaPriority {
    fn default() -> (r: PeaPriority)
        ensures
            r == PeaPriority::Normal,
    {
        PeaPriority::Normal
    }
}

impl std::str::FromStr for PeaPriority {
    type Err = PeasError;

    fn from_str(s: &str) -> (r: Result<PeaPriority, PeasError>)
        ensures
            parsed_as(r, priority_from_lower(spec_to_lowercase(s@)), "Invalid priority: "@, s@),
            is_ascii_seq(s@) ==> parsed_as(r, priority_from_lower(ascii_lower(s@)), "Invalid priority: "@, s@),
    {
        PeaPriority::parse(s)
    }
}


// -------------------------------------------------------------- Timestamp

/// A point in time: whole seconds since the Unix epoch and the nanoseconds
/// past that second.
#[derive(Debug, Clone, Copy, PartialEq, Eq, Structural)]
pub struct Timestamp {
    pub secs: i64,
    pub nanos: u32,
}

/// `a` is strictly earlier than `b`.
pub open spec fn ts_before(a: Timestamp, b: Timestamp) -> bool {
    a.secs < b.secs || (a.secs == b.secs && a.nanos < b.nanos)
}

impl Timestamp {
    /// The Unix epoch.
    pub fn epoch() -> (r: Timestamp)
        ensures
            r.secs == 0 && r.nanos == 0,
    {
        Timestamp { secs: 0, nanos: 0 }
    }

    /// Whether `self` is strictly earlier than `other`.
    pub fn is_before(&self, other: &Timestamp) -> (r: bool)
        ensures
            r == ts_before(*self, *other),
    {
        self.secs < other.secs || (self.secs == other.secs && self.nanos < other.nanos)
    }

    /// Whether `self` and `other` are the same instant.
    pub fn same_as(&self, other: &Timestamp) -> (r: bool)
        ensures
            r == (*self == *other),
    {
        self.secs == other.secs && self.nanos == other.nanos
    }

    /// The time as its raw seconds and nanoseconds, for a time no calendar
    /// rendering can show.
    pub fn raw_text(&self) -> (r: String)
        ensures
            r@ == raw_time(self.secs, self.nanos),
    {
        let mag: u64 = if self.secs < 0 {
            let m: i128 = 0 - (self.secs as i128);
            m as u64
        } else {
            self.secs as u64
        };
        let digits = decimal_chars(mag);
        let mut r = if self.secs < 0 {
            concat("-", string_of(&digits).as_str())
        } else {
            string_of(&digits)
        };
        r.append(".");
        let frac = pad_left_zeros(&decimal_chars(self.nanos as u64), 9);
        r.append(string_of(&frac).as_str());
        r
    }
}

/// A time written as its raw seconds and nanoseconds since the epoch, the
/// nanoseconds with nine digits: `-12.000000005`.
pub open spec fn raw_time(secs: i64, nanos: u32) -> Seq<char> {
    (if secs < 0 {
        "-"@ + decimal((0 - secs) as nat)
    } else {
        decimal(secs as nat)
    }) + "."@ + pad_zeros(decimal(nanos as nat), 9)
}

/// The current time (`chrono::Utc::now`). Trusted: the clock is read, so
/// nothing ties the result to anything; chrono builds it from the seconds
/// and sub-second nanoseconds since the epoch, so `nanos` is below one
/// billion and the seconds are not negative.
#[verifier::external_body]
pub(crate) fn now() -> (r: Timestamp)
    ensures
        r.nanos < 1_000_000_000,
        r.secs >= 0,
{
    let t = chrono::Utc::now();
    Timestamp { secs: t.timestamp(), nanos: t.timestamp_subsec_nanos() }
}

// -------------------------------------------------------------------- Pea

/// An issue or ticket.
#[derive(Debug, PartialEq)]
pub struct Pea {
    pub id: String,
    pub title: String,
    pub pea_type: PeaType,
    pub status: PeaStatus,
    pub priority: PeaPriority,
    pub tags: Vec<String>,
    pub parent: Option<String>,
    pub blocking: Vec<String>,
    pub assets: Vec<String>,
    pub created: Timestamp,
    pub updated: Timestamp,
    pub body: String,
}

/// The mathematical model of a pea: its strings as character sequences.
pub struct PeaV {
    pub id: Seq<char>,
    pub title: Seq<char>,
    pub pea_type: PeaType,
    pub status: PeaStatus,
    pub priority: PeaPriority,
    pub tags: Seq<Seq<char>>,
    pub parent: Option<Seq<char>>,
    pub blocking: Seq<Seq<char>>,
    pub assets: Seq<Seq<char>>,
    pub created: Timestamp,
    pub updated: Timestamp,
    pub body: Seq<char>,
}

/// The character sequences of a vector of strings.
pub open spec fn strs(v: Seq<String>) -> Seq<Seq<char>> {
    v.map_values(|x: String| x@)
}

/// The character sequence of an optional string.
pub open spec fn opt_str(o: Option<String>) -> Option<Seq<char>> {
    match o {
        Some(s) => Some(s@),
        None => None,
    }
}

impl View for Pea {
    type V = PeaV;

    open spec fn view(&self) -> PeaV {
        PeaV {
            id: self.id@,
            title: self.title@,
            pea_type: self.pea_type,
            status: self.status,
            priority: self.priority,
            tags: strs(self.tags@),
            parent: opt_str(self.parent),
            blocking: strs(self.blocking@),
            assets: strs(self.assets@),
            created: self.created,
            updated: self.updated,
            body: self.body@,
        }
    }
}

impl Clone for Pea {
    fn clone(&self) -> (r: Pea)
        ensures
            r@ == self@,
    {
        Pea {
            id: self.id.clone(),
            title: self.title.clone(),
            pea_type: self.pea_type,
            status: self.status,
            priority: self.priority,
            tags: clone_strings(&self.tags),
            parent: clone_opt(&self.parent),
            blocking: clone_strings(&self.blocking),
            assets: clone_strings(&self.assets),
            created: self.created,
            updated: self.updated,
            body: self.body.clone(),
        }
    }
}

/// A fresh pea with the given id, title and type, created and updated at
/// `at`, status todo, priority normal, and nothing else.
pub open spec fn fresh_pea(id: Seq<char>, title: Seq<char>, pea_type: PeaType, at: Timestamp) -> PeaV {
    PeaV {
        id,
        title,
        pea_type,
        status: PeaStatus::Todo,
        priority: PeaPriority::Normal,
        tags: Seq::empty(),
        parent: None,
        blocking: Seq::empty(),
        assets: Seq::empty(),
        created: at,
        updated: at,
        body: Seq::empty(),
    }
}

impl Pea {
    /// A new pea created at `at`.
    pub fn new_at(id: String, title: String, pea_type: PeaType, at: Timestamp) -> (r: Pea)
        ensures
            r@ == fresh_pea(id@, title@, pea_type, at),
    {
        let r = Pea {
            id,
            title,
            pea_type,
            status: PeaStatus::Todo,
            priority: PeaPriority::Normal,
            tags: Vec::new(),
            parent: None,
            blocking: Vec::new(),
            assets: Vec::new(),
            created: at,
            updated: at,
            body: String::new(),
        };
        assert(strs(r.tags@) =~= Seq::<Seq<char>>::empty());
        assert(strs(r.blocking@) =~= Seq::<Seq<char>>::empty());
        assert(strs(r.assets@) =~= Seq::<Seq<char>>::empty());
        r
    }

    /// A new pea created now.
    pub fn new(id: String, title: String, pea_type: PeaType) -> (r: Pea)
        ensures
            r@ == fresh_pea(id@, title@, pea_type, r.created),
    {
        Pea::new_at(id, title, pea_type, now())
    }

    pub fn with_status(self, status: PeaStatus) -> (r: Pea)
        ensures
            r@ == (PeaV { status, ..self@ }),
    {
        let mut p = self;
        p.status = status;
        p
    }

    pub fn with_priority(self, priority: PeaPriority) -> (r: Pea)
        ensures
            r@ == (PeaV { priority, ..self@ }),
    {
        let mut p = self;
        p.priority = priority;
        p
    }

    pub fn with_tags(self, tags: Vec<String>) -> (r: Pea)
        ensures
            r@ == (PeaV { tags: strs(tags@), ..self@ }),
    {
        let mut p = self;
        p.tags = tags;
        p
    }

    pub fn with_parent(self, parent: Option<String>) -> (r: Pea)
        ensures
            r@ == (PeaV { parent: opt_str(parent), ..self@ }),
    {
        let mut p = self;
        p.parent = parent;
        p
    }

    pub fn with_blocking(self, blocking: Vec<String>) -> (r: Pea)
        ensures
            r@ == (PeaV { blocking: strs(blocking@), ..self@ }),
    {
        let mut p = self;
        p.blocking = blocking;
        p
    }

    pub fn with_body(self, body: String) -> (r: Pea)
        ensures
            r@ == (PeaV { body: body@, ..self@ }),
    {
        let mut p = self;
        p.body = body;
        p
    }

    /// Sets the updated time to `at`.
    pub fn touch_at(&mut self, at: Timestamp)
        ensures
            final(self)@ == (PeaV { updated: at, ..old(self)@ }),
    {
        self.updated = at;
    }

    /// Sets the updated time to now.
    pub fn touch(&mut self)
        ensures
            final(self)@ == (PeaV { updated: final(self).updated, ..old(self)@ }),
            final(self).updated.secs >= 0,
            final(self).updated.nanos < 1_000_000_000,
    {
        self.updated = now();
    }

    /// Whether the pea is open (draft, todo or in progress).
    pub fn is_open(&self) -> (r: bool)
        ensures
            r == status_is_open(self.status),
    {
        self.status.is_open()
    }

    /// Whether the pea is closed (completed or scrapped).
    pub fn is_closed(&self) -> (r: bool)
        ensures
            r == !status_is_open(self.status),
    {
        self.status.is_closed()
    }
}

// ----------------------------------------------------------------- Memory

/// A piece of project knowledge, stored under a key.
#[derive(Debug, PartialEq)]
pub struct Memory {
    pub key: String,
    pub tags: Vec<String>,
    pub created: Timestamp,
    pub updated: Timestamp,
    pub content: String,
}

/// The mathematical model of a memory.
pub struct MemoryV {
    pub key: Seq<char>,
    pub tags: Seq<Seq<char>>,
    pub created: Timestamp,
    pub updated: Timestamp,
    pub content: Seq<char>,
}

impl View for Memory {
    type V = MemoryV;

    open spec fn view(&self) -> MemoryV {
        MemoryV {
            key: self.key@,
            tags: strs(self.tags@),
            created: self.created,
            updated: self.updated,
            content: self.content@,
        }
    }
}

impl Clone for Memory {
    fn clone(&self) -> (r: Memory)
        ensures
            r@ == self@,
    {
        Memory {
            key: self.key.clone(),
            tags: clone_strings(&self.tags),
            created: self.created,
            updated: self.updated,
            content: self.content.clone(),
        }
    }
}

impl Memory {
    /// A new memory under `key`, created at `at`, with no tags or content.
    pub fn new_at(key: String, at: Timestamp) -> (r: Memory)
        ensures
            r@ == (MemoryV {
                key: key@,
                tags: Seq::empty(),
                created: at,
                updated: at,
                content: Seq::empty(),
            }),
    {
        let r = Memory { key, tags: Vec::new(), created: at, updated: at, content: String::new() };
        assert(strs(r.tags@) =~= Seq::<Seq<char>>::empty());
        r
    }

    /// A new memory created now.
    pub fn new(key: String) -> (r: Memory)
        ensures
            r@ == (MemoryV {
                key: key@,
                tags: Seq::empty(),
                created: r.created,
                updated: r.created,
                content: Seq::empty(),
            }),
    {
        Memory::new_at(key, now())
    }

    pub fn with_tags(self, tags: Vec<String>) -> (r: Memory)
        ensures
            r@ == (MemoryV { tags: strs(tags@), ..self@ }),
    {
        let mut m = self;
        m.tags = tags;
        m
    }

    pub fn with_content(self, content: String) -> (r: Memory)
        ensures
            r@ == (MemoryV { content: content@, ..self@ }),
    {
        let mut m = self;
        m.content = content;
        m
    }

    /// Sets the updated time to `at`.
    pub fn touch_at(&mut self, at: Timestamp)
        ensures
            final(self)@ == (MemoryV { updated: at, ..old(self)@ }),
    {
        self.updated = at;
    }

    /// Sets the updated time to now.
    pub fn touch(&mut self)
        ensures
            final(self)@ == (MemoryV { updated: final(self).updated, ..old(self)@ }),
            final(self).updated.secs >= 0,
            final(self).updated.nanos < 1_000_000_000,
    {
        self.updated = now();
    }
}

// ------------------------------------------------------------------- laws

proof fn lemma_ascii_lower_id(s: Seq<char>)
    requires
        forall|i: int| 0 <= i < s.len() ==> ('a' <= #[trigger] s[i] <= 'z') || s[i] == '-' || s[i]
            == '_',
    ensures
        is_ascii_seq(s),
        ascii_lower(s) == s,
{
    assert(ascii_lower(s) =~= s);
}

/// A type's name is ASCII, is its own lowercase, and denotes the type: so
/// parsing what a type displays as gives the type back.
pub proof fn type_name_round_trip(t: PeaType)
    ensures
        is_ascii_seq(pea_type_name(t)),
        ascii_lower(pea_type_name(t)) == pea_type_name(t),
        type_from_lower(pea_type_name(t)) == Some(t),
{
    reveal_strlit("milestone");
    reveal_strlit("epic");
    reveal_strlit("story");
    reveal_strlit("feature");
    reveal_strlit("bug");
    reveal_strlit("chore");
    reveal_strlit("research");
    reveal_strlit("spike");
    reveal_strlit("task");
    assert("chore"@[0] != "story"@[0]);
    assert("task"@[0] != "epic"@[0]);
    lemma_ascii_lower_id(pea_type_name(t));
}

/// A status's name is ASCII, is its own lowercase, and denotes the status.
pub proof fn status_name_round_trip(s: PeaStatus)
    ensures
        is_ascii_seq(status_name(s)),
        ascii_lower(status_name(s)) == status_name(s),
        status_from_lower(status_name(s)) == Some(s),
{
    reveal_strlit("draft");
    reveal_strlit("todo");
    reveal_strlit("in-progress");
    reveal_strlit("inprogress");
    reveal_strlit("in_progress");
    reveal_strlit("completed");
    reveal_strlit("done");
    reveal_strlit("scrapped");
    reveal_strlit("cancelled");
    reveal_strlit("canceled");
    lemma_ascii_lower_id(status_name(s));
}

/// A priority's name is ASCII, is its own lowercase, and denotes the
/// priority.
pub proof fn priority_name_round_trip(p: PeaPriority)
    ensures
        is_ascii_seq(priority_name(p)),
        ascii_lower(priority_name(p)) == priority_name(p),
        priority_from_lower(priority_name(p)) == Some(p),
{
    reveal_strlit("critical");
    reveal_strlit("p0");
    reveal_strlit("high");
    reveal_strlit("p1");
    reveal_strlit("normal");
    reveal_strlit("p2");
    reveal_strlit("low");
    reveal_strlit("p3");
    reveal_strlit("deferred");
    reveal_strlit("p4");
    assert("deferred"@[0] != "critical"@[0]);
    lemma_ascii_lower_id(priority_name(p));
}

} // verus!
