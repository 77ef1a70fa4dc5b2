//! Search queries over peas and memories: plain substrings, regular
//! expressions, and searches restricted to one field.
use vstd::prelude::*;
use crate::model::{priority_name, status_name, pea_type_name, Memory, MemoryV, Pea, PeaV};
use crate::text::{chars_of, concat, contains, owned, slice_vec, spec_to_lowercase, str_contains, str_eq, string_of, to_lowercase};

verus! {

/// A field that a search can be restricted to.
#[derive(Debug, Clone, Copy, PartialEq, Eq, Structural)]
pub enum SearchField {
    Title,
    Body,
    Tag,
    Id,
    Status,
    Priority,
    Type,
}

/// The field a lowercased name denotes; `"tags"` is an alias for tag.
pub open spec fn field_from_lower(s: Seq<char>) -> Option<SearchField> {
    if s == "title"@ {
        Some(SearchField::Title)
    } else if s == "body"@ {
        Some(SearchField::Body)
    } else if s == "tag"@ || s == "tags"@ {
        Some(SearchField::Tag)
    } else if s == "id"@ {
        Some(SearchField::Id)
    } else if s == "status"@ {
        Some(SearchField::Status)
    } else if s == "priority"@ {
        Some(SearchField::Priority)
    } else if s == "type"@ {
        Some(SearchField::Type)
    } else {
        None
    }
}

impl SearchField {
    /// Parses a field name, given its lowercase `lower`.
    pub fn parse_lowered(s: &str, lower: &str) -> (r: Result<SearchField, String>)
        ensures
            match field_from_lower(lower@) {
                Some(f) => r == Ok::<SearchField, String>(f),
                None => r matches Err(m) && m@ == "Unknown field: "@ + s@,
            },
    {
        if str_eq(lower, "title") {
            Ok(SearchField::Title)
        } else if str_eq(lower, "body") {
            Ok(SearchField::Body)
        } else if str_eq(lower, "tag") || str_eq(lower, "tags") {
            Ok(SearchField::Tag)
        } else if str_eq(lower, "id") {
            Ok(SearchField::Id)
        } else if str_eq(lower, "status") {
            Ok(SearchField::Status)
        } else if str_eq(lower, "priority") {
            Ok(SearchField::Priority)
        } else if str_eq(lower, "type") {
            Ok(SearchField::Type)
        } else {
            Err(concat("Unknown field: ", s))
        }
    }

    /// Parses a field name, ignoring case.
    pub fn parse(s: &str) -> (r: Result<SearchField, String>)
        ensures
            match field_from_lower(spec_to_lowercase(s@)) {
                Some(f) => r == Ok::<SearchField, String>(f),
                None => r matches Err(m) && m@ == "Unknown field: "@ + s@,
            },
    {
        let lower = to_lowercase(s);
        SearchField::parse_lowered(s, lower.as_str())
    }
}

impl std::str::FromStr for SearchField {
    type Err = String;

    fn from_str(s: &str) -> (r: Result<SearchField, String>)
        ensures
            match field_from_lower(spec_to_lowercase(s@)) {
                Some(f) => r == Ok::<SearchField, String>(f),
                None => r matches Err(m) && m@ == "Unknown field: "@ + s@,
            },
    {
        SearchField::parse(s)
    }
}

// ------------------------------------------------------------ regexes

/// Whether `text` matches the regular expression `pattern`; false when the
/// pattern does not compile.
pub uninterp spec fn spec_regex_is_match(pattern: Seq<char>, text: Seq<char>) -> bool;

/// The message of the error that compiling `pattern` gives, if it fails.
pub uninterp spec fn spec_regex_error(pattern: Seq<char>) -> Option<Seq<char>>;

/// `regex::Regex::new(pattern)` then `Regex::is_match(text)`. Trusted: the
/// result is named by `spec_regex_is_match`, a function of the pattern and
/// the text; what the regex language accepts is not stated.
#[verifier::external_body]
fn regex_is_match(pattern: &str, text: &str) -> (r: bool)
    ensures
        r == spec_regex_is_match(pattern@, text@),
{
    match regex::Regex::new(pattern) {
        Ok(re) => re.is_match(text),
        Err(_) => false,
    }
}

/// `regex::Regex::new(pattern)`, reduced to the message of its error.
/// Trusted: `None` when the pattern compiles, else the error's text, both
/// named by `spec_regex_error`; which patterns compile is not stated.
#[verifier::external_body]
fn regex_error(pattern: &str) -> (r: Option<String>)
    ensures
        match r {
            Some(m) => spec_regex_error(pattern@) == Some(m@),
            None => spec_regex_error(pattern@) is None,
        },
{
    match regex::Regex::new(pattern) {
        Ok(_) => None,
        Err(e) => Some(e.to_string()),
    }
}

// ------------------------------------------------------------ queries

/// A search query.
#[derive(Debug)]
pub enum SearchQuery {
    /// Case-insensitive substring search.
    Simple(String),
    /// Regular expression search; holds a pattern that compiles.
    Regex(String),
    /// Search restricted to one field.
    Field { field: SearchField, pattern: Box<SearchQuery> },
}

/// The model of a query.
pub enum QueryV {
    Simple(Seq<char>),
    Regex(Seq<char>),
    Field(SearchField, Box<QueryV>),
}

pub open spec fn query_view(q: SearchQuery) -> QueryV
    decreases q,
{
    match q {
        SearchQuery::Simple(s) => QueryV::Simple(s@),
        SearchQuery::Regex(s) => QueryV::Regex(s@),
        SearchQuery::Field { field, pattern } => QueryV::Field(field, Box::new(query_view(*pattern))),
    }
}

impl View for SearchQuery {
    type V = QueryV;

    open spec fn view(&self) -> QueryV {
        query_view(*self)
    }
}

/// Index of the first `':'` in `s`, if any.
pub open spec fn first_colon(s: Seq<char>, i: int) -> bool {
    0 <= i < s.len() && s[i] == ':' && forall|j: int| 0 <= j < i ==> s[j] != ':'
}

/// What parsing a query gives:
/// - an empty query is refused;
/// - `field:rest`, where `field` names a field (any case), restricts the
///   parse of `rest` to that field;
/// - `regex:pattern` is a regex search, refused if the pattern does not
///   compile;
/// - anything else is a plain substring search for the whole query.
pub open spec fn parse_spec(q: Seq<char>) -> Result<QueryV, Seq<char>>
    decreases q.len(),
{
    if q.len() == 0 {
        Err("Empty query"@)
    } else if exists|i: int| first_colon(q, i) {
        let i = choose|i: int| first_colon(q, i);
        let head = q.take(i);
        let rest = q.skip(i + 1);
        if field_from_lower(spec_to_lowercase(head)) is Some {
            match parse_spec(rest) {
                Ok(sub) => Ok(
                    QueryV::Field(field_from_lower(spec_to_lowercase(head))->0, Box::new(sub)),
                ),
                Err(e) => Err(e),
            }
        } else if head == "regex"@ {
            match spec_regex_error(rest) {
                Some(e) => Err("Invalid regex: "@ + e),
                None => Ok(QueryV::Regex(rest)),
            }
        } else {
            Ok(QueryV::Simple(q))
        }
    } else {
        Ok(QueryV::Simple(q))
    }
}

/// Whether one piece of text matches a (non-field) query.
pub open spec fn text_matches(q: QueryV, t: Seq<char>) -> bool {
    match q {
        QueryV::Simple(p) => contains(spec_to_lowercase(t), spec_to_lowercase(p)),
        QueryV::Regex(r) => spec_regex_is_match(r, t),
        QueryV::Field(_, _) => false,
    }
}

/// Whether some tag matches a query.
pub open spec fn any_matches(q: QueryV, tags: Seq<Seq<char>>) -> bool {
    exists|i: int| 0 <= i < tags.len() && text_matches(q, #[trigger] tags[i])
}

/// Whether a pea matches a query: plain and regex queries look at the
/// title, body, id and tags; a field query looks at that field only (the
/// status, priority and type by their names).
pub open spec fn pea_matches(q: QueryV, p: PeaV) -> bool {
    match q {
        QueryV::Field(f, pat) => match f {
            SearchField::Title => text_matches(*pat, p.title),
            SearchField::Body => text_matches(*pat, p.body),
            SearchField::Tag => any_matches(*pat, p.tags),
            SearchField::Id => text_matches(*pat, p.id),
            SearchField::Status => text_matches(*pat, status_name(p.status)),
            SearchField::Priority => text_matches(*pat, priority_name(p.priority)),
            SearchField::Type => text_matches(*pat, pea_type_name(p.pea_type)),
        },
        _ => text_matches(q, p.title) || text_matches(q, p.body) || text_matches(q, p.id)
            || any_matches(q, p.tags),
    }
}

/// Whether a memory matches a query: plain and regex queries look at the
/// key, content and tags; of the fields only the tag applies.
pub open spec fn memory_matches(q: QueryV, m: MemoryV) -> bool {
    match q {
        QueryV::Field(f, pat) => f == SearchField::Tag && any_matches(*pat, m.tags),
        _ => text_matches(q, m.key) || text_matches(q, m.content) || any_matches(q, m.tags),
    }
}

/// Whether `text` matches `q`, for a query that is not a field query.
fn match_text(q: &SearchQuery, text: &str) -> (r: bool)
    ensures
        r == text_matches(q@, text@),
{
    match q {
        SearchQuery::Simple(p) => {
            let t = to_lowercase(text);
            let pl = to_lowercase(p.as_str());
            str_contains(t.as_str(), pl.as_str())
        },
        SearchQuery::Regex(r) => regex_is_match(r.as_str(), text),
        SearchQuery::Field { .. } => false,
    }
}

/// Whether some string of `tags` matches `q`.
fn match_any(q: &SearchQuery, tags: &Vec<String>) -> (r: bool)
    ensures
        r == any_matches(q@, tags@.map_values(|x: String| x@)),
{
    let ghost ts = tags@.map_values(|x: String| x@);
    let mut i: usize = 0;
    while i < tags.len()
        invariant
            i <= tags.len(),
            ts == tags@.map_values(|x: String| x@),
            forall|j: int| 0 <= j < i ==> !text_matches(q@, #[trigger] ts[j]),
        decreases tags.len() - i,
    {
        if match_text(q, tags[i].as_str()) {
            assert(text_matches(q@, ts[i as int]));
            return true;
        }
        i = i + 1;
    }
    false
}

impl SearchQuery {
    /// Parses a search query: `bug`, `title:bug`, `regex:bug.*fix`,
    /// `title:regex:bug.*`.
    pub fn parse(query: &str) -> (r: Result<SearchQuery, String>)
        ensures
            match parse_spec(query@) {
                Ok(v) => r matches Ok(q) && q@ == v,
                Err(e) => r matches Err(m) && m@ == e,
            },
        decreases query@.len(),
    {
        let v = chars_of(query);
        if v.len() == 0 {
            return Err("Empty query".to_owned());
        }
        let mut i: usize = 0;
        while i < v.len() && v[i] != ':'
            invariant
                i <= v.len(),
                forall|j: int| 0 <= j < i ==> v@[j] != ':',
            decreases v.len() - i,
        {
            i = i + 1;
        }
        if i < v.len() {
            proof {
                assert(first_colon(query@, i as int));
                assert forall|k: int| first_colon(query@, k) implies k == i by {
                    if k < i {
                    } else if k > i {
                        assert(query@[i as int] == ':');
                    }
                }
            }
            let head = string_of(&slice_vec(&v, 0, i));
            let rest = string_of(&slice_vec(&v, i + 1, v.len()));
            proof {
                assert(head@ == query@.take(i as int));
                assert(rest@ == query@.skip(i + 1));
            }
            match SearchField::parse(head.as_str()) {
                Ok(field) => {
                    let sub = SearchQuery::parse(rest.as_str());
                    match sub {
                        Ok(q) => {
                            return Ok(SearchQuery::Field { field, pattern: Box::new(q) });
                        },
                        Err(e) => {
                            return Err(e);
                        },
                    }
                },
                Err(_) => {},
            }
            if str_eq(head.as_str(), "regex") {
                match regex_error(rest.as_str()) {
                    Some(e) => {
                        return Err(concat("Invalid regex: ", e.as_str()));
                    },
                    None => {
                        return Ok(SearchQuery::Regex(rest));
                    },
                }
            }
        } else {
            assert forall|k: int| !first_colon(query@, k) by {
                if 0 <= k < query@.len() {
                    assert(v@[k] != ':');
                }
            }
        }
        Ok(SearchQuery::Simple(owned(query)))
    }

    /// Whether a pea matches this query.
    pub fn matches_pea(&self, pea: &Pea) -> (r: bool)
        ensures
            r == pea_matches(self@, pea@),
    {
        match self {
            SearchQuery::Field { field, pattern } => {
                let pat: &SearchQuery = pattern;
                match field {
                    SearchField::Title => match_text(pat, pea.title.as_str()),
                    SearchField::Body => match_text(pat, pea.body.as_str()),
                    SearchField::Tag => match_any(pat, &pea.tags),
                    SearchField::Id => match_text(pat, pea.id.as_str()),
                    SearchField::Status => match_text(pat, pea.status.as_str()),
                    SearchField::Priority => match_text(pat, pea.priority.as_str()),
                    SearchField::Type => match_text(pat, pea.pea_type.as_str()),
                }
            },
            _ => match_text(self, pea.title.as_str()) || match_text(self, pea.body.as_str())
                || match_text(self, pea.id.as_str()) || match_any(self, &pea.tags),
        }
    }

    /// Whether a memory matches this query.
    pub fn matches_memory(&self, memory: &Memory) -> (r: bool)
        ensures
            r == memory_matches(self@, memory@),
    {
        match self {
            SearchQuery::Field { field, pattern } => {
                let pat: &SearchQuery = pattern;
                match field {
                    SearchField::Tag => match_any(pat, &memory.tags),
                    _ => false,
                }
            },
            _ => match_text(self, memory.key.as_str()) || match_text(self, memory.content.as_str())
                || match_any(self, &memory.tags),
        }
    }
}

/// A plain query matches a ticket exactly when its lowercase is found in
/// the lowercase of the ticket's title, body, id or one of its tags; a
/// regex query exactly when it matches one of those.
pub proof fn plain_and_regex_search_look_everywhere(q: Seq<char>, p: PeaV)
    ensures
        pea_matches(QueryV::Simple(q), p) <==> {
            let lq = spec_to_lowercase(q);
            ||| contains(spec_to_lowercase(p.title), lq)
            ||| contains(spec_to_lowercase(p.body), lq)
            ||| contains(spec_to_lowercase(p.id), lq)
            ||| exists|i: int| 0 <= i < p.tags.len() && contains(spec_to_lowercase(#[trigger] p.tags[i]), lq)
        },
        pea_matches(QueryV::Regex(q), p) <==> {
            ||| spec_regex_is_match(q, p.title)
            ||| spec_regex_is_match(q, p.body)
            ||| spec_regex_is_match(q, p.id)
            ||| exists|i: int| 0 <= i < p.tags.len() && spec_regex_is_match(q, #[trigger] p.tags[i])
        },
{
}

/// A field query with a plain pattern looks at that field only: it
/// matches exactly when the lowercase pattern is found in the lowercase of
/// the field (the status, priority and type by their names; the tags one
/// by one).
pub proof fn field_search_looks_at_its_field(f: SearchField, q: Seq<char>, p: PeaV)
    ensures
        ({
            let lq = spec_to_lowercase(q);
            let m = pea_matches(QueryV::Field(f, Box::new(QueryV::Simple(q))), p);
            &&& (f == SearchField::Title ==> (m <==> contains(spec_to_lowercase(p.title), lq)))
            &&& (f == SearchField::Body ==> (m <==> contains(spec_to_lowercase(p.body), lq)))
            &&& (f == SearchField::Id ==> (m <==> contains(spec_to_lowercase(p.id), lq)))
            &&& (f == SearchField::Status ==> (m <==> contains(spec_to_lowercase(status_name(p.status)), lq)))
            &&& (f == SearchField::Priority ==> (m <==> contains(
                spec_to_lowercase(priority_name(p.priority)),
                lq,
            )))
            &&& (f == SearchField::Type ==> (m <==> contains(spec_to_lowercase(pea_type_name(p.pea_type)), lq)))
            &&& (f == SearchField::Tag ==> (m <==> exists|i: int|
                0 <= i < p.tags.len() && contains(spec_to_lowercase(#[trigger] p.tags[i]), lq)))
        }),
{
}

/// A plain query matches a memory exactly when its lowercase is found in
/// the lowercase of the memory's key, content or one of its tags; of the
/// field queries only a tag query applies, and it looks at the tags only.
pub proof fn memory_search_looks_at_key_content_and_tags(q: Seq<char>, m: MemoryV, f: SearchField)
    ensures
        memory_matches(QueryV::Simple(q), m) <==> {
            let lq = spec_to_lowercase(q);
            ||| contains(spec_to_lowercase(m.key), lq)
            ||| contains(spec_to_lowercase(m.content), lq)
            ||| exists|i: int| 0 <= i < m.tags.len() && contains(spec_to_lowercase(#[trigger] m.tags[i]), lq)
        },
        memory_matches(QueryV::Field(f, Box::new(QueryV::Simple(q))), m) <==> f == SearchField::Tag && exists|
            i: int,
        | 0 <= i < m.tags.len() && contains(spec_to_lowercase(#[trigger] m.tags[i]), spec_to_lowercase(q)),
{
}

} // verus!
