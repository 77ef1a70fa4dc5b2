//! Ticket references in free text: finding the ids a ticket body mentions,
//! and annotating each mention.
use vstd::prelude::*;
use crate::model::{opt_str, strs};
use crate::text::{chars_of, concat3, replace_all, replace_chars, string_of};

verus! {

// ------------------------------------------------------------ outside calls

/// The characters `regex::escape` puts a backslash in front of.
pub open spec fn regex_meta(c: char) -> bool {
    c == '\\' || c == '.' || c == '+' || c == '*' || c == '?' || c == '(' || c == ')' || c == '|'
        || c == '[' || c == ']' || c == '{' || c == '}' || c == '^' || c == '$' || c == '#' || c
        == '&' || c == '-' || c == '~'
}

/// A text with a backslash in front of each regex meta character.
pub open spec fn regex_escaped(s: Seq<char>) -> Seq<char>
    decreases s.len(),
{
    if s.len() == 0 {
        Seq::empty()
    } else {
        regex_escaped(s.drop_last()) + if regex_meta(s.last()) {
            seq!['\\', s.last()]
        } else {
            seq![s.last()]
        }
    }
}

/// `regex::escape`. Trusted: as the source of `regex-syntax` shows, each
/// character is copied, with a backslash in front of the meta characters.
#[verifier::external_body]
fn regex_escape(s: &str) -> (r: String)
    ensures
        r@ == regex_escaped(s@),
{
    regex::escape(s)
}

/// What the first capture group of each successive match of `pattern` in
/// `text` holds (`None` for a match in which the group took no part), or
/// `None` when the pattern does not compile.
pub uninterp spec fn spec_regex_group1(pattern: Seq<char>, text: Seq<char>) -> Option<Seq<Option<Seq<char>>>>;

/// `regex::Regex::new` then `captures_iter`, keeping the text of group 1 of
/// each match. Trusted: the result is named by `spec_regex_group1`; which
/// matches a pattern has is not stated.
#[verifier::external_body]
fn regex_group1(pattern: &str, text: &str) -> (r: Option<Vec<Option<String>>>)
    ensures
        match r {
            Some(v) => spec_regex_group1(pattern@, text@) == Some(
                v@.map_values(|o: Option<String>| opt_str(o)),
            ),
            None => spec_regex_group1(pattern@, text@) is None,
        },
{
    match regex::Regex::new(pattern) {
        Ok(re) => Some(re.captures_iter(text).map(|c| c.get(1).map(|m| m.as_str().to_string())).collect()),
        Err(_) => None,
    }
}

// ------------------------------------------------------------ finding

/// The pattern of a reference: the prefix, taken literally, then one or
/// more lowercase letters and digits, all in one group.
pub open spec fn ref_pattern(prefix: Seq<char>) -> Seq<char> {
    "("@ + regex_escaped(prefix) + "[a-z0-9]+)"@
}

/// The texts that are present, in order.
pub open spec fn present(gs: Seq<Option<Seq<char>>>) -> Seq<Seq<char>>
    decreases gs.len(),
{
    if gs.len() == 0 {
        Seq::empty()
    } else {
        let p = present(gs.drop_last());
        match gs.last() {
            Some(x) => p.push(x),
            None => p,
        }
    }
}

/// The ids a text mentions, in order and with repeats; none when the
/// pattern does not compile.
pub open spec fn refs_spec(text: Seq<char>, prefix: Seq<char>) -> Seq<Seq<char>> {
    match spec_regex_group1(ref_pattern(prefix), text) {
        Some(gs) => present(gs),
        None => Seq::empty(),
    }
}

/// The texts of the groups that took part, in order.
pub fn present_groups(groups: Vec<Option<String>>) -> (r: Vec<String>)
    ensures
        strs(r@) == present(groups@.map_values(|o: Option<String>| opt_str(o))),
{
    let ghost all = groups@.map_values(|o: Option<String>| opt_str(o));
    let mut out: Vec<String> = Vec::new();
    let mut k: usize = 0;
    let n = groups.len();
    for g in it: groups
        invariant
            all == it.seq().map_values(|o: Option<String>| opt_str(o)),
            k == it.index(),
            k <= n,
            all.len() == n,
            strs(out@) == present(all.take(k as int)),
    {
        let ghost t = all.take(k + 1);
        assert(t.drop_last() =~= all.take(k as int));
        assert(t.last() == opt_str(g));
        match g {
            Some(x) => {
                let ghost o = out@;
                let ghost xv = x@;
                out.push(x);
                assert(strs(out@) =~= strs(o).push(xv));
            },
            None => {},
        }
        k = k + 1;
    }
    assert(all.take(n as int) =~= all);
    out
}

/// The ticket ids a text mentions: each match of the prefix followed by
/// lowercase letters and digits, in order and with repeats.
pub fn ticket_refs(text: &str, prefix: &str) -> (r: Vec<String>)
    ensures
        strs(r@) == refs_spec(text@, prefix@),
{
    let escaped = regex_escape(prefix);
    let pattern = concat3("(", escaped.as_str(), "[a-z0-9]+)");
    match regex_group1(pattern.as_str(), text) {
        Some(groups) => present_groups(groups),
        None => Vec::new(),
    }
}

// ------------------------------------------------------------ annotating

/// The text after each substitution in turn: every occurrence of the id
/// replaced by its annotation. An empty id, which no reference match
/// yields, is passed over.
pub open spec fn replace_each(text: Seq<char>, subs: Seq<(Seq<char>, Seq<char>)>) -> Seq<char>
    decreases subs.len(),
{
    if subs.len() == 0 {
        text
    } else {
        let (id, note) = subs[0];
        let next = if id.len() > 0 {
            replace_all(text, id, note)
        } else {
            text
        };
        replace_each(next, subs.drop_first())
    }
}

/// Replaces the mentions of each id by its annotation, one id after the
/// other.
pub fn annotate_refs(text: &str, subs: &Vec<(String, String)>) -> (r: String)
    ensures
        r@ == replace_each(text@, subs@.map_values(|p: (String, String)| (p.0@, p.1@))),
{
    let ghost all = subs@.map_values(|p: (String, String)| (p.0@, p.1@));
    let mut cur = chars_of(text);
    let mut k: usize = 0;
    assert(all.skip(0) =~= all);
    while k < subs.len()
        invariant
            k <= subs.len(),
            all == subs@.map_values(|p: (String, String)| (p.0@, p.1@)),
            replace_each(text@, all) == replace_each(cur@, all.skip(k as int)),
        decreases subs.len() - k,
    {
        let ghost rest = all.skip(k as int);
        assert(rest[0] == (subs@[k as int].0@, subs@[k as int].1@));
        assert(rest.drop_first() =~= all.skip(k + 1));
        let id = chars_of(subs[k].0.as_str());
        let note = chars_of(subs[k].1.as_str());
        if id.len() > 0 {
            cur = replace_chars(&cur, &id, &note);
        }
        k = k + 1;
    }
    assert(all.skip(subs.len() as int) =~= Seq::<(Seq<char>, Seq<char>)>::empty());
    string_of(&cur)
}

} // verus!
