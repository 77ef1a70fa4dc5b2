//! The checks of `peas doctor`: ticket framing and fields, malformed
//! arrays, reference integrity, ID styles and the sequential counter.
use vstd::prelude::*;
use crate::config::SCHEMA_URL;
use crate::markdown::{json_split_spec, split_with_format, FrontmatterFormat};
use crate::model::{strs, Pea, PeaV};
use crate::suggest::pea_views;
use crate::update::has_string;
use crate::text::{all_digits, append_chars, chars_of, concat, concat3, contains, contains_chars, decimal, first_occurrence, find_from, is_first_from, str_contains, trim_str, join, join_chars, lemma_first_unique, parse_u64, parse_u64_spec, replace_all, replace_chars, slice_vec, split_at_char, split_char, starts_with, starts_with_chars, string_of, trim, trim_bounds, u64_to_string, views};

verus! {

// ------------------------------------------------------- malformed arrays

/// Each piece trimmed and put in double quotes.
pub open spec fn quoted_items(items: Seq<Seq<char>>) -> Seq<Seq<char>> {
    items.map_values(|x: Seq<char>| "\""@ + trim(x) + "\""@)
}

/// What fixing a malformed array field gives: where the frontmatter has
/// `field = ["a,b,c"]` (a single string holding commas, and no `", "`), the
/// field rewritten as `field = ["a", "b", "c"]`; `None` when there is
/// nothing to fix.
pub open spec fn fix_array_spec(fm: Seq<char>, field: Seq<char>) -> Option<Seq<char>> {
    let pat = field + " = [\""@;
    match first_occurrence(fm, pat) {
        None => None,
        Some(start) => {
            let after = start + pat.len();
            match first_occurrence(fm.skip(after), "\"]"@) {
                None => None,
                Some(end) => {
                    let value = fm.subrange(after, after + end);
                    if !contains(value, ","@) || contains(value, "\", \""@) {
                        None
                    } else {
                        let fixed = join(quoted_items(split_char(value, ',')), ", "@);
                        let old = field + " = [\""@ + value + "\"]"@;
                        let new = field + " = ["@ + fixed + "]"@;
                        Some(replace_all(fm, old, new))
                    }
                },
            }
        },
    }
}

/// The first occurrence of `p` in `s`.
fn find_first(s: &[char], p: &[char]) -> (r: Option<usize>)
    ensures
        match r {
            Some(i) => first_occurrence(s@, p@) == Some(i as int) && i + p.len() <= s.len(),
            None => first_occurrence(s@, p@) is None,
        },
{
    match find_from(s, p, 0) {
        Some(i) => {
            proof {
                lemma_first_unique(s@, p@, i as int);
            }
            Some(i)
        },
        None => {
            assert(!exists|i: int| is_first_from(s@, p@, 0, i));
            None
        },
    }
}

/// Attempts to fix a malformed array field in TOML frontmatter.
pub fn fix_malformed_array(frontmatter: &str, field: &str) -> (r: Option<String>)
    ensures
        match fix_array_spec(frontmatter@, field@) {
            Some(x) => r matches Some(s) && s@ == x,
            None => r is None,
        },
{
    let fm = chars_of(frontmatter);
    let pat = chars_of(concat(field, " = [\"").as_str());
    let start = match find_first(&fm, &pat) {
        Some(i) => i,
        None => {
            return None;
        },
    };
    let after = start + pat.len();
    let tail = slice_vec(&fm, after, fm.len());
    assert(tail@ =~= fm@.skip(after as int));
    let close = chars_of("\"]");
    let end = match find_first(&tail, &close) {
        Some(e) => e,
        None => {
            return None;
        },
    };
    let value = slice_vec(&fm, after, after + end);
    let comma = chars_of(",");
    let sep = chars_of("\", \"");
    if !contains_chars(&value, &comma) || contains_chars(&value, &sep) {
        return None;
    }
    let pieces = split_at_char(&value, ',');
    let mut quoted: Vec<Vec<char>> = Vec::new();
    let mut k: usize = 0;
    while k < pieces.len()
        invariant
            k <= pieces.len(),
            views(quoted@) =~= quoted_items(views(pieces@)).take(k as int),
        decreases pieces.len() - k,
    {
        let (a, b) = trim_bounds(&pieces[k]);
        let mut q: Vec<char> = Vec::new();
        q.push('"');
        let inner = slice_vec(&pieces[k], a, b);
        append_chars(&mut q, &inner);
        q.push('"');
        proof {
            reveal_strlit("\"");
            assert(q@ =~= "\""@ + trim(views(pieces@)[k as int]) + "\""@);
        }
        let ghost old_q = quoted@;
        quoted.push(q);
        k = k + 1;
        assert(views(quoted@) =~= views(old_q).push(q@));
    }
    assert(quoted_items(views(pieces@)).take(pieces.len() as int) =~= quoted_items(views(pieces@)));
    let fixed = join_chars(&quoted, &chars_of(", "));
    let mut old = chars_of(field);
    append_chars(&mut old, &chars_of(" = [\""));
    append_chars(&mut old, &value);
    append_chars(&mut old, &chars_of("\"]"));
    let mut new = chars_of(field);
    append_chars(&mut new, &chars_of(" = ["));
    append_chars(&mut new, &fixed);
    append_chars(&mut new, &chars_of("]"));
    proof {
        reveal_strlit(" = [\"");
        assert(old@.len() > 0);
    }
    let out = replace_chars(&fm, &old, &new);
    Some(string_of(&out))
}

// ------------------------------------------------------- ticket framing

/// One problem found in a ticket file.
#[derive(Debug, PartialEq, Eq)]
pub struct FormatIssue {
    pub filename: String,
    pub message: String,
    /// Whether `--fix` can repair it.
    pub fixable: bool,
}

/// How a ticket file's framing was judged.
#[derive(Debug)]
pub enum FrameVerdict {
    /// The file does not open with a delimiter, or has no closing one.
    Broken(FormatIssue),
    /// The frontmatter is framed; its array issues, and the repaired
    /// content when repairs were asked for and made.
    Framed { issues: Vec<FormatIssue>, repaired: Option<String> },
}

/// The fields whose arrays are checked, in order.
pub open spec fn array_fields() -> Seq<Seq<char>> {
    seq!["blocking"@, "tags"@, "assets"@]
}

/// The message for a malformed array field.
pub open spec fn malformed_msg(field: Seq<char>) -> Seq<char> {
    "Malformed "@ + field + " array: contains comma-separated string instead of array elements"@
}

/// The frontmatter after fixing the first `k` array fields in turn.
pub open spec fn fixed_upto(fm: Seq<char>, k: int) -> Seq<char>
    decreases k,
{
    if k <= 0 {
        fm
    } else {
        let prev = fixed_upto(fm, k - 1);
        match fix_array_spec(prev, array_fields()[k - 1]) {
            Some(x) => x,
            None => prev,
        }
    }
}

/// Without repairs: the array fields among the first `k` that are malformed.
pub open spec fn malformed_upto(fm: Seq<char>, k: int) -> Seq<Seq<char>>
    decreases k,
{
    if k <= 0 {
        Seq::empty()
    } else if fix_array_spec(fm, array_fields()[k - 1]) is Some {
        malformed_upto(fm, k - 1).push(array_fields()[k - 1])
    } else {
        malformed_upto(fm, k - 1)
    }
}

/// With repairs: some of the first `k` fields needed fixing.
pub open spec fn any_fixed_upto(fm: Seq<char>, k: int) -> bool
    decreases k,
{
    if k <= 0 {
        false
    } else {
        any_fixed_upto(fm, k - 1) || fix_array_spec(fixed_upto(fm, k - 1), array_fields()[k - 1])
            is Some
    }
}

/// The delimiter a file opens with, if any.
pub open spec fn opening_delim(content: Seq<char>) -> Option<Seq<char>> {
    if starts_with(content, "+++"@) {
        Some("+++"@)
    } else if starts_with(content, "---"@) {
        Some("---"@)
    } else {
        None
    }
}

fn field_name(k: usize) -> (r: &'static str)
    requires
        k < 3,
    ensures
        r@ == array_fields()[k as int],
{
    if k == 0 {
        "blocking"
    } else if k == 1 {
        "tags"
    } else {
        "assets"
    }
}

/// Checks the framing of a ticket file and its array fields; with `fix`,
/// repairs the arrays. JSON frontmatter is checked for its framing only.
pub fn check_frame(filename: &str, content: &str, fix: bool) -> (r: FrameVerdict)
    ensures
        match opening_delim(content@) {
            None => if starts_with(content@, "{"@) {
                match json_split_spec(content@) {
                    Ok(_) => r matches FrameVerdict::Framed { issues, repaired } && issues.len() == 0
                        && repaired is None,
                    Err(_) => r matches FrameVerdict::Broken(i) && i.filename@ == filename@
                        && i.message@ == "Malformed frontmatter structure"@ && !i.fixable,
                }
            } else {
                r matches FrameVerdict::Broken(i) && i.filename@ == filename@ && i.message@
                    == "Missing frontmatter delimiters"@ && !i.fixable
            },
            Some(d) => match first_occurrence(content@.skip(3), d) {
                None => r matches FrameVerdict::Broken(i) && i.filename@ == filename@ && i.message@
                    == "Malformed frontmatter structure"@ && !i.fixable,
                Some(e) => {
                    let fm = content@.subrange(3, 3 + e);
                    let body = content@.skip(3 + e + 3);
                    r matches FrameVerdict::Framed { issues, repaired } && if fix {
                        &&& issues.len() == 0
                        &&& if any_fixed_upto(fm, 3) {
                            repaired matches Some(c) && c@ == d + fixed_upto(fm, 3) + d + body
                        } else {
                            repaired is None
                        }
                    } else {
                        &&& repaired is None
                        &&& issues.len() == malformed_upto(fm, 3).len()
                        &&& forall|k: int|
                            0 <= k < issues.len() ==> (#[trigger] issues@[k]).filename@ == filename@
                                && issues@[k].message@ == malformed_msg(malformed_upto(fm, 3)[k])
                                && issues@[k].fixable
                    }
                },
            },
        },
{
    let v = chars_of(content);
    let plus = chars_of("+++");
    let dash = chars_of("---");
    proof {
        reveal_strlit("+++");
        reveal_strlit("---");
    }
    let d = if starts_with_chars(&v, &plus) {
        plus
    } else if starts_with_chars(&v, &dash) {
        dash
    } else if starts_with_chars(&v, &chars_of("{")) {
        return match split_with_format(content, FrontmatterFormat::Json) {
            Ok(_) => FrameVerdict::Framed { issues: Vec::new(), repaired: None },
            Err(_) => FrameVerdict::Broken(
                FormatIssue {
                    filename: filename.to_owned(),
                    message: "Malformed frontmatter structure".to_owned(),
                    fixable: false,
                },
            ),
        };
    } else {
        return FrameVerdict::Broken(
            FormatIssue {
                filename: filename.to_owned(),
                message: "Missing frontmatter delimiters".to_owned(),
                fixable: false,
            },
        );
    };
    let rest = slice_vec(&v, 3, v.len());
    assert(rest@ =~= content@.skip(3));
    let e = match find_first(&rest, &d) {
        Some(e) => e,
        None => {
            return FrameVerdict::Broken(
                FormatIssue {
                    filename: filename.to_owned(),
                    message: "Malformed frontmatter structure".to_owned(),
                    fixable: false,
                },
            );
        },
    };
    let fm0 = slice_vec(&v, 3, 3 + e);
    let body = slice_vec(&v, 3 + e + 3, v.len());
    let ghost fm_s = fm0@;
    let mut fm = string_of(&fm0);
    let mut needs_fix = false;
    let mut issues: Vec<FormatIssue> = Vec::new();
    let mut k: usize = 0;
    while k < 3
        invariant
            k <= 3,
            fix ==> fm@ == fixed_upto(fm_s, k as int) && needs_fix == any_fixed_upto(fm_s, k as int)
                && issues.len() == 0,
            !fix ==> fm@ == fm_s && !needs_fix && issues.len() == malformed_upto(fm_s, k as int).len()
                && forall|q: int|
                0 <= q < issues.len() ==> (#[trigger] issues@[q]).filename@ == filename@
                    && issues@[q].message@ == malformed_msg(malformed_upto(fm_s, k as int)[q])
                    && issues@[q].fixable,
        decreases 3 - k,
    {
        let field = field_name(k);
        match fix_malformed_array(fm.as_str(), field) {
            Some(fixed) => {
                if fix {
                    fm = fixed;
                    needs_fix = true;
                } else {
                    let msg = concat3(
                        "Malformed ",
                        field,
                        " array: contains comma-separated string instead of array elements",
                    );
                    issues.push(FormatIssue { filename: filename.to_owned(), message: msg, fixable: true });
                    proof {
                        let m = malformed_upto(fm_s, k + 1);
                        assert(m == malformed_upto(fm_s, k as int).push(array_fields()[k as int]));
                        assert forall|q: int| 0 <= q < issues.len() implies (#[trigger] issues@[q]).filename@
                            == filename@ && issues@[q].message@ == malformed_msg(m[q])
                            && issues@[q].fixable by {
                            if q < issues.len() - 1 {
                                assert(m[q] == malformed_upto(fm_s, k as int)[q]);
                            }
                        }
                    }
                }
            },
            None => {},
        }
        k = k + 1;
    }
    if needs_fix {
        let mut out = d.clone();
        append_chars(&mut out, &chars_of(fm.as_str()));
        append_chars(&mut out, &d);
        append_chars(&mut out, &body);
        FrameVerdict::Framed { issues, repaired: Some(string_of(&out)) }
    } else {
        FrameVerdict::Framed { issues, repaired: None }
    }
}

// -------------------------------------------------------- ticket fields

/// The blocking entries that are empty, or look like a comma-separated
/// list (no `-` but a `,`), with their messages and whether they are
/// fixable.
pub open spec fn blocking_issue_msgs(bs: Seq<Seq<char>>) -> Seq<(Seq<char>, bool)>
    decreases bs.len(),
{
    if bs.len() == 0 {
        Seq::empty()
    } else {
        let prev = blocking_issue_msgs(bs.drop_last());
        let b = bs.last();
        if b.len() == 0 {
            prev.push(("Empty blocking reference"@, false))
        } else if !contains(b, "-"@) && contains(b, ","@) {
            prev.push(
                (
                    "Blocking '"@ + b + "' appears to be comma-separated (should be array)"@,
                    true,
                ),
            )
        } else {
            prev
        }
    }
}

/// The problems with a parsed ticket's fields, in the order they are
/// reported: its id, title, parent, then its blocking entries.
pub open spec fn pea_issue_msgs(p: PeaV) -> Seq<(Seq<char>, bool)> {
    let id_part: Seq<(Seq<char>, bool)> = if p.id.len() == 0 {
        seq![("Empty ticket ID"@, false)]
    } else if !contains(p.id, "-"@) {
        seq![("ID '"@ + p.id + "' missing prefix separator"@, false)]
    } else {
        Seq::empty()
    };
    let title_part: Seq<(Seq<char>, bool)> = if p.title.len() == 0 {
        seq![("Empty ticket title"@, false)]
    } else {
        Seq::empty()
    };
    let parent_part: Seq<(Seq<char>, bool)> = match p.parent {
        Some(par) => if par.len() == 0 {
            seq![("Empty parent reference"@, false)]
        } else if !contains(par, "-"@) {
            seq![("Parent '"@ + par + "' has invalid ID format"@, false)]
        } else {
            Seq::empty()
        },
        None => Seq::empty(),
    };
    id_part + title_part + parent_part + blocking_issue_msgs(p.blocking)
}

/// The messages and fixability of a list of issues.
pub open spec fn issue_msgs(v: Seq<FormatIssue>) -> Seq<(Seq<char>, bool)> {
    v.map_values(|i: FormatIssue| (i.message@, i.fixable))
}

fn push_issue(issues: &mut Vec<FormatIssue>, filename: &str, message: String, fixable: bool)
    ensures
        final(issues)@.len() == old(issues)@.len() + 1,
        issue_msgs(final(issues)@) == issue_msgs(old(issues)@).push((message@, fixable)),
        forall|k: int| 0 <= k < old(issues)@.len() ==> #[trigger] final(issues)@[k] == old(issues)@[k],
        final(issues)@.last().filename@ == filename@,
{
    let ghost o = issues@;
    issues.push(FormatIssue { filename: filename.to_owned(), message, fixable });
    assert(issue_msgs(issues@) =~= issue_msgs(o).push((message@, fixable)));
}

/// Problems with the fields of a ticket parsed from `filename`.
pub fn pea_issues(filename: &str, pea: &Pea) -> (r: Vec<FormatIssue>)
    ensures
        issue_msgs(r@) == pea_issue_msgs(pea@),
        forall|k: int| 0 <= k < r.len() ==> (#[trigger] r@[k]).filename@ == filename@,
{
    let mut issues: Vec<FormatIssue> = Vec::new();
    let dash = chars_of("-");
    let comma = chars_of(",");
    let id = chars_of(pea.id.as_str());
    if id.len() == 0 {
        push_issue(&mut issues, filename, "Empty ticket ID".to_owned(), false);
    } else if !contains_chars(&id, &dash) {
        push_issue(
            &mut issues,
            filename,
            concat3("ID '", pea.id.as_str(), "' missing prefix separator"),
            false,
        );
    }
    let ghost after_id = issue_msgs(issues@);
    if pea.title.as_str().is_empty() {
        push_issue(&mut issues, filename, "Empty ticket title".to_owned(), false);
    }
    let ghost after_title = issue_msgs(issues@);
    match &pea.parent {
        Some(par) => {
            let pv = chars_of(par.as_str());
            if pv.len() == 0 {
                push_issue(&mut issues, filename, "Empty parent reference".to_owned(), false);
            } else if !contains_chars(&pv, &dash) {
                push_issue(
                    &mut issues,
                    filename,
                    concat3("Parent '", par.as_str(), "' has invalid ID format"),
                    false,
                );
            }
        },
        None => {},
    }
    let ghost base = issue_msgs(issues@);
    let ghost bs = pea@.blocking;
    let mut j: usize = 0;
    while j < pea.blocking.len()
        invariant
            j <= pea.blocking.len(),
            bs == pea@.blocking,
            dash@ == "-"@,
            comma@ == ","@,
            issue_msgs(issues@) == base + blocking_issue_msgs(bs.take(j as int)),
            forall|k: int| 0 <= k < issues.len() ==> (#[trigger] issues@[k]).filename@ == filename@,
        decreases pea.blocking.len() - j,
    {
        let b = chars_of(pea.blocking[j].as_str());
        let ghost t = bs.take(j + 1);
        let ghost prev = blocking_issue_msgs(bs.take(j as int));
        assert(t.drop_last() =~= bs.take(j as int));
        assert(t.last() == b@);
        proof {
            reveal_strlit("-");
            reveal_strlit(",");
        }
        if b.len() == 0 {
            let ghost o = issues@;
            push_issue(&mut issues, filename, "Empty blocking reference".to_owned(), false);
            assert(blocking_issue_msgs(t) == prev.push(("Empty blocking reference"@, false)));
            assert(issue_msgs(issues@) =~= base + blocking_issue_msgs(t));
        } else if !contains_chars(&b, &dash) && contains_chars(&b, &comma) {
            let msg = concat3(
                "Blocking '",
                pea.blocking[j].as_str(),
                "' appears to be comma-separated (should be array)",
            );
            push_issue(&mut issues, filename, msg, true);
            assert(blocking_issue_msgs(t) == prev.push((msg@, true)));
            assert(issue_msgs(issues@) =~= base + blocking_issue_msgs(t));
        } else {
            assert(blocking_issue_msgs(t) == prev);
        }
        j = j + 1;
    }
    assert(bs.take(pea.blocking.len() as int) =~= bs);
    proof {
        reveal_strlit("-");
        reveal_strlit(",");
    }
    assert(issue_msgs(issues@) =~= pea_issue_msgs(pea@));
    issues
}

// ---------------------------------------------------------------- summary

/// The issues still open after a run: with `fix`, the fixable ones are
/// gone.
pub open spec fn remaining(issues: Seq<FormatIssue>, fix: bool) -> Seq<FormatIssue> {
    issues.filter(|i: FormatIssue| !fix || !i.fixable)
}

/// What the format check concludes.
#[derive(Debug)]
pub struct FormatSummary {
    /// Whether the check passed.
    pub passed: bool,
    pub headline: String,
    /// One line per remaining issue.
    pub details: Vec<String>,
}

/// Sums up the format check over `total` tickets.
pub fn summarize_format(total: u64, issues: &Vec<FormatIssue>, fixed: u64, fix: bool) -> (r: FormatSummary)
    requires
        total > 0,
    ensures
        r.passed == (remaining(issues@, fix).len() == 0),
        r.details.len() == remaining(issues@, fix).len(),
        remaining(issues@, fix).len() == 0 && fixed == 0 ==> r.headline@ == "All "@ + decimal(
            total as nat,
        ) + " tickets are well-formed"@,
        remaining(issues@, fix).len() == 0 && fixed > 0 ==> r.headline@ == "Fixed "@ + decimal(
            fixed as nat,
        ) + " issues, all "@ + decimal(total as nat) + " tickets now well-formed"@,
        forall|k: int|
            0 <= k < r.details.len() ==> {
                let i = #[trigger] remaining(issues@, fix)[k];
                r.details@[k]@ == i.filename@ + ": "@ + i.message@ + (if i.fixable && !fix {
                    " [fixable]"@
                } else {
                    ""@
                })
            },
{
    let ghost f = |i: FormatIssue| !fix || !i.fixable;
    let mut details: Vec<String> = Vec::new();
    let mut fixable_count: u64 = 0;
    let mut k: usize = 0;
    while k < issues.len()
        invariant
            k <= issues.len(),
            f == (|i: FormatIssue| !fix || !i.fixable),
            details.len() == issues@.take(k as int).filter(f).len(),
            fixable_count <= k,
            forall|q: int|
                0 <= q < details.len() ==> {
                    let i = #[trigger] issues@.take(k as int).filter(f)[q];
                    details@[q]@ == i.filename@ + ": "@ + i.message@ + (if i.fixable && !fix {
                        " [fixable]"@
                    } else {
                        ""@
                    })
                },
        decreases issues.len() - k,
    {
        let ghost pre = issues@.take(k as int);
        let ghost next = issues@.take(k + 1);
        assert(next =~= pre.push(issues@[k as int]));
        proof {
            pre.lemma_filter_push(issues@[k as int], f);
        }
        let i = &issues[k];
        if i.fixable {
            fixable_count = fixable_count + 1;
        }
        if !fix || !i.fixable {
            let suffix = if i.fixable && !fix {
                " [fixable]"
            } else {
                ""
            };
            let mut line = concat3(i.filename.as_str(), ": ", i.message.as_str());
            line.append(suffix);
            details.push(line);
        }
        k = k + 1;
    }
    assert(issues@.take(issues.len() as int) =~= issues@);
    let n_remaining = details.len();
    let t = u64_to_string(total);
    if n_remaining == 0 && fixed == 0 {
        FormatSummary { passed: true, headline: concat3("All ", t.as_str(), " tickets are well-formed"), details }
    } else if n_remaining == 0 {
        let fx = u64_to_string(fixed);
        let mut h = concat3("Fixed ", fx.as_str(), " issues, all ");
        h.append(t.as_str());
        h.append(" tickets now well-formed");
        FormatSummary { passed: true, headline: h, details }
    } else {
        let r = u64_to_string(n_remaining as u64);
        let h = if fixable_count > 0 && !fix {
            let fc = u64_to_string(fixable_count);
            let mut h = concat(r.as_str(), " format issues (");
            h.append(fc.as_str());
            h.append(" auto-fixable with --fix)");
            h
        } else {
            concat(r.as_str(), " format issues")
        };
        FormatSummary { passed: false, headline: h, details }
    }
}

// ---------------------------------------------------------------- integrity

/// The ids of a list of tickets.
pub open spec fn ids_of(ps: Seq<PeaV>) -> Seq<Seq<char>> {
    ps.map_values(|p: PeaV| p.id)
}

/// The ids met again after an earlier ticket with the same id, in order.
pub open spec fn duplicate_ids(ps: Seq<PeaV>) -> Seq<Seq<char>>
    decreases ps.len(),
{
    if ps.len() == 0 {
        Seq::empty()
    } else {
        let prev = duplicate_ids(ps.drop_last());
        if ids_of(ps.drop_last()).contains(ps.last().id) {
            prev.push(ps.last().id)
        } else {
            prev
        }
    }
}

/// The parent references to tickets that do not exist, as (ticket,
/// parent) pairs, in order.
pub open spec fn orphan_parents(ps: Seq<PeaV>, known: Seq<Seq<char>>) -> Seq<(Seq<char>, Seq<char>)>
    decreases ps.len(),
{
    if ps.len() == 0 {
        Seq::empty()
    } else {
        let prev = orphan_parents(ps.drop_last(), known);
        match ps.last().parent {
            Some(par) => if known.contains(par) {
                prev
            } else {
                prev.push((ps.last().id, par))
            },
            None => prev,
        }
    }
}

/// The blocking references of one ticket to tickets that do not exist.
pub open spec fn orphan_blocks_of(id: Seq<char>, bs: Seq<Seq<char>>, known: Seq<Seq<char>>) -> Seq<(Seq<char>, Seq<char>)>
    decreases bs.len(),
{
    if bs.len() == 0 {
        Seq::empty()
    } else {
        let prev = orphan_blocks_of(id, bs.drop_last(), known);
        if known.contains(bs.last()) {
            prev
        } else {
            prev.push((id, bs.last()))
        }
    }
}

/// The blocking references to tickets that do not exist, as (ticket,
/// missing) pairs, in order.
pub open spec fn orphan_blocking(ps: Seq<PeaV>, known: Seq<Seq<char>>) -> Seq<(Seq<char>, Seq<char>)>
    decreases ps.len(),
{
    if ps.len() == 0 {
        Seq::empty()
    } else {
        orphan_blocking(ps.drop_last(), known) + orphan_blocks_of(ps.last().id, ps.last().blocking, known)
    }
}

/// What the integrity check finds among the tickets that parsed.
pub struct IntegrityReport {
    /// Ids met more than once, each time after the first.
    pub duplicates: Vec<String>,
    /// (ticket, parent) pairs whose parent does not exist.
    pub orphan_parents: Vec<(String, String)>,
    /// (ticket, blocked) pairs whose blocked ticket does not exist.
    pub orphan_blocking: Vec<(String, String)>,
    /// Whether any ticket has a parent.
    pub any_parent: bool,
    /// Whether any ticket blocks another.
    pub any_blocking: bool,
}

/// Checks the tickets' ids and references against each other.
pub fn check_integrity(peas: &Vec<Pea>) -> (r: IntegrityReport)
    ensures
        strs(r.duplicates@) == duplicate_ids(pea_views(peas@)),
        r.orphan_parents@.map_values(|x: (String, String)| (x.0@, x.1@)) == orphan_parents(
            pea_views(peas@),
            ids_of(pea_views(peas@)),
        ),
        r.orphan_blocking@.map_values(|x: (String, String)| (x.0@, x.1@)) == orphan_blocking(
            pea_views(peas@),
            ids_of(pea_views(peas@)),
        ),
        r.any_parent == exists|i: int| 0 <= i < peas@.len() && (#[trigger] peas@[i]).parent is Some,
        r.any_blocking == exists|i: int| 0 <= i < peas@.len() && (#[trigger] peas@[i]).blocking@.len() > 0,
{
    let ghost ps = pea_views(peas@);
    let mut ids: Vec<String> = Vec::new();
    let mut dups: Vec<String> = Vec::new();
    let mut k: usize = 0;
    while k < peas.len()
        invariant
            k <= peas@.len(),
            ps == pea_views(peas@),
            strs(ids@) == ids_of(ps.take(k as int)),
            strs(dups@) == duplicate_ids(ps.take(k as int)),
        decreases peas.len() - k,
    {
        let ghost t = ps.take(k + 1);
        assert(t.drop_last() =~= ps.take(k as int));
        assert(t.last() == peas@[k as int]@);
        let id = peas[k].id.as_str();
        if has_string(&ids, id) {
            let ghost o = dups@;
            dups.push(id.to_owned());
            assert(strs(dups@) =~= strs(o).push(id@));
        }
        let ghost oi = ids@;
        ids.push(id.to_owned());
        assert(strs(ids@) =~= strs(oi).push(id@));
        assert(ids_of(t) =~= ids_of(ps.take(k as int)).push(id@));
        k = k + 1;
    }
    assert(ps.take(peas.len() as int) =~= ps);
    let ghost known = ids_of(ps);
    let mut parents: Vec<(String, String)> = Vec::new();
    let mut blocking: Vec<(String, String)> = Vec::new();
    let mut any_parent = false;
    let mut any_blocking = false;
    k = 0;
    while k < peas.len()
        invariant
            k <= peas@.len(),
            ps == pea_views(peas@),
            known == ids_of(ps),
            strs(ids@) == known,
            parents@.map_values(|x: (String, String)| (x.0@, x.1@)) == orphan_parents(ps.take(k as int), known),
            blocking@.map_values(|x: (String, String)| (x.0@, x.1@)) == orphan_blocking(ps.take(k as int), known),
            any_parent == exists|i: int| 0 <= i < k && (#[trigger] peas@[i]).parent is Some,
            any_blocking == exists|i: int| 0 <= i < k && (#[trigger] peas@[i]).blocking@.len() > 0,
        decreases peas.len() - k,
    {
        let ghost t = ps.take(k + 1);
        assert(t.drop_last() =~= ps.take(k as int));
        assert(t.last() == peas@[k as int]@);
        let p = &peas[k];
        match &p.parent {
            Some(par) => {
                any_parent = true;
                if !has_string(&ids, par.as_str()) {
                    let ghost o = parents@;
                    parents.push((p.id.clone(), par.clone()));
                    assert(parents@.map_values(|x: (String, String)| (x.0@, x.1@)) =~= o.map_values(
                        |x: (String, String)| (x.0@, x.1@),
                    ).push((p.id@, par@)));
                }
            },
            None => {},
        }
        if p.blocking.len() > 0 {
            any_blocking = true;
        }
        let ghost before = blocking@.map_values(|x: (String, String)| (x.0@, x.1@));
        let ghost bs = p@.blocking;
        let mut j: usize = 0;
        while j < p.blocking.len()
            invariant
                j <= p.blocking@.len(),
                bs == p@.blocking,
                strs(ids@) == known,
                blocking@.map_values(|x: (String, String)| (x.0@, x.1@)) == before + orphan_blocks_of(
                    p@.id,
                    bs.take(j as int),
                    known,
                ),
            decreases p.blocking.len() - j,
        {
            let ghost tb = bs.take(j + 1);
            assert(tb.drop_last() =~= bs.take(j as int));
            assert(tb.last() == p.blocking@[j as int]@);
            if !has_string(&ids, p.blocking[j].as_str()) {
                let ghost o = blocking@;
                blocking.push((p.id.clone(), p.blocking[j].clone()));
                assert(blocking@.map_values(|x: (String, String)| (x.0@, x.1@)) =~= o.map_values(
                    |x: (String, String)| (x.0@, x.1@),
                ).push((p@.id, p.blocking@[j as int]@)));
            }
            j = j + 1;
        }
        assert(bs.take(p.blocking.len() as int) =~= bs);
        assert(blocking@.map_values(|x: (String, String)| (x.0@, x.1@)) =~= orphan_blocking(t, known));
        k = k + 1;
    }
    assert(ps.take(peas.len() as int) =~= ps);
    IntegrityReport {
        duplicates: dups,
        orphan_parents: parents,
        orphan_blocking: blocking,
        any_parent,
        any_blocking,
    }
}

// ---------------------------------------------------------------- id styles

/// The part of an id after its last `-` (the whole id when it has none).
pub open spec fn id_suffix(id: Seq<char>) -> Seq<char> {
    split_char(id, '-').last()
}

/// An id is sequential when its suffix is all digits.
pub open spec fn is_sequential_id(id: Seq<char>) -> bool {
    all_digits(id_suffix(id))
}

/// The ids of both styles, in order: sequential ones and random ones.
pub struct IdStyles {
    pub sequential: Vec<String>,
    pub random: Vec<String>,
}

fn last_piece(v: &Vec<char>) -> (r: Vec<char>)
    ensures
        r@ == split_char(v@, '-').last(),
{
    let pieces = split_at_char(v, '-');
    proof {
        crate::text::lemma_split_char_len(v@, '-');
    }
    let n = pieces.len();
    assert(views(pieces@)[n - 1] == pieces@[n - 1]@);
    slice_vec(&pieces[n - 1], 0, pieces[n - 1].len())
}

fn digits_only(v: &Vec<char>) -> (r: bool)
    ensures
        r == all_digits(v@),
{
    let mut i: usize = 0;
    while i < v.len()
        invariant
            i <= v.len(),
            forall|j: int| 0 <= j < i ==> crate::text::is_digit(#[trigger] v@[j]),
        decreases v.len() - i,
    {
        if !('0' <= v[i] && v[i] <= '9') {
            return false;
        }
        i = i + 1;
    }
    true
}

/// Sorts the tickets' ids by style.
pub fn id_styles(peas: &Vec<Pea>) -> (r: IdStyles)
    ensures
        strs(r.sequential@) == ids_of(pea_views(peas@)).filter(|id: Seq<char>| is_sequential_id(id)),
        strs(r.random@) == ids_of(pea_views(peas@)).filter(|id: Seq<char>| !is_sequential_id(id)),
{
    let ghost all = ids_of(pea_views(peas@));
    let ghost fs = |id: Seq<char>| is_sequential_id(id);
    let ghost fr = |id: Seq<char>| !is_sequential_id(id);
    let mut seqs: Vec<String> = Vec::new();
    let mut rands: Vec<String> = Vec::new();
    let mut k: usize = 0;
    while k < peas.len()
        invariant
            k <= peas@.len(),
            all == ids_of(pea_views(peas@)),
            fs == (|id: Seq<char>| is_sequential_id(id)),
            fr == (|id: Seq<char>| !is_sequential_id(id)),
            strs(seqs@) == all.take(k as int).filter(fs),
            strs(rands@) == all.take(k as int).filter(fr),
        decreases peas.len() - k,
    {
        let ghost pre = all.take(k as int);
        let ghost id = peas@[k as int]@.id;
        assert(all.take(k + 1) =~= pre.push(id));
        proof {
            pre.lemma_filter_push(id, fs);
            pre.lemma_filter_push(id, fr);
        }
        let v = chars_of(peas[k].id.as_str());
        let suffix = last_piece(&v);
        if digits_only(&suffix) {
            let ghost o = seqs@;
            seqs.push(peas[k].id.clone());
            assert(strs(seqs@) =~= strs(o).push(id));
        } else {
            let ghost o = rands@;
            rands.push(peas[k].id.clone());
            assert(strs(rands@) =~= strs(o).push(id));
        }
        k = k + 1;
    }
    assert(all.take(peas.len() as int) =~= all);
    IdStyles { sequential: seqs, random: rands }
}

// ---------------------------------------------------------------- counter

/// The number a ticket file name carries: the part before the first `--`,
/// then its piece after the last `-`, read as a number.
pub open spec fn file_number(filename: Seq<char>) -> Option<u64> {
    let id_part = match first_occurrence(filename, "--"@) {
        Some(i) => filename.take(i),
        None => filename,
    };
    parse_u64_spec(split_char(id_part, '-').last())
}

/// The largest number among the file names that carry one, and how many
/// do.
pub open spec fn highest_number(names: Seq<Seq<char>>) -> (nat, u64)
    decreases names.len(),
{
    if names.len() == 0 {
        (0, 0)
    } else {
        let (count, high) = highest_number(names.drop_last());
        match file_number(names.last()) {
            Some(n) => (count + 1, if n > high { n } else { high }),
            None => (count, high),
        }
    }
}

/// What the counter check concludes.
pub enum CounterVerdict {
    /// No file carries a sequential number.
    NoSequential,
    /// The counter is at least the highest number in use.
    InSync { counter: u64, highest: u64 },
    /// The counter is below the highest number in use.
    Behind { counter: u64, highest: u64 },
}

fn number_of(filename: &str) -> (r: Option<u64>)
    ensures
        r == file_number(filename@),
{
    let v = chars_of(filename);
    let dd = chars_of("--");
    let id_part = match crate::text::find_from(&v, &dd, 0) {
        Some(i) => {
            proof {
                lemma_first_unique(v@, dd@, i as int);
            }
            slice_vec(&v, 0, i)
        },
        None => {
            assert(!exists|i: int| is_first_from(v@, dd@, 0, i));
            slice_vec(&v, 0, v.len())
        },
    };
    assert(id_part@ =~= match first_occurrence(filename@, "--"@) {
        Some(i) => filename@.take(i),
        None => filename@,
    });
    let last = last_piece(&id_part);
    parse_u64(&last)
}

/// Compares the sequential counter (the counter file's content, trimmed
/// and read as a number, 0 when it does not read) with the numbers the
/// ticket file names carry.
pub fn check_counter(counter_file: &str, names: &Vec<String>) -> (r: CounterVerdict)
    ensures
        ({
            let counter: u64 = match parse_u64_spec(trim(counter_file@)) {
                Some(n) => n,
                None => 0,
            };
            let (count, high) = highest_number(strs(names@));
            if count == 0 {
                r is NoSequential
            } else if counter < high {
                r == CounterVerdict::Behind { counter, highest: high }
            } else {
                r == CounterVerdict::InSync { counter, highest: high }
            }
        }),
{
    let t = trim_str(counter_file);
    let counter = match parse_u64(&chars_of(t.as_str())) {
        Some(n) => n,
        None => 0,
    };
    let ghost all = strs(names@);
    let mut count: usize = 0;
    let mut high: u64 = 0;
    let mut k: usize = 0;
    while k < names.len()
        invariant
            k <= names@.len(),
            all == strs(names@),
            count <= k,
            highest_number(all.take(k as int)) == (count as nat, high),
        decreases names.len() - k,
    {
        let ghost tk = all.take(k + 1);
        assert(tk.drop_last() =~= all.take(k as int));
        assert(tk.last() == names@[k as int]@);
        match number_of(names[k].as_str()) {
            Some(n) => {
                count = count + 1;
                if n > high {
                    high = n;
                }
            },
            None => {},
        }
        k = k + 1;
    }
    assert(all.take(names.len() as int) =~= all);
    if count == 0 {
        CounterVerdict::NoSequential
    } else if counter < high {
        CounterVerdict::Behind { counter, highest: high }
    } else {
        CounterVerdict::InSync { counter, highest: high }
    }
}

// ---------------------------------------------------------------- config

/// What the configuration text shows.
pub struct ConfigFindings {
    /// It carries a schema directive.
    pub has_schema: bool,
    /// It carries the current schema URL.
    pub latest_schema: bool,
    /// It still sets the deprecated `path` option.
    pub deprecated_path: bool,
}

/// Reads the schema directive and deprecated options off a configuration.
pub fn inspect_config(content: &str) -> (r: ConfigFindings)
    ensures
        r.has_schema == (contains(content@, "#:schema"@) || contains(content@, "yaml-language-server:"@)
            || contains(content@, "\"$schema\""@)),
        r.latest_schema == contains(content@, SCHEMA_URL@),
        r.deprecated_path == (contains(content@, "path ="@) || contains(content@, "path:"@)),
{
    let has_schema = str_contains(content, "#:schema") || str_contains(content, "yaml-language-server:")
        || str_contains(content, "\"$schema\"");
    ConfigFindings {
        has_schema,
        latest_schema: str_contains(content, SCHEMA_URL),
        deprecated_path: str_contains(content, "path =") || str_contains(content, "path:"),
    }
}

/// A TOML configuration with the schema directive put in front.
pub fn add_schema_directive(content: &str) -> (r: String)
    ensures
        r@ == "#:schema "@ + SCHEMA_URL@ + "\n\n"@ + content@,
{
    let mut r = concat3("#:schema ", SCHEMA_URL, "\n\n");
    r.append(content);
    r
}

} // verus!
