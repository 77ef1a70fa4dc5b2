//! Framing of markdown documents with frontmatter: YAML between `---`
//! lines, TOML between `+++` lines, or a JSON object that opens with `{`
//! and closes with a `}` at the start of a line; then the body.
use vstd::prelude::*;
use crate::error::PeasError;
use crate::text::{
    chars_of, contains, ends_with, ends_with_chars, find_from, is_first_from, is_ws,
    lemma_lead_ws_unique, lemma_trail_ws_unique, lemma_trim_append_ws, lemma_trim_id,
    lemma_trim_prepend_ws, lemma_trimmed_ends, occurs_at, push_char, slice_vec, starts_with,
    starts_with_chars, string_of, trim, trim_bounds,
};

verus! {

/// Frontmatter format, detected from a document or chosen for rendering.
#[derive(Debug, Clone, Copy, PartialEq, Eq, Structural)]
pub enum FrontmatterFormat {
    Toml,
    Yaml,
    Json,
}

/// The delimiter line of a format.
pub open spec fn delim(f: FrontmatterFormat) -> Seq<char> {
    match f {
        FrontmatterFormat::Yaml => "---"@,
        FrontmatterFormat::Toml => "+++"@,
        FrontmatterFormat::Json => "{"@,
    }
}

impl FrontmatterFormat {
    /// Returns the delimiter string for this format.
    pub fn delimiter(&self) -> (r: &'static str)
        ensures
            r@ == delim(*self),
    {
        match self {
            FrontmatterFormat::Yaml => "---",
            FrontmatterFormat::Toml => "+++",
            FrontmatterFormat::Json => "{",
        }
    }
}

impl Default for FrontmatterFormat {
    fn default() -> (r: FrontmatterFormat)
        ensures
            r == FrontmatterFormat::Toml,
    {
        FrontmatterFormat::Toml
    }
}

/// The format whose delimiter the trimmed content starts with, YAML first.
pub open spec fn detect_spec(content: Seq<char>) -> Option<FrontmatterFormat> {
    let c = trim(content);
    if starts_with(c, "---"@) {
        Some(FrontmatterFormat::Yaml)
    } else if starts_with(c, "+++"@) {
        Some(FrontmatterFormat::Toml)
    } else if starts_with(c, "{"@) {
        Some(FrontmatterFormat::Json)
    } else {
        None
    }
}

/// Detects the frontmatter format from content.
pub fn detect_format(content: &str) -> (r: Option<FrontmatterFormat>)
    ensures
        r == detect_spec(content@),
{
    let v = chars_of(content);
    let (a, b) = trim_bounds(&v);
    let c = slice_vec(&v, a, b);
    let yaml = chars_of("---");
    let toml = chars_of("+++");
    let json = chars_of("{");
    if starts_with_chars(&c, &yaml) {
        Some(FrontmatterFormat::Yaml)
    } else if starts_with_chars(&c, &toml) {
        Some(FrontmatterFormat::Toml)
    } else if starts_with_chars(&c, &json) {
        Some(FrontmatterFormat::Json)
    } else {
        None
    }
}

/// The two parts of a framed document.
#[derive(Debug, PartialEq, Eq)]
pub struct Framed {
    /// The frontmatter text, trimmed.
    pub frontmatter: String,
    /// The body, trimmed.
    pub body: String,
}

/// The message of a document that does not open with the delimiter.
pub open spec fn expected_msg(f: FrontmatterFormat) -> Seq<char> {
    match f {
        FrontmatterFormat::Yaml => "Expected YAML (---) frontmatter delimiter"@,
        FrontmatterFormat::Toml => "Expected TOML (+++) frontmatter delimiter"@,
        FrontmatterFormat::Json => "Expected JSON ({) frontmatter"@,
    }
}

/// What closes JSON frontmatter: a `}` at the start of a line.
pub open spec fn json_close() -> Seq<char> {
    "\n}"@
}

/// How a document with JSON frontmatter is split: after trimming, it must
/// open with `{`; the frontmatter runs to the first `}` that starts a
/// line, inclusive; the body is the trimmed rest.
pub open spec fn json_split_spec(content: Seq<char>) -> Result<(Seq<char>, Seq<char>), Seq<char>> {
    let c = trim(content);
    if !starts_with(c, "{"@) {
        Err(expected_msg(FrontmatterFormat::Json))
    } else if !(exists|e: int| is_first_from(c, json_close(), 0, e)) {
        Err("Missing closing frontmatter brace"@)
    } else {
        let e = choose|e: int| is_first_from(c, json_close(), 0, e);
        Ok((c.take(e + 2), trim(c.skip(e + 2))))
    }
}

/// How a document is split, in `format`: after trimming, it must open with
/// the delimiter; the frontmatter runs to the next delimiter and is trimmed;
/// the body is the trimmed rest after that delimiter. JSON frontmatter is
/// split as `json_split_spec` says.
pub open spec fn split_spec(content: Seq<char>, f: FrontmatterFormat) -> Result<
    (Seq<char>, Seq<char>),
    Seq<char>,
> {
    let c = trim(content);
    let d = delim(f);
    let after = c.skip(3);
    if f == FrontmatterFormat::Json {
        json_split_spec(content)
    } else if !starts_with(c, d) {
        Err(expected_msg(f))
    } else if !(exists|e: int| is_first_from(after, d, 0, e)) {
        Err("Missing closing frontmatter delimiter"@)
    } else {
        let e = choose|e: int| is_first_from(after, d, 0, e);
        Ok((trim(after.take(e)), trim(c.skip(3 + e + 3))))
    }
}

/// Splits a document with JSON frontmatter.
fn split_json(content: &str) -> (r: Result<Framed, PeasError>)
    ensures
        match json_split_spec(content@) {
            Ok((fm, body)) => r matches Ok(x) && x.frontmatter@ == fm && x.body@ == body,
            Err(m) => r matches Err(PeasError::Parse(e)) && e@ == m,
        },
{
    let v = chars_of(content);
    let (a, b) = trim_bounds(&v);
    let c = slice_vec(&v, a, b);
    let open = chars_of("{");
    let close = chars_of("\n}");
    proof {
        reveal_strlit("\n}");
        assert(close@ =~= json_close());
    }
    if !starts_with_chars(&c, &open) {
        return Err(PeasError::Parse("Expected JSON ({) frontmatter".to_owned()));
    }
    match find_from(&c, &close, 0) {
        None => {
            assert(!(exists|e: int| is_first_from(c@, json_close(), 0, e)));
            Err(PeasError::Parse("Missing closing frontmatter brace".to_owned()))
        },
        Some(e) => {
            proof {
                assert forall|k: int| is_first_from(c@, json_close(), 0, k) implies k == e by {
                    if k < e {
                    } else if k > e {
                    }
                }
            }
            let fm = string_of(&slice_vec(&c, 0, e + 2));
            let rest = slice_vec(&c, e + 2, c.len());
            let (ra, rb) = trim_bounds(&rest);
            let body = string_of(&slice_vec(&rest, ra, rb));
            proof {
                assert(rest@ == c@.skip(e + 2));
            }
            Ok(Framed { frontmatter: fm, body })
        },
    }
}

/// Splits a document in a given frontmatter format.
pub fn split_with_format(content: &str, format: FrontmatterFormat) -> (r: Result<Framed, PeasError>)
    ensures
        match split_spec(content@, format) {
            Ok((fm, body)) => r matches Ok(x) && x.frontmatter@ == fm && x.body@ == body,
            Err(m) => r matches Err(PeasError::Parse(e)) && e@ == m,
        },
{
    if format == FrontmatterFormat::Json {
        return split_json(content);
    }
    let v = chars_of(content);
    let (a, b) = trim_bounds(&v);
    let c = slice_vec(&v, a, b);
    let d = chars_of(format.delimiter());
    proof {
        reveal_strlit("---");
        reveal_strlit("+++");
        assert(d@.len() == 3);
    }
    if !starts_with_chars(&c, &d) {
        let msg = match format {
            FrontmatterFormat::Yaml => "Expected YAML (---) frontmatter delimiter",
            FrontmatterFormat::Toml => "Expected TOML (+++) frontmatter delimiter",
            FrontmatterFormat::Json => "Expected JSON ({) frontmatter",
        };
        return Err(PeasError::Parse(msg.to_owned()));
    }
    let after = slice_vec(&c, 3, c.len());
    match find_from(&after, &d, 0) {
        None => {
            assert(!(exists|e: int| is_first_from(after@, d@, 0, e)));
            Err(PeasError::Parse("Missing closing frontmatter delimiter".to_owned()))
        },
        Some(e) => {
            proof {
                assert(occurs_at(after@, d@, e as int));
                assert forall|k: int| is_first_from(after@, d@, 0, k) implies k == e by {
                    if k < e {
                    } else if k > e {
                    }
                }
            }
            let fm_raw = slice_vec(&after, 0, e);
            let (fa, fb) = trim_bounds(&fm_raw);
            let fm = string_of(&slice_vec(&fm_raw, fa, fb));
            let rest = slice_vec(&c, 3 + e + 3, c.len());
            let (ra, rb) = trim_bounds(&rest);
            let body = string_of(&slice_vec(&rest, ra, rb));
            proof {
                assert(after@ == c@.skip(3));
                assert(fm_raw@ == after@.take(e as int));
                assert(rest@ == c@.skip(3 + e + 3));
            }
            Ok(Framed { frontmatter: fm, body })
        },
    }
}

/// What splitting a document of detected format gives.
pub open spec fn split_auto_spec(content: Seq<char>) -> Result<
    (FrontmatterFormat, Seq<char>, Seq<char>),
    Seq<char>,
> {
    match detect_spec(content) {
        None => Err("Missing frontmatter delimiter (--- for YAML or +++ for TOML)"@),
        Some(f) => match split_spec(content, f) {
            Ok((fm, body)) => Ok((f, fm, body)),
            Err(m) => Err(m),
        },
    }
}

/// Splits a document whose format is detected from its first delimiter.
pub fn split_markdown(content: &str) -> (r: Result<(FrontmatterFormat, Framed), PeasError>)
    ensures
        match split_auto_spec(content@) {
            Ok((f, fm, body)) => r matches Ok((g, x)) && g == f && x.frontmatter@ == fm && x.body@
                == body,
            Err(m) => r matches Err(PeasError::Parse(e)) && e@ == m,
        },
{
    match detect_format(content) {
        None => Err(
            PeasError::Parse(
                "Missing frontmatter delimiter (--- for YAML or +++ for TOML)".to_owned(),
            ),
        ),
        Some(f) => match split_with_format(content, f) {
            Ok(x) => Ok((f, x)),
            Err(e) => Err(e),
        },
    }
}

/// The document that rendering gives: the delimiter line, the frontmatter
/// (ending in a newline), the delimiter line (for JSON, the frontmatter,
/// ending in a newline, alone), then a blank line and the body with a final
/// newline when there is a body.
pub open spec fn render_spec(f: FrontmatterFormat, fm: Seq<char>, body: Seq<char>) -> Seq<char> {
    let d = delim(f);
    let sep = if ends_with(fm, seq!['\n']) {
        Seq::empty()
    } else {
        seq!['\n']
    };
    let head = if f == FrontmatterFormat::Json {
        fm + sep
    } else {
        d + seq!['\n'] + fm + sep + d + seq!['\n']
    };
    if body.len() == 0 {
        head
    } else {
        head + seq!['\n'] + body + seq!['\n']
    }
}

fn push_str(out: &mut String, s: &str)
    ensures
        final(out)@ == old(out)@ + s@,
{
    out.append(s);
}

/// Renders a document from its serialized frontmatter and its body.
pub fn render_document(format: FrontmatterFormat, frontmatter: &str, body: &str) -> (r: String)
    ensures
        r@ == render_spec(format, frontmatter@, body@),
{
    let delimiter = format.delimiter();
    let json = format == FrontmatterFormat::Json;
    let mut output = String::new();
    if !json {
        push_str(&mut output, delimiter);
        push_char(&mut output, '\n');
    }
    push_str(&mut output, frontmatter);
    let fm = chars_of(frontmatter);
    let nl = chars_of("\n");
    proof {
        reveal_strlit("\n");
        assert(nl@ =~= seq!['\n']);
    }
    if !ends_with_chars(&fm, &nl) {
        push_char(&mut output, '\n');
    }
    if !json {
        push_str(&mut output, delimiter);
        push_char(&mut output, '\n');
    }
    if !body.is_empty() {
        push_char(&mut output, '\n');
        push_str(&mut output, body);
        push_char(&mut output, '\n');
    }
    proof {
        let d = delim(format);
        let sep = if ends_with(frontmatter@, seq!['\n']) {
            Seq::empty()
        } else {
            seq!['\n']
        };
        let head = if json {
            frontmatter@ + sep
        } else {
            d + seq!['\n'] + frontmatter@ + sep + d + seq!['\n']
        };
        if body@.len() == 0 {
            assert(output@ =~= head);
        } else {
            assert(output@ =~= head + seq!['\n'] + body@ + seq!['\n']);
        }
    }
    output
}

/// The delimiter lines are three characters, none of them whitespace or a
/// newline, and the two formats' delimiters differ in their first one.
proof fn lemma_delims()
    ensures
        forall|f: FrontmatterFormat| f != FrontmatterFormat::Json ==> #[trigger] delim(f).len() == 3,
        forall|f: FrontmatterFormat, i: int|
            f != FrontmatterFormat::Json && 0 <= i < 3 ==> !is_ws(#[trigger] delim(f)[i]) && delim(f)[i] != '\n',
        delim(FrontmatterFormat::Yaml)[0] == '-',
        delim(FrontmatterFormat::Toml)[0] == '+',
{
    reveal_strlit("---");
    reveal_strlit("+++");
}

/// The separator rendering puts after the frontmatter.
pub open spec fn fm_sep(fm: Seq<char>) -> Seq<char> {
    if ends_with(fm, seq!['\n']) {
        Seq::empty()
    } else {
        seq!['\n']
    }
}

/// A rendered document, trimmed, loses only its final newline, and its
/// format is detected again.
proof fn lemma_render_trim(f: FrontmatterFormat, fm: Seq<char>, body: Seq<char>)
    requires
        f != FrontmatterFormat::Json,
        trim(body) == body,
    ensures
        trim(render_spec(f, fm, body)) == render_spec(f, fm, body).drop_last(),
        detect_spec(render_spec(f, fm, body)) == Some(f),
{
    lemma_delims();
    let d = delim(f);
    let nl = seq!['\n'];
    let head = d + nl + fm + fm_sep(fm) + d + nl;
    let x = render_spec(f, fm, body);
    let c = x.drop_last();
    assert(x[0] == d[0]);
    lemma_lead_ws_unique(x, 0);
    if body.len() > 0 {
        lemma_trimmed_ends(body);
        assert(x =~= head + nl + body + nl);
        assert(x[x.len() - 2] == body.last());
    } else {
        assert(x =~= head);
        assert(x[x.len() - 2] == d[2]);
    }
    assert(x[x.len() - 1] == '\n');
    lemma_trail_ws_unique(x, 1);
    assert(x.skip(0) =~= x);
    assert(trim(x) =~= c);
    assert(c.take(3) =~= d);
    reveal_strlit("---");
    if f == FrontmatterFormat::Toml {
        assert(c.take(3) != "---"@) by {
            assert(c.take(3)[0] == '+');
        }
    }
}

/// After the opening delimiter, the first delimiter is the one that closes
/// the frontmatter, when the frontmatter holds none.
proof fn lemma_first_close(f: FrontmatterFormat, fm: Seq<char>, tail: Seq<char>)
    requires
        f != FrontmatterFormat::Json,
        !contains(fm, delim(f)),
    ensures
        ({
            let after = seq!['\n'] + fm + fm_sep(fm) + delim(f) + tail;
            let e0 = (1 + fm.len() + fm_sep(fm).len()) as int;
            &&& is_first_from(after, delim(f), 0, e0)
            &&& forall|k: int| is_first_from(after, delim(f), 0, k) ==> k == e0
        }),
{
    lemma_delims();
    let d = delim(f);
    let nl = seq!['\n'];
    let sep = fm_sep(fm);
    let after = nl + fm + sep + d + tail;
    let e0: int = (1 + fm.len() + sep.len()) as int;
    assert(after.subrange(e0, e0 + 3) =~= d);
    assert forall|j: int| 0 <= j < e0 implies !occurs_at(after, d, j) by {
        if occurs_at(after, d, j) {
            let w = after.subrange(j, j + 3);
            if j == 0 {
                assert(w[0] == '\n');
            } else if j + 3 <= 1 + fm.len() {
                assert(fm.subrange(j - 1, j - 1 + 3) =~= w);
                assert(occurs_at(fm, d, j - 1));
            } else if sep.len() == 1 {
                assert(after[(1 + fm.len()) as int] == '\n');
                assert(w[1 + fm.len() - j] == '\n');
            } else {
                assert(fm[fm.len() - 1] == '\n') by {
                    assert(fm.skip(fm.len() - 1) =~= nl);
                    assert(fm.skip(fm.len() - 1)[0] == fm[fm.len() - 1]);
                }
                assert(after[fm.len() as int] == fm[fm.len() - 1]);
                assert(w[fm.len() - j] == '\n');
            }
        }
    }
    assert(is_first_from(after, d, 0, e0));
    assert forall|k: int| is_first_from(after, d, 0, k) implies k == e0 by {
        if k > e0 {
            assert(occurs_at(after, d, e0));
        }
    }
}

/// JSON frontmatter as the framing reads it back: it opens with `{`, and
/// its first `}` at the start of a line is its last character.
pub open spec fn json_frontmatter(fm: Seq<char>) -> bool {
    fm.len() >= 3 && fm[0] == '{' && is_first_from(fm, json_close(), 0, fm.len() - 2)
}

/// The JSON case of the round trip.
#[verifier::spinoff_prover]
proof fn json_round_trip(fm: Seq<char>, body: Seq<char>)
    requires
        json_frontmatter(fm),
        trim(body) == body,
    ensures
        split_auto_spec(render_spec(FrontmatterFormat::Json, fm, body)) == Ok::<
            (FrontmatterFormat, Seq<char>, Seq<char>),
            Seq<char>,
        >((FrontmatterFormat::Json, trim(fm), body)),
{
    reveal_strlit("\n}");
    reveal_strlit("{");
    reveal_strlit("---");
    reveal_strlit("+++");
    let nl = seq!['\n'];
    let f = FrontmatterFormat::Json;
    let x = render_spec(f, fm, body);
    let n = fm.len() as int;
    let e = n - 2;
    assert(fm.subrange(e, e + 2) =~= json_close());
    assert(fm[n - 1] == '}') by {
        assert(fm.subrange(e, e + 2)[1] == fm[n - 1]);
    }
    assert(fm_sep(fm) =~= nl) by {
        if ends_with(fm, nl) {
            assert(fm.skip(n - 1)[0] == fm[n - 1]);
        }
    }
    lemma_trim_id(fm);
    let c: Seq<char> = if body.len() > 0 {
        fm + nl + nl + body
    } else {
        fm
    };
    if body.len() > 0 {
        lemma_trimmed_ends(body);
        assert(x =~= c + nl);
    } else {
        assert(x =~= c + nl);
    }
    assert(x[0] == '{');
    lemma_lead_ws_unique(x, 0);
    assert(x[x.len() - 1] == '\n');
    assert(x[x.len() - 2] == c.last());
    lemma_trail_ws_unique(x, 1);
    assert(x.skip(0) =~= x);
    assert(x.drop_last() =~= c);
    assert(trim(x) =~= c);
    assert(c.take(1) =~= "{"@);
    assert(c.take(3) != "---"@ && c.take(3) != "+++"@) by {
        assert(c.take(3)[0] == '{');
    }
    assert(detect_spec(x) == Some(f));
    assert(c.subrange(e, e + 2) =~= fm.subrange(e, e + 2));
    assert forall|j: int| 0 <= j < e implies !occurs_at(c, json_close(), j) by {
        assert(!occurs_at(fm, json_close(), j));
        assert(c.subrange(j, j + 2) =~= fm.subrange(j, j + 2));
    }
    assert(is_first_from(c, json_close(), 0, e));
    assert forall|k: int| is_first_from(c, json_close(), 0, k) implies k == e by {
        if k > e {
            assert(occurs_at(c, json_close(), e));
        }
    }
    assert(c.take(e + 2) =~= fm);
    if body.len() > 0 {
        assert(c.skip(e + 2) =~= nl + (nl + body));
        lemma_trim_prepend_ws('\n', body);
        lemma_trim_prepend_ws('\n', nl + body);
    } else {
        assert(c.skip(e + 2) =~= Seq::<char>::empty());
        lemma_trim_id(Seq::<char>::empty());
    }
    assert(trim(x) == c);
    assert(starts_with(c, "{"@));
    let k = choose|k: int| is_first_from(c, json_close(), 0, k);
    assert(k == e);
    assert(trim(c.skip(e + 2)) == body);
    assert(json_split_spec(x) == Ok::<(Seq<char>, Seq<char>), Seq<char>>((fm, body)));
}

/// Rendering then splitting gives back the trimmed frontmatter and the
/// body, in the format rendered, whenever the frontmatter holds no delimiter
/// (JSON frontmatter: it is a `{` object whose closing `}` is the first at
/// the start of a line) and the body is trimmed: a document survives a
/// write and a read.
#[verifier::spinoff_prover]
#[verifier::rlimit(40)]
pub proof fn framing_round_trip(f: FrontmatterFormat, fm: Seq<char>, body: Seq<char>)
    requires
        f != FrontmatterFormat::Json ==> !contains(fm, delim(f)),
        f == FrontmatterFormat::Json ==> json_frontmatter(fm),
        trim(body) == body,
    ensures
        split_auto_spec(render_spec(f, fm, body)) == Ok::<
            (FrontmatterFormat, Seq<char>, Seq<char>),
            Seq<char>,
        >((f, trim(fm), body)),
{
    if f == FrontmatterFormat::Json {
        json_round_trip(fm, body);
    } else {
        text_round_trip(f, fm, body);
    }
}

/// The round trip of YAML and TOML frontmatter.
#[verifier::spinoff_prover]
#[verifier::rlimit(40)]
proof fn text_round_trip(f: FrontmatterFormat, fm: Seq<char>, body: Seq<char>)
    requires
        f != FrontmatterFormat::Json,
        !contains(fm, delim(f)),
        trim(body) == body,
    ensures
        split_auto_spec(render_spec(f, fm, body)) == Ok::<
            (FrontmatterFormat, Seq<char>, Seq<char>),
            Seq<char>,
        >((f, trim(fm), body)),
{
    lemma_delims();
    let d = delim(f);
    let nl = seq!['\n'];
    let sep = fm_sep(fm);
    let x = render_spec(f, fm, body);
    lemma_render_trim(f, fm, body);
    let c = x.drop_last();
    let tail: Seq<char> = if body.len() > 0 {
        nl + nl + body
    } else {
        Seq::empty()
    };
    let after = c.skip(3);
    assert(after =~= nl + fm + sep + d + tail);
    lemma_first_close(f, fm, tail);
    let e0: int = (1 + fm.len() + sep.len()) as int;
    assert(starts_with(c, d)) by {
        assert(c.take(3) =~= d);
    }
    assert(after.take(e0) =~= nl + (fm + sep));
    lemma_trim_prepend_ws('\n', fm + sep);
    if sep.len() == 1 {
        lemma_trim_append_ws(fm, '\n');
        assert(fm + sep =~= fm + nl);
    } else {
        assert(fm + sep =~= fm);
    }
    assert(trim(after.take(e0)) == trim(fm));
    if body.len() > 0 {
        assert(c.skip(3 + e0 + 3) =~= nl + (nl + body));
        lemma_trim_prepend_ws('\n', body);
        lemma_trim_prepend_ws('\n', nl + body);
    } else {
        assert(c.skip(3 + e0 + 3) =~= Seq::<char>::empty());
        lemma_trim_id(Seq::<char>::empty());
    }
    assert(trim(c.skip(3 + e0 + 3)) == body);
    assert(split_spec(x, f) == Ok::<(Seq<char>, Seq<char>), Seq<char>>((trim(fm), body)));
}

} // verus!
