//! The beans exchange format: framing a beans file, finding its id,
//! turning its fields into a ticket, and writing a ticket as beans.
use vstd::prelude::*;
use crate::error::PeasError;
use crate::migrate::join_strings;
use crate::model::{
    fresh_pea, opt_str, pea_type_name, priority_from_lower, priority_name, priority_name_round_trip,
    status_from_lower, status_name, status_name_round_trip, strs, type_from_lower, type_name_round_trip,
    Pea, PeaPriority, PeaStatus, PeaType, PeaV, Timestamp,
};
use crate::text::{
    lemma_split_no_nl,
    clone_strings,
    split_nl, strip_cr, trail_ws, lemma_trimmed_ends, lemma_trim_id, lemma_lead_ws_unique, lemma_trail_ws,
    lemma_trim_prepend_ws, lemma_trail_ws_unique, lemma_first_unique, is_first_from, occurs_at, chars_of, concat, concat3, contains, ends_with, ends_with_chars, first_occurrence, join, lines,
    lines_of, slice_vec, spec_to_lowercase, starts_with, str_starts_with, string_of, trim, trim_str,
};

verus! {

// ------------------------------------------------------------ the id

/// `s` with every trailing `p` removed (`trim_end_matches`).
pub open spec fn trim_end_all(s: Seq<char>, p: Seq<char>) -> Seq<char>
    decreases s.len(),
{
    if p.len() > 0 && ends_with(s, p) {
        trim_end_all(s.take(s.len() - p.len()), p)
    } else {
        s
    }
}

/// The id written in the first comment line that holds one (`# id`).
pub open spec fn comment_id(ls: Seq<Seq<char>>) -> Option<Seq<char>>
    decreases ls.len(),
{
    if ls.len() == 0 {
        None
    } else {
        let t = trim(ls[0]);
        if starts_with(t, "#"@) && trim(t.drop_first()).len() > 0 {
            Some(trim(t.drop_first()))
        } else {
            comment_id(ls.drop_first())
        }
    }
}

/// The id of a beans file: from the first comment in its frontmatter that
/// holds one, else the part of the file name before `--` (with `.md`
/// endings removed), else an error.
pub open spec fn beans_id_spec(frontmatter: Seq<char>, filename: Seq<char>) -> Result<Seq<char>, Seq<char>> {
    match comment_id(lines(frontmatter)) {
        Some(id) => Ok(id),
        None => {
            let stem = trim_end_all(filename, ".md"@);
            match first_occurrence(stem, "--"@) {
                Some(i) => Ok(stem.take(i)),
                None => Err("Could not extract ID from file: "@ + filename),
            }
        },
    }
}

fn strip_md(filename: &str) -> (r: Vec<char>)
    ensures
        r@ == trim_end_all(filename@, ".md"@),
{
    let mut v = chars_of(filename);
    let md = chars_of(".md");
    proof {
        reveal_strlit(".md");
    }
    while ends_with_chars(&v, &md)
        invariant
            md@ == ".md"@,
            trim_end_all(v@, ".md"@) == trim_end_all(filename@, ".md"@),
        decreases v@.len(),
    {
        proof {
            reveal_strlit(".md");
        }
        let n = v.len() - 3;
        let ghost old_v = v@;
        v = slice_vec(&v, 0, n);
        assert(v@ =~= old_v.take(old_v.len() - 3));
    }
    v
}

/// Extracts the id of a beans file from its frontmatter or file name.
pub fn extract_beans_id(frontmatter: &str, filename: &str) -> (r: Result<String, PeasError>)
    ensures
        match beans_id_spec(frontmatter@, filename@) {
            Ok(id) => r matches Ok(s) && s@ == id,
            Err(m) => r matches Err(e) && e matches PeasError::Parse(x) && x@ == m,
        },
{
    let ls = lines_of(frontmatter);
    let ghost all = strs(ls@);
    assert(all.skip(0) =~= all);
    proof {
        reveal_strlit("#");
    }
    let mut k: usize = 0;
    while k < ls.len()
        invariant
            k <= ls@.len(),
            "#"@.len() == 1,
            all == strs(ls@),
            all == lines(frontmatter@),
            comment_id(all) == comment_id(all.skip(k as int)),
        decreases ls.len() - k,
    {
        let ghost rest = all.skip(k as int);
        assert(rest[0] == ls@[k as int]@);
        assert(rest.drop_first() =~= all.skip(k + 1));
        let t = trim_str(ls[k].as_str());
        if str_starts_with(t.as_str(), "#") {
            let v = chars_of(t.as_str());
            let after = slice_vec(&v, 1, v.len());
            assert(after@ =~= t@.drop_first());
            let id = trim_str(string_of(&after).as_str());
            if !id.as_str().is_empty() {
                return Ok(id);
            }
        }
        k = k + 1;
    }
    assert(all.skip(ls.len() as int) =~= Seq::<Seq<char>>::empty());
    let stem = strip_md(filename);
    let dash = chars_of("--");
    match crate::text::find_from(&stem, &dash, 0) {
        Some(i) => {
            proof {
                crate::text::lemma_first_unique(stem@, dash@, i as int);
            }
            let head = slice_vec(&stem, 0, i);
            assert(head@ =~= stem@.take(i as int));
            Ok(string_of(&head))
        },
        None => {
            assert(!exists|i: int| crate::text::is_first_from(stem@, dash@, 0, i));
            Err(PeasError::Parse(concat("Could not extract ID from file: ", filename)))
        },
    }
}

// ------------------------------------------------------------ framing

/// The parts of a beans file: its id, the YAML of its frontmatter without
/// comment lines, and its body.
pub struct BeansParts {
    pub id: String,
    pub yaml: String,
    pub body: String,
}

/// Keeps the lines that are not comments (after trimming, they do not
/// start with `#`).
pub open spec fn without_comments(ls: Seq<Seq<char>>) -> Seq<Seq<char>> {
    ls.filter(|l: Seq<char>| !starts_with(trim(l), "#"@))
}

/// How a beans file splits: it must open with `---` (after trimming), and
/// the frontmatter ends at the first `\n---` after that; the frontmatter
/// and body are trimmed.
pub open spec fn beans_split(content: Seq<char>) -> Result<(Seq<char>, Seq<char>), Seq<char>> {
    let c = trim(content);
    if !starts_with(c, "---"@) {
        Err("Beans file must start with YAML frontmatter (---)"@)
    } else {
        let rest = c.skip(3);
        match first_occurrence(rest, "\n---"@) {
            None => Err("Missing closing frontmatter delimiter"@),
            Some(e) => Ok((trim(rest.take(e)), trim(rest.skip(e + 4)))),
        }
    }
}

/// Splits a beans file into its id, comment-free YAML and body.
pub fn split_beans(content: &str, filename: &str) -> (r: Result<BeansParts, PeasError>)
    ensures
        match beans_split(content@) {
            Err(m) => r matches Err(e) && e matches PeasError::Parse(x) && x@ == m,
            Ok((fm, body)) => match beans_id_spec(fm, filename@) {
                Err(m) => r matches Err(e) && e matches PeasError::Parse(x) && x@ == m,
                Ok(id) => r matches Ok(p) && p.id@ == id && p.body@ == body && p.yaml@ == join(
                    without_comments(lines(fm)),
                    "\n"@,
                ),
            },
        },
{
    let c = trim_str(content);
    proof {
        reveal_strlit("---");
        reveal_strlit("#");
    }
    if !str_starts_with(c.as_str(), "---") {
        return Err(PeasError::Parse("Beans file must start with YAML frontmatter (---)".to_owned()));
    }
    let v = chars_of(c.as_str());
    let rest = slice_vec(&v, 3, v.len());
    assert(rest@ =~= c@.skip(3));
    let close = chars_of("\n---");
    let e = match crate::text::find_from(&rest, &close, 0) {
        Some(e) => {
            proof {
                crate::text::lemma_first_unique(rest@, close@, e as int);
            }
            e
        },
        None => {
            assert(!exists|i: int| crate::text::is_first_from(rest@, close@, 0, i));
            return Err(PeasError::Parse("Missing closing frontmatter delimiter".to_owned()));
        },
    };
    proof {
        reveal_strlit("\n---");
    }
    let fm_raw = slice_vec(&rest, 0, e);
    assert(fm_raw@ =~= rest@.take(e as int));
    let body_raw = slice_vec(&rest, e + 4, rest.len());
    assert(body_raw@ =~= rest@.skip(e + 4));
    let fm = trim_str(string_of(&fm_raw).as_str());
    let body = trim_str(string_of(&body_raw).as_str());
    let id = extract_beans_id(fm.as_str(), filename)?;
    let ls = lines_of(fm.as_str());
    let ghost all = strs(ls@);
    let ghost f = |l: Seq<char>| !starts_with(trim(l), "#"@);
    let mut kept: Vec<String> = Vec::new();
    let mut k: usize = 0;
    let n = ls.len();
    for line in it: ls
        invariant
            all == strs(it.seq()),
            k == it.index(),
            k <= all.len(),
            all.len() == n,
            f == (|l: Seq<char>| !starts_with(trim(l), "#"@)),
            strs(kept@) == all.take(k as int).filter(f),
    {
        let ghost pre = all.take(k as int);
        assert(all.take(k + 1) =~= pre.push(line@));
        proof {
            pre.lemma_filter_push(line@, f);
        }
        let t = trim_str(line.as_str());
        if !str_starts_with(t.as_str(), "#") {
            let ghost o = kept@;
            let ghost lv = line@;
            kept.push(line);
            assert(strs(kept@) =~= strs(o).push(lv));
        }
        k = k + 1;
    }
    assert(all.take(n as int) =~= all);
    let yaml = join_strings(&kept, "\n");
    Ok(BeansParts { id, yaml, body })
}

// ------------------------------------------------------------ fields

/// The fields of a beans frontmatter, as read from its YAML.
pub struct BeansFields {
    pub title: String,
    pub status: String,
    pub pea_type: String,
    /// `normal` when the file gives none.
    pub priority: String,
    pub created_at: Timestamp,
    pub updated_at: Timestamp,
    pub parent: Option<String>,
    pub tags: Vec<String>,
    pub blocking: Vec<String>,
}

/// The ticket a beans file describes: names that do not parse fall back to
/// the defaults (task, todo, normal).
pub open spec fn beans_pea_spec(id: Seq<char>, f: BeansFields, body: Seq<char>, at: Timestamp) -> PeaV {
    let base = fresh_pea(
        id,
        f.title@,
        match type_from_lower(spec_to_lowercase(f.pea_type@)) {
            Some(t) => t,
            None => PeaType::Task,
        },
        at,
    );
    PeaV {
        status: match status_from_lower(spec_to_lowercase(f.status@)) {
            Some(s) => s,
            None => PeaStatus::Todo,
        },
        priority: match priority_from_lower(spec_to_lowercase(f.priority@)) {
            Some(p) => p,
            None => PeaPriority::Normal,
        },
        body,
        created: f.created_at,
        updated: f.updated_at,
        parent: match f.parent {
            Some(p) => Some(p@),
            None => None,
        },
        tags: strs(f.tags@),
        blocking: strs(f.blocking@),
        ..base
    }
}

/// Builds the ticket a beans file describes.
pub fn beans_to_pea(id: String, f: BeansFields, body: String) -> (r: Pea)
    ensures
        r@ == beans_pea_spec(id@, f, body@, f.created_at),
        forall|p: PeaV|
            #[trigger] exported_fields(f, p) ==> r@ == (PeaV { id: id@, body: body@, assets: Seq::empty(), ..p }),
{
    let ghost fv = f;
    let pea_type = match PeaType::parse(f.pea_type.as_str()) {
        Ok(t) => t,
        Err(_) => PeaType::Task,
    };
    let status = match PeaStatus::parse(f.status.as_str()) {
        Ok(s) => s,
        Err(_) => PeaStatus::Todo,
    };
    let priority = match PeaPriority::parse(f.priority.as_str()) {
        Ok(p) => p,
        Err(_) => PeaPriority::Normal,
    };
    let mut pea = Pea::new(id, f.title, pea_type).with_status(status).with_priority(priority).with_body(body);
    pea.created = f.created_at;
    pea.updated = f.updated_at;
    match f.parent {
        Some(p) => {
            pea.parent = Some(p);
        },
        None => {},
    }
    if f.tags.len() > 0 {
        pea.tags = f.tags;
    } else {
        assert(strs(f.tags@) =~= Seq::<Seq<char>>::empty());
    }
    if f.blocking.len() > 0 {
        pea.blocking = f.blocking;
    } else {
        assert(strs(f.blocking@) =~= Seq::<Seq<char>>::empty());
    }
    assert forall|p: PeaV| #[trigger] exported_fields(fv, p) implies pea@ == (PeaV {
        id: pea@.id,
        body: pea@.body,
        assets: Seq::empty(),
        ..p
    }) by {
        type_name_round_trip(p.pea_type);
        status_name_round_trip(p.status);
        priority_name_round_trip(p.priority);
    }
    pea
}

/// The fields a ticket is exported with: its title, the names of its type,
/// status and priority, its times, parent, tags and blocking list.
pub open spec fn exported_fields(f: BeansFields, p: PeaV) -> bool {
    &&& f.title@ == p.title
    &&& f.status@ == status_name(p.status)
    &&& f.pea_type@ == pea_type_name(p.pea_type)
    &&& f.priority@ == priority_name(p.priority)
    &&& f.created_at == p.created
    &&& f.updated_at == p.updated
    &&& opt_str(f.parent) == p.parent
    &&& strs(f.tags@) == p.tags
    &&& strs(f.blocking@) == p.blocking
}

/// The fields a ticket is exported with. Read back by `beans_to_pea`,
/// they give the ticket again, all but its attachments.
pub fn beans_fields(pea: &Pea) -> (r: BeansFields)
    ensures
        exported_fields(r, pea@),
{
    let parent = match &pea.parent {
        Some(p) => Some(p.clone()),
        None => None,
    };
    BeansFields {
        title: pea.title.clone(),
        status: pea.status.to_string(),
        pea_type: pea.pea_type.to_string(),
        priority: pea.priority.to_string(),
        created_at: pea.created,
        updated_at: pea.updated,
        parent,
        tags: clone_strings(&pea.tags),
        blocking: clone_strings(&pea.blocking),
    }
}

// ------------------------------------------------------------ export

/// A ticket as a beans document, given the YAML of its fields: `---`, a
/// comment with the id, the YAML, `---`, then the body after a blank line
/// when there is one.
pub open spec fn beans_doc(id: Seq<char>, yaml: Seq<char>, body: Seq<char>) -> Seq<char> {
    "---\n# "@ + id + "\n"@ + yaml + "---\n"@ + if body.len() > 0 {
        "\n"@ + body + "\n"@
    } else {
        Seq::empty()
    }
}

/// Writes a ticket as a beans document around the YAML of its fields.
pub fn beans_document(pea: &Pea, yaml: &str) -> (r: String)
    ensures
        r@ == beans_doc(pea@.id, yaml@, pea@.body),
{
    let mut out = concat3("---\n# ", pea.id.as_str(), "\n");
    out.append(yaml);
    out.append("---\n");
    if !pea.body.as_str().is_empty() {
        out.append("\n");
        out.append(pea.body.as_str());
        out.append("\n");
    }
    out
}

/// The file name of a ticket exported as beans: the same as the store's.
pub fn beans_filename(pea: &Pea) -> (r: String)
    ensures
        r@ == crate::storage::filename_spec(pea@.id, pea@.title),
{
    crate::storage::ticket_filename(pea.id.as_str(), pea.title.as_str())
}

// ------------------------------------------------------------ round trip

/// Before the first line break stands the first piece.
proof fn lemma_split_first(a: Seq<char>, b: Seq<char>)
    requires
        forall|i: int| 0 <= i < a.len() ==> a[i] != '\n',
    ensures
        split_nl(a + seq!['\n'] + b).len() >= 2,
        split_nl(a + seq!['\n'] + b)[0] == a,
    decreases b.len(),
{
    let s = a + seq!['\n'] + b;
    if b.len() == 0 {
        assert(s.drop_last() =~= a);
        lemma_split_no_nl(a);
    } else {
        lemma_split_first(a, b.drop_last());
        assert(s.drop_last() =~= a + seq!['\n'] + b.drop_last());
    }
}

/// A beans id as export writes it: not empty, without surrounding
/// whitespace and without line breaks.
pub open spec fn plain_id(id: Seq<char>) -> bool {
    &&& id.len() > 0
    &&& trim(id) == id
    &&& forall|i: int| 0 <= i < id.len() ==> id[i] != '\n'
}

/// The first line of a frontmatter that opens with `# id` gives the id.
proof fn lemma_comment_first(id: Seq<char>, z: Seq<char>)
    requires
        plain_id(id),
    ensures
        comment_id(lines(trim("# "@ + id + "\n"@ + z))) == Some(id),
{
    reveal_strlit("# ");
    reveal_strlit("\n");
    reveal_strlit("#");
    let h = "# "@ + id;
    let x = h + "\n"@ + z;
    lemma_trimmed_ends(id);
    assert(h[0] == '#');
    assert(h.last() == id.last());
    assert forall|i: int| 0 <= i < h.len() implies h[i] != '\n' by {
        if i >= 2 {
            assert(h[i] == id[i - 2]);
        }
    }
    lemma_trim_id(h);
    // the trimmed frontmatter is `h` or starts with `h` and a line break
    lemma_lead_ws_unique(x, 0);
    assert(x.skip(0) =~= x);
    lemma_trail_ws(x);
    let t = trail_ws(x) as int;
    assert(x[h.len() - 1] == h.last());
    assert(t <= x.len() - h.len());
    let fm = trim(x);
    assert(fm =~= x.take(x.len() - t));
    let ls = lines(fm);
    if t == x.len() - h.len() {
        assert(fm =~= h);
        lemma_split_no_nl(h);
        assert(ls =~= seq![h]);
    } else {
        let rest = fm.skip(h.len() + 1 as int);
        assert(fm =~= h + seq!['\n'] + rest);
        lemma_split_first(h, rest);
        let parts = split_nl(fm);
        assert(ls[0] == strip_cr(parts[0]));
    }
    assert(ls[0] == h);
    assert(ls.len() > 0);
    assert(h.drop_first() =~= seq![' '] + id);
    lemma_trim_prepend_ws(' ', id);
    assert(trim(h.drop_first()) == id);
    assert(h.take(1) =~= "#"@);
    assert(starts_with(trim(ls[0]), "#"@));
}

/// What follows the opening `---` of a written beans document.
spec fn written_rest(w: Seq<char>, body: Seq<char>) -> Seq<char> {
    seq!['\n'] + w + "---"@ + if body.len() > 0 {
        seq!['\n', '\n'] + body
    } else {
        Seq::empty()
    }
}

/// A written beans document, trimmed, is the opening `---` and the rest.
proof fn lemma_written_trim(id: Seq<char>, yaml: Seq<char>, body: Seq<char>)
    requires
        trim(body) == body,
    ensures
        trim(beans_doc(id, yaml, body)) == "---"@ + written_rest("# "@ + id + "\n"@ + yaml, body),
{
    reveal_strlit("---\n# ");
    reveal_strlit("\n");
    reveal_strlit("---\n");
    reveal_strlit("---");
    reveal_strlit("# ");
    let w = "# "@ + id + "\n"@ + yaml;
    let nl = seq!['\n'];
    let tp: Seq<char> = if body.len() > 0 { nl + body + nl } else { Seq::empty() };
    let doc = beans_doc(id, yaml, body);
    assert(doc =~= "---"@ + nl + w + "---"@ + nl + tp);
    lemma_lead_ws_unique(doc, 0);
    assert(doc.last() == '\n');
    if body.len() > 0 {
        lemma_trimmed_ends(body);
        assert(doc[doc.len() - 2] == body.last());
    } else {
        assert(doc[doc.len() - 2] == '-');
    }
    lemma_trail_ws_unique(doc, 1);
    assert(doc.skip(0) =~= doc);
    assert(trim(doc) =~= doc.drop_last());
    assert(doc.drop_last() =~= "---"@ + written_rest(w, body));
}

/// In the rest of a written document, the frontmatter closes right after
/// the YAML.
proof fn lemma_written_close(w: Seq<char>, body: Seq<char>)
    requires
        w.len() > 0,
        w[0] == '#',
        w.last() == '\n',
        !contains(w, "\n---"@),
    ensures
        first_occurrence(written_rest(w, body), "\n---"@) == Some(w.len() as int),
{
    reveal_strlit("\n---");
    reveal_strlit("---");
    let p = "\n---"@;
    let y = seq!['\n'] + w;
    let rest = written_rest(w, body);
    let e = w.len() as int;
    assert(rest.subrange(e, e + 4) =~= p);
    assert forall|j: int| 0 <= j < e implies !occurs_at(rest, p, j) by {
        if occurs_at(rest, p, j) {
            let win = rest.subrange(j, j + 4);
            if j + 4 <= y.len() {
                if j == 0 {
                    assert(win[1] == w[0]);
                } else {
                    assert(w.subrange(j - 1, j + 3) =~= win);
                    assert(occurs_at(w, p, j - 1));
                }
            } else if j == y.len() - 3 {
                assert(win[2] == w.last());
            } else {
                assert(win[1] == w.last());
            }
        }
    }
    assert(is_first_from(rest, p, 0, e));
    lemma_first_unique(rest, p, e);
}

/// What export writes, import reads back: a beans document written around
/// a ticket's id, the YAML of its fields and its body splits into that
/// frontmatter (the id comment line, then the YAML without its final line
/// break, trimmed) and the body, and the id is found again. This holds
/// when the id is plain, the YAML ends with a line break and holds no line
/// starting with `---`, and the body is trimmed, as the store keeps it.
pub proof fn beans_round_trip(id: Seq<char>, yaml: Seq<char>, body: Seq<char>, filename: Seq<char>)
    requires
        plain_id(id),
        yaml.len() > 0,
        yaml.last() == '\n',
        !contains("# "@ + id + "\n"@ + yaml, "\n---"@),
        trim(body) == body,
    ensures
        beans_split(beans_doc(id, yaml, body)) == Ok::<(Seq<char>, Seq<char>), Seq<char>>(
            (trim("# "@ + id + "\n"@ + yaml.drop_last()), body),
        ),
        beans_id_spec(trim("# "@ + id + "\n"@ + yaml.drop_last()), filename) == Ok::<Seq<char>, Seq<char>>(id),
{
    reveal_strlit("# ");
    reveal_strlit("\n");
    reveal_strlit("---");
    let w = "# "@ + id + "\n"@ + yaml;
    let nl = seq!['\n'];
    assert(w[0] == '#');
    assert(w.last() == yaml.last());
    lemma_written_trim(id, yaml, body);
    lemma_written_close(w, body);
    let c = "---"@ + written_rest(w, body);
    assert(c.take(3) =~= "---"@);
    assert(c.skip(3) =~= written_rest(w, body));
    let rest = written_rest(w, body);
    let e = w.len() as int;
    let fm0 = "# "@ + id + "\n"@ + yaml.drop_last();
    assert(rest.take(e) =~= nl + fm0);
    lemma_trim_prepend_ws('\n', fm0);
    let t2: Seq<char> = if body.len() > 0 { seq!['\n', '\n'] + body } else { Seq::empty() };
    assert(rest.skip(e + 4) =~= t2);
    if body.len() > 0 {
        assert(t2 =~= seq!['\n'] + (seq!['\n'] + body));
        lemma_trim_prepend_ws('\n', seq!['\n'] + body);
        lemma_trim_prepend_ws('\n', body);
    } else {
        lemma_trim_id(t2);
        assert(body =~= t2);
    }
    lemma_comment_first(id, yaml.drop_last());
}

} // verus!
