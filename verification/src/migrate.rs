//! Moving a legacy configuration to `.peas/config.toml`: what is done, and
//! how the configuration text is rewritten on the way.
use vstd::prelude::*;
use crate::config::SCHEMA_URL;
use crate::model::strs;
use crate::text::{ends_with, lemma_lines_join, lemma_lines_no_nl, no_final_cr, no_nl, lemma_trim_id, concat, contains, join, lines, lines_of, spec_to_lowercase, starts_with, str_contains, str_eq, str_starts_with, str_views, to_lowercase, trim, trim_str};

verus! {

/// The legacy configuration file names, in order of preference.
pub open spec fn legacy_files() -> Seq<Seq<char>> {
    seq![".peas.toml"@, ".peas.yml"@, ".peas.yaml"@, ".peas.json"@]
}

/// The legacy configuration file names, in order of preference.
pub fn legacy_config_files() -> (r: Vec<&'static str>)
    ensures
        r@.map_values(|s: &'static str| s@) == legacy_files(),
{
    let r = vec![".peas.toml", ".peas.yml", ".peas.yaml", ".peas.json"];
    assert(r@.map_values(|s: &'static str| s@) =~= legacy_files());
    r
}

// ------------------------------------------------------------ the plan

/// What `peas migrate` does.
pub enum MigratePlan {
    /// The configuration is already at `.peas/config.toml`; the legacy
    /// files still present (positions in the legacy list) are to go.
    AlreadyMigrated(Vec<usize>),
    /// There is no configuration at all.
    NoConfig,
    /// Migrate the legacy file at this position of the legacy list.
    Migrate(usize),
}

/// The positions holding `true`, in order.
pub open spec fn true_positions(s: Seq<bool>) -> Seq<int>
    decreases s.len(),
{
    if s.len() == 0 {
        Seq::empty()
    } else if s.last() {
        true_positions(s.drop_last()).push(s.len() - 1)
    } else {
        true_positions(s.drop_last())
    }
}

/// Plans `peas migrate` from whether the new configuration exists and
/// which legacy files exist (one flag per legacy name, in order).
pub fn migrate_plan(new_exists: bool, legacy_exists: &Vec<bool>) -> (r: MigratePlan)
    ensures
        match r {
            MigratePlan::AlreadyMigrated(v) => new_exists && v@.map_values(|i: usize| i as int)
                == true_positions(legacy_exists@),
            MigratePlan::NoConfig => !new_exists && forall|k: int|
                0 <= k < legacy_exists@.len() ==> !legacy_exists@[k],
            MigratePlan::Migrate(i) => !new_exists && i < legacy_exists@.len() && legacy_exists@[i as int]
                && forall|k: int| 0 <= k < i ==> !legacy_exists@[k],
        },
{
    if new_exists {
        let mut v: Vec<usize> = Vec::new();
        let mut k: usize = 0;
        while k < legacy_exists.len()
            invariant
                k <= legacy_exists@.len(),
                v@.map_values(|i: usize| i as int) == true_positions(legacy_exists@.take(k as int)),
            decreases legacy_exists.len() - k,
        {
            let ghost t = legacy_exists@.take(k + 1);
            assert(t.drop_last() =~= legacy_exists@.take(k as int));
            let ghost o = v@;
            if legacy_exists[k] {
                v.push(k);
                assert(v@.map_values(|i: usize| i as int) =~= o.map_values(|i: usize| i as int).push(k as int));
            }
            k = k + 1;
        }
        assert(legacy_exists@.take(legacy_exists.len() as int) =~= legacy_exists@);
        return MigratePlan::AlreadyMigrated(v);
    }
    let mut k: usize = 0;
    while k < legacy_exists.len()
        invariant
            !new_exists,
            k <= legacy_exists@.len(),
            forall|q: int| 0 <= q < k ==> !legacy_exists@[q],
        decreases legacy_exists.len() - k,
    {
        if legacy_exists[k] {
            return MigratePlan::Migrate(k);
        }
        k = k + 1;
    }
    MigratePlan::NoConfig
}

// ------------------------------------------------------------ TOML

/// The schema directive of a TOML configuration.
pub open spec fn toml_schema_line() -> Seq<char> {
    "#:schema "@ + SCHEMA_URL@
}

/// The lines kept from a TOML configuration, whether it had a schema
/// directive, and whether the last line dropped was the deprecated `path`
/// option (whose trailing comments about the path go too). A schema
/// directive is replaced by the current one.
pub open spec fn toml_scan(ls: Seq<Seq<char>>) -> (Seq<Seq<char>>, bool, bool)
    decreases ls.len(),
{
    if ls.len() == 0 {
        (Seq::empty(), false, false)
    } else {
        let (kept, has, skip) = toml_scan(ls.drop_last());
        let line = ls.last();
        let t = trim(line);
        if starts_with(t, "#:schema"@) {
            (kept.push(toml_schema_line()), true, skip)
        } else if starts_with(t, "path"@) && contains(t, "="@) {
            (kept, has, true)
        } else if skip && starts_with(t, "#"@) && contains(spec_to_lowercase(t), "path"@) {
            (kept, has, skip)
        } else {
            (kept.push(line), has, false)
        }
    }
}

/// Lines with every run of blank lines cut to one, and whether the last
/// line kept is blank.
pub open spec fn collapse_scan(ls: Seq<Seq<char>>) -> (Seq<Seq<char>>, bool)
    decreases ls.len(),
{
    if ls.len() == 0 {
        (Seq::empty(), false)
    } else {
        let (acc, last_blank) = collapse_scan(ls.drop_last());
        let line = ls.last();
        let blank = trim(line).len() == 0;
        if blank && last_blank {
            (acc, last_blank)
        } else {
            (acc.push(line), blank)
        }
    }
}

/// A TOML configuration migrated: the deprecated `path` option gone, the
/// schema directive current (added at the top, with a blank line, when
/// missing), and runs of blank lines cut to one.
pub open spec fn toml_migrated(content: Seq<char>) -> Seq<char> {
    join(toml_migrated_lines(content), "\n"@)
}

/// The lines of a migrated TOML configuration.
pub open spec fn toml_migrated_lines(content: Seq<char>) -> Seq<Seq<char>> {
    toml_migrate_lines(lines(content))
}

/// The migration of the lines of a TOML configuration.
pub open spec fn toml_migrate_lines(ls: Seq<Seq<char>>) -> Seq<Seq<char>> {
    let (kept, has, _) = toml_scan(ls);
    let with_schema = if has {
        kept
    } else {
        seq![toml_schema_line(), Seq::empty()] + kept
    };
    collapse_scan(with_schema).0
}

/// Joins strings with a separator.
pub fn join_strings(items: &Vec<String>, sep: &str) -> (r: String)
    ensures
        r@ == join(strs(items@), sep@),
{
    let mut r = String::new();
    let mut k: usize = 0;
    while k < items.len()
        invariant
            k <= items.len(),
            r@ == join(strs(items@).take(k as int), sep@),
        decreases items.len() - k,
    {
        let ghost t = strs(items@).take(k + 1);
        assert(t.drop_last() =~= strs(items@).take(k as int));
        assert(t.last() == items@[k as int]@);
        if k > 0 {
            r.append(sep);
        } else {
            assert(t.len() == 1);
        }
        r.append(items[k].as_str());
        k = k + 1;
    }
    assert(strs(items@).take(items.len() as int) =~= strs(items@));
    r
}

fn collapse_blank_lines(ls: Vec<String>) -> (r: Vec<String>)
    ensures
        strs(r@) == collapse_scan(strs(ls@)).0,
{
    let ghost all = strs(ls@);
    let mut out: Vec<String> = Vec::new();
    let mut last_blank = false;
    let mut k: usize = 0;
    let n = ls.len();
    for line in it: ls
        invariant
            all == strs(it.seq()),
            k == it.index(),
            k <= all.len(),
            all.len() == n,
            collapse_scan(all.take(k as int)) == (strs(out@), last_blank),
    {
        let ghost t = all.take(k + 1);
        assert(t.drop_last() =~= all.take(k as int));
        assert(t.last() == line@);
        let tl = trim_str(line.as_str());
        let blank = tl.as_str().is_empty();
        if blank && last_blank {
        } else {
            let ghost o = out@;
            out.push(line);
            assert(strs(out@) =~= strs(o).push(t.last()));
            last_blank = blank;
        }
        k = k + 1;
    }
    assert(all.take(n as int) =~= all);
    out
}

fn schema_toml_line() -> (r: String)
    ensures
        r@ == toml_schema_line(),
{
    concat("#:schema ", SCHEMA_URL)
}

/// Migrates a TOML configuration.
pub fn migrate_toml_config(content: &str) -> (r: String)
    ensures
        r@ == toml_migrated(content@),
{
    let ls = lines_of(content);
    let ghost all = str_views(ls@);
    let mut kept: Vec<String> = Vec::new();
    let mut has_schema = false;
    let mut skip_path = false;
    let mut k: usize = 0;
    let n = ls.len();
    for line in it: ls
        invariant
            all == strs(it.seq()),
            all == lines(content@),
            k == it.index(),
            k <= all.len(),
            all.len() == n,
            toml_scan(all.take(k as int)) == (strs(kept@), has_schema, skip_path),
    {
        let ghost t = all.take(k + 1);
        assert(t.drop_last() =~= all.take(k as int));
        assert(t.last() == line@);
        let trimmed = trim_str(line.as_str());
        let ghost o = kept@;
        if str_starts_with(trimmed.as_str(), "#:schema") {
            has_schema = true;
            kept.push(schema_toml_line());
            assert(strs(kept@) =~= strs(o).push(toml_schema_line()));
        } else if str_starts_with(trimmed.as_str(), "path") && str_contains(trimmed.as_str(), "=") {
            skip_path = true;
        } else if skip_path && str_starts_with(trimmed.as_str(), "#") && str_contains(
            to_lowercase(trimmed.as_str()).as_str(),
            "path",
        ) {
        } else {
            skip_path = false;
            kept.push(line);
            assert(strs(kept@) =~= strs(o).push(t.last()));
        }
        k = k + 1;
    }
    assert(all.take(n as int) =~= all);
    let ghost kept_v = strs(kept@);
    let with_schema = if has_schema {
        kept
    } else {
        let mut w: Vec<String> = Vec::new();
        w.push(schema_toml_line());
        w.push(String::new());
        let ghost head = strs(w@);
        let mut j: usize = 0;
        let m = kept.len();
        for line in it: kept
            invariant
                j == it.index(),
                j <= m,
                it.seq().len() == m,
                strs(it.seq()) == kept_v,
                strs(w@) == head + strs(it.seq()).take(j as int),
        {
            let ghost o = w@;
            let ghost lv = line@;
            w.push(line);
            j = j + 1;
            assert(strs(it.seq()).take(j as int) =~= strs(it.seq()).take(j - 1).push(lv));
            assert(strs(w@) =~= strs(o).push(lv));
        }
        assert(head =~= seq![toml_schema_line(), Seq::<char>::empty()]);
        assert(kept_v.take(m as int) =~= kept_v);
        w
    };
    assert(strs(with_schema@) == if has_schema {
        kept_v
    } else {
        seq![toml_schema_line(), Seq::<char>::empty()] + kept_v
    });
    let collapsed = collapse_blank_lines(with_schema);
    join_strings(&collapsed, "\n")
}

// ------------------------------------------------------------ YAML

/// The schema directive of a YAML configuration.
pub open spec fn yaml_schema_line() -> Seq<char> {
    "# yaml-language-server: $schema="@ + SCHEMA_URL@
}

/// The lines kept from a YAML configuration, and whether it had a schema
/// directive (which is replaced by the current one); `path:` lines go.
pub open spec fn yaml_scan(ls: Seq<Seq<char>>) -> (Seq<Seq<char>>, bool)
    decreases ls.len(),
{
    if ls.len() == 0 {
        (Seq::empty(), false)
    } else {
        let (kept, has) = yaml_scan(ls.drop_last());
        let line = ls.last();
        let t = trim(line);
        if starts_with(t, "# yaml-language-server:"@) {
            (kept.push(yaml_schema_line()), true)
        } else if starts_with(t, "path:"@) {
            (kept, has)
        } else {
            (kept.push(line), has)
        }
    }
}

/// A YAML configuration migrated: `path:` lines gone and the schema
/// directive current (added at the top, with a blank line, when missing).
pub open spec fn yaml_migrated(content: Seq<char>) -> Seq<char> {
    join(yaml_migrated_lines(content), "\n"@)
}

/// The lines of a migrated YAML configuration.
pub open spec fn yaml_migrated_lines(content: Seq<char>) -> Seq<Seq<char>> {
    let (kept, has) = yaml_scan(lines(content));
    if has {
        kept
    } else {
        seq![yaml_schema_line(), Seq::empty()] + kept
    }
}

fn schema_yaml_line() -> (r: String)
    ensures
        r@ == yaml_schema_line(),
{
    concat("# yaml-language-server: $schema=", SCHEMA_URL)
}

/// Migrates a YAML configuration.
pub fn migrate_yaml_config(content: &str) -> (r: String)
    ensures
        r@ == yaml_migrated(content@),
{
    let ls = lines_of(content);
    let ghost all = str_views(ls@);
    let mut kept: Vec<String> = Vec::new();
    let mut has_schema = false;
    let mut k: usize = 0;
    let n = ls.len();
    // The directive goes first unless the file has one; it is dropped again
    // below when the file turns out to carry its own.
    kept.push(schema_yaml_line());
    kept.push(String::new());
    let ghost head = strs(kept@);
    for line in it: ls
        invariant
            all == strs(it.seq()),
            all == lines(content@),
            k == it.index(),
            k <= all.len(),
            all.len() == n,
            kept@.len() >= 2,
            head == seq![yaml_schema_line(), Seq::<char>::empty()],
            head + yaml_scan(all.take(k as int)).0 == strs(kept@),
            yaml_scan(all.take(k as int)).1 == has_schema,
    {
        let ghost t = all.take(k + 1);
        assert(t.drop_last() =~= all.take(k as int));
        assert(t.last() == line@);
        let trimmed = trim_str(line.as_str());
        let ghost o = kept@;
        if str_starts_with(trimmed.as_str(), "# yaml-language-server:") {
            has_schema = true;
            kept.push(schema_yaml_line());
            assert(strs(kept@) =~= strs(o).push(yaml_schema_line()));
        } else if str_starts_with(trimmed.as_str(), "path:") {
        } else {
            kept.push(line);
            assert(strs(kept@) =~= strs(o).push(t.last()));
        }
        k = k + 1;
    }
    assert(all.take(n as int) =~= all);
    let ghost body = yaml_scan(all).0;
    if has_schema {
        let rest = drop_two(kept);
        assert(strs(rest@) =~= body);
        join_strings(&rest, "\n")
    } else {
        join_strings(&kept, "\n")
    }
}

fn drop_two(v: Vec<String>) -> (r: Vec<String>)
    requires
        v@.len() >= 2,
    ensures
        strs(r@) == strs(v@).skip(2),
{
    let ghost all = strs(v@);
    let mut out: Vec<String> = Vec::new();
    let mut k: usize = 0;
    let n = v.len();
    for x in it: v
        invariant
            all == strs(it.seq()),
            k == it.index(),
            k <= all.len(),
            all.len() == n,
            n >= 2,
            strs(out@) == if k <= 2 { Seq::empty() } else { all.subrange(2, k as int) },
    {
        if k >= 2 {
            let ghost o = out@;
            let ghost xv = x@;
            out.push(x);
            assert(strs(out@) =~= strs(o).push(xv));
            assert(all.subrange(2, k + 1) =~= (if k <= 2 { Seq::<Seq<char>>::empty() } else { all.subrange(2, k as int) }).push(all[k as int]));
        }
        k = k + 1;
    }
    assert(all.subrange(2, n as int) =~= all.skip(2));
    out
}

// ------------------------------------------------------------ dispatch

/// How a configuration is migrated, by its file's extension.
pub enum Migration {
    /// The migrated text.
    Text(String),
    /// A JSON configuration: `$schema` is set and `peas.path` removed by
    /// the JSON rewrite.
    Json,
}

/// Migrates a configuration by its extension (TOML when there is none):
/// TOML and YAML are rewritten here, JSON is left to the JSON rewrite, and
/// any other extension keeps the text as it is.
pub fn migrate_config_content(content: &str, extension: Option<&str>) -> (r: Migration)
    ensures
        ({
            let ext = match extension {
                Some(e) => e@,
                None => "toml"@,
            };
            if ext == "toml"@ {
                r matches Migration::Text(t) && t@ == toml_migrated(content@)
            } else if ext == "yml"@ || ext == "yaml"@ {
                r matches Migration::Text(t) && t@ == yaml_migrated(content@)
            } else if ext == "json"@ {
                r is Json
            } else {
                r matches Migration::Text(t) && t@ == content@
            }
        }),
{
    let ext = match extension {
        Some(e) => e,
        None => "toml",
    };
    if str_eq(ext, "toml") {
        Migration::Text(migrate_toml_config(content))
    } else if str_eq(ext, "yml") || str_eq(ext, "yaml") {
        Migration::Text(migrate_yaml_config(content))
    } else if str_eq(ext, "json") {
        Migration::Json
    } else {
        Migration::Text(content.to_owned())
    }
}

// ------------------------------------------------------------ laws

/// A TOML line that sets the deprecated `path` option.
pub open spec fn toml_path_setting(line: Seq<char>) -> bool {
    starts_with(trim(line), "path"@) && contains(trim(line), "="@)
}

/// A YAML line that sets the deprecated `path` option.
pub open spec fn yaml_path_setting(line: Seq<char>) -> bool {
    starts_with(trim(line), "path:"@)
}

proof fn lemma_schema_lines()
    ensures
        trim(toml_schema_line()) == toml_schema_line(),
        toml_schema_line().len() > 0,
        !toml_path_setting(toml_schema_line()),
        trim(yaml_schema_line()) == yaml_schema_line(),
        !yaml_path_setting(yaml_schema_line()),
        !toml_path_setting(Seq::<char>::empty()),
        !yaml_path_setting(Seq::<char>::empty()),
{
    reveal_strlit("#:schema ");
    reveal_strlit("# yaml-language-server: $schema=");
    reveal_strlit("https://raw.githubusercontent.com/asaaki/peas/refs/heads/main/schemas/peas.json");
    reveal_strlit("path");
    reveal_strlit("path:");
    let t = toml_schema_line();
    let y = yaml_schema_line();
    assert(t[0] == '#');
    assert(t.last() == 'n');
    lemma_trim_id(t);
    assert(y[0] == '#');
    assert(y.last() == 'n');
    lemma_trim_id(y);
    assert("path"@[0] == 'p');
    assert(t.take(4)[0] == '#');
    assert("path:"@[0] == 'p');
    assert(y.take(5)[0] == '#');
    lemma_trim_id(Seq::<char>::empty());
}

proof fn lemma_toml_scan(ls: Seq<Seq<char>>)
    ensures
        forall|i: int| 0 <= i < toml_scan(ls).0.len() ==> !toml_path_setting(#[trigger] toml_scan(ls).0[i]),
        toml_scan(ls).1 ==> toml_scan(ls).0.contains(toml_schema_line()),
    decreases ls.len(),
{
    lemma_schema_lines();
    if ls.len() > 0 {
        lemma_toml_scan(ls.drop_last());
        let (kept, had, skip) = toml_scan(ls.drop_last());
        let r = toml_scan(ls).0;
        if r.len() == kept.len() + 1 {
            assert(r.drop_last() =~= kept);
            assert forall|i: int| 0 <= i < r.len() implies !toml_path_setting(#[trigger] r[i]) by {
                if i < kept.len() {
                    assert(r[i] == kept[i]);
                }
            }
            if had {
                let j = choose|j: int| 0 <= j < kept.len() && kept[j] == toml_schema_line();
                assert(r[j] == kept[j]);
            }
            if toml_scan(ls).1 && !had {
                assert(r[r.len() - 1] == toml_schema_line());
            }
        }
    }
}

proof fn lemma_yaml_scan(ls: Seq<Seq<char>>)
    ensures
        forall|i: int| 0 <= i < yaml_scan(ls).0.len() ==> !yaml_path_setting(#[trigger] yaml_scan(ls).0[i]),
        yaml_scan(ls).1 ==> yaml_scan(ls).0.contains(yaml_schema_line()),
    decreases ls.len(),
{
    lemma_schema_lines();
    if ls.len() > 0 {
        lemma_yaml_scan(ls.drop_last());
        let (kept, had) = yaml_scan(ls.drop_last());
        let r = yaml_scan(ls).0;
        if r.len() == kept.len() + 1 {
            assert(r.drop_last() =~= kept);
            assert forall|i: int| 0 <= i < r.len() implies !yaml_path_setting(#[trigger] r[i]) by {
                if i < kept.len() {
                    assert(r[i] == kept[i]);
                }
            }
            if had {
                let j = choose|j: int| 0 <= j < kept.len() && kept[j] == yaml_schema_line();
                assert(r[j] == kept[j]);
            }
            if yaml_scan(ls).1 && !had {
                assert(r[r.len() - 1] == yaml_schema_line());
            }
        }
    }
}

proof fn lemma_collapse(ls: Seq<Seq<char>>)
    ensures
        forall|i: int| 0 <= i < collapse_scan(ls).0.len() ==> ls.contains(#[trigger] collapse_scan(ls).0[i]),
        forall|i: int| 0 <= i < ls.len() && trim(#[trigger] ls[i]).len() > 0 ==> collapse_scan(ls).0.contains(ls[i]),
    decreases ls.len(),
{
    if ls.len() > 0 {
        let prev = ls.drop_last();
        lemma_collapse(prev);
        let (acc, lb) = collapse_scan(prev);
        let r = collapse_scan(ls).0;
        assert forall|i: int| 0 <= i < r.len() implies ls.contains(#[trigger] r[i]) by {
            if i < acc.len() {
                assert(r[i] == acc[i]);
                let j = choose|j: int| 0 <= j < prev.len() && prev[j] == acc[i];
                assert(ls[j] == prev[j]);
            } else {
                assert(r[i] == ls[ls.len() - 1]);
            }
        }
        assert forall|i: int| 0 <= i < ls.len() && trim(#[trigger] ls[i]).len() > 0 implies r.contains(ls[i]) by {
            if i < prev.len() {
                assert(prev[i] == ls[i]);
                let j = choose|j: int| 0 <= j < acc.len() && acc[j] == prev[i];
                assert(r[j] == acc[j]);
            } else {
                assert(r[r.len() - 1] == ls[i]);
            }
        }
    }
}

/// No two lines in a row are blank.
pub open spec fn no_double_blank(ls: Seq<Seq<char>>) -> bool {
    forall|i: int, j: int|
        0 <= i && j == i + 1 && j < ls.len() ==> !(trim(#[trigger] ls[i]).len() == 0 && trim(
            #[trigger] ls[j],
        ).len() == 0)
}

proof fn lemma_collapse_single_blanks(ls: Seq<Seq<char>>)
    ensures
        no_double_blank(collapse_scan(ls).0),
        collapse_scan(ls).1 <==> (collapse_scan(ls).0.len() > 0 && trim(
            collapse_scan(ls).0.last(),
        ).len() == 0),
    decreases ls.len(),
{
    if ls.len() > 0 {
        let prev = ls.drop_last();
        lemma_collapse_single_blanks(prev);
        let (acc, lb) = collapse_scan(prev);
        let line = ls.last();
        let blank = trim(line).len() == 0;
        if !(blank && lb) {
            let r = acc.push(line);
            assert forall|i: int, j: int|
                0 <= i && j == i + 1 && j < r.len() implies !(trim(#[trigger] r[i]).len() == 0
                && trim(#[trigger] r[j]).len() == 0) by {
                if j < acc.len() {
                    assert(r[i] == acc[i] && r[j] == acc[j]);
                } else {
                    assert(r[i] == acc.last());
                }
            }
        }
    }
}

/// A migrated TOML configuration carries the current schema directive, no
/// longer sets the deprecated `path` option, and has no two blank lines in
/// a row.
pub proof fn toml_migration_is_current(content: Seq<char>)
    ensures
        no_double_blank(toml_migrated_lines(content)),
        toml_migrated_lines(content).contains(toml_schema_line()),
        forall|i: int|
            0 <= i < toml_migrated_lines(content).len() ==> !toml_path_setting(
                #[trigger] toml_migrated_lines(content)[i],
            ),
{
    lemma_schema_lines();
    let (kept, had, _) = toml_scan(lines(content));
    lemma_toml_scan(lines(content));
    let w = if had {
        kept
    } else {
        seq![toml_schema_line(), Seq::empty()] + kept
    };
    assert forall|i: int| 0 <= i < w.len() implies !toml_path_setting(#[trigger] w[i]) by {
        if !had && i >= 2 {
            assert(w[i] == kept[i - 2]);
        }
    }
    let k = if had {
        choose|j: int| 0 <= j < kept.len() && kept[j] == toml_schema_line()
    } else {
        0
    };
    assert(w[k] == toml_schema_line());
    lemma_collapse(w);
    lemma_collapse_single_blanks(w);
    let r = collapse_scan(w).0;
    assert(trim(w[k]).len() > 0);
    assert forall|i: int| 0 <= i < r.len() implies !toml_path_setting(#[trigger] r[i]) by {
        assert(w.contains(r[i]));
    }
}

/// A line the TOML migration reads as a schema directive.
pub open spec fn toml_schema_directive(line: Seq<char>) -> bool {
    starts_with(trim(line), "#:schema"@)
}

/// Lines as the TOML migration leaves them: none sets `path`, and every
/// schema directive is the current one.
pub open spec fn toml_lines_current(ls: Seq<Seq<char>>) -> bool {
    forall|i: int|
        0 <= i < ls.len() ==> !toml_path_setting(#[trigger] ls[i]) && (toml_schema_directive(ls[i])
            ==> ls[i] == toml_schema_line())
}

proof fn lemma_schema_directive()
    ensures
        toml_schema_directive(toml_schema_line()),
        !toml_schema_directive(Seq::<char>::empty()),
{
    lemma_schema_lines();
    reveal_strlit("#:schema ");
    reveal_strlit("#:schema");
    assert(toml_schema_line().take(8) =~= "#:schema"@);
    lemma_trim_id(Seq::<char>::empty());
}

proof fn lemma_toml_scan_directives(ls: Seq<Seq<char>>)
    ensures
        forall|i: int|
            0 <= i < toml_scan(ls).0.len() && toml_schema_directive(#[trigger] toml_scan(ls).0[i])
                ==> toml_scan(ls).0[i] == toml_schema_line(),
    decreases ls.len(),
{
    if ls.len() > 0 {
        lemma_toml_scan_directives(ls.drop_last());
        let (kept, had, skip) = toml_scan(ls.drop_last());
        let r = toml_scan(ls).0;
        if r.len() == kept.len() + 1 {
            assert forall|i: int| 0 <= i < r.len() && toml_schema_directive(#[trigger] r[i]) implies r[i]
                == toml_schema_line() by {
                if i < kept.len() {
                    assert(r[i] == kept[i]);
                }
            }
        }
    }
}

proof fn lemma_toml_scan_stable(ls: Seq<Seq<char>>)
    requires
        toml_lines_current(ls),
    ensures
        toml_scan(ls).0 == ls,
        !toml_scan(ls).2,
        toml_scan(ls).1 == ls.contains(toml_schema_line()),
    decreases ls.len(),
{
    lemma_schema_directive();
    if ls.len() > 0 {
        let prev = ls.drop_last();
        assert forall|i: int| 0 <= i < prev.len() implies !toml_path_setting(#[trigger] prev[i]) && (
        toml_schema_directive(prev[i]) ==> prev[i] == toml_schema_line()) by {
            assert(prev[i] == ls[i]);
        }
        lemma_toml_scan_stable(prev);
        let line = ls.last();
        assert(ls[ls.len() - 1] == line);
        assert(prev.push(line) =~= ls);
        if toml_schema_directive(line) {
            assert(line == toml_schema_line());
        } else {
            assert(line != toml_schema_line());
            if ls.contains(toml_schema_line()) {
                let j = choose|j: int| 0 <= j < ls.len() && ls[j] == toml_schema_line();
                assert(prev[j] == ls[j]);
            }
        }
    }
}

proof fn lemma_collapse_stable(ls: Seq<Seq<char>>)
    requires
        no_double_blank(ls),
    ensures
        collapse_scan(ls).0 == ls,
    decreases ls.len(),
{
    if ls.len() > 0 {
        let prev = ls.drop_last();
        assert forall|i: int, j: int|
            0 <= i && j == i + 1 && j < prev.len() implies !(trim(#[trigger] prev[i]).len() == 0 && trim(
            #[trigger] prev[j],
        ).len() == 0) by {
            assert(prev[i] == ls[i] && prev[j] == ls[j]);
        }
        lemma_collapse_stable(prev);
        lemma_collapse_single_blanks(prev);
        let line = ls.last();
        if trim(line).len() == 0 && collapse_scan(prev).1 {
            assert(prev.last() == ls[ls.len() - 2]);
            assert(line == ls[ls.len() - 1]);
            assert(false);
        }
        assert(prev.push(line) =~= ls);
    }
}

/// Migrating the lines of a migrated TOML configuration again changes
/// nothing: its schema directive is found and kept, no line sets `path`,
/// and no run of blank lines is left to cut.
pub proof fn toml_migration_lines_stable(content: Seq<char>)
    ensures
        toml_migrate_lines(toml_migrated_lines(content)) == toml_migrated_lines(content),
{
    lemma_migrated_facts(content);
    lemma_migrate_current(toml_migrated_lines(content));
}

proof fn lemma_schema_no_nl()
    ensures
        no_nl(toml_schema_line()),
{
    reveal_strlit("#:schema ");
    reveal_strlit("https://raw.githubusercontent.com/asaaki/peas/refs/heads/main/schemas/peas.json");
    let t = toml_schema_line();
    assert forall|i: int| 0 <= i < t.len() implies t[i] != '\n' by {
    }
}

proof fn lemma_toml_scan_from(ls: Seq<Seq<char>>)
    ensures
        forall|i: int|
            0 <= i < toml_scan(ls).0.len() ==> #[trigger] toml_scan(ls).0[i] == toml_schema_line()
                || ls.contains(toml_scan(ls).0[i]),
    decreases ls.len(),
{
    if ls.len() > 0 {
        let prev = ls.drop_last();
        lemma_toml_scan_from(prev);
        let (kept, had, skip) = toml_scan(prev);
        let r = toml_scan(ls).0;
        assert forall|i: int| 0 <= i < r.len() implies #[trigger] r[i] == toml_schema_line() || ls.contains(r[i]) by {
            if i < kept.len() {
                assert(r[i] == kept[i]);
                if kept[i] != toml_schema_line() {
                    let j = choose|j: int| 0 <= j < prev.len() && prev[j] == kept[i];
                    assert(ls[j] == prev[j]);
                }
            } else {
                assert(ls[ls.len() - 1] == ls.last());
            }
        }
    }
}

/// Lines already migrated migrate to themselves.
proof fn lemma_migrate_current(ls: Seq<Seq<char>>)
    requires
        toml_lines_current(ls),
        no_double_blank(ls),
        ls.contains(toml_schema_line()),
    ensures
        toml_migrate_lines(ls) == ls,
{
    lemma_toml_scan_stable(ls);
    lemma_collapse_stable(ls);
}

/// What the migrated lines of a TOML configuration are like.
proof fn lemma_migrated_facts(content: Seq<char>)
    ensures
        toml_lines_current(toml_migrated_lines(content)),
        no_double_blank(toml_migrated_lines(content)),
        toml_migrated_lines(content).contains(toml_schema_line()),
        forall|k: int|
            0 <= k < toml_migrated_lines(content).len() ==> no_nl(#[trigger] toml_migrated_lines(content)[k]),
{
    toml_migration_is_current(content);
    lemma_schema_directive();
    lemma_schema_lines();
    lemma_schema_no_nl();
    let ls = lines(content);
    lemma_lines_no_nl(content);
    let (kept, had, _) = toml_scan(ls);
    lemma_toml_scan(ls);
    lemma_toml_scan_directives(ls);
    lemma_toml_scan_from(ls);
    let w = if had {
        kept
    } else {
        seq![toml_schema_line(), Seq::empty()] + kept
    };
    assert forall|i: int| 0 <= i < w.len() implies !toml_path_setting(#[trigger] w[i]) && (
    toml_schema_directive(w[i]) ==> w[i] == toml_schema_line()) && no_nl(w[i]) by {
        if !had && i >= 2 {
            assert(w[i] == kept[i - 2]);
        }
        let k = if !had && i >= 2 {
            i - 2
        } else {
            i
        };
        if (had || i >= 2) && kept[k] != toml_schema_line() {
            let j = choose|j: int| 0 <= j < ls.len() && ls[j] == kept[k];
            assert(no_nl(ls[j]));
        }
    }
    lemma_collapse(w);
    let l = collapse_scan(w).0;
    assert forall|i: int| 0 <= i < l.len() implies !toml_path_setting(#[trigger] l[i]) && (
    toml_schema_directive(l[i]) ==> l[i] == toml_schema_line()) && no_nl(l[i]) by {
        assert(w.contains(l[i]));
        let j = choose|j: int| 0 <= j < w.len() && w[j] == l[i];
        assert(!toml_path_setting(w[j]));
    }
}

/// Migrating a migrated TOML configuration again gives the same text, less
/// a final line break (which stands for a final empty line, and reading
/// lines drops that), provided no migrated line but the last ends with a
/// carriage return (a line read as `a\r` from `a\r\r\n` would lose it on
/// the second reading).
pub proof fn toml_migration_idempotent(content: Seq<char>)
    requires
        forall|k: int|
            0 <= k < toml_migrated_lines(content).len() - 1 ==> no_final_cr(
                #[trigger] toml_migrated_lines(content)[k],
            ),
    ensures
        toml_migrated(toml_migrated(content)) == if ends_with(toml_migrated(content), "\n"@) {
            toml_migrated(content).drop_last()
        } else {
            toml_migrated(content)
        },
{
    reveal_strlit("\n");
    let nl = seq!['\n'];
    assert("\n"@ =~= nl);
    lemma_migrated_facts(content);
    let l = toml_migrated_lines(content);
    let r = toml_migrated(content);
    assert(l.len() >= 1);
    lemma_lines_join(l);
    if l.last().len() == 0 {
        let p = l.drop_last();
        let j = choose|j: int| 0 <= j < l.len() && l[j] == toml_schema_line();
        lemma_schema_lines();
        assert(j < l.len() - 1);
        assert(p[j] == l[j]);
        assert forall|i: int| 0 <= i < p.len() implies !toml_path_setting(#[trigger] p[i]) && (
        toml_schema_directive(p[i]) ==> p[i] == toml_schema_line()) by {
            assert(p[i] == l[i]);
        }
        assert forall|i: int, k: int|
            0 <= i && k == i + 1 && k < p.len() implies !(trim(#[trigger] p[i]).len() == 0 && trim(
            #[trigger] p[k],
        ).len() == 0) by {
            assert(p[i] == l[i] && p[k] == l[k]);
        }
        lemma_migrate_current(p);
        assert(l.len() >= 2);
        assert(r == join(p, nl) + nl + l.last());
        assert(r =~= join(p, nl) + nl);
        assert(r.skip(r.len() - 1) =~= nl);
        assert(ends_with(r, nl));
        assert(r.drop_last() =~= join(p, nl));
    } else {
        lemma_migrate_current(l);
        if ends_with(r, nl) {
            assert(r.last() == l.last().last()) by {
                if l.len() > 1 {
                    assert(r == join(l.drop_last(), nl) + nl + l.last());
                }
            }
            assert(r.skip(r.len() - 1)[0] == r.last());
            assert(no_nl(l[l.len() - 1]));
            assert(false);
        }
    }
}

/// A migrated YAML configuration carries the current schema directive and
/// no longer sets the deprecated `path` option.
pub proof fn yaml_migration_is_current(content: Seq<char>)
    ensures
        yaml_migrated_lines(content).contains(yaml_schema_line()),
        forall|i: int|
            0 <= i < yaml_migrated_lines(content).len() ==> !yaml_path_setting(
                #[trigger] yaml_migrated_lines(content)[i],
            ),
{
    lemma_schema_lines();
    let (kept, had) = yaml_scan(lines(content));
    lemma_yaml_scan(lines(content));
    let w = yaml_migrated_lines(content);
    assert forall|i: int| 0 <= i < w.len() implies !yaml_path_setting(#[trigger] w[i]) by {
        if !had && i >= 2 {
            assert(w[i] == kept[i - 2]);
        }
    }
    if !had {
        assert(w[0] == yaml_schema_line());
    }
}

} // verus!
