//! Renaming a ticket (`peas mv`): the new id, whether it is acceptable,
//! and the references and undo record that follow it.
use vstd::prelude::*;
use crate::config::IdMode;
use crate::model::{strs, Pea, PeaV};
use crate::suggest::pea_views;
use crate::text::{all_digits, chars_of, concat, concat3, contains, contains_chars, decimal, replace_all, replace_chars, slice_vec, starts_with, str_eq, str_starts_with, string_of, u64_to_string};
use crate::update::has_string;

verus! {

// ------------------------------------------------------------ ids

/// A suffix without the prefix, if the user wrote it in.
pub open spec fn strip_prefix(s: Seq<char>, prefix: Seq<char>) -> Seq<char> {
    if starts_with(s, prefix) {
        s.skip(prefix.len() as int)
    } else {
        s
    }
}

/// The ids of a rename and the new suffix.
pub struct RenameIds {
    pub old_id: String,
    pub new_id: String,
    pub new_suffix: String,
}

fn strip(s: &str, prefix: &str) -> (r: String)
    ensures
        r@ == strip_prefix(s@, prefix@),
{
    if str_starts_with(s, prefix) {
        let v = chars_of(s);
        let p = chars_of(prefix);
        let rest = slice_vec(&v, p.len(), v.len());
        assert(rest@ =~= s@.skip(prefix@.len() as int));
        string_of(&rest)
    } else {
        s.to_owned()
    }
}

/// Builds the old and new ids from the suffixes given, which may carry the
/// prefix already.
pub fn rename_ids(prefix: &str, old_suffix: &str, new_suffix: &str) -> (r: RenameIds)
    ensures
        r.old_id@ == prefix@ + strip_prefix(old_suffix@, prefix@),
        r.new_id@ == prefix@ + strip_prefix(new_suffix@, prefix@),
        r.new_suffix@ == strip_prefix(new_suffix@, prefix@),
{
    let o = strip(old_suffix, prefix);
    let n = strip(new_suffix, prefix);
    RenameIds { old_id: concat(prefix, o.as_str()), new_id: concat(prefix, n.as_str()), new_suffix: n }
}

// ------------------------------------------------------------ checks

/// The refusal of a suffix whose length is not the configured one.
pub open spec fn length_msg(len: nat, id_length: nat) -> Seq<char> {
    "Suffix length "@ + decimal(len) + " does not match configured id_length "@ + decimal(id_length)
        + ". Use --force to override."@
}

/// The refusal of a non-numeric suffix under sequential ids.
pub open spec fn digits_msg(s: Seq<char>) -> Seq<char> {
    "Suffix '"@ + s + "' contains non-digits but id_mode is 'sequential'. Use --force to override."@
}

/// The warnings a rename gives, in order.
pub open spec fn rename_warnings(s: Seq<char>, len: nat, id_length: nat, mode: IdMode, force: bool) -> Seq<Seq<char>> {
    let digits = all_digits(s);
    let random: Seq<Seq<char>> = if mode == IdMode::Random && digits {
        seq!["Suffix '"@ + s + "' is all digits (unusual for random mode)"@]
    } else {
        seq![]
    };
    let forced_len: Seq<Seq<char>> = if force && len != id_length {
        seq!["Suffix length "@ + decimal(len) + " differs from configured id_length "@ + decimal(id_length)]
    } else {
        seq![]
    };
    let forced_mode: Seq<Seq<char>> = if force && mode == IdMode::Sequential && !digits {
        seq!["Suffix '"@ + s + "' contains non-digits but id_mode is 'sequential'"@]
    } else {
        seq![]
    };
    random + forced_len + forced_mode
}

fn is_all_digits(s: &str) -> (r: bool)
    ensures
        r == all_digits(s@),
{
    let v = chars_of(s);
    let mut i: usize = 0;
    while i < v.len()
        invariant
            i <= v.len(),
            v@ == s@,
            forall|j: int| 0 <= j < i ==> crate::text::is_digit(#[trigger] v@[j]),
        decreases v.len() - i,
    {
        if !('0' <= v[i] && v[i] <= '9') {
            return false;
        }
        i = i + 1;
    }
    true
}

/// Whether a new suffix is acceptable: its length in bytes must be the
/// configured id length, and under sequential ids it must be all digits,
/// unless forced. On success, the warnings to show.
pub fn check_new_suffix(new_suffix: &str, id_length: usize, id_mode: IdMode, force: bool) -> (r: Result<Vec<String>, String>)
    ensures
        match r {
            Err(m) => !force && (if new_suffix.len() != id_length {
                m@ == length_msg(new_suffix.len() as nat, id_length as nat)
            } else {
                id_mode == IdMode::Sequential && !all_digits(new_suffix@) && m@ == digits_msg(new_suffix@)
            }),
            Ok(w) => (force || (new_suffix.len() == id_length && (id_mode == IdMode::Random || all_digits(
                new_suffix@,
            )))) && strs(w@) == rename_warnings(
                new_suffix@,
                new_suffix.len() as nat,
                id_length as nat,
                id_mode,
                force,
            ),
        },
{
    let len = new_suffix.len();
    if len != id_length && !force {
        let a = u64_to_string(len as u64);
        let b = u64_to_string(id_length as u64);
        let mut m = concat3("Suffix length ", a.as_str(), " does not match configured id_length ");
        m.append(b.as_str());
        m.append(". Use --force to override.");
        return Err(m);
    }
    let digits = is_all_digits(new_suffix);
    let mut warnings: Vec<String> = Vec::new();
    let ghost w0 = strs(warnings@);
    assert(w0 =~= Seq::<Seq<char>>::empty());
    match id_mode {
        IdMode::Random => {
            if digits {
                let m = concat3("Suffix '", new_suffix, "' is all digits (unusual for random mode)");
                warnings.push(m);
            }
        },
        IdMode::Sequential => {
            if !digits && !force {
                return Err(concat3(
                    "Suffix '",
                    new_suffix,
                    "' contains non-digits but id_mode is 'sequential'. Use --force to override.",
                ));
            }
        },
    }
    let ghost w1 = strs(warnings@);
    if force {
        if len != id_length {
            let a = u64_to_string(len as u64);
            let b = u64_to_string(id_length as u64);
            let mut m = concat3("Suffix length ", a.as_str(), " differs from configured id_length ");
            m.append(b.as_str());
            let ghost o = warnings@;
            warnings.push(m);
            assert(strs(warnings@) =~= strs(o).push(m@));
        }
        if id_mode == IdMode::Sequential && !digits {
            let m = concat3("Suffix '", new_suffix, "' contains non-digits but id_mode is 'sequential'");
            let ghost o = warnings@;
            warnings.push(m);
            assert(strs(warnings@) =~= strs(o).push(m@));
        }
    }
    assert(strs(warnings@) =~= rename_warnings(new_suffix@, len as nat, id_length as nat, id_mode, force));
    Ok(warnings)
}

// ------------------------------------------------------------ references

/// A ticket's references after a rename: a parent that was the old id
/// becomes the new one, and so does each such blocking entry.
pub open spec fn renamed_refs(p: PeaV, old: Seq<char>, new: Seq<char>) -> PeaV {
    PeaV {
        parent: if p.parent == Some(old) {
            Some(new)
        } else {
            p.parent
        },
        blocking: if p.blocking.contains(old) {
            p.blocking.map_values(|b: Seq<char>| if b == old { new } else { b })
        } else {
            p.blocking
        },
        ..p
    }
}

/// Whether a rename touches a ticket other than the renamed one.
pub open spec fn touched(p: PeaV, old: Seq<char>) -> bool {
    p.id != old && (p.parent == Some(old) || p.blocking.contains(old))
}

/// The tickets to save after a rename, in order, and how many had their
/// parent and how many their blocking list rewritten.
pub open spec fn ref_scan(ps: Seq<PeaV>, old: Seq<char>, new: Seq<char>) -> (Seq<PeaV>, nat, nat)
    decreases ps.len(),
{
    if ps.len() == 0 {
        (Seq::empty(), 0, 0)
    } else {
        let (saved, parents, blocking) = ref_scan(ps.drop_last(), old, new);
        let p = ps.last();
        if p.id == old {
            (saved, parents, blocking)
        } else {
            let ph: nat = if p.parent == Some(old) { 1 } else { 0 };
            let bh: nat = if p.blocking.contains(old) { 1 } else { 0 };
            (
                if touched(p, old) {
                    saved.push(renamed_refs(p, old, new))
                } else {
                    saved
                },
                parents + ph,
                blocking + bh,
            )
        }
    }
}

/// The outcome of rewriting references.
pub struct RefUpdate {
    /// The tickets to save, in order.
    pub to_save: Vec<Pea>,
    /// How many tickets had the old id as parent.
    pub parents: usize,
    /// How many tickets listed the old id as blocking.
    pub blocking: usize,
}

fn rename_blocking(v: &Vec<String>, old: &str, new: &str) -> (r: Vec<String>)
    ensures
        strs(r@) == strs(v@).map_values(|b: Seq<char>| if b == old@ { new@ } else { b }),
{
    let ghost f = |b: Seq<char>| if b == old@ { new@ } else { b };
    let mut out: Vec<String> = Vec::new();
    let mut k: usize = 0;
    while k < v.len()
        invariant
            k <= v.len(),
            f == (|b: Seq<char>| if b == old@ { new@ } else { b }),
            strs(out@) == strs(v@).take(k as int).map_values(f),
        decreases v.len() - k,
    {
        let ghost o = out@;
        if str_eq(v[k].as_str(), old) {
            out.push(new.to_owned());
        } else {
            out.push(v[k].clone());
        }
        assert(strs(out@) =~= strs(o).push(f(v@[k as int]@)));
        k = k + 1;
        assert(strs(v@).take(k as int).map_values(f) =~= strs(v@).take(k - 1).map_values(f).push(f(v@[k - 1]@)));
    }
    assert(strs(v@).take(v.len() as int) =~= strs(v@));
    out
}

/// Rewrites the references to a renamed ticket in all the others.
pub fn rewrite_references(all: &Vec<Pea>, old_id: &str, new_id: &str) -> (r: RefUpdate)
    ensures
        ({
            let (saved, parents, blocking) = ref_scan(pea_views(all@), old_id@, new_id@);
            pea_views(r.to_save@) == saved && r.parents == parents && r.blocking == blocking
        }),
{
    let ghost ps = pea_views(all@);
    let mut to_save: Vec<Pea> = Vec::new();
    let mut parents: usize = 0;
    let mut blocking: usize = 0;
    let mut k: usize = 0;
    while k < all.len()
        invariant
            k <= all.len(),
            ps == pea_views(all@),
            parents <= k,
            blocking <= k,
            ({
                let (saved, pa, bl) = ref_scan(ps.take(k as int), old_id@, new_id@);
                pea_views(to_save@) == saved && parents == pa && blocking == bl
            }),
        decreases all.len() - k,
    {
        let ghost t = ps.take(k + 1);
        assert(t.drop_last() =~= ps.take(k as int));
        assert(t.last() == all@[k as int]@);
        let p = &all[k];
        if !str_eq(p.id.as_str(), old_id) {
            let parent_hit = match &p.parent {
                Some(x) => str_eq(x.as_str(), old_id),
                None => false,
            };
            let blocking_hit = has_string(&p.blocking, old_id);
            if parent_hit || blocking_hit {
                let mut q = p.clone();
                if parent_hit {
                    q.parent = Some(new_id.to_owned());
                }
                if blocking_hit {
                    q.blocking = rename_blocking(&p.blocking, old_id, new_id);
                }
                let ghost o = to_save@;
                let ghost qv = q@;
                assert(qv == renamed_refs(p@, old_id@, new_id@));
                to_save.push(q);
                assert(pea_views(to_save@) =~= pea_views(o).push(qv));
            }
            if parent_hit {
                parents = parents + 1;
            }
            if blocking_hit {
                blocking = blocking + 1;
            }
        }
        k = k + 1;
    }
    assert(ps.take(all.len() as int) =~= ps);
    RefUpdate { to_save, parents, blocking }
}

// ------------------------------------------------------------ undo record

/// The undo record after a rename, when it mentions the old id: the old id
/// and then the old file name replaced throughout; `None` when it does not
/// mention the old id.
pub open spec fn undo_rewrite(content: Seq<char>, old_id: Seq<char>, new_id: Seq<char>, old_fn: Seq<char>, new_fn: Seq<char>) -> Option<Seq<char>> {
    if contains(content, old_id) {
        Some(replace_all(replace_all(content, old_id, new_id), old_fn, new_fn))
    } else {
        None
    }
}

/// Rewrites the undo record after a rename.
pub fn rewrite_undo(content: &str, old_id: &str, new_id: &str, old_fn: &str, new_fn: &str) -> (r: Option<String>)
    ensures
        match undo_rewrite(content@, old_id@, new_id@, old_fn@, new_fn@) {
            Some(x) => r matches Some(s) && s@ == x,
            None => r is None,
        },
{
    let c = chars_of(content);
    let o = chars_of(old_id);
    if !contains_chars(&c, &o) {
        return None;
    }
    let once = replace_chars(&c, &o, &chars_of(new_id));
    let twice = replace_chars(&once, &chars_of(old_fn), &chars_of(new_fn));
    Some(string_of(&twice))
}

/// After a rename to a different id, no ticket saved with rewritten
/// references still points at the old id.
pub proof fn rename_leaves_no_stale_refs(ps: Seq<PeaV>, old: Seq<char>, new: Seq<char>)
    requires
        old != new,
    ensures
        forall|k: int| 0 <= k < ref_scan(ps, old, new).0.len() ==> {
            let p = #[trigger] ref_scan(ps, old, new).0[k];
            p.parent != Some(old) && !p.blocking.contains(old)
        },
    decreases ps.len(),
{
    if ps.len() > 0 {
        rename_leaves_no_stale_refs(ps.drop_last(), old, new);
        let p = ps.last();
        let q = renamed_refs(p, old, new);
        if p.blocking.contains(old) {
            let f = |b: Seq<char>| if b == old { new } else { b };
            if q.blocking.contains(old) {
                let j = choose|j: int| 0 <= j < q.blocking.len() && q.blocking[j] == old;
                assert(q.blocking[j] == f(p.blocking[j]));
            }
        }
    }
}

/// A suffix may be given with or without the prefix in front: both forms
/// name the same ticket, as long as the suffix itself does not start with
/// the prefix.
pub proof fn prefix_is_optional(prefix: Seq<char>, suffix: Seq<char>)
    requires
        !starts_with(suffix, prefix),
    ensures
        prefix + strip_prefix(prefix + suffix, prefix) == prefix + strip_prefix(suffix, prefix),
        strip_prefix(suffix, prefix) == suffix,
{
    let w = prefix + suffix;
    assert(w.take(prefix.len() as int) =~= prefix);
    assert(w.skip(prefix.len() as int) =~= suffix);
}

} // verus!
