//! Ticket attachments: where they live, what they are called, and how
//! their sizes and kinds read.
use vstd::prelude::*;
use crate::paths::{
    path_extension, path_file_stem, path_join, spec_path_extension, spec_path_file_stem,
    spec_path_join,
};
use crate::model::strs;
use crate::update::has_string;
use crate::sort::{range_items, sort_items_by_name, sorted_by_name};
use crate::text::{
    concat, concat3, decimal, spec_to_lowercase, str_eq, to_lowercase, u64_to_string,
};

verus! {

/// Manages the attachments of tickets, under `.peas/assets/`.
pub struct AssetManager {
    assets_path: String,
}

/// The assets directory of a project.
pub open spec fn assets_dir(project_root: Seq<char>) -> Seq<char> {
    spec_path_join(spec_path_join(project_root, ".peas"@), "assets"@)
}

impl AssetManager {
    /// The assets directory this manager works in.
    pub closed spec fn dir(&self) -> Seq<char> {
        self.assets_path@
    }

    /// A manager for the project at `project_root`.
    pub fn new(project_root: &str) -> (r: AssetManager)
        ensures
            r.dir() == assets_dir(project_root@),
    {
        let d = path_join(project_root, ".peas");
        AssetManager { assets_path: path_join(d.as_str(), "assets") }
    }

    /// The assets directory.
    pub fn assets_path(&self) -> (r: &str)
        ensures
            r@ == self.dir(),
    {
        self.assets_path.as_str()
    }

    /// The directory of one ticket's assets.
    pub fn ticket_assets_path(&self, ticket_id: &str) -> (r: String)
        ensures
            r@ == spec_path_join(self.dir(), ticket_id@),
    {
        path_join(self.assets_path.as_str(), ticket_id)
    }

    /// The full path of one asset.
    pub fn get_asset_path(&self, ticket_id: &str, asset_name: &str) -> (r: String)
        ensures
            r@ == spec_path_join(spec_path_join(self.dir(), ticket_id@), asset_name@),
    {
        let d = self.ticket_assets_path(ticket_id);
        path_join(d.as_str(), asset_name)
    }

    /// The `i`-th name tried when `filename` is taken: `stem-i.ext`, or
    /// `stem-i` without an extension; `None` when the name has no stem.
    pub fn get_unique_filename(&self, filename: &str, i: u64) -> (r: Option<String>)
        ensures
            match spec_path_file_stem(filename@) {
                None => r is None,
                Some(stem) => r matches Some(n) && n@ == numbered_name(
                    stem,
                    spec_path_extension(filename@),
                    i as nat,
                ),
            },
    {
        let stem = match path_file_stem(filename) {
            Some(s) => s,
            None => {
                return None;
            },
        };
        let num = u64_to_string(i);
        let mut name = concat3(stem.as_str(), "-", num.as_str());
        match path_extension(filename) {
            Some(e) => {
                if e.as_str().is_empty() {
                } else {
                    name.append(".");
                    name.append(e.as_str());
                }
            },
            None => {},
        }
        Some(name)
    }

    /// The name an attachment is stored under, given the names already in
    /// the ticket's directory: `filename` when it is free, else the first
    /// free one of the numbered names 1 to 999; `None` when all are taken
    /// or the name has no stem.
    pub fn free_asset_name(&self, filename: &str, taken: &Vec<String>) -> (r: Option<String>)
        ensures
            !strs(taken@).contains(filename@) ==> (r matches Some(n) && n@ == filename@),
            strs(taken@).contains(filename@) ==> match spec_path_file_stem(filename@) {
                None => r is None,
                Some(stem) => {
                    let ext = spec_path_extension(filename@);
                    match r {
                        Some(n) => exists|i: nat|
                            1 <= i < 1000 && n@ == numbered_name(stem, ext, i) && !strs(taken@).contains(n@)
                                && forall|j: nat| 1 <= j < i ==> strs(taken@).contains(#[trigger] numbered_name(stem, ext, j)),
                        None => forall|j: nat| 1 <= j < 1000 ==> strs(taken@).contains(#[trigger] numbered_name(stem, ext, j)),
                    }
                },
            },
    {
        if !has_string(taken, filename) {
            return Some(filename.to_owned());
        }
        let ghost ext = spec_path_extension(filename@);
        if path_file_stem(filename).is_none() {
            return None;
        }
        let mut i: u64 = 1;
        while i < 1000
            invariant
                1 <= i <= 1000,
                ext == spec_path_extension(filename@),
                strs(taken@).contains(filename@),
                spec_path_file_stem(filename@) is Some,
                forall|j: nat| 1 <= j < i ==> strs(taken@).contains(#[trigger] numbered_name(spec_path_file_stem(filename@)->0, ext, j)),
            decreases 1000 - i,
        {
            let name = match self.get_unique_filename(filename, i) {
                Some(n) => n,
                None => {
                    return None;
                },
            };
            if !has_string(taken, name.as_str()) {
                let ghost k = i as nat;
                assert(name@ == numbered_name(spec_path_file_stem(filename@)->0, ext, k));
                assert(1 <= k < 1000 && name@ == numbered_name(spec_path_file_stem(filename@)->0, ext, k)
                    && !strs(taken@).contains(name@) && forall|j: nat| 1 <= j < k ==> strs(taken@).contains(
                    #[trigger] numbered_name(spec_path_file_stem(filename@)->0, ext, j),
                ));
                return Some(name);
            }
            i = i + 1;
        }
        None
    }
}

/// The numbered variant of a file name: `stem-i.ext`, or `stem-i` when
/// the extension is missing or empty.
pub open spec fn numbered_name(stem: Seq<char>, ext: Option<Seq<char>>, i: nat) -> Seq<char> {
    match ext {
        Some(e) => if e.len() == 0 {
            stem + "-"@ + decimal(i)
        } else {
            stem + "-"@ + decimal(i) + "."@ + e
        },
        None => stem + "-"@ + decimal(i),
    }
}

// ------------------------------------------------------------ asset info

/// One attachment: its name, size in bytes and path.
#[derive(Debug)]
pub struct AssetInfo {
    pub filename: String,
    pub size: u64,
    pub path: String,
}

impl Clone for AssetInfo {
    fn clone(&self) -> (r: AssetInfo)
        ensures
            r == *self,
    {
        AssetInfo { filename: self.filename.clone(), size: self.size, path: self.path.clone() }
    }
}

/// The file names of attachments.
pub open spec fn asset_names(v: Seq<AssetInfo>) -> Seq<Seq<char>> {
    v.map_values(|a: AssetInfo| a.filename@)
}

/// `r` is `v` reordered by `perm`: by file name, ties in input
/// order.
pub open spec fn asset_listing(v: Seq<AssetInfo>, perm: Seq<usize>, r: Seq<AssetInfo>) -> bool {
    &&& perm.len() == v.len()
    &&& r.len() == v.len()
    &&& forall|j: int| 0 <= j < perm.len() ==> #[trigger] perm[j] < v.len()
    &&& sorted_by_name(asset_names(v), perm)
    &&& forall|j: int| 0 <= j < r.len() ==> #[trigger] r[j] == v[perm[j] as int]
}

/// The attachments of a ticket in listing order: by file name.
pub fn sort_assets(v: Vec<AssetInfo>) -> (r: Vec<AssetInfo>)
    ensures
        exists|perm: Seq<usize>| asset_listing(v@, perm, r@),
{
    let n = v.len();
    let mut names: Vec<String> = Vec::new();
    let mut i: usize = 0;
    while i < n
        invariant
            n == v.len(),
            i <= n,
            names@.len() == i,
            forall|k: int| 0 <= k < i ==> #[trigger] names@[k]@ == v@[k].filename@,
        decreases n - i,
    {
        names.push(v[i].filename.clone());
        i = i + 1;
    }
    assert(strs(names@) =~= asset_names(v@));
    let items = range_items(n);
    assert forall|k: int| 0 <= k < items.len() implies #[trigger] items@[k] < names.len() by {}
    let order = sort_items_by_name(&items, &names);
    let mut out: Vec<AssetInfo> = Vec::new();
    let mut j: usize = 0;
    while j < order.len()
        invariant
            j <= order@.len(),
            order@.len() == n,
            n == v.len(),
            order@.to_set() == items@.to_set(),
            items@.len() == n,
            forall|k: int| 0 <= k < n ==> #[trigger] items@[k] == k,
            out@.len() == j,
            forall|k: int| 0 <= k < j ==> #[trigger] out@[k] == v@[order@[k] as int],
        decreases order.len() - j,
    {
        let x = order[j];
        assert(order@.to_set().contains(x));
        assert(items@.to_set().contains(x));
        proof {
            let w = choose|w: int| 0 <= w < items@.len() && items@[w] == x;
        }
        out.push(v[x].clone());
        j = j + 1;
    }
    proof {
        assert forall|q: int| 0 <= q < order@.len() implies #[trigger] order@[q] < v@.len() by {
            assert(order@.to_set().contains(order@[q]));
            assert(items@.to_set().contains(order@[q]));
            let w = choose|w: int| 0 <= w < items@.len() && items@[w] == order@[q];
        }
        assert(asset_listing(v@, order@, out@));
    }
    out
}

/// The kind of file an extension names.
pub open spec fn kind_of(ext: Option<Seq<char>>) -> Seq<char> {
    match ext {
        None => "File"@,
        Some(e) => if e == "png"@ || e == "jpg"@ || e == "jpeg"@ || e == "gif"@ || e == "svg"@
            || e == "webp"@ {
            "Image"@
        } else if e == "pdf"@ {
            "PDF"@
        } else if e == "txt"@ || e == "md"@ || e == "markdown"@ {
            "Text"@
        } else if e == "json"@ || e == "yaml"@ || e == "yml"@ || e == "toml"@ {
            "Data"@
        } else if e == "zip"@ || e == "tar"@ || e == "gz"@ || e == "7z"@ {
            "Archive"@
        } else if e == "mp4"@ || e == "avi"@ || e == "mov"@ || e == "webm"@ {
            "Video"@
        } else if e == "mp3"@ || e == "wav"@ || e == "ogg"@ {
            "Audio"@
        } else if e == "html"@ || e == "css"@ || e == "js"@ || e == "ts"@ {
            "Web"@
        } else if e == "rs"@ || e == "py"@ || e == "java"@ || e == "cpp"@ || e == "c"@ {
            "Code"@
        } else if e == "doc"@ || e == "docx"@ || e == "odt"@ {
            "Document"@
        } else if e == "xls"@ || e == "xlsx"@ || e == "ods"@ {
            "Spreadsheet"@
        } else if e == "ppt"@ || e == "pptx"@ || e == "odp"@ {
            "Presentation"@
        } else {
            "File"@
        },
    }
}

/// The lowercased extension of a path, if it has one.
pub open spec fn lower_ext(path: Seq<char>) -> Option<Seq<char>> {
    match spec_path_extension(path) {
        Some(e) => Some(spec_to_lowercase(e)),
        None => None,
    }
}

fn is_one_of(e: &str, a: &str, b: &str, c: &str) -> (r: bool)
    ensures
        r == (e@ == a@ || e@ == b@ || e@ == c@),
{
    str_eq(e, a) || str_eq(e, b) || str_eq(e, c)
}

fn file_kind(e: &str) -> (r: &'static str)
    ensures
        r@ == kind_of(Some(e@)),
{
    if is_one_of(e, "png", "jpg", "jpeg") || is_one_of(e, "gif", "svg", "webp") {
        "Image"
    } else if str_eq(e, "pdf") {
        "PDF"
    } else if is_one_of(e, "txt", "md", "markdown") {
        "Text"
    } else if is_one_of(e, "json", "yaml", "yml") || str_eq(e, "toml") {
        "Data"
    } else if is_one_of(e, "zip", "tar", "gz") || str_eq(e, "7z") {
        "Archive"
    } else if is_one_of(e, "mp4", "avi", "mov") || str_eq(e, "webm") {
        "Video"
    } else if is_one_of(e, "mp3", "wav", "ogg") {
        "Audio"
    } else if is_one_of(e, "html", "css", "js") || str_eq(e, "ts") {
        "Web"
    } else if is_one_of(e, "rs", "py", "java") || is_one_of(e, "cpp", "c", "c") {
        "Code"
    } else if is_one_of(e, "doc", "docx", "odt") {
        "Document"
    } else if is_one_of(e, "xls", "xlsx", "ods") {
        "Spreadsheet"
    } else if is_one_of(e, "ppt", "pptx", "odp") {
        "Presentation"
    } else {
        "File"
    }
}

impl AssetInfo {
    /// The size, human-readable.
    pub fn size_string(&self) -> (r: String)
        ensures
            r@ == file_size_spec(self.size),
    {
        format_file_size(self.size)
    }

    /// The file's extension, lowercased, if it has one.
    pub fn extension(&self) -> (r: Option<String>)
        ensures
            match lower_ext(self.path@) {
                Some(e) => r matches Some(x) && x@ == e,
                None => r is None,
            },
    {
        match path_extension(self.path.as_str()) {
            Some(e) => Some(to_lowercase(e.as_str())),
            None => None,
        }
    }

    /// A short description of the kind of file, by its extension.
    pub fn file_type(&self) -> (r: &'static str)
        ensures
            r@ == kind_of(lower_ext(self.path@)),
    {
        match self.extension() {
            Some(e) => file_kind(e.as_str()),
            None => "File",
        }
    }
}

// ------------------------------------------------------------ sizes

/// `2^e`.
pub open spec fn pow2(e: nat) -> nat
    decreases e,
{
    if e == 0 {
        1
    } else {
        2 * pow2((e - 1) as nat)
    }
}

/// `1024^k`.
pub open spec fn pow1024(k: nat) -> nat
    decreases k,
{
    if k == 0 {
        1
    } else {
        1024 * pow1024((k - 1) as nat)
    }
}

/// Rounds `n` to the nearest multiple of `u`, ties to the even multiple.
pub open spec fn round_to(n: nat, u: nat) -> nat
    recommends
        u > 0,
{
    let base: int = n - n % u;
    let low: int = (n % u) as int;
    if 2 * low < u {
        base as nat
    } else if 2 * low > u {
        (base + u) as nat
    } else if (base / (u as int)) % 2 == 0 {
        base as nat
    } else {
        (base + u) as nat
    }
}

/// Bits needed to write `n` (0 for 0).
pub open spec fn bit_len(n: nat) -> nat
    decreases n,
{
    if n == 0 {
        0
    } else {
        1 + bit_len(n / 2)
    }
}

/// The value of `n as f64`: `n` rounded to 53 significant bits, ties to
/// even.
pub open spec fn as_f64(n: nat) -> nat {
    if bit_len(n) <= 53 {
        n
    } else {
        round_to(n, pow2((bit_len(n) - 53) as nat))
    }
}

/// The unit reached by dividing `x` by 1024 while it is at least 1024,
/// at most four times, from unit `k` on.
pub open spec fn unit_index(x: nat, k: nat) -> nat
    decreases 4 - k,
{
    if k >= 4 {
        4
    } else if x >= pow1024(k + 1) {
        unit_index(x, k + 1)
    } else {
        k
    }
}

/// The name of the `k`-th size unit.
pub open spec fn unit_name(k: nat) -> Seq<char> {
    if k == 0 {
        "B"@
    } else if k == 1 {
        "KB"@
    } else if k == 2 {
        "MB"@
    } else if k == 3 {
        "GB"@
    } else {
        "TB"@
    }
}

/// `x / 1024^k` written with one decimal, rounded to nearest with ties to
/// even, as `{:.1}` writes it.
pub open spec fn one_decimal(x: nat, k: nat) -> Seq<char> {
    let tenths = round_to(10 * x, pow1024(k)) / pow1024(k);
    decimal(tenths / 10) + "."@ + decimal(tenths % 10)
}

/// A file size in human-readable form: `0 B`, whole bytes below 1024,
/// else one decimal in the largest unit up to TB that keeps the number at
/// least 1.
pub open spec fn file_size_spec(size: u64) -> Seq<char> {
    if size == 0 {
        "0 B"@
    } else {
        let x = as_f64(size as nat);
        let k = unit_index(x, 0);
        if k == 0 {
            decimal(size as nat) + " B"@
        } else {
            one_decimal(x, k) + " "@ + unit_name(k)
        }
    }
}

fn unit_str(k: u32) -> (r: &'static str)
    requires
        k <= 4,
    ensures
        r@ == unit_name(k as nat),
{
    if k == 0 {
        "B"
    } else if k == 1 {
        "KB"
    } else if k == 2 {
        "MB"
    } else if k == 3 {
        "GB"
    } else {
        "TB"
    }
}

proof fn lemma_pow1024_values()
    ensures
        pow1024(0) == 1,
        pow1024(1) == 1024,
        pow1024(2) == 1048576,
        pow1024(3) == 1073741824,
        pow1024(4) == 1099511627776,
{
    reveal_with_fuel(pow1024, 5);
}

proof fn lemma_bit_len_bound(n: nat, b: nat)
    requires
        n < pow2(b),
    ensures
        bit_len(n) <= b,
    decreases b,
{
    if n > 0 {
        assert(b > 0);
        lemma_bit_len_bound(n / 2, (b - 1) as nat);
    }
}

proof fn lemma_bit_len_lower(n: nat, b: nat)
    requires
        n >= pow2(b),
    ensures
        bit_len(n) > b,
    decreases b,
{
    if b > 0 {
        lemma_bit_len_lower(n / 2, (b - 1) as nat);
    }
}

proof fn lemma_pow2_64()
    ensures
        pow2(64) == 0x1_0000_0000_0000_0000,
{
    reveal_with_fuel(pow2, 65);
}

/// Rounds a `u64` to 53 significant bits, ties to even, as `as f64` does.
fn to_f64_value(n: u64) -> (r: u128)
    ensures
        r as nat == as_f64(n as nat),
        r <= 0x1_0000_0000_0000_0800u128,
{
    let ghost orig = n as nat;
    proof {
        lemma_pow2_64();
        lemma_bit_len_bound(orig, 64);
    }
    let mut bits: u32 = 0;
    let mut m: u64 = n;
    while m > 0
        invariant
            bit_len(orig) == bits + bit_len(m as nat),
            bit_len(orig) <= 64,
        decreases m,
    {
        assert(bit_len(m as nat) == 1 + bit_len((m / 2) as nat));
        m = m / 2;
        bits = bits + 1;
    }
    if bits <= 53 {
        return n as u128;
    }
    let e = bits - 53;
    let mut u: u128 = 1;
    let mut i: u32 = 0;
    while i < e
        invariant
            i <= e,
            e <= 11,
            u as nat == pow2(i as nat),
            1 <= u <= 2048,
        decreases e - i,
    {
        proof {
            reveal_with_fuel(pow2, 2);
            if i < 11 {
                assert(pow2(i as nat) <= pow2(10)) by {
                    lemma_pow2_mono(i as nat, 10);
                }
                reveal_with_fuel(pow2, 11);
            }
        }
        u = u * 2;
        i = i + 1;
    }
    let nn = n as u128;
    let low = nn % u;
    assert(low <= nn) by (nonlinear_arith)
        requires
            low == nn % u,
            u >= 1,
    ;
    let base = nn - low;
    if 2 * low < u {
        base
    } else if 2 * low > u {
        base + u
    } else if (base / u) % 2 == 0 {
        base
    } else {
        base + u
    }
}

proof fn lemma_pow2_mono(a: nat, b: nat)
    requires
        a <= b,
    ensures
        pow2(a) <= pow2(b),
    decreases b,
{
    if a < b {
        lemma_pow2_mono(a, (b - 1) as nat);
    }
}

/// Formats a file size in human-readable form.
pub fn format_file_size(size: u64) -> (r: String)
    ensures
        r@ == file_size_spec(size),
{
    if size == 0 {
        return "0 B".to_owned();
    }
    let x = to_f64_value(size);
    let mut k: u32 = 0;
    let mut div: u128 = 1;
    proof {
        lemma_pow1024_values();
    }
    while k < 4 && x >= div * 1024
        invariant
            k <= 4,
            div as nat == pow1024(k as nat),
            div <= 1099511627776,
            unit_index(x as nat, 0) == unit_index(x as nat, k as nat),
        decreases 4 - k,
    {
        proof {
            lemma_pow1024_values();
        }
        div = div * 1024;
        k = k + 1;
    }
    if k == 0 {
        let s = u64_to_string(size);
        return concat(s.as_str(), " B");
    }
    let scaled = 10 * x;
    let low = scaled % div;
    assert(low <= scaled) by (nonlinear_arith)
        requires
            low == scaled % div,
            div >= 1,
    ;
    let base = scaled - low;
    let rounded = if 2 * low < div {
        base
    } else if 2 * low > div {
        base + div
    } else if (base / div) % 2 == 0 {
        base
    } else {
        base + div
    };
    let tenths = rounded / div;
    assert(tenths / 10 < 0x1_0000_0000_0000_0000u128) by (nonlinear_arith)
        requires
            rounded <= scaled + div,
            scaled == 10 * x,
            x <= 0x1_0000_0000_0000_0800u128,
            div >= 1024,
            tenths == rounded / div,
    ;
    let whole = u64_to_string((tenths / 10) as u64);
    let frac = u64_to_string((tenths % 10) as u64);
    let mut out = concat3(whole.as_str(), ".", frac.as_str());
    out.append(" ");
    out.append(unit_str(k));
    out
}

} // verus!
