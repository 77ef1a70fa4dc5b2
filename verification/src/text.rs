//! Character-level text utilities: trimming, searching, line splitting,
//! decimal formatting and parsing, all over `Seq<char>` models.
use vstd::prelude::*;

verus! {

/// The characters with the Unicode `White_Space` property, which is what
/// `str::trim` strips.
pub open spec fn is_ws(c: char) -> bool {
    ||| ('\u{9}' <= c && c <= '\u{d}')
    ||| c == ' '
    ||| c == '\u{85}'
    ||| c == '\u{a0}'
    ||| c == '\u{1680}'
    ||| ('\u{2000}' <= c && c <= '\u{200a}')
    ||| c == '\u{2028}'
    ||| c == '\u{2029}'
    ||| c == '\u{202f}'
    ||| c == '\u{205f}'
    ||| c == '\u{3000}'
}

pub fn char_is_ws(c: char) -> (r: bool)
    ensures
        r == is_ws(c),
{
    ('\u{9}' <= c && c <= '\u{d}') || c == ' ' || c == '\u{85}' || c == '\u{a0}' || c
        == '\u{1680}' || ('\u{2000}' <= c && c <= '\u{200a}') || c == '\u{2028}' || c
        == '\u{2029}' || c == '\u{202f}' || c == '\u{205f}' || c == '\u{3000}'
}

/// The characters of `s`, in order.
pub fn chars_of(s: &str) -> (v: Vec<char>)
    ensures
        v@ == s@,
{
    let mut v: Vec<char> = Vec::new();
    for c in it: s.chars()
        invariant
            v@ == it.seq().take(it.index() as int),
            it.seq() == s@,
    {
        v.push(c);
    }
    v
}

/// Appends one character to a string (`String::push`).
#[verifier::external_body]
pub(crate) fn push_char(s: &mut String, c: char)
    ensures
        final(s)@ == old(s)@.push(c),
{
    s.push(c);
}

/// A string holding exactly the given characters.
pub fn string_of(v: &[char]) -> (s: String)
    ensures
        s@ == v@,
{
    let mut s = String::new();
    let mut i: usize = 0;
    while i < v.len()
        invariant
            i <= v.len(),
            s@ == v@.take(i as int),
        decreases v.len() - i,
    {
        push_char(&mut s, v[i]);
        i = i + 1;
        assert(v@.take(i as int) == v@.take((i - 1) as int).push(v@[i - 1]));
    }
    assert(v@.take(v.len() as int) == v@);
    s
}

/// A fresh string equal to `s`.
pub fn owned(s: &str) -> (r: String)
    ensures
        r@ == s@,
{
    s.to_owned()
}

/// Concatenation of two strings.
pub fn concat(a: &str, b: &str) -> (r: String)
    ensures
        r@ == a@ + b@,
{
    let mut r = a.to_owned();
    r.append(b);
    r
}

/// Concatenation of three strings.
pub fn concat3(a: &str, b: &str, c: &str) -> (r: String)
    ensures
        r@ == a@ + b@ + c@,
{
    let mut r = a.to_owned();
    r.append(b);
    r.append(c);
    r
}

/// Equality of the characters of two strings.
pub fn str_eq(a: &str, b: &str) -> (r: bool)
    ensures
        r == (a@ == b@),
{
    let va = chars_of(a);
    let vb = chars_of(b);
    seq_eq(&va, &vb)
}

/// Equality of two character slices.
pub fn seq_eq(a: &[char], b: &[char]) -> (r: bool)
    ensures
        r == (a@ == b@),
{
    if a.len() != b.len() {
        return false;
    }
    let mut i: usize = 0;
    while i < a.len()
        invariant
            a.len() == b.len(),
            i <= a.len(),
            forall|j: int| 0 <= j < i ==> a@[j] == b@[j],
        decreases a.len() - i,
    {
        if a[i] != b[i] {
            return false;
        }
        i = i + 1;
    }
    assert(a@ =~= b@);
    true
}

/// Clones a vector of strings, keeping every element.
pub fn clone_strings(v: &Vec<String>) -> (r: Vec<String>)
    ensures
        r@ == v@,
{
    let mut r: Vec<String> = Vec::new();
    let mut i: usize = 0;
    while i < v.len()
        invariant
            i <= v.len(),
            r@ == v@.take(i as int),
        decreases v.len() - i,
    {
        r.push(v[i].clone());
        i = i + 1;
        assert(v@.take(i as int) == v@.take((i - 1) as int).push(v@[i - 1]));
    }
    assert(v@.take(v.len() as int) == v@);
    r
}

/// Clones an optional string.
pub fn clone_opt(o: &Option<String>) -> (r: Option<String>)
    ensures
        r == *o,
{
    match o {
        Some(s) => Some(s.clone()),
        None => None,
    }
}

// ---------------------------------------------------------------- trimming

/// Number of leading whitespace characters.
pub open spec fn lead_ws(s: Seq<char>) -> nat
    decreases s.len(),
{
    if s.len() > 0 && is_ws(s[0]) {
        1 + lead_ws(s.drop_first())
    } else {
        0
    }
}

/// Number of trailing whitespace characters.
pub open spec fn trail_ws(s: Seq<char>) -> nat
    decreases s.len(),
{
    if s.len() > 0 && is_ws(s.last()) {
        1 + trail_ws(s.drop_last())
    } else {
        0
    }
}

/// `s` without leading whitespace (`str::trim_start`).
pub open spec fn trim_start(s: Seq<char>) -> Seq<char> {
    s.skip(lead_ws(s) as int)
}

/// `s` without trailing whitespace (`str::trim_end`).
pub open spec fn trim_end(s: Seq<char>) -> Seq<char> {
    s.take(s.len() - trail_ws(s))
}

/// `s` without leading and trailing whitespace (`str::trim`).
pub open spec fn trim(s: Seq<char>) -> Seq<char> {
    trim_end(trim_start(s))
}

pub proof fn lemma_lead_ws(s: Seq<char>)
    ensures
        lead_ws(s) <= s.len(),
        forall|i: int| 0 <= i < lead_ws(s) ==> is_ws(#[trigger] s[i]),
        lead_ws(s) < s.len() ==> !is_ws(s[lead_ws(s) as int]),
    decreases s.len(),
{
    if s.len() > 0 && is_ws(s[0]) {
        lemma_lead_ws(s.drop_first());
        assert forall|i: int| 0 <= i < lead_ws(s) implies is_ws(#[trigger] s[i]) by {
            if i > 0 {
                assert(s[i] == s.drop_first()[i - 1]);
            }
        }
    }
}

pub proof fn lemma_trail_ws(s: Seq<char>)
    ensures
        trail_ws(s) <= s.len(),
        forall|i: int| s.len() - trail_ws(s) <= i < s.len() ==> is_ws(#[trigger] s[i]),
        trail_ws(s) < s.len() ==> !is_ws(s[s.len() - trail_ws(s) - 1]),
    decreases s.len(),
{
    if s.len() > 0 && is_ws(s.last()) {
        lemma_trail_ws(s.drop_last());
        assert forall|i: int| s.len() - trail_ws(s) <= i < s.len() implies is_ws(
            #[trigger] s[i],
        ) by {
            if i < s.len() - 1 {
                assert(s[i] == s.drop_last()[i]);
            }
        }
    }
}

/// Characterizes `lead_ws` by its two defining facts.
pub proof fn lemma_lead_ws_unique(s: Seq<char>, k: int)
    requires
        0 <= k <= s.len(),
        forall|i: int| 0 <= i < k ==> is_ws(#[trigger] s[i]),
        k < s.len() ==> !is_ws(s[k]),
    ensures
        lead_ws(s) == k,
    decreases s.len(),
{
    if k > 0 {
        assert(is_ws(s[0]));
        assert forall|i: int| 0 <= i < k - 1 implies is_ws(#[trigger] s.drop_first()[i]) by {
            assert(s.drop_first()[i] == s[i + 1]);
        }
        lemma_lead_ws_unique(s.drop_first(), k - 1);
    }
}

/// Characterizes `trail_ws` by its two defining facts.
pub proof fn lemma_trail_ws_unique(s: Seq<char>, k: int)
    requires
        0 <= k <= s.len(),
        forall|i: int| s.len() - k <= i < s.len() ==> is_ws(#[trigger] s[i]),
        k < s.len() ==> !is_ws(s[s.len() - k - 1]),
    ensures
        trail_ws(s) == k,
    decreases s.len(),
{
    if k > 0 {
        assert(is_ws(s[s.len() - 1]));
        assert forall|i: int| s.drop_last().len() - (k - 1) <= i < s.drop_last().len() implies is_ws(
            #[trigger] s.drop_last()[i],
        ) by {
            assert(s.drop_last()[i] == s[i]);
        }
        lemma_trail_ws_unique(s.drop_last(), k - 1);
    }
}

/// Whitespace in front does not change a trimmed string.
pub proof fn lemma_trim_prepend_ws(c: char, s: Seq<char>)
    requires
        is_ws(c),
    ensures
        trim(seq![c] + s) == trim(s),
{
    let t = seq![c] + s;
    assert(t.drop_first() =~= s);
    assert(lead_ws(t) == 1 + lead_ws(s));
    lemma_lead_ws(s);
    assert(trim_start(t) =~= trim_start(s));
}

/// Whitespace behind does not change a trimmed string.
pub proof fn lemma_trim_append_ws(s: Seq<char>, c: char)
    requires
        is_ws(c),
    ensures
        trim(s + seq![c]) == trim(s),
{
    let t = s + seq![c];
    lemma_lead_ws(s);
    if lead_ws(s) < s.len() {
        assert forall|i: int| 0 <= i < lead_ws(s) implies is_ws(#[trigger] t[i]) by {
            assert(t[i] == s[i]);
        }
        assert(t[lead_ws(s) as int] == s[lead_ws(s) as int]);
        lemma_lead_ws_unique(t, lead_ws(s) as int);
        let u = trim_start(s);
        assert(trim_start(t) =~= u + seq![c]);
        assert((u + seq![c]).drop_last() =~= u);
        assert(trail_ws(u + seq![c]) == 1 + trail_ws(u));
        lemma_trail_ws(u);
        assert(trim_end(u + seq![c]) =~= trim_end(u));
    } else {
        assert forall|i: int| 0 <= i < s.len() + 1 implies is_ws(#[trigger] t[i]) by {
            if i < s.len() {
                assert(t[i] == s[i]);
            }
        }
        lemma_lead_ws_unique(t, (s.len() + 1) as int);
        assert(trim_start(t) =~= Seq::<char>::empty());
        assert(trim_start(s) =~= Seq::<char>::empty());
    }
}

/// A nonempty trimmed string starts and ends with non-whitespace.
pub proof fn lemma_trimmed_ends(s: Seq<char>)
    requires
        trim(s) == s,
        s.len() > 0,
    ensures
        !is_ws(s[0]),
        !is_ws(s.last()),
{
    lemma_lead_ws(s);
    lemma_trail_ws(trim_start(s));
    assert(trim(s).len() <= s.len() - lead_ws(s));
    assert(lead_ws(s) == 0);
    assert(trim_start(s) =~= s);
    assert(trail_ws(s) == 0);
}

/// A string that starts and ends with non-whitespace is its own trim.
pub proof fn lemma_trim_id(s: Seq<char>)
    requires
        s.len() > 0 ==> !is_ws(s[0]) && !is_ws(s.last()),
    ensures
        trim(s) == s,
{
    if s.len() > 0 {
        lemma_lead_ws_unique(s, 0);
        assert(trim_start(s) =~= s);
        lemma_trail_ws_unique(s, 0);
        assert(trim_end(s) =~= s);
    } else {
        assert(trim(s) =~= s);
    }
}

/// Bounds `(start, end)` such that `v[start..end]` is `v` trimmed.
pub fn trim_bounds(v: &[char]) -> (r: (usize, usize))
    ensures
        r.0 <= r.1 <= v.len(),
        v@.subrange(r.0 as int, r.1 as int) == trim(v@),
        r.0 == lead_ws(v@),
{
    let mut a: usize = 0;
    while a < v.len() && char_is_ws(v[a])
        invariant
            a <= v.len(),
            forall|i: int| 0 <= i < a ==> is_ws(#[trigger] v@[i]),
        decreases v.len() - a,
    {
        a = a + 1;
    }
    proof {
        lemma_lead_ws_unique(v@, a as int);
    }
    let mut b: usize = v.len();
    while b > a && char_is_ws(v[b - 1])
        invariant
            a <= b <= v.len(),
            forall|i: int| b <= i < v.len() ==> is_ws(#[trigger] v@[i]),
        decreases b,
    {
        b = b - 1;
    }
    proof {
        let t = v@.skip(a as int);
        assert forall|i: int| t.len() - (v.len() - b) <= i < t.len() implies is_ws(#[trigger] t[i]) by {
            assert(t[i] == v@[i + a]);
        }
        if b > a {
            assert(t[t.len() - (v.len() - b) - 1] == v@[b - 1]);
        }
        lemma_trail_ws_unique(t, (v.len() - b) as int);
        assert(v@.subrange(a as int, b as int) =~= trim(v@));
    }
    (a, b)
}

/// `str::trim`, as a fresh string.
pub fn trim_str(s: &str) -> (r: String)
    ensures
        r@ == trim(s@),
{
    let v = chars_of(s);
    let (a, b) = trim_bounds(&v);
    let piece = slice_vec(&v, a, b);
    string_of(&piece)
}

/// The characters `v[from..to]`.
pub fn slice_vec(v: &[char], from: usize, to: usize) -> (r: Vec<char>)
    requires
        from <= to <= v.len(),
    ensures
        r@ == v@.subrange(from as int, to as int),
{
    let mut r: Vec<char> = Vec::new();
    let mut i = from;
    while i < to
        invariant
            from <= i <= to,
            to <= v.len(),
            r@ == v@.subrange(from as int, i as int),
        decreases to - i,
    {
        r.push(v[i]);
        i = i + 1;
        assert(v@.subrange(from as int, i as int) == v@.subrange(from as int, i - 1).push(
            v@[i - 1],
        ));
    }
    r
}

// --------------------------------------------------------------- searching

/// `p` occurs in `s` starting at index `i`.
pub open spec fn occurs_at(s: Seq<char>, p: Seq<char>, i: int) -> bool {
    0 <= i && i + p.len() <= s.len() && s.subrange(i, i + p.len()) == p
}

/// `p` is a substring of `s` (`str::contains`).
pub open spec fn contains(s: Seq<char>, p: Seq<char>) -> bool {
    exists|i: int| occurs_at(s, p, i)
}

/// `p` is a prefix of `s` (`str::starts_with`).
pub open spec fn starts_with(s: Seq<char>, p: Seq<char>) -> bool {
    p.len() <= s.len() && s.take(p.len() as int) == p
}

/// `p` is a suffix of `s` (`str::ends_with`).
pub open spec fn ends_with(s: Seq<char>, p: Seq<char>) -> bool {
    p.len() <= s.len() && s.skip(s.len() - p.len()) == p
}

/// The first index at or after `from` where `p` occurs (`str::find`).
pub open spec fn is_first_from(s: Seq<char>, p: Seq<char>, from: int, i: int) -> bool {
    &&& from <= i
    &&& occurs_at(s, p, i)
    &&& forall|j: int| from <= j < i ==> !occurs_at(s, p, j)
}

/// Checks whether `p` occurs in `s` at index `i`.
pub fn matches_at(s: &[char], p: &[char], i: usize) -> (r: bool)
    ensures
        r == occurs_at(s@, p@, i as int),
{
    if i > s.len() || p.len() > s.len() - i {
        return false;
    }
    let mut k: usize = 0;
    while k < p.len()
        invariant
            i + p.len() <= s.len(),
            k <= p.len(),
            forall|j: int| 0 <= j < k ==> s@[i + j] == p@[j],
        decreases p.len() - k,
    {
        if s[i + k] != p[k] {
            assert(s@.subrange(i as int, i + p.len())[k as int] != p@[k as int]);
            return false;
        }
        k = k + 1;
    }
    assert(s@.subrange(i as int, i + p.len()) =~= p@);
    true
}

/// The first occurrence of `p` in `s` at or after index `from`.
pub fn find_from(s: &[char], p: &[char], from: usize) -> (r: Option<usize>)
    ensures
        match r {
            Some(i) => is_first_from(s@, p@, from as int, i as int),
            None => forall|j: int| from <= j ==> !occurs_at(s@, p@, j),
        },
{
    let mut i = from;
    while i <= s.len()
        invariant
            from <= i,
            forall|j: int| from <= j < i ==> !occurs_at(s@, p@, j),
        decreases s.len() + 1 - i,
    {
        if matches_at(s, p, i) {
            return Some(i);
        }
        if i == s.len() {
            assert forall|j: int| from <= j implies !occurs_at(s@, p@, j) by {
                if j < i {
                }
            }
            return None;
        }
        i = i + 1;
    }
    None
}

/// Whether `p` is a substring of `s`.
pub fn contains_chars(s: &[char], p: &[char]) -> (r: bool)
    ensures
        r == contains(s@, p@),
{
    match find_from(s, p, 0) {
        Some(i) => true,
        None => {
            assert forall|j: int| !occurs_at(s@, p@, j) by {
                if j < 0 {
                }
            }
            false
        },
    }
}

/// Whether `p` is a substring of `s` (`str::contains`).
pub fn str_contains(s: &str, p: &str) -> (r: bool)
    ensures
        r == contains(s@, p@),
{
    let vs = chars_of(s);
    let vp = chars_of(p);
    contains_chars(&vs, &vp)
}

/// Whether `s` starts with `p`.
pub fn starts_with_chars(s: &[char], p: &[char]) -> (r: bool)
    ensures
        r == starts_with(s@, p@),
{
    let r = matches_at(s, p, 0);
    proof {
        if r {
            assert(s@.subrange(0, p@.len() as int) == s@.take(p@.len() as int));
        }
        if starts_with(s@, p@) {
            assert(s@.subrange(0, p@.len() as int) == s@.take(p@.len() as int));
        }
    }
    r
}

/// Whether `s` starts with `p` (`str::starts_with`).
pub fn str_starts_with(s: &str, p: &str) -> (r: bool)
    ensures
        r == starts_with(s@, p@),
{
    let vs = chars_of(s);
    let vp = chars_of(p);
    starts_with_chars(&vs, &vp)
}

/// Whether `s` ends with `p`.
pub fn ends_with_chars(s: &[char], p: &[char]) -> (r: bool)
    ensures
        r == ends_with(s@, p@),
{
    if p.len() > s.len() {
        return false;
    }
    let r = matches_at(s, p, s.len() - p.len());
    proof {
        assert(s@.subrange(s.len() - p.len(), s.len() as int) == s@.skip(s.len() - p.len()));
    }
    r
}

// ------------------------------------------------------------ ASCII casing

pub open spec fn is_ascii_char(c: char) -> bool {
    (c as u32) < 128
}

pub open spec fn is_ascii_seq(s: Seq<char>) -> bool {
    forall|i: int| 0 <= i < s.len() ==> is_ascii_char(#[trigger] s[i])
}

/// ASCII lowercase of one character.
pub open spec fn ascii_lower_char(c: char) -> char {
    if 'A' <= c && c <= 'Z' {
        ((c as u32) + 32) as char
    } else {
        c
    }
}

/// ASCII lowercase of a sequence.
pub open spec fn ascii_lower(s: Seq<char>) -> Seq<char> {
    s.map_values(|c: char| ascii_lower_char(c))
}

/// What `str::to_lowercase` returns: the Unicode lowercase of `s`.
pub uninterp spec fn spec_to_lowercase(s: Seq<char>) -> Seq<char>;

/// `str::to_lowercase`. Trusted: the result is named by
/// `spec_to_lowercase`; of an all-ASCII string it is the ASCII lowercase
/// (the standard library documents that `to_lowercase` lowercases the ASCII
/// letters as `to_ascii_lowercase` does and leaves other ASCII unchanged).
/// Which characters outside ASCII map to what is not stated.
#[verifier::external_body]
pub(crate) fn to_lowercase(s: &str) -> (r: String)
    ensures
        r@ == spec_to_lowercase(s@),
        is_ascii_seq(s@) ==> r@ == ascii_lower(s@),
{
    s.to_lowercase()
}

// ---------------------------------------------------------------- decimals

pub open spec fn digit_char(d: nat) -> char
    recommends
        d < 10,
{
    (('0' as u32) + d) as char
}

/// Decimal representation of `n` without leading zeros.
pub open spec fn decimal(n: nat) -> Seq<char>
    decreases n,
{
    if n < 10 {
        seq![digit_char(n)]
    } else {
        decimal(n / 10).push(digit_char(n % 10))
    }
}

pub fn digit(d: u64) -> (c: char)
    requires
        d < 10,
    ensures
        c == digit_char(d as nat),
{
    if d == 0 {
        '0'
    } else if d == 1 {
        '1'
    } else if d == 2 {
        '2'
    } else if d == 3 {
        '3'
    } else if d == 4 {
        '4'
    } else if d == 5 {
        '5'
    } else if d == 6 {
        '6'
    } else if d == 7 {
        '7'
    } else if d == 8 {
        '8'
    } else {
        '9'
    }
}

/// Decimal digits of `n`, as characters.
pub fn decimal_chars(n: u64) -> (r: Vec<char>)
    ensures
        r@ == decimal(n as nat),
    decreases n,
{
    if n < 10 {
        let mut v: Vec<char> = Vec::new();
        v.push(digit(n));
        v
    } else {
        let mut v = decimal_chars(n / 10);
        v.push(digit(n % 10));
        v
    }
}

/// `n.to_string()` for an unsigned integer.
pub fn u64_to_string(n: u64) -> (r: String)
    ensures
        r@ == decimal(n as nat),
{
    let v = decimal_chars(n);
    string_of(&v)
}

/// `seq![c; n]`.
pub open spec fn repeat(c: char, n: nat) -> Seq<char> {
    Seq::new(n, |i: int| c)
}

/// `s` padded on the left with `'0'` to at least `width` characters
/// (`format!("{:0>width$}", ..)`).
pub open spec fn pad_zeros(s: Seq<char>, width: nat) -> Seq<char> {
    if s.len() >= width {
        s
    } else {
        repeat('0', (width - s.len()) as nat) + s
    }
}

pub fn pad_left_zeros(s: &[char], width: usize) -> (r: Vec<char>)
    ensures
        r@ == pad_zeros(s@, width as nat),
{
    let mut r: Vec<char> = Vec::new();
    if s.len() < width {
        let n = width - s.len();
        let mut i: usize = 0;
        while i < n
            invariant
                i <= n,
                r@ == repeat('0', i as nat),
            decreases n - i,
        {
            r.push('0');
            i = i + 1;
            assert(r@ =~= repeat('0', i as nat));
        }
    }
    let mut k: usize = 0;
    let ghost base = r@;
    while k < s.len()
        invariant
            k <= s.len(),
            r@ == base + s@.take(k as int),
        decreases s.len() - k,
    {
        r.push(s[k]);
        k = k + 1;
        assert(s@.take(k as int) == s@.take(k - 1).push(s@[k - 1]));
    }
    assert(s@.take(s.len() as int) == s@);
    assert(r@ =~= pad_zeros(s@, width as nat));
    r
}

/// Whether `c` is an ASCII digit.
pub open spec fn is_digit(c: char) -> bool {
    '0' <= c && c <= '9'
}

pub open spec fn digit_value(c: char) -> nat {
    ((c as u32) - ('0' as u32)) as nat
}

/// Value of a nonempty all-digit sequence.
pub open spec fn digits_value(s: Seq<char>) -> nat
    decreases s.len(),
{
    if s.len() == 0 {
        0
    } else {
        digits_value(s.drop_last()) * 10 + digit_value(s.last())
    }
}

pub open spec fn all_digits(s: Seq<char>) -> bool {
    forall|i: int| 0 <= i < s.len() ==> is_digit(#[trigger] s[i])
}

/// What `str::parse::<u64>` accepts: an optional `+` followed by one or
/// more ASCII digits whose value fits in 64 bits.
pub open spec fn parse_u64_spec(s: Seq<char>) -> Option<u64> {
    let d = if s.len() > 0 && s[0] == '+' {
        s.drop_first()
    } else {
        s
    };
    if d.len() > 0 && all_digits(d) && digits_value(d) <= u64::MAX {
        Some(digits_value(d) as u64)
    } else {
        None
    }
}

/// Value of the all-digit characters `v[from..to]`, if it fits in a `u64`.
pub fn digits_to_u64(v: &[char], from: usize, to: usize) -> (r: Option<u64>)
    requires
        from <= to <= v.len(),
    ensures
        match r {
            Some(n) => all_digits(v@.subrange(from as int, to as int)) && n as nat == digits_value(
                v@.subrange(from as int, to as int),
            ),
            None => !all_digits(v@.subrange(from as int, to as int)) || digits_value(
                v@.subrange(from as int, to as int),
            ) > u64::MAX,
        },
{
    let mut acc: u64 = 0;
    let mut i = from;
    while i < to
        invariant
            from <= i <= to <= v.len(),
            all_digits(v@.subrange(from as int, i as int)),
            acc as nat == digits_value(v@.subrange(from as int, i as int)),
        decreases to - i,
    {
        let c = v[i];
        let ghost pre = v@.subrange(from as int, i as int);
        let ghost next = v@.subrange(from as int, i + 1);
        assert(next.drop_last() == pre);
        assert(next.last() == c);
        if !('0' <= c && c <= '9') {
            assert(!is_digit(v@.subrange(from as int, to as int)[i - from]));
            return None;
        }
        let d = (c as u32 - '0' as u32) as u64;
        if acc > (u64::MAX - d) / 10 {
            proof {
                lemma_digits_value_prefix_mono(v@.subrange(from as int, to as int), (i + 1 - from) as int);
                assert(v@.subrange(from as int, to as int).take((i + 1 - from) as int) == next);
                assert(digits_value(next) == acc * 10 + d) by (nonlinear_arith)
                    requires
                        digits_value(next) == digits_value(pre) * 10 + d,
                        acc as nat == digits_value(pre),
                ;
                assert(acc * 10 + d > u64::MAX) by (nonlinear_arith)
                    requires
                        acc > (u64::MAX - d) / 10,
                        d < 10,
                ;
            }
            return None;
        }
        proof {
            assert(acc * 10 + d <= u64::MAX) by (nonlinear_arith)
                requires
                    acc <= (u64::MAX - d) / 10,
                    d < 10,
            ;
        }
        acc = acc * 10 + d;
        i = i + 1;
    }
    Some(acc)
}

/// Prefix values of a digit sequence never exceed the whole.
pub proof fn lemma_digits_value_prefix_mono(s: Seq<char>, k: int)
    requires
        0 <= k <= s.len(),
    ensures
        all_digits(s) ==> digits_value(s.take(k)) <= digits_value(s),
    decreases s.len() - k,
{
    if k < s.len() && all_digits(s) {
        lemma_digits_value_prefix_mono(s, k + 1);
        assert(s.take(k + 1).drop_last() == s.take(k));
        assert(s.take(k + 1).last() == s[k]);
        assert(digits_value(s.take(k)) <= digits_value(s.take(k + 1))) by (nonlinear_arith)
            requires
                digits_value(s.take(k + 1)) == digits_value(s.take(k)) * 10 + digit_value(s[k]),
        ;
    } else if k == s.len() {
        assert(s.take(k) == s);
    }
}

/// `s.parse::<u64>()`, with `None` for every error.
pub fn parse_u64(v: &[char]) -> (r: Option<u64>)
    ensures
        r == parse_u64_spec(v@),
{
    let from: usize = if v.len() > 0 && v[0] == '+' {
        1
    } else {
        0
    };
    proof {
        if from == 1 {
            assert(v@.subrange(1, v.len() as int) == v@.drop_first());
        } else {
            assert(v@.subrange(0, v.len() as int) == v@);
        }
    }
    if from == v.len() {
        return None;
    }
    digits_to_u64(v, from, v.len())
}


/// What `str::parse::<i64>` accepts: an optional sign followed by one or
/// more ASCII digits whose value fits in the signed 64-bit range.
pub open spec fn parse_i64_spec(s: Seq<char>) -> Option<i64> {
    if s.len() > 0 && s[0] == '-' {
        let d = s.drop_first();
        if d.len() > 0 && all_digits(d) && digits_value(d) <= 0x8000_0000_0000_0000 {
            Some((0 - digits_value(d)) as i64)
        } else {
            None
        }
    } else {
        let d = if s.len() > 0 && s[0] == '+' {
            s.drop_first()
        } else {
            s
        };
        if d.len() > 0 && all_digits(d) && digits_value(d) <= i64::MAX {
            Some(digits_value(d) as i64)
        } else {
            None
        }
    }
}

/// `s.parse::<i64>()`, with `None` for every error.
pub fn parse_i64(v: &[char]) -> (r: Option<i64>)
    ensures
        r == parse_i64_spec(v@),
{
    let neg = v.len() > 0 && v[0] == '-';
    let from: usize = if v.len() > 0 && (v[0] == '-' || v[0] == '+') {
        1
    } else {
        0
    };
    proof {
        if from == 1 {
            assert(v@.subrange(1, v.len() as int) == v@.drop_first());
        } else {
            assert(v@.subrange(0, v.len() as int) == v@);
        }
    }
    if from == v.len() {
        return None;
    }
    match digits_to_u64(v, from, v.len()) {
        Some(n) => {
            if neg {
                if n <= 0x8000_0000_0000_0000u64 {
                    if n == 0x8000_0000_0000_0000u64 {
                        Some(i64::MIN)
                    } else {
                        Some(0 - (n as i64))
                    }
                } else {
                    None
                }
            } else if n <= 0x7fff_ffff_ffff_ffffu64 {
                Some(n as i64)
            } else {
                None
            }
        },
        None => None,
    }
}

/// Decimal digits are digits, and read back as the number written.
pub proof fn lemma_decimal_digits(n: nat)
    ensures
        all_digits(decimal(n)),
        digits_value(decimal(n)) == n,
        decimal(n).len() > 0,
        !is_ws(decimal(n)[0]),
        !is_ws(decimal(n).last()),
        decimal(n)[0] != '+',
    decreases n,
{
    let k = n % 10;
    assert(digit_value(digit_char(k)) == k) by {
        assert((('0' as u32) + k) as char as u32 == ('0' as u32) + k);
    }
    if n >= 10 {
        lemma_decimal_digits(n / 10);
        let d = decimal(n / 10);
        let s = d.push(digit_char(n % 10));
        assert(s.drop_last() =~= d);
        assert(s[0] == d[0]);
        assert(decimal(n) == s);
        assert(s.last() == digit_char(k));
        assert(digits_value(s) == digits_value(d) * 10 + digit_value(digit_char(k)));
        assert(n == (n / 10) * 10 + n % 10) by (nonlinear_arith);
    } else {
        assert(seq![digit_char(n)].drop_last() =~= Seq::<char>::empty());
        assert(decimal(n) == seq![digit_char(n)]);
        assert(n % 10 == n);
        assert(digits_value(seq![digit_char(n)]) == digits_value(Seq::<char>::empty()) * 10 + digit_value(digit_char(n)));
    }
}

/// A number written in decimal reads back as itself (`to_string` then
/// `parse`).
pub proof fn decimal_parse_round_trip(n: u64)
    ensures
        parse_u64_spec(decimal(n as nat)) == Some(n),
        trim(decimal(n as nat)) == decimal(n as nat),
{
    lemma_decimal_digits(n as nat);
    lemma_trim_id(decimal(n as nat));
}

// ------------------------------------------------------------------- lines

/// The pieces of `s` between `'\n'` characters (`str::split('\n')`).
pub open spec fn split_nl(s: Seq<char>) -> Seq<Seq<char>>
    decreases s.len(),
{
    if s.len() == 0 {
        seq![Seq::empty()]
    } else {
        let t = split_nl(s.drop_last());
        if s.last() == '\n' {
            t.push(Seq::empty())
        } else {
            t.update(t.len() - 1, t.last().push(s.last()))
        }
    }
}

pub proof fn lemma_split_nl_len(s: Seq<char>)
    ensures
        split_nl(s).len() >= 1,
    decreases s.len(),
{
    if s.len() > 0 {
        lemma_split_nl_len(s.drop_last());
    }
}

/// A line without its `'\r'` terminator, if any.
pub open spec fn strip_cr(x: Seq<char>) -> Seq<char> {
    if x.len() > 0 && x.last() == '\r' {
        x.drop_last()
    } else {
        x
    }
}

/// The lines of `s` as `str::lines` yields them: split at `'\n'`, a final
/// empty piece dropped, and `"\r\n"` endings taken whole.
pub open spec fn lines(s: Seq<char>) -> Seq<Seq<char>> {
    let parts = split_nl(s);
    let ended = parts.drop_last().map_values(|x: Seq<char>| strip_cr(x));
    if parts.last().len() == 0 {
        ended
    } else {
        ended.push(parts.last())
    }
}

/// A text without line breaks is one piece.
pub proof fn lemma_split_no_nl(a: Seq<char>)
    requires
        forall|i: int| 0 <= i < a.len() ==> a[i] != '\n',
    ensures
        split_nl(a) == seq![a],
    decreases a.len(),
{
    if a.len() > 0 {
        lemma_split_no_nl(a.drop_last());
        assert(a.drop_last().push(a.last()) =~= a);
    } else {
        assert(a =~= Seq::<char>::empty());
    }
}

/// A text without line breaks.
pub open spec fn no_nl(s: Seq<char>) -> bool {
    forall|i: int| 0 <= i < s.len() ==> s[i] != '\n'
}

/// No piece of a split holds a line break.
pub proof fn lemma_split_nl_parts(s: Seq<char>)
    ensures
        forall|k: int| 0 <= k < split_nl(s).len() ==> no_nl(#[trigger] split_nl(s)[k]),
    decreases s.len(),
{
    lemma_split_nl_len(s);
    if s.len() > 0 {
        lemma_split_nl_parts(s.drop_last());
        lemma_split_nl_len(s.drop_last());
        let t = split_nl(s.drop_last());
        if s.last() != '\n' {
            let r = split_nl(s);
            assert forall|k: int| 0 <= k < r.len() implies no_nl(#[trigger] r[k]) by {
                if k == t.len() - 1 {
                    assert(r[k] == t.last().push(s.last()));
                    assert(no_nl(t[k]));
                } else {
                    assert(r[k] == t[k]);
                }
            }
        } else {
            let r = split_nl(s);
            assert forall|k: int| 0 <= k < r.len() implies no_nl(#[trigger] r[k]) by {
                if k < t.len() {
                    assert(r[k] == t[k]);
                } else {
                    assert(r[k] =~= Seq::<char>::empty());
                }
            }
        }
    }
}

/// A line break and then a piece without one add that piece.
pub proof fn lemma_split_nl_after(x: Seq<char>, b: Seq<char>)
    requires
        no_nl(b),
    ensures
        split_nl(x + seq!['\n'] + b) == split_nl(x).push(b),
    decreases b.len(),
{
    let s = x + seq!['\n'] + b;
    if b.len() == 0 {
        assert(s.drop_last() =~= x);
        assert(b =~= Seq::<char>::empty());
        assert(s.last() == '\n');
    } else {
        lemma_split_nl_after(x, b.drop_last());
        assert(s.drop_last() =~= x + seq!['\n'] + b.drop_last());
        let t = split_nl(x).push(b.drop_last());
        assert(s.last() == b.last());
        assert(b.last() != '\n');
        assert(b.drop_last().push(b.last()) =~= b);
        assert(t.last() == b.drop_last());
        assert(t.update(t.len() - 1, t.last().push(s.last())) =~= split_nl(x).push(b));
    }
}

/// Splitting joined pieces without line breaks gives them back.
pub proof fn lemma_split_join(ls: Seq<Seq<char>>)
    requires
        ls.len() >= 1,
        forall|k: int| 0 <= k < ls.len() ==> no_nl(#[trigger] ls[k]),
    ensures
        split_nl(join(ls, seq!['\n'])) == ls,
    decreases ls.len(),
{
    if ls.len() == 1 {
        assert(no_nl(ls[0]));
        lemma_split_no_nl(ls[0]);
        assert(seq![ls[0]] =~= ls);
    } else {
        let p = ls.drop_last();
        assert forall|k: int| 0 <= k < p.len() implies no_nl(#[trigger] p[k]) by {
            assert(p[k] == ls[k]);
        }
        lemma_split_join(p);
        assert(no_nl(ls[ls.len() - 1]));
        lemma_split_nl_after(join(p, seq!['\n']), ls.last());
        assert(p.push(ls.last()) =~= ls);
    }
}

/// A line without a final carriage return.
pub open spec fn no_final_cr(x: Seq<char>) -> bool {
    !(x.len() > 0 && x.last() == '\r')
}

/// The lines of joined lines: the same lines, but a final empty one, when
/// no line holds a line break and none but the last ends with `'\r'`.
pub proof fn lemma_lines_join(ls: Seq<Seq<char>>)
    requires
        ls.len() >= 1,
        forall|k: int| 0 <= k < ls.len() ==> no_nl(#[trigger] ls[k]),
        forall|k: int| 0 <= k < ls.len() - 1 ==> no_final_cr(#[trigger] ls[k]),
    ensures
        lines(join(ls, seq!['\n'])) == if ls.last().len() == 0 {
            ls.drop_last()
        } else {
            ls
        },
{
    lemma_split_join(ls);
    let ended = ls.drop_last().map_values(|x: Seq<char>| strip_cr(x));
    assert(ended =~= ls.drop_last()) by {
        assert forall|k: int| 0 <= k < ended.len() implies ended[k] == ls.drop_last()[k] by {
            assert(no_final_cr(ls[k]));
        }
    }
    if ls.last().len() != 0 {
        assert(ls.drop_last().push(ls.last()) =~= ls);
    }
}

/// The lines of a text hold no line break.
pub proof fn lemma_lines_no_nl(s: Seq<char>)
    ensures
        forall|k: int| 0 <= k < lines(s).len() ==> no_nl(#[trigger] lines(s)[k]),
{
    lemma_split_nl_parts(s);
    lemma_split_nl_len(s);
    let parts = split_nl(s);
    let l = lines(s);
    assert forall|k: int| 0 <= k < l.len() implies no_nl(#[trigger] l[k]) by {
        if k < parts.len() - 1 {
            assert(no_nl(parts[k]));
            assert(l[k] == strip_cr(parts[k]));
            assert forall|i: int| 0 <= i < l[k].len() implies l[k][i] != '\n' by {
                assert(l[k][i] == parts[k][i]);
            }
        } else {
            assert(l[k] == parts.last());
            assert(no_nl(parts[parts.len() - 1]));
        }
    }
}

/// A line without a trailing `'\r'`.
pub fn strip_cr_vec(x: Vec<char>) -> (r: Vec<char>)
    ensures
        r@ == strip_cr(x@),
{
    let mut x = x;
    if x.len() > 0 && x[x.len() - 1] == '\r' {
        x.pop();
    }
    x
}

/// The character sequences held by a vector of character vectors.
pub open spec fn views(v: Seq<Vec<char>>) -> Seq<Seq<char>> {
    v.map_values(|x: Vec<char>| x@)
}

/// The character sequences held by a vector of strings.
pub open spec fn str_views(v: Seq<String>) -> Seq<Seq<char>> {
    v.map_values(|x: String| x@)
}

/// `str::lines`, as character vectors.
pub fn lines_chars(v: &[char]) -> (r: Vec<Vec<char>>)
    ensures
        views(r@) == lines(v@),
{
    let mut done: Vec<Vec<char>> = Vec::new();
    let mut cur: Vec<char> = Vec::new();
    let mut i: usize = 0;
    proof {
        assert(v@.take(0) =~= Seq::<char>::empty());
        assert(views(done@).push(cur@) =~= split_nl(v@.take(0)));
    }
    while i < v.len()
        invariant
            i <= v.len(),
            views(done@).push(cur@) == split_nl(v@.take(i as int)),
        decreases v.len() - i,
    {
        let c = v[i];
        let ghost pre = v@.take(i as int);
        let ghost old_done = done@;
        let ghost old_cur = cur@;
        proof {
            lemma_split_nl_len(pre);
            assert(v@.take(i + 1).drop_last() =~= pre);
            assert(v@.take(i + 1).last() == c);
        }
        if c == '\n' {
            let mut fresh: Vec<char> = Vec::new();
            std::mem::swap(&mut fresh, &mut cur);
            done.push(fresh);
            proof {
                assert(views(done@) =~= views(old_done).push(old_cur));
                assert(views(done@).push(cur@) =~= split_nl(pre).push(Seq::empty()));
            }
        } else {
            cur.push(c);
            proof {
                let t = split_nl(pre);
                assert(views(done@).push(cur@) =~= t.update(t.len() - 1, t.last().push(c)));
            }
        }
        i = i + 1;
    }
    proof {
        assert(v@.take(v.len() as int) =~= v@);
    }
    let ghost parts = split_nl(v@);
    assert(views(done@) =~= parts.drop_last());
    assert(cur@ == parts.last());
    let mut r: Vec<Vec<char>> = Vec::new();
    let mut k: usize = 0;
    let n = done.len();
    while k < n
        invariant
            k <= n,
            n == done.len(),
            views(done@) == parts.drop_last(),
            views(r@) =~= parts.drop_last().take(k as int).map_values(
                |x: Seq<char>| strip_cr(x),
            ),
        decreases n - k,
    {
        let ghost old_r = r@;
        let line = strip_cr_vec(done[k].clone());
        r.push(line);
        k = k + 1;
        proof {
            assert(views(done@)[k - 1] == done@[k - 1]@);
            assert(views(r@) =~= views(old_r).push(line@));
            assert(parts.drop_last().take(k as int) =~= parts.drop_last().take(k - 1).push(
                parts.drop_last()[k - 1],
            ));
        }
    }
    assert(parts.drop_last().take(n as int) =~= parts.drop_last());
    if cur.len() > 0 {
        let ghost old_r = r@;
        r.push(cur);
        assert(views(r@) =~= views(old_r).push(parts.last()));
    }
    r
}

/// `str::lines`, as strings.
pub fn lines_of(s: &str) -> (r: Vec<String>)
    ensures
        str_views(r@) == lines(s@),
{
    let v = chars_of(s);
    let ls = lines_chars(&v);
    let mut r: Vec<String> = Vec::new();
    let mut k: usize = 0;
    while k < ls.len()
        invariant
            k <= ls.len(),
            views(ls@) == lines(s@),
            str_views(r@) =~= views(ls@).take(k as int),
        decreases ls.len() - k,
    {
        let ghost old_r = r@;
        let line = string_of(&ls[k]);
        r.push(line);
        k = k + 1;
        proof {
            assert(str_views(r@) =~= str_views(old_r).push(line@));
            assert(views(ls@).take(k as int) =~= views(ls@).take(k - 1).push(ls@[k - 1]@));
        }
    }
    assert(views(ls@).take(ls.len() as int) =~= views(ls@));
    r
}

// ------------------------------------------------- splitting and joining

/// The pieces of `s` between occurrences of the character `c`
/// (`str::split(c)`).
pub open spec fn split_char(s: Seq<char>, c: char) -> Seq<Seq<char>>
    decreases s.len(),
{
    if s.len() == 0 {
        seq![Seq::empty()]
    } else {
        let t = split_char(s.drop_last(), c);
        if s.last() == c {
            t.push(Seq::empty())
        } else {
            t.update(t.len() - 1, t.last().push(s.last()))
        }
    }
}

pub proof fn lemma_split_char_len(s: Seq<char>, c: char)
    ensures
        split_char(s, c).len() >= 1,
    decreases s.len(),
{
    if s.len() > 0 {
        lemma_split_char_len(s.drop_last(), c);
    }
}

/// `str::split` at a character, as character vectors.
pub fn split_at_char(v: &[char], c: char) -> (r: Vec<Vec<char>>)
    ensures
        views(r@) == split_char(v@, c),
{
    let mut done: Vec<Vec<char>> = Vec::new();
    let mut cur: Vec<char> = Vec::new();
    let mut i: usize = 0;
    proof {
        assert(v@.take(0) =~= Seq::<char>::empty());
        assert(views(done@).push(cur@) =~= split_char(v@.take(0), c));
    }
    while i < v.len()
        invariant
            i <= v.len(),
            views(done@).push(cur@) == split_char(v@.take(i as int), c),
        decreases v.len() - i,
    {
        let x = v[i];
        let ghost pre = v@.take(i as int);
        let ghost old_done = done@;
        let ghost old_cur = cur@;
        proof {
            lemma_split_char_len(pre, c);
            assert(v@.take(i + 1).drop_last() =~= pre);
            assert(v@.take(i + 1).last() == x);
        }
        if x == c {
            let mut fresh: Vec<char> = Vec::new();
            std::mem::swap(&mut fresh, &mut cur);
            done.push(fresh);
            proof {
                assert(views(done@) =~= views(old_done).push(old_cur));
                assert(views(done@).push(cur@) =~= split_char(pre, c).push(Seq::empty()));
            }
        } else {
            cur.push(x);
            proof {
                let t = split_char(pre, c);
                assert(views(done@).push(cur@) =~= t.update(t.len() - 1, t.last().push(x)));
            }
        }
        i = i + 1;
    }
    proof {
        assert(v@.take(v.len() as int) =~= v@);
    }
    let ghost old_done = done@;
    done.push(cur);
    assert(views(done@) =~= views(old_done).push(done@.last()@));
    done
}

/// The pieces joined with `sep` between them (`join`).
pub open spec fn join(items: Seq<Seq<char>>, sep: Seq<char>) -> Seq<char>
    decreases items.len(),
{
    if items.len() == 0 {
        Seq::empty()
    } else if items.len() == 1 {
        items[0]
    } else {
        join(items.drop_last(), sep) + sep + items.last()
    }
}

/// Joins character vectors with a separator.
pub fn join_chars(items: &Vec<Vec<char>>, sep: &[char]) -> (r: Vec<char>)
    ensures
        r@ == join(views(items@), sep@),
{
    let mut r: Vec<char> = Vec::new();
    let mut k: usize = 0;
    while k < items.len()
        invariant
            k <= items.len(),
            r@ == join(views(items@).take(k as int), sep@),
        decreases items.len() - k,
    {
        let ghost t = views(items@).take(k + 1);
        assert(t.drop_last() =~= views(items@).take(k as int));
        assert(t.last() == items@[k as int]@);
        if k > 0 {
            append_chars(&mut r, sep);
        } else {
            assert(t.len() == 1);
        }
        append_chars(&mut r, &items[k]);
        k = k + 1;
    }
    assert(views(items@).take(items.len() as int) =~= views(items@));
    r
}

/// Appends characters to a character vector.
pub fn append_chars(r: &mut Vec<char>, s: &[char])
    ensures
        final(r)@ == old(r)@ + s@,
{
    let mut i: usize = 0;
    let ghost base = r@;
    while i < s.len()
        invariant
            i <= s.len(),
            r@ == base + s@.take(i as int),
        decreases s.len() - i,
    {
        r.push(s[i]);
        i = i + 1;
        assert(s@.take(i as int) == s@.take(i - 1).push(s@[i - 1]));
    }
    assert(s@.take(s.len() as int) =~= s@);
}

/// The first occurrence of `p` in `s`, if any.
pub open spec fn first_occurrence(s: Seq<char>, p: Seq<char>) -> Option<int> {
    if exists|i: int| is_first_from(s, p, 0, i) {
        Some(choose|i: int| is_first_from(s, p, 0, i))
    } else {
        None
    }
}

/// `t` before every character of `s` and once more at its end: what
/// `str::replace` makes of an empty pattern.
pub open spec fn interleave(s: Seq<char>, t: Seq<char>) -> Seq<char>
    decreases s.len(),
{
    if s.len() == 0 {
        t
    } else {
        t + seq![s[0]] + interleave(s.skip(1), t)
    }
}

/// Every occurrence of `p` in `s`, scanning left to right, replaced by `t`
/// (`str::replace`); an empty `p` occurs at every character boundary.
pub open spec fn replace_all(s: Seq<char>, p: Seq<char>, t: Seq<char>) -> Seq<char>
    decreases s.len(),
{
    if p.len() == 0 {
        interleave(s, t)
    } else {
        match first_occurrence(s, p) {
            None => s,
            Some(i) => if 0 <= i && i + p.len() <= s.len() {
                s.take(i) + t + replace_all(s.skip(i + p.len()), p, t)
            } else {
                s
            },
        }
    }
}

/// The first occurrence is unique.
pub proof fn lemma_first_unique(s: Seq<char>, p: Seq<char>, i: int)
    requires
        is_first_from(s, p, 0, i),
    ensures
        first_occurrence(s, p) == Some(i),
{
    let j = choose|j: int| is_first_from(s, p, 0, j);
    if j < i {
        assert(!occurs_at(s, p, j));
    } else if j > i {
        assert(occurs_at(s, p, i));
    }
}

/// `t` before every character of `s` and once more at its end.
fn interleave_chars(s: &[char], t: &[char]) -> (r: Vec<char>)
    ensures
        r@ == interleave(s@, t@),
{
    let mut r: Vec<char> = Vec::new();
    let mut i: usize = s.len();
    let mut tail: Vec<char> = Vec::new();
    append_chars(&mut tail, t);
    assert(s@.skip(s.len() as int) =~= Seq::<char>::empty());
    while i > 0
        invariant
            i <= s.len(),
            tail@ == interleave(s@.skip(i as int), t@),
        decreases i,
    {
        i = i - 1;
        let mut next: Vec<char> = Vec::new();
        append_chars(&mut next, t);
        next.push(s[i]);
        append_chars(&mut next, &tail);
        proof {
            let w = s@.skip(i as int);
            assert(w.skip(1) =~= s@.skip(i + 1));
            assert(w[0] == s@[i as int]);
            assert(next@ =~= t@ + seq![w[0]] + interleave(w.skip(1), t@));
        }
        tail = next;
    }
    assert(s@.skip(0) =~= s@);
    append_chars(&mut r, &tail);
    assert(r@ =~= tail@);
    r
}

/// `str::replace`.
pub fn replace_chars(s: &[char], p: &[char], t: &[char]) -> (r: Vec<char>)
    ensures
        r@ == replace_all(s@, p@, t@),
{
    if p.len() == 0 {
        return interleave_chars(s, t);
    }
    let mut r: Vec<char> = Vec::new();
    let mut pos: usize = 0;
    assert(s@.skip(0) =~= s@);
    assert(r@ + replace_all(s@.skip(0), p@, t@) =~= replace_all(s@, p@, t@));
    while pos <= s.len()
        invariant
            pos <= s.len(),
            p.len() > 0,
            r@ + replace_all(s@.skip(pos as int), p@, t@) == replace_all(s@, p@, t@),
        decreases s.len() - pos,
    {
        let rest = slice_vec(s, pos, s.len());
        assert(rest@ =~= s@.skip(pos as int));
        match find_from(&rest, p, 0) {
            None => {
                proof {
                    assert(!exists|i: int| is_first_from(rest@, p@, 0, i));
                }
                append_chars(&mut r, &rest);
                return r;
            },
            Some(i) => {
                proof {
                    lemma_first_unique(rest@, p@, i as int);
                    assert(rest@.take(i as int) =~= s@.subrange(pos as int, pos + i));
                    assert(rest@.skip(i + p.len()) =~= s@.skip(pos + i + p.len()));
                }
                let before = slice_vec(s, pos, pos + i);
                append_chars(&mut r, &before);
                append_chars(&mut r, t);
                pos = pos + i + p.len();
                proof {
                    assert(r@ + replace_all(s@.skip(pos as int), p@, t@) =~= replace_all(
                        s@,
                        p@,
                        t@,
                    ));
                }
            },
        }
    }
    r
}

} // verus!
