//! Character-level text utilities: blank detection, scanning, trimming.
//!
//! All executable functions are specified against recursive spec functions
//! over `Seq<char>`, the view of `&str` and `String`.

use vstd::prelude::*;

verus! {

/// Characters treated as blank when lines and tokens are trimmed.
pub open spec fn is_blank(c: char) -> bool {
    c == ' ' || c == '\t' || c == '\r' || c == '\n'
}

/// Executable counterpart of `is_blank`.
pub fn is_blank_char(c: char) -> (r: bool)
    ensures
        r == is_blank(c),
{
    c == ' ' || c == '\t' || c == '\r' || c == '\n'
}

/// Index of the first occurrence of `c` at or after `i`, or `s.len()` if none.
pub open spec fn find_from(s: Seq<char>, c: char, i: int) -> int
    decreases s.len() - i when 0 <= i <= s.len()
{
    if i >= s.len() {
        s.len() as int
    } else if s[i] == c {
        i
    } else {
        find_from(s, c, i + 1)
    }
}

pub proof fn lemma_find_from(s: Seq<char>, c: char, i: int)
    requires
        0 <= i <= s.len(),
    ensures
        i <= find_from(s, c, i) <= s.len(),
        find_from(s, c, i) < s.len() ==> s[find_from(s, c, i)] == c,
        forall|j: int| i <= j < find_from(s, c, i) ==> s[j] != c,
    decreases s.len() - i,
{
    if i < s.len() && s[i] != c {
        lemma_find_from(s, c, i + 1);
    }
}

/// Index of the first blank character at or after `i`, or `s.len()` if none.
pub open spec fn find_blank_from(s: Seq<char>, i: int) -> int
    decreases s.len() - i when 0 <= i <= s.len()
{
    if i >= s.len() {
        s.len() as int
    } else if is_blank(s[i]) {
        i
    } else {
        find_blank_from(s, i + 1)
    }
}

pub proof fn lemma_find_blank_from(s: Seq<char>, i: int)
    requires
        0 <= i <= s.len(),
    ensures
        i <= find_blank_from(s, i) <= s.len(),
        find_blank_from(s, i) < s.len() ==> is_blank(s[find_blank_from(s, i)]),
        forall|j: int| i <= j < find_blank_from(s, i) ==> !is_blank(s[j]),
    decreases s.len() - i,
{
    if i < s.len() && !is_blank(s[i]) {
        lemma_find_blank_from(s, i + 1);
    }
}

/// Index of the first non-blank character at or after `i`, or `s.len()` if none.
pub open spec fn find_nonblank_from(s: Seq<char>, i: int) -> int
    decreases s.len() - i when 0 <= i <= s.len()
{
    if i >= s.len() {
        s.len() as int
    } else if !is_blank(s[i]) {
        i
    } else {
        find_nonblank_from(s, i + 1)
    }
}

pub proof fn lemma_find_nonblank_from(s: Seq<char>, i: int)
    requires
        0 <= i <= s.len(),
    ensures
        i <= find_nonblank_from(s, i) <= s.len(),
        find_nonblank_from(s, i) < s.len() ==> !is_blank(s[find_nonblank_from(s, i)]),
        forall|j: int| i <= j < find_nonblank_from(s, i) ==> is_blank(s[j]),
    decreases s.len() - i,
{
    if i < s.len() && is_blank(s[i]) {
        lemma_find_nonblank_from(s, i + 1);
    }
}

/// `s` with its leading blank characters removed.
pub open spec fn trim_start(s: Seq<char>) -> Seq<char>
    decreases s.len(),
{
    if s.len() > 0 && is_blank(s[0]) {
        trim_start(s.skip(1))
    } else {
        s
    }
}

/// `s` with its trailing blank characters removed.
pub open spec fn trim_end(s: Seq<char>) -> Seq<char>
    decreases s.len(),
{
    if s.len() > 0 && is_blank(s.last()) {
        trim_end(s.drop_last())
    } else {
        s
    }
}

/// `s` with leading and trailing blank characters removed.
pub open spec fn trimmed(s: Seq<char>) -> Seq<char> {
    trim_start(trim_end(s))
}

pub proof fn lemma_trim_start_skip(s: Seq<char>, i: int)
    requires
        0 <= i <= s.len(),
        forall|j: int| 0 <= j < i ==> is_blank(s[j]),
        i == s.len() || !is_blank(s[i]),
    ensures
        trim_start(s) == s.skip(i),
    decreases i,
{
    if i == 0 {
        assert(s.skip(0) =~= s);
    } else {
        let t = s.skip(1);
        assert(forall|j: int| 0 <= j < i - 1 ==> is_blank(t[j]));
        lemma_trim_start_skip(t, i - 1);
        assert(t.skip(i - 1) =~= s.skip(i));
    }
}

pub proof fn lemma_trim_end_take(s: Seq<char>, i: int)
    requires
        0 <= i <= s.len(),
        forall|j: int| i <= j < s.len() ==> is_blank(s[j]),
        i == 0 || !is_blank(s[i - 1]),
    ensures
        trim_end(s) == s.take(i),
    decreases s.len(),
{
    if i == s.len() {
        assert(s.take(i) =~= s);
    } else {
        let t = s.drop_last();
        assert(t =~= s.take(s.len() - 1));
        assert(forall|j: int| i <= j < t.len() ==> is_blank(t[j]));
        lemma_trim_end_take(t, i);
        assert(t.take(i) =~= s.take(i));
    }
}

/// A sequence of blanks trims to the empty sequence.
pub proof fn lemma_trimmed_all_blank(s: Seq<char>)
    requires
        forall|j: int| 0 <= j < s.len() ==> is_blank(s[j]),
    ensures
        trimmed(s) == Seq::<char>::empty(),
    decreases s.len(),
{
    lemma_trim_end_take(s, 0);
    assert(s.take(0) =~= Seq::<char>::empty());
}

/// `find_from` is pinned down by "no earlier occurrence, and a hit or the end".
pub proof fn lemma_find_from_unique(s: Seq<char>, c: char, i: int, j: int)
    requires
        0 <= i <= j <= s.len(),
        forall|k: int| i <= k < j ==> s[k] != c,
        j == s.len() || s[j] == c,
    ensures
        find_from(s, c, i) == j,
    decreases j - i,
{
    if i < j {
        lemma_find_from_unique(s, c, i + 1, j);
    }
}

pub proof fn lemma_find_blank_from_unique(s: Seq<char>, i: int, j: int)
    requires
        0 <= i <= j <= s.len(),
        forall|k: int| i <= k < j ==> !is_blank(s[k]),
        j == s.len() || is_blank(s[j]),
    ensures
        find_blank_from(s, i) == j,
    decreases j - i,
{
    if i < j {
        lemma_find_blank_from_unique(s, i + 1, j);
    }
}

pub proof fn lemma_find_nonblank_from_unique(s: Seq<char>, i: int, j: int)
    requires
        0 <= i <= j <= s.len(),
        forall|k: int| i <= k < j ==> is_blank(s[k]),
        j == s.len() || !is_blank(s[j]),
    ensures
        find_nonblank_from(s, i) == j,
    decreases j - i,
{
    if i < j {
        lemma_find_nonblank_from_unique(s, i + 1, j);
    }
}

/// Index of the first `'\n'` at or after `from`, or the length if none.
pub fn find_newline(s: &str, from: usize) -> (r: usize)
    requires
        from <= s@.len(),
    ensures
        r == find_from(s@, '\n', from as int),
        from <= r <= s@.len(),
{
    let n = s.unicode_len();
    let mut i = from;
    while i < n && s.get_char(i) != '\n'
        invariant
            from <= i <= n,
            forall|j: int| from <= j < i ==> s@[j] != '\n',
        decreases n - i,
    {
        i = i + 1;
    }
    proof {
        lemma_find_from_unique(s@, '\n', from as int, i as int);
    }
    i
}

/// Index of the first blank at or after `from`, or the length if none.
pub fn find_blank(s: &str, from: usize) -> (r: usize)
    requires
        from <= s@.len(),
    ensures
        r == find_blank_from(s@, from as int),
        from <= r <= s@.len(),
{
    let n = s.unicode_len();
    let mut i = from;
    while i < n && !is_blank_char(s.get_char(i))
        invariant
            from <= i <= n,
            forall|j: int| from <= j < i ==> !is_blank(s@[j]),
        decreases n - i,
    {
        i = i + 1;
    }
    proof {
        lemma_find_blank_from_unique(s@, from as int, i as int);
    }
    i
}

/// Index of the first non-blank at or after `from`, or the length if none.
pub fn find_nonblank(s: &str, from: usize) -> (r: usize)
    requires
        from <= s@.len(),
    ensures
        r == find_nonblank_from(s@, from as int),
        from <= r <= s@.len(),
{
    let n = s.unicode_len();
    let mut i = from;
    while i < n && is_blank_char(s.get_char(i))
        invariant
            from <= i <= n,
            forall|j: int| from <= j < i ==> is_blank(s@[j]),
        decreases n - i,
    {
        i = i + 1;
    }
    proof {
        lemma_find_nonblank_from_unique(s@, from as int, i as int);
    }
    i
}

/// Character-by-character string equality, decided without trusting any
/// outside comparison.
pub fn str_eq(a: &str, b: &str) -> (r: bool)
    ensures
        r == (a@ == b@),
{
    let na = a.unicode_len();
    let nb = b.unicode_len();
    if na != nb {
        return false;
    }
    let mut i: usize = 0;
    while i < na
        invariant
            i <= na,
            na == a@.len() == b@.len(),
            forall|j: int| 0 <= j < i ==> a@[j] == b@[j],
        decreases na - i,
    {
        if a.get_char(i) != b.get_char(i) {
            return false;
        }
        i = i + 1;
    }
    proof {
        assert(a@ =~= b@);
    }
    true
}

/// Returns the slice of `s` with leading and trailing blanks removed.
pub fn trim_str<'a>(s: &'a str) -> (r: &'a str)
    ensures
        r@ == trimmed(s@),
{
    let n = s.unicode_len();
    let mut lo: usize = 0;
    while lo < n && is_blank_char(s.get_char(lo))
        invariant
            lo <= n,
            forall|j: int| 0 <= j < lo ==> is_blank(s@[j]),
        decreases n - lo,
    {
        lo = lo + 1;
    }
    let mut hi: usize = n;
    while hi > lo && is_blank_char(s.get_char(hi - 1))
        invariant
            lo <= hi <= n,
            forall|j: int| hi <= j < n ==> is_blank(s@[j]),
        decreases hi,
    {
        hi = hi - 1;
    }
    let r = s.substring_char(lo, hi);
    proof {
        if lo == hi {
            assert(forall|j: int| 0 <= j < s@.len() ==> is_blank(s@[j]));
            lemma_trimmed_all_blank(s@);
            assert(r@ =~= Seq::<char>::empty());
        } else {
            lemma_trim_end_take(s@, hi as int);
            let t = s@.take(hi as int);
            assert(forall|j: int| 0 <= j < lo ==> is_blank(t[j]));
            assert(!is_blank(t[lo as int]));
            lemma_trim_start_skip(t, lo as int);
            assert(t.skip(lo as int) =~= s@.subrange(lo as int, hi as int));
        }
    }
    r
}

/// `s` with all trailing `':'` characters removed.
pub open spec fn strip_trailing_colons(s: Seq<char>) -> Seq<char>
    decreases s.len(),
{
    if s.len() > 0 && s.last() == ':' {
        strip_trailing_colons(s.drop_last())
    } else {
        s
    }
}

proof fn lemma_strip_colons_take(s: Seq<char>, i: int)
    requires
        0 <= i <= s.len(),
        forall|j: int| i <= j < s.len() ==> s[j] == ':',
        i == 0 || s[i - 1] != ':',
    ensures
        strip_trailing_colons(s) == s.take(i),
    decreases s.len(),
{
    if i == s.len() {
        assert(s.take(i) =~= s);
    } else {
        let t = s.drop_last();
        assert(t =~= s.take(s.len() - 1));
        assert(forall|j: int| i <= j < t.len() ==> t[j] == ':');
        lemma_strip_colons_take(t, i);
        assert(t.take(i) =~= s.take(i));
    }
}

/// Returns `s` with all trailing colons removed.
pub fn strip_colons<'a>(s: &'a str) -> (r: &'a str)
    ensures
        r@ == strip_trailing_colons(s@),
{
    let n = s.unicode_len();
    let mut hi: usize = n;
    while hi > 0 && s.get_char(hi - 1) == ':'
        invariant
            hi <= n,
            forall|j: int| hi <= j < n ==> s@[j] == ':',
        decreases hi,
    {
        hi = hi - 1;
    }
    let r = s.substring_char(0, hi);
    proof {
        lemma_strip_colons_take(s@, hi as int);
        assert(r@ =~= s@.take(hi as int));
    }
    r
}

/// `s` with one leading underscore removed, if it has one.
pub open spec fn strip_leading_underscore(s: Seq<char>) -> Seq<char> {
    if s.len() > 0 && s[0] == '_' {
        s.skip(1)
    } else {
        s
    }
}

/// Returns `s` with a single leading underscore removed, if it has one.
pub fn strip_underscore<'a>(s: &'a str) -> (r: &'a str)
    ensures
        r@ == strip_leading_underscore(s@),
{
    let n = s.unicode_len();
    if n > 0 && s.get_char(0) == '_' {
        let r = s.substring_char(1, n);
        proof {
            assert(r@ =~= s@.skip(1));
        }
        r
    } else {
        s
    }
}

/// The views of a sequence of string slices.
pub open spec fn str_views(ls: Seq<&str>) -> Seq<Seq<char>> {
    Seq::new(ls.len(), |i: int| ls[i]@)
}

/// The views of a sequence of strings.
pub open spec fn string_views(ls: Seq<String>) -> Seq<Seq<char>> {
    Seq::new(ls.len(), |i: int| ls[i]@)
}

/// `s` split at `'\n'` separators. Always at least one (possibly empty) line;
/// a trailing `'\n'` contributes a final empty line.
pub open spec fn lines_of(s: Seq<char>) -> Seq<Seq<char>>
    decreases s.len(),
{
    let j = find_from(s, '\n', 0);
    if 0 <= j < s.len() {
        seq![s.take(j)] + lines_of(s.skip(j + 1))
    } else {
        seq![s]
    }
}

/// Unfolds `lines_of` on the suffix of `s` that starts at `pos`.
pub proof fn lemma_lines_of_skip(s: Seq<char>, pos: int)
    requires
        0 <= pos <= s.len(),
    ensures
        ({
            let j = find_from(s, '\n', pos);
            &&& find_from(s.skip(pos), '\n', 0) == j - pos
            &&& (j < s.len() ==> lines_of(s.skip(pos)) == seq![s.subrange(pos, j)] + lines_of(
                s.skip(j + 1),
            ))
            &&& (j == s.len() ==> lines_of(s.skip(pos)) == seq![s.subrange(pos, s.len() as int)])
        }),
{
    let j = find_from(s, '\n', pos);
    lemma_find_from(s, '\n', pos);
    let t = s.skip(pos);
    assert(forall|k: int| 0 <= k < j - pos ==> t[k] != '\n');
    lemma_find_from_unique(t, '\n', 0, j - pos);
    if j < s.len() {
        assert(t.take(j - pos) =~= s.subrange(pos, j));
        assert(t.skip(j - pos + 1) =~= s.skip(j + 1));
    } else {
        assert(t =~= s.subrange(pos, s.len() as int));
    }
}

/// Splits `s` into its lines.
pub fn split_lines<'a>(s: &'a str) -> (r: Vec<&'a str>)
    ensures
        str_views(r@) == lines_of(s@),
{
    let n = s.unicode_len();
    let mut r: Vec<&str> = Vec::new();
    let mut pos: usize = 0;
    proof {
        assert(s@.skip(0) =~= s@);
        assert(str_views(r@) + lines_of(s@) =~= lines_of(s@));
    }
    loop
        invariant
            pos <= n,
            lines_of(s@) == str_views(r@) + lines_of(s@.skip(pos as int)),
        decreases n - pos,
    {
        let j = find_newline(s, pos);
        proof {
            lemma_find_from(s@, '\n', pos as int);
            lemma_lines_of_skip(s@, pos as int);
        }
        let piece = s.substring_char(pos, j);
        r.push(piece);
        if j < n {
            proof {
                assert(str_views(r@) =~= str_views(r@.drop_last()).push(piece@));
                assert(lines_of(s@) =~= str_views(r@) + lines_of(s@.skip(j + 1)));
            }
            pos = j + 1;
        } else {
            proof {
                assert(str_views(r@) =~= str_views(r@.drop_last()).push(piece@));
                assert(lines_of(s@) =~= str_views(r@));
            }
            return r;
        }
    }
}

} // verus!
