//! Character-level text utilities shared by the whole pipeline: conversions
//! between strings and character vectors, trimming, searching, splitting,
//! and decimal parsing and rendering.

use vstd::prelude::*;

verus! {

/// Relies on str::chars: the characters of a string slice, in order, are
/// exactly its view.
#[verifier::external_body]
pub(crate) fn to_chars(s: &str) -> (r: Vec<char>)
    ensures
        r@ == s@,
{
    s.chars().collect()
}

/// Relies on String's FromIterator over char: collecting characters yields
/// the string whose view is that character sequence.
#[verifier::external_body]
pub(crate) fn from_chars(v: &Vec<char>) -> (r: String)
    ensures
        r@ == v@,
{
    v.iter().collect()
}

/// What str::to_lowercase returns; it depends on the characters alone.
pub uninterp spec fn lower_of(s: Seq<char>) -> Seq<char>;

/// Relies on str::to_lowercase: the result is a function of the input
/// characters, and an empty string stays empty.
#[verifier::external_body]
pub(crate) fn lowercase(s: &str) -> (r: String)
    ensures
        r@ == lower_of(s@),
        s@.len() == 0 ==> r@.len() == 0,
{
    s.to_lowercase()
}

/// What char::is_whitespace returns for a character.
pub uninterp spec fn unicode_ws(c: char) -> bool;

/// Relies on char::is_whitespace: a pure predicate on the character; the
/// documented White_Space property holds of the ASCII whitespace characters.
#[verifier::external_body]
pub(crate) fn is_unicode_ws(c: char) -> (r: bool)
    ensures
        r == unicode_ws(c),
        is_ascii_ws(c) ==> r,
{
    c.is_whitespace()
}

/// What char::is_alphanumeric returns for a character.
pub uninterp spec fn unicode_alnum(c: char) -> bool;

/// Relies on char::is_alphanumeric: a pure predicate on the character; the
/// documentation gives that ASCII letters and digits satisfy it and that
/// whitespace does not.
#[verifier::external_body]
pub(crate) fn is_unicode_alnum(c: char) -> (r: bool)
    ensures
        r == unicode_alnum(c),
        is_digit(c) ==> r,
        is_ascii_ws(c) ==> !r,
{
    c.is_alphanumeric()
}

/// What char::is_numeric returns for a character.
pub uninterp spec fn unicode_numeric(c: char) -> bool;

/// Relies on char::is_numeric: a pure predicate on the character; the
/// documented Numeric property holds of the ASCII decimal digits and of no
/// ASCII non-digit.
#[verifier::external_body]
pub(crate) fn is_unicode_numeric(c: char) -> (r: bool)
    ensures
        r == unicode_numeric(c),
        is_digit(c) ==> r,
        (c as u32) < 128 && !is_digit(c) ==> !r,
{
    c.is_numeric()
}

/// ASCII whitespace, the subset of whitespace this crate's own scanners use.
pub open spec fn is_ascii_ws(c: char) -> bool {
    c == ' ' || c == '\t' || c == '\n' || c == '\r' || c == '\u{b}' || c == '\u{c}'
}

pub fn ascii_ws(c: char) -> (r: bool)
    ensures
        r == is_ascii_ws(c),
{
    c == ' ' || c == '\t' || c == '\n' || c == '\r' || c == '\u{b}' || c == '\u{c}'
}

pub open spec fn is_digit(c: char) -> bool {
    '0' <= c && c <= '9'
}

pub fn digit(c: char) -> (r: bool)
    ensures
        r == is_digit(c),
{
    '0' <= c && c <= '9'
}

/// The sequence with leading and trailing characters satisfying `p` removed.
pub open spec fn spec_trim_pred(s: Seq<char>, p: spec_fn(char) -> bool) -> Seq<char>
    decreases s.len(),
{
    if s.len() == 0 {
        s
    } else if p(s[0]) {
        spec_trim_pred(s.skip(1), p)
    } else if p(s[s.len() - 1]) {
        spec_trim_pred(s.take(s.len() - 1), p)
    } else {
        s
    }
}

/// The sequence with leading and trailing ASCII whitespace removed.
pub open spec fn spec_trim(s: Seq<char>) -> Seq<char> {
    spec_trim_pred(s, |c: char| is_ascii_ws(c))
}

/// Trim ASCII whitespace from both ends of a character vector.
pub fn trim_chars(s: &Vec<char>) -> (r: Vec<char>)
    ensures
        r@ == spec_trim(s@),
{
    let mut start: usize = 0;
    while start < s.len() && ascii_ws(s[start])
        invariant
            0 <= start <= s@.len(),
            forall|j: int| 0 <= j < start ==> is_ascii_ws(s@[j]),
        decreases s@.len() - start,
    {
        start = start + 1;
    }
    let mut end: usize = s.len();
    while end > start && ascii_ws(s[end - 1])
        invariant
            start <= end <= s@.len(),
            forall|j: int| 0 <= j < start ==> is_ascii_ws(s@[j]),
            forall|j: int| end <= j < s@.len() ==> is_ascii_ws(s@[j]),
        decreases end,
    {
        end = end - 1;
    }
    let mut r: Vec<char> = Vec::new();
    let mut i: usize = start;
    while i < end
        invariant
            start <= i <= end <= s@.len(),
            r@ == s@.subrange(start as int, i as int),
        decreases end - i,
    {
        r.push(s[i]);
        assert(r@ == s@.subrange(start as int, i + 1 as int));
        i = i + 1;
    }
    proof {
        lemma_trim_pred_subrange(s@, |c: char| is_ascii_ws(c), start as int, end as int);
    }
    r
}

/// The trimmed middle of a sequence equals the predicate trim when
/// everything outside it satisfies `p` and its own ends do not.
pub proof fn lemma_trim_pred_subrange(s: Seq<char>, p: spec_fn(char) -> bool, start: int, end: int)
    requires
        0 <= start <= end <= s.len(),
        forall|j: int| 0 <= j < start ==> p(s[j]),
        forall|j: int| end <= j < s.len() ==> p(s[j]),
        start < end ==> !p(s[start]),
        start < end ==> !p(s[end - 1]),
    ensures
        spec_trim_pred(s, p) == s.subrange(start, end),
    decreases s.len(),
{
    if s.len() == 0 {
        assert(s.subrange(start, end) =~= s);
    } else if p(s[0]) {
        if start == end {
            lemma_trim_pred_all(s, p);
            assert(s.subrange(start, end) =~= Seq::<char>::empty());
        } else {
            assert(start >= 1);
            lemma_trim_pred_subrange(s.skip(1), p, start - 1, end - 1);
            assert(s.skip(1).subrange(start - 1, end - 1) =~= s.subrange(start, end));
        }
    } else if p(s[s.len() - 1]) {
        if start == end {
            lemma_trim_pred_all(s, p);
            assert(s.subrange(start, end) =~= Seq::<char>::empty());
        } else {
            assert(end <= s.len() - 1);
            lemma_trim_pred_subrange(s.take(s.len() - 1), p, start, end);
            assert(s.take(s.len() - 1).subrange(start, end) =~= s.subrange(start, end));
        }
    } else {
        assert(start == 0 && end == s.len());
        assert(s.subrange(start, end) =~= s);
    }
}

/// A sequence whose characters all satisfy `p` trims to the empty sequence.
pub proof fn lemma_trim_pred_all(s: Seq<char>, p: spec_fn(char) -> bool)
    requires
        forall|j: int| 0 <= j < s.len() ==> p(s[j]),
    ensures
        spec_trim_pred(s, p) == Seq::<char>::empty(),
    decreases s.len(),
{
    if s.len() > 0 {
        lemma_trim_pred_all(s.skip(1), p);
    } else {
        assert(spec_trim_pred(s, p) =~= Seq::<char>::empty());
    }
}

/// Trim ASCII whitespace from both ends of a string.
pub fn trim(s: &str) -> (r: String)
    ensures
        r@ == spec_trim(s@),
{
    let cs = to_chars(s);
    let t = trim_chars(&cs);
    from_chars(&t)
}

/// `pat` occurs in `s` at position `i`.
pub open spec fn matches_at(s: Seq<char>, pat: Seq<char>, i: int) -> bool {
    0 <= i && i + pat.len() <= s.len() && s.subrange(i, i + pat.len()) == pat
}

/// The first position at or after `i` where `pat` occurs in `s`.
pub open spec fn find_at(s: Seq<char>, pat: Seq<char>, i: int) -> Option<int>
    decreases s.len() - i,
{
    if i < 0 || i + pat.len() > s.len() {
        None
    } else if pat.len() == 0 {
        Some(i)
    } else if s.subrange(i, i + pat.len()) == pat {
        Some(i)
    } else {
        find_at(s, pat, i + 1)
    }
}

pub open spec fn spec_contains(s: Seq<char>, pat: Seq<char>) -> bool {
    find_at(s, pat, 0) is Some
}

pub proof fn lemma_find_at_props(s: Seq<char>, pat: Seq<char>, i: int)
    ensures
        match find_at(s, pat, i) {
            Some(j) => matches_at(s, pat, j) && i <= j,
            None => true,
        },
    decreases s.len() - i,
{
    if !(i < 0 || i + pat.len() > s.len()) && pat.len() != 0 && !(s.subrange(i, i + pat.len())
        == pat) {
        lemma_find_at_props(s, pat, i + 1);
    }
    if !(i < 0 || i + pat.len() > s.len()) && pat.len() == 0 {
        assert(s.subrange(i, i) =~= pat);
    }
}

/// Whether `pat` occurs at exactly position `i` of `s`.
pub fn occurs_at(s: &Vec<char>, pat: &Vec<char>, i: usize) -> (r: bool)
    requires
        i <= s@.len(),
    ensures
        r == matches_at(s@, pat@, i as int),
{
    if pat.len() > s.len() - i {
        assert(!matches_at(s@, pat@, i as int));
        return false;
    }
    let mut k: usize = 0;
    let mut si: usize = i;
    while k < pat.len()
        invariant
            0 <= k <= pat@.len(),
            i + pat@.len() <= s@.len(),
            s@.len() <= usize::MAX,
            si == i + k,
            si <= s@.len(),
            forall|j: int| 0 <= j < k ==> s@[i + j] == pat@[j],
        decreases pat@.len() - k,
    {
        if s[si] != pat[k] {
            assert(s@.subrange(i as int, i + pat@.len()) != pat@) by {
                assert(s@.subrange(i as int, i + pat@.len())[k as int] != pat@[k as int]);
            }
            return false;
        }
        k = k + 1;
        si = si + 1;
    }
    assert(s@.subrange(i as int, i + pat@.len()) =~= pat@);
    true
}

/// Find the first occurrence of `pat` in `s` at or after `from`.
pub fn find_sub(s: &Vec<char>, pat: &Vec<char>, from: usize) -> (r: Option<usize>)
    requires
        from <= s@.len(),
    ensures
        match r {
            Some(j) => from <= j && j <= s@.len() && find_at(s@, pat@, from as int) == Some(
                j as int,
            ),
            None => find_at(s@, pat@, from as int) is None,
        },
{
    let mut i: usize = from;
    loop
        invariant
            from <= i <= s@.len(),
            find_at(s@, pat@, from as int) == find_at(s@, pat@, i as int),
        decreases s@.len() - i,
    {
        if pat.len() > s.len() - i {
            assert(find_at(s@, pat@, i as int) is None);
            return None;
        }
        if occurs_at(s, pat, i) {
            assert(find_at(s@, pat@, i as int) == Some(i as int));
            return Some(i);
        }
        assert(pat@.len() > 0) by {
            if pat@.len() == 0 {
                assert(s@.subrange(i as int, i as int) =~= pat@);
            }
        }
        assert(find_at(s@, pat@, i as int) == find_at(s@, pat@, i + 1int));
        i = i + 1;
    }
}

pub fn contains_sub(s: &Vec<char>, pat: &Vec<char>) -> (r: bool)
    ensures
        r == spec_contains(s@, pat@),
{
    find_sub(s, pat, 0).is_some()
}

/// `s` starts with `pat`.
pub fn starts_with(s: &Vec<char>, pat: &Vec<char>) -> (r: bool)
    ensures
        r == matches_at(s@, pat@, 0),
{
    occurs_at(s, pat, 0)
}

/// `s` ends with `pat`.
pub open spec fn spec_ends_with(s: Seq<char>, pat: Seq<char>) -> bool {
    matches_at(s, pat, s.len() - pat.len())
}

pub fn ends_with(s: &Vec<char>, pat: &Vec<char>) -> (r: bool)
    ensures
        r == spec_ends_with(s@, pat@),
{
    if pat.len() > s.len() {
        assert(!matches_at(s@, pat@, s@.len() - pat@.len()));
        return false;
    }
    occurs_at(s, pat, s.len() - pat.len())
}

/// Copy the subrange `[from, to)` of `s`.
pub fn subrange_chars(s: &Vec<char>, from: usize, to: usize) -> (r: Vec<char>)
    requires
        from <= to <= s@.len(),
    ensures
        r@ == s@.subrange(from as int, to as int),
{
    let mut r: Vec<char> = Vec::new();
    let mut i: usize = from;
    while i < to
        invariant
            from <= i <= to <= s@.len(),
            r@ == s@.subrange(from as int, i as int),
        decreases to - i,
    {
        r.push(s[i]);
        assert(r@ =~= s@.subrange(from as int, i + 1int));
        i = i + 1;
    }
    r
}

/// Append all of `src` to `dst`.
pub fn append_chars(dst: &mut Vec<char>, src: &Vec<char>)
    ensures
        final(dst)@ == old(dst)@ + src@,
{
    let mut i: usize = 0;
    while i < src.len()
        invariant
            0 <= i <= src@.len(),
            dst@ == old(dst)@ + src@.subrange(0, i as int),
        decreases src@.len() - i,
    {
        dst.push(src[i]);
        assert(dst@ =~= old(dst)@ + src@.subrange(0, i + 1int));
        i = i + 1;
    }
    assert(dst@ =~= old(dst)@ + src@);
}

/// The decimal digit character for a value below ten.
pub open spec fn digit_char(d: int) -> char {
    if d == 0 {
        '0'
    } else if d == 1 {
        '1'
    } else if d == 2 {
        '2'
    } else if d == 3 {
        '3'
    } else if d == 4 {
        '4'
    } else if d == 5 {
        '5'
    } else if d == 6 {
        '6'
    } else if d == 7 {
        '7'
    } else if d == 8 {
        '8'
    } else {
        '9'
    }
}

/// The decimal representation of a non-negative integer, most significant
/// digit first.
pub open spec fn dec_rep(n: int) -> Seq<char>
    decreases n,
{
    if n < 10 {
        seq![digit_char(n)]
    } else {
        dec_rep(n / 10).push(digit_char(n % 10))
    }
}

/// Render a non-negative integer in decimal.
pub fn u64_to_dec(n: u64) -> (r: Vec<char>)
    ensures
        r@ == dec_rep(n as int),
    decreases n,
{
    if n < 10 {
        let d: char = match n {
            0 => '0',
            1 => '1',
            2 => '2',
            3 => '3',
            4 => '4',
            5 => '5',
            6 => '6',
            7 => '7',
            8 => '8',
            _ => '9',
        };
        let mut r: Vec<char> = Vec::new();
        r.push(d);
        assert(r@ =~= seq![digit_char(n as int)]);
        r
    } else {
        let mut r = u64_to_dec(n / 10);
        let m = n % 10;
        let d: char = match m {
            0 => '0',
            1 => '1',
            2 => '2',
            3 => '3',
            4 => '4',
            5 => '5',
            6 => '6',
            7 => '7',
            8 => '8',
            _ => '9',
        };
        r.push(d);
        r
    }
}

/// The sequence with leading and trailing Unicode whitespace removed, as
/// str::trim removes it.
pub open spec fn spec_utrim(s: Seq<char>) -> Seq<char> {
    spec_trim_pred(s, |c: char| unicode_ws(c))
}

/// Trim Unicode whitespace from both ends of a character vector.
pub fn utrim_chars(s: &Vec<char>) -> (r: Vec<char>)
    ensures
        r@ == spec_utrim(s@),
{
    let mut start: usize = 0;
    while start < s.len() && is_unicode_ws(s[start])
        invariant
            0 <= start <= s@.len(),
            forall|j: int| 0 <= j < start ==> unicode_ws(s@[j]),
        decreases s@.len() - start,
    {
        start = start + 1;
    }
    let mut end: usize = s.len();
    while end > start && is_unicode_ws(s[end - 1])
        invariant
            start <= end <= s@.len(),
            forall|j: int| 0 <= j < start ==> unicode_ws(s@[j]),
            forall|j: int| end <= j < s@.len() ==> unicode_ws(s@[j]),
        decreases end,
    {
        end = end - 1;
    }
    let r = subrange_chars(s, start, end);
    proof {
        lemma_trim_pred_subrange(s@, |c: char| unicode_ws(c), start as int, end as int);
    }
    r
}

/// The segments of `s` from position `i` on, split at `sep`; the separator
/// is dropped, and a trailing separator yields a final empty segment.
pub open spec fn split_from(s: Seq<char>, sep: char, i: int) -> Seq<Seq<char>>
    decreases s.len() - i,
        when 0 <= i <= s.len() via split_from_dec
{
    match find_at(s, seq![sep], i) {
        Option::None => seq![s.subrange(i, s.len() as int)],
        Option::Some(j) => seq![s.subrange(i, j)] + split_from(s, sep, j + 1),
    }
}

#[via_fn]
proof fn split_from_dec(s: Seq<char>, sep: char, i: int) {
    if 0 <= i <= s.len() && find_at(s, seq![sep], i) is Some {
        lemma_split_from_decreases(s, sep, i);
    }
}

proof fn lemma_split_from_decreases(s: Seq<char>, sep: char, i: int)
    requires
        0 <= i <= s.len(),
        find_at(s, seq![sep], i) is Some,
    ensures
        i <= find_at(s, seq![sep], i)->Some_0 < s.len(),
{
    lemma_find_at_props(s, seq![sep], i);
}

/// Split `s` at every occurrence of `sep`.
pub fn split_char(s: &Vec<char>, sep: char) -> (r: Vec<Vec<char>>)
    ensures
        r@.len() == split_from(s@, sep, 0).len(),
        forall|k: int|
            0 <= k < r@.len() ==> #[trigger] r@[k]@ == split_from(s@, sep, 0)[k],
{
    let mut parts: Vec<Vec<char>> = Vec::new();
    let mut i: usize = 0;
    let ghost whole = split_from(s@, sep, 0);
    let mut sepv: Vec<char> = Vec::new();
    sepv.push(sep);
    assert(sepv@ =~= seq![sep]);
    let n = s.len();
    loop
        invariant
            0 <= i <= s@.len(),
            s@.len() == n,
            sepv@ == seq![sep],
            whole == split_from(s@, sep, 0),
            whole =~= parts@.map_values(|p: Vec<char>| p@) + split_from(s@, sep, i as int),
        decreases s@.len() - i,
    {
        let ghost before = parts@;
        match find_sub(s, &sepv, i) {
            Option::Some(j) => {
                proof {
                    lemma_split_from_decreases(s@, sep, i as int);
                }
                assert(j < s@.len() && s@.len() <= usize::MAX);
                let seg = subrange_chars(s, i, j);
                parts.push(seg);
                proof {
                    assert(parts@.map_values(|p: Vec<char>| p@) =~= before.map_values(
                        |p: Vec<char>| p@,
                    ).push(seg@));
                    assert(split_from(s@, sep, i as int) == seq![s@.subrange(i as int, j as int)]
                        + split_from(s@, sep, j + 1));
                    assert(whole =~= parts@.map_values(|p: Vec<char>| p@) + split_from(
                        s@,
                        sep,
                        j + 1,
                    ));
                }
                i = j + 1;
            },
            Option::None => {
                let seg = subrange_chars(s, i, s.len());
                parts.push(seg);
                proof {
                    assert(parts@.map_values(|p: Vec<char>| p@) =~= before.map_values(
                        |p: Vec<char>| p@,
                    ).push(seg@));
                    assert(split_from(s@, sep, i as int) == seq![
                        s@.subrange(i as int, s@.len() as int),
                    ]);
                    assert(whole =~= parts@.map_values(|p: Vec<char>| p@));
                }
                proof {
                    let m = parts@.map_values(|p: Vec<char>| p@);
                    assert(forall|k: int| 0 <= k < parts@.len() ==> #[trigger] parts@[k]@ == m[k]);
                }
                return parts;
            },
        }
    }
}

/// Trimming never lengthens a sequence.
pub proof fn lemma_trim_pred_len(s: Seq<char>, p: spec_fn(char) -> bool)
    ensures
        spec_trim_pred(s, p).len() <= s.len(),
    decreases s.len(),
{
    if s.len() == 0 {
    } else if p(s[0]) {
        lemma_trim_pred_len(s.skip(1), p);
    } else if p(s[s.len() - 1]) {
        lemma_trim_pred_len(s.take(s.len() - 1), p);
    }
}

/// A line with a trailing carriage return stripped, as str::lines strips it.
pub open spec fn strip_cr(line: Seq<char>) -> Seq<char> {
    if line.len() > 0 && line.last() == '\r' {
        line.drop_last()
    } else {
        line
    }
}

/// The lines of `s`, as str::lines yields them: split at newlines, trailing
/// carriage returns stripped, and no final empty line after a trailing
/// newline.
pub open spec fn spec_lines(s: Seq<char>) -> Seq<Seq<char>> {
    if s.len() == 0 {
        Seq::<Seq<char>>::empty()
    } else {
        let parts = split_from(s, '\n', 0);
        let kept = if parts.last().len() == 0 {
            parts.drop_last()
        } else {
            parts
        };
        kept.map_values(|l: Seq<char>| strip_cr(l))
    }
}

/// Split a string's characters into lines, as str::lines does.
pub fn lines_of(s: &Vec<char>) -> (r: Vec<Vec<char>>)
    ensures
        r@.len() == spec_lines(s@).len(),
        forall|k: int| 0 <= k < r@.len() ==> #[trigger] r@[k]@ == spec_lines(s@)[k],
{
    let mut r: Vec<Vec<char>> = Vec::new();
    if s.len() == 0 {
        return r;
    }
    let mut parts = split_char(s, '\n');
    assert(parts@.len() > 0) by {
        assert(split_from(s@, '\n', 0).len() > 0) by {
            lemma_split_from_nonempty(s@, '\n', 0);
        }
    }
    let last_len = parts[parts.len() - 1].len();
    let ghost specparts = split_from(s@, '\n', 0);
    let ghost kept = if specparts.last().len() == 0 {
        specparts.drop_last()
    } else {
        specparts
    };
    if last_len == 0 {
        let _ = parts.pop();
    }
    assert(parts@.len() == kept.len());
    assert(forall|k: int| 0 <= k < parts@.len() ==> #[trigger] parts@[k]@ == kept[k]);
    let mut i: usize = 0;
    while i < parts.len()
        invariant
            0 <= i <= parts@.len(),
            parts@.len() == kept.len(),
            forall|k: int| 0 <= k < parts@.len() ==> #[trigger] parts@[k]@ == kept[k],
            r@.len() == i,
            forall|k: int| 0 <= k < i ==> #[trigger] r@[k]@ == strip_cr(kept[k]),
        decreases parts@.len() - i,
    {
        let line = &parts[i];
        let n = line.len();
        if n > 0 && line[n - 1] == '\r' {
            let stripped = subrange_chars(line, 0, n - 1);
            assert(stripped@ =~= strip_cr(kept[i as int]));
            r.push(stripped);
        } else {
            let copy = subrange_chars(line, 0, n);
            assert(copy@ =~= kept[i as int]);
            assert(copy@ =~= strip_cr(kept[i as int]));
            r.push(copy);
        }
        i = i + 1;
    }
    proof {
        assert(spec_lines(s@) =~= kept.map_values(|l: Seq<char>| strip_cr(l)));
    }
    r
}

/// Splitting yields at least one segment.
proof fn lemma_split_from_nonempty(s: Seq<char>, sep: char, i: int)
    requires
        0 <= i <= s.len(),
    ensures
        split_from(s, sep, i).len() >= 1,
{
    if find_at(s, seq![sep], i) is Some {
        lemma_split_from_decreases(s, sep, i);
    }
}

/// The sequence with every trailing occurrence of `c` removed.
pub open spec fn trim_end_char(s: Seq<char>, c: char) -> Seq<char>
    decreases s.len(),
{
    if s.len() > 0 && s.last() == c {
        trim_end_char(s.drop_last(), c)
    } else {
        s
    }
}

/// The sequence with every trailing copy of `pat` removed.
pub open spec fn trim_end_seq(s: Seq<char>, pat: Seq<char>) -> Seq<char>
    decreases s.len(),
        when pat.len() > 0
{
    if spec_ends_with(s, pat) {
        trim_end_seq(s.take(s.len() - pat.len()), pat)
    } else {
        s
    }
}

/// Compare two character vectors for equality.
pub fn chars_eq(a: &Vec<char>, b: &Vec<char>) -> (r: bool)
    ensures
        r == (a@ == b@),
{
    if a.len() != b.len() {
        return false;
    }
    let mut i: usize = 0;
    while i < a.len()
        invariant
            0 <= i <= a@.len(),
            a@.len() == b@.len(),
            forall|j: int| 0 <= j < i ==> a@[j] == b@[j],
        decreases a@.len() - i,
    {
        if a[i] != b[i] {
            return false;
        }
        i = i + 1;
    }
    assert(a@ =~= b@);
    true
}

/// Compare two string slices for equality of their characters.
pub fn str_eq(a: &str, b: &str) -> (r: bool)
    ensures
        r == (a@ == b@),
{
    let ca = to_chars(a);
    let cb = to_chars(b);
    chars_eq(&ca, &cb)
}

/// The sequence with every leading occurrence of `c` removed.
pub open spec fn trim_start_char(s: Seq<char>, c: char) -> Seq<char>
    decreases s.len(),
{
    if s.len() > 0 && s[0] == c {
        trim_start_char(s.skip(1), c)
    } else {
        s
    }
}

/// Remove every leading occurrence of `c`.
pub fn trim_start_char_exec(s: &Vec<char>, c: char) -> (r: Vec<char>)
    ensures
        r@ == trim_start_char(s@, c),
{
    let mut start: usize = 0;
    assert(s@.skip(0) =~= s@);
    while start < s.len() && s[start] == c
        invariant
            0 <= start <= s@.len(),
            trim_start_char(s@, c) == trim_start_char(s@.skip(start as int), c),
        decreases s@.len() - start,
    {
        proof {
            assert(s@.skip(start as int).skip(1) =~= s@.skip(start + 1int));
            assert(s@.skip(start as int)[0] == s@[start as int]);
        }
        start = start + 1;
    }
    let r = subrange_chars(s, start, s.len());
    proof {
        assert(r@ =~= s@.skip(start as int));
        if start < s@.len() {
            assert(s@.skip(start as int)[0] == s@[start as int]);
        }
    }
    r
}

/// The sequence with a leading copy of `pat` removed, when there is one.
pub open spec fn strip_prefix_spec(s: Seq<char>, pat: Seq<char>) -> Seq<char> {
    if matches_at(s, pat, 0) {
        s.skip(pat.len() as int)
    } else {
        s
    }
}

/// Remove every trailing occurrence of `c`.
pub fn trim_end_char_exec(s: &Vec<char>, c: char) -> (r: Vec<char>)
    ensures
        r@ == trim_end_char(s@, c),
{
    let mut end: usize = s.len();
    assert(s@.take(end as int) =~= s@);
    while end > 0 && s[end - 1] == c
        invariant
            0 <= end <= s@.len(),
            trim_end_char(s@, c) == trim_end_char(s@.take(end as int), c),
        decreases end,
    {
        proof {
            assert(s@.take(end as int).drop_last() =~= s@.take(end - 1int));
        }
        end = end - 1;
    }
    let r = subrange_chars(s, 0, end);
    proof {
        assert(s@.take(end as int) =~= s@.subrange(0, end as int));
        if end > 0 {
            assert(s@.take(end as int).last() != c);
        }
    }
    r
}

/// Remove every trailing copy of `pat`.
pub fn trim_end_seq_exec(s: &Vec<char>, pat: &Vec<char>) -> (r: Vec<char>)
    requires
        pat@.len() > 0,
    ensures
        r@ == trim_end_seq(s@, pat@),
{
    let mut cur = subrange_chars(s, 0, s.len());
    assert(cur@ =~= s@);
    loop
        invariant
            pat@.len() > 0,
            trim_end_seq(cur@, pat@) == trim_end_seq(s@, pat@),
        ensures
            cur@ == trim_end_seq(s@, pat@),
        decreases cur@.len(),
    {
        if ends_with(&cur, pat) {
            assert(cur@.len() >= pat@.len());
            let next = subrange_chars(&cur, 0, cur.len() - pat.len());
            assert(next@ =~= cur@.take(cur@.len() - pat@.len()));
            cur = next;
        } else {
            assert(trim_end_seq(cur@, pat@) == cur@);
            break ;
        }
    }
    cur
}

/// Remove a leading copy of `pat` when there is one.
pub fn strip_prefix_exec(s: &Vec<char>, pat: &Vec<char>) -> (r: Vec<char>)
    ensures
        r@ == strip_prefix_spec(s@, pat@),
{
    if starts_with(s, pat) {
        let r = subrange_chars(s, pat.len(), s.len());
        assert(r@ =~= s@.skip(pat@.len() as int));
        r
    } else {
        subrange_chars(s, 0, s.len())
    }
}

/// The numeric value of a sequence of ASCII decimal digits, read left to
/// right.
pub open spec fn digits_val(s: Seq<char>) -> int
    decreases s.len(),
{
    if s.len() == 0 {
        0
    } else {
        digits_val(s.take(s.len() - 1)) * 10 + (s[s.len() - 1] as int - '0' as int)
    }
}

pub open spec fn all_digits(s: Seq<char>) -> bool {
    forall|i: int| 0 <= i < s.len() ==> is_digit(#[trigger] s[i])
}

/// Parse a run of characters as a non-negative i64, as str::parse does for a
/// string with no sign: it fails when any character is not an ASCII decimal
/// digit, when the run is empty, or when the value does not fit.
pub fn parse_i64_digits(s: &Vec<char>) -> (r: Option<i64>)
    ensures
        match r {
            Some(v) => all_digits(s@) && s@.len() > 0 && v == digits_val(s@) && digits_val(s@)
                <= i64::MAX,
            None => s@.len() == 0 || !all_digits(s@) || digits_val(s@) > i64::MAX,
        },
{
    if s.len() == 0 {
        return None;
    }
    let mut acc: i64 = 0;
    let mut i: usize = 0;
    while i < s.len()
        invariant
            0 <= i <= s@.len(),
            all_digits(s@.take(i as int)),
            acc == digits_val(s@.take(i as int)),
            0 <= acc <= i64::MAX,
        decreases s@.len() - i,
    {
        let c = s[i];
        if !digit(c) {
            assert(!all_digits(s@)) by {
                assert(!is_digit(s@[i as int]));
            }
            return None;
        }
        let d: i64 = (c as u32 - '0' as u32) as i64;
        assert(0 <= d <= 9);
        if acc > (i64::MAX - d) / 10 {
            proof {
                if all_digits(s@) {
                    assert(s@.take(i + 1int).take(i as int) =~= s@.take(i as int));
                    assert(digits_val(s@.take(i + 1int)) == acc * 10 + d);
                    assert(acc * 10 + d > i64::MAX) by (nonlinear_arith)
                        requires
                            acc > (i64::MAX - d) / 10,
                            0 <= d <= 9,
                            acc >= 0,
                    ;
                    lemma_digits_val_monotone(s@, i + 1);
                }
            }
            return None;
        }
        acc = acc * 10 + d;
        assert(s@.take(i + 1int).take(i as int) =~= s@.take(i as int));
        i = i + 1;
    }
    assert(s@.take(s@.len() as int) =~= s@);
    Some(acc)
}

/// A prefix of a digit run never exceeds the value of the whole run.
proof fn lemma_digits_val_monotone(s: Seq<char>, k: int)
    requires
        0 <= k <= s.len(),
        all_digits(s),
    ensures
        digits_val(s.take(k)) <= digits_val(s),
        digits_val(s) >= 0,
    decreases s.len(),
{
    if s.len() == 0 {
    } else if k == s.len() {
        assert(s.take(k) =~= s);
        lemma_digits_val_monotone(s.take(s.len() - 1), s.len() - 1);
        assert(s.take(s.len() - 1).take(s.len() - 1) =~= s.take(s.len() - 1));
    } else {
        assert(s.take(s.len() - 1).take(k) =~= s.take(k));
        assert(all_digits(s.take(s.len() - 1)));
        lemma_digits_val_monotone(s.take(s.len() - 1), k);
    }
}

} // verus!

