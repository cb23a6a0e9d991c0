//! Content-hash deduplication: a recipe's title and markup body are
//! normalized so that formatting noise (case, whitespace, comments, blank
//! lines) does not change the digest, and two recipes with the same
//! normalized content hash identically across feeds.

use vstd::prelude::*;

use crate::text::{
    find_at, from_chars, lemma_trim_pred_len, lines_of, lowercase, lower_of, spec_lines,
    spec_utrim, subrange_chars, to_chars, unicode_ws, is_unicode_ws, utrim_chars, find_sub,
    append_chars,
};

verus! {

/// The lowercase hex encoding of the SHA-256 digest of a string's UTF-8
/// bytes; a function of the characters alone.
pub uninterp spec fn sha256_hex_of(s: Seq<char>) -> Seq<char>;

/// Relies on sha2::Sha256 and the hex formatting of its output: the digest
/// depends on the input bytes alone, and its hex form holds two characters
/// for each of the 32 digest bytes.
#[verifier::external_body]
fn sha256_hex(s: &str) -> (r: String)
    ensures
        r@ == sha256_hex_of(s@),
        r@.len() == 64,
{
    let mut hasher = <sha2::Sha256 as sha2::Digest>::new();
    sha2::Digest::update(&mut hasher, s.as_bytes());
    format!("{:x}", sha2::Digest::finalize(hasher))
}

/// Whitespace runs collapsed to single spaces, with no leading or trailing
/// space. `pending` records whether a space is owed before the next word;
/// it can only be owed once a word has been emitted, which `has` records.
pub open spec fn spec_collapse_ws(s: Seq<char>, i: int, pending: bool, has: bool) -> Seq<char>
    decreases s.len() - i,
        when 0 <= i
{
    if i >= s.len() {
        Seq::<char>::empty()
    } else if unicode_ws(s[i]) {
        spec_collapse_ws(s, i + 1, has, has)
    } else {
        (if pending {
            seq![' ', s[i]]
        } else {
            seq![s[i]]
        }) + spec_collapse_ws(s, i + 1, false, true)
    }
}

/// A title normalized for hashing: lower-cased, whitespace collapsed.
pub open spec fn spec_normalize_title(t: Seq<char>) -> Seq<char> {
    spec_collapse_ws(lower_of(t), 0, false, false)
}

/// Lower-case a title and collapse its whitespace runs to single spaces.
pub fn normalize_title(title: &str) -> (r: String)
    ensures
        r@ == spec_normalize_title(title@),
{
    let low = lowercase(title);
    let cs = to_chars(low.as_str());
    let mut out: Vec<char> = Vec::new();
    let mut pending: bool = false;
    let mut i: usize = 0;
    while i < cs.len()
        invariant
            0 <= i <= cs@.len(),
            pending ==> out@.len() > 0,
            spec_collapse_ws(cs@, 0, false, false) == out@ + spec_collapse_ws(
                cs@,
                i as int,
                pending,
                out@.len() > 0,
            ),
        decreases cs@.len() - i,
    {
        let c = cs[i];
        if is_unicode_ws(c) {
            pending = out.len() > 0;
        } else {
            if pending {
                out.push(' ');
            }
            out.push(c);
            pending = false;
        }
        i = i + 1;
    }
    from_chars(&out)
}

/// The part of a line before its first line comment marker.
pub open spec fn before_comment(line: Seq<char>) -> Seq<char> {
    match find_at(line, seq!['-', '-'], 0) {
        Option::None => line,
        Option::Some(j) => line.take(j),
    }
}

/// A line normalized for hashing: comment stripped, then trimmed.
pub open spec fn norm_line(line: Seq<char>) -> Seq<char> {
    spec_utrim(before_comment(line))
}

/// The normalized lines that survive (the non-empty ones), in order.
pub open spec fn kept_lines(ls: Seq<Seq<char>>) -> Seq<Seq<char>>
    decreases ls.len(),
{
    if ls.len() == 0 {
        Seq::<Seq<char>>::empty()
    } else {
        kept_lines(ls.drop_last()) + (if norm_line(ls.last()).len() > 0 {
            seq![norm_line(ls.last())]
        } else {
            Seq::<Seq<char>>::empty()
        })
    }
}

/// Lines joined by single newlines.
pub open spec fn join_nl(ls: Seq<Seq<char>>) -> Seq<char>
    decreases ls.len(),
{
    if ls.len() == 0 {
        Seq::<char>::empty()
    } else if ls.len() == 1 {
        ls[0]
    } else {
        join_nl(ls.drop_last()) + seq!['\n'] + ls.last()
    }
}

/// Block comments removed, one at a time from the left: each `[-` with a
/// closing `-]` after it is cut out, together with one following newline,
/// and the remainder trimmed, until no complete block comment is left.
pub open spec fn remove_bc(s: Seq<char>) -> Seq<char>
    decreases s.len(),
        via remove_bc_dec
{
    match find_at(s, seq!['[', '-'], 0) {
        Option::None => s,
        Option::Some(st) => match find_at(s, seq!['-', ']'], st) {
            Option::None => s,
            Option::Some(e) => {
                let end = e + 2;
                let actual = if end < s.len() && s[end] == '\n' {
                    end + 1
                } else {
                    end
                };
                remove_bc(spec_utrim(s.take(st) + s.skip(actual)))
            },
        },
    }
}

#[via_fn]
proof fn remove_bc_dec(s: Seq<char>) {
    lemma_remove_bc_step(s);
}

/// When a block comment is found, one removal step strictly shrinks the
/// string.
proof fn lemma_remove_bc_step(s: Seq<char>)
    ensures
        match find_at(s, seq!['[', '-'], 0) {
            Option::None => true,
            Option::Some(st) => match find_at(s, seq!['-', ']'], st) {
                Option::None => true,
                Option::Some(e) => {
                    let end = e + 2;
                    let actual = if end < s.len() && s[end] == '\n' {
                        end + 1
                    } else {
                        end
                    };
                    0 <= st && st <= s.len() && st < actual && actual <= s.len() && spec_utrim(
                        s.take(st) + s.skip(actual),
                    ).len() < s.len()
                },
            },
        },
{
    crate::text::lemma_find_at_props(s, seq!['[', '-'], 0);
    if find_at(s, seq!['[', '-'], 0) is Some {
        let st = find_at(s, seq!['[', '-'], 0)->Some_0;
        crate::text::lemma_find_at_props(s, seq!['-', ']'], st);
        if find_at(s, seq!['-', ']'], st) is Some {
            let e = find_at(s, seq!['-', ']'], st)->Some_0;
            let end = e + 2;
            let actual: int = if end < s.len() && s[end] == '\n' {
                end + 1
            } else {
                end
            };
            let cut = s.take(st) + s.skip(actual);
            assert(cut.len() == s.len() - (actual - st));
            lemma_trim_pred_len(cut, |c: char| unicode_ws(c));
        }
    }
}

/// Newline runs capped at two: `run` counts the newlines emitted just
/// before position `i`, saturating at two.
pub open spec fn spec_cap_nl(s: Seq<char>, i: int, run: int) -> Seq<char>
    decreases s.len() - i,
        when 0 <= i
{
    if i >= s.len() {
        Seq::<char>::empty()
    } else if s[i] == '\n' && run >= 2 {
        spec_cap_nl(s, i + 1, run)
    } else if s[i] == '\n' {
        seq!['\n'] + spec_cap_nl(s, i + 1, run + 1)
    } else {
        seq![s[i]] + spec_cap_nl(s, i + 1, 0)
    }
}

/// Recipe markup normalized for hashing: line comments and blank lines
/// dropped, lines trimmed and rejoined, block comments removed, newline
/// runs of three or more collapsed to two, and the whole trimmed.
pub open spec fn spec_normalize_content(s: Seq<char>) -> Seq<char> {
    spec_utrim(spec_cap_nl(remove_bc(join_nl(kept_lines(spec_lines(s)))), 0, 0))
}

/// Normalize recipe markup for hashing, so that comments, blank lines and
/// surrounding whitespace do not change the digest.
pub fn normalize_cooklang_content(content: &str) -> (r: String)
    ensures
        r@ == spec_normalize_content(content@),
{
    let cs = to_chars(content);
    let ls = lines_of(&cs);
    let ghost speclines = spec_lines(cs@);

    // Strip line comments, trim, drop empty lines, join with newlines.
    let mut joined: Vec<char> = Vec::new();
    let mut kept_any: bool = false;
    let mut comment_pat: Vec<char> = Vec::new();
    comment_pat.push('-');
    comment_pat.push('-');
    assert(comment_pat@ =~= seq!['-', '-']);
    let mut i: usize = 0;
    while i < ls.len()
        invariant
            0 <= i <= ls@.len(),
            comment_pat@ == seq!['-', '-'],
            ls@.len() == speclines.len(),
            forall|k: int| 0 <= k < ls@.len() ==> #[trigger] ls@[k]@ == speclines[k],
            kept_any == (kept_lines(speclines.take(i as int)).len() > 0),
            joined@ == join_nl(kept_lines(speclines.take(i as int))),
        decreases ls@.len() - i,
    {
        let line = &ls[i];
        let cut = match find_sub(line, &comment_pat, 0) {
            Option::Some(j) => subrange_chars(line, 0, j),
            Option::None => subrange_chars(line, 0, line.len()),
        };
        assert(cut@ =~= before_comment(speclines[i as int]));
        let normed = utrim_chars(&cut);
        let ghost prev_kept = kept_lines(speclines.take(i as int));
        proof {
            assert(speclines.take(i + 1int).drop_last() =~= speclines.take(i as int));
            assert(speclines.take(i + 1int).last() == speclines[i as int]);
        }
        if normed.len() > 0 {
            let ghost now_kept = kept_lines(speclines.take(i + 1int));
            proof {
                assert(now_kept =~= prev_kept.push(normed@));
            }
            if kept_any {
                joined.push('\n');
            }
            append_chars(&mut joined, &normed);
            proof {
                if prev_kept.len() == 0 {
                    assert(join_nl(now_kept) =~= normed@);
                    assert(joined@ =~= normed@);
                } else {
                    assert(now_kept.drop_last() =~= prev_kept);
                    assert(join_nl(now_kept) == join_nl(prev_kept) + seq!['\n'] + normed@);
                    assert(joined@ =~= join_nl(prev_kept) + seq!['\n'] + normed@);
                }
            }
            kept_any = true;
        } else {
            proof {
                assert(kept_lines(speclines.take(i + 1int)) =~= prev_kept);
            }
        }
        i = i + 1;
    }
    assert(speclines.take(speclines.len() as int) =~= speclines);

    // Remove block comments, one at a time from the left.
    let mut cur = joined;
    let mut open_pat: Vec<char> = Vec::new();
    open_pat.push('[');
    open_pat.push('-');
    assert(open_pat@ =~= seq!['[', '-']);
    let mut close_pat: Vec<char> = Vec::new();
    close_pat.push('-');
    close_pat.push(']');
    assert(close_pat@ =~= seq!['-', ']']);
    loop
        invariant
            open_pat@ == seq!['[', '-'],
            close_pat@ == seq!['-', ']'],
            remove_bc(cur@) == remove_bc(join_nl(kept_lines(spec_lines(cs@)))),
        ensures
            cur@ == remove_bc(join_nl(kept_lines(spec_lines(cs@)))),
        decreases cur@.len(),
    {
        proof {
            lemma_remove_bc_step(cur@);
        }
        let curlen = cur.len();
        assert(curlen == cur@.len() && cur@.len() <= usize::MAX);
        match find_sub(&cur, &open_pat, 0) {
            Option::None => {
                assert(remove_bc(cur@) == cur@);
                break ;
            },
            Option::Some(st) => {
                match find_sub(&cur, &close_pat, st) {
                    Option::None => {
                        assert(remove_bc(cur@) == cur@);
                        break ;
                    },
                    Option::Some(e) => {
                        let end = e + 2;
                        let actual = if end < cur.len() && cur[end] == '\n' {
                            end + 1
                        } else {
                            end
                        };
                        let mut next = subrange_chars(&cur, 0, st);
                        let tail = subrange_chars(&cur, actual, cur.len());
                        append_chars(&mut next, &tail);
                        assert(next@ =~= cur@.take(st as int) + cur@.skip(actual as int));
                        let trimmed = utrim_chars(&next);
                        cur = trimmed;
                    },
                }
            },
        }
    }

    // Cap newline runs at two.
    let mut out: Vec<char> = Vec::new();
    let mut run: usize = 0;
    let mut j: usize = 0;
    while j < cur.len()
        invariant
            0 <= j <= cur@.len(),
            run <= 2,
            spec_cap_nl(cur@, 0, 0) == out@ + spec_cap_nl(cur@, j as int, run as int),
        decreases cur@.len() - j,
    {
        let c = cur[j];
        if c == '\n' {
            if run < 2 {
                out.push('\n');
                run = run + 1;
            }
        } else {
            out.push(c);
            run = 0;
        }
        j = j + 1;
    }
    assert(out@ =~= spec_cap_nl(cur@, 0, 0));

    let final_trim = utrim_chars(&out);
    from_chars(&final_trim)
}

/// The digest over a normalized title followed by the normalized markup
/// body, when there is one.
pub open spec fn spec_content_hash(title: Seq<char>, content: Option<Seq<char>>) -> Seq<char> {
    match content {
        Option::Some(c) => sha256_hex_of(spec_normalize_title(title) + spec_normalize_content(c)),
        Option::None => sha256_hex_of(spec_normalize_title(title)),
    }
}

/// Digest a recipe's title and optional markup body for cross-source
/// deduplication: the hash depends only on the normalized forms.
pub fn calculate_content_hash(title: &str, content: Option<&str>) -> (r: String)
    ensures
        r@ == spec_content_hash(title@, match content {
            Option::Some(c) => Option::Some(c@),
            Option::None => Option::None,
        }),
        r@.len() == 64,
{
    let norm_title = normalize_title(title);
    match content {
        Option::Some(c) => {
            let norm_content = normalize_cooklang_content(c);
            let mut combined = to_chars(norm_title.as_str());
            let tailc = to_chars(norm_content.as_str());
            append_chars(&mut combined, &tailc);
            let combined_s = from_chars(&combined);
            sha256_hex(combined_s.as_str())
        },
        Option::None => sha256_hex(norm_title.as_str()),
    }
}

/// Digest stability: two titles with the same normalized form and two
/// markup bodies with the same normalized form — in particular bodies that
/// differ only in comments, blank lines or surrounding whitespace — hash
/// identically, whatever their source formatting.
pub proof fn lemma_digest_stability(
    t1: Seq<char>,
    t2: Seq<char>,
    c1: Seq<char>,
    c2: Seq<char>,
)
    requires
        spec_normalize_title(t1) == spec_normalize_title(t2),
        spec_normalize_content(c1) == spec_normalize_content(c2),
    ensures
        spec_content_hash(t1, Option::Some(c1)) == spec_content_hash(t2, Option::Some(c2)),
{
}

} // verus!
