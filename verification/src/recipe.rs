//! The built-in recipe markup reader: metadata lines, ingredient references
//! and instruction text, plus the small time parser. The full semantic
//! markup parser is an external collaborator; this reader serves hashing,
//! feed generation and indexing.

use vstd::prelude::*;

use crate::text::{
    all_digits, chars_eq, digit, digits_val, find_at, find_sub, from_chars, is_digit,
    is_unicode_ws, lines_of, lowercase, lower_of, spec_lines, spec_utrim, split_char, split_from,
    str_eq, subrange_chars, to_chars, unicode_ws, utrim_chars, append_chars, matches_at,
    spec_contains, contains_sub, is_unicode_numeric, unicode_numeric,
};

verus! {

broadcast use vstd::string::group_string_axioms;

/// An ingredient reference found in the markup; the simplified reader
/// records names only.
pub struct IngredientEntry {
    pub name: String,
    pub quantity: Option<String>,
    pub unit: Option<String>,
}

/// Metadata read from `>>` lines.
pub struct RecipeMetadata {
    pub servings: Option<i64>,
    pub total_time: Option<String>,
    pub active_time: Option<String>,
    pub tags: Vec<String>,
    pub difficulty: Option<String>,
    /// The open-ended custom metadata, kept as key/value pairs.
    pub other: Vec<(String, String)>,
}

/// One instruction section.
pub struct RecipeSection {
    pub name: Option<String>,
    pub instructions: String,
}

/// A recipe read by the simplified markup reader.
pub struct ParsedRecipe {
    pub metadata: RecipeMetadata,
    pub ingredients: Vec<IngredientEntry>,
    pub instructions: String,
    pub sections: Vec<RecipeSection>,
}

/// A metadata line starts with the double angle marker.
pub open spec fn is_meta(l: Seq<char>) -> bool {
    matches_at(l, seq!['>', '>'], 0)
}

/// The key (trimmed, lower-cased) and value (trimmed) of a metadata line,
/// split at its first colon; none when the line has no colon.
pub open spec fn meta_kv(l: Seq<char>) -> Option<(Seq<char>, Seq<char>)> {
    let rest = l.skip(2);
    match find_at(rest, seq![':'], 0) {
        Option::None => Option::None,
        Option::Some(j) => Option::Some(
            (lower_of(spec_utrim(rest.take(j))), spec_utrim(rest.skip(j + 1))),
        ),
    }
}

/// Whether a line assigns the given metadata key.
pub open spec fn assigns_key(l: Seq<char>, key: Seq<char>) -> bool {
    is_meta(l) && (meta_kv(l) matches Some(kv) && kv.0 == key)
}

/// A signed decimal integer as str::parse reads it: an optional sign, then
/// only ASCII digits, fitting the 64-bit range.
pub open spec fn spec_parse_i64(s: Seq<char>) -> Option<i64> {
    let (neg, digits) = if s.len() > 0 && s[0] == '-' {
        (true, s.skip(1))
    } else if s.len() > 0 && s[0] == '+' {
        (false, s.skip(1))
    } else {
        (false, s)
    };
    if digits.len() == 0 || !all_digits(digits) {
        Option::None
    } else if !neg && digits_val(digits) <= i64::MAX {
        Option::Some(digits_val(digits) as i64)
    } else if neg && digits_val(digits) <= 0x8000000000000000 {
        Option::Some((-digits_val(digits)) as i64)
    } else {
        Option::None
    }
}

/// Parse a signed decimal integer, as str::parse does.
pub fn parse_i64_str(s: &Vec<char>) -> (r: Option<i64>)
    ensures
        r == spec_parse_i64(s@),
{
    let (neg, start): (bool, usize) = if s.len() > 0 && s[0] == '-' {
        (true, 1)
    } else if s.len() > 0 && s[0] == '+' {
        (false, 1)
    } else {
        (false, 0)
    };
    let digits = subrange_chars(s, start, s.len());
    proof {
        if start == 1 {
            assert(digits@ =~= s@.skip(1));
        } else {
            assert(digits@ =~= s@);
        }
    }
    if digits.len() == 0 {
        return None;
    }
    let mut acc: u64 = 0;
    let mut i: usize = 0;
    let ghost d = digits@;
    while i < digits.len()
        invariant
            0 <= i <= d.len(),
            digits@ == d,
            d.len() > 0,
            neg == (s@.len() > 0 && s@[0] == '-'),
            d == (if s@.len() > 0 && s@[0] == '-' {
                s@.skip(1)
            } else if s@.len() > 0 && s@[0] == '+' {
                s@.skip(1)
            } else {
                s@
            }),
            all_digits(d.take(i as int)),
            acc == digits_val(d.take(i as int)),
            acc <= 0x8000000000000000,
        decreases d.len() - i,
    {
        let c = digits[i];
        if !digit(c) {
            assert(!all_digits(d)) by {
                assert(!is_digit(d[i as int]));
            }
            return None;
        }
        let dv: u64 = (c as u32 - '0' as u32) as u64;
        assert(dv <= 9);
        if acc > (0x8000000000000000u64 - dv) / 10 {
            proof {
                if all_digits(d) {
                    assert(d.take(i + 1int).take(i as int) =~= d.take(i as int));
                    assert(d.take(i + 1int).drop_last() =~= d.take(i as int));
                    assert(digits_val(d.take(i + 1int)) == acc * 10 + dv);
                    assert(acc * 10 + dv > 0x8000000000000000) by (nonlinear_arith)
                        requires
                            acc > (0x8000000000000000u64 - dv) / 10,
                            0 <= dv <= 9,
                            acc >= 0,
                    ;
                    crate::recipe::lemma_digits_val_grows(d, i + 1);
                }
            }
            return None;
        }
        acc = acc * 10 + dv;
        assert(d.take(i + 1int).take(i as int) =~= d.take(i as int));
        assert(d.take(i + 1int).drop_last() =~= d.take(i as int));
        i = i + 1;
    }
    assert(d.take(d.len() as int) =~= d);
    if neg {
        if acc == 0x8000000000000000 {
            Some(i64::MIN)
        } else {
            Some(-(acc as i64))
        }
    } else {
        if acc <= i64::MAX as u64 {
            Some(acc as i64)
        } else {
            None
        }
    }
}

/// A prefix of a digit run never exceeds the whole run's value.
pub proof fn lemma_digits_val_grows(s: Seq<char>, k: int)
    requires
        0 <= k <= s.len(),
        all_digits(s),
    ensures
        digits_val(s.take(k)) <= digits_val(s),
        digits_val(s) >= 0,
    decreases s.len(),
{
    if s.len() == 0 {
    } else if k == s.len() {
        assert(s.take(k) =~= s);
        lemma_digits_val_grows(s.take(s.len() - 1), s.len() - 1);
        assert(s.take(s.len() - 1).take(s.len() - 1) =~= s.take(s.len() - 1));
    } else {
        assert(s.take(s.len() - 1).take(k) =~= s.take(k));
        assert(all_digits(s.take(s.len() - 1)));
        lemma_digits_val_grows(s.take(s.len() - 1), k);
    }
}

/// The last value assigned to a metadata key, trimmed.
pub open spec fn spec_meta_field(lines: Seq<Seq<char>>, key: Seq<char>) -> Option<Seq<char>>
    decreases lines.len(),
{
    if lines.len() == 0 {
        Option::None
    } else if assigns_key(lines.last(), key) {
        Option::Some(meta_kv(lines.last())->Some_0.1)
    } else {
        spec_meta_field(lines.drop_last(), key)
    }
}

/// The servings read from the last servings line, when it parses.
pub open spec fn spec_servings(lines: Seq<Seq<char>>) -> Option<i64>
    decreases lines.len(),
{
    if lines.len() == 0 {
        Option::None
    } else if assigns_key(lines.last(), "servings"@) {
        spec_parse_i64(meta_kv(lines.last())->Some_0.1)
    } else {
        spec_servings(lines.drop_last())
    }
}

/// A comma-separated tag value: each part trimmed, empty parts dropped.
pub open spec fn spec_tag_list_parts(parts: Seq<Seq<char>>) -> Seq<Seq<char>>
    decreases parts.len(),
{
    if parts.len() == 0 {
        Seq::<Seq<char>>::empty()
    } else {
        spec_tag_list_parts(parts.drop_last()) + (if spec_utrim(parts.last()).len() > 0 {
            seq![spec_utrim(parts.last())]
        } else {
            Seq::<Seq<char>>::empty()
        })
    }
}

pub open spec fn spec_tag_list(value: Seq<char>) -> Seq<Seq<char>> {
    spec_tag_list_parts(split_from(value, ',', 0))
}

/// The tags assigned by the last tags line; none assigned leaves them
/// empty.
pub open spec fn spec_tags(lines: Seq<Seq<char>>) -> Seq<Seq<char>>
    decreases lines.len(),
{
    if lines.len() == 0 {
        Seq::<Seq<char>>::empty()
    } else if assigns_key(lines.last(), "tags"@) {
        spec_tag_list(meta_kv(lines.last())->Some_0.1)
    } else {
        spec_tags(lines.drop_last())
    }
}

/// Whether a key is one of the recognized metadata keys.
pub open spec fn known_key(key: Seq<char>) -> bool {
    key == "servings"@ || key == "total time"@ || key == "active time"@ || key == "difficulty"@
        || key == "tags"@
}

/// The custom key/value pairs, in order of appearance.
pub open spec fn spec_other(lines: Seq<Seq<char>>) -> Seq<(Seq<char>, Seq<char>)>
    decreases lines.len(),
{
    if lines.len() == 0 {
        Seq::<(Seq<char>, Seq<char>)>::empty()
    } else {
        spec_other(lines.drop_last()) + (if is_meta(lines.last()) && (meta_kv(
            lines.last(),
        ) matches Some(kv) && !known_key(kv.0)) {
            seq![(meta_kv(lines.last())->Some_0.0, meta_kv(lines.last())->Some_0.1)]
        } else {
            Seq::<(Seq<char>, Seq<char>)>::empty()
        })
    }
}

/// The instruction text: every non-metadata line whose trim is non-empty,
/// kept verbatim and newline-terminated.
pub open spec fn spec_instructions(lines: Seq<Seq<char>>) -> Seq<char>
    decreases lines.len(),
{
    if lines.len() == 0 {
        Seq::<char>::empty()
    } else {
        spec_instructions(lines.drop_last()) + (if !is_meta(lines.last()) && spec_utrim(
            lines.last(),
        ).len() > 0 {
            lines.last() + seq!['\n']
        } else {
            Seq::<char>::empty()
        })
    }
}

/// Whether a name is already among the collected ingredient names.
pub open spec fn names_has(names: Seq<Seq<char>>, n: Seq<char>) -> bool {
    exists|k: int| 0 <= k < names.len() && #[trigger] names[k] == n
}

/// Where an ingredient name starting at `j` ends: at the first brace or
/// whitespace character.
pub open spec fn name_end(l: Seq<char>, j: int) -> int
    decreases l.len() - j,
{
    if j < 0 || j >= l.len() {
        l.len() as int
    } else if l[j] == '{' || unicode_ws(l[j]) {
        j
    } else {
        name_end(l, j + 1)
    }
}

/// Scan a line for ingredient references: each `@` starts a name running to
/// the first brace or whitespace; non-empty names are collected once.
pub open spec fn scan_line(l: Seq<char>, i: int, acc: Seq<Seq<char>>) -> Seq<Seq<char>>
    decreases l.len() - i,
        when 0 <= i via scan_line_dec
{
    if i >= l.len() {
        acc
    } else if l[i] == '@' {
        let k = name_end(l, i + 1);
        let name = l.subrange(i + 1, k);
        let acc2 = if name.len() > 0 && !names_has(acc, name) {
            acc.push(name)
        } else {
            acc
        };
        if k > i {
            scan_line(l, k, acc2)
        } else {
            acc2
        }
    } else {
        scan_line(l, i + 1, acc)
    }
}

#[via_fn]
proof fn scan_line_dec(l: Seq<char>, i: int, acc: Seq<Seq<char>>) {
    if 0 <= i < l.len() && l[i] == '@' {
        lemma_name_end_bounds(l, i + 1);
    }
}

proof fn lemma_name_end_bounds(l: Seq<char>, j: int)
    requires
        0 <= j <= l.len(),
    ensures
        j <= name_end(l, j) <= l.len(),
    decreases l.len() - j,
{
    if j < l.len() && !(l[j] == '{' || unicode_ws(l[j])) {
        lemma_name_end_bounds(l, j + 1);
    }
}

/// The ingredient names of a whole document, collected line by line from
/// the instruction lines.
pub open spec fn spec_ingredient_names(lines: Seq<Seq<char>>) -> Seq<Seq<char>>
    decreases lines.len(),
{
    if lines.len() == 0 {
        Seq::<Seq<char>>::empty()
    } else {
        let prev = spec_ingredient_names(lines.drop_last());
        if !is_meta(lines.last()) && spec_utrim(lines.last()).len() > 0 {
            scan_line(lines.last(), 0, prev)
        } else {
            prev
        }
    }
}

/// Split a metadata line into its lowered key and trimmed value, when it
/// has a colon.
fn meta_kv_exec(line: &Vec<char>) -> (r: Option<(String, String)>)
    requires
        is_meta(line@),
    ensures
        r is Some <==> meta_kv(line@) is Some,
        r matches Some(kv) ==> kv.0@ == meta_kv(line@)->Some_0.0 && kv.1@ == meta_kv(
            line@,
        )->Some_0.1,
{
    let rest = subrange_chars(line, 2, line.len());
    assert(rest@ =~= line@.skip(2));
    let mut colon: Vec<char> = Vec::new();
    colon.push(':');
    assert(colon@ =~= seq![':']);
    match find_sub(&rest, &colon, 0) {
        None => None,
        Some(j) => {
            proof {
                crate::text::lemma_find_at_props(rest@, seq![':'], 0);
            }
            let rawkey = subrange_chars(&rest, 0, j);
            assert(rawkey@ =~= rest@.take(j as int));
            let keytrim = utrim_chars(&rawkey);
            let keystr = from_chars(&keytrim);
            let key = lowercase(keystr.as_str());
            let rawval = subrange_chars(&rest, j + 1, rest.len());
            assert(rawval@ =~= rest@.skip(j + 1int));
            let valtrim = utrim_chars(&rawval);
            let value = from_chars(&valtrim);
            Some((key, value))
        },
    }
}

/// Collect the ingredient references of one line into `names`.
fn scan_line_exec(line: &Vec<char>, names: &mut Vec<String>)
    ensures
        final(names)@.map_values(|s: String| s@) == scan_line(
            line@,
            0,
            old(names)@.map_values(|s: String| s@),
        ),
{
    let ghost l = line@;
    let mut i: usize = 0;
    let n = line.len();
    while i < n
        invariant
            0 <= i <= l.len(),
            line@ == l,
            l.len() == n,
            scan_line(l, 0, old(names)@.map_values(|s: String| s@)) == scan_line(
                l,
                i as int,
                names@.map_values(|s: String| s@),
            ),
        decreases l.len() - i,
    {
        let c = line[i];
        if c == '@' {
            proof {
                lemma_name_end_bounds(l, i + 1int);
            }
            let mut k: usize = i + 1;
            while k < n && line[k] != '{' && !is_unicode_ws(line[k])
                invariant
                    i + 1 <= k <= l.len(),
                    line@ == l,
                    l.len() == n,
                    name_end(l, i + 1int) == name_end(l, k as int),
                decreases l.len() - k,
            {
                k = k + 1;
            }
            assert(name_end(l, k as int) == k);
            let name = subrange_chars(line, i + 1, k);
            assert(name@ =~= l.subrange(i + 1int, name_end(l, i + 1int)));
            let ghost before = names@.map_values(|s: String| s@);
            if name.len() > 0 && !names_contain(names, &name) {
                let ns = from_chars(&name);
                names.push(ns);
                proof {
                    assert(names@.map_values(|s: String| s@) =~= before.push(name@));
                }
            }
            proof {
                let acc2 = if name@.len() > 0 && !names_has(before, name@) {
                    before.push(name@)
                } else {
                    before
                };
                assert(names@.map_values(|s: String| s@) =~= acc2);
                assert(scan_line(l, i as int, before) == scan_line(l, k as int, acc2));
            }
            i = k;
        } else {
            i = i + 1;
        }
    }
    assert(scan_line(l, i as int, names@.map_values(|s: String| s@)) == names@.map_values(
        |s: String| s@,
    ));
}

/// Whether a name is already collected.
fn names_contain(names: &Vec<String>, name: &Vec<char>) -> (r: bool)
    ensures
        r == names_has(names@.map_values(|s: String| s@), name@),
{
    let mut k: usize = 0;
    while k < names.len()
        invariant
            0 <= k <= names@.len(),
            forall|j: int| 0 <= j < k ==> #[trigger] names@[j]@ != name@,
        decreases names@.len() - k,
    {
        let nc = to_chars(names[k].as_str());
        if chars_eq(&nc, name) {
            assert(names@.map_values(|s: String| s@)[k as int] == name@);
            return true;
        }
        k = k + 1;
    }
    proof {
        let m = names@.map_values(|s: String| s@);
        assert forall|j: int| 0 <= j < m.len() implies #[trigger] m[j] != name@ by {
            assert(m[j] == names@[j]@);
        }
    }
    false
}

/// Split a tag value at commas, trim each part, and drop the empty ones.
fn tag_list_exec(value: &Vec<char>) -> (r: Vec<String>)
    ensures
        r@.map_values(|s: String| s@) == spec_tag_list(value@),
{
    let parts = split_char(value, ',');
    let ghost specparts = split_from(value@, ',', 0);
    let mut out: Vec<String> = Vec::new();
    let mut i: usize = 0;
    while i < parts.len()
        invariant
            0 <= i <= parts@.len(),
            parts@.len() == specparts.len(),
            forall|k: int| 0 <= k < parts@.len() ==> #[trigger] parts@[k]@ == specparts[k],
            out@.map_values(|s: String| s@) == spec_tag_list_parts(specparts.take(i as int)),
        decreases parts@.len() - i,
    {
        proof {
            assert(specparts.take(i + 1int).drop_last() =~= specparts.take(i as int));
            assert(specparts.take(i + 1int).last() == specparts[i as int]);
        }
        let ghost before = out@.map_values(|s: String| s@);
        let t = utrim_chars(&parts[i]);
        if t.len() > 0 {
            out.push(from_chars(&t));
            proof {
                assert(out@.map_values(|s: String| s@) =~= before.push(t@));
            }
        }
        assert(out@.map_values(|s: String| s@) =~= spec_tag_list_parts(specparts.take(i + 1int)));
        i = i + 1;
    }
    assert(specparts.take(specparts.len() as int) =~= specparts);
    out
}

/// Apply one metadata line to the collected metadata state: the recognized
/// keys assign their fields (later lines win), anything else is appended to
/// the custom pairs, and a line without a colon changes nothing.
fn apply_meta_line(
    line: &Vec<char>,
    servings: &mut Option<i64>,
    total_time: &mut Option<String>,
    active_time: &mut Option<String>,
    difficulty: &mut Option<String>,
    tags: &mut Vec<String>,
    other: &mut Vec<(String, String)>,
)
    requires
        is_meta(line@),
    ensures
        match meta_kv(line@) {
            Option::None => {
                &&& *final(servings) == *old(servings)
                &&& *final(total_time) == *old(total_time)
                &&& *final(active_time) == *old(active_time)
                &&& *final(difficulty) == *old(difficulty)
                &&& *final(tags) == *old(tags)
                &&& *final(other) == *old(other)
            },
            Option::Some(kv) => {
                &&& (if kv.0 == "servings"@ {
                    *final(servings) == spec_parse_i64(kv.1)
                } else {
                    *final(servings) == *old(servings)
                })
                &&& (if kv.0 == "total time"@ {
                    (*final(total_time) matches Some(v) && v@ == kv.1)
                } else {
                    *final(total_time) == *old(total_time)
                })
                &&& (if kv.0 == "active time"@ {
                    (*final(active_time) matches Some(v) && v@ == kv.1)
                } else {
                    *final(active_time) == *old(active_time)
                })
                &&& (if kv.0 == "difficulty"@ {
                    (*final(difficulty) matches Some(v) && v@ == kv.1)
                } else {
                    *final(difficulty) == *old(difficulty)
                })
                &&& (if kv.0 == "tags"@ {
                    final(tags)@.map_values(|s: String| s@) == spec_tag_list(kv.1)
                } else {
                    *final(tags) == *old(tags)
                })
                &&& (if !known_key(kv.0) {
                    final(other)@.map_values(|p: (String, String)| (p.0@, p.1@)) == old(
                        other,
                    )@.map_values(|p: (String, String)| (p.0@, p.1@)).push((kv.0, kv.1))
                } else {
                    *final(other) == *old(other)
                })
            },
        },
{
    proof {
        reveal_strlit("servings");
        reveal_strlit("total time");
        reveal_strlit("active time");
        reveal_strlit("difficulty");
        reveal_strlit("tags");
        assert("servings"@.len() == 8);
        assert("total time"@.len() == 10);
        assert("active time"@.len() == 11);
        assert("difficulty"@.len() == 10);
        assert("tags"@.len() == 4);
        assert(("total time"@)[0] != ("difficulty"@)[0]);
        assert("servings"@ != "total time"@ && "servings"@ != "active time"@ && "servings"@
            != "difficulty"@ && "servings"@ != "tags"@);
        assert("total time"@ != "active time"@ && "total time"@ != "difficulty"@ && "total time"@
            != "tags"@);
        assert("active time"@ != "difficulty"@ && "active time"@ != "tags"@);
        assert("difficulty"@ != "tags"@);
    }
    match meta_kv_exec(line) {
        None => {},
        Some((key, value)) => {
            assert(key@ == meta_kv(line@)->Some_0.0);
            assert(value@ == meta_kv(line@)->Some_0.1);
            if str_eq(key.as_str(), "servings") {
                let vc = to_chars(value.as_str());
                *servings = parse_i64_str(&vc);
            } else if str_eq(key.as_str(), "total time") {
                *total_time = Some(value);
                assert((*total_time) matches Some(v) && v@ == meta_kv(line@)->Some_0.1);
            } else if str_eq(key.as_str(), "active time") {
                *active_time = Some(value);
            } else if str_eq(key.as_str(), "difficulty") {
                *difficulty = Some(value);
            } else if str_eq(key.as_str(), "tags") {
                let vc = to_chars(value.as_str());
                let newtags = tag_list_exec(&vc);
                *tags = newtags;
            } else {
                let ghost before = other@.map_values(|p: (String, String)| (p.0@, p.1@));
                other.push((key, value));
                proof {
                    assert(other@.map_values(|p: (String, String)| (p.0@, p.1@)) =~= before.push(
                        (meta_kv(line@)->Some_0.0, meta_kv(line@)->Some_0.1),
                    ));
                }
            }
        },
    }
    proof {
        match meta_kv(line@) {
            Option::None => {},
            Option::Some(kv) => {
                if kv.0 == "total time"@ {
                    assert((*total_time) matches Some(v) && v@ == kv.1);
                }
                if kv.0 == "active time"@ {
                    assert((*active_time) matches Some(v) && v@ == kv.1);
                }
                if kv.0 == "difficulty"@ {
                    assert((*difficulty) matches Some(v) && v@ == kv.1);
                }
            },
        }
    }
}

/// Read a recipe's markup: metadata from `>>` lines (later assignments
/// win), instruction text from the remaining non-empty lines, and each
/// distinct ingredient reference once. This simplified reader never fails.
#[verifier::rlimit(100)]
#[verifier::spinoff_prover]
pub fn parse_cooklang(content: &str) -> (r: Result<ParsedRecipe, crate::Error>)
    ensures
        r is Ok,
        ({
            let p = r->Ok_0;
            let lns = spec_lines(content@);
            &&& p.metadata.servings == spec_servings(lns)
            &&& (p.metadata.total_time is Some <==> spec_meta_field(lns, "total time"@) is Some)
            &&& (p.metadata.total_time is Some ==> p.metadata.total_time->Some_0@
                == spec_meta_field(lns, "total time"@)->Some_0)
            &&& (p.metadata.active_time is Some <==> spec_meta_field(lns, "active time"@) is Some)
            &&& (p.metadata.active_time is Some ==> p.metadata.active_time->Some_0@
                == spec_meta_field(lns, "active time"@)->Some_0)
            &&& (p.metadata.difficulty is Some <==> spec_meta_field(lns, "difficulty"@) is Some)
            &&& (p.metadata.difficulty is Some ==> p.metadata.difficulty->Some_0@
                == spec_meta_field(lns, "difficulty"@)->Some_0)
            &&& p.metadata.tags@.map_values(|s: String| s@) == spec_tags(lns)
            &&& p.metadata.other@.map_values(|kv: (String, String)| (kv.0@, kv.1@)) == spec_other(
                lns,
            )
            &&& p.instructions@ == spec_utrim(spec_instructions(lns))
            &&& p.ingredients@.map_values(|e: IngredientEntry| e.name@) == spec_ingredient_names(
                lns,
            )
            &&& (forall|k: int| 0 <= k < p.ingredients@.len() ==> (#[trigger] p.ingredients@[k].quantity)
                is None && p.ingredients@[k].unit is None)
            &&& p.sections@.len() == 1
            &&& p.sections@[0].name is None
            &&& p.sections@[0].instructions@ == spec_utrim(spec_instructions(lns))
        }),
{
    let cs = to_chars(content);
    let ls = lines_of(&cs);
    let ghost lns = spec_lines(cs@);

    let mut servings: Option<i64> = None;
    let mut total_time: Option<String> = None;
    let mut active_time: Option<String> = None;
    let mut difficulty: Option<String> = None;
    let mut tags: Vec<String> = Vec::new();
    let mut other: Vec<(String, String)> = Vec::new();
    let mut instructions: Vec<char> = Vec::new();
    let mut names: Vec<String> = Vec::new();

    let mut meta_pat: Vec<char> = Vec::new();
    meta_pat.push('>');
    meta_pat.push('>');
    assert(meta_pat@ =~= seq!['>', '>']);

    let mut i: usize = 0;
    while i < ls.len()
        invariant
            0 <= i <= ls@.len(),
            meta_pat@ == seq!['>', '>'],
            ls@.len() == lns.len(),
            forall|k: int| 0 <= k < ls@.len() ==> #[trigger] ls@[k]@ == lns[k],
            servings == spec_servings(lns.take(i as int)),
            (total_time is Some <==> spec_meta_field(lns.take(i as int), "total time"@) is Some),
            (total_time is Some ==> total_time->Some_0@ == spec_meta_field(
                lns.take(i as int),
                "total time"@,
            )->Some_0),
            (active_time is Some <==> spec_meta_field(lns.take(i as int), "active time"@)
                is Some),
            (active_time is Some ==> active_time->Some_0@ == spec_meta_field(
                lns.take(i as int),
                "active time"@,
            )->Some_0),
            (difficulty is Some <==> spec_meta_field(lns.take(i as int), "difficulty"@) is Some),
            (difficulty is Some ==> difficulty->Some_0@ == spec_meta_field(
                lns.take(i as int),
                "difficulty"@,
            )->Some_0),
            tags@.map_values(|s: String| s@) == spec_tags(lns.take(i as int)),
            other@.map_values(|kv: (String, String)| (kv.0@, kv.1@)) == spec_other(
                lns.take(i as int),
            ),
            instructions@ == spec_instructions(lns.take(i as int)),
            names@.map_values(|s: String| s@) == spec_ingredient_names(lns.take(i as int)),
        decreases ls@.len() - i,
    {
        proof {
            assert(lns.take(i + 1int).drop_last() =~= lns.take(i as int));
            assert(lns.take(i + 1int).last() == lns[i as int]);
            reveal_strlit("servings");
            reveal_strlit("total time");
            reveal_strlit("active time");
            reveal_strlit("difficulty");
            reveal_strlit("tags");
        }
        let line = &ls[i];
        if crate::text::starts_with(line, &meta_pat) {
            assert(is_meta(lns[i as int]));
            apply_meta_line(
                line,
                &mut servings,
                &mut total_time,
                &mut active_time,
                &mut difficulty,
                &mut tags,
                &mut other,
            );
            proof {
                assert(meta_kv(lns.take(i + 1int).last()) == meta_kv(lns[i as int]));
                assert(spec_instructions(lns.take(i + 1int)) =~= spec_instructions(
                    lns.take(i as int),
                ));
                assert(spec_ingredient_names(lns.take(i + 1int)) == spec_ingredient_names(
                    lns.take(i as int),
                ));
                match meta_kv(lns[i as int]) {
                    Option::None => {
                        assert(spec_servings(lns.take(i + 1int)) == spec_servings(
                            lns.take(i as int),
                        ));
                        assert(spec_meta_field(lns.take(i + 1int), "total time"@)
                            == spec_meta_field(lns.take(i as int), "total time"@));
                        assert(spec_meta_field(lns.take(i + 1int), "active time"@)
                            == spec_meta_field(lns.take(i as int), "active time"@));
                        assert(spec_meta_field(lns.take(i + 1int), "difficulty"@)
                            == spec_meta_field(lns.take(i as int), "difficulty"@));
                        assert(spec_tags(lns.take(i + 1int)) == spec_tags(lns.take(i as int)));
                        assert(spec_other(lns.take(i + 1int)) =~= spec_other(lns.take(i as int)));
                    },
                    Option::Some(kv) => {
                        let k0 = kv.0;
                        if k0 == "servings"@ {
                            assert(assigns_key(lns.take(i + 1int).last(), "servings"@));
                            assert(spec_servings(lns.take(i + 1int)) == spec_parse_i64(kv.1));
                        } else {
                            assert(spec_servings(lns.take(i + 1int)) == spec_servings(
                                lns.take(i as int),
                            ));
                        }
                        if k0 == "total time"@ {
                            assert(assigns_key(lns.take(i + 1int).last(), "total time"@));
                            assert(spec_meta_field(lns.take(i + 1int), "total time"@)
                                == Option::Some(kv.1));
                        } else {
                            assert(spec_meta_field(lns.take(i + 1int), "total time"@)
                                == spec_meta_field(lns.take(i as int), "total time"@));
                        }
                        if k0 == "active time"@ {
                            assert(assigns_key(lns.take(i + 1int).last(), "active time"@));
                            assert(spec_meta_field(lns.take(i + 1int), "active time"@)
                                == Option::Some(kv.1));
                        } else {
                            assert(spec_meta_field(lns.take(i + 1int), "active time"@)
                                == spec_meta_field(lns.take(i as int), "active time"@));
                        }
                        if k0 == "difficulty"@ {
                            assert(assigns_key(lns.take(i + 1int).last(), "difficulty"@));
                            assert(spec_meta_field(lns.take(i + 1int), "difficulty"@)
                                == Option::Some(kv.1));
                        } else {
                            assert(spec_meta_field(lns.take(i + 1int), "difficulty"@)
                                == spec_meta_field(lns.take(i as int), "difficulty"@));
                        }
                        if k0 == "tags"@ {
                            assert(assigns_key(lns.take(i + 1int).last(), "tags"@));
                            assert(spec_tags(lns.take(i + 1int)) == spec_tag_list(kv.1));
                        } else {
                            assert(spec_tags(lns.take(i + 1int)) == spec_tags(lns.take(i as int)));
                        }
                        if !known_key(k0) {
                            assert(spec_other(lns.take(i + 1int)) =~= spec_other(
                                lns.take(i as int),
                            ).push((kv.0, kv.1)));
                        } else {
                            assert(spec_other(lns.take(i + 1int)) =~= spec_other(
                                lns.take(i as int),
                            ));
                        }
                    },
                }
            }
        } else {
            assert(!is_meta(lns[i as int]));
            proof {
                assert(!assigns_key(lns.take(i + 1int).last(), "servings"@));
                assert(spec_servings(lns.take(i + 1int)) == spec_servings(lns.take(i as int)));
                assert(spec_meta_field(lns.take(i + 1int), "total time"@) == spec_meta_field(
                    lns.take(i as int),
                    "total time"@,
                ));
                assert(spec_meta_field(lns.take(i + 1int), "active time"@) == spec_meta_field(
                    lns.take(i as int),
                    "active time"@,
                ));
                assert(spec_meta_field(lns.take(i + 1int), "difficulty"@) == spec_meta_field(
                    lns.take(i as int),
                    "difficulty"@,
                ));
                assert(spec_tags(lns.take(i + 1int)) == spec_tags(lns.take(i as int)));
                assert(spec_other(lns.take(i + 1int)) =~= spec_other(lns.take(i as int)));
            }
            let trimmed = utrim_chars(line);
            if trimmed.len() > 0 {
                append_chars(&mut instructions, line);
                instructions.push('\n');
                assert(instructions@ =~= spec_instructions(lns.take(i as int)) + lns[i as int]
                    + seq!['\n']);
                assert(instructions@ =~= spec_instructions(lns.take(i + 1int)));
                scan_line_exec(line, &mut names);
                assert(names@.map_values(|s: String| s@) == spec_ingredient_names(
                    lns.take(i + 1int),
                ));
            } else {
                assert(spec_instructions(lns.take(i + 1int)) =~= spec_instructions(
                    lns.take(i as int),
                ));
                assert(spec_ingredient_names(lns.take(i + 1int)) == spec_ingredient_names(
                    lns.take(i as int),
                ));
            }
            assert(total_time is Some <==> spec_meta_field(lns.take(i + 1int), "total time"@)
                is Some);
            assert(tags@.map_values(|s: String| s@) == spec_tags(lns.take(i + 1int)));
        }
        i = i + 1;
    }
    assert(lns.take(lns.len() as int) =~= lns);

    let trimmed_instructions = utrim_chars(&instructions);
    let instructions_str = from_chars(&trimmed_instructions);
    let section_str = from_chars(&trimmed_instructions);

    let mut ingredients: Vec<IngredientEntry> = Vec::new();
    let mut k: usize = 0;
    let ghost wanted = names@.map_values(|s: String| s@);
    while k < names.len()
        invariant
            0 <= k <= names@.len(),
            wanted == names@.map_values(|s: String| s@),
            ingredients@.len() == k,
            forall|j: int| 0 <= j < k ==> #[trigger] ingredients@[j].name@ == wanted[j],
            forall|j: int| 0 <= j < k ==> (#[trigger] ingredients@[j].quantity) is None
                && ingredients@[j].unit is None,
        decreases names@.len() - k,
    {
        ingredients.push(IngredientEntry { name: names[k].clone(), quantity: None, unit: None });
        k = k + 1;
    }
    proof {
        assert(ingredients@.map_values(|e: IngredientEntry| e.name@) =~= wanted);
    }

    let mut sections: Vec<RecipeSection> = Vec::new();
    sections.push(RecipeSection { name: None, instructions: section_str });

    Ok(
        ParsedRecipe {
            metadata: RecipeMetadata {
                servings,
                total_time,
                active_time,
                tags,
                difficulty,
                other,
            },
            ingredients,
            instructions: instructions_str,
            sections,
        },
    )
}

/// The characters of a string that count as numeric, in order.
pub open spec fn spec_numeric_chars(s: Seq<char>) -> Seq<char>
    decreases s.len(),
{
    if s.len() == 0 {
        Seq::<char>::empty()
    } else {
        spec_numeric_chars(s.drop_last()) + (if unicode_numeric(s.last()) {
            seq![s.last()]
        } else {
            Seq::<char>::empty()
        })
    }
}

/// The minutes a time phrase names: all numeric characters of the lowered
/// phrase are read as one number, taken as hours when the phrase mentions
/// hours and as minutes otherwise.
pub open spec fn spec_time_to_minutes(low: Seq<char>) -> Option<i64> {
    let digits = spec_numeric_chars(low);
    if digits.len() == 0 || !all_digits(digits) || digits_val(digits) > i64::MAX {
        Option::None
    } else {
        let num = digits_val(digits) as i64;
        if spec_contains(low, seq!['h', 'o', 'u', 'r']) {
            if num * 60 <= i64::MAX {
                Option::Some((num * 60) as i64)
            } else {
                Option::None
            }
        } else {
            Option::Some(num)
        }
    }
}

/// Extract a duration in minutes from a phrase such as a number of minutes
/// or hours. A phrase whose hour count would overflow yields nothing.
pub fn parse_time_to_minutes(time_str: &str) -> (r: Option<i64>)
    ensures
        r == spec_time_to_minutes(lower_of(time_str@)),
{
    let low = lowercase(time_str);
    let cs = to_chars(low.as_str());
    let mut digits: Vec<char> = Vec::new();
    let mut i: usize = 0;
    while i < cs.len()
        invariant
            0 <= i <= cs@.len(),
            digits@ == spec_numeric_chars(cs@.take(i as int)),
        decreases cs@.len() - i,
    {
        proof {
            assert(cs@.take(i + 1int).drop_last() =~= cs@.take(i as int));
            assert(cs@.take(i + 1int).last() == cs@[i as int]);
        }
        let c = cs[i];
        if is_unicode_numeric(c) {
            digits.push(c);
            assert(digits@ =~= spec_numeric_chars(cs@.take(i + 1int)));
        }
        i = i + 1;
    }
    assert(cs@.take(cs@.len() as int) =~= cs@);
    let num = match crate::text::parse_i64_digits(&digits) {
        Some(v) => v,
        None => {
            return None;
        },
    };
    proof {
        lemma_digits_val_grows(digits@, 0);
    }
    let hour_pat = to_chars("hour");
    proof {
        reveal_strlit("hour");
        assert("hour"@.len() == 4);
        assert("hour"@ =~= seq!['h', 'o', 'u', 'r']);
        assert(cs@ == lower_of(time_str@));
    }
    if contains_sub(&cs, &hour_pat) {
        if num <= i64::MAX / 60 {
            proof {
                assert(num * 60 <= i64::MAX) by (nonlinear_arith)
                    requires
                        0 <= num <= i64::MAX / 60,
                ;
            }
            Some(num * 60)
        } else {
            proof {
                assert(num * 60 > i64::MAX) by (nonlinear_arith)
                    requires
                        num > i64::MAX / 60,
                ;
            }
            None
        }
    } else {
        Some(num)
    }
}

/// Normalize an ingredient name for storage: trimmed and lower-cased.
pub fn normalize_ingredient(name: &str) -> (r: String)
    ensures
        r@ == lower_of(spec_utrim(name@)),
{
    let cs = to_chars(name);
    let t = utrim_chars(&cs);
    let ts = from_chars(&t);
    lowercase(ts.as_str())
}


/// A file name turned into a draft title: dashes and underscores become
/// spaces.
pub open spec fn spec_fname_title(s: Seq<char>) -> Seq<char>
    decreases s.len(),
{
    if s.len() == 0 {
        Seq::<char>::empty()
    } else {
        spec_fname_title(s.drop_last()).push(
            if s.last() == '-' || s.last() == '_' {
                ' '
            } else {
                s.last()
            },
        )
    }
}

/// The title a document's metadata gives it, or the file-name draft.
pub open spec fn spec_pr_title(lines: Seq<Seq<char>>, fallback: Seq<char>) -> Seq<char>
    decreases lines.len(),
{
    if lines.len() == 0 {
        fallback
    } else if assigns_key(lines.last(), "title"@) {
        meta_kv(lines.last())->Some_0.1
    } else {
        spec_pr_title(lines.drop_last(), fallback)
    }
}

/// The summary a document's metadata gives, from its last summary or
/// description line.
pub open spec fn spec_pr_summary(lines: Seq<Seq<char>>) -> Option<Seq<char>>
    decreases lines.len(),
{
    if lines.len() == 0 {
        Option::None
    } else if assigns_key(lines.last(), "summary"@) || assigns_key(lines.last(), "description"@) {
        Option::Some(meta_kv(lines.last())->Some_0.1)
    } else {
        spec_pr_summary(lines.drop_last())
    }
}

/// The summary text finally reported: the stated one when it is non-empty,
/// else a stock line naming the title.
pub open spec fn spec_pr_summary_text(lines: Seq<Seq<char>>, title: Seq<char>) -> Seq<char> {
    match spec_pr_summary(lines) {
        Option::Some(s) => if s.len() > 0 {
            s
        } else {
            seq!['R', 'e', 'c', 'i', 'p', 'e', ':', ' '] + title
        },
        Option::None => seq!['R', 'e', 'c', 'i', 'p', 'e', ':', ' '] + title,
    }
}

/// Read a title, tags and summary from a recipe document for feed
/// generation: the title falls back to the file name with separators turned
/// into spaces, and a missing summary becomes a stock line naming the title.
pub fn parse_recipe_metadata(content: &str, filename: &str) -> (r: (String, Vec<String>, String))
    ensures
        ({
            let lns = spec_lines(content@);
            let title = spec_pr_title(lns, spec_fname_title(filename@));
            &&& r.0@ == title
            &&& r.1@.map_values(|s: String| s@) == spec_tags(lns)
            &&& r.2@ == spec_pr_summary_text(lns, title)
        }),
{
    let fc = to_chars(filename);
    let mut draft: Vec<char> = Vec::new();
    let mut q: usize = 0;
    while q < fc.len()
        invariant
            0 <= q <= fc@.len(),
            draft@ == spec_fname_title(fc@.take(q as int)),
        decreases fc@.len() - q,
    {
        proof {
            assert(fc@.take(q + 1int).drop_last() =~= fc@.take(q as int));
            assert(fc@.take(q + 1int).last() == fc@[q as int]);
        }
        let c = fc[q];
        if c == '-' || c == '_' {
            draft.push(' ');
        } else {
            draft.push(c);
        }
        q = q + 1;
    }
    assert(fc@.take(fc@.len() as int) =~= fc@);

    let cs = to_chars(content);
    let ls = lines_of(&cs);
    let ghost lns = spec_lines(cs@);
    let mut title: Vec<char> = draft;
    let mut tags: Vec<String> = Vec::new();
    let mut summary: Option<Vec<char>> = None;
    let mut meta_pat: Vec<char> = Vec::new();
    meta_pat.push('>');
    meta_pat.push('>');
    assert(meta_pat@ =~= seq!['>', '>']);
    let mut i: usize = 0;
    while i < ls.len()
        invariant
            0 <= i <= ls@.len(),
            meta_pat@ == seq!['>', '>'],
            ls@.len() == lns.len(),
            forall|k: int| 0 <= k < ls@.len() ==> #[trigger] ls@[k]@ == lns[k],
            title@ == spec_pr_title(lns.take(i as int), spec_fname_title(fc@)),
            tags@.map_values(|s: String| s@) == spec_tags(lns.take(i as int)),
            (summary is Some <==> spec_pr_summary(lns.take(i as int)) is Some),
            (summary matches Some(sv) ==> sv@ == spec_pr_summary(lns.take(i as int))->Some_0),
        decreases ls@.len() - i,
    {
        proof {
            assert(lns.take(i + 1int).drop_last() =~= lns.take(i as int));
            assert(lns.take(i + 1int).last() == lns[i as int]);
        }
        let line = &ls[i];
        if crate::text::starts_with(line, &meta_pat) {
            assert(is_meta(lns[i as int]));
            apply_pr_meta_line(line, &mut title, &mut tags, &mut summary);
            proof {
                assert(meta_kv(lns.take(i + 1int).last()) == meta_kv(lns[i as int]));
                match meta_kv(lns[i as int]) {
                    Option::None => {
                        assert(spec_pr_title(lns.take(i + 1int), spec_fname_title(fc@))
                            == spec_pr_title(lns.take(i as int), spec_fname_title(fc@)));
                        assert(spec_tags(lns.take(i + 1int)) == spec_tags(lns.take(i as int)));
                        assert(spec_pr_summary(lns.take(i + 1int)) == spec_pr_summary(
                            lns.take(i as int),
                        ));
                    },
                    Option::Some(kv) => {
                        if kv.0 == "title"@ {
                            assert(assigns_key(lns.take(i + 1int).last(), "title"@));
                        } else {
                            assert(spec_pr_title(lns.take(i + 1int), spec_fname_title(fc@))
                                == spec_pr_title(lns.take(i as int), spec_fname_title(fc@)));
                        }
                        if kv.0 == "tags"@ {
                            assert(assigns_key(lns.take(i + 1int).last(), "tags"@));
                            assert(spec_tags(lns.take(i + 1int)) == spec_tag_list(kv.1));
                        } else {
                            assert(spec_tags(lns.take(i + 1int)) == spec_tags(lns.take(i as int)));
                        }
                        if kv.0 == "summary"@ || kv.0 == "description"@ {
                            assert(assigns_key(lns.take(i + 1int).last(), kv.0));
                            assert(spec_pr_summary(lns.take(i + 1int)) == Option::Some(kv.1));
                        } else {
                            assert(spec_pr_summary(lns.take(i + 1int)) == spec_pr_summary(
                                lns.take(i as int),
                            ));
                        }
                    },
                }
            }
        } else {
            assert(!is_meta(lns[i as int]));
            proof {
                assert(spec_pr_title(lns.take(i + 1int), spec_fname_title(fc@)) == spec_pr_title(
                    lns.take(i as int),
                    spec_fname_title(fc@),
                ));
                assert(spec_tags(lns.take(i + 1int)) == spec_tags(lns.take(i as int)));
                assert(spec_pr_summary(lns.take(i + 1int)) == spec_pr_summary(
                    lns.take(i as int),
                ));
            }
        }
        i = i + 1;
    }
    assert(lns.take(lns.len() as int) =~= lns);

    let title_s = from_chars(&title);
    let summary_s = match summary {
        Some(sv) => {
            if sv.len() > 0 {
                from_chars(&sv)
            } else {
                let mut out = to_chars("Recipe: ");
                proof {
                    reveal_strlit("Recipe: ");
                    assert("Recipe: "@ =~= seq!['R', 'e', 'c', 'i', 'p', 'e', ':', ' ']);
                }
                append_chars(&mut out, &title);
                from_chars(&out)
            }
        },
        None => {
            let mut out = to_chars("Recipe: ");
            proof {
                reveal_strlit("Recipe: ");
                assert("Recipe: "@ =~= seq!['R', 'e', 'c', 'i', 'p', 'e', ':', ' ']);
            }
            append_chars(&mut out, &title);
            from_chars(&out)
        },
    };
    (title_s, tags, summary_s)
}

/// Apply one metadata line to the feed-generation state: a title line
/// assigns the title, a tags line the tag list, and a summary or
/// description line the summary.
fn apply_pr_meta_line(
    line: &Vec<char>,
    title: &mut Vec<char>,
    tags: &mut Vec<String>,
    summary: &mut Option<Vec<char>>,
)
    requires
        is_meta(line@),
    ensures
        match meta_kv(line@) {
            Option::None => {
                &&& *final(title) == *old(title)
                &&& *final(tags) == *old(tags)
                &&& *final(summary) == *old(summary)
            },
            Option::Some(kv) => {
                &&& (if kv.0 == "title"@ {
                    final(title)@ == kv.1
                } else {
                    *final(title) == *old(title)
                })
                &&& (if kv.0 == "tags"@ {
                    final(tags)@.map_values(|s: String| s@) == spec_tag_list(kv.1)
                } else {
                    *final(tags) == *old(tags)
                })
                &&& (if kv.0 == "summary"@ || kv.0 == "description"@ {
                    (*final(summary) matches Some(sv) && sv@ == kv.1)
                } else {
                    *final(summary) == *old(summary)
                })
            },
        },
{
    proof {
        reveal_strlit("title");
        reveal_strlit("tags");
        reveal_strlit("summary");
        reveal_strlit("description");
        assert("title"@.len() == 5);
        assert("tags"@.len() == 4);
        assert("summary"@.len() == 7);
        assert("description"@.len() == 11);
        assert("title"@ != "tags"@ && "title"@ != "summary"@ && "title"@ != "description"@);
        assert("tags"@ != "summary"@ && "tags"@ != "description"@);
        assert("summary"@ != "description"@);
    }
    match meta_kv_exec(line) {
        None => {},
        Some((key, value)) => {
            if str_eq(key.as_str(), "title") {
                let vc = to_chars(value.as_str());
                *title = vc;
            } else if str_eq(key.as_str(), "tags") {
                let vc = to_chars(value.as_str());
                let newtags = tag_list_exec(&vc);
                *tags = newtags;
            } else if str_eq(key.as_str(), "summary") || str_eq(key.as_str(), "description") {
                let vc = to_chars(value.as_str());
                *summary = Some(vc);
            }
        },
    }
}

} // verus!

