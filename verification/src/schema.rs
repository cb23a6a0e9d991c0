//! Text helpers for the structured-data projection of a recipe: pulling the
//! first number out of a phrase, rendering a time phrase as an ISO-8601
//! duration, and flattening a markup step to plain text.

use vstd::prelude::*;

use crate::text::{
    all_digits, digits_val, dec_rep, find_at, find_sub, from_chars, lowercase, lower_of,
    parse_i64_digits, spec_contains, spec_trim, subrange_chars, to_chars, trim_chars,
    u64_to_dec, unicode_numeric, is_unicode_numeric, append_chars, contains_sub,
};

verus! {

broadcast use vstd::string::group_string_axioms;

/// One item of a markup step, as the semantic parser reports it.
pub enum StepItem {
    Text { value: String },
    Ingredient { index: usize, name: String },
    Cookware { index: usize, name: String },
    Timer { index: usize, text: String },
    Quantity { value: String },
}

/// One step of a markup section.
pub struct StepData {
    pub items: Vec<StepItem>,
}

/// The plain text of one step item.
pub open spec fn item_text(it: StepItem) -> Seq<char> {
    match it {
        StepItem::Text { value } => value@,
        StepItem::Ingredient { name, .. } => name@,
        StepItem::Cookware { name, .. } => name@,
        StepItem::Timer { text, .. } => text@,
        StepItem::Quantity { value } => value@,
    }
}

/// The concatenated text of a step's items.
pub open spec fn items_text(items: Seq<StepItem>) -> Seq<char>
    decreases items.len(),
{
    if items.len() == 0 {
        Seq::<char>::empty()
    } else {
        items_text(items.drop_last()) + item_text(items.last())
    }
}

/// Flatten one step to plain text: every item's text in order, trimmed.
pub fn step_to_text(step: &StepData) -> (r: String)
    ensures
        r@ == spec_trim(items_text(step.items@)),
{
    let mut out: Vec<char> = Vec::new();
    let mut i: usize = 0;
    while i < step.items.len()
        invariant
            0 <= i <= step.items@.len(),
            out@ == items_text(step.items@.take(i as int)),
        decreases step.items@.len() - i,
    {
        proof {
            assert(step.items@.take(i + 1int).drop_last() =~= step.items@.take(i as int));
            assert(step.items@.take(i + 1int).last() == step.items@[i as int]);
        }
        let piece = match &step.items[i] {
            StepItem::Text { value } => to_chars(value.as_str()),
            StepItem::Ingredient { name, .. } => to_chars(name.as_str()),
            StepItem::Cookware { name, .. } => to_chars(name.as_str()),
            StepItem::Timer { text, .. } => to_chars(text.as_str()),
            StepItem::Quantity { value } => to_chars(value.as_str()),
        };
        assert(piece@ == item_text(step.items@[i as int]));
        append_chars(&mut out, &piece);
        i = i + 1;
    }
    assert(step.items@.take(step.items@.len() as int) =~= step.items@);
    let t = trim_chars(&out);
    from_chars(&t)
}

/// The first position at or after `i` holding a numeric character, or the
/// length when there is none.
pub open spec fn num_start(s: Seq<char>, i: int) -> int
    decreases s.len() - i,
{
    if i < 0 || i >= s.len() {
        s.len() as int
    } else if unicode_numeric(s[i]) {
        i
    } else {
        num_start(s, i + 1)
    }
}

/// The first position at or after `i` holding a non-numeric character, or
/// the length.
pub open spec fn num_end(s: Seq<char>, i: int) -> int
    decreases s.len() - i,
{
    if i < 0 || i >= s.len() {
        s.len() as int
    } else if !unicode_numeric(s[i]) {
        i
    } else {
        num_end(s, i + 1)
    }
}

/// The first complete run of numeric characters in `s`, read as a number:
/// none when there is no numeric character, when the run holds a numeric
/// character that is not an ASCII digit, or when the value overflows.
pub open spec fn spec_extract_number(s: Seq<char>) -> Option<i32> {
    let a = num_start(s, 0);
    if a >= s.len() {
        Option::None
    } else {
        let run = s.subrange(a, num_end(s, a));
        if all_digits(run) && digits_val(run) <= i32::MAX {
            Option::Some(digits_val(run) as i32)
        } else {
            Option::None
        }
    }
}

/// Extract the first number from a phrase's characters.
fn extract_number_chars(cs: &Vec<char>) -> (r: Option<i32>)
    ensures
        r == spec_extract_number(cs@),
        r matches Some(v) ==> v >= 0,
{
    let n = cs.len();
    let mut a: usize = 0;
    while a < n && !is_unicode_numeric(cs[a])
        invariant
            0 <= a <= cs@.len(),
            cs@.len() == n,
            num_start(cs@, 0) == num_start(cs@, a as int),
        decreases n - a,
    {
        a = a + 1;
    }
    if a == n {
        assert(num_start(cs@, a as int) == cs@.len());
        return None;
    }
    assert(num_start(cs@, 0) == a);
    let mut b: usize = a;
    while b < n && is_unicode_numeric(cs[b])
        invariant
            a <= b <= cs@.len(),
            cs@.len() == n,
            num_end(cs@, a as int) == num_end(cs@, b as int),
        decreases n - b,
    {
        b = b + 1;
    }
    assert(num_end(cs@, a as int) == b);
    let run = subrange_chars(cs, a, b);
    match parse_i64_digits(&run) {
        Some(v) => {
            proof {
                crate::recipe::lemma_digits_val_grows(run@, 0);
            }
            if v <= i32::MAX as i64 {
                Some(v as i32)
            } else {
                None
            }
        },
        None => {
            proof {
                if all_digits(run@) && run@.len() > 0 {
                    crate::recipe::lemma_digits_val_grows(run@, 0);
                }
                assert(run@.len() > 0) by {
                    assert(unicode_numeric(cs@[a as int]));
                }
            }
            None
        },
    }
}

/// Extract the first number from a phrase, such as the count of minutes in
/// a duration.
pub fn extract_number(s: &str) -> (r: Option<i32>)
    ensures
        r == spec_extract_number(s@),
        r matches Some(v) ==> v >= 0,
{
    let cs = to_chars(s);
    extract_number_chars(&cs)
}

/// The ISO-8601 duration a lowered time phrase renders to: hours (with
/// optional trailing minutes between the hour word and the next) when the
/// phrase mentions hours, else plain minutes from its first number.
pub open spec fn spec_format_iso(low: Seq<char>) -> Option<Seq<char>> {
    let hour = seq!['h', 'o', 'u', 'r'];
    let minw = seq!['m', 'i', 'n'];
    match (find_at(low, hour, 0), spec_extract_number(low)) {
        (Option::Some(h), Option::Some(hv)) => {
            if spec_contains(low, minw) {
                let seg_end = match find_at(low, hour, h + 4) {
                    Option::None => low.len() as int,
                    Option::Some(x) => x,
                };
                let part = low.subrange(h + 4, seg_end);
                match spec_extract_number(part) {
                    Option::Some(m) => Option::Some(
                        seq!['P', 'T'] + dec_rep(hv as int) + seq!['H'] + dec_rep(m as int)
                            + seq!['M'],
                    ),
                    Option::None => Option::Some(seq!['P', 'T'] + dec_rep(hv as int) + seq!['H']),
                }
            } else {
                Option::Some(seq!['P', 'T'] + dec_rep(hv as int) + seq!['H'])
            }
        },
        _ => match spec_extract_number(low) {
            Option::Some(m) => Option::Some(seq!['P', 'T'] + dec_rep(m as int) + seq!['M']),
            Option::None => Option::None,
        },
    }
}

/// Render a time phrase as an ISO-8601 duration, such as a duration in
/// plain minutes or in hours followed by minutes.
pub fn format_iso_duration(time_str: &str) -> (r: Option<String>)
    ensures
        r is Some <==> spec_format_iso(lower_of(time_str@)) is Some,
        r is Some ==> r->Some_0@ == spec_format_iso(lower_of(time_str@))->Some_0,
{
    let low = lowercase(time_str);
    let cs = to_chars(low.as_str());
    let hour_pat = to_chars("hour");
    let min_pat = to_chars("min");
    proof {
        reveal_strlit("hour");
        reveal_strlit("min");
        assert("hour"@.len() == 4);
        assert("min"@.len() == 3);
        assert("hour"@ =~= seq!['h', 'o', 'u', 'r']);
        assert("min"@ =~= seq!['m', 'i', 'n']);
        assert(cs@ == lower_of(time_str@));
    }
    let hpos = find_sub(&cs, &hour_pat, 0);
    let num = extract_number_chars(&cs);
    match (hpos, num) {
        (Some(h), Some(hv)) => {
            assert(hv >= 0);
            if contains_sub(&cs, &min_pat) {
                let n = cs.len();
                proof {
                    crate::text::lemma_find_at_props(cs@, seq!['h', 'o', 'u', 'r'], 0);
                    assert(h + 4 <= n);
                }
                let seg_end = match find_sub(&cs, &hour_pat, h + 4) {
                    None => cs.len(),
                    Some(x) => {
                        proof {
                            crate::text::lemma_find_at_props(cs@, seq!['h', 'o', 'u', 'r'], h
                                + 4int);
                        }
                        x
                    },
                };
                let part = subrange_chars(&cs, h + 4, seg_end);
                assert(part@ == cs@.subrange(h + 4int, seg_end as int));
                match extract_number_chars(&part) {
                    Some(m) => {
                        let mut out = to_chars("PT");
                        proof {
                            reveal_strlit("PT");
                            assert("PT"@ =~= seq!['P', 'T']);
                        }
                        let hd = u64_to_dec(hv as u64);
                        append_chars(&mut out, &hd);
                        out.push('H');
                        let md = u64_to_dec(m as u64);
                        append_chars(&mut out, &md);
                        out.push('M');
                        assert(out@ =~= seq!['P', 'T'] + dec_rep(hv as int) + seq!['H'] + dec_rep(
                            m as int,
                        ) + seq!['M']);
                        Some(from_chars(&out))
                    },
                    None => {
                        let mut out = to_chars("PT");
                        proof {
                            reveal_strlit("PT");
                            assert("PT"@ =~= seq!['P', 'T']);
                        }
                        let hd = u64_to_dec(hv as u64);
                        append_chars(&mut out, &hd);
                        out.push('H');
                        assert(out@ =~= seq!['P', 'T'] + dec_rep(hv as int) + seq!['H']);
                        Some(from_chars(&out))
                    },
                }
            } else {
                let mut out = to_chars("PT");
                proof {
                    reveal_strlit("PT");
                    assert("PT"@ =~= seq!['P', 'T']);
                }
                let hd = u64_to_dec(hv as u64);
                append_chars(&mut out, &hd);
                out.push('H');
                assert(out@ =~= seq!['P', 'T'] + dec_rep(hv as int) + seq!['H']);
                Some(from_chars(&out))
            }
        },
        (_, Some(m)) => {
            let mut out = to_chars("PT");
            proof {
                reveal_strlit("PT");
                assert("PT"@ =~= seq!['P', 'T']);
            }
            let md = u64_to_dec(m as u64);
            append_chars(&mut out, &md);
            out.push('M');
            assert(out@ =~= seq!['P', 'T'] + dec_rep(m as int) + seq!['M']);
            Some(from_chars(&out))
        },
        _ => None,
    }
}

} // verus!
