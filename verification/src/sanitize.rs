//! Output sanitizers: HTML-entity escaping for plain text, XML escaping for
//! generated feeds, filename cleanup and display truncation.

use vstd::prelude::*;

use crate::text::{
    from_chars, is_unicode_alnum, lemma_trim_pred_subrange, spec_trim, spec_trim_pred,
    subrange_chars, to_chars, trim_chars, unicode_alnum,
};

verus! {

/// Relies on ammonia::clean with its default settings, which strips unsafe
/// markup from an HTML fragment. Nothing is assumed of the result.
#[verifier::external_body]
pub fn sanitize_html(text: &str) -> String {
    ammonia::clean(text)
}

/// The entity expansion of one character for plain-text sanitization.
pub open spec fn text_escape_char(c: char) -> Seq<char> {
    if c == '&' {
        seq!['&', 'a', 'm', 'p', ';']
    } else if c == '<' {
        seq!['&', 'l', 't', ';']
    } else if c == '>' {
        seq!['&', 'g', 't', ';']
    } else if c == '"' {
        seq!['&', 'q', 'u', 'o', 't', ';']
    } else if c == '\'' {
        seq!['&', '#', 'x', '2', '7', ';']
    } else if c == '/' {
        seq!['&', '#', 'x', '2', 'F', ';']
    } else {
        seq![c]
    }
}

/// Every character expanded for plain-text sanitization, in order.
pub open spec fn spec_escape_text(s: Seq<char>) -> Seq<char>
    decreases s.len(),
{
    if s.len() == 0 {
        Seq::<char>::empty()
    } else {
        spec_escape_text(s.drop_last()) + text_escape_char(s.last())
    }
}

/// Escape HTML-significant characters as entities and trim the result, for
/// text that must not carry any markup.
pub fn sanitize_text(text: &str) -> (r: String)
    ensures
        r@ == spec_trim(spec_escape_text(text@)),
{
    let cs = to_chars(text);
    let mut out: Vec<char> = Vec::new();
    let mut i: usize = 0;
    while i < cs.len()
        invariant
            0 <= i <= cs@.len(),
            out@ == spec_escape_text(cs@.take(i as int)),
        decreases cs@.len() - i,
    {
        let c = cs[i];
        if c == '&' {
            out.push('&');
            out.push('a');
            out.push('m');
            out.push('p');
            out.push(';');
        } else if c == '<' {
            out.push('&');
            out.push('l');
            out.push('t');
            out.push(';');
        } else if c == '>' {
            out.push('&');
            out.push('g');
            out.push('t');
            out.push(';');
        } else if c == '"' {
            out.push('&');
            out.push('q');
            out.push('u');
            out.push('o');
            out.push('t');
            out.push(';');
        } else if c == '\'' {
            out.push('&');
            out.push('#');
            out.push('x');
            out.push('2');
            out.push('7');
            out.push(';');
        } else if c == '/' {
            out.push('&');
            out.push('#');
            out.push('x');
            out.push('2');
            out.push('F');
            out.push(';');
        } else {
            out.push(c);
        }
        proof {
            assert(cs@.take(i + 1int).drop_last() =~= cs@.take(i as int));
            assert(cs@.take(i + 1int).last() == cs@[i as int]);
            assert(out@ =~= spec_escape_text(cs@.take(i as int)) + text_escape_char(cs@[i as int]));
        }
        i = i + 1;
    }
    assert(cs@.take(cs@.len() as int) =~= cs@);
    let trimmed = trim_chars(&out);
    from_chars(&trimmed)
}

/// The entity expansion of one character for XML escaping.
pub open spec fn xml_escape_char(c: char) -> Seq<char> {
    if c == '&' {
        seq!['&', 'a', 'm', 'p', ';']
    } else if c == '<' {
        seq!['&', 'l', 't', ';']
    } else if c == '>' {
        seq!['&', 'g', 't', ';']
    } else if c == '"' {
        seq!['&', 'q', 'u', 'o', 't', ';']
    } else if c == '\'' {
        seq!['&', 'a', 'p', 'o', 's', ';']
    } else {
        seq![c]
    }
}

/// Every character expanded for XML escaping, in order.
pub open spec fn spec_escape_xml(s: Seq<char>) -> Seq<char>
    decreases s.len(),
{
    if s.len() == 0 {
        Seq::<char>::empty()
    } else {
        spec_escape_xml(s.drop_last()) + xml_escape_char(s.last())
    }
}

/// Escape the five XML-significant characters as entities.
pub fn escape_xml(s: &str) -> (r: String)
    ensures
        r@ == spec_escape_xml(s@),
{
    let cs = to_chars(s);
    let mut out: Vec<char> = Vec::new();
    let mut i: usize = 0;
    while i < cs.len()
        invariant
            0 <= i <= cs@.len(),
            out@ == spec_escape_xml(cs@.take(i as int)),
        decreases cs@.len() - i,
    {
        let c = cs[i];
        if c == '&' {
            out.push('&');
            out.push('a');
            out.push('m');
            out.push('p');
            out.push(';');
        } else if c == '<' {
            out.push('&');
            out.push('l');
            out.push('t');
            out.push(';');
        } else if c == '>' {
            out.push('&');
            out.push('g');
            out.push('t');
            out.push(';');
        } else if c == '"' {
            out.push('&');
            out.push('q');
            out.push('u');
            out.push('o');
            out.push('t');
            out.push(';');
        } else if c == '\'' {
            out.push('&');
            out.push('a');
            out.push('p');
            out.push('o');
            out.push('s');
            out.push(';');
        } else {
            out.push(c);
        }
        proof {
            assert(cs@.take(i + 1int).drop_last() =~= cs@.take(i as int));
            assert(cs@.take(i + 1int).last() == cs@[i as int]);
            assert(out@ =~= spec_escape_xml(cs@.take(i as int)) + xml_escape_char(cs@[i as int]));
        }
        i = i + 1;
    }
    assert(cs@.take(cs@.len() as int) =~= cs@);
    from_chars(&out)
}

/// Cut a string down to at most `max_len` characters, ending a shortened
/// string with an ellipsis. Lengths are counted in characters.
pub fn truncate(text: &str, max_len: usize) -> (r: String)
    ensures
        text@.len() <= max_len ==> r@ == text@,
        text@.len() > max_len ==> r@ == text@.take(
            if max_len >= 3 {
                max_len - 3
            } else {
                0
            },
        ) + seq!['.', '.', '.'],
{
    let cs = to_chars(text);
    if cs.len() <= max_len {
        assert(cs@.take(cs@.len() as int) =~= cs@);
        let whole = subrange_chars(&cs, 0, cs.len());
        assert(whole@ =~= cs@);
        from_chars(&whole)
    } else {
        let keep: usize = if max_len >= 3 {
            max_len - 3
        } else {
            0
        };
        let mut head = subrange_chars(&cs, 0, keep);
        head.push('.');
        head.push('.');
        head.push('.');
        assert(head@ =~= cs@.take(keep as int) + seq!['.', '.', '.']);
        from_chars(&head)
    }
}

/// A character that survives filename sanitization.
pub open spec fn fname_keep(c: char) -> bool {
    unicode_alnum(c) || c == '-' || c == '_' || c == ' '
}

pub open spec fn fname_map(c: char) -> char {
    if c == ' ' {
        '-'
    } else {
        c
    }
}

/// The kept-and-mapped characters of a candidate filename, before the final
/// dash trim.
pub open spec fn spec_fname_core(s: Seq<char>) -> Seq<char>
    decreases s.len(),
{
    if s.len() == 0 {
        Seq::<char>::empty()
    } else {
        spec_fname_core(s.drop_last()) + (if fname_keep(s.last()) {
            seq![fname_map(s.last())]
        } else {
            Seq::<char>::empty()
        })
    }
}

/// Keep only alphanumeric characters, dashes, underscores and spaces, turn
/// spaces into dashes, and trim dashes from both ends.
pub fn sanitize_filename(name: &str) -> (r: String)
    ensures
        r@ == spec_trim_pred(spec_fname_core(name@), |c: char| c == '-'),
{
    let cs = to_chars(name);
    let mut out: Vec<char> = Vec::new();
    let mut i: usize = 0;
    while i < cs.len()
        invariant
            0 <= i <= cs@.len(),
            out@ == spec_fname_core(cs@.take(i as int)),
        decreases cs@.len() - i,
    {
        let c = cs[i];
        if is_unicode_alnum(c) || c == '-' || c == '_' || c == ' ' {
            if c == ' ' {
                out.push('-');
            } else {
                out.push(c);
            }
        }
        proof {
            assert(cs@.take(i + 1int).drop_last() =~= cs@.take(i as int));
            assert(cs@.take(i + 1int).last() == cs@[i as int]);
        }
        i = i + 1;
    }
    assert(cs@.take(cs@.len() as int) =~= cs@);
    let trimmed = trim_dashes(&out);
    from_chars(&trimmed)
}

/// Trim leading and trailing dashes.
fn trim_dashes(s: &Vec<char>) -> (r: Vec<char>)
    ensures
        r@ == spec_trim_pred(s@, |c: char| c == '-'),
{
    let mut start: usize = 0;
    while start < s.len() && s[start] == '-'
        invariant
            0 <= start <= s@.len(),
            forall|j: int| 0 <= j < start ==> s@[j] == '-',
        decreases s@.len() - start,
    {
        start = start + 1;
    }
    let mut end: usize = s.len();
    while end > start && s[end - 1] == '-'
        invariant
            start <= end <= s@.len(),
            forall|j: int| 0 <= j < start ==> s@[j] == '-',
            forall|j: int| end <= j < s@.len() ==> s@[j] == '-',
        decreases end,
    {
        end = end - 1;
    }
    let r = subrange_chars(s, start, end);
    proof {
        lemma_trim_pred_subrange(s@, |c: char| c == '-', start as int, end as int);
    }
    r
}

} // verus!
