//! Targeted text scanning of a raw feed document for the vendor-specific
//! image element, keyed by entry identifier: general feed parsers ignore
//! unknown namespaces and do not surface it.

use vstd::prelude::*;

use crate::text::{
    find_at, find_sub, from_chars, lemma_find_at_props, matches_at, spec_utrim, subrange_chars,
    to_chars, utrim_chars, chars_eq,
};

verus! {

broadcast use vstd::string::group_string_axioms;

/// The first tagged value in `block` at or after `from`: an occurrence of
/// the opening tag — followed, when `attrs` is set, by anything up to a
/// closing angle bracket — then a non-empty run without an angle bracket,
/// then the closing tag. A near miss retries after the opening occurrence.
pub open spec fn find_tagged(
    block: Seq<char>,
    opening: Seq<char>,
    closing: Seq<char>,
    attrs: bool,
    from: int,
) -> Option<Seq<char>>
    decreases block.len() - from,
        when 0 <= from <= block.len()
{
    match find_at(block, opening, from) {
        Option::None => Option::None,
        Option::Some(o) => {
            if o < from || o + 1 > block.len() {
                Option::None
            } else {
                let cstart = if attrs {
                    match find_at(block, seq!['>'], o + opening.len()) {
                        Option::None => block.len() as int + 1,
                        Option::Some(h) => h + 1,
                    }
                } else {
                    o + opening.len()
                };
                if cstart > block.len() {
                    Option::None
                } else {
                    let m = match find_at(block, seq!['<'], cstart) {
                        Option::None => block.len() as int,
                        Option::Some(j) => j,
                    };
                    if m > cstart && matches_at(block, closing, m) {
                        Option::Some(block.subrange(cstart, m))
                    } else {
                        find_tagged(block, opening, closing, attrs, o + 1)
                    }
                }
            }
        },
    }
}

/// One scanned block's contribution: a pair of trimmed identifier and
/// trimmed image, when the block carries both.
pub open spec fn block_pair(
    block: Seq<char>,
    id_open: Seq<char>,
    id_close: Seq<char>,
    id_attrs: bool,
) -> Seq<(Seq<char>, Seq<char>)> {
    match (
        find_tagged(block, id_open, id_close, id_attrs, 0),
        find_tagged(block, image_open(), image_close(), false, 0),
    ) {
        (Option::Some(idv), Option::Some(img)) => seq![(spec_utrim(idv), spec_utrim(img))],
        _ => Seq::<(Seq<char>, Seq<char>)>::empty(),
    }
}

pub open spec fn image_open() -> Seq<char> {
    seq!['<', 'c', 'o', 'o', 'k', 'l', 'a', 'n', 'g', ':', 'i', 'm', 'a', 'g', 'e', '>']
}

pub open spec fn image_close() -> Seq<char> {
    seq!['<', '/', 'c', 'o', 'o', 'k', 'l', 'a', 'n', 'g', ':', 'i', 'm', 'a', 'g', 'e', '>']
}

/// All identifier/image pairs of the document's blocks of one kind, in
/// order: each block opens with its tag (attributes allowed up to the
/// closing angle), runs to the nearest end tag, and scanning resumes after
/// it.
pub open spec fn scan_blocks(
    s: Seq<char>,
    i: int,
    block_open: Seq<char>,
    block_close: Seq<char>,
    id_open: Seq<char>,
    id_close: Seq<char>,
    id_attrs: bool,
) -> Seq<(Seq<char>, Seq<char>)>
    decreases s.len() - i,
        when 0 <= i <= s.len()
{
    match find_at(s, block_open, i) {
        Option::None => Seq::<(Seq<char>, Seq<char>)>::empty(),
        Option::Some(t) => {
            match find_at(s, seq!['>'], t + block_open.len()) {
                Option::None => Seq::<(Seq<char>, Seq<char>)>::empty(),
                Option::Some(g) => {
                    match find_at(s, block_close, g + 1) {
                        Option::None => Seq::<(Seq<char>, Seq<char>)>::empty(),
                        Option::Some(e) => {
                            if e + block_close.len() > s.len() || e + block_close.len() <= i || g
                                + 1 > e {
                                Seq::<(Seq<char>, Seq<char>)>::empty()
                            } else {
                                block_pair(s.subrange(g + 1, e), id_open, id_close, id_attrs)
                                    + scan_blocks(
                                    s,
                                    e + block_close.len(),
                                    block_open,
                                    block_close,
                                    id_open,
                                    id_close,
                                    id_attrs,
                                )
                            }
                        },
                    }
                },
            }
        },
    }
}

/// The vendor image pairs of a whole document: entry-style blocks keyed by
/// their exact identifier element, then item-style blocks keyed by their
/// attribute-bearing identifier element. A later pair for the same key
/// wins.
pub open spec fn spec_cooklang_images(s: Seq<char>) -> Seq<(Seq<char>, Seq<char>)> {
    scan_blocks(s, 0, "<entry"@, "</entry>"@, "<id>"@, "</id>"@, false) + scan_blocks(
        s,
        0,
        "<item"@,
        "</item>"@,
        "<guid"@,
        "</guid>"@,
        true,
    )
}

/// Find the first tagged value in a block.
fn find_tagged_exec(
    block: &Vec<char>,
    opening: &Vec<char>,
    closing: &Vec<char>,
    attrs: bool,
) -> (r: Option<Vec<char>>)
    requires
        opening@.len() > 0,
    ensures
        r is Some <==> find_tagged(block@, opening@, closing@, attrs, 0) is Some,
        r matches Some(v) ==> v@ == find_tagged(block@, opening@, closing@, attrs, 0)->Some_0,
{
    let n = block.len();
    let mut lt: Vec<char> = Vec::new();
    lt.push('<');
    assert(lt@ =~= seq!['<']);
    let mut gt: Vec<char> = Vec::new();
    gt.push('>');
    assert(gt@ =~= seq!['>']);
    let mut from: usize = 0;
    loop
        invariant
            0 <= from <= block@.len(),
            block@.len() == n,
            opening@.len() > 0,
            lt@ == seq!['<'],
            gt@ == seq!['>'],
            find_tagged(block@, opening@, closing@, attrs, 0) == find_tagged(
                block@,
                opening@,
                closing@,
                attrs,
                from as int,
            ),
        decreases block@.len() - from,
    {
        let o = match find_sub(block, opening, from) {
            None => {
                return None;
            },
            Some(o) => o,
        };
        proof {
            lemma_find_at_props(block@, opening@, from as int);
        }
        assert(o >= from && o + opening@.len() <= block@.len());
        assert(o + 1 <= block@.len());
        let after_open = o + opening.len();
        let cstart_opt: Option<usize> = if attrs {
            match find_sub(block, &gt, after_open) {
                None => None,
                Some(h) => {
                    proof {
                        lemma_find_at_props(block@, seq!['>'], after_open as int);
                    }
                    Some(h + 1)
                },
            }
        } else {
            Some(after_open)
        };
        let cstart = match cstart_opt {
            None => {
                return None;
            },
            Some(c) => c,
        };
        assert(cstart <= block@.len());
        let m = match find_sub(block, &lt, cstart) {
            None => n,
            Some(j) => j,
        };
        if m > cstart && crate::text::occurs_at(block, closing, m) {
            let v = subrange_chars(block, cstart, m);
            assert(v@ == find_tagged(block@, opening@, closing@, attrs, from as int)->Some_0);
            return Some(v);
        }
        assert(find_tagged(block@, opening@, closing@, attrs, from as int) == find_tagged(
            block@,
            opening@,
            closing@,
            attrs,
            o + 1int,
        ));
        from = o + 1;
    }
}

/// Scan one kind of block through the document, collecting its pairs.
fn scan_blocks_exec(
    s: &Vec<char>,
    block_open: &Vec<char>,
    block_close: &Vec<char>,
    id_open: &Vec<char>,
    id_close: &Vec<char>,
    id_attrs: bool,
) -> (r: Vec<(String, String)>)
    requires
        block_open@.len() > 0,
        block_close@.len() > 0,
        id_open@.len() > 0,
    ensures
        r@.map_values(|p: (String, String)| (p.0@, p.1@)) == scan_blocks(
            s@,
            0,
            block_open@,
            block_close@,
            id_open@,
            id_close@,
            id_attrs,
        ),
{
    let ghost whole = scan_blocks(s@, 0, block_open@, block_close@, id_open@, id_close@, id_attrs);
    let n = s.len();
    let img_open = to_chars("<cooklang:image>");
    let img_close = to_chars("</cooklang:image>");
    proof {
        reveal_strlit("<cooklang:image>");
        reveal_strlit("</cooklang:image>");
        assert(img_open@ =~= image_open());
        assert(img_close@ =~= image_close());
    }
    let mut gt: Vec<char> = Vec::new();
    gt.push('>');
    assert(gt@ =~= seq!['>']);
    let mut out: Vec<(String, String)> = Vec::new();
    let mut i: usize = 0;
    loop
        invariant
            0 <= i <= s@.len(),
            s@.len() == n,
            block_open@.len() > 0,
            block_close@.len() > 0,
            id_open@.len() > 0,
            gt@ == seq!['>'],
            img_open@ == image_open(),
            img_open@.len() > 0,
            img_close@ == image_close(),
            whole == scan_blocks(s@, 0, block_open@, block_close@, id_open@, id_close@, id_attrs),
            whole =~= out@.map_values(|p: (String, String)| (p.0@, p.1@)) + scan_blocks(
                s@,
                i as int,
                block_open@,
                block_close@,
                id_open@,
                id_close@,
                id_attrs,
            ),
        ensures
            whole =~= out@.map_values(|p: (String, String)| (p.0@, p.1@)),
        decreases s@.len() - i,
    {
        let t = match find_sub(s, block_open, i) {
            None => {
                break ;
            },
            Some(t) => t,
        };
        proof {
            lemma_find_at_props(s@, block_open@, i as int);
        }
        let g = match find_sub(s, &gt, t + block_open.len()) {
            None => {
                break ;
            },
            Some(g) => g,
        };
        proof {
            lemma_find_at_props(s@, seq!['>'], t + block_open.len());
        }
        let e = match find_sub(s, block_close, g + 1) {
            None => {
                break ;
            },
            Some(e) => e,
        };
        proof {
            lemma_find_at_props(s@, block_close@, g + 1int);
        }
        assert(t >= i && t + block_open@.len() <= s@.len());
        assert(g >= t + block_open@.len() && g + 1 <= s@.len());
        assert(e >= g + 1 && e + block_close@.len() <= s@.len());
        let block = subrange_chars(s, g + 1, e);
        assert(block@ == s@.subrange(g + 1int, e as int));
        let ghost before = out@.map_values(|p: (String, String)| (p.0@, p.1@));
        let idv = find_tagged_exec(&block, id_open, id_close, id_attrs);
        let img = find_tagged_exec(&block, &img_open, &img_close, false);
        match (idv, img) {
            (Some(idv), Some(img)) => {
                let id_t = utrim_chars(&idv);
                let img_t = utrim_chars(&img);
                out.push((from_chars(&id_t), from_chars(&img_t)));
                proof {
                    assert(out@.map_values(|p: (String, String)| (p.0@, p.1@)) =~= before.push(
                        (id_t@, img_t@),
                    ));
                    assert(block_pair(block@, id_open@, id_close@, id_attrs) =~= seq![
                        (id_t@, img_t@),
                    ]);
                }
            },
            _ => {
                proof {
                    assert(block_pair(block@, id_open@, id_close@, id_attrs)
                        =~= Seq::<(Seq<char>, Seq<char>)>::empty());
                }
            },
        }
        i = e + block_close.len();
    }
    out
}

/// Extract every vendor image element of a raw feed document, keyed by the
/// entry identifier of its block.
pub fn extract_cooklang_images(content: &str) -> (r: Vec<(String, String)>)
    ensures
        r@.map_values(|p: (String, String)| (p.0@, p.1@)) == spec_cooklang_images(content@),
{
    let cs = to_chars(content);
    let entry_open = to_chars("<entry");
    let entry_close = to_chars("</entry>");
    let id_open = to_chars("<id>");
    let id_close = to_chars("</id>");
    let item_open = to_chars("<item");
    let item_close = to_chars("</item>");
    let guid_open = to_chars("<guid");
    let guid_close = to_chars("</guid>");
    proof {
        reveal_strlit("<entry");
        reveal_strlit("</entry>");
        reveal_strlit("<id>");
        reveal_strlit("<item");
        reveal_strlit("</item>");
        reveal_strlit("<guid");
        assert("<entry"@.len() == 6 && "</entry>"@.len() == 8 && "<id>"@.len() == 4);
        assert("<item"@.len() == 5 && "</item>"@.len() == 7 && "<guid"@.len() == 5);
    }
    let mut out = scan_blocks_exec(&cs, &entry_open, &entry_close, &id_open, &id_close, false);
    let more = scan_blocks_exec(&cs, &item_open, &item_close, &guid_open, &guid_close, true);
    let ghost first = out@.map_values(|p: (String, String)| (p.0@, p.1@));
    let ghost second = more@.map_values(|p: (String, String)| (p.0@, p.1@));
    let mut k: usize = 0;
    while k < more.len()
        invariant
            0 <= k <= more@.len(),
            second == more@.map_values(|p: (String, String)| (p.0@, p.1@)),
            out@.map_values(|p: (String, String)| (p.0@, p.1@)) =~= first + second.take(k as int),
        decreases more@.len() - k,
    {
        let ghost sofar = out@.map_values(|p: (String, String)| (p.0@, p.1@));
        out.push((more[k].0.clone(), more[k].1.clone()));
        proof {
            assert(out@.map_values(|p: (String, String)| (p.0@, p.1@)) =~= sofar.push(
                (more@[k as int].0@, more@[k as int].1@),
            ));
            assert(second.take(k + 1int) =~= second.take(k as int).push(second[k as int]));
        }
        k = k + 1;
    }
    assert(second.take(second.len() as int) =~= second);
    out
}

/// The image recorded for a key, with a later pair overriding an earlier
/// one.
pub open spec fn lookup_last(pairs: Seq<(Seq<char>, Seq<char>)>, key: Seq<char>) -> Option<
    Seq<char>,
>
    decreases pairs.len(),
{
    if pairs.len() == 0 {
        Option::None
    } else if pairs.last().0 == key {
        Option::Some(pairs.last().1)
    } else {
        lookup_last(pairs.drop_last(), key)
    }
}

/// Look up the vendor image recorded for an entry identifier.
pub fn cooklang_image_for(images: &Vec<(String, String)>, id: &str) -> (r: Option<String>)
    ensures
        r is Some <==> lookup_last(
            images@.map_values(|p: (String, String)| (p.0@, p.1@)),
            id@,
        ) is Some,
        r matches Some(v) ==> v@ == lookup_last(
            images@.map_values(|p: (String, String)| (p.0@, p.1@)),
            id@,
        )->Some_0,
{
    let idc = to_chars(id);
    let ghost mapped = images@.map_values(|p: (String, String)| (p.0@, p.1@));
    let mut k: usize = images.len();
    assert(mapped.take(images@.len() as int) =~= mapped);
    while k > 0
        invariant
            0 <= k <= images@.len(),
            idc@ == id@,
            mapped == images@.map_values(|p: (String, String)| (p.0@, p.1@)),
            lookup_last(mapped, id@) == lookup_last(mapped.take(k as int), id@),
        decreases k,
    {
        proof {
            assert(mapped.take(k as int).drop_last() =~= mapped.take(k - 1int));
            assert(mapped.take(k as int).last() == mapped[k - 1int]);
        }
        let cand = to_chars(images[k - 1].0.as_str());
        if chars_eq(&cand, &idc) {
            assert(mapped[k - 1int].0 == id@);
            return Some(images[k - 1].1.clone());
        }
        assert(mapped[k - 1int].0 != id@);
        k = k - 1;
    }
    assert(mapped.take(0int) =~= Seq::<(Seq<char>, Seq<char>)>::empty());
    None
}

} // verus!
