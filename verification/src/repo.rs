//! Repository tree diffing: decide when a repository needs reindexing at
//! all, which tree entries are recipe files, which files have changed since
//! the stored blob digests, where their raw content and page URLs live, and
//! which sibling file serves as a recipe's image. Downloads and the search
//! commit are driven by the caller from these decisions; the stored commit
//! digest advances only after the batch commit.

use vstd::prelude::*;

use crate::text::{
    append_chars, ends_with, from_chars, spec_ends_with, str_eq, subrange_chars, to_chars,
    chars_eq,
};

verus! {

/// One entry of a repository's recursive file tree.
pub struct TreeEntryData {
    pub path: String,
    pub sha: String,
    pub entry_type: String,
}

/// A recipe file selected for processing.
pub struct RecipeFile {
    pub path: String,
    pub sha: String,
}

/// A tree entry that holds recipe markup: a blob whose path ends in the
/// recipe extension.
pub open spec fn is_recipe_entry(e: TreeEntryData) -> bool {
    e.entry_type@ == "blob"@ && spec_ends_with(e.path@, ".cook"@)
}

/// The recipe files of a tree, in tree order.
pub open spec fn spec_recipe_files(tree: Seq<TreeEntryData>) -> Seq<RecipeFile>
    decreases tree.len(),
{
    if tree.len() == 0 {
        Seq::<RecipeFile>::empty()
    } else {
        spec_recipe_files(tree.drop_last()) + (if is_recipe_entry(tree.last()) {
            seq![RecipeFile { path: tree.last().path, sha: tree.last().sha }]
        } else {
            Seq::<RecipeFile>::empty()
        })
    }
}

/// Whether a repository must be reindexed: only when the latest commit
/// digest differs from the stored one.
pub open spec fn spec_needs_reindex(stored: Option<Seq<char>>, latest: Seq<char>) -> bool {
    stored != Option::Some(latest)
}

/// The repository no-op guard: when the remote branch's latest commit
/// digest equals the stored one, the plan selects nothing — no file is
/// downloaded and nothing is written to the search index.
pub fn plan_repository(
    stored_sha: Option<&String>,
    latest_sha: &String,
    tree: &Vec<TreeEntryData>,
) -> (r: Option<Vec<RecipeFile>>)
    ensures
        r is Some <==> spec_needs_reindex(
            match stored_sha {
                Option::Some(s) => Option::Some(s@),
                Option::None => Option::None,
            },
            latest_sha@,
        ),
        r matches Some(files) ==> files@ == spec_recipe_files(tree@),
{
    if let Some(stored) = stored_sha {
        if str_eq(stored.as_str(), latest_sha.as_str()) {
            assert(stored@ == latest_sha@);
            return None;
        }
    }
    let mut files: Vec<RecipeFile> = Vec::new();
    let cook = to_chars(".cook");
    let mut i: usize = 0;
    while i < tree.len()
        invariant
            0 <= i <= tree@.len(),
            cook@ == ".cook"@,
            files@ == spec_recipe_files(tree@.take(i as int)),
        decreases tree@.len() - i,
    {
        let e = &tree[i];
        proof {
            assert(tree@.take(i + 1int).drop_last() =~= tree@.take(i as int));
            assert(tree@.take(i + 1int).last() == tree@[i as int]);
        }
        let path_chars = to_chars(e.path.as_str());
        let ghost oldfiles = files@;
        if str_eq(e.entry_type.as_str(), "blob") && ends_with(&path_chars, &cook) {
            assert(is_recipe_entry(tree@[i as int]));
            files.push(RecipeFile { path: e.path.clone(), sha: e.sha.clone() });
            proof {
                assert(tree@.take(i + 1int).drop_last() =~= tree@.take(i as int));
                assert(files@.last() == RecipeFile {
                    path: tree@[i as int].path,
                    sha: tree@[i as int].sha,
                });
                assert(files@ =~= spec_recipe_files(tree@.take(i + 1int)));
            }
        } else {
            assert(!is_recipe_entry(tree@[i as int]));
            proof {
                assert(spec_recipe_files(tree@.take(i + 1int)) =~= spec_recipe_files(
                    tree@.take(i as int),
                ));
            }
        }
        i = i + 1;
    }
    assert(tree@.take(tree@.len() as int) =~= tree@);
    Some(files)
}

/// Whether one file must be downloaded: only when its blob digest differs
/// from the stored one for that path.
pub fn file_needs_download(stored_sha: Option<&String>, file_sha: &String) -> (r: bool)
    ensures
        r == (match stored_sha {
            Option::Some(s) => s@ != file_sha@,
            Option::None => true,
        }),
{
    match stored_sha {
        Some(s) => !str_eq(s.as_str(), file_sha.as_str()),
        None => true,
    }
}

/// The CDN-style raw-content URL of a file at a branch, which does not
/// count against the API rate budget.
pub open spec fn spec_raw_url(
    owner: Seq<char>,
    repo: Seq<char>,
    branch: Seq<char>,
    path: Seq<char>,
) -> Seq<char> {
    "https://raw.githubusercontent.com/"@ + owner + "/"@ + repo + "/"@ + branch + "/"@ + path
}

/// Build the raw-content URL for a file.
pub fn raw_content_url(owner: &str, repo: &str, branch: &str, path: &str) -> (r: String)
    ensures
        r@ == spec_raw_url(owner@, repo@, branch@, path@),
{
    let mut out = to_chars("https://raw.githubusercontent.com/");
    let slash = to_chars("/");
    let o = to_chars(owner);
    let rp = to_chars(repo);
    let b = to_chars(branch);
    let p = to_chars(path);
    append_chars(&mut out, &o);
    append_chars(&mut out, &slash);
    append_chars(&mut out, &rp);
    append_chars(&mut out, &slash);
    append_chars(&mut out, &b);
    append_chars(&mut out, &slash);
    append_chars(&mut out, &p);
    from_chars(&out)
}

/// The web page URL of a file at a branch.
pub open spec fn spec_html_url(
    owner: Seq<char>,
    repo: Seq<char>,
    branch: Seq<char>,
    path: Seq<char>,
) -> Seq<char> {
    "https://github.com/"@ + owner + "/"@ + repo + "/blob/"@ + branch + "/"@ + path
}

/// Build the web page URL for a file.
pub fn html_url(owner: &str, repo: &str, branch: &str, path: &str) -> (r: String)
    ensures
        r@ == spec_html_url(owner@, repo@, branch@, path@),
{
    let mut out = to_chars("https://github.com/");
    let slash = to_chars("/");
    let blob = to_chars("/blob/");
    let o = to_chars(owner);
    let rp = to_chars(repo);
    let b = to_chars(branch);
    let p = to_chars(path);
    append_chars(&mut out, &o);
    append_chars(&mut out, &slash);
    append_chars(&mut out, &rp);
    append_chars(&mut out, &blob);
    append_chars(&mut out, &b);
    append_chars(&mut out, &slash);
    append_chars(&mut out, &p);
    from_chars(&out)
}

/// The last path segment of a file path.
pub open spec fn last_segment(path: Seq<char>) -> Seq<char> {
    last_segment_from(path, path.len() as int)
}

/// The segment ending at `end`, scanning back to the nearest separator.
pub open spec fn last_segment_from(path: Seq<char>, end: int) -> Seq<char>
    decreases end,
{
    if end <= 0 {
        path
    } else if path[end - 1] == '/' {
        path.subrange(end, path.len() as int)
    } else {
        last_segment_from(path, end - 1)
    }
}

/// A recipe's title, derived from its file name: the last path segment with
/// the recipe extension removed, or the whole path when the extension is
/// missing.
pub open spec fn spec_title_from_path(path: Seq<char>) -> Seq<char> {
    let name = last_segment(path);
    if spec_ends_with(name, ".cook"@) {
        name.take(name.len() - 5)
    } else {
        path
    }
}

/// Derive a recipe title from its file path.
pub fn title_from_path(path: &str) -> (r: String)
    ensures
        r@ == spec_title_from_path(path@),
{
    let cs = to_chars(path);
    let mut end: usize = cs.len();
    while end > 0 && cs[end - 1] != '/'
        invariant
            0 <= end <= cs@.len(),
            last_segment_from(cs@, cs@.len() as int) == last_segment_from(cs@, end as int),
        decreases end,
    {
        end = end - 1;
    }
    let name = subrange_chars(&cs, end, cs.len());
    proof {
        if end == 0 {
            assert(last_segment_from(cs@, 0) =~= cs@.subrange(0, cs@.len() as int));
            assert(name@ =~= last_segment(cs@));
        } else {
            assert(cs@[end - 1] == '/');
            assert(last_segment_from(cs@, end as int) == cs@.subrange(end as int, cs@.len() as int));
            assert(name@ =~= last_segment(cs@));
        }
    }
    let cook = to_chars(".cook");
    proof {
        reveal_strlit(".cook");
    }
    if ends_with(&name, &cook) {
        let trimmed = subrange_chars(&name, 0, name.len() - 5);
        assert(trimmed@ =~= last_segment(cs@).take(last_segment(cs@).len() - 5));
        from_chars(&trimmed)
    } else {
        let whole = subrange_chars(&cs, 0, cs.len());
        assert(whole@ =~= cs@);
        from_chars(&whole)
    }
}

/// The image extensions tried, in order, for a sibling image file.
pub open spec fn image_exts() -> Seq<Seq<char>> {
    seq![".jpg"@, ".jpeg"@, ".png"@, ".webp"@, ".gif"@]
}

/// Whether some tree entry has exactly this path.
pub open spec fn tree_has_path(tree: Seq<TreeEntryData>, path: Seq<char>) -> bool {
    exists|k: int| 0 <= k < tree.len() && #[trigger] tree[k].path@ == path
}

/// The candidate image path for a recipe base name and extension index, and
/// the first extension (in order) whose candidate exists in the tree.
pub open spec fn spec_image_pick(tree: Seq<TreeEntryData>, base: Seq<char>, i: int) -> Option<
    Seq<char>,
>
    decreases image_exts().len() - i,
{
    if i < 0 || i >= image_exts().len() {
        Option::None
    } else if tree_has_path(tree, base + image_exts()[i]) {
        Option::Some(base + image_exts()[i])
    } else {
        spec_image_pick(tree, base, i + 1)
    }
}

/// The image adopted for a recipe: the first same-basename file across the
/// fixed extension list that exists in the tree, as a raw-content URL; none
/// when the path lacks the recipe extension or no sibling image exists.
pub open spec fn spec_find_recipe_image(
    path: Seq<char>,
    tree: Seq<TreeEntryData>,
    owner: Seq<char>,
    repo: Seq<char>,
    branch: Seq<char>,
) -> Option<Seq<char>> {
    if !spec_ends_with(path, ".cook"@) {
        Option::None
    } else {
        match spec_image_pick(tree, path.take(path.len() - 5), 0) {
            Option::Some(img) => Option::Some(spec_raw_url(owner, repo, branch, img)),
            Option::None => Option::None,
        }
    }
}

/// Whether the tree holds an entry with exactly this path.
fn tree_contains_path(tree: &Vec<TreeEntryData>, path: &Vec<char>) -> (r: bool)
    ensures
        r == tree_has_path(tree@, path@),
{
    let mut k: usize = 0;
    while k < tree.len()
        invariant
            0 <= k <= tree@.len(),
            forall|j: int| 0 <= j < k ==> #[trigger] tree@[j].path@ != path@,
        decreases tree@.len() - k,
    {
        let pc = to_chars(tree[k].path.as_str());
        if chars_eq(&pc, path) {
            assert(tree@[k as int].path@ == path@);
            return true;
        }
        k = k + 1;
    }
    false
}

/// Find a sibling image for a recipe file: the same base name with one of
/// the recognized image extensions, turned into its raw-content URL.
pub fn find_recipe_image(
    recipe_path: &str,
    tree: &Vec<TreeEntryData>,
    owner: &str,
    repo: &str,
    branch: &str,
) -> (r: Option<String>)
    ensures
        r is Some <==> spec_find_recipe_image(recipe_path@, tree@, owner@, repo@, branch@)
            is Some,
        r is Some ==> r->Some_0@ == spec_find_recipe_image(
            recipe_path@,
            tree@,
            owner@,
            repo@,
            branch@,
        )->Some_0,
{
    let cs = to_chars(recipe_path);
    let cook = to_chars(".cook");
    proof {
        reveal_strlit(".cook");
    }
    if !ends_with(&cs, &cook) {
        return None;
    }
    let base = subrange_chars(&cs, 0, cs.len() - 5);
    assert(base@ =~= recipe_path@.take(recipe_path@.len() - 5));

    let e1 = to_chars(".jpg");
    let e2 = to_chars(".jpeg");
    let e3 = to_chars(".png");
    let e4 = to_chars(".webp");
    let e5 = to_chars(".gif");

    let mut cand = subrange_chars(&base, 0, base.len());
    append_chars(&mut cand, &e1);
    assert(cand@ =~= base@ + image_exts()[0]);
    if tree_contains_path(tree, &cand) {
        let c = from_chars(&cand);
        let url = raw_content_url(owner, repo, branch, c.as_str());
        return Some(url);
    }
    assert(spec_image_pick(tree@, base@, 0) == spec_image_pick(tree@, base@, 1));
    let mut cand = subrange_chars(&base, 0, base.len());
    append_chars(&mut cand, &e2);
    assert(cand@ =~= base@ + image_exts()[1]);
    if tree_contains_path(tree, &cand) {
        let c = from_chars(&cand);
        let url = raw_content_url(owner, repo, branch, c.as_str());
        return Some(url);
    }
    assert(spec_image_pick(tree@, base@, 1) == spec_image_pick(tree@, base@, 2));
    let mut cand = subrange_chars(&base, 0, base.len());
    append_chars(&mut cand, &e3);
    assert(cand@ =~= base@ + image_exts()[2]);
    if tree_contains_path(tree, &cand) {
        let c = from_chars(&cand);
        let url = raw_content_url(owner, repo, branch, c.as_str());
        return Some(url);
    }
    assert(spec_image_pick(tree@, base@, 2) == spec_image_pick(tree@, base@, 3));
    let mut cand = subrange_chars(&base, 0, base.len());
    append_chars(&mut cand, &e4);
    assert(cand@ =~= base@ + image_exts()[3]);
    if tree_contains_path(tree, &cand) {
        let c = from_chars(&cand);
        let url = raw_content_url(owner, repo, branch, c.as_str());
        return Some(url);
    }
    assert(spec_image_pick(tree@, base@, 3) == spec_image_pick(tree@, base@, 4));
    let mut cand = subrange_chars(&base, 0, base.len());
    append_chars(&mut cand, &e5);
    assert(cand@ =~= base@ + image_exts()[4]);
    if tree_contains_path(tree, &cand) {
        let c = from_chars(&cand);
        let url = raw_content_url(owner, repo, branch, c.as_str());
        return Some(url);
    }
    assert(spec_image_pick(tree@, base@, 4) == spec_image_pick(tree@, base@, 5));
    None
}

/// The repository no-op guard, stated on its own: when the stored commit
/// digest equals the latest one, the repository plan is empty — zero file
/// downloads and zero search-index writes follow.
pub proof fn lemma_repo_noop_guard(stored: Seq<char>, latest: Seq<char>)
    requires
        stored == latest,
    ensures
        !spec_needs_reindex(Option::Some(stored), latest),
{
}

} // verus!
