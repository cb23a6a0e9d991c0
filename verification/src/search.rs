//! The search index's document lifecycle and query plumbing: how a recipe
//! becomes a search document, what a writer session's staged adds and
//! deletes mean for the visible documents once committed, and the
//! pagination arithmetic of query execution. The embedded engine applies
//! the staged operations in order at commit.

use vstd::prelude::*;

verus! {

/// A search query: the unified query string and the requested page.
pub struct SearchQuery {
    pub q: String,
    pub page: usize,
    pub limit: usize,
}

/// One recipe projected into the search schema.
pub struct SearchDoc {
    pub id: i64,
    pub title: String,
    pub summary: Option<String>,
    pub instructions: Option<String>,
    pub servings: Option<i64>,
    pub total_time: Option<i64>,
    pub difficulty: Option<String>,
    pub file_path: Option<String>,
    pub tags: Vec<String>,
    pub ingredients: Vec<String>,
}

/// Build the search document for a recipe: the stored content becomes the
/// searchable instructions; absent fields stay absent.
pub fn build_search_doc(
    id: i64,
    title: String,
    summary: Option<String>,
    content: Option<String>,
    servings: Option<i64>,
    total_time: Option<i64>,
    difficulty: Option<String>,
    file_path: Option<String>,
    tags: Vec<String>,
    ingredients: Vec<String>,
) -> (r: SearchDoc)
    ensures
        r.id == id,
        r.title == title,
        r.summary == summary,
        r.instructions == content,
        r.servings == servings,
        r.total_time == total_time,
        r.difficulty == difficulty,
        r.file_path == file_path,
        r.tags == tags,
        r.ingredients == ingredients,
{
    SearchDoc {
        id,
        title,
        summary,
        instructions: content,
        servings,
        total_time,
        difficulty,
        file_path,
        tags,
        ingredients,
    }
}

/// One staged write of a writer session.
pub enum IndexOp {
    /// Stage a document; nothing is deleted implicitly — an update must
    /// stage its own delete first, or duplicates accumulate.
    Add(SearchDoc),
    /// Stage removal of every document with this exact id.
    Delete(i64),
}

/// The documents that keep an id.
pub open spec fn docs_with_id(docs: Seq<SearchDoc>, id: i64) -> Seq<SearchDoc>
    decreases docs.len(),
{
    if docs.len() == 0 {
        Seq::<SearchDoc>::empty()
    } else {
        docs_with_id(docs.drop_last(), id) + (if docs.last().id == id {
            seq![docs.last()]
        } else {
            Seq::<SearchDoc>::empty()
        })
    }
}

/// The documents that survive deleting an id.
pub open spec fn remove_id(docs: Seq<SearchDoc>, id: i64) -> Seq<SearchDoc>
    decreases docs.len(),
{
    if docs.len() == 0 {
        Seq::<SearchDoc>::empty()
    } else {
        remove_id(docs.drop_last(), id) + (if docs.last().id == id {
            Seq::<SearchDoc>::empty()
        } else {
            seq![docs.last()]
        })
    }
}

/// What one staged operation does to the visible documents.
pub open spec fn apply_op(docs: Seq<SearchDoc>, op: IndexOp) -> Seq<SearchDoc> {
    match op {
        IndexOp::Add(d) => docs.push(d),
        IndexOp::Delete(id) => remove_id(docs, id),
    }
}

/// What a whole staged batch does at commit: the operations apply in the
/// order they were staged.
pub open spec fn apply_ops(docs: Seq<SearchDoc>, ops: Seq<IndexOp>) -> Seq<SearchDoc>
    decreases ops.len(),
{
    if ops.len() == 0 {
        docs
    } else {
        apply_op(apply_ops(docs, ops.drop_last()), ops.last())
    }
}

/// A writer session: the staged operations of one commit cycle, in order.
pub struct WriterSession {
    pub ops: Vec<IndexOp>,
}

impl WriterSession {
    /// An empty session stages nothing.
    pub fn new() -> (r: WriterSession)
        ensures
            r.ops@ =~= Seq::<IndexOp>::empty(),
    {
        WriterSession { ops: Vec::new() }
    }

    /// Stage one document add.
    pub fn stage_add(&mut self, doc: SearchDoc)
        ensures
            final(self).ops@ == old(self).ops@.push(IndexOp::Add(doc)),
    {
        self.ops.push(IndexOp::Add(doc));
    }

    /// Stage removal by exact numeric id.
    pub fn stage_delete(&mut self, id: i64)
        ensures
            final(self).ops@ == old(self).ops@.push(IndexOp::Delete(id)),
    {
        self.ops.push(IndexOp::Delete(id));
    }
}

/// Removing an id twice is the same as removing it once.
proof fn lemma_remove_id_idempotent(docs: Seq<SearchDoc>, id: i64)
    ensures
        remove_id(remove_id(docs, id), id) == remove_id(docs, id),
    decreases docs.len(),
{
    if docs.len() > 0 {
        lemma_remove_id_idempotent(docs.drop_last(), id);
        if docs.last().id == id {
            assert(remove_id(docs, id) =~= remove_id(docs.drop_last(), id));
        } else {
            let prev = remove_id(docs.drop_last(), id);
            assert(remove_id(docs, id) =~= prev.push(docs.last()));
            assert(prev.push(docs.last()).drop_last() =~= prev);
            assert(remove_id(remove_id(docs, id), id) =~= remove_id(prev, id).push(docs.last()));
        }
    }
}

/// No document with the removed id survives.
proof fn lemma_remove_id_clears(docs: Seq<SearchDoc>, id: i64)
    ensures
        docs_with_id(remove_id(docs, id), id) == Seq::<SearchDoc>::empty(),
    decreases docs.len(),
{
    if docs.len() == 0 {
        assert(docs_with_id(remove_id(docs, id), id) =~= Seq::<SearchDoc>::empty());
    } else {
        lemma_remove_id_clears(docs.drop_last(), id);
        if docs.last().id == id {
            assert(remove_id(docs, id) =~= remove_id(docs.drop_last(), id));
        } else {
            let prev = remove_id(docs.drop_last(), id);
            assert(remove_id(docs, id) =~= prev.push(docs.last()));
            assert(prev.push(docs.last()).drop_last() =~= prev);
            assert(docs_with_id(remove_id(docs, id), id) =~= docs_with_id(prev, id));
        }
    }
}

/// The delete-before-add invariant: staging delete-then-add for the same
/// recipe id twice in sequence — as an update cycle does — leaves, once
/// committed, exactly one document with that id, and it carries the latest
/// fields; nothing with the prior fields remains under that id.
pub proof fn lemma_delete_before_add(docs: Seq<SearchDoc>, d1: SearchDoc, d2: SearchDoc, id: i64)
    requires
        d1.id == id,
        d2.id == id,
    ensures
        ({
            let ops = seq![
                IndexOp::Delete(id),
                IndexOp::Add(d1),
                IndexOp::Delete(id),
                IndexOp::Add(d2),
            ];
            let committed = apply_ops(docs, ops);
            &&& committed == remove_id(docs, id).push(d2)
            &&& docs_with_id(committed, id) == seq![d2]
        }),
{
    let ops = seq![IndexOp::Delete(id), IndexOp::Add(d1), IndexOp::Delete(id), IndexOp::Add(d2)];
    let o1 = seq![IndexOp::Delete(id)];
    let o2 = seq![IndexOp::Delete(id), IndexOp::Add(d1)];
    let o3 = seq![IndexOp::Delete(id), IndexOp::Add(d1), IndexOp::Delete(id)];
    assert(ops.drop_last() =~= o3);
    assert(o3.drop_last() =~= o2);
    assert(o2.drop_last() =~= o1);
    assert(o1.drop_last() =~= Seq::<IndexOp>::empty());
    assert(apply_ops(docs, Seq::<IndexOp>::empty()) == docs);
    let after1 = remove_id(docs, id);
    assert(apply_ops(docs, o1) == after1);
    let after2 = after1.push(d1);
    assert(apply_ops(docs, o2) == after2);
    let after3 = remove_id(after2, id);
    assert(apply_ops(docs, o3) == after3);
    assert(after2.drop_last() =~= after1);
    assert(after3 =~= remove_id(after1, id));
    lemma_remove_id_idempotent(docs, id);
    assert(after3 == after1);
    let committed = after3.push(d2);
    assert(apply_ops(docs, ops) == committed);
    lemma_remove_id_clears(docs, id);
    assert(committed.drop_last() =~= after1);
    assert(docs_with_id(committed, id) =~= docs_with_id(after1, id).push(d2));
    assert(docs_with_id(committed, id) =~= seq![d2]);
}

/// The page size actually used: the requested limit clamped to the ceiling.
pub fn clamp_limit(limit: usize, max_limit: usize) -> (r: usize)
    ensures
        r == if limit <= max_limit {
            limit as int
        } else {
            max_limit as int
        },
{
    if limit <= max_limit {
        limit
    } else {
        max_limit
    }
}

/// The offset of a page: pages count from one, and page zero reads as the
/// first.
pub fn page_offset(page: usize, limit: usize) -> (r: usize)
    requires
        (if page == 0 {
            0int
        } else {
            page - 1
        }) * limit <= usize::MAX,
    ensures
        r == (if page == 0 {
            0int
        } else {
            page - 1
        }) * limit,
{
    let p = if page == 0 {
        0
    } else {
        page - 1
    };
    assert(p == (if page == 0 {
        0int
    } else {
        page - 1
    }));
    p * limit
}

/// The number of pages that cover `total` results at `limit` per page: the
/// ceiling of their quotient.
pub fn total_pages(total: usize, limit: usize) -> (r: usize)
    requires
        limit > 0,
    ensures
        r == total as int / limit as int + (if total as int % limit as int == 0 {
            0int
        } else {
            1int
        }),
        r * limit >= total,
{
    let q = total / limit;
    let rem = total % limit;
    proof {
        vstd::arithmetic::div_mod::lemma_fundamental_div_mod(total as int, limit as int);
    }
    if rem == 0 {
        proof {
            assert(q * limit >= total) by (nonlinear_arith)
                requires
                    limit > 0,
                    q >= 0,
                    total == limit * q + rem,
                    rem == 0,
            ;
        }
        q
    } else {
        proof {
            assert(limit >= 2 && rem >= 1);
            assert(q + 1 <= usize::MAX && (q + 1) * limit >= total) by (nonlinear_arith)
                requires
                    limit >= 2,
                    q >= 0,
                    total == limit * q + rem,
                    1 <= rem < limit,
                    total <= usize::MAX,
            ;
        }
        q + 1
    }
}

} // verus!
