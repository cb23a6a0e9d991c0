use federation::search::{build_search_doc, clamp_limit, page_offset, total_pages, IndexOp,
    SearchDoc, WriterSession};

fn doc(id: i64, title: &str) -> SearchDoc {
    build_search_doc(
        id,
        title.to_string(),
        Some("summary".to_string()),
        Some("body".to_string()),
        Some(4),
        Some(30),
        Some("easy".to_string()),
        None,
        vec!["dessert".to_string()],
        vec!["flour".to_string()],
    )
}

/// What the engine's commit makes visible: staged operations applied in
/// order, where a delete removes every document with the id and an add
/// appends.
fn apply(ops: &[IndexOp], docs: Vec<SearchDoc>) -> Vec<SearchDoc> {
    let mut out = docs;
    for op in ops {
        match op {
            IndexOp::Delete(id) => {
                out.retain(|d| d.id != *id);
            },
            IndexOp::Add(d) => {
                out.push(doc_copy(d));
            },
        }
    }
    out
}

fn doc_copy(d: &SearchDoc) -> SearchDoc {
    build_search_doc(
        d.id,
        d.title.clone(),
        d.summary.clone(),
        d.instructions.clone(),
        d.servings,
        d.total_time,
        d.difficulty.clone(),
        d.file_path.clone(),
        d.tags.clone(),
        d.ingredients.clone(),
    )
}

#[test]
fn delete_before_add_leaves_one_document() {
    // Indexing the same recipe id twice, with an explicit delete before
    // each add, leaves exactly one document: the latest, under its latest
    // title, and none under the prior title.
    let mut session = WriterSession::new();
    session.stage_delete(123);
    session.stage_add(doc(123, "UniqueTestRecipe12345"));
    session.stage_delete(123);
    session.stage_add(doc(123, "UpdatedUniqueTestRecipe12345"));
    let committed = apply(&session.ops, vec![doc(7, "Other")]);
    let with_id: Vec<&SearchDoc> = committed.iter().filter(|d| d.id == 123).collect();
    assert_eq!(with_id.len(), 1);
    assert_eq!(with_id[0].title, "UpdatedUniqueTestRecipe12345");
    assert!(committed.iter().all(|d| d.title != "UniqueTestRecipe12345"));
    assert_eq!(committed.len(), 2);
}

#[test]
fn add_without_delete_accumulates() {
    // Staging an add without a preceding delete duplicates the document:
    // updates must delete by id first.
    let mut session = WriterSession::new();
    session.stage_add(doc(123, "Twice"));
    session.stage_add(doc(123, "Twice"));
    let committed = apply(&session.ops, Vec::new());
    assert_eq!(committed.iter().filter(|d| d.id == 123).count(), 2);
}

#[test]
fn search_document_fields() {
    let d = doc(9, "Pie");
    assert_eq!(d.id, 9);
    assert_eq!(d.title, "Pie");
    assert_eq!(d.instructions, Some("body".to_string()));
    assert_eq!(d.servings, Some(4));
    assert_eq!(d.total_time, Some(30));
    assert_eq!(d.tags, vec!["dessert".to_string()]);
}

#[test]
fn pagination_arithmetic() {
    assert_eq!(clamp_limit(50, 20), 20);
    assert_eq!(clamp_limit(10, 20), 10);
    assert_eq!(page_offset(1, 20), 0);
    assert_eq!(page_offset(3, 20), 40);
    assert_eq!(page_offset(0, 20), 0);
    assert_eq!(total_pages(45, 20), 3);
    assert_eq!(total_pages(40, 20), 2);
    assert_eq!(total_pages(0, 20), 0);
    assert_eq!(total_pages(1, 20), 1);
}
