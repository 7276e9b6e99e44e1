use cpbench_core::catalog::{Catalog, CatalogError};
use cpbench_core::commands::{create_problem, get_string_of_doc, load_document};
use cpbench_core::document::{encode_patch, patched_text, DocError, DocumentRepo};
use cpbench_core::ingest::WorkbenchError;
use cpbench_core::params::{CreateProblemParams, CreateSolutionParams};

fn params_with_code(code: Option<&str>) -> CreateProblemParams {
    CreateProblemParams {
        name: "A".to_string(),
        description: None,
        url: None,
        statement: None,
        checker: Some("ncmp".to_string()),
        time_limit: 1000,
        memory_limit: 256,
        initial_solution: Some(CreateSolutionParams {
            name: "A".to_string(),
            author: Some("me".to_string()),
            language: "cpp 17".to_string(),
            content: code.map(|c| c.to_string()),
        }),
    }
}

/// A catalog holding one problem whose solution document holds `text`.
fn catalog_with_document(text: &str) -> (Catalog, String) {
    let mut catalog = Catalog::new();
    catalog.create_problem(params_with_code(Some(text)));
    let id = catalog.problems[0].solutions[0].document_id.clone();
    (catalog, id)
}

#[test]
fn catalog_names_records_by_number() {
    let mut catalog = Catalog::new();
    let pid = catalog.create_problem(params_with_code(None));
    assert_eq!(pid, "problem-0");
    assert_eq!(catalog.problems[0].solutions[0].document_id, "doc-0");
    assert_eq!(catalog.get_document_filepath("doc-0"), Ok("documents/doc-0".to_string()));
    for _ in 0..5 {
        catalog.create_testcase("problem-0").unwrap();
    }
    assert_eq!(catalog.documents.len(), 11);
    assert_eq!(catalog.documents[10].id, "doc-10");
    assert_eq!(catalog.testcases[4].id, "testcase-4");
    assert_eq!(catalog.create_testcase("problem-9").unwrap_err(), CatalogError::NotFound);
    assert_eq!(catalog.get_document_filepath("doc-11"), Err(CatalogError::NotFound));
}

#[test]
fn manage_twice_returns_the_same_snapshot() {
    let (catalog, id) = catalog_with_document("hello");
    let mut docs = DocumentRepo::new();
    let first = docs.manage(id.clone(), "documents/doc-0".to_string(), &catalog).unwrap();
    let second = docs.manage(id.clone(), "documents/doc-0".to_string(), &catalog).unwrap();
    assert_eq!(first, b"hello".to_vec());
    assert_eq!(first, second);
}

#[test]
fn manage_does_not_reset_an_advanced_buffer() {
    let (catalog, id) = catalog_with_document("hello");
    let mut docs = DocumentRepo::new();
    docs.manage(id.clone(), "documents/doc-0".to_string(), &catalog).unwrap();
    docs.apply_change(&id, &encode_patch(5, 0, " world")).unwrap();
    let again = docs.manage(id.clone(), "documents/doc-0".to_string(), &catalog).unwrap();
    assert_eq!(again, b"hello world".to_vec());
    assert_eq!(docs.sessions[0].version, 1);
}

#[test]
fn manage_fails_on_a_missing_file() {
    let catalog = Catalog::new();
    let mut docs = DocumentRepo::new();
    let r = docs.manage("x".to_string(), "nowhere".to_string(), &catalog);
    assert_eq!(r, Err(DocError::IOError));
    assert!(!docs.has("x"));
}

#[test]
fn patch_on_unknown_document_creates_nothing() {
    let mut docs = DocumentRepo::new();
    let r = docs.apply_change("ghost", &encode_patch(0, 0, "x"));
    assert_eq!(r, Err(DocError::NotFound));
    assert!(!docs.has("ghost"));
    assert!(docs.sessions.is_empty());
}

#[test]
fn malformed_patches_are_refused_and_change_nothing() {
    let (catalog, id) = catalog_with_document("abc");
    let mut docs = DocumentRepo::new();
    docs.manage(id.clone(), "documents/doc-0".to_string(), &catalog).unwrap();
    assert_eq!(docs.apply_change(&id, &[1, 0, 0]), Err(DocError::MalformedPatch));
    assert_eq!(docs.apply_change(&id, &encode_patch(2, 2, "")), Err(DocError::MalformedPatch));
    let mut bad = encode_patch(0, 0, "");
    bad.push(0xff);
    assert_eq!(docs.apply_change(&id, &bad), Err(DocError::MalformedPatch));
    assert_eq!(docs.get_string_of_doc(&id, "content"), Ok("abc".to_string()));
    assert_eq!(docs.sessions[0].version, 0);
}

#[test]
fn patch_replaces_a_character_range() {
    assert_eq!(patched_text("abcdef", &encode_patch(1, 3, "XY")), Some("aXYef".to_string()));
    assert_eq!(patched_text("héllo", &encode_patch(1, 1, "é→")), Some("hé→llo".to_string()));
    assert_eq!(patched_text("", &encode_patch(0, 0, "")), Some(String::new()));
    assert_eq!(patched_text("ab", &encode_patch(3, 0, "")), None);
}

#[test]
fn encoded_patch_layout() {
    assert_eq!(encode_patch(0x01020304, 258, "é"), vec![4, 3, 2, 1, 2, 1, 0, 0, 0xc3, 0xa9]);
}

#[test]
fn patches_in_order_match_one_at_a_time() {
    let (catalog, id) = catalog_with_document("");
    let patches = vec![
        encode_patch(0, 0, "int main"),
        encode_patch(8, 0, "() {}"),
        encode_patch(4, 4, "MAIN"),
        encode_patch(0, 3, "void"),
    ];
    let mut together = DocumentRepo::new();
    together.manage(id.clone(), "documents/doc-0".to_string(), &catalog).unwrap();
    together.apply_changes(&id, &patches).unwrap();
    let mut single = DocumentRepo::new();
    single.manage(id.clone(), "documents/doc-0".to_string(), &catalog).unwrap();
    for p in &patches {
        single.apply_change(&id, p).unwrap();
    }
    let a = together.get_string_of_doc(&id, "content").unwrap();
    let b = single.get_string_of_doc(&id, "content").unwrap();
    assert_eq!(a, "void MAIN() {}");
    assert_eq!(a, b);
    assert_eq!(together.sessions[0].version, 4);
}

#[test]
fn patch_sequence_stops_at_the_first_failure() {
    let (catalog, id) = catalog_with_document("ab");
    let mut docs = DocumentRepo::new();
    docs.manage(id.clone(), "documents/doc-0".to_string(), &catalog).unwrap();
    let patches = vec![encode_patch(2, 0, "c"), encode_patch(9, 0, "x"), encode_patch(0, 0, "z")];
    assert_eq!(docs.apply_changes(&id, &patches), Err((1, DocError::MalformedPatch)));
    assert_eq!(docs.get_string_of_doc(&id, "content"), Ok("abc".to_string()));
    assert_eq!(docs.apply_changes("other", &patches), Err((0, DocError::NotFound)));
}

#[test]
fn patches_to_one_document_leave_another_alone() {
    let mut catalog = Catalog::new();
    catalog.create_problem(params_with_code(Some("one")));
    catalog.create_problem(params_with_code(Some("two")));
    let mut docs = DocumentRepo::new();
    docs.manage("doc-0".to_string(), "documents/doc-0".to_string(), &catalog).unwrap();
    docs.manage("doc-1".to_string(), "documents/doc-1".to_string(), &catalog).unwrap();
    docs.apply_change("doc-0", &encode_patch(0, 3, "1")).unwrap();
    assert_eq!(docs.get_string_of_doc("doc-0", "content"), Ok("1".to_string()));
    assert_eq!(docs.get_string_of_doc("doc-1", "content"), Ok("two".to_string()));
}

#[test]
fn fields_other_than_content_are_unknown() {
    let (catalog, id) = catalog_with_document("x");
    let mut docs = DocumentRepo::new();
    assert_eq!(docs.get_string_of_doc(&id, "content"), Err(DocError::NotFound));
    docs.manage(id.clone(), "documents/doc-0".to_string(), &catalog).unwrap();
    assert_eq!(docs.get_string_of_doc(&id, "title"), Err(DocError::UnknownField));
    assert_eq!(docs.set_string_of_doc(&id, "title", "y"), Err(DocError::UnknownField));
    assert_eq!(docs.set_string_of_doc("nope", "content", "y"), Err(DocError::NotFound));
}

#[test]
fn seeding_overwrites_without_a_new_version() {
    let (catalog, id) = catalog_with_document("old");
    let mut docs = DocumentRepo::new();
    docs.manage(id.clone(), "documents/doc-0".to_string(), &catalog).unwrap();
    docs.set_string_of_doc(&id, "content", "new").unwrap();
    assert_eq!(docs.get_string_of_doc(&id, "content"), Ok("new".to_string()));
    assert_eq!(docs.sessions[0].version, 0);
}

#[test]
fn reading_a_document_loads_it_on_a_miss() {
    let (catalog, id) = catalog_with_document("stored");
    let mut docs = DocumentRepo::new();
    let s = get_string_of_doc(&catalog, &mut docs, id.clone(), "content").unwrap();
    assert_eq!(s, "stored");
    assert!(docs.has(&id));
    let missing = get_string_of_doc(&catalog, &mut docs, "doc-7".to_string(), "content");
    assert_eq!(missing, Err(WorkbenchError::Storage(CatalogError::NotFound)));
    assert_eq!(load_document(&catalog, &mut docs, id.clone()), Ok(b"stored".to_vec()));
}

#[test]
fn creating_a_problem_seeds_its_solution_document() {
    let mut catalog = Catalog::new();
    let mut docs = DocumentRepo::new();
    let pid = create_problem(&mut catalog, &mut docs, params_with_code(Some("int main(){}"))).unwrap();
    assert_eq!(pid, "problem-0");
    assert_eq!(docs.get_string_of_doc("doc-0", "content"), Ok("int main(){}".to_string()));
    let pid = create_problem(&mut catalog, &mut docs, params_with_code(None)).unwrap();
    assert_eq!(pid, "problem-1");
    assert!(!docs.has("doc-1"));
}

#[test]
fn testcases_are_listed_per_problem() {
    let mut catalog = Catalog::new();
    catalog.create_problem(params_with_code(None));
    catalog.create_problem(params_with_code(None));
    catalog.create_testcase("problem-1").unwrap();
    catalog.create_testcase("problem-0").unwrap();
    catalog.create_testcase("problem-1").unwrap();
    let listed = catalog.get_testcases("problem-1");
    assert_eq!(listed.len(), 2);
    assert_eq!(listed[0].id, "testcase-0");
    assert_eq!(listed[1].id, "testcase-2");
    assert!(catalog.get_testcases("problem-5").is_empty());
}

#[test]
fn patches_in_batches_match_one_list() {
    let (catalog, id) = catalog_with_document("x");
    let all = vec![encode_patch(1, 0, "yz"), encode_patch(0, 1, "w"), encode_patch(3, 0, "!")];
    let mut whole = DocumentRepo::new();
    whole.manage(id.clone(), "documents/doc-0".to_string(), &catalog).unwrap();
    whole.apply_changes(&id, &all).unwrap();
    let mut batched = DocumentRepo::new();
    batched.manage(id.clone(), "documents/doc-0".to_string(), &catalog).unwrap();
    batched.apply_changes(&id, &all[..1].to_vec()).unwrap();
    batched.apply_changes(&id, &all[1..].to_vec()).unwrap();
    assert_eq!(whole.get_string_of_doc(&id, "content"), Ok("wyz!".to_string()));
    assert_eq!(batched.get_string_of_doc(&id, "content"), Ok("wyz!".to_string()));
}
