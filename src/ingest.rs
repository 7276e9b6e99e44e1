use vstd::prelude::*;
use crate::catalog::{Catalog, CatalogError, TestCase, document_name, document_path, problem_name};
use crate::config::WorkspaceConfig;
use crate::document::{DocError, DocumentRepo};
use crate::ids::lemma_tagged_injective;
use crate::message::{CompetitiveCompanionMessage, CompetitiveCompanionTest};
use crate::params::{
    get_default_create_problem_params, opt_view, user_realname, CreateProblemParams,
    DEFAULT_CHECKER,
};

verus! {

/// Why an operation that spans the catalog and the open documents failed.
#[derive(Debug, Clone, Copy, PartialEq, Eq, Structural)]
pub enum WorkbenchError {
    Storage(CatalogError),
    Document(DocError),
}

/// Every open document is one that the catalog stores.
pub open spec fn sessions_stored(docs: DocumentRepo, catalog: Catalog) -> bool {
    forall|id: Seq<char>| #[trigger] docs.session(id) is Some ==> catalog.has_document(id)
}

proof fn lemma_names_differ(a: nat, b: nat)
    requires
        a != b,
    ensures
        document_name(a) != document_name(b),
{
    if document_name(a) == document_name(b) {
        lemma_tagged_injective("doc-"@, a, b);
    }
}

/// Creates one testcase of the problem `problem_id`, opens its two
/// documents and seeds them with the test's input and expected output.
fn seed_testcase(
    catalog: &mut Catalog,
    docs: &mut DocumentRepo,
    problem_id: &str,
    test: &CompetitiveCompanionTest,
) -> (r: Result<TestCase, WorkbenchError>)
    requires
        old(catalog).wf(),
        old(docs).wf(),
        sessions_stored(*old(docs), *old(catalog)),
        old(catalog).has_problem(problem_id@),
    ensures
        final(catalog).wf(),
        final(docs).wf(),
        sessions_stored(*final(docs), *final(catalog)),
        final(catalog).problems == old(catalog).problems,
        (r matches Ok(t) && {
            let n = old(catalog).documents@.len();
            &&& final(catalog).documents@.len() == n + 2
            &&& final(catalog).documents@.subrange(0, n as int) == old(catalog).documents@
            &&& final(catalog).testcases@ == old(catalog).testcases@.push(t)
            &&& t.problem_id@ == problem_id@
            &&& t.input_document_id@ == document_name(n as nat)
            &&& t.answer_document_id@ == document_name(n + 1)
            &&& final(docs).content_of(t.input_document_id@) == Some(test.input@)
            &&& final(docs).content_of(t.answer_document_id@) == Some(test.output@)
            &&& forall|id: Seq<char>|
                id != document_name(n as nat) && id != document_name(n + 1)
                    ==> #[trigger] final(docs).session(id) == old(docs).session(id)
        }),
{
    let ghost before = *catalog;
    let ghost n = before.documents@.len();
    let t = match catalog.create_testcase(problem_id) {
        Ok(t) => t,
        Err(e) => return Err(WorkbenchError::Storage(e)),
    };
    let ghost input_name = document_name(n as nat);
    let ghost answer_name = document_name(n + 1);
    proof {
        before.lemma_fresh_document(n as nat);
        before.lemma_fresh_document(n + 1);
        lemma_names_differ(n as nat, n + 1);
        assert(catalog.documents@[n as int].id@ == input_name);
        assert(catalog.documents@[n + 1 as int].id@ == answer_name);
        catalog.lemma_document_named(n as int, input_name);
        catalog.lemma_document_named(n + 1 as int, answer_name);
    }
    let input_path = match catalog.get_document_filepath(t.input_document_id.as_str()) {
        Ok(p) => p,
        Err(e) => return Err(WorkbenchError::Storage(e)),
    };
    assert(input_path@ == document_path(n as nat));
    let answer_path = match catalog.get_document_filepath(t.answer_document_id.as_str()) {
        Ok(p) => p,
        Err(e) => return Err(WorkbenchError::Storage(e)),
    };
    assert(answer_path@ == document_path(n + 1));
    assert(catalog.documents@[n as int].filepath@ == document_path(n as nat));
    assert(catalog.documents@[n + 1 as int].filepath@ == document_path(n + 1));
    let ghost docs0 = *docs;
    match docs.manage(t.input_document_id.clone(), input_path, catalog) {
        Ok(_) => {},
        Err(e) => return Err(WorkbenchError::Document(e)),
    }
    match docs.manage(t.answer_document_id.clone(), answer_path, catalog) {
        Ok(_) => {},
        Err(e) => return Err(WorkbenchError::Document(e)),
    }
    match docs.set_string_of_doc(t.input_document_id.as_str(), "content", test.input.as_str()) {
        Ok(()) => {},
        Err(e) => return Err(WorkbenchError::Document(e)),
    }
    match docs.set_string_of_doc(t.answer_document_id.as_str(), "content", test.output.as_str()) {
        Ok(()) => {},
        Err(e) => return Err(WorkbenchError::Document(e)),
    }
    proof {
        assert forall|id: Seq<char>| #[trigger] docs.session(id) is Some implies catalog.has_document(id) by {
            if id == input_name {
                assert(catalog.documents@[n as int].id@ == id);
            } else if id == answer_name {
                assert(catalog.documents@[n + 1 as int].id@ == id);
            } else {
                assert(docs0.session(id) is Some);
                assert(before.has_document(id));
                let k = choose|k: int| 0 <= k < before.documents@.len() && #[trigger] before.documents@[k].id@ == id;
                assert(catalog.documents@[k] == before.documents@[k]);
            }
        }
    }
    Ok(t)
}

/// The problem and testcases an ingested message leaves behind, and the
/// content of their documents.
pub open spec fn ingested(
    old_catalog: Catalog,
    catalog: Catalog,
    docs: DocumentRepo,
    message: CompetitiveCompanionMessage,
    pid: Seq<char>,
) -> bool {
    let n_problems = old_catalog.problems@.len();
    let t0 = old_catalog.testcases@.len();
    let tests = message.tests@;
    let p = catalog.problems@.last();
    &&& pid == problem_name(n_problems as nat)
    &&& catalog.problems@.len() == n_problems + 1
    &&& catalog.problems@.drop_last() == old_catalog.problems@
    &&& p.id@ == pid
    &&& p.name@ == message.name@
    &&& opt_view(p.description) == Some(message.group@)
    &&& opt_view(p.url) == Some(message.url@)
    &&& p.statement is None
    &&& opt_view(p.checker) == Some(DEFAULT_CHECKER@)
    &&& p.time_limit == message.time_limit
    &&& p.memory_limit == message.memory_limit
    &&& catalog.testcases@.len() == t0 + tests.len()
    &&& catalog.testcases@.subrange(0, t0 as int) == old_catalog.testcases@
    &&& forall|j: int|
        0 <= j < tests.len() ==> {
            let t = #[trigger] catalog.testcases@[t0 + j];
            &&& t.problem_id@ == pid
            &&& docs.content_of(t.input_document_id@) == Some(tests[j].input@)
            &&& docs.content_of(t.answer_document_id@) == Some(tests[j].output@)
        }
}

/// Carries an ingested message through: creates its problem, with the
/// message's name, group (as description), url and limits and the default
/// checker and first solution by `author`; then, for each test in order, a
/// testcase whose input and answer documents are opened and seeded with the
/// test's input and output. Returns the new problem's identifier.
pub fn ingest_message(
    catalog: &mut Catalog,
    docs: &mut DocumentRepo,
    cfg: &WorkspaceConfig,
    message: &CompetitiveCompanionMessage,
    author: String,
) -> (r: Result<String, WorkbenchError>)
    requires
        old(catalog).wf(),
        old(docs).wf(),
        sessions_stored(*old(docs), *old(catalog)),
    ensures
        final(catalog).wf(),
        final(docs).wf(),
        sessions_stored(*final(docs), *final(catalog)),
        (r matches Ok(pid) && ingested(*old(catalog), *final(catalog), *final(docs), *message, pid@)),
{
    let defaults = get_default_create_problem_params(
        cfg,
        message.name.clone(),
        Some(message.group.clone()),
        Some(message.url.clone()),
        None,
        author,
    );
    let params = CreateProblemParams {
        name: defaults.name,
        description: defaults.description,
        url: defaults.url,
        statement: defaults.statement,
        checker: defaults.checker,
        time_limit: message.time_limit,
        memory_limit: message.memory_limit,
        initial_solution: defaults.initial_solution,
    };
    let ghost docs_start = *docs;
    let ghost cat_start = *catalog;
    let pid = catalog.create_problem(params);
    let ghost problems = catalog.problems;
    let ghost t0 = cat_start.testcases@.len();
    proof {
        assert(catalog.problems@[catalog.problems@.len() - 1].id@ == pid@);
        assert forall|id: Seq<char>| #[trigger] docs.session(id) is Some implies catalog.has_document(id) by {
            let k = choose|k: int| 0 <= k < cat_start.documents@.len() && #[trigger] cat_start.documents@[k].id@ == id;
            assert(catalog.documents@[k] == cat_start.documents@[k]);
        }
    }
    let ghost mut names: Seq<nat> = Seq::empty();
    let mut i: usize = 0;
    while i < message.tests.len()
        invariant
            catalog.wf(),
            docs.wf(),
            sessions_stored(*docs, *catalog),
            catalog.problems == problems,
            problems@.len() > 0,
            problems@.last().id@ == pid@,
            i <= message.tests@.len(),
            names.len() == i,
            catalog.testcases@.len() == t0 + i,
            catalog.testcases@.subrange(0, t0 as int) == cat_start.testcases@,
            forall|j: int| 0 <= j < i ==> names[j] + 1 < catalog.documents@.len(),
            forall|j: int|
                0 <= j < i ==> {
                    let t = #[trigger] catalog.testcases@[t0 + j];
                    &&& t.problem_id@ == pid@
                    &&& t.input_document_id@ == document_name(names[j])
                    &&& t.answer_document_id@ == document_name(names[j] + 1)
                    &&& docs.content_of(t.input_document_id@) == Some(message.tests@[j].input@)
                    &&& docs.content_of(t.answer_document_id@) == Some(message.tests@[j].output@)
                },
        decreases message.tests.len() - i,
    {
        assert(catalog.problems@[catalog.problems@.len() - 1].id@ == pid@);
        let ghost cat0 = *catalog;
        let ghost docs0 = *docs;
        let ghost n = catalog.documents@.len();
        let _t = match seed_testcase(catalog, docs, pid.as_str(), &message.tests[i]) {
            Ok(t) => t,
            Err(e) => return Err(e),
        };
        proof {
            names = names.push(n as nat);
            assert forall|j: int| 0 <= j < i + 1 implies {
                let t = #[trigger] catalog.testcases@[t0 + j];
                &&& t.problem_id@ == pid@
                &&& t.input_document_id@ == document_name(names[j])
                &&& t.answer_document_id@ == document_name(names[j] + 1)
                &&& docs.content_of(t.input_document_id@) == Some(message.tests@[j].input@)
                &&& docs.content_of(t.answer_document_id@) == Some(message.tests@[j].output@)
            } by {
                if j < i {
                    assert(catalog.testcases@[t0 + j] == cat0.testcases@[t0 + j]);
                    lemma_names_differ(names[j], n as nat);
                    lemma_names_differ(names[j], n + 1);
                    lemma_names_differ(names[j] + 1, n as nat);
                    lemma_names_differ(names[j] + 1, n + 1);
                }
            }
            assert(catalog.testcases@.subrange(0, t0 as int) == cat0.testcases@.subrange(0, t0 as int));
        }
        i = i + 1;
    }
    proof {
        assert(catalog.problems@.drop_last() == cat_start.problems@);
    }
    Ok(pid)
}

/// Carries an ingested message through as `ingest_message` does, with the
/// current user as the author of the first solution.
pub fn handle_competitive_companion_message(
    catalog: &mut Catalog,
    docs: &mut DocumentRepo,
    cfg: &WorkspaceConfig,
    message: &CompetitiveCompanionMessage,
) -> (r: Result<String, WorkbenchError>)
    requires
        old(catalog).wf(),
        old(docs).wf(),
        sessions_stored(*old(docs), *old(catalog)),
    ensures
        final(catalog).wf(),
        final(docs).wf(),
        sessions_stored(*final(docs), *final(catalog)),
        (r matches Ok(pid) && ingested(*old(catalog), *final(catalog), *final(docs), *message, pid@)),
{
    let author = user_realname();
    ingest_message(catalog, docs, cfg, message, author)
}

} // verus!
