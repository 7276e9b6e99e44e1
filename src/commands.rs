use vstd::prelude::*;
use vstd::utf8::encode_utf8;
use crate::catalog::{Catalog, CatalogError, document_name};
use crate::config::{same_config, WorkspaceConfig};
use crate::events::{EventBridge, UiEvent, WorkspaceConfigUpdateEvent};
use crate::document::{content_field, DocError, DocumentRepo};
use crate::ingest::WorkbenchError;
use crate::params::{opt_view, CreateProblemParams};

verus! {

/// The content the catalog stores for the document `id`, if it stores one.
pub open spec fn stored_content(catalog: Catalog, id: Seq<char>) -> Option<Seq<char>> {
    if catalog.has_document(id) {
        let k = choose|k: int| 0 <= k < catalog.documents@.len() && #[trigger] catalog.documents@[k].id@ == id;
        Some(catalog.documents@[k].content@)
    } else {
        None
    }
}

/// Where `docs` stands after loading `id` from `catalog`: an open session is
/// kept as it is; otherwise one is opened at version 0 with the stored content.
pub open spec fn loaded(before: DocumentRepo, after: DocumentRepo, catalog: Catalog, id: Seq<char>) -> bool {
    &&& after.wf()
    &&& after.session(id) is Some
    &&& (before.session(id) is Some ==> after == before)
    &&& (before.session(id) is None ==> {
        &&& after.content_of(id) == stored_content(catalog, id)
        &&& after.session(id).unwrap().version == 0
    })
    &&& forall|other: Seq<char>| other != id ==> #[trigger] after.session(other) == before.session(other)
}

/// Opens the document `doc_id` from the file the catalog keeps for it, and
/// returns the buffer's UTF-8 bytes. `NotFound` if the catalog does not
/// store it; nothing changes then.
pub fn load_document(catalog: &Catalog, docs: &mut DocumentRepo, doc_id: String) -> (r: Result<Vec<u8>, WorkbenchError>)
    requires
        catalog.wf(),
        old(docs).wf(),
    ensures
        final(docs).wf(),
        if catalog.has_document(doc_id@) {
            &&& loaded(*old(docs), *final(docs), *catalog, doc_id@)
            &&& (r matches Ok(b) && b@ == encode_utf8(final(docs).content_of(doc_id@).unwrap()))
        } else {
            &&& r == Err::<Vec<u8>, WorkbenchError>(WorkbenchError::Storage(CatalogError::NotFound))
            &&& *final(docs) == *old(docs)
        },
{
    let filepath = match catalog.get_document_filepath(doc_id.as_str()) {
        Ok(p) => p,
        Err(e) => return Err(WorkbenchError::Storage(e)),
    };
    let ghost k = choose|k: int| 0 <= k < catalog.documents@.len() && #[trigger] catalog.documents@[k].id@ == doc_id@;
    proof {
        assert(catalog.documents@[k].id@ == document_name(k as nat));
        catalog.lemma_document_named(k, doc_id@);
        assert(filepath@ == catalog.documents@[k].filepath@);
    }
    match docs.manage(doc_id, filepath, catalog) {
        Ok(b) => Ok(b),
        Err(e) => Err(WorkbenchError::Document(e)),
    }
}

/// Reads a named field of the document `doc_id`, loading it from the
/// catalog first if no session is open for it.
pub fn get_string_of_doc(catalog: &Catalog, docs: &mut DocumentRepo, doc_id: String, name: &str) -> (r: Result<String, WorkbenchError>)
    requires
        catalog.wf(),
        old(docs).wf(),
    ensures
        final(docs).wf(),
        if old(docs).session(doc_id@) is None && !catalog.has_document(doc_id@) {
            &&& r == Err::<String, WorkbenchError>(WorkbenchError::Storage(CatalogError::NotFound))
            &&& *final(docs) == *old(docs)
        } else {
            &&& loaded(*old(docs), *final(docs), *catalog, doc_id@)
            &&& if name@ == content_field() {
                r matches Ok(v) && Some(v@) == final(docs).content_of(doc_id@)
            } else {
                r == Err::<String, WorkbenchError>(WorkbenchError::Document(DocError::UnknownField))
            }
        },
{
    if !docs.has(doc_id.as_str()) {
        match load_document(catalog, docs, doc_id.clone()) {
            Ok(_) => {},
            Err(e) => return Err(e),
        }
    }
    match docs.get_string_of_doc(doc_id.as_str(), name) {
        Ok(s) => Ok(s),
        Err(e) => Err(WorkbenchError::Document(e)),
    }
}

/// Creates a problem in the catalog. When its first solution comes with
/// initial code, the solution's document is opened and seeded with that
/// code. Returns the new problem's identifier.
pub fn create_problem(catalog: &mut Catalog, docs: &mut DocumentRepo, params: CreateProblemParams) -> (r: Result<String, WorkbenchError>)
    requires
        old(catalog).wf(),
        old(docs).wf(),
    ensures
        final(catalog).wf(),
        final(docs).wf(),
        final(catalog).problems@.len() == old(catalog).problems@.len() + 1,
        final(catalog).problems@.drop_last() == old(catalog).problems@,
        final(catalog).testcases == old(catalog).testcases,
        r matches Ok(pid) && pid@ == final(catalog).problems@.last().id@,
        final(catalog).problems@.last().name == params.name,
        match params.initial_solution {
            Some(s) => match opt_view(s.content) {
                Some(code) => {
                    let d = document_name(old(catalog).documents@.len() as nat);
                    &&& final(catalog).problems@.last().solutions@[0].document_id@ == d
                    &&& final(docs).content_of(d) == Some(code)
                },
                None => *final(docs) == *old(docs),
            },
            None => *final(docs) == *old(docs),
        },
{
    let ghost n = catalog.documents@.len();
    let initial_code = match &params.initial_solution {
        Some(s) => match &s.content {
            Some(c) => Some(c.clone()),
            None => None,
        },
        None => None,
    };
    let pid = catalog.create_problem(params);
    let code = match initial_code {
        Some(c) => c,
        None => return Ok(pid),
    };
    let last = catalog.problems.len() - 1;
    let doc_id = catalog.problems[last].solutions[0].document_id.clone();
    proof {
        assert(catalog.documents@[n as int].id@ == document_name(n as nat));
        catalog.lemma_document_named(n as int, doc_id@);
        assert(catalog.documents@[n as int].filepath@ == crate::catalog::document_path(n as nat));
    }
    let filepath = match catalog.get_document_filepath(doc_id.as_str()) {
        Ok(p) => p,
        Err(e) => return Err(WorkbenchError::Storage(e)),
    };
    match docs.manage(doc_id.clone(), filepath, catalog) {
        Ok(_) => {},
        Err(e) => return Err(WorkbenchError::Document(e)),
    }
    match docs.set_string_of_doc(doc_id.as_str(), "content", code.as_str()) {
        Ok(()) => {},
        Err(e) => return Err(WorkbenchError::Document(e)),
    }
    Ok(pid)
}

/// Replaces the workspace configuration and announces the new one. Saving
/// it to disk is left to the caller.
pub fn set_workspace_config(current: &mut WorkspaceConfig, events: &mut EventBridge, data: WorkspaceConfig)
    ensures
        same_config(*final(current), data),
        final(events).pending@ == old(events).pending@.push(
            UiEvent::WorkspaceConfigUpdate(WorkspaceConfigUpdateEvent { new: data }),
        ),
{
    *current = data.duplicate();
    events.emit(UiEvent::WorkspaceConfigUpdate(WorkspaceConfigUpdateEvent { new: data }));
}

} // verus!
