use vstd::prelude::*;
use crate::ids::{lemma_tagged_injective, tagged, tagged_text};
use crate::params::{opt_view, CreateProblemParams};
use crate::text::text_eq;

verus! {

/// Failures of the storage collaborator.
#[derive(Debug, Clone, Copy, PartialEq, Eq, Structural)]
pub enum CatalogError {
    /// No record has the given identifier or path.
    NotFound,
}

/// A stored document: its identifier, its file and the file's content.
#[derive(Debug, Clone)]
pub struct StoredDocument {
    pub id: String,
    pub filepath: String,
    pub content: String,
}

/// A testcase of a problem, with its input and answer documents.
#[derive(Debug, Clone)]
pub struct TestCase {
    pub id: String,
    pub problem_id: String,
    pub input_document_id: String,
    pub answer_document_id: String,
}

impl TestCase {
    /// A field-by-field copy.
    pub fn duplicate(&self) -> (r: TestCase)
        ensures
            r == *self,
    {
        TestCase {
            id: self.id.clone(),
            problem_id: self.problem_id.clone(),
            input_document_id: self.input_document_id.clone(),
            answer_document_id: self.answer_document_id.clone(),
        }
    }
}

/// A solution of a problem.
#[derive(Debug, Clone)]
pub struct Solution {
    pub id: String,
    pub name: String,
    pub author: Option<String>,
    pub language: String,
    pub document_id: String,
}

/// A stored problem.
#[derive(Debug, Clone)]
pub struct Problem {
    pub id: String,
    pub name: String,
    pub description: Option<String>,
    pub url: Option<String>,
    pub statement: Option<String>,
    pub checker: Option<String>,
    pub time_limit: u64,
    pub memory_limit: u64,
    pub solutions: Vec<Solution>,
}

/// The storage collaborator: problems, testcases and documents with their
/// files, held in memory. Records are numbered in order of creation and
/// named after their number.
pub struct Catalog {
    pub problems: Vec<Problem>,
    pub testcases: Vec<TestCase>,
    pub documents: Vec<StoredDocument>,
}

pub open spec fn problem_name(k: nat) -> Seq<char> {
    tagged("problem-"@, k)
}

pub open spec fn testcase_name(k: nat) -> Seq<char> {
    tagged("testcase-"@, k)
}

pub open spec fn solution_name(k: nat) -> Seq<char> {
    tagged("solution-"@, k)
}

pub open spec fn document_name(k: nat) -> Seq<char> {
    tagged("doc-"@, k)
}

pub open spec fn document_path(k: nat) -> Seq<char> {
    tagged("documents/doc-"@, k)
}

impl Catalog {
    /// Every record is named after its number.
    pub open spec fn wf(&self) -> bool {
        &&& forall|k: int|
            0 <= k < self.problems@.len() ==> #[trigger] self.problems@[k].id@ == problem_name(
                k as nat,
            )
        &&& forall|k: int|
            0 <= k < self.testcases@.len() ==> #[trigger] self.testcases@[k].id@
                == testcase_name(k as nat)
        &&& forall|k: int|
            0 <= k < self.documents@.len() ==> #[trigger] self.documents@[k].id@
                == document_name(k as nat) && self.documents@[k].filepath@ == document_path(
                k as nat,
            )
    }

    /// Whether a document with this identifier is stored.
    pub open spec fn has_document(&self, id: Seq<char>) -> bool {
        exists|k: int| 0 <= k < self.documents@.len() && #[trigger] self.documents@[k].id@ == id
    }

    /// Whether a problem with this identifier is stored.
    pub open spec fn has_problem(&self, id: Seq<char>) -> bool {
        exists|k: int| 0 <= k < self.problems@.len() && #[trigger] self.problems@[k].id@ == id
    }

    /// The document stored under number `k` has the identifier that `k` names.
    pub proof fn lemma_document_named(&self, k: int, id: Seq<char>)
        requires
            self.wf(),
            0 <= k < self.documents@.len(),
            id == document_name(k as nat),
        ensures
            forall|j: int|
                0 <= j < self.documents@.len() && #[trigger] self.documents@[j].id@ == id
                    ==> j == k,
            forall|j: int|
                0 <= j < self.documents@.len() && #[trigger] self.documents@[j].filepath@
                    == document_path(k as nat) ==> j == k,
    {
        assert forall|j: int|
            0 <= j < self.documents@.len() && #[trigger] self.documents@[j].id@ == id implies j
            == k by {
            lemma_tagged_injective("doc-"@, j as nat, k as nat);
        }
        assert forall|j: int|
            0 <= j < self.documents@.len() && #[trigger] self.documents@[j].filepath@
                == document_path(k as nat) implies j == k by {
            assert(self.documents@[j].id@ == document_name(j as nat));
            lemma_tagged_injective("documents/doc-"@, j as nat, k as nat);
        }
    }

    /// No stored document carries the name of number `n` or later.
    pub proof fn lemma_fresh_document(&self, n: nat)
        requires
            self.wf(),
            n >= self.documents@.len(),
        ensures
            !self.has_document(document_name(n)),
    {
        if self.has_document(document_name(n)) {
            let k = choose|k: int|
                0 <= k < self.documents@.len() && #[trigger] self.documents@[k].id@
                    == document_name(n);
            lemma_tagged_injective("doc-"@, k as nat, n);
        }
    }

    pub fn new() -> (r: Catalog)
        ensures
            r.wf(),
            r.problems@.len() == 0,
            r.testcases@.len() == 0,
            r.documents@.len() == 0,
    {
        Catalog { problems: Vec::new(), testcases: Vec::new(), documents: Vec::new() }
    }

    /// Stores a new document with the given content; returns its identifier.
    fn add_document(&mut self, content: String) -> (r: String)
        requires
            old(self).wf(),
        ensures
            final(self).wf(),
            final(self).problems == old(self).problems,
            final(self).testcases == old(self).testcases,
            final(self).documents@.len() == old(self).documents@.len() + 1,
            final(self).documents@.drop_last() == old(self).documents@,
            final(self).documents@.last().content == content,
            r@ == document_name(old(self).documents@.len() as nat),
            final(self).documents@.last().id@ == r@,
    {
        let n = self.documents.len();
        let id = tagged_text("doc-", n);
        let filepath = tagged_text("documents/doc-", n);
        let r = id.clone();
        self.documents.push(StoredDocument { id, filepath, content });
        assert(self.documents@.drop_last() == old(self).documents@);
        r
    }

    /// Finds the stored document with this identifier.
    fn find_document(&self, id: &str) -> (r: Option<usize>)
        ensures
            match r {
                Some(k) => k < self.documents@.len() && self.documents@[k as int].id@ == id@,
                None => !self.has_document(id@),
            },
    {
        let mut k: usize = 0;
        while k < self.documents.len()
            invariant
                k <= self.documents@.len(),
                forall|j: int| 0 <= j < k ==> #[trigger] self.documents@[j].id@ != id@,
            decreases self.documents.len() - k,
        {
            if text_eq(self.documents[k].id.as_str(), id) {
                return Some(k);
            }
            k = k + 1;
        }
        None
    }

    /// Finds the stored problem with this identifier.
    pub fn find_problem(&self, id: &str) -> (r: Option<usize>)
        ensures
            match r {
                Some(k) => k < self.problems@.len() && self.problems@[k as int].id@ == id@,
                None => !self.has_problem(id@),
            },
    {
        let mut k: usize = 0;
        while k < self.problems.len()
            invariant
                k <= self.problems@.len(),
                forall|j: int| 0 <= j < k ==> #[trigger] self.problems@[j].id@ != id@,
            decreases self.problems.len() - k,
        {
            if text_eq(self.problems[k].id.as_str(), id) {
                return Some(k);
            }
            k = k + 1;
        }
        None
    }

    /// The testcases of the problem `problem_id`, in order of creation.
    pub fn get_testcases(&self, problem_id: &str) -> (r: Vec<TestCase>)
        ensures
            r@ == self.testcases@.filter(|t: TestCase| t.problem_id@ == problem_id@),
    {
        let ghost pred = |t: TestCase| t.problem_id@ == problem_id@;
        let mut r: Vec<TestCase> = Vec::new();
        let mut k: usize = 0;
        while k < self.testcases.len()
            invariant
                k <= self.testcases@.len(),
                pred == (|t: TestCase| t.problem_id@ == problem_id@),
                r@ == self.testcases@.subrange(0, k as int).filter(pred),
            decreases self.testcases.len() - k,
        {
            let ghost s = self.testcases@.subrange(0, k + 1);
            assert(s.drop_last() == self.testcases@.subrange(0, k as int));
            assert(s.last() == self.testcases@[k as int]);
            reveal(Seq::filter);
            if text_eq(self.testcases[k].problem_id.as_str(), problem_id) {
                r.push(self.testcases[k].duplicate());
            }
            k = k + 1;
        }
        assert(self.testcases@.subrange(0, k as int) == self.testcases@);
        r
    }

    /// The file that holds a stored document; `NotFound` if none has this identifier.
    pub fn get_document_filepath(&self, doc_id: &str) -> (r: Result<String, CatalogError>)
        ensures
            match r {
                Ok(p) => exists|k: int|
                    0 <= k < self.documents@.len() && #[trigger] self.documents@[k].id@ == doc_id@
                        && p@ == self.documents@[k].filepath@,
                Err(e) => e == CatalogError::NotFound && !self.has_document(doc_id@),
            },
    {
        match self.find_document(doc_id) {
            Some(k) => Ok(self.documents[k].filepath.clone()),
            None => Err(CatalogError::NotFound),
        }
    }

    /// The content of a stored file; `NotFound` if no document lives there.
    pub fn read_file(&self, path: &str) -> (r: Result<String, CatalogError>)
        ensures
            match r {
                Ok(c) => exists|k: int|
                    0 <= k < self.documents@.len() && #[trigger] self.documents@[k].filepath@
                        == path@ && c@ == self.documents@[k].content@,
                Err(e) => e == CatalogError::NotFound && forall|k: int|
                    0 <= k < self.documents@.len() ==> #[trigger] self.documents@[k].filepath@
                        != path@,
            },
    {
        let mut k: usize = 0;
        while k < self.documents.len()
            invariant
                k <= self.documents@.len(),
                forall|j: int| 0 <= j < k ==> #[trigger] self.documents@[j].filepath@ != path@,
            decreases self.documents.len() - k,
        {
            if text_eq(self.documents[k].filepath.as_str(), path) {
                return Ok(self.documents[k].content.clone());
            }
            k = k + 1;
        }
        Err(CatalogError::NotFound)
    }

    /// Creates a problem from `params`; when the parameters carry a first
    /// solution, that solution and its document (seeded with the solution's
    /// content, or empty) are created too. Returns the new problem's identifier.
    pub fn create_problem(&mut self, params: CreateProblemParams) -> (r: String)
        requires
            old(self).wf(),
        ensures
            final(self).wf(),
            r@ == problem_name(old(self).problems@.len() as nat),
            final(self).problems@.len() == old(self).problems@.len() + 1,
            final(self).problems@.drop_last() == old(self).problems@,
            final(self).testcases == old(self).testcases,
            ({
                let p = final(self).problems@.last();
                &&& p.id@ == r@
                &&& p.name == params.name
                &&& p.description == params.description
                &&& p.url == params.url
                &&& p.statement == params.statement
                &&& p.checker == params.checker
                &&& p.time_limit == params.time_limit
                &&& p.memory_limit == params.memory_limit
            }),
            match params.initial_solution {
                Some(s) => {
                    let n = old(self).documents@.len();
                    let p = final(self).problems@.last();
                    &&& final(self).documents@.len() == n + 1
                    &&& final(self).documents@.drop_last() == old(self).documents@
                    &&& final(self).documents@[n as int].content@ == match opt_view(s.content) {
                        Some(c) => c,
                        None => Seq::<char>::empty(),
                    }
                    &&& p.solutions@.len() == 1
                    &&& p.solutions@[0].id@ == solution_name(n as nat)
                    &&& p.solutions@[0].name == s.name
                    &&& p.solutions@[0].author == s.author
                    &&& p.solutions@[0].language == s.language
                    &&& p.solutions@[0].document_id@ == document_name(n as nat)
                },
                None => {
                    &&& final(self).documents == old(self).documents
                    &&& final(self).problems@.last().solutions@.len() == 0
                },
            },
    {
        let index = self.problems.len();
        let id = tagged_text("problem-", index);
        let mut solutions: Vec<Solution> = Vec::new();
        match params.initial_solution {
            Some(s) => {
                let n = self.documents.len();
                let content = match s.content {
                    Some(c) => c,
                    None => String::new(),
                };
                let document_id = self.add_document(content);
                solutions.push(
                    Solution {
                        id: tagged_text("solution-", n),
                        name: s.name,
                        author: s.author,
                        language: s.language,
                        document_id,
                    },
                );
            },
            None => {},
        }
        let r = id.clone();
        self.problems.push(
            Problem {
                id,
                name: params.name,
                description: params.description,
                url: params.url,
                statement: params.statement,
                checker: params.checker,
                time_limit: params.time_limit,
                memory_limit: params.memory_limit,
                solutions,
            },
        );
        assert(self.problems@.drop_last() == old(self).problems@);
        r
    }

    /// Creates a testcase of a stored problem, with two new empty documents
    /// for its input and its answer; `NotFound` if no problem has this identifier.
    pub fn create_testcase(&mut self, problem_id: &str) -> (r: Result<TestCase, CatalogError>)
        requires
            old(self).wf(),
        ensures
            final(self).wf(),
            final(self).problems == old(self).problems,
            match r {
                Ok(t) => {
                    let n = old(self).documents@.len();
                    &&& old(self).has_problem(problem_id@)
                    &&& final(self).documents@.len() == n + 2
                    &&& final(self).documents@.subrange(0, n as int) == old(self).documents@
                    &&& final(self).documents@[n as int].content@ == Seq::<char>::empty()
                    &&& final(self).documents@[n + 1 as int].content@ == Seq::<char>::empty()
                    &&& final(self).testcases@ == old(self).testcases@.push(t)
                    &&& t.id@ == testcase_name(old(self).testcases@.len() as nat)
                    &&& t.problem_id@ == problem_id@
                    &&& t.input_document_id@ == document_name(n as nat)
                    &&& t.answer_document_id@ == document_name(n + 1)
                },
                Err(e) => {
                    &&& e == CatalogError::NotFound
                    &&& !old(self).has_problem(problem_id@)
                    &&& final(self).documents == old(self).documents
                    &&& final(self).testcases == old(self).testcases
                },
            },
    {
        if self.find_problem(problem_id).is_none() {
            return Err(CatalogError::NotFound);
        }
        let ghost before = self.documents@;
        let input_document_id = self.add_document(String::new());
        let answer_document_id = self.add_document(String::new());
        assert(self.documents@.subrange(0, before.len() as int) == before) by {
            assert(self.documents@.drop_last().drop_last() == before);
        }
        let t = TestCase {
            id: tagged_text("testcase-", self.testcases.len()),
            problem_id: String::from_str(problem_id),
            input_document_id,
            answer_document_id,
        };
        self.testcases.push(t.duplicate());
        Ok(t)
    }
}

} // verus!
