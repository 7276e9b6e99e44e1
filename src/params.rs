use vstd::prelude::*;
use crate::config::{entry_index, find_language, WorkspaceConfig};

verus! {

/// The checker given to a problem unless another is chosen.
pub const DEFAULT_CHECKER: &'static str = "ncmp";

/// The time limit, in milliseconds, given to a problem unless another is chosen.
pub const DEFAULT_TIME_LIMIT: u64 = 3000;

/// The memory limit, in megabytes, given to a problem unless another is chosen.
pub const DEFAULT_MEMORY_LIMIT: u64 = 1024;

/// What is needed to create a solution.
#[derive(Debug, Clone)]
pub struct CreateSolutionParams {
    pub name: String,
    pub author: Option<String>,
    pub language: String,
    pub content: Option<String>,
}

/// What is needed to create a problem, with its first solution.
#[derive(Debug, Clone)]
pub struct CreateProblemParams {
    pub name: String,
    pub description: Option<String>,
    pub url: Option<String>,
    pub statement: Option<String>,
    pub checker: Option<String>,
    pub time_limit: u64,
    pub memory_limit: u64,
    pub initial_solution: Option<CreateSolutionParams>,
}

/// The view of an optional string.
pub open spec fn opt_view(o: Option<String>) -> Option<Seq<char>> {
    match o {
        Some(s) => Some(s@),
        None => None,
    }
}

/// The language a new solution is written in: the configured default, else
/// the first configured language, else plain text.
pub open spec fn preferred_language(cfg: WorkspaceConfig) -> Seq<char> {
    match cfg.default_language {
        Some(l) => l@,
        None => if cfg.language@.len() > 0 {
            cfg.language@[0].0@
        } else {
            "text"@
        },
    }
}

/// The initial content configured for a language, if any.
pub open spec fn initial_content(cfg: WorkspaceConfig, lang: Seq<char>) -> Option<Seq<char>> {
    match entry_index(cfg.language@, lang) {
        Some(i) => opt_view(cfg.language@[i].1.initial_solution_content),
        None => None,
    }
}

/// The parameters of a new solution as the configuration would have them.
pub open spec fn is_default_solution(
    r: CreateSolutionParams,
    cfg: WorkspaceConfig,
    name: Seq<char>,
    author: Seq<char>,
) -> bool {
    &&& r.name@ == name
    &&& opt_view(r.author) == Some(author)
    &&& r.language@ == preferred_language(cfg)
    &&& opt_view(r.content) == initial_content(cfg, preferred_language(cfg))
}

fn clone_opt(o: &Option<String>) -> (r: Option<String>)
    ensures
        r == *o,
{
    match o {
        Some(s) => Some(s.clone()),
        None => None,
    }
}

/// Relies on `whoami::realname`: the current user's full name, falling back
/// to the user name. Nothing is promised of its value.
#[verifier::external_body]
pub(crate) fn user_realname() -> (r: String) {
    whoami::realname()
}

/// Parameters for a new solution named `name`, written by `author`, in the
/// preferred language and with that language's initial content.
pub fn get_default_create_solution_params(
    cfg: &WorkspaceConfig,
    name: String,
    author: String,
) -> (r: CreateSolutionParams)
    ensures
        is_default_solution(r, *cfg, name@, author@),
{
    let language = match &cfg.default_language {
        Some(l) => l.clone(),
        None => if cfg.language.len() > 0 {
            cfg.language[0].0.clone()
        } else {
            String::from_str("text")
        },
    };
    let content = match find_language(&cfg.language, language.as_str()) {
        Some(i) => clone_opt(&cfg.language[i].1.initial_solution_content),
        None => None,
    };
    CreateSolutionParams { name, author: Some(author), language, content }
}

/// Parameters for a new problem: the given texts, the default checker and
/// limits, and a first solution named like the problem.
pub fn get_default_create_problem_params(
    cfg: &WorkspaceConfig,
    name: String,
    description: Option<String>,
    url: Option<String>,
    statement: Option<String>,
    author: String,
) -> (r: CreateProblemParams)
    ensures
        r.name@ == name@,
        r.description == description,
        r.url == url,
        r.statement == statement,
        opt_view(r.checker) == Some(DEFAULT_CHECKER@),
        r.time_limit == DEFAULT_TIME_LIMIT,
        r.memory_limit == DEFAULT_MEMORY_LIMIT,
        r.initial_solution matches Some(s) && is_default_solution(s, *cfg, name@, author@),
{
    let solution = get_default_create_solution_params(cfg, name.clone(), author);
    CreateProblemParams {
        name,
        description,
        url,
        statement,
        checker: Some(String::from_str(DEFAULT_CHECKER)),
        time_limit: DEFAULT_TIME_LIMIT,
        memory_limit: DEFAULT_MEMORY_LIMIT,
        initial_solution: Some(solution),
    }
}

} // verus!
