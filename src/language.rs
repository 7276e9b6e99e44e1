use vstd::prelude::*;
use crate::text::text_eq;

verus! {

/// The language family a configured language belongs to.
#[derive(Debug, Clone, Copy, PartialEq, Eq, Hash, Structural)]
pub enum LanguageBase {
    Cpp,
    TypeScript,
    JavaScript,
    Go,
    Python,
    Text,
    Unknown,
}

/// The language family that a name (an extension or a long name) denotes.
pub open spec fn language_of_name(s: Seq<char>) -> LanguageBase {
    if s == "cpp"@ {
        LanguageBase::Cpp
    } else if s == "ts"@ || s == "typescript"@ {
        LanguageBase::TypeScript
    } else if s == "js"@ || s == "javascript"@ {
        LanguageBase::JavaScript
    } else if s == "go"@ {
        LanguageBase::Go
    } else if s == "py"@ || s == "python"@ {
        LanguageBase::Python
    } else if s == "text"@ || s == "plaintext"@ {
        LanguageBase::Text
    } else {
        LanguageBase::Unknown
    }
}

/// The file extension used for sources of a language family.
pub open spec fn extension_of(l: LanguageBase) -> Seq<char> {
    match l {
        LanguageBase::Cpp => "cpp"@,
        LanguageBase::TypeScript => "ts"@,
        LanguageBase::JavaScript => "js"@,
        LanguageBase::Go => "go"@,
        LanguageBase::Python => "py"@,
        LanguageBase::Text => "txt"@,
        LanguageBase::Unknown => "txt"@,
    }
}

impl LanguageBase {
    /// Classifies a language name; names that are not recognised give `Unknown`.
    pub fn from_name(value: &str) -> (r: LanguageBase)
        ensures
            r == language_of_name(value@),
    {
        if text_eq(value, "cpp") {
            LanguageBase::Cpp
        } else if text_eq(value, "ts") || text_eq(value, "typescript") {
            LanguageBase::TypeScript
        } else if text_eq(value, "js") || text_eq(value, "javascript") {
            LanguageBase::JavaScript
        } else if text_eq(value, "go") {
            LanguageBase::Go
        } else if text_eq(value, "py") || text_eq(value, "python") {
            LanguageBase::Python
        } else if text_eq(value, "text") || text_eq(value, "plaintext") {
            LanguageBase::Text
        } else {
            LanguageBase::Unknown
        }
    }

    pub fn extension(&self) -> (r: &'static str)
        ensures
            r@ == extension_of(*self),
    {
        match self {
            LanguageBase::Cpp => "cpp",
            LanguageBase::TypeScript => "ts",
            LanguageBase::JavaScript => "js",
            LanguageBase::Go => "go",
            LanguageBase::Python => "py",
            LanguageBase::Text => "txt",
            LanguageBase::Unknown => "txt",
        }
    }
}

impl<'a> From<&'a str> for LanguageBase {
    fn from(value: &'a str) -> (r: LanguageBase)
        ensures
            r == language_of_name(value@),
    {
        LanguageBase::from_name(value)
    }
}

impl<'a> vstd::std_specs::convert::FromSpecImpl<&'a str> for LanguageBase {
    open spec fn obeys_from_spec() -> bool {
        true
    }

    open spec fn from_spec(value: &'a str) -> LanguageBase {
        language_of_name(value@)
    }
}

} // verus!
