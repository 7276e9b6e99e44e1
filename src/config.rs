use vstd::prelude::*;
use vstd::string::*;
use crate::language::LanguageBase;
use crate::text::text_eq;

verus! {

/// The name of the environment variable that points at the bundled language servers.
pub const ENV_KEY_BUNDLED_LSP: &'static str = "BUNDLED_LSP";

/// How the editor talks to a language server.
#[derive(Debug, Clone, Copy, PartialEq, Eq, Structural)]
pub enum LanguageServerProtocolConnectionType {
    StdIO,
    WebSocket,
}

/// A configured language: how to compile and run it, and its editor support.
#[derive(Debug, Clone)]
pub struct AdvLanguageItem {
    pub base: LanguageBase,
    pub cmd_compile: String,
    pub cmd_before_run: Option<String>,
    pub cmd_after_run: Option<String>,
    pub cmd_run: String,
    pub lsp: Option<String>,
    pub lsp_connect: Option<LanguageServerProtocolConnectionType>,
    pub initial_solution_content: Option<String>,
}

/// The workspace configuration. `language` maps a language name to its
/// settings, in the order the entries were written.
#[derive(Debug, Clone)]
pub struct WorkspaceConfig {
    pub font_family: String,
    pub font_size: u32,
    pub language: Vec<(String, AdvLanguageItem)>,
    pub default_language: Option<String>,
    pub duplicate_save: bool,
    pub duplicate_save_location: Option<String>,
}

/// The configuration as read from the workspace's local file, where absent
/// fields take their defaults.
#[derive(Debug, Clone)]
pub struct WorkspaceLocalDeserialized {
    pub font_family: String,
    pub font_size: u32,
    pub language: Vec<(String, AdvLanguageItem)>,
    pub default_language: Option<String>,
    pub duplicate_save: bool,
    pub duplicate_save_location: Option<String>,
}

fn duplicate_opt(o: &Option<String>) -> (r: Option<String>)
    ensures
        r == *o,
{
    match o {
        Some(s) => Some(s.clone()),
        None => None,
    }
}

impl AdvLanguageItem {
    /// A field-by-field copy.
    pub fn duplicate(&self) -> (r: AdvLanguageItem)
        ensures
            r == *self,
    {
        AdvLanguageItem {
            base: self.base,
            cmd_compile: self.cmd_compile.clone(),
            cmd_before_run: duplicate_opt(&self.cmd_before_run),
            cmd_after_run: duplicate_opt(&self.cmd_after_run),
            cmd_run: self.cmd_run.clone(),
            lsp: duplicate_opt(&self.lsp),
            lsp_connect: self.lsp_connect,
            initial_solution_content: duplicate_opt(&self.initial_solution_content),
        }
    }
}

/// Two configurations hold the same settings.
pub open spec fn same_config(a: WorkspaceConfig, b: WorkspaceConfig) -> bool {
    &&& a.font_family == b.font_family
    &&& a.font_size == b.font_size
    &&& a.language@ == b.language@
    &&& a.default_language == b.default_language
    &&& a.duplicate_save == b.duplicate_save
    &&& a.duplicate_save_location == b.duplicate_save_location
}

impl WorkspaceConfig {
    /// A field-by-field copy.
    pub fn duplicate(&self) -> (r: WorkspaceConfig)
        ensures
            same_config(r, *self),
    {
        let mut language: Vec<(String, AdvLanguageItem)> = Vec::new();
        let mut k: usize = 0;
        while k < self.language.len()
            invariant
                k <= self.language@.len(),
                language@ == self.language@.subrange(0, k as int),
            decreases self.language.len() - k,
        {
            let entry = (self.language[k].0.clone(), self.language[k].1.duplicate());
            language.push(entry);
            assert(language@ == self.language@.subrange(0, k + 1));
            k = k + 1;
        }
        assert(self.language@.subrange(0, k as int) == self.language@);
        WorkspaceConfig {
            font_family: self.font_family.clone(),
            font_size: self.font_size,
            language,
            default_language: duplicate_opt(&self.default_language),
            duplicate_save: self.duplicate_save,
            duplicate_save_location: duplicate_opt(&self.duplicate_save_location),
        }
    }
}

/// The index of the first entry named `key`, if any.
pub open spec fn entry_index(entries: Seq<(String, AdvLanguageItem)>, key: Seq<char>) -> Option<int> {
    if exists|i: int| 0 <= i < entries.len() && #[trigger] entries[i].0@ == key {
        Some(
            choose|i: int|
                0 <= i < entries.len() && #[trigger] entries[i].0@ == key && forall|j: int|
                    0 <= j < i ==> #[trigger] entries[j].0@ != key,
        )
    } else {
        None
    }
}

/// Finds the first entry named `key`.
pub fn find_language(entries: &Vec<(String, AdvLanguageItem)>, key: &str) -> (r: Option<usize>)
    ensures
        match r {
            Some(i) => entry_index(entries@, key@) == Some(i as int) && i < entries@.len(),
            None => entry_index(entries@, key@) is None,
        },
{
    let mut i: usize = 0;
    while i < entries.len()
        invariant
            i <= entries@.len(),
            forall|j: int| 0 <= j < i ==> #[trigger] entries@[j].0@ != key@,
        decreases entries.len() - i,
    {
        if text_eq(entries[i].0.as_str(), key) {
            let ghost w = choose|k: int|
                0 <= k < entries@.len() && #[trigger] entries@[k].0@ == key@ && forall|j: int|
                    0 <= j < k ==> #[trigger] entries@[j].0@ != key@;
            assert(0 <= i < entries@.len() && entries@[i as int].0@ == key@);
            proof {
                if w < i {
                    assert(entries@[w].0@ != key@);
                } else if w > i {
                    assert(entries@[i as int].0@ != key@);
                }
            }
            return Some(i);
        }
        i = i + 1;
    }
    None
}

/// Relies on `std::path::MAIN_SEPARATOR_STR`: the platform's path separator,
/// which is `/` or `\`.
#[verifier::external_body]
fn main_separator() -> (r: &'static str)
    ensures
        r@ == "/"@ || r@ == "\\"@,
{
    std::path::MAIN_SEPARATOR_STR
}

/// The run command of the default C++ language on a platform with separator `sep`.
pub open spec fn default_cpp_run(sep: Seq<char>) -> Seq<char> {
    if sep == "\\"@ {
        "%CWD\\main.exe"@
    } else {
        "%CWD/main"@
    }
}

/// The language server command of the default C++ language on a platform
/// with separator `sep`.
pub open spec fn default_cpp_lsp(sep: Seq<char>) -> Seq<char> {
    "%"@ + ENV_KEY_BUNDLED_LSP@ + sep + (if sep == "\\"@ {
        "clangd.exe"@
    } else {
        "clangd"@
    })
}

/// What the default language table holds, given the platform's separator.
pub open spec fn is_default_language_table(t: Seq<(String, AdvLanguageItem)>, sep: Seq<char>) -> bool {
    &&& t.len() == 1
    &&& t[0].0@ == "cpp 17"@
    &&& t[0].1.base == LanguageBase::Cpp
    &&& t[0].1.cmd_compile@ == "g++ -std=c++17 -o main %SRC"@
    &&& t[0].1.cmd_before_run is None
    &&& t[0].1.cmd_after_run is None
    &&& t[0].1.cmd_run@ == default_cpp_run(sep)
    &&& t[0].1.lsp matches Some(l) && l@ == default_cpp_lsp(sep)
    &&& t[0].1.lsp_connect == Some(LanguageServerProtocolConnectionType::StdIO)
    &&& t[0].1.initial_solution_content matches Some(c) && c@
        == "#include<iostream>\nint main(){\n\treturn 0;\n}"@
}

/// The default font family.
pub open spec fn default_font_family_text() -> Seq<char> {
    "\"JetBrains Mono\", Consolas, 'Courier New', monospace"@
}

impl WorkspaceLocalDeserialized {
    pub fn default_font_size() -> (r: u32)
        ensures
            r == 14,
    {
        14
    }

    pub fn default_font_family() -> (r: String)
        ensures
            r@ == default_font_family_text(),
    {
        String::from_str("\"JetBrains Mono\", Consolas, 'Courier New', monospace")
    }

    /// The default language table: one C++17 entry, with the platform's
    /// executable and language-server paths.
    pub fn default_language() -> (r: Vec<(String, AdvLanguageItem)>)
        ensures
            is_default_language_table(r@, "/"@) || is_default_language_table(r@, "\\"@),
    {
        let sep = main_separator();
        let windows = text_eq(sep, "\\");
        let cmd_run = if windows {
            String::from_str("%CWD\\main.exe")
        } else {
            String::from_str("%CWD/main")
        };
        let lsp = String::from_str("%").concat(ENV_KEY_BUNDLED_LSP).concat(sep).concat(
            if windows {
                "clangd.exe"
            } else {
                "clangd"
            },
        );
        let item = AdvLanguageItem {
            base: LanguageBase::Cpp,
            cmd_compile: String::from_str("g++ -std=c++17 -o main %SRC"),
            cmd_before_run: None,
            cmd_after_run: None,
            cmd_run,
            lsp: Some(lsp),
            lsp_connect: Some(LanguageServerProtocolConnectionType::StdIO),
            initial_solution_content: Some(
                String::from_str("#include<iostream>\nint main(){\n\treturn 0;\n}"),
            ),
        };
        let mut language: Vec<(String, AdvLanguageItem)> = Vec::new();
        language.push((String::from_str("cpp 17"), item));
        language
    }

    pub fn default_duplicate_save() -> (r: bool)
        ensures
            r == false,
    {
        false
    }

    pub fn default_duplicate_save_location() -> (r: Option<String>)
        ensures
            r is None,
    {
        None
    }
}

impl Default for WorkspaceLocalDeserialized {
    fn default() -> (r: Self)
        ensures
            r.font_family@ == default_font_family_text(),
            r.font_size == 14,
            is_default_language_table(r.language@, "/"@) || is_default_language_table(
                r.language@,
                "\\"@,
            ),
            r.default_language is None,
            r.duplicate_save == false,
            r.duplicate_save_location is None,
    {
        WorkspaceLocalDeserialized {
            language: Self::default_language(),
            font_family: Self::default_font_family(),
            font_size: Self::default_font_size(),
            default_language: None,
            duplicate_save: Self::default_duplicate_save(),
            duplicate_save_location: Self::default_duplicate_save_location(),
        }
    }
}

impl From<WorkspaceLocalDeserialized> for WorkspaceConfig {
    fn from(value: WorkspaceLocalDeserialized) -> (r: Self)
        ensures
            r.font_family == value.font_family,
            r.font_size == value.font_size,
            r.language == value.language,
            r.default_language == value.default_language,
            r.duplicate_save == value.duplicate_save,
            r.duplicate_save_location == value.duplicate_save_location,
    {
        WorkspaceConfig {
            font_family: value.font_family,
            font_size: value.font_size,
            language: value.language,
            default_language: value.default_language,
            duplicate_save: value.duplicate_save,
            duplicate_save_location: value.duplicate_save_location,
        }
    }
}

impl vstd::std_specs::convert::FromSpecImpl<WorkspaceLocalDeserialized> for WorkspaceConfig {
    open spec fn obeys_from_spec() -> bool {
        true
    }

    open spec fn from_spec(value: WorkspaceLocalDeserialized) -> WorkspaceConfig {
        WorkspaceConfig {
            font_family: value.font_family,
            font_size: value.font_size,
            language: value.language,
            default_language: value.default_language,
            duplicate_save: value.duplicate_save,
            duplicate_save_location: value.duplicate_save_location,
        }
    }
}

} // verus!
