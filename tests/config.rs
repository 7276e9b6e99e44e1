use cpbench_core::commands::set_workspace_config;
use cpbench_core::events::{EventBridge, UiEvent};
use cpbench_core::config::{
    AdvLanguageItem, LanguageServerProtocolConnectionType, WorkspaceConfig,
    WorkspaceLocalDeserialized,
};
use cpbench_core::language::LanguageBase;
use cpbench_core::params::{get_default_create_problem_params, get_default_create_solution_params};

fn item(content: Option<&str>) -> AdvLanguageItem {
    AdvLanguageItem {
        base: LanguageBase::Python,
        cmd_compile: String::new(),
        cmd_before_run: None,
        cmd_after_run: None,
        cmd_run: "python3 %SRC".to_string(),
        lsp: None,
        lsp_connect: None,
        initial_solution_content: content.map(|c| c.to_string()),
    }
}

fn config(language: Vec<(String, AdvLanguageItem)>, default_language: Option<&str>) -> WorkspaceConfig {
    WorkspaceConfig {
        font_family: "mono".to_string(),
        font_size: 12,
        language,
        default_language: default_language.map(|d| d.to_string()),
        duplicate_save: false,
        duplicate_save_location: None,
    }
}

#[test]
fn language_names_and_extensions() {
    assert_eq!(LanguageBase::from_name("cpp"), LanguageBase::Cpp);
    assert_eq!(LanguageBase::from_name("typescript"), LanguageBase::TypeScript);
    assert_eq!(LanguageBase::from_name("js"), LanguageBase::JavaScript);
    assert_eq!(LanguageBase::from_name("go"), LanguageBase::Go);
    assert_eq!(LanguageBase::from_name("py"), LanguageBase::Python);
    assert_eq!(LanguageBase::from_name("plaintext"), LanguageBase::Text);
    assert_eq!(LanguageBase::from_name("rust"), LanguageBase::Unknown);
    assert_eq!(LanguageBase::from_name(""), LanguageBase::Unknown);
    assert_eq!(LanguageBase::Cpp.extension(), "cpp");
    assert_eq!(LanguageBase::TypeScript.extension(), "ts");
    assert_eq!(LanguageBase::Python.extension(), "py");
    assert_eq!(LanguageBase::Text.extension(), "txt");
    assert_eq!(LanguageBase::Unknown.extension(), "txt");
}

#[test]
fn local_defaults() {
    assert_eq!(WorkspaceLocalDeserialized::default_font_size(), 14);
    assert_eq!(
        WorkspaceLocalDeserialized::default_font_family(),
        "\"JetBrains Mono\", Consolas, 'Courier New', monospace"
    );
    assert!(!WorkspaceLocalDeserialized::default_duplicate_save());
    assert!(WorkspaceLocalDeserialized::default_duplicate_save_location().is_none());
    let d = WorkspaceLocalDeserialized::default();
    assert_eq!(d.font_size, 14);
    assert!(d.default_language.is_none());
}

#[test]
fn default_language_table_follows_the_platform() {
    let table = WorkspaceLocalDeserialized::default_language();
    assert_eq!(table.len(), 1);
    let (name, cpp) = &table[0];
    assert_eq!(name, "cpp 17");
    assert_eq!(cpp.base, LanguageBase::Cpp);
    assert_eq!(cpp.cmd_compile, "g++ -std=c++17 -o main %SRC");
    assert_eq!(cpp.lsp_connect, Some(LanguageServerProtocolConnectionType::StdIO));
    let sep = std::path::MAIN_SEPARATOR_STR;
    let exe = if sep == "\\" { ".exe" } else { "" };
    assert_eq!(cpp.cmd_run, format!("%CWD{}main{}", sep, exe));
    assert_eq!(cpp.lsp, Some(format!("%BUNDLED_LSP{}clangd{}", sep, exe)));
    assert_eq!(
        cpp.initial_solution_content.as_deref(),
        Some("#include<iostream>\nint main(){\n\treturn 0;\n}")
    );
}

#[test]
fn local_config_converts_field_by_field() {
    let mut local = WorkspaceLocalDeserialized::default();
    local.default_language = Some("cpp 17".to_string());
    local.duplicate_save = true;
    let cfg: WorkspaceConfig = local.into();
    assert_eq!(cfg.font_size, 14);
    assert_eq!(cfg.default_language.as_deref(), Some("cpp 17"));
    assert!(cfg.duplicate_save);
    assert_eq!(cfg.language.len(), 1);
}

#[test]
fn solution_defaults_use_the_configured_language() {
    let cfg = config(
        vec![("cpp".to_string(), item(Some("// c"))), ("py".to_string(), item(Some("# p")))],
        Some("py"),
    );
    let p = get_default_create_solution_params(&cfg, "A".to_string(), "ann".to_string());
    assert_eq!(p.name, "A");
    assert_eq!(p.author.as_deref(), Some("ann"));
    assert_eq!(p.language, "py");
    assert_eq!(p.content.as_deref(), Some("# p"));
}

#[test]
fn solution_defaults_fall_back_to_the_first_language_then_text() {
    let cfg = config(vec![("cpp".to_string(), item(Some("// c")))], None);
    let p = get_default_create_solution_params(&cfg, "A".to_string(), "ann".to_string());
    assert_eq!(p.language, "cpp");
    assert_eq!(p.content.as_deref(), Some("// c"));
    let empty = config(vec![], None);
    let p = get_default_create_solution_params(&empty, "A".to_string(), "ann".to_string());
    assert_eq!(p.language, "text");
    assert!(p.content.is_none());
    let unknown = config(vec![("cpp".to_string(), item(None))], Some("go"));
    let p = get_default_create_solution_params(&unknown, "A".to_string(), "ann".to_string());
    assert_eq!(p.language, "go");
    assert!(p.content.is_none());
}

#[test]
fn problem_defaults() {
    let cfg = config(vec![("cpp".to_string(), item(Some("// c")))], None);
    let p = get_default_create_problem_params(
        &cfg,
        "A+B".to_string(),
        Some("Demo".to_string()),
        None,
        None,
        "ann".to_string(),
    );
    assert_eq!(p.name, "A+B");
    assert_eq!(p.description.as_deref(), Some("Demo"));
    assert_eq!(p.checker.as_deref(), Some("ncmp"));
    assert_eq!(p.time_limit, 3000);
    assert_eq!(p.memory_limit, 1024);
    let s = p.initial_solution.unwrap();
    assert_eq!(s.name, "A+B");
    assert_eq!(s.language, "cpp");
}

#[test]
fn language_from_str() {
    assert_eq!(LanguageBase::from("javascript"), LanguageBase::JavaScript);
    assert_eq!(LanguageBase::from("python"), LanguageBase::Python);
    assert_eq!(LanguageBase::from("text"), LanguageBase::Text);
    assert_eq!(LanguageBase::from("CPP"), LanguageBase::Unknown);
}

#[test]
fn setting_the_workspace_config_announces_it() {
    let mut current = config(vec![], None);
    let mut events = EventBridge::new();
    let data = config(vec![("py".to_string(), item(Some("# p")))], Some("py"));
    set_workspace_config(&mut current, &mut events, data);
    assert_eq!(current.default_language.as_deref(), Some("py"));
    assert_eq!(current.language.len(), 1);
    assert_eq!(current.language[0].1.initial_solution_content.as_deref(), Some("# p"));
    let all = events.drain();
    assert_eq!(all.len(), 1);
    match &all[0] {
        UiEvent::WorkspaceConfigUpdate(u) => assert_eq!(u.new.language[0].0, "py"),
        _ => panic!("expected a configuration update"),
    }
}
