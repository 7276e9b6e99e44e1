use cpbench_core::catalog::Catalog;
use cpbench_core::config::WorkspaceConfig;
use cpbench_core::document::DocumentRepo;
use cpbench_core::events::{EventBridge, UiEvent};
use cpbench_core::ingest::{handle_competitive_companion_message, ingest_message};
use cpbench_core::listener::report_connection;
use cpbench_core::message::{
    CompetitiveCompanionBatch, CompetitiveCompanionInputType, CompetitiveCompanionLanguages,
    CompetitiveCompanionMessage, CompetitiveCompanionOutputType, CompetitiveCompanionTest,
    CompetitiveCompanionTestType,
};

fn message(tests: Vec<(&str, &str)>) -> CompetitiveCompanionMessage {
    CompetitiveCompanionMessage {
        name: "A+B".to_string(),
        group: "Demo".to_string(),
        url: "http://example/1".to_string(),
        interactive: None,
        memory_limit: 256,
        time_limit: 1000,
        tests: tests
            .into_iter()
            .map(|(i, o)| CompetitiveCompanionTest { input: i.to_string(), output: o.to_string() })
            .collect(),
        test_type: CompetitiveCompanionTestType::Single,
        input: CompetitiveCompanionInputType::Stdin,
        output: CompetitiveCompanionOutputType::Stdout,
        languages: CompetitiveCompanionLanguages { java: None },
        batch: CompetitiveCompanionBatch { id: "b".to_string(), size: 1 },
    }
}

fn config() -> WorkspaceConfig {
    WorkspaceConfig {
        font_family: "mono".to_string(),
        font_size: 12,
        language: vec![],
        default_language: None,
        duplicate_save: false,
        duplicate_save_location: None,
    }
}

#[test]
fn ingest_one_problem_end_to_end() {
    let mut catalog = Catalog::new();
    let mut docs = DocumentRepo::new();
    let mut events = EventBridge::new();
    let msg = message(vec![("1 2\n", "3\n")]);
    let outcome = handle_competitive_companion_message(&mut catalog, &mut docs, &config(), &msg)
        .map_err(|e| format!("{:?}", e));
    report_connection(&mut events, "peer", outcome.clone());
    let pid = outcome.unwrap();
    assert_eq!(catalog.problems.len(), 1);
    assert_eq!(catalog.testcases.len(), 1);
    let p = &catalog.problems[0];
    assert_eq!(p.id, pid);
    assert_eq!(p.name, "A+B");
    assert_eq!(p.description.as_deref(), Some("Demo"));
    assert_eq!(p.url.as_deref(), Some("http://example/1"));
    assert_eq!(p.time_limit, 1000);
    assert_eq!(p.memory_limit, 256);
    assert!(p.solutions[0].author.is_some());
    let t = &catalog.testcases[0];
    assert_eq!(t.problem_id, pid);
    assert_eq!(docs.get_string_of_doc(&t.input_document_id, "content"), Ok("1 2\n".to_string()));
    assert_eq!(docs.get_string_of_doc(&t.answer_document_id, "content"), Ok("3\n".to_string()));
    let all = events.drain();
    assert_eq!(all.len(), 1);
    match &all[0] {
        UiEvent::Invalidate(q) => assert_eq!(q.query_key, Some(vec!["problems".to_string()])),
        _ => panic!("expected an invalidation"),
    }
}

#[test]
fn ingest_keeps_the_order_of_tests() {
    let mut catalog = Catalog::new();
    let mut docs = DocumentRepo::new();
    let msg = message(vec![("a", "1"), ("b", "2"), ("c", "3")]);
    let pid = ingest_message(&mut catalog, &mut docs, &config(), &msg, "ann".to_string()).unwrap();
    assert_eq!(pid, "problem-0");
    assert_eq!(catalog.problems[0].solutions[0].author.as_deref(), Some("ann"));
    assert_eq!(catalog.problems[0].checker.as_deref(), Some("ncmp"));
    for (k, (i, o)) in [("a", "1"), ("b", "2"), ("c", "3")].iter().enumerate() {
        let t = &catalog.testcases[k];
        assert_eq!(docs.get_string_of_doc(&t.input_document_id, "content"), Ok(i.to_string()));
        assert_eq!(docs.get_string_of_doc(&t.answer_document_id, "content"), Ok(o.to_string()));
    }
}

#[test]
fn ingest_without_tests_creates_only_the_problem() {
    let mut catalog = Catalog::new();
    let mut docs = DocumentRepo::new();
    let pid = ingest_message(&mut catalog, &mut docs, &config(), &message(vec![]), "ann".to_string()).unwrap();
    assert_eq!(pid, "problem-0");
    assert!(catalog.testcases.is_empty());
    assert!(docs.sessions.is_empty());
}
