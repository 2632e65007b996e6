use pdf_ingest::ingest::{
    collect_records, ingest_all, ingest_file, status_line, DocumentRecord, Extraction,
    IngestError,
};
use pdf_ingest::oracle::{count_matches, needs_ingestion, select_pending};
use pdf_ingest::scan::{has_pdf_suffix, select_candidates};
use pdf_ingest::session::{step, QueryAction, QueryEvent, QueryState, PROMPT};

fn strings(v: &[&str]) -> Vec<String> {
    v.iter().map(|s| s.to_string()).collect()
}

fn one_block(text: &str) -> Extraction {
    Extraction::Blocks(vec![text.to_string()])
}

/// One full run against an in-memory store; `extract` stands for the extractor.
fn run_once(
    store: &mut Vec<DocumentRecord>,
    listing: &[&str],
    extract: &dyn Fn(&str) -> Extraction,
) -> (Vec<Result<DocumentRecord, IngestError>>, usize) {
    let candidates = select_candidates(&strings(listing));
    let counts: Vec<usize> = candidates.iter().map(|n| count_matches(store, n)).collect();
    let pending = select_pending(&candidates, &counts);
    let reports: Vec<Extraction> = pending.iter().map(|n| extract(n)).collect();
    let outcomes = ingest_all(&pending, &reports);
    let batch = collect_records(outcomes.clone());
    let written = batch.len();
    store.extend(batch);
    (outcomes, written)
}

fn scenario_extractor(name: &str) -> Extraction {
    match name {
        "a.pdf" => one_block("text of a"),
        "b.pdf" => one_block("text of b"),
        _ => Extraction::Failed,
    }
}

#[test]
fn pdf_suffix_is_case_sensitive_and_exact() {
    assert!(has_pdf_suffix("a.pdf"));
    assert!(has_pdf_suffix(".pdf"));
    assert!(has_pdf_suffix("résumé.pdf"));
    assert!(!has_pdf_suffix("a.PDF"));
    assert!(!has_pdf_suffix("pdf"));
    assert!(!has_pdf_suffix("xpdf"));
    assert!(!has_pdf_suffix("a.pdf.txt"));
    assert!(!has_pdf_suffix(""));
}

#[test]
fn candidates_keep_listing_order() {
    let listing = strings(&["b.pdf", "notes.txt", "a.pdf", "c.PDF", "d.pdf"]);
    assert_eq!(select_candidates(&listing), strings(&["b.pdf", "a.pdf", "d.pdf"]));
    assert_eq!(select_candidates(&Vec::new()), Vec::<String>::new());
}

#[test]
fn lookup_counts_matching_records() {
    let store = vec![
        DocumentRecord { content: "x".to_string(), document_name: "a.pdf".to_string() },
        DocumentRecord { content: "y".to_string(), document_name: "b.pdf".to_string() },
        DocumentRecord { content: "z".to_string(), document_name: "a.pdf".to_string() },
    ];
    assert_eq!(count_matches(&store, &"a.pdf".to_string()), 2);
    assert_eq!(count_matches(&store, &"b.pdf".to_string()), 1);
    assert_eq!(count_matches(&store, &"c.pdf".to_string()), 0);
    assert_eq!(count_matches(&Vec::new(), &"a.pdf".to_string()), 0);
}

#[test]
fn only_unmatched_files_are_pending() {
    assert!(needs_ingestion(0));
    assert!(!needs_ingestion(1));
    assert!(!needs_ingestion(3));
    let cands = strings(&["a.pdf", "b.pdf", "c.pdf"]);
    assert_eq!(select_pending(&cands, &vec![1, 0, 2]), strings(&["b.pdf"]));
    assert_eq!(select_pending(&cands, &vec![0, 0, 0]), cands);
    assert_eq!(select_pending(&cands, &vec![4, 1, 1]), Vec::<String>::new());
}

#[test]
fn single_block_becomes_tagged_record() {
    let r = ingest_file(&"a.pdf".to_string(), &one_block("hello"));
    assert_eq!(
        r,
        Ok(DocumentRecord { content: "hello".to_string(), document_name: "a.pdf".to_string() })
    );
}

#[test]
fn extraction_failure_is_recorded() {
    let r = ingest_file(&"c.pdf".to_string(), &Extraction::Failed);
    assert_eq!(r, Err(IngestError::ExtractionFailed));
}

#[test]
fn wrong_block_counts_are_failures() {
    let none = ingest_file(&"a.pdf".to_string(), &Extraction::Blocks(Vec::new()));
    assert_eq!(none, Err(IngestError::BlockCount(0)));
    let two = Extraction::Blocks(strings(&["p1", "p2"]));
    assert_eq!(ingest_file(&"a.pdf".to_string(), &two), Err(IngestError::BlockCount(2)));

    let names = strings(&["a.pdf", "b.pdf", "c.pdf"]);
    let reports = vec![one_block("a"), two, one_block("c")];
    let outcomes = ingest_all(&names, &reports);
    assert_eq!(outcomes.len(), 3);
    assert_eq!(outcomes[1], Err(IngestError::BlockCount(2)));
    let batch = collect_records(outcomes);
    let tags: Vec<&str> = batch.iter().map(|d| d.document_name.as_str()).collect();
    assert_eq!(tags, vec!["a.pdf", "c.pdf"]);
}

#[test]
fn corrupt_file_does_not_spoil_the_others() {
    let names = strings(&["v1.pdf", "v2.pdf", "bad.pdf", "v3.pdf", "v4.pdf"]);
    let reports = vec![
        one_block("1"),
        one_block("2"),
        Extraction::Failed,
        one_block("3"),
        one_block("4"),
    ];
    let outcomes = ingest_all(&names, &reports);
    assert_eq!(outcomes.len(), 5);
    assert_eq!(outcomes.iter().filter(|o| o.is_ok()).count(), 4);
    assert_eq!(outcomes[2], Err(IngestError::ExtractionFailed));
    let batch = collect_records(outcomes);
    assert_eq!(batch.len(), 4);
    assert_eq!(batch[2], DocumentRecord { content: "3".to_string(), document_name: "v3.pdf".to_string() });
}

#[test]
fn batch_is_exactly_the_successes() {
    let a = DocumentRecord { content: "A".to_string(), document_name: "a.pdf".to_string() };
    let b = DocumentRecord { content: "B".to_string(), document_name: "b.pdf".to_string() };
    let outcomes = vec![
        Ok(a.clone()),
        Err(IngestError::ExtractionFailed),
        Ok(b.clone()),
        Err(IngestError::BlockCount(3)),
    ];
    assert_eq!(collect_records(outcomes), vec![a, b]);
}

#[test]
fn all_failures_give_an_empty_batch() {
    let outcomes = vec![Err(IngestError::ExtractionFailed), Err(IngestError::BlockCount(0))];
    assert!(collect_records(outcomes).is_empty());
    assert!(collect_records(Vec::new()).is_empty());
}

#[test]
fn status_lines_mark_success_and_failure() {
    assert_eq!(status_line(&"a.pdf".to_string(), true), "a.pdf - ✅");
    assert_eq!(status_line(&"c.pdf".to_string(), false), "c.pdf - ❌");
}

#[test]
fn stored_files_are_not_extracted_again() {
    let mut store = vec![DocumentRecord {
        content: "old".to_string(),
        document_name: "a.pdf".to_string(),
    }];
    let extract = |name: &str| -> Extraction {
        assert_ne!(name, "a.pdf", "a stored file was handed to the extractor");
        one_block("new")
    };
    let (outcomes, written) = run_once(&mut store, &["a.pdf", "b.pdf"], &extract);
    assert_eq!(outcomes.len(), 1);
    assert_eq!(written, 1);
    assert_eq!(store.len(), 2);
    assert_eq!(store[1].document_name, "b.pdf");
}

#[test]
fn second_run_writes_nothing() {
    let mut store = Vec::new();
    let listing = ["x.pdf", "y.pdf", "readme.md"];
    let extract = |name: &str| one_block(name);
    let (_, first) = run_once(&mut store, &listing, &extract);
    assert_eq!(first, 2);
    let (outcomes, second) = run_once(&mut store, &listing, &extract);
    assert!(outcomes.is_empty());
    assert_eq!(second, 0);
    assert_eq!(store.len(), 2);
}

#[test]
fn two_valid_and_one_broken_file_end_to_end() {
    let mut store = Vec::new();
    let listing = ["a.pdf", "b.pdf", "c.pdf"];
    let (outcomes, written) = run_once(&mut store, &listing, &scenario_extractor);
    assert_eq!(written, 2);
    assert_eq!(
        store,
        vec![
            DocumentRecord { content: "text of a".to_string(), document_name: "a.pdf".to_string() },
            DocumentRecord { content: "text of b".to_string(), document_name: "b.pdf".to_string() },
        ]
    );
    assert_eq!(outcomes[2], Err(IngestError::ExtractionFailed));
    assert_eq!(status_line(&"c.pdf".to_string(), outcomes[2].is_ok()), "c.pdf - ❌");

    let (_, again) = run_once(&mut store, &listing, &scenario_extractor);
    assert_eq!(again, 0);
    assert_eq!(store.len(), 2);
}

#[test]
fn query_loop_moves_between_its_states() {
    assert_eq!(PROMPT, "Ask> ");
    let (s, a) = step(QueryState::AwaitingInput, QueryEvent::LineRead("why?".to_string()));
    assert_eq!(s, QueryState::Processing);
    assert_eq!(a, QueryAction::Invoke("why?".to_string()));
    let (s, a) = step(s, QueryEvent::Answered("because".to_string()));
    assert_eq!(s, QueryState::AwaitingInput);
    assert_eq!(a, QueryAction::Show("because".to_string()));
    let (s, a) = step(QueryState::Processing, QueryEvent::Failed("down".to_string()));
    assert_eq!(s, QueryState::AwaitingInput);
    assert_eq!(a, QueryAction::ShowError("down".to_string()));
    let (s, a) = step(s, QueryEvent::EndOfInput);
    assert_eq!(s, QueryState::Finished);
    assert_eq!(a, QueryAction::Stop);
}

#[test]
fn query_loop_ignores_unexpected_events() {
    let (s, a) = step(QueryState::AwaitingInput, QueryEvent::Answered("x".to_string()));
    assert_eq!((s, a), (QueryState::AwaitingInput, QueryAction::Wait));
    let (s, a) = step(QueryState::Processing, QueryEvent::LineRead("q".to_string()));
    assert_eq!((s, a), (QueryState::Processing, QueryAction::Wait));
    let (s, a) = step(QueryState::Finished, QueryEvent::LineRead("q".to_string()));
    assert_eq!((s, a), (QueryState::Finished, QueryAction::Wait));
}
