use voxweave::processor::{Action, BatchProcessor, BatchStatus, Event, FailureKind, LogLevel, Stage};

fn names(list: &[&str]) -> Vec<String> {
    list.iter().map(|n| n.to_string()).collect()
}

#[test]
fn full_batch_completes_with_full_progress() {
    let mut p = BatchProcessor::new(names(&["a.txt", "b.txt"]));
    assert_eq!(p.handle(Event::Start), Action::Continue);
    for i in 0..2 {
        assert_eq!(p.handle(Event::Boundary { cancel: false }), Action::Process(i));
        assert_eq!(p.handle(Event::Enter { stage: Stage::Synthesize, cancel: false }), Action::Continue);
        assert_eq!(p.handle(Event::ItemDone), Action::Continue);
    }
    assert_eq!(p.handle(Event::Boundary { cancel: false }), Action::Stop(BatchStatus::Completed));
    assert_eq!(p.status(), BatchStatus::Completed);
    assert_eq!(p.progress(), 100);
    assert_eq!(p.completed(), 2);
    let log: Vec<&str> = p.log().iter().map(|e| e.message.as_str()).collect();
    assert_eq!(
        log,
        vec![
            "Processing item 1/2: a.txt",
            "Generating audio...",
            "Completed: a.txt",
            "Processing item 2/2: b.txt",
            "Generating audio...",
            "Completed: b.txt",
            "All items processed successfully!",
        ]
    );
}

#[test]
fn cancelling_mid_run_starts_nothing_more() {
    let mut p = BatchProcessor::new(names(&["a", "b", "c"]));
    p.handle(Event::Start);
    assert_eq!(p.handle(Event::Boundary { cancel: false }), Action::Process(0));
    assert_eq!(p.handle(Event::ItemDone), Action::Continue);
    assert_eq!(p.handle(Event::Boundary { cancel: false }), Action::Process(1));
    assert_eq!(
        p.handle(Event::Enter { stage: Stage::Synthesize, cancel: true }),
        Action::Stop(BatchStatus::Cancelled)
    );
    assert_eq!(p.handle(Event::Boundary { cancel: false }), Action::Ignored);
    assert_eq!(p.handle(Event::ItemDone), Action::Ignored);
    assert_eq!(p.status(), BatchStatus::Cancelled);
    assert_eq!(p.completed(), 1);
    let last = p.log().last().unwrap();
    assert_eq!(last.message, "Processing cancelled by user");
    assert_eq!(last.level, LogLevel::Notice);
}

#[test]
fn cancel_at_boundary() {
    let mut p = BatchProcessor::new(names(&["a"]));
    p.handle(Event::Start);
    assert_eq!(p.handle(Event::Boundary { cancel: true }), Action::Stop(BatchStatus::Cancelled));
    assert_eq!(p.progress(), 0);
}

#[test]
fn skipped_items_do_not_stop_the_batch_but_failures_do() {
    let mut p = BatchProcessor::new(names(&["a", "b", "c", "d"]));
    p.handle(Event::Start);
    p.handle(Event::Boundary { cancel: false });
    let skip = Event::ItemFailed { kind: FailureKind::MissingSource, reason: "Source file not found: a".into() };
    assert_eq!(p.handle(skip), Action::Continue);
    assert_eq!(p.progress(), 25);
    assert_eq!(p.handle(Event::Boundary { cancel: false }), Action::Process(1));
    p.handle(Event::Enter { stage: Stage::Subtitle, cancel: false });
    assert_eq!(p.progress(), 37);
    let fail = Event::ItemFailed { kind: FailureKind::Synthesis, reason: "backend".into() };
    assert_eq!(p.handle(fail), Action::Stop(BatchStatus::Failed));
    assert_eq!(p.status(), BatchStatus::Failed);
    assert_eq!(p.completed(), 0);
}

#[test]
fn failure_policy_per_kind() {
    assert!(FailureKind::MissingSource.skips_item());
    assert!(FailureKind::Video.skips_item());
    for k in [FailureKind::ReadSource, FailureKind::OutputDir, FailureKind::Synthesis, FailureKind::ConvertFormat, FailureKind::WriteSubtitles] {
        assert!(!k.skips_item());
    }
}

#[test]
fn progress_never_goes_down() {
    let mut p = BatchProcessor::new(names(&["a", "b"]));
    p.handle(Event::Start);
    p.handle(Event::Boundary { cancel: false });
    p.handle(Event::Enter { stage: Stage::Video, cancel: false });
    let high = p.progress();
    assert_eq!(high, 35);
    p.handle(Event::Enter { stage: Stage::Read, cancel: false });
    assert_eq!(p.progress(), high);
}

#[test]
fn empty_batch_completes_at_once() {
    let mut p = BatchProcessor::new(Vec::new());
    p.handle(Event::Start);
    assert_eq!(p.handle(Event::Boundary { cancel: false }), Action::Stop(BatchStatus::Completed));
    assert_eq!(p.progress(), 100);
}
