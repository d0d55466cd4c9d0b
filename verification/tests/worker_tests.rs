use butai::scraper::ScrapeResult;
use butai::site::{ScraperKind, SiteHints};
use butai::worker::{ScrapeAction, Worker, WorkerStep};

fn hints(scraper: Option<ScraperKind>, stable_count: u32) -> SiteHints {
    SiteHints { scraper, stable_count }
}

#[test]
fn new_run_starts_lightest_without_memory() {
    let w = Worker::new(hints(None, 4));
    assert_eq!(w.kind, ScraperKind::Phantom);
    assert_eq!(w.hints, hints(None, 4));
}

#[test]
fn new_run_starts_with_remembered_kind() {
    let w = Worker::new(hints(Some(ScraperKind::Script), 2));
    assert_eq!(w.kind, ScraperKind::Script);
}

#[test]
fn success_records_kind_and_counts() {
    let w = Worker { kind: ScraperKind::Script, hints: hints(None, 5) };
    assert_eq!(w.step(ScrapeResult::Success), WorkerStep::Done(hints(Some(ScraperKind::Script), 6)));
}

#[test]
fn unsupported_escalates_keeping_hints() {
    let w = Worker { kind: ScraperKind::Phantom, hints: hints(Some(ScraperKind::Phantom), 5) };
    assert_eq!(
        w.step(ScrapeResult::Unsupported),
        WorkerStep::Retry(Worker { kind: ScraperKind::Script, hints: hints(Some(ScraperKind::Phantom), 5) })
    );
}

#[test]
fn error_escalates_and_breaks_streak() {
    let w = Worker { kind: ScraperKind::Script, hints: hints(Some(ScraperKind::Script), 5) };
    assert_eq!(
        w.step(ScrapeResult::Error),
        WorkerStep::Retry(Worker { kind: ScraperKind::Scout, hints: hints(Some(ScraperKind::Script), 0) })
    );
}

#[test]
fn heaviest_unsupported_ends_run() {
    let w = Worker { kind: ScraperKind::Scout, hints: hints(Some(ScraperKind::Phantom), 5) };
    assert_eq!(w.step(ScrapeResult::Unsupported), WorkerStep::Done(hints(Some(ScraperKind::Phantom), 0)));
}

#[test]
fn heaviest_error_ends_run() {
    let w = Worker { kind: ScraperKind::Scout, hints: hints(None, 1) };
    assert_eq!(w.step(ScrapeResult::Error), WorkerStep::Done(hints(None, 0)));
}

fn run(start: SiteHints, answers: &[ScrapeResult]) -> (SiteHints, usize) {
    let mut w = Worker::new(start);
    let mut used = 0;
    for answer in answers {
        used += 1;
        match w.step(*answer) {
            WorkerStep::Done(h) => return (h, used),
            WorkerStep::Retry(next) => w = next,
        }
    }
    panic!("run did not end");
}

#[test]
fn run_of_failures_ends_after_three_attempts() {
    let answers = [ScrapeResult::Error, ScrapeResult::Unsupported, ScrapeResult::Error, ScrapeResult::Success];
    assert_eq!(run(hints(Some(ScraperKind::Phantom), 3), &answers), (hints(Some(ScraperKind::Phantom), 0), 3));
}

#[test]
fn run_that_succeeds_later_is_remembered() {
    let answers = [ScrapeResult::Unsupported, ScrapeResult::Success];
    let (end, used) = run(hints(None, 3), &answers);
    assert_eq!((end, used), (hints(Some(ScraperKind::Script), 4), 2));
    assert_eq!(Worker::new(end).kind, ScraperKind::Script);
}

#[test]
fn run_from_remembered_scout_has_one_attempt() {
    let answers = [ScrapeResult::Unsupported, ScrapeResult::Success];
    assert_eq!(run(hints(Some(ScraperKind::Scout), 8), &answers), (hints(Some(ScraperKind::Scout), 0), 1));
}

#[test]
fn each_kind_has_its_action() {
    let w = Worker::new(hints(None, 0));
    assert_eq!(w.action(), ScrapeAction::Api);
    let w = Worker::new(hints(Some(ScraperKind::Script), 0));
    assert_eq!(w.action(), ScrapeAction::Html);
    let w = Worker::new(hints(Some(ScraperKind::Scout), 0));
    assert_eq!(w.action(), ScrapeAction::Js);
}
