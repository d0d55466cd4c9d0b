//! One scraping run of one site, as a state machine: the caller performs the
//! scrape that the state names, and hands the scraper's answer back.
use vstd::prelude::*;

use crate::scraper::ScrapeResult;
use crate::site::{elevated, kind_rank, lemma_elevation_climbs, ScraperKind, SiteHints};

verus! {

/// A scraping run in progress: the kind of scraper to try next, and the
/// hints as they stand.
#[derive(Debug, Clone, Copy, PartialEq, Eq, Structural)]
pub struct Worker {
    pub kind: ScraperKind,
    pub hints: SiteHints,
}

/// The scrape that the caller is to perform for a kind of scraper.
#[derive(Debug, Clone, Copy, PartialEq, Eq, Structural)]
pub enum ScrapeAction {
    /// Ask the API of the site.
    Api,
    /// Read the HTML of the site, rendered by the browser.
    Html,
    /// Drive the JavaScript of the page.
    Js,
}

/// `Phantom` scrapes through the API, `Script` through the HTML, and
/// `Scout` through the JavaScript.
pub open spec fn action_of(kind: ScraperKind) -> ScrapeAction {
    match kind {
        ScraperKind::Phantom => ScrapeAction::Api,
        ScraperKind::Script => ScrapeAction::Html,
        ScraperKind::Scout => ScrapeAction::Js,
    }
}

/// What the run does after a scraper has answered.
#[derive(Debug, Clone, Copy, PartialEq, Eq, Structural)]
pub enum WorkerStep {
    /// Scrape again, with the kind of scraper that the new state names.
    Retry(Worker),
    /// The run is over; these hints are to be stored for the site.
    Done(SiteHints),
}

/// The kind of scraper a run starts with: the one that last succeeded on
/// the site, or the lightest one if none has.
pub open spec fn start_kind(hints: SiteHints) -> ScraperKind {
    match hints.scraper {
        Some(kind) => kind,
        None => ScraperKind::Phantom,
    }
}

/// The hints with the run of successes broken.
pub open spec fn unstable(hints: SiteHints) -> SiteHints {
    SiteHints { scraper: hints.scraper, stable_count: 0 }
}

/// What follows an answer of the scraper of the current kind:
/// - success records the kind as the one that works and counts the success,
///   and ends the run;
/// - an unsupported site is tried with the next heavier kind, hints as they
///   were; when there is none, the run ends with the run of successes broken;
/// - a failure breaks the run of successes, then goes on as for an
///   unsupported site.
pub open spec fn next_step(worker: Worker, result: ScrapeResult) -> WorkerStep {
    match result {
        ScrapeResult::Success => WorkerStep::Done(
            SiteHints { scraper: Some(worker.kind), stable_count: (worker.hints.stable_count + 1) as u32 },
        ),
        ScrapeResult::Unsupported => match elevated(worker.kind) {
            Some(next) => WorkerStep::Retry(Worker { kind: next, hints: worker.hints }),
            None => WorkerStep::Done(unstable(worker.hints)),
        },
        ScrapeResult::Error => match elevated(worker.kind) {
            Some(next) => WorkerStep::Retry(Worker { kind: next, hints: unstable(worker.hints) }),
            None => WorkerStep::Done(unstable(worker.hints)),
        },
    }
}

impl Worker {
    /// Starts a run with the hints stored for the site.
    pub fn new(hints: SiteHints) -> (worker: Worker)
        ensures
            worker.kind == start_kind(hints),
            worker.hints == hints,
            hints.scraper matches Some(kind) ==> worker.kind == kind,
            hints.scraper is None ==> worker.kind == ScraperKind::Phantom,
    {
        let kind = match hints.scraper {
            Some(kind) => kind,
            None => ScraperKind::Phantom,
        };
        Worker { kind, hints }
    }

    /// The scrape to perform next.
    pub fn action(&self) -> (action: ScrapeAction)
        ensures
            action == action_of(self.kind),
    {
        match self.kind {
            ScraperKind::Phantom => ScrapeAction::Api,
            ScraperKind::Script => ScrapeAction::Html,
            ScraperKind::Scout => ScrapeAction::Js,
        }
    }

    /// Takes the answer of the scraper of the current kind. A success can only
    /// be counted while the count of successes is below `u32::MAX`.
    pub fn step(self, result: ScrapeResult) -> (step: WorkerStep)
        requires
            result == ScrapeResult::Success ==> self.hints.stable_count < u32::MAX,
        ensures
            step == next_step(self, result),
    {
        let mut kind = self.kind;
        let mut hints = self.hints;
        match result {
            ScrapeResult::Success => {
                hints.scraper = Some(kind);
                hints.stable_count = hints.stable_count + 1;
                WorkerStep::Done(hints)
            },
            ScrapeResult::Unsupported => {
                if !kind.elevate() {
                    hints.stable_count = 0;
                    WorkerStep::Done(hints)
                } else {
                    WorkerStep::Retry(Worker { kind, hints })
                }
            },
            ScrapeResult::Error => {
                hints.stable_count = 0;
                if !kind.elevate() {
                    WorkerStep::Done(hints)
                } else {
                    WorkerStep::Retry(Worker { kind, hints })
                }
            },
        }
    }
}

/// The end of a run in which the scrapers give the answers in turn: the
/// hints to store and how many answers were used, or `None` if the answers
/// ran out before the run ended.
pub open spec fn run_outcome(worker: Worker, answers: Seq<ScrapeResult>) -> Option<(SiteHints, nat)>
    decreases answers.len(),
{
    if answers.len() == 0 {
        None
    } else {
        match next_step(worker, answers[0]) {
            WorkerStep::Done(hints) => Some((hints, 1)),
            WorkerStep::Retry(next) => match run_outcome(next, answers.drop_first()) {
                Some((hints, used)) => Some((hints, used + 1)),
                None => None,
            },
        }
    }
}

/// A retry always moves to the next heavier kind of scraper, so a run never
/// tries the same kind twice.
pub proof fn lemma_retry_climbs(worker: Worker, result: ScrapeResult)
    ensures
        next_step(worker, result) matches WorkerStep::Retry(next) ==> kind_rank(next.kind)
            == kind_rank(worker.kind) + 1,
        next_step(worker, result) is Retry ==> result != ScrapeResult::Success,
{
    lemma_elevation_climbs(worker.kind);
}

/// Whatever the scrapers answer, a run ends after at most three attempts:
/// one for each kind from the one it starts with to the heaviest.
pub proof fn lemma_run_ends(worker: Worker, answers: Seq<ScrapeResult>)
    requires
        answers.len() >= 3 - kind_rank(worker.kind),
    ensures
        run_outcome(worker, answers) matches Some((_, used)) && 1 <= used <= 3 - kind_rank(
            worker.kind,
        ),
    decreases answers.len(),
{
    lemma_elevation_climbs(worker.kind);
    lemma_retry_climbs(worker, answers[0]);
    if let WorkerStep::Retry(next) = next_step(worker, answers[0]) {
        lemma_run_ends(next, answers.drop_first());
    }
}

/// The kind of scraper that succeeded is the one the next run starts with,
/// and the success is counted.
pub proof fn lemma_success_is_remembered(worker: Worker)
    requires
        worker.hints.stable_count < u32::MAX,
    ensures
        next_step(worker, ScrapeResult::Success) matches WorkerStep::Done(hints) && start_kind(hints)
            == worker.kind && hints.stable_count == worker.hints.stable_count + 1,
{
}

/// A run that ends without a success keeps the scraper remembered for the
/// site and breaks its run of successes; a run that ends with one remembers
/// the kind that succeeded.
pub proof fn lemma_run_result(worker: Worker, answers: Seq<ScrapeResult>)
    requires
        run_outcome(worker, answers) is Some,
    ensures
        run_outcome(worker, answers) matches Some((hints, used)) && 1 <= used <= answers.len() && (
        if answers[used - 1] == ScrapeResult::Success {
            hints.scraper matches Some(kind) && kind_rank(kind) == kind_rank(worker.kind) + used - 1
        } else {
            hints.scraper == worker.hints.scraper && hints.stable_count == 0
        }),
    decreases answers.len(),
{
    lemma_elevation_climbs(worker.kind);
    if let WorkerStep::Retry(next) = next_step(worker, answers[0]) {
        lemma_run_result(next, answers.drop_first());
        let (hints, used) = run_outcome(next, answers.drop_first()).unwrap();
        assert(answers.drop_first()[used - 1] == answers[used as int]);
    }
}

/// A success ends the run; it records the kind that succeeded as the one to
/// start with and counts one more success in a row.
pub proof fn lemma_success_counts(worker: Worker)
    requires
        worker.hints.stable_count < u32::MAX,
    ensures
        next_step(worker, ScrapeResult::Success) == WorkerStep::Done(
            SiteHints { scraper: Some(worker.kind), stable_count: (worker.hints.stable_count + 1) as u32 },
        ),
{
}

/// After a failure or an unsupported site the run escalates from the API to
/// the HTML scraper, from the HTML to the JavaScript scraper, and ends after
/// the JavaScript scraper.
pub proof fn lemma_escalation_order(worker: Worker, result: ScrapeResult)
    requires
        result != ScrapeResult::Success,
    ensures
        worker.kind == ScraperKind::Phantom ==> (next_step(worker, result) matches WorkerStep::Retry(
            next,
        ) && next.kind == ScraperKind::Script),
        worker.kind == ScraperKind::Script ==> (next_step(worker, result) matches WorkerStep::Retry(
            next,
        ) && next.kind == ScraperKind::Scout),
        worker.kind == ScraperKind::Scout ==> next_step(worker, result) is Done,
{
}

/// A failing scraper breaks the run of successes, whatever kind it was: what
/// follows carries a count of zero and the remembered scraper unchanged.
pub proof fn lemma_error_resets_count(worker: Worker)
    ensures
        match next_step(worker, ScrapeResult::Error) {
            WorkerStep::Retry(next) => next.hints.stable_count == 0 && next.hints.scraper
                == worker.hints.scraper,
            WorkerStep::Done(hints) => hints.stable_count == 0 && hints.scraper
                == worker.hints.scraper,
        },
{
}

/// A scraper that does not handle the site breaks nothing while a heavier
/// kind is left: the run goes on with the hints exactly as they were. Only
/// when no kind is left does the run end with the count reset.
pub proof fn lemma_unsupported_keeps_hints(worker: Worker)
    ensures
        match next_step(worker, ScrapeResult::Unsupported) {
            WorkerStep::Retry(next) => next.hints == worker.hints,
            WorkerStep::Done(hints) => worker.kind == ScraperKind::Scout && hints.stable_count == 0
                && hints.scraper == worker.hints.scraper,
        },
        worker.kind != ScraperKind::Scout ==> next_step(worker, ScrapeResult::Unsupported) is Retry,
{
}

/// A run that ends in a success stores a count of 1 when a scraper failed
/// on the way, and one more than the count it started with otherwise.
pub proof fn lemma_run_success_count(worker: Worker, answers: Seq<ScrapeResult>)
    requires
        worker.hints.stable_count < u32::MAX,
        run_outcome(worker, answers) matches Some((_, used)) && answers[used - 1]
            == ScrapeResult::Success,
    ensures
        run_outcome(worker, answers) matches Some((hints, used)) && hints.stable_count == if exists|
            i: int,
        | 0 <= i < used - 1 && answers[i] == ScrapeResult::Error {
            1
        } else {
            worker.hints.stable_count + 1
        },
    decreases answers.len(),
{
    lemma_run_result(worker, answers);
    let (hints, used) = run_outcome(worker, answers).unwrap();
    match next_step(worker, answers[0]) {
        WorkerStep::Done(_) => {
            assert(used == 1);
        },
        WorkerStep::Retry(next) => {
            let rest = answers.drop_first();
            let (h2, used2) = run_outcome(next, rest).unwrap();
            assert(used == used2 + 1);
            assert(rest[used2 - 1] == answers[used - 1]);
            lemma_run_success_count(next, rest);
            if answers[0] == ScrapeResult::Error {
                assert(answers[0] == ScrapeResult::Error && 0 < used - 1);
                if exists|i: int| 0 <= i < used2 - 1 && rest[i] == ScrapeResult::Error {
                } else {
                }
            } else {
                assert((exists|i: int| 0 <= i < used - 1 && answers[i] == ScrapeResult::Error)
                    == (exists|i: int| 0 <= i < used2 - 1 && rest[i] == ScrapeResult::Error)) by {
                    if exists|i: int| 0 <= i < used - 1 && answers[i] == ScrapeResult::Error {
                        let i = choose|i: int| 0 <= i < used - 1 && answers[i] == ScrapeResult::Error;
                        assert(rest[i - 1] == answers[i]);
                    }
                    if exists|i: int| 0 <= i < used2 - 1 && rest[i] == ScrapeResult::Error {
                        let i = choose|i: int| 0 <= i < used2 - 1 && rest[i] == ScrapeResult::Error;
                        assert(answers[i + 1] == rest[i]);
                    }
                }
            }
        },
    }
}

/// The lightest kind asks the API, the middle one reads the HTML, the
/// heaviest drives the JavaScript.
pub proof fn lemma_actions(worker: Worker)
    ensures
        worker.kind == ScraperKind::Phantom ==> action_of(worker.kind) == ScrapeAction::Api,
        worker.kind == ScraperKind::Script ==> action_of(worker.kind) == ScrapeAction::Html,
        worker.kind == ScraperKind::Scout ==> action_of(worker.kind) == ScrapeAction::Js,
{
}

} // verus!
