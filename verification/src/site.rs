//! Kinds of scrapers and the hints remembered about each site.
use vstd::prelude::*;

verus! {

/// The three ways of scraping a site, from the lightest to the heaviest:
/// `Phantom` asks the API of the site, `Script` reads the rendered HTML, and
/// `Scout` drives the JavaScript of the page.
#[derive(Debug, Clone, Copy, PartialEq, Eq, Structural)]
pub enum ScraperKind {
    Phantom,
    Scout,
    Script,
}

/// Position of a kind in the escalation order `Phantom`, `Script`, `Scout`.
pub open spec fn kind_rank(kind: ScraperKind) -> nat {
    match kind {
        ScraperKind::Phantom => 0,
        ScraperKind::Script => 1,
        ScraperKind::Scout => 2,
    }
}

/// The next heavier kind, if there is one.
pub open spec fn elevated(kind: ScraperKind) -> Option<ScraperKind> {
    match kind {
        ScraperKind::Phantom => Some(ScraperKind::Script),
        ScraperKind::Script => Some(ScraperKind::Scout),
        ScraperKind::Scout => None,
    }
}

impl ScraperKind {
    /// Moves to the next heavier kind of scraper. Returns `false`, and
    /// leaves the kind as it is, when it is already the heaviest.
    pub fn elevate(&mut self) -> (moved: bool)
        ensures
            moved == elevated(*old(self)).is_some(),
            moved ==> Some(*final(self)) == elevated(*old(self)),
            !moved ==> *final(self) == *old(self),
    {
        let next = match *self {
            ScraperKind::Phantom => ScraperKind::Script,
            ScraperKind::Scout => {
                return false;
            },
            ScraperKind::Script => ScraperKind::Scout,
        };
        *self = next;
        true
    }
}

/// Each successful elevation moves exactly one step up the order, and the
/// heaviest kind cannot be elevated.
pub proof fn lemma_elevation_climbs(kind: ScraperKind)
    ensures
        elevated(kind) matches Some(next) ==> kind_rank(next) == kind_rank(kind) + 1,
        elevated(kind) is None <==> kind == ScraperKind::Scout,
        kind_rank(kind) <= 2,
{
}

/// What is remembered about a site between scraping rounds.
#[derive(Debug, Clone, Copy, PartialEq, Eq, Structural)]
pub struct SiteHints {
    /// The kind of scraper that last succeeded on the site, if any did.
    pub scraper: Option<ScraperKind>,
    /// How many successful scrapes in a row the site has had.
    pub stable_count: u32,
}

impl Default for SiteHints {
    fn default() -> (hints: Self)
        ensures
            hints.scraper is None,
            hints.stable_count == 0,
    {
        SiteHints { scraper: None, stable_count: 0 }
    }
}

} // verus!
