//! The outcome of one scraping attempt.
use vstd::prelude::*;

verus! {

/// What a scraper reports after trying a site.
#[derive(Debug, Clone, Copy, PartialEq, Eq, Structural)]
pub enum ScrapeResult {
    /// The site was scraped.
    Success,
    /// This kind of scraper has no implementation for the site.
    Unsupported,
    /// The scraper has an implementation for the site, but it failed.
    Error,
}

impl ScrapeResult {
    /// The answer of a scraper that does not handle the site.
    pub fn unsupported() -> (result: Self)
        ensures
            result == ScrapeResult::Unsupported,
    {
        ScrapeResult::Unsupported
    }
}

} // verus!
