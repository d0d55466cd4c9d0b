use butai::scraper::ScrapeResult;
use butai::site::{ScraperKind, SiteHints};

#[test]
fn unsupported_is_unsupported() {
    assert_eq!(ScrapeResult::unsupported(), ScrapeResult::Unsupported);
}

#[test]
fn elevation_order() {
    let mut kind = ScraperKind::Phantom;
    assert!(kind.elevate());
    assert_eq!(kind, ScraperKind::Script);
    assert!(kind.elevate());
    assert_eq!(kind, ScraperKind::Scout);
    assert!(!kind.elevate());
    assert_eq!(kind, ScraperKind::Scout);
}

#[test]
fn default_hints() {
    let hints = SiteHints::default();
    assert_eq!(hints.scraper, None);
    assert_eq!(hints.stable_count, 0);
}
