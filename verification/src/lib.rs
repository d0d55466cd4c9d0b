//! Decision logic of the Butai scraping engine: which scraper a site is
//! tried with, how a scraping attempt escalates when a scraper gives up,
//! what is remembered about a site afterwards, how the site list is held,
//! and how the scraping interval is read.
use vstd::prelude::*;

pub mod scraper;
pub mod config;
pub mod opts;
pub mod orix;
pub mod site;
pub mod slots;
pub mod span_bound;
pub mod worker;

verus! {

} // verus!
