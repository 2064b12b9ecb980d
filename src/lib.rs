//! Search aggregation over a scraped results page and a metered JSON API,
//! with politeness spacing, proxy rotation and a content policy applied
//! before any request leaves the process.

pub mod record;
pub mod token;
pub mod gate;
pub mod rotator;
pub mod scrape;
pub mod dom;
pub mod decimal;
pub mod premium;
pub mod free;
pub mod engine;
pub mod simplifier;
