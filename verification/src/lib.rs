//! Page-by-page collection from the Notion API.
//!
//! A [`collector::Collector`] folds the pages of a paginated listing into a
//! running state and turns that state into one finished value once the
//! listing is exhausted or the collector has seen enough. Fetching a page is
//! left to the caller: the library decides, for each outcome of a fetch, how
//! the run goes on.

pub mod collector;
pub mod notion_types;
pub mod picker;
