//! Crawler logic for a motor-racing results portal: session bootstrap,
//! per-month result queries, HTML extraction, and year-level aggregation
//! into a sorted, duplicate-free set of result-page links.
//!
//! The library holds everything the crawl decides and computes; issuing
//! the HTTP requests themselves is left to its caller, which hands the
//! transport outcomes in as plain values.
pub mod dates;
pub mod error;
pub mod html;
pub mod order;
pub mod query;
pub mod session;
pub mod text;
pub mod year;

pub use dates::date_window;
pub use dates::DateWindow;
pub use error::Error;
pub use session::session_of_reply;
pub use session::BootstrapReply;
pub use session::Cookie;
pub use session::Session;
pub use year::fetch_result_urls_of_year;
