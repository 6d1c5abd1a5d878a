//! Watches web pages for changes: cache keys for fetched responses, decoding
//! and rendering of response bodies, and a context-collapsed line diff report.

mod cache_key;
mod page;
mod params;
mod report;
mod response;
mod store;

pub use cache_key::fs_safe_url;
pub use response::{Header, MediaType, Response, ResponseError};
pub use page::{page_report, render_html, render_response, PageError, PageReport};
pub use store::{cache_file_name, store_actions, StoreAction};
pub use params::{log_level, ColorChoice, LogLevel, TooVerbose};
pub use report::{diff_report, pretty_diff, DiffLine, LineKind, CONTEXT_LEN};
