//! Product-neutral primitives for authenticated, rate-aware command-line
//! clients: account profiles, quota metadata, structured API errors and their
//! fair-use details, with their behaviour stated and proved.

pub mod account;
pub mod client;
pub mod fair_use;
pub mod headers;
pub mod json;
pub mod laws;
pub mod manpage;
pub mod paths;
pub mod product;
pub mod rate;
pub mod report;
pub mod response;
pub mod session;
pub mod text;

pub use account::{active_account, select_account, Account, AccountError, AccountMap, Config};
pub use client::{ApiClient, ClientError};
pub use fair_use::{FairUse, FairUseAlternative};
pub use json::{Json, JsonNumber};
pub use manpage::{install_manpage, manpage_destination, ManpageInstall, ManpageStep};
pub use product::{config_path, default_manpage_directories, legacy_config_path, PathError, Product};
pub use rate::{rate_limit_from_headers, RateLimit};
pub use report::metadata_lines;
pub use response::{format_alternative, read_response, read_response_bytes, response_metadata_lines, ApiError, ApiResponse};
