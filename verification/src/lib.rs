//! A verified core for a command-line HTTP client: request-item
//! classification, body-type detection, request assembly, verbose tracing,
//! and timing summaries.

pub mod auth;
pub mod cli;
pub mod download;
pub mod json;
pub mod request;
pub mod text;
pub mod timing;
pub mod urlparts;

pub use auth::{Auth, AuthParseError};
pub use auth::{auth_header_value, parse_auth};
pub use cli::{ParseError, RequestItem};
pub use cli::parse_request_item;
pub use cli::{Cli, Command, Method, OutputFilter, RequestArgs};
pub use request::{AssembledRequest, BodyType, FilePart, RequestBody, RequestDescriptor, VerboseInfo};
pub use request::{assemble_request, detect_body_type, mask_header_value};
pub use timing::{RequestTimer, ResponseSpeed, TimingSummary};
pub use timing::{classify_speed, format_duration, u128_to_string};
pub use download::{determine_filename, extract_filename_from_url, filename_from_content_disposition};
