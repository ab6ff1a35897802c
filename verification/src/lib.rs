//! A static-file HTTP server core: encoding negotiation, candidate-path
//! resolution, a revalidating file cache, and conditional / byte-range
//! response building.

pub mod config;
pub mod dates;
pub mod encoding;
pub mod file_cache;
pub mod laws;
pub mod numstr;
pub mod partial;
pub mod paths;
pub mod serve;
pub mod strutil;

pub use config::Config;
pub use config::ConfigError;
pub use config::ServerState;
pub use encoding::ClientEncodingSupport;
pub use encoding::Encoding;
pub use file_cache::FileCache;
pub use file_cache::FileCacheEntry;
pub use file_cache::FileCacheEntryContent;
pub use file_cache::FileReadOutcome;
pub use paths::collect_paths_to_try;
pub use paths::PathToTry;
pub use partial::parse_range_header;
pub use partial::process_range;
pub use partial::RangeSpec;
pub use serve::bad_request_response;
pub use serve::build_found_response;
pub use serve::decode_request_path;
pub use serve::not_found_response;
pub use serve::respond_with_entry;
pub use serve::HttpResponse;
pub use serve::ResponseBody;
