pub mod clock;
pub mod configs;
pub mod dirty_paths;
pub mod error;
pub mod exclusion;
pub mod github;
pub mod local_cache;
pub mod matcher;
pub mod orchestrator;
pub mod order;
pub mod paths;
pub mod perf_json;
pub mod picker;
pub mod repos;
pub mod session;
pub mod skip_list;
pub mod state;
pub mod table;
pub mod text;
