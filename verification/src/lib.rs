pub mod laws;
pub mod pattern;
pub mod record;
pub mod search;
pub mod text;

pub use pattern::lower_of;
pub use pattern::regex_compiles;
pub use pattern::regex_found;
pub use record::Line;
pub use record::LineView;
pub use search::Config;
pub use search::SearchError;
pub use search::run_search;
pub use search::search;
pub use search::search_ignored_case;
pub use text::split_lines;
pub use text::strmul;
