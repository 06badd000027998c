use vstd::prelude::*;

pub mod strings;
pub mod text;
pub mod ignore;
pub mod paths;
pub mod globs;
pub mod regexes;
pub mod messages;
pub mod duplicate_detector;
pub mod deception_detector;
pub mod formatting;
pub mod config;
pub mod heuristics;
pub mod contracts;
pub mod report;
pub mod hooks;
pub mod memory;
pub mod risk_health;
pub mod gate;
pub mod syntax;
pub mod locate;
pub mod api_contract;
pub mod entity_context;
pub mod project_cache;
pub mod path_guard;
pub mod validation_prompt;
pub mod project_analysis;
pub mod memory_xml;
pub mod transcript;
pub mod source_tree;
pub mod provider_config;

pub use text::{sanitize_zero_width_chars, should_validate_file, truncate_utf8_safe};

verus! {

} // verus!
