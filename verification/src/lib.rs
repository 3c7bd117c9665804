//! Provider-neutral contracts of a coding-agent core: prompt caching,
//! provider requests, registries, tools and sandbox policy.

pub mod coded;
pub mod duration;
pub mod prompt_cache;
pub mod provider;
pub mod registry;
pub mod revealed;
pub mod sandbox;
pub mod source;
pub mod steer;
pub mod text;
pub mod tool;
pub mod toolset;
