//! Tool configuration.

use vstd::prelude::*;

verus! {

/// Where the tool keeps its templates and its cache.
#[derive(Debug, Clone)]
pub struct Config {
    pub template_dir: String,
    pub cache_dir: String,
}

} // verus!
