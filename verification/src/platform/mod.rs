//! Path handling and default locations.

pub mod fs;
pub mod path_defaults;
