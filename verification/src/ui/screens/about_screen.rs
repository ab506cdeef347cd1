//! The about screen.

use vstd::prelude::*;

verus! {

/// The about screen's title.
pub fn title() -> (t: &'static str)
    ensures
        t@ == "About"@,
{
    "About"
}

/// What the about screen shows.
#[derive(Clone, Debug)]
pub struct AboutInfo {
    pub app_name: &'static str,
    pub purpose: &'static str,
    pub reliability_guarantees: Vec<&'static str>,
    pub version: &'static str,
    pub build_target: &'static str,
    pub build_profile: &'static str,
}

} // verus!
