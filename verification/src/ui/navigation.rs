//! The sections of the application and their labels.

use vstd::prelude::*;

verus! {

#[derive(Clone, Copy, Debug, PartialEq, Eq, Structural)]
pub enum AppSection {
    Library,
    Vault,
    Settings,
    About,
}

/// The sections in the order the navigation lists them.
pub open spec fn section_order() -> Seq<AppSection> {
    seq![AppSection::Library, AppSection::Vault, AppSection::Settings, AppSection::About]
}

/// The sections in navigation order: Library, Vault, Settings, About.
pub fn ordered_sections() -> (r: [AppSection; 4])
    ensures
        r@ == section_order(),
{
    let r = [AppSection::Library, AppSection::Vault, AppSection::Settings, AppSection::About];
    assert(r@ =~= section_order());
    r
}

/// The label shown for a section.
pub open spec fn label_of(section: AppSection) -> Seq<char> {
    match section {
        AppSection::Library => "Library"@,
        AppSection::Vault => "Vault"@,
        AppSection::Settings => "Settings"@,
        AppSection::About => "About"@,
    }
}

/// The label shown for a section.
pub fn section_label(section: AppSection) -> (r: &'static str)
    ensures
        r@ == label_of(section),
{
    match section {
        AppSection::Library => "Library",
        AppSection::Vault => "Vault",
        AppSection::Settings => "Settings",
        AppSection::About => "About",
    }
}

} // verus!
