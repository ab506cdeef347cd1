//! The application shell: which section is showing.

use vstd::prelude::*;

use crate::ui::navigation::{label_of, ordered_sections, section_label, section_order, AppSection};

verus! {

#[derive(Clone, Debug)]
pub struct AppShellState {
    pub active_section: AppSection,
    pub sections: Vec<AppSection>,
}

impl AppShellState {
    /// The shell at start: every section listed in order, the library showing.
    pub fn new() -> (s: AppShellState)
        ensures
            s.active_section == AppSection::Library,
            s.sections@ == section_order(),
    {
        let order = ordered_sections();
        let mut sections: Vec<AppSection> = Vec::new();
        for i in 0..4usize
            invariant
                order@ == section_order(),
                sections@ == section_order().take(i as int),
        {
            sections.push(order[i]);
            assert(sections@ =~= section_order().take(i + 1));
        }
        assert(section_order().take(4) =~= section_order());
        AppShellState { active_section: AppSection::Library, sections }
    }

    /// Shows `section`; the list of sections is unchanged.
    pub fn navigate_to(&mut self, section: AppSection)
        ensures
            final(self).active_section == section,
            final(self).sections@ == old(self).sections@,
    {
        self.active_section = section;
    }

    /// The label of the section showing.
    pub fn active_section_label(&self) -> (r: &'static str)
        ensures
            r@ == label_of(self.active_section),
    {
        section_label(self.active_section)
    }
}

} // verus!
