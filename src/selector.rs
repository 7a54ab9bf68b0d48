//! The tool selector: the resolved profiles together with the registry that
//! its menu toggles act on.
use vstd::prelude::*;
use crate::menu::{build_context_menu, command_done, menu_of, perform, Command, Menu};
use crate::profiles::{entries_map, resolve, with_builtins, Profile, ProfileSet};
use crate::registry::ToolRegistry;

verus! {

pub struct ToolSelector {
    pub profiles: ProfileSet,
    pub tools: ToolRegistry,
}

impl ToolSelector {
    pub open spec fn wf(&self) -> bool {
        self.profiles.wf()
    }

    /// A selector over `tools`, with the profiles resolved from the user's.
    pub fn new(tools: ToolRegistry, user_profiles: Vec<(String, Profile)>) -> (r: ToolSelector)
        ensures
            r.wf(),
            r.tools == tools,
            r.profiles.map() == with_builtins(entries_map(user_profiles@)),
    {
        let mut r = ToolSelector { profiles: ProfileSet::new(), tools };
        r.refresh_profiles(user_profiles);
        r
    }

    /// Recomputes the profiles, as a whole, from the user's current ones.
    pub fn refresh_profiles(&mut self, user_profiles: Vec<(String, Profile)>)
        ensures
            final(self).wf(),
            final(self).tools == old(self).tools,
            final(self).profiles.map() == with_builtins(entries_map(user_profiles@)),
    {
        self.profiles = resolve(user_profiles);
    }

    /// The menu for the current profiles and tool flags.
    pub fn build_context_menu(&self) -> (m: Menu)
        ensures
            menu_of(m, self.profiles, self.tools),
    {
        build_context_menu(&self.profiles, &self.tools)
    }

    /// Runs the command of a toggle that the user picked.
    pub fn run(&mut self, command: &Command)
        requires
            old(self).wf(),
        ensures
            final(self).wf(),
            final(self).profiles == old(self).profiles,
            command_done(old(self).tools, final(self).tools, old(self).profiles.map(), command@),
    {
        perform(&mut self.tools, &self.profiles, command);
    }
}

} // verus!
