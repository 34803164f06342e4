//! The typed configuration record the core consumes. Loading and saving
//! it is the shell's business; the core only reads the values.

use vstd::prelude::*;

verus! {

pub struct UserOptionsList {
    /// Refresh interval in milliseconds.
    pub refresh_rate: usize,
    /// Whether the historical feed is queried at all.
    pub show_completed_jobs: bool,
    pub confirm_before_quit: bool,
    pub confirm_before_kill: bool,
    /// The external editor command.
    pub external_editor: String,
    /// Fill the collection with canned records instead of querying.
    pub dummy_jobs: bool,
}

impl Clone for UserOptionsList {
    fn clone(&self) -> (r: Self)
        ensures
            r == *self,
    {
        UserOptionsList {
            refresh_rate: self.refresh_rate,
            show_completed_jobs: self.show_completed_jobs,
            confirm_before_quit: self.confirm_before_quit,
            confirm_before_kill: self.confirm_before_kill,
            external_editor: self.external_editor.clone(),
            dummy_jobs: self.dummy_jobs,
        }
    }
}

impl Default for UserOptionsList {
    fn default() -> (r: Self)
        ensures
            r.refresh_rate == 250,
            r.show_completed_jobs,
            !r.confirm_before_quit,
            r.confirm_before_kill,
            r.external_editor@ == "vim"@,
            !r.dummy_jobs,
    {
        UserOptionsList {
            refresh_rate: 250,
            show_completed_jobs: true,
            confirm_before_quit: false,
            confirm_before_kill: true,
            external_editor: String::from_str("vim"),
            dummy_jobs: false,
        }
    }
}

} // verus!
