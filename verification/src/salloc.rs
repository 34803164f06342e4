//! Stored parameter presets for interactive allocation requests, and
//! the command line each preset produces.

use vstd::prelude::*;

verus! {

/// One stored preset of allocation parameters. Every field is kept as
/// entered text; an empty field contributes nothing to the command.
#[derive(Debug)]
pub struct SallocEntry {
    pub preset_name: String,
    pub account: String,
    pub partition: String,
    pub nodes: String,
    pub cpus_per_node: String,
    pub memory: String,
    pub time_limit: String,
    pub other_options: String,
}

impl Clone for SallocEntry {
    fn clone(&self) -> (r: Self)
        ensures
            r == *self,
    {
        SallocEntry {
            preset_name: self.preset_name.clone(),
            account: self.account.clone(),
            partition: self.partition.clone(),
            nodes: self.nodes.clone(),
            cpus_per_node: self.cpus_per_node.clone(),
            memory: self.memory.clone(),
            time_limit: self.time_limit.clone(),
            other_options: self.other_options.clone(),
        }
    }
}

/// A flag with its value, or nothing when the value is empty.
pub open spec fn spec_opt_flag(prefix: Seq<char>, v: Seq<char>) -> Seq<char> {
    if v.len() == 0 {
        Seq::empty()
    } else {
        prefix + v
    }
}

impl SallocEntry {
    pub fn new() -> (r: Self)
        ensures
            r.preset_name@ == "new"@,
            r.account@ == Seq::<char>::empty(),
            r.partition@ == Seq::<char>::empty(),
            r.nodes@ == Seq::<char>::empty(),
            r.cpus_per_node@ == Seq::<char>::empty(),
            r.memory@ == Seq::<char>::empty(),
            r.time_limit@ == "01:00:00"@,
            r.other_options@ == Seq::<char>::empty(),
    {
        SallocEntry {
            preset_name: String::from_str("new"),
            account: String::new(),
            partition: String::new(),
            nodes: String::new(),
            cpus_per_node: String::new(),
            memory: String::new(),
            time_limit: String::from_str("01:00:00"),
            other_options: String::new(),
        }
    }

    /// The allocation command this preset stands for: each non-empty
    /// field becomes one option, in a fixed order.
    pub open spec fn spec_start(self) -> Seq<char> {
        "salloc"@ + spec_opt_flag(" --account="@, self.account@) + spec_opt_flag(
            " --partition="@,
            self.partition@,
        ) + spec_opt_flag(" -N "@, self.nodes@) + spec_opt_flag(
            " --ntasks-per-node="@,
            self.cpus_per_node@,
        ) + spec_opt_flag(" --mem="@, self.memory@) + spec_opt_flag(" --time="@, self.time_limit@)
            + spec_opt_flag(" "@, self.other_options@) + spec_opt_flag(
            " --job-name="@,
            self.preset_name@,
        )
    }

    pub fn start(&self) -> (r: String)
        ensures
            r@ == self.spec_start(),
    {
        let mut cmd = String::from_str("salloc");
        append_flag(&mut cmd, " --account=", self.account.as_str());
        append_flag(&mut cmd, " --partition=", self.partition.as_str());
        append_flag(&mut cmd, " -N ", self.nodes.as_str());
        append_flag(&mut cmd, " --ntasks-per-node=", self.cpus_per_node.as_str());
        append_flag(&mut cmd, " --mem=", self.memory.as_str());
        append_flag(&mut cmd, " --time=", self.time_limit.as_str());
        append_flag(&mut cmd, " ", self.other_options.as_str());
        append_flag(&mut cmd, " --job-name=", self.preset_name.as_str());
        cmd
    }
}

/// Append one flag and its value, or nothing when the value is empty.
fn append_flag(cmd: &mut String, prefix: &str, v: &str)
    ensures
        final(cmd)@ == old(cmd)@ + spec_opt_flag(prefix@, v@),
{
    if !v.is_empty() {
        cmd.append(prefix);
        cmd.append(v);
        proof {
            assert((old(cmd)@ + prefix@) + v@ =~= old(cmd)@ + (prefix@ + v@));
        }
    } else {
        proof {
            assert(old(cmd)@ + Seq::<char>::empty() =~= old(cmd)@);
        }
    }
}

/// Why an indexed access to a preset list failed.
#[derive(Debug, Clone, Copy, PartialEq, Eq, Structural)]
pub enum PresetError {
    IndexOutOfBounds,
}

/// A list of presets. Persisting it to disk is the shell's business.
#[derive(Debug)]
pub struct SallocList<T> {
    pub entries: Vec<T>,
}

impl<T> SallocList<T> {
    pub fn new() -> (r: SallocList<T>)
        ensures
            r.entries@.len() == 0,
    {
        SallocList { entries: Vec::new() }
    }

    pub fn push(&mut self, item: T)
        ensures
            final(self).entries@ == old(self).entries@.push(item),
    {
        self.entries.push(item);
    }

    pub fn get(&self, index: usize) -> (r: Result<&T, PresetError>)
        ensures
            index < self.entries@.len() ==> r is Ok && r.unwrap() == &self.entries@[index as int],
            index >= self.entries@.len() ==> r == Err::<&T, PresetError>(
                PresetError::IndexOutOfBounds,
            ),
    {
        if index < self.entries.len() {
            Ok(&self.entries[index])
        } else {
            Err(PresetError::IndexOutOfBounds)
        }
    }

    /// Mutable access to one preset. The position must be in range: an
    /// out-of-range position is a caller defect, checked before calling.
    pub fn get_mut(&mut self, index: usize) -> (r: &mut T)
        requires
            index < old(self).entries@.len(),
        ensures
            *r == old(self).entries@[index as int],
            final(self).entries@ == old(self).entries@.update(index as int, *final(r)),
    {
        &mut self.entries[index]
    }

    pub fn set_list(&mut self, list: Vec<T>)
        ensures
            final(self).entries == list,
    {
        self.entries = list;
    }

    pub fn len(&self) -> (r: usize)
        ensures
            r == self.entries@.len(),
    {
        self.entries.len()
    }
}

} // verus!
