//! Staged VMX edits: whether they change anything, and the command lines
//! that make them.

use vstd::prelude::*;
use vstd::string::*;

use crate::args::{args_view, no_args, push_arg};
use crate::text::str_equal;
use super::StagedChange;

verus! {

impl StagedChange {
    /// Whether committing would leave the VMX file as it is: it exists and
    /// already holds exactly the updated contents.
    pub fn is_noop(&self) -> (noop: bool)
        ensures
            noop == (self.snapshot.raw_contents matches Some(c) && c@ == self.updated_contents@),
    {
        match &self.snapshot.raw_contents {
            Some(contents) => str_equal(contents.as_str(), self.updated_contents.as_str()),
            None => false,
        }
    }
}

/// `key=value`, as dictTool sets an entry.
pub open spec fn assignment(key: Seq<char>, value: Seq<char>) -> Seq<char> {
    key + "="@ + value
}

/// `dictTool -q set <path> <key>=<value>`: sets one VMX entry.
pub fn set_entry_args(path: &str, key: &str, value: &str) -> (args: Vec<String>)
    ensures
        args_view(args@) == seq!["-q"@, "set"@, path@, assignment(key@, value@)],
{
    let mut assignment_text = String::from_str(key);
    assignment_text.append("=");
    assignment_text.append(value);
    let mut args = no_args();
    push_arg(&mut args, "-q");
    push_arg(&mut args, "set");
    push_arg(&mut args, path);
    push_arg(&mut args, assignment_text.as_str());
    assert(args_view(args@) =~= seq!["-q"@, "set"@, path@, assignment(key@, value@)]);
    args
}

/// `vmcli vm create -n <name> -d <directory> -c <guest OS>`: creates a new
/// VMX file.
pub fn create_vm_args(name: &str, directory: &str, guest_os: &str) -> (args: Vec<String>)
    ensures
        args_view(args@) == seq!["vm"@, "create"@, "-n"@, name@, "-d"@, directory@, "-c"@, guest_os@],
{
    let mut args = no_args();
    push_arg(&mut args, "vm");
    push_arg(&mut args, "create");
    push_arg(&mut args, "-n");
    push_arg(&mut args, name);
    push_arg(&mut args, "-d");
    push_arg(&mut args, directory);
    push_arg(&mut args, "-c");
    push_arg(&mut args, guest_os);
    assert(args_view(args@) =~= seq!["vm"@, "create"@, "-n"@, name@, "-d"@, directory@, "-c"@, guest_os@]);
    args
}

} // verus!
