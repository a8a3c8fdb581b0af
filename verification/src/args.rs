//! Command lines for the VMware tools, as lists of arguments.

use vstd::prelude::*;
use vstd::string::*;

verus! {

/// The characters of each argument.
pub open spec fn args_view(args: Seq<String>) -> Seq<Seq<char>> {
    args.map_values(|a: String| a@)
}

/// Appends an argument to a command line.
pub fn push_arg(args: &mut Vec<String>, arg: &str)
    ensures
        args_view(final(args)@) == args_view(old(args)@).push(arg@),
{
    let a = String::from_str(arg);
    args.push(a);
    assert(args_view(args@) =~= args_view(old(args)@).push(arg@));
}

/// An empty command line.
pub fn no_args() -> (args: Vec<String>)
    ensures
        args_view(args@) == Seq::<Seq<char>>::empty(),
{
    let args: Vec<String> = Vec::new();
    assert(args_view(args@) =~= Seq::<Seq<char>>::empty());
    args
}

} // verus!
