//! Parsing of the command line: an input path, an output path, and an
//! optional verbosity flag.
//!
//! The raw argument list always carries the program name as its first
//! element. With no user argument the parse fails with the usage message;
//! with one it fails asking for more; with two or more, the first two user
//! arguments are the input and output paths. A third user argument switches
//! verbose mode on exactly when its first two characters are `-v`; any other
//! third argument, or none, leaves verbose mode off.

use vstd::prelude::*;

verus! {

/// The message shown when the tool is started with no user argument.
pub open spec fn usage_message() -> Seq<char> {
    "usage: infile.txt outfile.txt -verbose"@
}

/// The message shown when only one user argument is given.
pub open spec fn missing_argument_message() -> Seq<char> {
    "Not enough arguments."@
}

/// Does this argument switch verbose mode on? It does exactly when its first
/// two characters are `-v`.
pub open spec fn is_verbose_flag(arg: Seq<char>) -> bool {
    arg.len() >= 2 && arg[0] == '-' && arg[1] == 'v'
}

/// The verbosity that a full argument list selects: a fourth element is
/// present and is a verbose flag.
pub open spec fn selected_verbose(args: Seq<Seq<char>>) -> bool {
    args.len() > 3 && is_verbose_flag(args[3])
}

/// Parse the raw argument list (program name first) into the input path, the
/// output path and the verbose flag, or the error message describing what is
/// missing.
pub fn parse_args(args: &[String]) -> (r: Result<(String, String, bool), &'static str>)
    requires
        args@.len() > 3 ==> args@[3]@.len() >= 2,
    ensures
        args@.len() < 2 ==> (r matches Err(m) && m@ == usage_message()),
        args@.len() == 2 ==> (r matches Err(m) && m@ == missing_argument_message()),
        args@.len() >= 3 ==> (r matches Ok(t) && t.0@ == args@[1]@ && t.1@ == args@[2]@ && t.2
            == selected_verbose(args.deep_view())),
{
    if args.len() < 2 {
        return Err("usage: infile.txt outfile.txt -verbose");
    }
    if args.len() < 3 {
        return Err("Not enough arguments.");
    }
    let in_file_path = vstd::slice::slice_index_get(args, 1).clone();
    let out_file_path = vstd::slice::slice_index_get(args, 2).clone();
    let verbose: bool = if args.len() > 3 {
        let flag = vstd::slice::slice_index_get(args, 3).as_str();
        flag.get_char(0) == '-' && flag.get_char(1) == 'v'
    } else {
        false
    };
    Ok((in_file_path, out_file_path, verbose))
}

} // verus!
