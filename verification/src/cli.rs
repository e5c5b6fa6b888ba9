//! Command-line shape: one optional positional argument naming a target
//! file. The process argument list is read outside the library and handed
//! in as plain strings.

use vstd::prelude::*;
use vstd::string::*;

verus! {

/// The parsed command line.
pub struct Cli {
    /// Path to file, when one was given.
    pub file: Option<String>,
}

/// Parses the argument list, program name excluded: the first argument,
/// when present, is the target file path.
pub fn parse_args(args: &Vec<String>) -> (r: Cli)
    ensures
        args@.len() == 0 ==> r.file is None,
        args@.len() > 0 ==> r.file == Some::<String>(args@[0]),
{
    if args.len() == 0 {
        Cli { file: None }
    } else {
        Cli { file: Some(args[0].clone()) }
    }
}

} // verus!
