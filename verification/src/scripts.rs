//! The rules for running a script of the user: which files count as
//! scripts, and which interpreter runs them.

use crate::text::{ends_with, has_suffix};
use vstd::prelude::*;
use vstd::string::StringExecFns;

verus! {

/// Whether a path names a script: a shell script or a batch file.
pub open spec fn is_script_path(path: Seq<char>) -> bool {
    ends_with(path, ".sh"@) || ends_with(path, ".bat"@)
}

/// Accepts the path of a shell script or of a batch file, and refuses any
/// other path.
pub fn validate_script_type(path: &str) -> (result: Result<(), String>)
    ensures
        match result {
            Ok(_) => is_script_path(path@),
            Err(reason) => !is_script_path(path@) && reason@
                == "Invalid script type. Only .sh and .bat files are allowed."@,
        },
{
    if has_suffix(path, ".sh") || has_suffix(path, ".bat") {
        Ok(())
    } else {
        Err(String::from_str("Invalid script type. Only .sh and .bat files are allowed."))
    }
}

/// The program that runs a script and the flag that the script's path
/// follows: the command interpreter on Windows, the shell elsewhere.
pub fn interpreter(windows: bool) -> (command: (&'static str, &'static str))
    ensures
        windows ==> command.0@ == "cmd"@ && command.1@ == "/C"@,
        !windows ==> command.0@ == "sh"@ && command.1@ == "-c"@,
{
    if windows {
        ("cmd", "/C")
    } else {
        ("sh", "-c")
    }
}

} // verus!
