//! The `cd` builtin.

use vstd::prelude::*;

use crate::engine::command::{BuiltinAction, Command, CommandContext};
use crate::engine::flags::{FlagState, Flags};

verus! {

/// Changes the working directory to the first argument, or to the home
/// directory when no argument is given.
pub struct ChangeDirectory;

impl Command for ChangeDirectory {
    open spec fn name_view(&self) -> Seq<char> {
        "cd"@
    }

    open spec fn description_view(&self) -> Seq<char> {
        "Change the current working directory"@
    }

    open spec fn extended_description_view(&self) -> Seq<char> {
        "Change the current working directory. If no directory is specified, change to the user's home directory."@
    }

    open spec fn execute_ensures(
        &self,
        args: Seq<Seq<char>>,
        flags: FlagState,
        context: &CommandContext,
        r: Result<BuiltinAction, String>,
    ) -> bool {
        match r {
            Result::Ok(BuiltinAction::ChangeDir(d)) => {
                if args.len() > 0 {
                    d matches Option::Some(p) && p@ == args[0]
                } else {
                    d is None
                }
            },
            _ => false,
        }
    }

    fn name(&self) -> (r: &'static str) {
        "cd"
    }

    fn description(&self) -> (r: &'static str) {
        "Change the current working directory"
    }

    fn extended_description(&self) -> (r: &'static str) {
        "Change the current working directory. If no directory is specified, change to the user's home directory."
    }

    fn execute(
        &self,
        args: &Vec<String>,
        flags: &Flags,
        context: &CommandContext,
    ) -> (r: Result<BuiltinAction, String>) {
        if args.len() > 0 {
            Ok(BuiltinAction::ChangeDir(Some(args[0].clone())))
        } else {
            Ok(BuiltinAction::ChangeDir(None))
        }
    }
}

} // verus!
