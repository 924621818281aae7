//! The `pwd` builtin.

use vstd::prelude::*;

use crate::engine::command::{BuiltinAction, Command, CommandContext};
use crate::engine::flags::{FlagState, Flags};

verus! {

/// Prints the process's current working directory.
pub struct PrintWorkingDirectory;

impl Command for PrintWorkingDirectory {
    open spec fn name_view(&self) -> Seq<char> {
        "pwd"@
    }

    open spec fn description_view(&self) -> Seq<char> {
        "Print the current working directory"@
    }

    open spec fn extended_description_view(&self) -> Seq<char> {
        "Print the current working directory"@
    }

    open spec fn execute_ensures(
        &self,
        args: Seq<Seq<char>>,
        flags: FlagState,
        context: &CommandContext,
        r: Result<BuiltinAction, String>,
    ) -> bool {
        r matches Ok(BuiltinAction::PrintWorkingDir)
    }

    fn name(&self) -> (r: &'static str) {
        "pwd"
    }

    fn description(&self) -> (r: &'static str) {
        "Print the current working directory"
    }

    fn extended_description(&self) -> (r: &'static str) {
        "Print the current working directory"
    }

    fn execute(
        &self,
        args: &Vec<String>,
        flags: &Flags,
        context: &CommandContext,
    ) -> (r: Result<BuiltinAction, String>) {
        Ok(BuiltinAction::PrintWorkingDir)
    }
}

} // verus!
