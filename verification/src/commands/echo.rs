//! The `echo` builtin.

use vstd::prelude::*;

use crate::engine::command::{BuiltinAction, Command, CommandContext};
use crate::engine::flags::{FlagState, Flags};
use crate::strutil::{join_spaces, join_with, str_chars, string_from_chars};

verus! {

/// Prints its arguments, joined with single spaces.
pub struct Echo;

impl Command for Echo {
    open spec fn name_view(&self) -> Seq<char> {
        "echo"@
    }

    open spec fn description_view(&self) -> Seq<char> {
        "Prints the given arguments"@
    }

    open spec fn extended_description_view(&self) -> Seq<char> {
        "Prints the given arguments"@
    }

    open spec fn execute_ensures(
        &self,
        args: Seq<Seq<char>>,
        flags: FlagState,
        context: &CommandContext,
        r: Result<BuiltinAction, String>,
    ) -> bool {
        r matches Ok(BuiltinAction::Print(s)) && s@ == join_with(args, seq![' ']) + seq!['\n']
    }

    fn name(&self) -> (r: &'static str) {
        "echo"
    }

    fn description(&self) -> (r: &'static str) {
        "Prints the given arguments"
    }

    fn extended_description(&self) -> (r: &'static str) {
        "Prints the given arguments"
    }

    fn execute(
        &self,
        args: &Vec<String>,
        flags: &Flags,
        context: &CommandContext,
    ) -> (r: Result<BuiltinAction, String>) {
        let joined = join_spaces(args);
        let mut v = str_chars(joined.as_str());
        v.push('\n');
        proof {
            assert(v@ =~= join_with(args.deep_view(), seq![' ']) + seq!['\n']);
        }
        Ok(BuiltinAction::Print(string_from_chars(&v)))
    }
}

} // verus!
