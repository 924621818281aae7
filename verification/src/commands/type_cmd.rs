//! The `type` builtin.

use vstd::prelude::*;
use vstd::string::*;

use crate::engine::command::{BuiltinAction, Command, CommandContext};
use crate::engine::flags::{FlagState, Flags};
use crate::strutil::{str_chars, str_eq, string_from_chars};

verus! {

/// Reports whether a command is a shell builtin; anything else is looked
/// up on the executable search path by the session.
pub struct TypeCommand;

impl Command for TypeCommand {
    open spec fn name_view(&self) -> Seq<char> {
        "type"@
    }

    open spec fn description_view(&self) -> Seq<char> {
        "Display information about command type"@
    }

    open spec fn extended_description_view(&self) -> Seq<char> {
        "Display information about command type"@
    }

    open spec fn execute_ensures(
        &self,
        args: Seq<Seq<char>>,
        flags: FlagState,
        context: &CommandContext,
        r: Result<BuiltinAction, String>,
    ) -> bool {
        if args.len() == 0 {
            r matches Err(m) && m@ == "No command provided"@
        } else if context.builtins.deep_view().contains(args[0]) {
            r matches Ok(BuiltinAction::Print(s)) && s@ == args[0] + " is a shell builtin\n"@
        } else {
            r matches Ok(BuiltinAction::SearchPath(c)) && c@ == args[0]
        }
    }

    fn name(&self) -> (r: &'static str) {
        "type"
    }

    fn description(&self) -> (r: &'static str) {
        "Display information about command type"
    }

    fn extended_description(&self) -> (r: &'static str) {
        "Display information about command type"
    }

    fn execute(
        &self,
        args: &Vec<String>,
        flags: &Flags,
        context: &CommandContext,
    ) -> (r: Result<BuiltinAction, String>) {
        if args.len() == 0 {
            return Err(String::from_str("No command provided"));
        }
        let cmd = &args[0];
        let ghost bs = context.builtins.deep_view();
        let n = context.builtins.len();
        let mut i: usize = 0;
        let mut found: bool = false;
        while i < n && !found
            invariant
                n == context.builtins@.len(),
                bs == context.builtins.deep_view(),
                bs.len() == n,
                i <= n,
                cmd@ == args.deep_view()[0],
                found ==> bs.contains(args.deep_view()[0]),
                !found ==> forall|j: int| 0 <= j < i ==> bs[j] != args.deep_view()[0],
            decreases n - i + (if found {
                0int
            } else {
                1int
            }),
        {
            if str_eq(context.builtins[i], cmd.as_str()) {
                found = true;
                proof {
                    assert(bs[i as int] == args.deep_view()[0]);
                }
            } else {
                i = i + 1;
            }
        }
        if found {
            let mut v = str_chars(cmd.as_str());
            let mut tail = str_chars(" is a shell builtin\n");
            v.append(&mut tail);
            Ok(BuiltinAction::Print(string_from_chars(&v)))
        } else {
            proof {
                if bs.contains(args.deep_view()[0]) {
                    let j = choose|j: int| 0 <= j < bs.len() && bs[j] == args.deep_view()[0];
                    assert(false);
                }
            }
            Ok(BuiltinAction::SearchPath(cmd.clone()))
        }
    }
}

} // verus!
