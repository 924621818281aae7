//! The command registry: the lookup table from command names to builtin
//! handlers that the dispatcher consults before falling back to an
//! external process.

use vstd::prelude::*;

use crate::builtin::name_table;
use crate::commands::{all_builtins, builtin_names, dispatch, dispatch_ensures, BuiltinKind};
use crate::engine::command::{BuiltinAction, CommandContext};

verus! {

/// The registry of builtin commands and the context they run in.
pub struct CommandRegistry {
    commands: Vec<BuiltinKind>,
    context: CommandContext,
}

impl CommandRegistry {
    /// The registered builtins, in registration order.
    pub closed spec fn commands_view(&self) -> Seq<BuiltinKind> {
        self.commands@
    }

    /// The context handed to every builtin.
    pub closed spec fn context_spec(&self) -> CommandContext {
        self.context
    }

    /// The registered names, in registration order.
    pub open spec fn names_view(&self) -> Seq<Seq<char>> {
        self.commands_view().map_values(|c: BuiltinKind| c.name_view())
    }

    /// Populates the registry with every builtin, over the given history.
    pub fn setup(history: Vec<String>) -> (r: CommandRegistry)
        ensures
            r.names_view() == builtin_names(),
            r.context_spec().history.deep_view() == history.deep_view(),
            r.context_spec().builtins.deep_view() == builtin_names(),
    {
        let commands = all_builtins();
        let names = name_table(&commands);
        let context = CommandContext { history, builtins: names };
        let r = CommandRegistry { commands, context };
        proof {
            assert(r.names_view() =~= builtin_names());
            assert(r.context_spec().builtins.deep_view() =~= builtin_names());
        }
        r
    }

    /// Runs `command` as a builtin when it is one: `Ok(Some(action))` is
    /// the builtin's effect, `Ok(None)` means the command is not a
    /// builtin, and `Err` carries a flag-parse or builtin error message.
    pub fn execute(&self, command: &str, args: &Vec<String>) -> (r: Result<
        Option<BuiltinAction>,
        String,
    >)
        ensures
            dispatch_ensures(
                self.commands_view(),
                &self.context_spec(),
                command@,
                args.deep_view(),
                r,
            ),
    {
        dispatch(&self.commands, &self.context, command, args)
    }

    /// The names of all registered builtins.
    pub fn get_commands(&self) -> (r: Vec<&'static str>)
        ensures
            r.deep_view() == self.names_view(),
    {
        name_table(&self.commands)
    }
}

} // verus!
