//! The builtin command table used by the session: the registered
//! builtins, the session's directory, and the context handed to each
//! builtin when it runs.

use vstd::prelude::*;

use crate::commands::{all_builtins, builtin_names, dispatch, dispatch_ensures, BuiltinKind};
use crate::engine::command::{BuiltinAction, CommandContext};

verus! {

/// The builtins with the context they execute in.
pub struct BuiltinCommand {
    commands: Vec<BuiltinKind>,
    pub current_dir: String,
    context: CommandContext,
}

impl BuiltinCommand {
    /// The registered builtins, in registration order.
    pub closed spec fn commands_view(&self) -> Seq<BuiltinKind> {
        self.commands@
    }

    /// The directory the table was built for.
    pub closed spec fn dir_view(&self) -> Seq<char> {
        self.current_dir@
    }

    /// The context handed to every builtin.
    pub closed spec fn context_spec(&self) -> CommandContext {
        self.context
    }

    /// The registered names, in registration order.
    pub open spec fn names_view(&self) -> Seq<Seq<char>> {
        self.commands_view().map_values(|c: BuiltinKind| c.name_view())
    }

    /// Registers every builtin, with the given directory and history.
    pub fn new(current_dir: String, history: Vec<String>) -> (r: BuiltinCommand)
        ensures
            r.dir_view() == current_dir@,
            r.names_view() == builtin_names(),
            r.context_spec().history.deep_view() == history.deep_view(),
            r.context_spec().builtins.deep_view() == builtin_names(),
    {
        let commands = all_builtins();
        let names = name_table(&commands);
        let context = CommandContext { history, builtins: names };
        let r = BuiltinCommand { commands, current_dir, context };
        proof {
            assert(r.names_view() =~= builtin_names());
            assert(r.context_spec().builtins.deep_view() =~= builtin_names());
        }
        r
    }

    /// Runs `command` as a builtin when it is one: `Ok(Some(action))` is
    /// the builtin's effect, `Ok(None)` means the command is not a
    /// builtin, and `Err` carries a flag-parse or builtin error message.
    pub fn execute(&self, command: &str, args: &Vec<String>) -> (r: Result<
        Option<BuiltinAction>,
        String,
    >)
        ensures
            dispatch_ensures(
                self.commands_view(),
                &self.context_spec(),
                command@,
                args.deep_view(),
                r,
            ),
    {
        dispatch(&self.commands, &self.context, command, args)
    }

    /// The names of all registered builtins.
    pub fn get_commands(&self) -> (r: Vec<&'static str>)
        ensures
            r.deep_view() == self.names_view(),
    {
        name_table(&self.commands)
    }
}

/// The names of the given builtins, in order.
pub fn name_table(cmds: &Vec<BuiltinKind>) -> (r: Vec<&'static str>)
    ensures
        r.deep_view() == cmds@.map_values(|c: BuiltinKind| c.name_view()),
{
    let n = cmds.len();
    let mut r: Vec<&'static str> = Vec::new();
    let mut k: usize = 0;
    while k < n
        invariant
            n == cmds@.len(),
            k <= n,
            r.deep_view().len() == k,
            forall|j: int| 0 <= j < k ==> #[trigger] r.deep_view()[j] == cmds@[j].name_view(),
        decreases n - k,
    {
        let name = cmds[k].name();
        let ghost before = r.deep_view();
        r.push(name);
        proof {
            assert(r.deep_view() =~= before.push(name@));
        }
        k = k + 1;
    }
    proof {
        assert(r.deep_view() =~= cmds@.map_values(|c: BuiltinKind| c.name_view()));
    }
    r
}

} // verus!
