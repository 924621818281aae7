//! The builtin commands and the closed list the registry dispatches over.

pub mod cd;
pub mod echo;
pub mod history;
pub mod ls;
pub mod pwd;
pub mod type_cmd;

use vstd::prelude::*;

use crate::engine::command::{BuiltinAction, Command, CommandContext};
use crate::engine::flags::{FlagState, Flags};
use cd::ChangeDirectory;
use echo::Echo;
use history::History;
use ls::ListDirectory;
use pwd::PrintWorkingDirectory;
use type_cmd::TypeCommand;

verus! {

/// One of the shell's builtins, dispatched by variant.
pub enum BuiltinKind {
    Echo(Echo),
    Cd(ChangeDirectory),
    Ls(ListDirectory),
    Pwd(PrintWorkingDirectory),
    History(History),
    Type(TypeCommand),
}

impl BuiltinKind {
    /// The name of the wrapped builtin.
    pub open spec fn name_view(&self) -> Seq<char> {
        match self {
            BuiltinKind::Echo(c) => c.name_view(),
            BuiltinKind::Cd(c) => c.name_view(),
            BuiltinKind::Ls(c) => c.name_view(),
            BuiltinKind::Pwd(c) => c.name_view(),
            BuiltinKind::History(c) => c.name_view(),
            BuiltinKind::Type(c) => c.name_view(),
        }
    }

    /// What executing the wrapped builtin promises.
    pub open spec fn execute_ensures(
        &self,
        args: Seq<Seq<char>>,
        flags: FlagState,
        context: &CommandContext,
        r: Result<BuiltinAction, String>,
    ) -> bool {
        match self {
            BuiltinKind::Echo(c) => c.execute_ensures(args, flags, context, r),
            BuiltinKind::Cd(c) => c.execute_ensures(args, flags, context, r),
            BuiltinKind::Ls(c) => c.execute_ensures(args, flags, context, r),
            BuiltinKind::Pwd(c) => c.execute_ensures(args, flags, context, r),
            BuiltinKind::History(c) => c.execute_ensures(args, flags, context, r),
            BuiltinKind::Type(c) => c.execute_ensures(args, flags, context, r),
        }
    }

    /// The name of the wrapped builtin.
    pub fn name(&self) -> (r: &'static str)
        ensures
            r@ == self.name_view(),
    {
        match self {
            BuiltinKind::Echo(c) => c.name(),
            BuiltinKind::Cd(c) => c.name(),
            BuiltinKind::Ls(c) => c.name(),
            BuiltinKind::Pwd(c) => c.name(),
            BuiltinKind::History(c) => c.name(),
            BuiltinKind::Type(c) => c.name(),
        }
    }

    /// The one-line description of the wrapped builtin.
    pub fn description(&self) -> (r: &'static str) {
        match self {
            BuiltinKind::Echo(c) => c.description(),
            BuiltinKind::Cd(c) => c.description(),
            BuiltinKind::Ls(c) => c.description(),
            BuiltinKind::Pwd(c) => c.description(),
            BuiltinKind::History(c) => c.description(),
            BuiltinKind::Type(c) => c.description(),
        }
    }

    /// The longer description of the wrapped builtin.
    pub fn extended_description(&self) -> (r: &'static str) {
        match self {
            BuiltinKind::Echo(c) => c.extended_description(),
            BuiltinKind::Cd(c) => c.extended_description(),
            BuiltinKind::Ls(c) => c.extended_description(),
            BuiltinKind::Pwd(c) => c.extended_description(),
            BuiltinKind::History(c) => c.extended_description(),
            BuiltinKind::Type(c) => c.extended_description(),
        }
    }

    /// Executes the wrapped builtin.
    pub fn execute(
        &self,
        args: &Vec<String>,
        flags: &Flags,
        context: &CommandContext,
    ) -> (r: Result<BuiltinAction, String>)
        requires
            flags.wf(),
        ensures
            self.execute_ensures(args.deep_view(), flags.state(), context, r),
    {
        match self {
            BuiltinKind::Echo(c) => c.execute(args, flags, context),
            BuiltinKind::Cd(c) => c.execute(args, flags, context),
            BuiltinKind::Ls(c) => c.execute(args, flags, context),
            BuiltinKind::Pwd(c) => c.execute(args, flags, context),
            BuiltinKind::History(c) => c.execute(args, flags, context),
            BuiltinKind::Type(c) => c.execute(args, flags, context),
        }
    }
}

/// What dispatching one command over a builtin list promises: a miss
/// reports "not a builtin"; a hit parses the flags and executes the named
/// builtin, whose own promise then holds of the action or error; a flag
/// parse error is reported as that error's message.
pub open spec fn dispatch_ensures(
    cmds: Seq<BuiltinKind>,
    context: &CommandContext,
    command: Seq<char>,
    args: Seq<Seq<char>>,
    r: Result<Option<BuiltinAction>, String>,
) -> bool {
    match r {
        Result::Ok(Option::None) => !(exists|k: int|
            0 <= k < cmds.len() && (#[trigger] cmds[k]).name_view() == command),
        Result::Ok(Option::Some(a)) => exists|k: int|
            0 <= k < cmds.len() && (#[trigger] cmds[k]).name_view() == command && (
            crate::engine::flags::parse_flags(args, Set::empty()) matches Ok(st)
                && cmds[k].execute_ensures(args, st, context, Result::Ok(a))),
        Result::Err(m) => exists|k: int|
            0 <= k < cmds.len() && (#[trigger] cmds[k]).name_view() == command && (match crate::engine::flags::parse_flags(
                args,
                Set::empty(),
            ) {
                Result::Err(fault) => m@ == crate::engine::flags::fault_message(fault),
                Result::Ok(st) => cmds[k].execute_ensures(args, st, context, Result::Err(m)),
            }),
    }
}

/// Looks the command up among the builtins and, on a hit, parses the
/// argument flags and executes it.  `Ok(None)` means the command is not a
/// builtin.
pub fn dispatch(
    cmds: &Vec<BuiltinKind>,
    context: &CommandContext,
    command: &str,
    args: &Vec<String>,
) -> (r: Result<Option<BuiltinAction>, String>)
    ensures
        dispatch_ensures(cmds@, context, command@, args.deep_view(), r),
{
    let n = cmds.len();
    let mut k: usize = 0;
    while k < n && !crate::strutil::str_eq(cmds[k].name(), command)
        invariant
            n == cmds@.len(),
            k <= n,
            forall|j: int| 0 <= j < k ==> (#[trigger] cmds@[j]).name_view() != command@,
        decreases n - k,
    {
        k = k + 1;
    }
    if k >= n {
        proof {
            if exists|j: int| 0 <= j < cmds@.len() && (#[trigger] cmds@[j]).name_view()
                == command@ {
                let j = choose|j: int|
                    0 <= j < cmds@.len() && (#[trigger] cmds@[j]).name_view() == command@;
                assert(false);
            }
        }
        return Ok(None);
    }
    proof {
        assert(cmds@[k as int].name_view() == command@);
    }
    match Flags::new(args) {
        Err(e) => {
            proof {
                let p = crate::engine::flags::parse_flags(args.deep_view(), Set::empty());
                let fault = p->Err_0;
                assert(crate::engine::flags::err_matches(e, fault));
                assert(e.message_view() == crate::engine::flags::fault_message(fault));
            }
            Err(e.message())
        },
        Ok(flags) => {
            proof {
                let p = crate::engine::flags::parse_flags(args.deep_view(), Set::empty());
                let st = p->Ok_0;
                assert(flags.state() == st);
            }
            match cmds[k].execute(args, &flags, context) {
                Ok(a) => Ok(Some(a)),
                Err(m) => Err(m),
            }
        },
    }
}

/// The names of the registered builtins, in registration order.
pub open spec fn builtin_names() -> Seq<Seq<char>> {
    seq!["echo"@, "cd"@, "ls"@, "pwd"@, "history"@, "type"@]
}

/// Every builtin, in registration order.
pub fn all_builtins() -> (r: Vec<BuiltinKind>)
    ensures
        r@.len() == builtin_names().len(),
        forall|k: int| 0 <= k < r@.len() ==> (#[trigger] r@[k]).name_view() == builtin_names()[k],
{
    let mut v: Vec<BuiltinKind> = Vec::new();
    v.push(BuiltinKind::Echo(Echo));
    v.push(BuiltinKind::Cd(ChangeDirectory));
    v.push(BuiltinKind::Ls(ListDirectory));
    v.push(BuiltinKind::Pwd(PrintWorkingDirectory));
    v.push(BuiltinKind::History(History));
    v.push(BuiltinKind::Type(TypeCommand));
    proof {
        assert(v@[0].name_view() == builtin_names()[0]);
        assert(v@[1].name_view() == builtin_names()[1]);
        assert(v@[2].name_view() == builtin_names()[2]);
        assert(v@[3].name_view() == builtin_names()[3]);
        assert(v@[4].name_view() == builtin_names()[4]);
        assert(v@[5].name_view() == builtin_names()[5]);
    }
    v
}

} // verus!
