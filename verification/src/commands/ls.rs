//! The `ls` builtin: option parsing and target selection.  Reading the
//! directory and rendering the entries is done by the session with the
//! formatting helpers in `utils`.

use vstd::prelude::*;

use crate::engine::command::{BuiltinAction, Command, CommandContext};
use crate::engine::flags::{FlagState, Flags};
use crate::strutil::{str_chars, string_from_chars};

verus! {

/// The listing options drawn from the flags.
pub struct ListOptions {
    pub show_hidden: bool,
    pub long_format: bool,
    pub help: bool,
}

impl ListOptions {
    /// Reads the options: `-a` shows hidden entries, `-l` the long
    /// format, `-?` the help text.
    pub fn from_flags(flags: &Flags) -> (r: ListOptions)
        ensures
            r.show_hidden == flags.flag_set().contains('a'),
            r.long_format == flags.flag_set().contains('l'),
            r.help == flags.flag_set().contains('?'),
    {
        ListOptions {
            show_hidden: flags.has_flag('a'),
            long_format: flags.has_flag('l'),
            help: flags.has_flag('?'),
        }
    }
}

/// The first argument that is not a flag, from position `i` on: the
/// listing target, when one is given.
pub open spec fn first_nonflag_from(args: Seq<Seq<char>>, i: int) -> Option<Seq<char>>
    decreases args.len() - i,
{
    if i < 0 || i >= args.len() {
        Option::None
    } else if args[i].len() > 0 && args[i][0] == '-' {
        first_nonflag_from(args, i + 1)
    } else {
        Option::Some(args[i])
    }
}

/// The listing target named by the arguments, if any.
pub open spec fn first_nonflag(args: Seq<Seq<char>>) -> Option<Seq<char>> {
    first_nonflag_from(args, 0)
}

/// Lists a directory.
pub struct ListDirectory;

impl Command for ListDirectory {
    open spec fn name_view(&self) -> Seq<char> {
        "ls"@
    }

    open spec fn description_view(&self) -> Seq<char> {
        "List directory contents"@
    }

    open spec fn extended_description_view(&self) -> Seq<char> {
        "List directory contents with optional formatting.\n\nFlags:\n-a: Show hidden files\n-l: Use long listing format\n\nIf no path is provided, the current directory is used."@
    }

    open spec fn execute_ensures(
        &self,
        args: Seq<Seq<char>>,
        flags: FlagState,
        context: &CommandContext,
        r: Result<BuiltinAction, String>,
    ) -> bool {
        if flags.flags.contains('?') {
            r matches Ok(BuiltinAction::Print(s))
                && s@ == "List directory contents with optional formatting.\n\nFlags:\n-a: Show hidden files\n-l: Use long listing format\n\nIf no path is provided, the current directory is used."@
                + seq!['\n']
        } else {
            r matches Ok(BuiltinAction::ListDir { path, show_hidden, long_format })
                && show_hidden == flags.flags.contains('a') && long_format == flags.flags.contains(
                'l',
            ) && (match (path, first_nonflag(args)) {
                (Option::Some(p), Option::Some(t)) => p@ == t,
                (Option::None, Option::None) => true,
                _ => false,
            })
        }
    }

    fn name(&self) -> (r: &'static str) {
        "ls"
    }

    fn description(&self) -> (r: &'static str) {
        "List directory contents"
    }

    fn extended_description(&self) -> (r: &'static str) {
        "List directory contents with optional formatting.\n\nFlags:\n-a: Show hidden files\n-l: Use long listing format\n\nIf no path is provided, the current directory is used."
    }

    fn execute(
        &self,
        args: &Vec<String>,
        flags: &Flags,
        context: &CommandContext,
    ) -> (r: Result<BuiltinAction, String>) {
        let options = ListOptions::from_flags(flags);
        if options.help {
            let mut v = str_chars(self.extended_description());
            let ghost v0 = v@;
            v.push('\n');
            proof {
                assert(v@ =~= v0 + seq!['\n']);
            }
            return Ok(BuiltinAction::Print(string_from_chars(&v)));
        }
        let ghost dv = args.deep_view();
        let n = args.len();
        let mut i: usize = 0;
        let mut target: Option<String> = None;
        while i < n && target.is_none()
            invariant
                n == args@.len(),
                dv == args.deep_view(),
                dv.len() == n,
                i <= n,
                match target {
                    Option::Some(t) => first_nonflag(dv) matches Option::Some(p) && t@ == p,
                    Option::None => first_nonflag(dv) == first_nonflag_from(dv, i as int),
                },
            decreases n - i + (if target.is_none() {
                1int
            } else {
                0int
            }),
        {
            let cs = str_chars(args[i].as_str());
            if cs.len() > 0 && cs[0] == '-' {
                i = i + 1;
            } else {
                target = Some(args[i].clone());
            }
        }
        Ok(
            BuiltinAction::ListDir {
                path: target,
                show_hidden: options.show_hidden,
                long_format: options.long_format,
            },
        )
    }
}

} // verus!
