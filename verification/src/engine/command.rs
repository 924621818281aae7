//! The vocabulary shared by the dispatcher and the process orchestrator:
//! command invocations and execution errors.

use vstd::prelude::*;

use crate::strutil::{dec_string, push_dec_chars, str_chars, string_from_chars};

verus! {

/// One command with its arguments, as parsed from a statement.
#[derive(Debug)]
pub struct Invocation {
    pub name: String,
    pub args: Vec<String>,
}

impl Invocation {
    /// Whether this invocation is exactly the token group `g`: the first
    /// token is the command name, the rest are its arguments.
    pub open spec fn matches_group(&self, g: Seq<Seq<char>>) -> bool {
        &&& g.len() >= 1
        &&& self.name@ == g[0]
        &&& self.args.deep_view() == g.drop_first()
    }

    /// Builds the invocation for a non-empty token group.
    pub fn from_tokens(tokens: Vec<String>) -> (r: Invocation)
        requires
            tokens@.len() >= 1,
        ensures
            r.matches_group(tokens.deep_view()),
    {
        let ghost dv = tokens.deep_view();
        let mut tokens = tokens;
        let name = tokens.remove(0);
        proof {
            assert(name@ == dv[0]);
            assert(tokens.deep_view() =~= dv.drop_first());
        }
        Invocation { name, args: tokens }
    }
}

/// The read-only view a builtin gets of the session: the lines run so
/// far, and the names of all builtins (for self-introspection).
pub struct CommandContext {
    pub history: Vec<String>,
    pub builtins: Vec<&'static str>,
}

impl Default for CommandContext {
    /// A context with no history and no registered builtins.
    fn default() -> (r: CommandContext)
        ensures
            r.history@.len() == 0,
            r.builtins@.len() == 0,
    {
        CommandContext { history: Vec::new(), builtins: Vec::new() }
    }
}

/// What a builtin asks the session to do.  Builtins never touch the
/// operating system themselves; they hand back one of these effects.
#[derive(Debug)]
pub enum BuiltinAction {
    /// Write the text to standard output, exactly as given.
    Print(String),
    /// Change the working directory; `None` means the home directory.
    ChangeDir(Option<String>),
    /// Print the process's current working directory.
    PrintWorkingDir,
    /// Search the executable search path for the command and report.
    SearchPath(String),
    /// List a directory (`None`: the current one) with the options.
    ListDir { path: Option<String>, show_hidden: bool, long_format: bool },
}

/// A builtin command: a name, a help text, and an effect computed from
/// the arguments, the parsed flags and the context.
pub trait Command: Sized {
    /// The command's name.
    spec fn name_view(&self) -> Seq<char>;

    /// What `execute` promises about its result.
    spec fn execute_ensures(
        &self,
        args: Seq<Seq<char>>,
        flags: crate::engine::flags::FlagState,
        context: &CommandContext,
        r: Result<BuiltinAction, String>,
    ) -> bool;

    /// The one-line description.
    spec fn description_view(&self) -> Seq<char>;

    /// The longer description.
    spec fn extended_description_view(&self) -> Seq<char>;

    /// The command's name.
    fn name(&self) -> (r: &'static str)
        ensures
            r@ == self.name_view(),
    ;

    /// A one-line description.
    fn description(&self) -> (r: &'static str)
        ensures
            r@ == self.description_view(),
    ;

    /// A longer description.
    fn extended_description(&self) -> (r: &'static str)
        ensures
            r@ == self.extended_description_view(),
    ;

    /// Computes the builtin's effect.
    fn execute(
        &self,
        args: &Vec<String>,
        flags: &crate::engine::flags::Flags,
        context: &CommandContext,
    ) -> (r: Result<BuiltinAction, String>)
        requires
            flags.wf(),
        ensures
            self.execute_ensures(args.deep_view(), flags.state(), context, r),
    ;
}

/// Why executing a statement failed.
#[derive(Debug)]
pub enum ExecError {
    /// A redirect operator with no token after it.
    MissingRedirectTarget,
    /// A stage's executable could not be spawned.
    CommandNotFound(String),
    /// A stage ran but exited unsuccessfully; the payload is its 1-based
    /// position in the pipeline.
    StageFailed(usize),
    /// Pipe plumbing or the redirect file failed; the payload is the
    /// reported reason.
    Io(String),
}

impl ExecError {
    /// The message printed for this error.
    pub open spec fn message_view(&self) -> Seq<char> {
        match self {
            ExecError::MissingRedirectTarget => "missing redirect target"@,
            ExecError::CommandNotFound(name) => "command not found: "@ + name@,
            ExecError::StageFailed(index) => "pipeline command "@ + dec_string(*index as int)
                + " exited with non-zero status"@,
            ExecError::Io(detail) => detail@,
        }
    }

    /// Renders the message.
    pub fn message(&self) -> (r: String)
        ensures
            r@ == self.message_view(),
    {
        match self {
            ExecError::MissingRedirectTarget => {
                let v = str_chars("missing redirect target");
                string_from_chars(&v)
            },
            ExecError::CommandNotFound(name) => {
                let mut v = str_chars("command not found: ");
                let mut nv = str_chars(name.as_str());
                v.append(&mut nv);
                string_from_chars(&v)
            },
            ExecError::StageFailed(index) => {
                let mut v = str_chars("pipeline command ");
                push_dec_chars(*index as u64, &mut v);
                let mut tail = str_chars(" exited with non-zero status");
                v.append(&mut tail);
                string_from_chars(&v)
            },
            ExecError::Io(detail) => {
                let v = str_chars(detail.as_str());
                string_from_chars(&v)
            },
        }
    }
}

} // verus!
