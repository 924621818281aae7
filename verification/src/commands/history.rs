//! The `history` builtin.

use vstd::prelude::*;

use crate::engine::command::{BuiltinAction, Command, CommandContext};
use crate::engine::flags::{FlagState, Flags};
use crate::strutil::{dec_chars, dec_string, pad_left, push_padded, str_chars, string_from_chars};

verus! {

/// One rendered history line: the 1-based number right-aligned to five
/// columns, a space, the line, and a newline.
pub open spec fn history_line(number: int, line: Seq<char>) -> Seq<char> {
    pad_left(dec_string(number), 5) + seq![' '] + line + seq!['\n']
}

/// The whole history, rendered line by line.
pub open spec fn history_rendering(h: Seq<Seq<char>>) -> Seq<char>
    decreases h.len(),
{
    if h.len() == 0 {
        Seq::empty()
    } else {
        history_rendering(h.drop_last()) + history_line(h.len() as int, h.last())
    }
}

/// Prints the command history with 1-based line numbers.
pub struct History;

impl Command for History {
    open spec fn name_view(&self) -> Seq<char> {
        "history"@
    }

    open spec fn description_view(&self) -> Seq<char> {
        "Display command history"@
    }

    open spec fn extended_description_view(&self) -> Seq<char> {
        "Display the command history with line numbers"@
    }

    open spec fn execute_ensures(
        &self,
        args: Seq<Seq<char>>,
        flags: FlagState,
        context: &CommandContext,
        r: Result<BuiltinAction, String>,
    ) -> bool {
        r matches Ok(BuiltinAction::Print(s)) && s@ == history_rendering(
            context.history.deep_view(),
        )
    }

    fn name(&self) -> (r: &'static str) {
        "history"
    }

    fn description(&self) -> (r: &'static str) {
        "Display command history"
    }

    fn extended_description(&self) -> (r: &'static str) {
        "Display the command history with line numbers"
    }

    fn execute(
        &self,
        args: &Vec<String>,
        flags: &Flags,
        context: &CommandContext,
    ) -> (r: Result<BuiltinAction, String>) {
        let ghost h = context.history.deep_view();
        let mut v: Vec<char> = Vec::new();
        proof {
            assert(h.subrange(0, 0) =~= Seq::<Seq<char>>::empty());
        }
        let n = context.history.len();
        let mut i: usize = 0;
        while i < n
            invariant
                n == context.history@.len(),
                h == context.history.deep_view(),
                h.len() == n,
                i <= n,
                v@ == history_rendering(h.subrange(0, i as int)),
            decreases n - i,
        {
            let ghost v0 = v@;
            let num = dec_chars((i as u64) + 1);
            push_padded(&mut v, &num, 5);
            v.push(' ');
            let mut lc = str_chars(context.history[i].as_str());
            v.append(&mut lc);
            v.push('\n');
            proof {
                let pre = h.subrange(0, i as int);
                assert(h.subrange(0, i + 1 as int).drop_last() =~= pre);
                assert(h.subrange(0, i + 1 as int).last() == h[i as int]);
                assert(v@ =~= v0 + history_line(i + 1 as int, h[i as int]));
            }
            i = i + 1;
        }
        proof {
            assert(h.subrange(0, n as int) =~= h);
        }
        Ok(BuiltinAction::Print(string_from_chars(&v)))
    }
}

} // verus!
