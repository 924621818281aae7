//! The session core: tokenizing input lines, splitting them into
//! statements, expanding tildes, recognising pipe and redirect operators,
//! and the session state (working directory and history).

use vstd::prelude::*;

use crate::engine::command::{ExecError, Invocation};
use crate::strutil::{is_space, join_with, space_char, str_chars, string_from_chars};

verus! {

// ---------------------------------------------------------------------
// Tokenizing: double quotes toggle literal mode and are elided; outside
// quotes, whitespace separates tokens.
// ---------------------------------------------------------------------

/// Tokenizing, processed left to right: `in_quotes` is the quote state,
/// `cur` the token being built, `acc` the tokens already finished.
pub open spec fn tokenize_from(
    line: Seq<char>,
    in_quotes: bool,
    cur: Seq<char>,
    acc: Seq<Seq<char>>,
) -> Seq<Seq<char>>
    decreases line.len(),
{
    if line.len() == 0 {
        if cur.len() == 0 {
            acc
        } else {
            acc.push(cur)
        }
    } else {
        let c = line[0];
        let rest = line.drop_first();
        if c == '"' {
            tokenize_from(rest, !in_quotes, cur, acc)
        } else if is_space(c) && !in_quotes {
            if cur.len() == 0 {
                tokenize_from(rest, in_quotes, cur, acc)
            } else {
                tokenize_from(rest, in_quotes, Seq::empty(), acc.push(cur))
            }
        } else {
            tokenize_from(rest, in_quotes, cur.push(c), acc)
        }
    }
}

/// The argument tokens of a line.
pub open spec fn tokenize(line: Seq<char>) -> Seq<Seq<char>> {
    tokenize_from(line, false, Seq::empty(), Seq::empty())
}

// ---------------------------------------------------------------------
// Statement splitting: the line is cut at the first comment marker, then
// split on `;`; fragments are trimmed and empty ones dropped.
// ---------------------------------------------------------------------

/// The line up to (not including) the first `#`.
pub open spec fn before_comment(line: Seq<char>) -> Seq<char>
    decreases line.len(),
{
    if line.len() == 0 {
        line
    } else if line[0] == '#' {
        Seq::empty()
    } else {
        seq![line[0]] + before_comment(line.drop_first())
    }
}

/// `s` without leading whitespace.
pub open spec fn trim_start_sp(s: Seq<char>) -> Seq<char>
    decreases s.len(),
{
    if s.len() > 0 && is_space(s[0]) {
        trim_start_sp(s.drop_first())
    } else {
        s
    }
}

/// `s` without trailing whitespace.
pub open spec fn trim_end_sp(s: Seq<char>) -> Seq<char>
    decreases s.len(),
{
    if s.len() > 0 && is_space(s.last()) {
        trim_end_sp(s.drop_last())
    } else {
        s
    }
}

/// `s` without leading or trailing whitespace.
pub open spec fn trim_sp(s: Seq<char>) -> Seq<char> {
    trim_end_sp(trim_start_sp(s))
}

/// The statement a finished fragment contributes: its trimmed text, or
/// nothing when only whitespace remains.
pub open spec fn emit_statement(cur: Seq<char>) -> Seq<Seq<char>> {
    let t = trim_sp(cur);
    if t.len() == 0 {
        Seq::empty()
    } else {
        seq![t]
    }
}

/// Statement splitting, processed left to right over the comment-free
/// part of the line.
pub open spec fn split_from(s: Seq<char>, cur: Seq<char>, acc: Seq<Seq<char>>) -> Seq<Seq<char>>
    decreases s.len(),
{
    if s.len() == 0 {
        acc + emit_statement(cur)
    } else if s[0] == ';' {
        split_from(s.drop_first(), Seq::empty(), acc + emit_statement(cur))
    } else {
        split_from(s.drop_first(), cur.push(s[0]), acc)
    }
}

/// The trimmed, non-empty statements of a raw input line.
pub open spec fn split_statements(line: Seq<char>) -> Seq<Seq<char>> {
    split_from(before_comment(line), Seq::empty(), Seq::empty())
}

/// A line holding only whitespace, or only whitespace before a comment.
pub open spec fn blank_or_comment(line: Seq<char>) -> bool {
    forall|i: int| 0 <= i < before_comment(line).len() ==> is_space(#[trigger] before_comment(line)[i])
}

/// Whitespace-only text stays whitespace-only while fragments are built,
/// so no statement is ever emitted from it.
proof fn lemma_split_all_space(s: Seq<char>, cur: Seq<char>, acc: Seq<Seq<char>>)
    requires
        forall|i: int| 0 <= i < s.len() ==> is_space(s[i]),
        forall|i: int| 0 <= i < cur.len() ==> is_space(cur[i]),
    ensures
        split_from(s, cur, acc) == acc,
    decreases s.len(),
{
    if s.len() == 0 {
        lemma_trim_all_space(cur);
        assert(acc + emit_statement(cur) =~= acc);
    } else {
        assert(is_space(s[0]));
        assert(s[0] != ';');
        assert forall|i: int| 0 <= i < cur.push(s[0]).len() implies is_space(cur.push(s[0])[i]) by {
            if i < cur.len() {
            } else {
                assert(cur.push(s[0])[i] == s[0]);
            }
        }
        assert forall|i: int| 0 <= i < s.drop_first().len() implies is_space(s.drop_first()[i]) by {
            assert(s.drop_first()[i] == s[i + 1]);
        }
        lemma_split_all_space(s.drop_first(), cur.push(s[0]), acc);
    }
}

/// Trimming whitespace-only text leaves nothing.
proof fn lemma_trim_all_space(s: Seq<char>)
    requires
        forall|i: int| 0 <= i < s.len() ==> is_space(s[i]),
    ensures
        trim_sp(s).len() == 0,
    decreases s.len(),
{
    if s.len() > 0 {
        assert forall|i: int| 0 <= i < s.drop_first().len() implies is_space(s.drop_first()[i]) by {
            assert(s.drop_first()[i] == s[i + 1]);
        }
        lemma_trim_all_space(s.drop_first());
        assert(trim_start_sp(s) == trim_start_sp(s.drop_first()));
        assert(trim_sp(s) == trim_sp(s.drop_first()));
    }
}

/// A line holding only whitespace, or only a comment after whitespace,
/// yields no statement at all.
pub proof fn lemma_blank_input_no_statements(line: Seq<char>)
    requires
        blank_or_comment(line),
    ensures
        split_statements(line).len() == 0,
{
    lemma_split_all_space(before_comment(line), Seq::empty(), Seq::empty());
}

// ---------------------------------------------------------------------
// Tilde expansion.
// ---------------------------------------------------------------------

/// A path beginning with `~` has the tilde replaced by the home directory.
pub open spec fn expand_tilde_view(path: Seq<char>, home: Seq<char>) -> Seq<char> {
    if path.len() > 0 && path[0] == '~' {
        home + path.drop_first()
    } else {
        path
    }
}

/// The statement's tokens after tilde expansion: the command name is kept
/// as written, each argument is expanded.
pub open spec fn expand_all(toks: Seq<Seq<char>>, home: Seq<char>) -> Seq<Seq<char>> {
    if toks.len() == 0 {
        toks
    } else {
        seq![toks[0]] + toks.drop_first().map_values(
            |a: Seq<char>| expand_tilde_view(a, home),
        )
    }
}

/// A run of characters none of which can end the token being built --
/// no quote, and whitespace only while inside quotes -- lands in that
/// token unchanged.
proof fn lemma_tokenize_literal_run(
    run: Seq<char>,
    rest: Seq<char>,
    in_quotes: bool,
    cur: Seq<char>,
    acc: Seq<Seq<char>>,
)
    requires
        forall|i: int|
            0 <= i < run.len() ==> #[trigger] run[i] != '"' && (in_quotes || !is_space(run[i])),
    ensures
        tokenize_from(run + rest, in_quotes, cur, acc) == tokenize_from(
            rest,
            in_quotes,
            cur + run,
            acc,
        ),
    decreases run.len(),
{
    if run.len() == 0 {
        assert(run + rest =~= rest);
        assert(cur + run =~= cur);
    } else {
        let c = run[0];
        assert((run + rest)[0] == c);
        assert((run + rest).drop_first() =~= run.drop_first() + rest);
        assert forall|i: int|
            0 <= i < run.drop_first().len() implies #[trigger] run.drop_first()[i] != '"' && (
        in_quotes || !is_space(run.drop_first()[i])) by {
            assert(run.drop_first()[i] == run[i + 1]);
        }
        lemma_tokenize_literal_run(run.drop_first(), rest, in_quotes, cur.push(c), acc);
        assert(cur.push(c) + run.drop_first() =~= cur + run);
    }
}

/// A quoted argument arrives as a single token: for any command name and
/// any non-empty quoted text (with no quote character of its own, but
/// with any embedded whitespace), the line `cmd "text"` tokenizes to
/// exactly the two tokens `cmd` and `text`.
pub proof fn lemma_quoted_argument_single_token(cmd: Seq<char>, q: Seq<char>)
    requires
        cmd.len() > 0,
        q.len() > 0,
        forall|i: int| 0 <= i < cmd.len() ==> #[trigger] cmd[i] != '"' && !is_space(cmd[i]),
        forall|i: int| 0 <= i < q.len() ==> #[trigger] q[i] != '"',
    ensures
        tokenize(cmd + seq![' ', '"'] + q + seq!['"']) == seq![cmd, q],
{
    let line = cmd + seq![' ', '"'] + q + seq!['"'];
    let e = Seq::<Seq<char>>::empty();
    let tail1 = seq![' ', '"'] + q + seq!['"'];
    assert(line =~= cmd + tail1);
    lemma_tokenize_literal_run(cmd, tail1, false, Seq::empty(), e);
    assert(Seq::<char>::empty() + cmd =~= cmd);
    // the space ends the command token
    assert(tail1[0] == ' ');
    let tail2 = seq!['"'] + q + seq!['"'];
    assert(tail1.drop_first() =~= tail2);
    assert(tokenize_from(tail1, false, cmd, e) == tokenize_from(tail2, false, Seq::empty(), e.push(cmd)));
    // the opening quote turns literal mode on
    assert(tail2[0] == '"');
    let tail3 = q + seq!['"'];
    assert(tail2.drop_first() =~= tail3);
    lemma_tokenize_literal_run(q, seq!['"'], true, Seq::empty(), e.push(cmd));
    assert(Seq::<char>::empty() + q =~= q);
    // the closing quote turns literal mode off; the line ends with the
    // quoted text as the pending token
    assert(seq!['"'].drop_first() =~= Seq::<char>::empty());
    assert(tokenize_from(seq!['"'], true, q, e.push(cmd)) == tokenize_from(
        Seq::<char>::empty(),
        false,
        q,
        e.push(cmd),
    ));
    assert(e.push(cmd).push(q) =~= seq![cmd, q]);
}

/// A line with no quoting and plain single-space separators: no quote
/// character, every whitespace character is a single space, and no space
/// starts or ends the line.
pub open spec fn plain_spaced(line: Seq<char>) -> bool {
    &&& forall|i: int| 0 <= i < line.len() ==> #[trigger] line[i] != '"'
    &&& forall|i: int| 0 <= i < line.len() && is_space(#[trigger] line[i]) ==> line[i] == ' '
    &&& forall|i: int| 0 <= i < line.len() - 1 ==> !(#[trigger] line[i] == ' ' && line[i + 1] == ' ')
    &&& (line.len() > 0 ==> line[0] != ' ')
    &&& (line.len() > 0 ==> line[line.len() - 1] != ' ')
}

/// Finished tokens ride along unchanged while the rest of the line is
/// tokenized.
proof fn lemma_tokenize_acc(line: Seq<char>, q: bool, cur: Seq<char>, acc: Seq<Seq<char>>)
    ensures
        tokenize_from(line, q, cur, acc) == acc + tokenize_from(line, q, cur, Seq::empty()),
    decreases line.len(),
{
    let e = Seq::<Seq<char>>::empty();
    if line.len() == 0 {
        if cur.len() == 0 {
            assert(acc + e =~= acc);
        } else {
            assert(acc + e.push(cur) =~= acc.push(cur));
        }
    } else {
        let c = line[0];
        let rest = line.drop_first();
        if c == '"' {
            lemma_tokenize_acc(rest, !q, cur, acc);
            lemma_tokenize_acc(rest, !q, cur, e);
        } else if is_space(c) && !q {
            if cur.len() == 0 {
                lemma_tokenize_acc(rest, q, cur, acc);
                lemma_tokenize_acc(rest, q, cur, e);
            } else {
                lemma_tokenize_acc(rest, q, Seq::empty(), acc.push(cur));
                lemma_tokenize_acc(rest, q, Seq::empty(), e.push(cur));
                assert(acc.push(cur) + tokenize_from(rest, q, Seq::empty(), e) =~= acc + (e.push(
                    cur,
                ) + tokenize_from(rest, q, Seq::empty(), e)));
            }
        } else {
            lemma_tokenize_acc(rest, q, cur.push(c), acc);
            lemma_tokenize_acc(rest, q, cur.push(c), e);
        }
    }
}

/// The round trip, generalized over a partially built token: joining the
/// tokens of `cur + line` gives back exactly `cur + line`.
proof fn lemma_round_trip_from(line: Seq<char>, cur: Seq<char>)
    requires
        forall|i: int| 0 <= i < line.len() ==> #[trigger] line[i] != '"',
        forall|i: int| 0 <= i < line.len() && is_space(#[trigger] line[i]) ==> line[i] == ' ',
        forall|i: int|
            0 <= i < line.len() - 1 ==> !(#[trigger] line[i] == ' ' && line[i + 1] == ' '),
        line.len() > 0 ==> line[line.len() - 1] != ' ',
        line.len() > 0 && line[0] == ' ' ==> cur.len() > 0,
    ensures
        join_with(tokenize_from(line, false, cur, Seq::empty()), seq![' ']) == if cur.len() == 0
            && line.len() == 0 {
            Seq::<char>::empty()
        } else {
            cur + line
        },
    decreases line.len(),
{
    let e = Seq::<Seq<char>>::empty();
    let sep: Seq<char> = seq![' '];
    if line.len() == 0 {
        if cur.len() == 0 {
        } else {
            assert(tokenize_from(line, false, cur, e) == e.push(cur));
            assert(join_with(e.push(cur), sep) == cur);
            assert(cur + line =~= cur);
        }
    } else {
        let c = line[0];
        let rest = line.drop_first();
        assert forall|i: int| 0 <= i < rest.len() implies #[trigger] rest[i] != '"' by {
            assert(rest[i] == line[i + 1]);
        }
        assert forall|i: int|
            0 <= i < rest.len() && is_space(#[trigger] rest[i]) implies rest[i] == ' ' by {
            assert(rest[i] == line[i + 1]);
        }
        assert forall|i: int|
            0 <= i < rest.len() - 1 implies !(#[trigger] rest[i] == ' ' && rest[i + 1] == ' ') by {
            assert(rest[i] == line[i + 1]);
            assert(rest[i + 1] == line[i + 2]);
        }
        if c == ' ' {
            // a separator: the built token is finished here
            assert(cur.len() > 0);
            assert(rest.len() > 0);
            assert(rest[0] == line[1]);
            assert(rest[0] != ' ');
            assert(tokenize_from(line, false, cur, e) == tokenize_from(
                rest,
                false,
                Seq::empty(),
                e.push(cur),
            ));
            lemma_tokenize_acc(rest, false, Seq::empty(), e.push(cur));
            let t = tokenize_from(rest, false, Seq::empty(), e);
            lemma_round_trip_from(rest, Seq::empty());
            assert(join_with(t, sep) == rest);
            if t.len() == 0 {
                assert(join_with(t, sep).len() == 0);
                assert(false);
            }
            assert(e.push(cur) + t =~= seq![cur] + t);
            assert((seq![cur] + t)[0] == cur);
            assert((seq![cur] + t).drop_first() =~= t);
            if t.len() == 1 {
                assert(join_with(seq![cur] + t, sep) == cur + sep + t[0]);
            } else {
                assert(join_with(seq![cur] + t, sep) == cur + sep + join_with(t, sep));
            }
            assert(cur + sep + rest =~= cur + line);
        } else {
            assert(!is_space(c) || c == ' ');
            assert(!is_space(c));
            assert(tokenize_from(line, false, cur, e) == tokenize_from(rest, false, cur.push(c), e));
            if rest.len() > 0 && rest[rest.len() - 1] == ' ' {
                assert(line[line.len() - 1] == ' ');
                assert(false);
            }
            lemma_round_trip_from(rest, cur.push(c));
            assert(cur.push(c) + rest =~= cur + line);
        }
    }
}

/// The round trip: tokenizing a line with no quoting and single-space
/// separators and joining the tokens with single spaces gives back the
/// original line.
pub proof fn lemma_tokenize_join_round_trip(line: Seq<char>)
    requires
        plain_spaced(line),
    ensures
        join_with(tokenize(line), seq![' ']) == line,
{
    lemma_round_trip_from(line, Seq::empty());
    if line.len() == 0 {
        assert(join_with(tokenize(line), seq![' ']) =~= line);
    } else {
        assert(Seq::<char>::empty() + line =~= line);
    }
}

// ---------------------------------------------------------------------
// Operator scanning.
// ---------------------------------------------------------------------

/// The pipe operator token.
pub open spec fn pipe_tok() -> Seq<char> {
    "|"@
}

/// The redirect operator token.
pub open spec fn redirect_tok() -> Seq<char> {
    ">"@
}

/// Whether any token is the pipe operator.
pub open spec fn has_pipe(toks: Seq<Seq<char>>) -> bool {
    exists|i: int| 0 <= i < toks.len() && toks[i] == pipe_tok()
}

/// The pipeline stage a finished token group contributes: the group, or
/// nothing when no tokens were gathered (a pipe with nothing before it).
pub open spec fn emit_group(cur: Seq<Seq<char>>) -> Seq<Seq<Seq<char>>> {
    if cur.len() == 0 {
        Seq::empty()
    } else {
        seq![cur]
    }
}

/// Pipeline splitting, processed token by token.
pub open spec fn split_groups_from(
    toks: Seq<Seq<char>>,
    cur: Seq<Seq<char>>,
    acc: Seq<Seq<Seq<char>>>,
) -> Seq<Seq<Seq<char>>>
    decreases toks.len(),
{
    if toks.len() == 0 {
        acc + emit_group(cur)
    } else if toks[0] == pipe_tok() {
        split_groups_from(toks.drop_first(), Seq::empty(), acc + emit_group(cur))
    } else {
        split_groups_from(toks.drop_first(), cur.push(toks[0]), acc)
    }
}

/// The non-empty token groups between pipe operators.
pub open spec fn split_pipeline(toks: Seq<Seq<char>>) -> Seq<Seq<Seq<char>>> {
    split_groups_from(toks, Seq::empty(), Seq::empty())
}

/// Whether `stages` is exactly the invocation list for `groups`.
pub open spec fn stages_match(stages: Seq<Invocation>, groups: Seq<Seq<Seq<char>>>) -> bool {
    &&& stages.len() == groups.len()
    &&& forall|j: int| 0 <= j < stages.len() ==> (#[trigger] stages[j]).matches_group(groups[j])
}

/// The first position from `i` on holding the redirect token, or the
/// length when there is none.
pub open spec fn first_redirect_from(toks: Seq<Seq<char>>, i: int) -> int
    decreases toks.len() - i,
{
    if i < 0 || i >= toks.len() {
        toks.len() as int
    } else if toks[i] == redirect_tok() {
        i
    } else {
        first_redirect_from(toks, i + 1)
    }
}

/// The position of the redirect operator: the first `>` token after the
/// command name, or the length when there is none.
pub open spec fn first_redirect(toks: Seq<Seq<char>>) -> int {
    first_redirect_from(toks, 1)
}

// ---------------------------------------------------------------------
// The session state and its operations.
// ---------------------------------------------------------------------

/// What one statement asks the session to do.
#[derive(Debug)]
pub enum StatementPlan {
    /// No tokens: nothing to run.
    Empty,
    /// The session should end.
    Exit,
    /// Two or more commands joined by pipes (or one, next to a stray pipe).
    Pipeline(Vec<Invocation>),
    /// One command whose output goes to the named file.
    Redirect(Invocation, String),
    /// One command for builtin lookup, falling back to an external process.
    Command(Invocation),
}

/// The mutable session state: the working directory as the shell knows
/// it, and the log of lines that produced at least one statement.
pub struct Shell {
    pub current_dir: String,
    pub history: Vec<String>,
}

impl Shell {
    /// The history as character sequences.
    pub open spec fn history_view(&self) -> Seq<Seq<char>> {
        self.history.deep_view()
    }

    /// A fresh session in the given directory, with no history.
    pub fn new(current_dir: String) -> (r: Shell)
        ensures
            r.current_dir@ == current_dir@,
            r.history_view() == Seq::<Seq<char>>::empty(),
    {
        let r = Shell { current_dir, history: Vec::new() };
        proof {
            assert(r.history.deep_view() =~= Seq::<Seq<char>>::empty());
        }
        r
    }

    /// Replaces the session's working directory.
    pub fn set_current_dir(&mut self, dir: String)
        ensures
            final(self).current_dir@ == dir@,
            final(self).history_view() == old(self).history_view(),
    {
        self.current_dir = dir;
    }

    /// Splits one raw input line into argument tokens: double quotes
    /// toggle literal mode (and are dropped), whitespace outside quotes
    /// separates tokens.
    pub fn parse_args(&self, input: &str) -> (r: Vec<String>)
        ensures
            r.deep_view() == tokenize(input@),
    {
        let cs = str_chars(input);
        let n = cs.len();
        let mut out: Vec<String> = Vec::new();
        let mut cur: Vec<char> = Vec::new();
        let mut in_quotes: bool = false;
        proof {
            assert(input@.subrange(0, n as int) =~= input@);
            assert(out.deep_view() =~= Seq::<Seq<char>>::empty());
        }
        let mut i: usize = 0;
        while i < n
            invariant
                n == cs@.len(),
                cs@ == input@,
                i <= n,
                tokenize(input@) == tokenize_from(
                    input@.subrange(i as int, n as int),
                    in_quotes,
                    cur@,
                    out.deep_view(),
                ),
            decreases n - i,
        {
            let ghost rest = input@.subrange(i as int, n as int);
            proof {
                assert(rest[0] == input@[i as int]);
                assert(rest.drop_first() =~= input@.subrange(i + 1 as int, n as int));
            }
            let c = cs[i];
            if c == '"' {
                in_quotes = !in_quotes;
            } else if space_char(c) && !in_quotes {
                if cur.len() > 0 {
                    let tok = string_from_chars(&cur);
                    let ghost out0 = out.deep_view();
                    out.push(tok);
                    proof {
                        assert(out.deep_view() =~= out0.push(cur@));
                    }
                    cur = Vec::new();
                }
            } else {
                cur.push(c);
            }
            i = i + 1;
        }
        proof {
            assert(input@.subrange(n as int, n as int) =~= Seq::<char>::empty());
        }
        if cur.len() > 0 {
            let tok = string_from_chars(&cur);
            let ghost out0 = out.deep_view();
            out.push(tok);
            proof {
                assert(out.deep_view() =~= out0.push(cur@));
            }
        }
        out
    }

    /// Cuts the line at the first `#`, splits the rest on `;`, trims each
    /// fragment and drops the empty ones.
    pub fn transform_input(&self, input: &str) -> (r: Vec<String>)
        ensures
            r.deep_view() == split_statements(input@),
    {
        let cs = str_chars(input);
        let n = cs.len();
        // take the text before any comment marker
        let mut head: Vec<char> = Vec::new();
        proof {
            assert(input@.subrange(0, n as int) =~= input@);
        }
        let mut i: usize = 0;
        while i < n && cs[i] != '#'
            invariant
                n == cs@.len(),
                cs@ == input@,
                i <= n,
                head@.len() == i,
                before_comment(input@) == head@ + before_comment(
                    input@.subrange(i as int, n as int),
                ),
            decreases n - i,
        {
            let ghost rest = input@.subrange(i as int, n as int);
            proof {
                assert(rest[0] == input@[i as int]);
                assert(rest.drop_first() =~= input@.subrange(i + 1 as int, n as int));
            }
            head.push(cs[i]);
            proof {
                assert(head@ + before_comment(input@.subrange(i + 1 as int, n as int)) =~= head@.drop_last()
                    + (seq![input@[i as int]] + before_comment(
                    input@.subrange(i + 1 as int, n as int),
                )));
            }
            i = i + 1;
        }
        proof {
            let rest = input@.subrange(i as int, n as int);
            if i < n {
                assert(rest[0] == input@[i as int]);
                assert(before_comment(rest) =~= Seq::<char>::empty());
            } else {
                assert(rest =~= Seq::<char>::empty());
            }
            assert(head@ + before_comment(rest) =~= head@);
            assert(before_comment(input@) == head@);
        }
        // split the comment-free text on `;`
        let m = head.len();
        let mut out: Vec<String> = Vec::new();
        let mut cur: Vec<char> = Vec::new();
        proof {
            assert(head@.subrange(0, m as int) =~= head@);
            assert(out.deep_view() =~= Seq::<Seq<char>>::empty());
            assert(Seq::<Seq<char>>::empty() + emit_statement(Seq::<char>::empty())
                =~= emit_statement(Seq::<char>::empty()));
        }
        let mut j: usize = 0;
        while j < m
            invariant
                m == head@.len(),
                j <= m,
                split_statements(input@) == split_from(
                    head@.subrange(j as int, m as int),
                    cur@,
                    out.deep_view(),
                ),
            decreases m - j,
        {
            let ghost rest = head@.subrange(j as int, m as int);
            proof {
                assert(rest[0] == head@[j as int]);
                assert(rest.drop_first() =~= head@.subrange(j + 1 as int, m as int));
            }
            let c = head[j];
            if c == ';' {
                let t = trim_chars(&cur);
                let ghost out0 = out.deep_view();
                if t.len() > 0 {
                    let stmt = string_from_chars(&t);
                    out.push(stmt);
                    proof {
                        assert(out.deep_view() =~= out0.push(t@));
                        assert(out0 + emit_statement(cur@) =~= out0.push(t@));
                    }
                } else {
                    proof {
                        assert(out0 + emit_statement(cur@) =~= out0);
                    }
                }
                cur = Vec::new();
            } else {
                cur.push(c);
            }
            j = j + 1;
        }
        proof {
            assert(head@.subrange(m as int, m as int) =~= Seq::<char>::empty());
        }
        let t = trim_chars(&cur);
        let ghost out0 = out.deep_view();
        if t.len() > 0 {
            let stmt = string_from_chars(&t);
            out.push(stmt);
            proof {
                assert(out.deep_view() =~= out0.push(t@));
                assert(out0 + emit_statement(cur@) =~= out0.push(t@));
            }
        } else {
            proof {
                assert(out0 + emit_statement(cur@) =~= out0);
            }
        }
        out
    }

    /// Splits the line into statements and, when it yields at least one,
    /// appends the raw line to the history.
    pub fn note_input(&mut self, line: &str) -> (statements: Vec<String>)
        ensures
            statements.deep_view() == split_statements(line@),
            final(self).current_dir == old(self).current_dir,
            final(self).history_view() == if split_statements(line@).len() == 0 {
                old(self).history_view()
            } else {
                old(self).history_view().push(line@)
            },
    {
        let statements = self.transform_input(line);
        if statements.len() > 0 {
            let ghost h0 = self.history.deep_view();
            let owned = str_chars(line);
            let owned_line = string_from_chars(&owned);
            self.history.push(owned_line);
            proof {
                assert(self.history.deep_view() =~= h0.push(line@));
            }
        }
        statements
    }

    /// Splits a statement's tokens on pipe operators.  Any pipe token
    /// makes the statement a pipeline; pipes with no tokens before them
    /// yield no stage.
    pub fn try_parse_pipeline(&self, command: &str, args: &Vec<String>) -> (r: Option<
        Vec<Invocation>,
    >)
        ensures
            ({
                let toks = seq![command@] + args.deep_view();
                match r {
                    Option::Some(stages) => has_pipe(toks) && stages_match(
                        stages@,
                        split_pipeline(toks),
                    ),
                    Option::None => !has_pipe(toks),
                }
            }),
    {
        let all = gather_tokens(command, args);
        let ghost dv = all.deep_view();
        let n = all.len();
        let mut found: bool = false;
        let mut i: usize = 0;
        while i < n && !found
            invariant
                n == all@.len(),
                dv == all.deep_view(),
                dv.len() == n,
                i <= n,
                found ==> has_pipe(dv),
                !found ==> forall|j: int| 0 <= j < i ==> dv[j] != pipe_tok(),
            decreases n - i + (if found { 0int } else { 1int }),
        {
            if crate::strutil::str_eq(all[i].as_str(), "|") {
                found = true;
                proof {
                    assert(dv[i as int] == pipe_tok());
                }
            } else {
                i = i + 1;
            }
        }
        if !found {
            return None;
        }
        let mut stages: Vec<Invocation> = Vec::new();
        let mut cur: Vec<String> = Vec::new();
        let ghost mut gacc: Seq<Seq<Seq<char>>> = Seq::empty();
        proof {
            assert(dv.subrange(0, n as int) =~= dv);
            assert(cur.deep_view() =~= Seq::<Seq<char>>::empty());
        }
        let mut k: usize = 0;
        while k < n
            invariant
                n == all@.len(),
                dv == all.deep_view(),
                dv.len() == n,
                k <= n,
                split_pipeline(dv) == split_groups_from(
                    dv.subrange(k as int, n as int),
                    cur.deep_view(),
                    gacc,
                ),
                stages_match(stages@, gacc),
            decreases n - k,
        {
            let ghost rest = dv.subrange(k as int, n as int);
            proof {
                assert(rest[0] == dv[k as int]);
                assert(rest.drop_first() =~= dv.subrange(k + 1 as int, n as int));
            }
            if crate::strutil::str_eq(all[k].as_str(), "|") {
                if cur.len() > 0 {
                    let ghost cdv = cur.deep_view();
                    let ghost stages0 = stages@;
                    let inv = Invocation::from_tokens(cur);
                    stages.push(inv);
                    proof {
                        gacc = gacc + seq![cdv];
                        assert(gacc.drop_last() =~= gacc.subrange(0, gacc.len() - 1));
                        assert forall|j: int|
                            0 <= j < stages@.len() implies (#[trigger] stages@[j]).matches_group(
                            gacc[j],
                        ) by {
                            if j < stages0.len() {
                                assert(stages@[j] == stages0[j]);
                            } else {
                                assert(stages@[j] == inv);
                            }
                        }
                    }
                    cur = Vec::new();
                    proof {
                        assert(cur.deep_view() =~= Seq::<Seq<char>>::empty());
                        assert(gacc.drop_last() + emit_group(cdv) =~= gacc);
                    }
                } else {
                    proof {
                        assert(cur.deep_view() =~= Seq::<Seq<char>>::empty());
                        assert(gacc + emit_group(cur.deep_view()) =~= gacc);
                    }
                }
            } else {
                let ghost cdv = cur.deep_view();
                cur.push(all[k].clone());
                proof {
                    assert(cur.deep_view() =~= cdv.push(dv[k as int]));
                }
            }
            k = k + 1;
        }
        proof {
            assert(dv.subrange(n as int, n as int) =~= Seq::<Seq<char>>::empty());
        }
        if cur.len() > 0 {
            let ghost cdv = cur.deep_view();
            let ghost stages0 = stages@;
            let inv = Invocation::from_tokens(cur);
            stages.push(inv);
            proof {
                gacc = gacc + seq![cdv];
                assert forall|j: int|
                    0 <= j < stages@.len() implies (#[trigger] stages@[j]).matches_group(
                    gacc[j],
                ) by {
                    if j < stages0.len() {
                        assert(stages@[j] == stages0[j]);
                    } else {
                        assert(stages@[j] == inv);
                    }
                }
                assert(gacc.subrange(0, gacc.len() - 1) + emit_group(cdv) =~= gacc);
                assert(gacc.drop_last() =~= gacc.subrange(0, gacc.len() - 1));
            }
        } else {
            proof {
                assert(gacc + emit_group(cur.deep_view()) =~= gacc);
            }
        }
        Some(stages)
    }

    /// Scans a statement for output redirection: the first `>` after the
    /// command name cuts the argument list, and the following token names
    /// the target file.  A `>` with no token after it is an error.
    pub fn try_parse_redirects(&self, command: &str, args: &Vec<String>) -> (r: Result<
        Option<(Invocation, String)>,
        ExecError,
    >)
        ensures
            ({
                let toks = seq![command@] + args.deep_view();
                let p = first_redirect(toks);
                match r {
                    Result::Ok(Option::Some((inv, target))) => p + 1 < toks.len() && inv.name@
                        == toks[0] && inv.args.deep_view() == toks.subrange(1, p) && target@
                        == toks[p + 1],
                    Result::Ok(Option::None) => p == toks.len(),
                    Result::Err(e) => p == toks.len() - 1 && p >= 1 && (e matches
                    ExecError::MissingRedirectTarget),
                }
            }),
    {
        let all = gather_tokens(command, args);
        let ghost dv = all.deep_view();
        let n = all.len();
        let mut i: usize = 1;
        while i < n && !crate::strutil::str_eq(all[i].as_str(), ">")
            invariant
                n == all@.len(),
                dv == all.deep_view(),
                dv.len() == n,
                1 <= i <= n,
                first_redirect(dv) == first_redirect_from(dv, i as int),
            decreases n - i,
        {
            i = i + 1;
        }
        if i >= n {
            proof {
                assert(first_redirect(dv) == n as int);
            }
            return Ok(None);
        }
        proof {
            assert(dv[i as int] == redirect_tok());
            assert(first_redirect(dv) == i as int);
        }
        if i + 1 >= n {
            return Err(ExecError::MissingRedirectTarget);
        }
        let name = all[0].clone();
        let target = all[i + 1].clone();
        let mut cmd_args: Vec<String> = Vec::new();
        proof {
            assert(cmd_args.deep_view() =~= dv.subrange(1, 1));
        }
        let mut k: usize = 1;
        while k < i
            invariant
                n == all@.len(),
                dv == all.deep_view(),
                dv.len() == n,
                1 <= k <= i < n,
                cmd_args.deep_view() == dv.subrange(1, k as int),
            decreases i - k,
        {
            let ghost before = cmd_args.deep_view();
            cmd_args.push(all[k].clone());
            proof {
                assert(cmd_args.deep_view() =~= before.push(dv[k as int]));
                assert(dv.subrange(1, k + 1 as int) =~= dv.subrange(1, k as int).push(
                    dv[k as int],
                ));
            }
            k = k + 1;
        }
        Ok(Some((Invocation { name, args: cmd_args }, target)))
    }

    /// Decides what one statement asks for: nothing, exiting, a pipeline,
    /// a redirected command, or a plain command.  Arguments (but not the
    /// command name) have a leading tilde expanded to `home` first.
    pub fn plan_statement(&self, statement: &str, home: &str) -> (r: Result<
        StatementPlan,
        ExecError,
    >)
        ensures
            ({
                let toks = tokenize(statement@);
                let etoks = expand_all(toks, home@);
                match r {
                    Result::Ok(StatementPlan::Empty) => toks.len() == 0,
                    Result::Ok(StatementPlan::Exit) => toks.len() > 0 && toks[0] == "exit"@,
                    Result::Ok(StatementPlan::Pipeline(stages)) => toks.len() > 0 && toks[0]
                        != "exit"@ && has_pipe(etoks) && stages_match(
                        stages@,
                        split_pipeline(etoks),
                    ),
                    Result::Ok(StatementPlan::Redirect(inv, target)) => toks.len() > 0 && toks[0]
                        != "exit"@ && !has_pipe(etoks) && ({
                        let p = first_redirect(etoks);
                        &&& p + 1 < etoks.len()
                        &&& inv.name@ == etoks[0]
                        &&& inv.args.deep_view() == etoks.subrange(1, p)
                        &&& target@ == etoks[p + 1]
                    }),
                    Result::Ok(StatementPlan::Command(inv)) => toks.len() > 0 && toks[0] != "exit"@
                        && !has_pipe(etoks) && first_redirect(etoks) == etoks.len()
                        && inv.matches_group(etoks),
                    Result::Err(e) => toks.len() > 0 && toks[0] != "exit"@ && !has_pipe(etoks)
                        && first_redirect(etoks) == etoks.len() - 1 && (e matches
                    ExecError::MissingRedirectTarget),
                }
            }),
    {
        let ghost toks = tokenize(statement@);
        let tokens = self.parse_args(statement);
        if tokens.len() == 0 {
            return Ok(StatementPlan::Empty);
        }
        if crate::strutil::str_eq(tokens[0].as_str(), "exit") {
            proof {
                assert(toks[0] == "exit"@);
            }
            return Ok(StatementPlan::Exit);
        }
        let ghost etoks = expand_all(toks, home@);
        let name = tokens[0].clone();
        let mut eargs: Vec<String> = Vec::new();
        let mut k: usize = 1;
        while k < tokens.len()
            invariant
                toks == tokens.deep_view(),
                toks.len() == tokens@.len(),
                1 <= k <= toks.len(),
                eargs.deep_view().len() == k - 1,
                forall|j: int|
                    0 <= j < k - 1 ==> #[trigger] eargs.deep_view()[j] == expand_tilde_view(
                        toks[j + 1],
                        home@,
                    ),
            decreases toks.len() - k,
        {
            let ghost before = eargs.deep_view();
            let e = self.expand_tilde(tokens[k].as_str(), home);
            eargs.push(e);
            proof {
                assert(eargs.deep_view() =~= before.push(e@));
                assert(e@ == expand_tilde_view(toks[k as int], home@));
            }
            k = k + 1;
        }
        proof {
            assert(eargs.deep_view() =~= toks.drop_first().map_values(
                |a: Seq<char>| expand_tilde_view(a, home@),
            ));
            assert(etoks =~= seq![toks[0]] + eargs.deep_view());
            assert(name@ == etoks[0]);
        }
        if let Some(stages) = self.try_parse_pipeline(name.as_str(), &eargs) {
            proof {
                assert(seq![name@] + eargs.deep_view() =~= etoks);
            }
            return Ok(StatementPlan::Pipeline(stages));
        }
        proof {
            assert(seq![name@] + eargs.deep_view() =~= etoks);
        }
        match self.try_parse_redirects(name.as_str(), &eargs) {
            Ok(Some((inv, target))) => Ok(StatementPlan::Redirect(inv, target)),
            Err(e) => {
                proof {
                    assert(first_redirect(etoks) == etoks.len() - 1);
                }
                Err(ExecError::MissingRedirectTarget)
            },
            Ok(None) => {
                let inv = Invocation { name, args: eargs };
                proof {
                    assert(inv.args.deep_view() =~= etoks.drop_first());
                }
                Ok(StatementPlan::Command(inv))
            },
        }
    }

    /// Expands a leading tilde to the home directory.
    pub fn expand_tilde(&self, path: &str, home: &str) -> (r: String)
        ensures
            r@ == expand_tilde_view(path@, home@),
    {
        let pv = str_chars(path);
        if pv.len() > 0 && pv[0] == '~' {
            let mut out = str_chars(home);
            let mut k: usize = 1;
            while k < pv.len()
                invariant
                    1 <= k <= pv@.len(),
                    out@ == home@ + pv@.subrange(1, k as int),
                decreases pv@.len() - k,
            {
                out.push(pv[k]);
                proof {
                    assert(pv@.subrange(1, k + 1 as int) =~= pv@.subrange(1, k as int).push(
                        pv@[k as int],
                    ));
                    assert(out@ =~= home@ + pv@.subrange(1, k + 1 as int));
                }
                k = k + 1;
            }
            proof {
                assert(pv@.subrange(1, pv@.len() as int) =~= pv@.drop_first());
            }
            string_from_chars(&out)
        } else {
            let out = str_chars(path);
            string_from_chars(&out)
        }
    }
}

/// Trims whitespace from both ends of a character vector.
pub fn trim_chars(v: &Vec<char>) -> (r: Vec<char>)
    ensures
        r@ == trim_sp(v@),
{
    let n = v.len();
    let mut a: usize = 0;
    proof {
        assert(v@.subrange(0, n as int) =~= v@);
    }
    while a < n && space_char_at(v, a)
        invariant
            n == v@.len(),
            a <= n,
            trim_start_sp(v@) == trim_start_sp(v@.subrange(a as int, n as int)),
        decreases n - a,
    {
        proof {
            let rest = v@.subrange(a as int, n as int);
            assert(rest[0] == v@[a as int]);
            assert(rest.drop_first() =~= v@.subrange(a + 1 as int, n as int));
        }
        a = a + 1;
    }
    let ghost t = v@.subrange(a as int, n as int);
    proof {
        if a < n {
            assert(t[0] == v@[a as int]);
            assert(trim_start_sp(t) == t);
        } else {
            assert(t =~= Seq::<char>::empty());
            assert(trim_start_sp(t) == t);
        }
    }
    let mut b: usize = n;
    while b > a && space_char_at(v, b - 1)
        invariant
            n == v@.len(),
            a <= b <= n,
            t == v@.subrange(a as int, n as int),
            trim_end_sp(t) == trim_end_sp(v@.subrange(a as int, b as int)),
        decreases b,
    {
        proof {
            let piece = v@.subrange(a as int, b as int);
            assert(piece.last() == v@[b - 1 as int]);
            assert(piece.drop_last() =~= v@.subrange(a as int, b - 1 as int));
        }
        b = b - 1;
    }
    proof {
        let piece = v@.subrange(a as int, b as int);
        if b > a {
            assert(piece.last() == v@[b - 1 as int]);
            assert(trim_end_sp(piece) == piece);
        } else {
            assert(piece =~= Seq::<char>::empty());
            assert(trim_end_sp(piece) == piece);
        }
    }
    let mut r: Vec<char> = Vec::new();
    let mut k: usize = a;
    while k < b
        invariant
            a <= k <= b <= n,
            n == v@.len(),
            r@ == v@.subrange(a as int, k as int),
        decreases b - k,
    {
        r.push(v[k]);
        proof {
            assert(v@.subrange(a as int, k + 1 as int) =~= v@.subrange(a as int, k as int).push(
                v@[k as int],
            ));
        }
        k = k + 1;
    }
    r
}

/// The command name followed by the arguments, as one token list.
fn gather_tokens(command: &str, args: &Vec<String>) -> (r: Vec<String>)
    ensures
        r.deep_view() == seq![command@] + args.deep_view(),
{
    let mut all: Vec<String> = Vec::new();
    let cv = str_chars(command);
    all.push(string_from_chars(&cv));
    proof {
        assert(all.deep_view() =~= seq![command@]);
    }
    let mut i: usize = 0;
    while i < args.len()
        invariant
            i <= args@.len(),
            args.deep_view().len() == args@.len(),
            all.deep_view() == seq![command@] + args.deep_view().subrange(0, i as int),
        decreases args@.len() - i,
    {
        let ghost before = all.deep_view();
        all.push(args[i].clone());
        proof {
            assert(all.deep_view() =~= before.push(args.deep_view()[i as int]));
            assert(args.deep_view().subrange(0, i + 1 as int) =~= args.deep_view().subrange(
                0,
                i as int,
            ).push(args.deep_view()[i as int]));
            assert((seq![command@] + args.deep_view().subrange(0, i as int)).push(
                args.deep_view()[i as int],
            ) =~= seq![command@] + args.deep_view().subrange(0, i + 1 as int));
        }
        i = i + 1;
    }
    proof {
        assert(args.deep_view().subrange(0, args@.len() as int) =~= args.deep_view());
    }
    all
}

/// Whether the character at `i` is whitespace.
fn space_char_at(v: &Vec<char>, i: usize) -> (b: bool)
    requires
        i < v@.len(),
    ensures
        b == is_space(v@[i as int]),
{
    space_char(v[i])
}

} // verus!
