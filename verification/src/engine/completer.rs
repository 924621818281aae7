//! Completion of command names: the pure matching logic behind the line
//! editor's tab completion.  Matching is case-insensitive; a command is
//! offered when the lowercased word starts it or occurs inside it.

use vstd::prelude::*;
use vstd::string::*;

use crate::strutil::str_chars;

verus! {

/// What `str::to_lowercase` returns for the given characters.
pub uninterp spec fn lower_of(s: Seq<char>) -> Seq<char>;

/// Relies on str::to_lowercase: the result depends on the characters
/// alone.
#[verifier::external_body]
pub(crate) fn lowercase(s: &str) -> (r: String)
    ensures
        r@ == lower_of(s@),
{
    s.to_lowercase()
}

/// Whether `needle` is a prefix of `hay`.
pub open spec fn is_prefix_of(needle: Seq<char>, hay: Seq<char>) -> bool {
    needle.len() <= hay.len() && hay.subrange(0, needle.len() as int) == needle
}

/// Whether `needle` occurs contiguously inside `hay`.
pub open spec fn contains_sub(hay: Seq<char>, needle: Seq<char>) -> bool {
    exists|i: int|
        0 <= i <= hay.len() - needle.len() && #[trigger] hay.subrange(i, i + needle.len())
            == needle
}

/// Whether the characters of `hay` starting at `i` are `needle`.
fn matches_at(hay: &Vec<char>, needle: &Vec<char>, i: usize) -> (b: bool)
    requires
        i + needle@.len() <= hay@.len(),
    ensures
        b == (hay@.subrange(i as int, i + needle@.len()) == needle@),
{
    let n = needle.len();
    let m = hay.len();
    let mut k: usize = 0;
    while k < n
        invariant
            n == needle@.len(),
            m == hay@.len(),
            i + n <= m,
            k <= n,
            forall|j: int| 0 <= j < k ==> hay@[i + j] == needle@[j],
        decreases n - k,
    {
        if hay[i + k] != needle[k] {
            proof {
                assert(hay@.subrange(i as int, i + needle@.len())[k as int] == hay@[i + k]);
            }
            return false;
        }
        k = k + 1;
    }
    proof {
        assert(hay@.subrange(i as int, i + needle@.len()) =~= needle@);
    }
    true
}

/// Whether `needle` is a prefix of `hay`.
pub fn starts_with_chars(hay: &Vec<char>, needle: &Vec<char>) -> (b: bool)
    ensures
        b == is_prefix_of(needle@, hay@),
{
    if needle.len() > hay.len() {
        return false;
    }
    matches_at(hay, needle, 0)
}

/// Whether `needle` occurs contiguously inside `hay`.
pub fn contains_chars(hay: &Vec<char>, needle: &Vec<char>) -> (b: bool)
    ensures
        b == contains_sub(hay@, needle@),
{
    let n = needle.len();
    let m = hay.len();
    if n > m {
        return false;
    }
    let mut i: usize = 0;
    while i <= m - n
        invariant
            n == needle@.len(),
            m == hay@.len(),
            n <= m,
            i <= m - n + 1,
            forall|j: int|
                0 <= j < i ==> #[trigger] hay@.subrange(j, j + needle@.len()) != needle@,
        decreases m - n - i + 1,
    {
        if matches_at(hay, needle, i) {
            return true;
        }
        proof {
            if n == 0 {
                assert(hay@.subrange(i as int, i as int) =~= needle@);
            }
        }
        i = i + 1;
    }
    proof {
        if contains_sub(hay@, needle@) {
            let j = choose|j: int|
                0 <= j <= hay@.len() - needle@.len() && #[trigger] hay@.subrange(
                    j,
                    j + needle@.len(),
                ) == needle@;
            assert(false);
        }
    }
    false
}

/// Whether the command is offered for the (not yet lowercased) word.
pub open spec fn matches_word(cmd: Seq<char>, word: Seq<char>) -> bool {
    is_prefix_of(lower_of(word), lower_of(cmd)) || contains_sub(lower_of(cmd), lower_of(word))
}

/// The commands of `cmds`, in order, that match `word`.
pub open spec fn matching_of(cmds: Seq<Seq<char>>, word: Seq<char>) -> Seq<Seq<char>>
    decreases cmds.len(),
{
    if cmds.len() == 0 {
        Seq::empty()
    } else {
        let rest = matching_of(cmds.drop_last(), word);
        if matches_word(cmds.last(), word) {
            rest.push(cmds.last())
        } else {
            rest
        }
    }
}

/// Completion over a fixed command list.
pub struct CommandCompleter {
    commands: Vec<String>,
}

impl CommandCompleter {
    /// The completable commands, in order.
    pub closed spec fn commands_view(&self) -> Seq<Seq<char>> {
        self.commands.deep_view()
    }

    /// A completer over the given command names.
    pub fn new(commands: Vec<&'static str>) -> (r: CommandCompleter)
        ensures
            r.commands_view() == commands.deep_view(),
    {
        let ghost dv = commands.deep_view();
        let mut owned: Vec<String> = Vec::new();
        let mut i: usize = 0;
        while i < commands.len()
            invariant
                dv == commands.deep_view(),
                dv.len() == commands@.len(),
                i <= dv.len(),
                owned.deep_view() == dv.subrange(0, i as int),
            decreases dv.len() - i,
        {
            let ghost before = owned.deep_view();
            owned.push(String::from_str(commands[i]));
            proof {
                assert(owned.deep_view() =~= before.push(dv[i as int]));
                assert(dv.subrange(0, i + 1 as int) =~= dv.subrange(0, i as int).push(
                    dv[i as int],
                ));
            }
            i = i + 1;
        }
        proof {
            assert(dv.subrange(0, dv.len() as int) =~= dv);
        }
        CommandCompleter { commands: owned }
    }

    /// The commands matching `word`, case-insensitively, in order: those
    /// the lowercased word starts or occurs in.
    pub fn matching_commands(&self, word: &str) -> (r: Vec<String>)
        ensures
            r.deep_view() == matching_of(self.commands_view(), word@),
    {
        let wl_s = lowercase(word);
        let wl = str_chars(wl_s.as_str());
        let ghost dv = self.commands.deep_view();
        let mut out: Vec<String> = Vec::new();
        proof {
            assert(dv.subrange(0, 0) =~= Seq::<Seq<char>>::empty());
        }
        let mut i: usize = 0;
        while i < self.commands.len()
            invariant
                dv == self.commands.deep_view(),
                dv.len() == self.commands@.len(),
                i <= dv.len(),
                wl@ == lower_of(word@),
                out.deep_view() == matching_of(dv.subrange(0, i as int), word@),
            decreases dv.len() - i,
        {
            let cl_s = lowercase(self.commands[i].as_str());
            let cl = str_chars(cl_s.as_str());
            proof {
                assert(cl@ == lower_of(dv[i as int]));
                let pre = dv.subrange(0, i + 1 as int);
                assert(pre.drop_last() =~= dv.subrange(0, i as int));
                assert(pre.last() == dv[i as int]);
            }
            if starts_with_chars(&cl, &wl) || contains_chars(&cl, &wl) {
                let ghost before = out.deep_view();
                out.push(self.commands[i].clone());
                proof {
                    assert(out.deep_view() =~= before.push(dv[i as int]));
                }
            }
            i = i + 1;
        }
        proof {
            assert(dv.subrange(0, dv.len() as int) =~= dv);
        }
        out
    }
}

} // verus!
