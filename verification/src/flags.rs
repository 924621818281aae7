//! A minimal flag parser: dash arguments contribute single-character flags,
//! everything else is collected as a positional value.

use vstd::prelude::*;

use crate::strutil::{contains_char, insert_char, str_chars, unique_chars};

verus! {

/// Whether an argument is a flag argument (it begins with a dash).
pub open spec fn starts_dash(s: Seq<char>) -> bool {
    s.len() > 0 && s[0] == '-'
}

/// The argument with all leading dashes removed.
pub open spec fn strip_dashes(s: Seq<char>) -> Seq<char>
    decreases s.len(),
{
    if s.len() > 0 && s[0] == '-' {
        strip_dashes(s.drop_first())
    } else {
        s
    }
}

/// The set of flag characters that a list of arguments yields: every
/// character of every dash argument, leading dashes removed.
pub open spec fn simple_flag_set(args: Seq<Seq<char>>) -> Set<char>
    decreases args.len(),
{
    if args.len() == 0 {
        Set::empty()
    } else {
        let rest = simple_flag_set(args.drop_last());
        if starts_dash(args.last()) {
            rest.union(Set::new(|c: char| strip_dashes(args.last()).contains(c)))
        } else {
            rest
        }
    }
}

/// The positional values: the non-dash arguments, in order.
pub open spec fn simple_values(args: Seq<Seq<char>>) -> Seq<Seq<char>>
    decreases args.len(),
{
    if args.len() == 0 {
        Seq::empty()
    } else {
        let rest = simple_values(args.drop_last());
        if starts_dash(args.last()) {
            rest
        } else {
            rest.push(args.last())
        }
    }
}

/// Parsed command-line arguments: which single-character flags were given,
/// and the positional values that were not flags.
pub struct Flags {
    flags: Vec<char>,
    values: Vec<String>,
}

impl Flags {
    /// The set of flags held.
    pub closed spec fn flag_set(&self) -> Set<char> {
        Set::new(|c: char| self.flags@.contains(c))
    }

    /// The positional values held.
    pub closed spec fn values_view(&self) -> Seq<Seq<char>> {
        self.values.deep_view()
    }

    /// Parses `args`: each argument starting with `-` contributes its
    /// characters (after the leading dashes) as flags; the rest are values.
    pub fn new(args: &Vec<String>) -> (r: Flags)
        ensures
            r.flag_set() == simple_flag_set(args.deep_view()),
            r.values_view() == simple_values(args.deep_view()),
    {
        let ghost dv = args.deep_view();
        let mut flags: Vec<char> = Vec::new();
        let mut values: Vec<String> = Vec::new();
        let mut i: usize = 0;
        while i < args.len()
            invariant
                i <= args@.len(),
                dv == args.deep_view(),
                dv.len() == args@.len(),
                unique_chars(flags@),
                forall|c: char| flags@.contains(c) <==> simple_flag_set(
                    dv.subrange(0, i as int),
                ).contains(c),
                values.deep_view() == simple_values(dv.subrange(0, i as int)),
            decreases args@.len() - i,
        {
            let ghost pre = dv.subrange(0, i as int);
            let ghost cur = dv[i as int];
            proof {
                assert(dv.subrange(0, i + 1 as int).drop_last() =~= pre);
                assert(dv.subrange(0, i + 1 as int).last() == cur);
            }
            let cv = str_chars(args[i].as_str());
            proof {
                assert(cur == cv@);
                assert(cv@.subrange(0, cv@.len() as int) =~= cv@);
            }
            if cv.len() > 0 && cv[0] == '-' {
                // skip the leading dashes
                let mut k: usize = 0;
                while k < cv.len() && cv[k] == '-'
                    invariant
                        k <= cv@.len(),
                        strip_dashes(cv@) == strip_dashes(cv@.subrange(k as int, cv@.len() as int)),
                    decreases cv@.len() - k,
                {
                    proof {
                        let tail = cv@.subrange(k as int, cv@.len() as int);
                        assert(tail[0] == cv@[k as int]);
                        assert(tail.drop_first() =~= cv@.subrange(k + 1 as int, cv@.len() as int));
                    }
                    k = k + 1;
                }
                proof {
                    let tail = cv@.subrange(k as int, cv@.len() as int);
                    assert(strip_dashes(tail) == tail);
                }
                let mut j: usize = k;
                while j < cv.len()
                    invariant
                        k <= j <= cv@.len(),
                        strip_dashes(cv@) == cv@.subrange(k as int, cv@.len() as int),
                        unique_chars(flags@),
                        forall|c: char| flags@.contains(c) <==> (simple_flag_set(pre).contains(c)
                            || cv@.subrange(k as int, j as int).contains(c)),
                    decreases cv@.len() - j,
                {
                    let ghost flags0 = flags@;
                    let ghost seen0 = cv@.subrange(k as int, j as int);
                    insert_char(&mut flags, cv[j]);
                    proof {
                        let x = cv@[j as int];
                        assert(cv@.subrange(k as int, j + 1 as int) =~= seen0.push(x));
                        assert forall|c: char|
                            flags@.contains(c) <==> (simple_flag_set(pre).contains(c)
                                || seen0.push(x).contains(c)) by {
                            crate::strutil::lemma_contains_push(flags0, x, c);
                            crate::strutil::lemma_contains_push(seen0, x, c);
                        }
                    }
                    j = j + 1;
                }
                proof {
                    assert(starts_dash(cur));
                    assert(forall|c: char|
                        simple_flag_set(dv.subrange(0, i + 1 as int)).contains(c) <==> (
                        simple_flag_set(pre).contains(c) || strip_dashes(cur).contains(c)));
                    assert(simple_values(dv.subrange(0, i + 1 as int)) == simple_values(pre));
                }
            } else {
                values.push(args[i].clone());
                proof {
                    assert(!starts_dash(cur));
                    assert(values.deep_view() =~= simple_values(pre).push(cur));
                }
            }
            i = i + 1;
        }
        proof {
            assert(dv.subrange(0, dv.len() as int) =~= dv);
        }
        let r = Flags { flags, values };
        proof {
            assert(r.flag_set() =~= simple_flag_set(dv));
        }
        r
    }

    /// Whether the flag `flag` was given.
    pub fn has_flag(&self, flag: char) -> (r: bool)
        ensures
            r == self.flag_set().contains(flag),
    {
        contains_char(&self.flags, flag)
    }

    /// The positional values, in the order they were given.
    pub fn values(&self) -> (r: &[String])
        ensures
            r.deep_view() == self.values_view(),
    {
        self.values.as_slice()
    }
}

} // verus!
