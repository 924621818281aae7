//! The flag parser used by builtin dispatch: single-dash arguments carry
//! flag characters, and designated "value flags" consume the following
//! argument as their value.  Duplicate flags, an empty dash argument and a
//! value flag without a following argument are reported as errors.

use vstd::prelude::*;
use vstd::string::*;

use crate::strutil::{contains_char, str_chars, string_from_chars, split_whitespace_strs, split_ws};

verus! {

/// An error found while parsing flag arguments.
#[derive(Debug)]
pub enum FlagError {
    /// A dash with nothing after it.
    InvalidFormat(String),
    /// A value flag with no following argument.
    MissingValue(char),
    /// A flag that was already given.
    DuplicateFlag(char),
}

/// Spec-level counterpart of `FlagError`.
#[derive(Debug)]
pub enum FlagFault {
    EmptyFlag,
    MissingValue(char),
    DuplicateFlag(char),
}

/// Whether the executable error reports the spec-level fault.
pub open spec fn err_matches(e: FlagError, f: FlagFault) -> bool {
    match (e, f) {
        (FlagError::InvalidFormat(m), FlagFault::EmptyFlag) => m@ == "Empty flag"@,
        (FlagError::MissingValue(a), FlagFault::MissingValue(b)) => a == b,
        (FlagError::DuplicateFlag(a), FlagFault::DuplicateFlag(b)) => a == b,
        _ => false,
    }
}

/// The message printed for each spec-level fault.
pub open spec fn fault_message(f: FlagFault) -> Seq<char> {
    match f {
        FlagFault::EmptyFlag => "Invalid flag format: "@ + "Empty flag"@,
        FlagFault::MissingValue(c) => "Missing value for flag: "@ + seq![c],
        FlagFault::DuplicateFlag(c) => "Duplicate flag: "@ + seq![c],
    }
}

impl FlagError {
    /// The message printed for this error.
    pub open spec fn message_view(&self) -> Seq<char> {
        match self {
            FlagError::InvalidFormat(m) => "Invalid flag format: "@ + m@,
            FlagError::MissingValue(c) => "Missing value for flag: "@ + seq![*c],
            FlagError::DuplicateFlag(c) => "Duplicate flag: "@ + seq![*c],
        }
    }

    /// Renders the message.
    pub fn message(&self) -> (r: String)
        ensures
            r@ == self.message_view(),
    {
        match self {
            FlagError::InvalidFormat(m) => {
                let mut v = crate::strutil::str_chars("Invalid flag format: ");
                let mut mv = crate::strutil::str_chars(m.as_str());
                v.append(&mut mv);
                string_from_chars(&v)
            },
            FlagError::MissingValue(c) => {
                let mut v = crate::strutil::str_chars("Missing value for flag: ");
                let ghost v0 = v@;
                v.push(*c);
                proof {
                    assert(v@ =~= v0 + seq![*c]);
                }
                string_from_chars(&v)
            },
            FlagError::DuplicateFlag(c) => {
                let mut v = crate::strutil::str_chars("Duplicate flag: ");
                let ghost v0 = v@;
                v.push(*c);
                proof {
                    assert(v@ =~= v0 + seq![*c]);
                }
                string_from_chars(&v)
            },
        }
    }
}

/// The model of a parsed flag list: the flag characters given, and the
/// value each value flag was given.
pub struct FlagState {
    pub flags: Set<char>,
    pub values: Map<char, Seq<char>>,
}

/// The set with exactly the characters of `vf`.
pub open spec fn vf_set(vf: Seq<char>) -> Set<char> {
    Set::new(|c: char| vf.contains(c))
}

/// Parsing, mid-argument: `i` is the index of the argument whose remaining
/// characters are `chars`; a value flag consumes argument `i + 1` and
/// scanning continues after it.
pub open spec fn parse_step(
    args: Seq<Seq<char>>,
    vf: Set<char>,
    i: int,
    chars: Seq<char>,
    st: FlagState,
) -> Result<FlagState, FlagFault>
    decreases args.len() - i, 0int, chars.len(),
{
    if i < 0 || i >= args.len() {
        Err(FlagFault::EmptyFlag)  // unreachable for the entry points below
    } else if chars.len() > 0 {
        let c = chars[0];
        if st.flags.contains(c) {
            Err(FlagFault::DuplicateFlag(c))
        } else if vf.contains(c) {
            if i + 1 >= args.len() {
                Err(FlagFault::MissingValue(c))
            } else {
                parse_step(
                    args,
                    vf,
                    i + 1,
                    chars.drop_first(),
                    FlagState {
                        flags: st.flags.insert(c),
                        values: st.values.insert(c, args[i + 1]),
                    },
                )
            }
        } else {
            parse_step(
                args,
                vf,
                i,
                chars.drop_first(),
                FlagState { flags: st.flags.insert(c), values: st.values },
            )
        }
    } else {
        parse_from(args, vf, i + 1, st)
    }
}

/// Parsing from argument `i` on: a dash argument is scanned character by
/// character, anything else is skipped.
pub open spec fn parse_from(args: Seq<Seq<char>>, vf: Set<char>, i: int, st: FlagState) -> Result<
    FlagState,
    FlagFault,
>
    decreases args.len() - i, 1int, 0int,
{
    if i < 0 {
        Err(FlagFault::EmptyFlag)  // unreachable for the entry points below
    } else if i >= args.len() {
        Ok(st)
    } else {
        let a = args[i];
        if a.len() > 0 && a[0] == '-' {
            if a.len() == 1 {
                Err(FlagFault::EmptyFlag)
            } else {
                parse_step(args, vf, i, a.drop_first(), st)
            }
        } else {
            parse_from(args, vf, i + 1, st)
        }
    }
}

/// The parse of a whole argument list.
pub open spec fn parse_flags(args: Seq<Seq<char>>, vf: Set<char>) -> Result<
    FlagState,
    FlagFault,
> {
    parse_from(args, vf, 0, FlagState { flags: Set::empty(), values: Map::empty() })
}

/// The map pairing `keys` with `vals` position by position.
pub open spec fn map_of(keys: Seq<char>, vals: Seq<Seq<char>>) -> Map<char, Seq<char>> {
    Map::new(|c: char| keys.contains(c), |c: char| vals[keys.index_of(c)])
}

/// The state represented by the three vectors of a `Flags` value.
pub open spec fn state_of(flags: Seq<char>, keys: Seq<char>, vals: Seq<Seq<char>>) -> FlagState {
    FlagState { flags: Set::new(|c: char| flags.contains(c)), values: map_of(keys, vals) }
}

/// With unique keys, `index_of` is the one index holding the key.
pub proof fn lemma_index_of_unique(keys: Seq<char>, c: char)
    requires
        keys.no_duplicates(),
        keys.contains(c),
    ensures
        0 <= keys.index_of(c) < keys.len(),
        keys[keys.index_of(c)] == c,
        forall|i: int| 0 <= i < keys.len() && keys[i] == c ==> i == keys.index_of(c),
{
}

/// Adding a fresh key extends the represented map by one entry.
pub proof fn lemma_map_of_push(keys: Seq<char>, vals: Seq<Seq<char>>, c: char, v: Seq<char>)
    requires
        keys.no_duplicates(),
        !keys.contains(c),
        vals.len() == keys.len(),
    ensures
        map_of(keys.push(c), vals.push(v)) == map_of(keys, vals).insert(c, v),
{
    let m1 = map_of(keys.push(c), vals.push(v));
    let m2 = map_of(keys, vals).insert(c, v);
    assert forall|k: char| m1.dom().contains(k) <==> m2.dom().contains(k) by {
        crate::strutil::lemma_contains_push(keys, c, k);
    }
    assert forall|k: char| m1.dom().contains(k) implies m1[k] == m2[k] by {
        crate::strutil::lemma_contains_push(keys, c, k);
        if k == c {
            assert(keys.push(c)[keys.len() as int] == c);
            assert(keys.push(c).contains(c));
            lemma_index_of_unique(keys.push(c), c);
            assert(keys.push(c).no_duplicates());
            assert(keys.push(c).index_of(c) == keys.len() as int);
            assert(vals.push(v)[keys.len() as int] == v);
        } else {
            assert(keys.contains(k));
            lemma_index_of_unique(keys, k);
            let i = keys.index_of(k);
            assert(keys.push(c)[i] == k);
            assert(keys.push(c).no_duplicates());
            lemma_index_of_unique(keys.push(c), k);
            assert(keys.push(c).index_of(k) == i);
            assert(vals.push(v)[i] == vals[i]);
        }
    }
    assert(m1 =~= m2);
}

/// Removing position `i` removes exactly that key from the represented map.
pub proof fn lemma_map_of_remove(keys: Seq<char>, vals: Seq<Seq<char>>, i: int)
    requires
        keys.no_duplicates(),
        vals.len() == keys.len(),
        0 <= i < keys.len(),
    ensures
        map_of(keys.remove(i), vals.remove(i)) == map_of(keys, vals).remove(keys[i]),
{
    let c = keys[i];
    let ks = keys.remove(i);
    let vs = vals.remove(i);
    let m1 = map_of(ks, vs);
    let m2 = map_of(keys, vals).remove(c);
    assert(ks.no_duplicates());
    assert forall|k: char| m1.dom().contains(k) <==> m2.dom().contains(k) by {
        if ks.contains(k) {
            let j = choose|j: int| 0 <= j < ks.len() && ks[j] == k;
            if j < i {
                assert(keys[j] == k);
            } else {
                assert(keys[j + 1] == k);
            }
            assert(keys.contains(k));
            assert(k != c);
        }
        if keys.contains(k) && k != c {
            let j = choose|j: int| 0 <= j < keys.len() && keys[j] == k;
            assert(j != i);
            if j < i {
                assert(ks[j] == k);
            } else {
                assert(ks[j - 1] == k);
            }
            assert(ks.contains(k));
        }
    }
    assert forall|k: char| m1.dom().contains(k) implies m1[k] == m2[k] by {
        assert(ks.contains(k));
        lemma_index_of_unique(ks, k);
        let j = ks.index_of(k);
        if j < i {
            assert(keys[j] == k);
            lemma_index_of_unique(keys, k);
            assert(keys.index_of(k) == j);
            assert(vs[j] == vals[j]);
        } else {
            assert(keys[j + 1] == k);
            lemma_index_of_unique(keys, k);
            assert(keys.index_of(k) == j + 1);
            assert(vs[j] == vals[j + 1]);
        }
    }
    assert(m1 =~= m2);
}

/// Command-line flags with optional per-flag values.
pub struct Flags {
    flags: Vec<char>,
    value_keys: Vec<char>,
    value_vals: Vec<String>,
}

impl Flags {
    /// Internal consistency: no duplicate flags or keys, keys and values
    /// aligned, and every valued flag is also a flag.
    pub closed spec fn wf(&self) -> bool {
        &&& self.flags@.no_duplicates()
        &&& self.value_keys@.no_duplicates()
        &&& self.value_vals@.len() == self.value_keys@.len()
        &&& forall|c: char| self.value_keys@.contains(c) ==> self.flags@.contains(c)
    }

    /// The set of flags held.
    pub closed spec fn flag_set(&self) -> Set<char> {
        Set::new(|c: char| self.flags@.contains(c))
    }

    /// The value each valued flag holds.
    pub closed spec fn values_map(&self) -> Map<char, Seq<char>> {
        map_of(self.value_keys@, self.value_vals.deep_view())
    }

    /// The state the three vectors represent.
    pub open spec fn state(&self) -> FlagState {
        FlagState { flags: self.flag_set(), values: self.values_map() }
    }

    /// What `with_value_flags` (and `new`, with no value flags) returns:
    /// exactly the parse of the arguments.
    pub open spec fn parse_ensures(
        args: Seq<Seq<char>>,
        vf: Set<char>,
        r: Result<Flags, FlagError>,
    ) -> bool {
        match (r, parse_flags(args, vf)) {
            (Result::Ok(f), Result::Ok(st)) => f.wf() && f.flag_set() == st.flags
                && f.values_map() == st.values,
            (Result::Err(e), Result::Err(fault)) => err_matches(e, fault),
            _ => false,
        }
    }

    /// Parses `args` with no value flags.
    pub fn new(args: &Vec<String>) -> (r: Result<Flags, FlagError>)
        ensures
            Flags::parse_ensures(args.deep_view(), Set::empty(), r),
    {
        let none: Vec<char> = Vec::new();
        let r = Flags::with_value_flags(args, &none);
        proof {
            assert(vf_set(Seq::<char>::empty()) =~= Set::<char>::empty());
        }
        r
    }

    /// Parses `args`; each flag in `value_flags` consumes the following
    /// argument as its value.
    pub fn with_value_flags(args: &Vec<String>, value_flags: &Vec<char>) -> (r: Result<
        Flags,
        FlagError,
    >)
        ensures
            Flags::parse_ensures(args.deep_view(), vf_set(value_flags@), r),
    {
        let ghost dv = args.deep_view();
        let n_args = args.len();
        proof {
            assert(dv.len() == args@.len());
        }
        let ghost vf = vf_set(value_flags@);
        let mut flags: Vec<char> = Vec::new();
        let mut keys: Vec<char> = Vec::new();
        let mut vals: Vec<String> = Vec::new();
        proof {
            assert(state_of(flags@, keys@, vals.deep_view()).flags =~= Set::<char>::empty());
            assert(state_of(flags@, keys@, vals.deep_view()).values =~= Map::<
                char,
                Seq<char>,
            >::empty());
        }
        let mut i: usize = 0;
        while i < args.len()
            invariant
                dv == args.deep_view(),
                dv.len() == args@.len(),
                dv.len() <= usize::MAX,
                i <= dv.len(),
                vf == vf_set(value_flags@),
                flags@.no_duplicates(),
                keys@.no_duplicates(),
                vals@.len() == keys@.len(),
                vals.deep_view().len() == keys@.len(),
                forall|c: char| keys@.contains(c) ==> flags@.contains(c),
                parse_flags(dv, vf) == parse_from(
                    dv,
                    vf,
                    i as int,
                    state_of(flags@, keys@, vals.deep_view()),
                ),
            decreases dv.len() - i,
        {
            let ghost i_entry = i as int;
            let cv = str_chars(args[i].as_str());
            proof {
                assert(cv@ == dv[i as int]);
            }
            if cv.len() > 0 && cv[0] == '-' {
                if cv.len() == 1 {
                    proof {
                        assert(parse_flags(dv, vf) == Err::<FlagState, FlagFault>(
                            FlagFault::EmptyFlag,
                        ));
                    }
                    return Err(FlagError::InvalidFormat(String::from_str("Empty flag")));
                }
                proof {
                    assert(cv@.drop_first() =~= cv@.subrange(1int, cv@.len() as int));
                }
                let mut j: usize = 1;
                while j < cv.len()
                    invariant
                        dv == args.deep_view(),
                        dv.len() == args@.len(),
                        dv.len() <= usize::MAX,
                        i_entry <= i as int,
                        i < dv.len(),
                        1 <= j <= cv@.len(),
                        vf == vf_set(value_flags@),
                        flags@.no_duplicates(),
                        keys@.no_duplicates(),
                        vals@.len() == keys@.len(),
                        vals.deep_view().len() == keys@.len(),
                        forall|c: char| keys@.contains(c) ==> flags@.contains(c),
                        parse_flags(dv, vf) == parse_step(
                            dv,
                            vf,
                            i as int,
                            cv@.subrange(j as int, cv@.len() as int),
                            state_of(flags@, keys@, vals.deep_view()),
                        ),
                    decreases cv@.len() - j,
                {
                    let ghost rest = cv@.subrange(j as int, cv@.len() as int);
                    let ghost st0 = state_of(flags@, keys@, vals.deep_view());
                    let ghost flags0 = flags@;
                    let ghost keys0 = keys@;
                    let ghost vals0 = vals.deep_view();
                    proof {
                        assert(rest[0] == cv@[j as int]);
                        assert(rest.drop_first() =~= cv@.subrange(j + 1 as int, cv@.len() as int));
                    }
                    let c = cv[j];
                    if contains_char(&flags, c) {
                        proof {
                            assert(st0.flags.contains(c));
                        }
                        return Err(FlagError::DuplicateFlag(c));
                    }
                    proof {
                        assert(!st0.flags.contains(c));
                        if keys0.contains(c) {
                            assert(flags0.contains(c));
                        }
                    }
                    if contains_char(value_flags, c) {
                        i = i + 1;
                        if i >= args.len() {
                            return Err(FlagError::MissingValue(c));
                        }
                        let value = args[i].clone();
                        proof {
                            assert(value@ == dv[i as int]);
                        }
                        keys.push(c);
                        vals.push(value);
                        flags.push(c);
                        proof {
                            assert(flags@ == flags0.push(c));
                            assert(keys@ == keys0.push(c));
                            assert(vals.deep_view() =~= vals0.push(dv[i as int]));
                            lemma_map_of_push(keys0, vals0, c, dv[i as int]);
                            assert forall|k: char|
                                flags@.contains(k) <==> (flags0.contains(k) || k == c) by {
                                crate::strutil::lemma_contains_push(flags0, c, k);
                            }
                            assert(state_of(flags@, keys@, vals.deep_view()).flags
                                =~= st0.flags.insert(c));
                            assert(state_of(flags@, keys@, vals.deep_view()).values
                                == st0.values.insert(c, dv[i as int]));
                            assert forall|k: char| keys@.contains(k) implies flags@.contains(k) by {
                                crate::strutil::lemma_contains_push(keys0, c, k);
                                crate::strutil::lemma_contains_push(flags0, c, k);
                            }
                        }
                    } else {
                        flags.push(c);
                        proof {
                            assert(flags@ == flags0.push(c));
                            assert forall|k: char|
                                flags@.contains(k) <==> (flags0.contains(k) || k == c) by {
                                crate::strutil::lemma_contains_push(flags0, c, k);
                            }
                            assert(state_of(flags@, keys@, vals.deep_view()).flags
                                =~= st0.flags.insert(c));
                            assert(state_of(flags@, keys@, vals.deep_view()).values == st0.values);
                            assert forall|k: char| keys@.contains(k) implies flags@.contains(k) by {
                                crate::strutil::lemma_contains_push(flags0, c, k);
                            }
                        }
                    }
                    j = j + 1;
                }
                proof {
                    assert(cv@.subrange(cv@.len() as int, cv@.len() as int) =~= Seq::<
                        char,
                    >::empty());
                }
                i = i + 1;
            } else {
                proof {
                    assert(!(dv[i_entry].len() > 0 && dv[i_entry][0] == '-'));
                }
                i = i + 1;
            }
        }
        let r = Flags { flags, value_keys: keys, value_vals: vals };
        Ok(r)
    }

    /// Parses the whitespace-separated words of `s` with no value flags.
    pub fn from_str(s: &str) -> (r: Result<Flags, FlagError>)
        ensures
            Flags::parse_ensures(split_ws(s@), Set::empty(), r),
    {
        let words = split_whitespace_strs(s);
        let r = Flags::new(&words);
        r
    }

    /// Whether the flag `flag` is present.
    pub fn has_flag(&self, flag: char) -> (r: bool)
        ensures
            r == self.flag_set().contains(flag),
    {
        contains_char(&self.flags, flag)
    }

    /// The value given for `flag`, if `flag` is a valued flag.
    pub fn get_value(&self, flag: char) -> (r: Option<String>)
        requires
            self.wf(),
        ensures
            match r {
                Option::Some(v) => self.values_map().dom().contains(flag) && v@
                    == self.values_map()[flag],
                Option::None => !self.values_map().dom().contains(flag),
            },
    {
        let mut i: usize = 0;
        while i < self.value_keys.len()
            invariant
                self.wf(),
                i <= self.value_keys@.len(),
                forall|j: int| 0 <= j < i ==> self.value_keys@[j] != flag,
            decreases self.value_keys@.len() - i,
        {
            if self.value_keys[i] == flag {
                proof {
                    lemma_index_of_unique(self.value_keys@, flag);
                    assert(self.value_keys@.index_of(flag) == i as int);
                    assert(self.values_map()[flag] == self.value_vals.deep_view()[i as int]);
                }
                return Some(self.value_vals[i].clone());
            }
            i = i + 1;
        }
        proof {
            if self.value_keys@.contains(flag) {
                let j = choose|j: int|
                    0 <= j < self.value_keys@.len() && self.value_keys@[j] == flag;
                assert(false);
            }
        }
        None
    }

    /// Adds `flag`, leaving any values untouched.
    pub fn add_flag(&mut self, flag: char)
        requires
            old(self).wf(),
        ensures
            final(self).wf(),
            final(self).flag_set() == old(self).flag_set().insert(flag),
            final(self).values_map() == old(self).values_map(),
    {
        crate::strutil::insert_char(&mut self.flags, flag);
        proof {
            assert forall|c: char|
                self.flags@.contains(c) <==> (old(self).flags@.contains(c) || c == flag) by {
                if !old(self).flags@.contains(flag) {
                    crate::strutil::lemma_contains_push(old(self).flags@, flag, c);
                }
            }
            assert(self.flag_set() =~= old(self).flag_set().insert(flag));
        }
    }

    /// Adds `flag` with an associated value, replacing any previous value.
    pub fn add_value(&mut self, flag: char, value: String)
        requires
            old(self).wf(),
        ensures
            final(self).wf(),
            final(self).flag_set() == old(self).flag_set().insert(flag),
            final(self).values_map() == old(self).values_map().insert(flag, value@),
    {
        self.remove_flag(flag);
        let ghost mid = *self;
        proof {
            assert(mid.flag_set() == old(self).flag_set().remove(flag));
            assert(!mid.flag_set().contains(flag));
            assert(mid.flag_set().contains(flag) == mid.flags@.contains(flag));
            assert(!mid.flags@.contains(flag));
        }
        crate::strutil::insert_char(&mut self.flags, flag);
        proof {
            assert(self.flags@ == mid.flags@.push(flag));
            assert forall|c: char|
                self.flags@.contains(c) <==> (mid.flags@.contains(c) || c == flag) by {
                crate::strutil::lemma_contains_push(mid.flags@, flag, c);
            }
        }
        let ghost keys0 = self.value_keys@;
        let ghost vals0 = self.value_vals.deep_view();
        proof {
            assert(mid.values_map().dom().contains(flag) == keys0.contains(flag));
            assert(!keys0.contains(flag));
        }
        self.value_keys.push(flag);
        self.value_vals.push(value);
        proof {
            assert(self.value_vals.deep_view() =~= vals0.push(value@));
            lemma_map_of_push(keys0, vals0, flag, value@);
            assert forall|c: char|
                self.flags@.contains(c) <==> (old(self).flags@.contains(c) || c == flag) by {
                crate::strutil::lemma_contains_push(mid.flags@, flag, c);
                assert(mid.flag_set().contains(c) == mid.flags@.contains(c));
                assert(old(self).flag_set().contains(c) == old(self).flags@.contains(c));
                assert(mid.flag_set().contains(c) == old(self).flag_set().remove(flag).contains(c));
            }
            assert(self.flag_set() =~= old(self).flag_set().insert(flag));
            assert(self.values_map() =~= old(self).values_map().remove(flag).insert(
                flag,
                value@,
            ));
            assert(old(self).values_map().remove(flag).insert(flag, value@)
                =~= old(self).values_map().insert(flag, value@));
            assert forall|c: char|
                self.value_keys@.contains(c) implies self.flags@.contains(c) by {
                crate::strutil::lemma_contains_push(keys0, flag, c);
                crate::strutil::lemma_contains_push(mid.flags@, flag, c);
            }
            assert forall|i: int, j: int|
                0 <= i < j < self.value_keys@.len() implies self.value_keys@[i]
                != self.value_keys@[j] by {
                if j == self.value_keys@.len() - 1 {
                    assert(keys0.contains(keys0[i]));
                }
            }
        }
    }

    /// Removes `flag` and any value it held.
    pub fn remove_flag(&mut self, flag: char)
        requires
            old(self).wf(),
        ensures
            final(self).wf(),
            final(self).flag_set() == old(self).flag_set().remove(flag),
            final(self).values_map() == old(self).values_map().remove(flag),
    {
        let mut i: usize = 0;
        while i < self.flags.len() && self.flags[i] != flag
            invariant
                *self == *old(self),
                i <= self.flags@.len(),
                forall|j: int| 0 <= j < i ==> self.flags@[j] != flag,
            decreases self.flags@.len() - i,
        {
            i = i + 1;
        }
        if i < self.flags.len() {
            self.flags.remove(i);
            proof {
                assert(old(self).flags@[i as int] == flag);
                assert forall|c: char|
                    self.flags@.contains(c) <==> (old(self).flags@.contains(c) && c != flag) by {
                    lemma_remove_contains(old(self).flags@, i as int, c);
                }
                assert(self.flag_set() =~= old(self).flag_set().remove(flag));
            }
        } else {
            proof {
                if old(self).flags@.contains(flag) {
                    let j = choose|j: int|
                        0 <= j < old(self).flags@.len() && old(self).flags@[j] == flag;
                    assert(false);
                }
                assert(self.flag_set() =~= old(self).flag_set().remove(flag));
            }
        }
        let ghost keys1 = self.value_keys@;
        let mut k: usize = 0;
        while k < self.value_keys.len() && self.value_keys[k] != flag
            invariant
                self.value_keys@ == keys1,
                k <= keys1.len(),
                forall|j: int| 0 <= j < k ==> keys1[j] != flag,
            decreases keys1.len() - k,
        {
            k = k + 1;
        }
        if k < self.value_keys.len() {
            let ghost vals1 = self.value_vals.deep_view();
            self.value_keys.remove(k);
            self.value_vals.remove(k);
            proof {
                assert(keys1[k as int] == flag);
                assert(self.value_vals.deep_view() =~= vals1.remove(k as int));
                lemma_map_of_remove(keys1, vals1, k as int);
                assert(self.values_map() == old(self).values_map().remove(flag));
                assert(self.value_keys@.no_duplicates());
                assert forall|c: char|
                    self.value_keys@.contains(c) implies self.flags@.contains(c) by {
                    lemma_remove_contains(keys1, k as int, c);
                    assert(old(self).value_keys@.contains(c));
                }
            }
        } else {
            proof {
                if keys1.contains(flag) {
                    let j = choose|j: int| 0 <= j < keys1.len() && keys1[j] == flag;
                    assert(false);
                }
                assert(self.values_map() =~= old(self).values_map().remove(flag));
                assert forall|c: char|
                    self.value_keys@.contains(c) implies self.flags@.contains(c) by {
                    assert(old(self).value_keys@.contains(c));
                }
            }
        }
    }

    /// The flag characters, each exactly once.
    pub fn flags(&self) -> (r: &Vec<char>)
        requires
            self.wf(),
        ensures
            r@.no_duplicates(),
            forall|c: char| r@.contains(c) <==> self.flag_set().contains(c),
    {
        &self.flags
    }

    /// Every valued flag is also a flag: the keys of the value map lie
    /// in the flag set, and every operation keeps it that way.
    pub proof fn lemma_valued_flags_are_flags(&self)
        requires
            self.wf(),
        ensures
            forall|c: char|
                self.values_map().dom().contains(c) ==> self.flag_set().contains(c),
    {
        assert forall|c: char|
            self.values_map().dom().contains(c) implies self.flag_set().contains(c) by {
            assert(self.value_keys@.contains(c));
            assert(self.flags@.contains(c));
        }
    }

    /// The valued flags with their values, in insertion order; each of
    /// their keys is also in the flag set.
    pub fn values(&self) -> (r: Vec<(char, String)>)
        requires
            self.wf(),
        ensures
            forall|i: int|
                0 <= i < r@.len() ==> self.values_map().contains_pair(r@[i].0, r@[i].1@),
            forall|i: int| 0 <= i < r@.len() ==> self.flag_set().contains(#[trigger] r@[i].0),
            forall|c: char|
                self.values_map().dom().contains(c) ==> exists|i: int|
                    0 <= i < r@.len() && r@[i].0 == c,
    {
        let mut r: Vec<(char, String)> = Vec::new();
        let mut i: usize = 0;
        while i < self.value_keys.len()
            invariant
                self.wf(),
                i <= self.value_keys@.len(),
                r@.len() == i,
                forall|j: int|
                    0 <= j < i ==> r@[j].0 == self.value_keys@[j] && r@[j].1@
                        == self.value_vals.deep_view()[j],
            decreases self.value_keys@.len() - i,
        {
            let pair = (self.value_keys[i], self.value_vals[i].clone());
            r.push(pair);
            i = i + 1;
        }
        proof {
            assert forall|j: int|
                0 <= j < r@.len() implies self.values_map().contains_pair(r@[j].0, r@[j].1@) by {
                assert(self.value_keys@[j] == r@[j].0);
                assert(self.value_keys@.contains(r@[j].0));
                lemma_index_of_unique(self.value_keys@, r@[j].0);
                assert(self.value_keys@.index_of(r@[j].0) == j);
            }
            assert forall|j: int| 0 <= j < r@.len() implies self.flag_set().contains(
                #[trigger] r@[j].0,
            ) by {
                assert(self.value_keys@[j] == r@[j].0);
                assert(self.value_keys@.contains(r@[j].0));
                assert(self.flags@.contains(r@[j].0));
            }
            assert forall|c: char|
                self.values_map().dom().contains(c) implies exists|i: int|
                0 <= i < r@.len() && r@[i].0 == c by {
                let j = choose|j: int|
                    0 <= j < self.value_keys@.len() && self.value_keys@[j] == c;
                assert(r@[j].0 == c);
            }
        }
        r
    }

    /// How many flags are held.
    pub fn len(&self) -> (r: usize)
        requires
            self.wf(),
        ensures
            r == self.flag_set().len(),
    {
        proof {
            self.flags@.unique_seq_to_set();
            assert(self.flag_set() =~= self.flags@.to_set());
        }
        self.flags.len()
    }

    /// Whether no flag is held.
    pub fn is_empty(&self) -> (r: bool)
        requires
            self.wf(),
        ensures
            r == (self.flag_set() == Set::<char>::empty()),
    {
        let e = self.flags.is_empty();
        proof {
            if self.flags@.len() == 0 {
                assert(self.flag_set() =~= Set::<char>::empty());
            } else {
                assert(self.flags@.contains(self.flags@[0]));
                assert(self.flag_set().contains(self.flags@[0]));
            }
        }
        e
    }

    /// Removes every flag and value.
    pub fn clear(&mut self)
        ensures
            final(self).wf(),
            final(self).flag_set() == Set::<char>::empty(),
            final(self).values_map() == Map::<char, Seq<char>>::empty(),
    {
        self.flags.clear();
        self.value_keys.clear();
        self.value_vals.clear();
        proof {
            assert(self.flag_set() =~= Set::<char>::empty());
            assert(self.values_map() =~= Map::<char, Seq<char>>::empty());
        }
    }
}

impl Default for Flags {
    /// An empty flag list.
    fn default() -> (r: Flags)
        ensures
            r.wf(),
            r.flag_set() == Set::<char>::empty(),
            r.values_map() == Map::<char, Seq<char>>::empty(),
    {
        let r = Flags { flags: Vec::new(), value_keys: Vec::new(), value_vals: Vec::new() };
        proof {
            assert(r.flag_set() =~= Set::<char>::empty());
            assert(r.values_map() =~= Map::<char, Seq<char>>::empty());
        }
        r
    }
}

/// Membership in a sequence with one position removed, when no character
/// occurs twice.
pub proof fn lemma_remove_contains(s: Seq<char>, i: int, c: char)
    requires
        s.no_duplicates(),
        0 <= i < s.len(),
    ensures
        s.remove(i).contains(c) <==> (s.contains(c) && c != s[i]),
{
    if s.remove(i).contains(c) {
        let j = choose|j: int| 0 <= j < s.remove(i).len() && s.remove(i)[j] == c;
        if j < i {
            assert(s[j] == c);
        } else {
            assert(s[j + 1] == c);
        }
    }
    if s.contains(c) && c != s[i] {
        let j = choose|j: int| 0 <= j < s.len() && s[j] == c;
        if j < i {
            assert(s.remove(i)[j] == c);
        } else {
            assert(j > i);
            assert(s.remove(i)[j - 1] == c);
        }
    }
}

} // verus!
