//! Character and string helpers shared by the parsing and formatting code.

use vstd::prelude::*;

verus! {

/// The characters the shell treats as argument-separating whitespace.
pub open spec fn is_space(c: char) -> bool {
    c == ' ' || c == '\t' || c == '\n' || c == '\r'
}

/// Executable counterpart of `is_space`.
pub fn space_char(c: char) -> (b: bool)
    ensures
        b == is_space(c),
{
    c == ' ' || c == '\t' || c == '\n' || c == '\r'
}

/// The characters of `s`, in order, as a vector.
pub fn str_chars(s: &str) -> (v: Vec<char>)
    ensures
        v@ == s@,
{
    let n = s.unicode_len();
    let mut v: Vec<char> = Vec::new();
    let mut i: usize = 0;
    while i < n
        invariant
            n == s@.len(),
            i <= n,
            v@ == s@.subrange(0, i as int),
        decreases n - i,
    {
        let c = s.get_char(i);
        v.push(c);
        proof {
            assert(s@.subrange(0, i + 1 as int) =~= s@.subrange(0, i as int).push(s@[i as int]));
        }
        i = i + 1;
    }
    proof {
        assert(s@.subrange(0, n as int) =~= s@);
    }
    v
}

/// Relies on `String: FromIterator<char>`: collecting an iterator of
/// characters yields a string holding exactly those characters in order.
#[verifier::external_body]
pub(crate) fn string_from_chars(v: &Vec<char>) -> (s: String)
    ensures
        s@ == v@,
{
    v.iter().collect()
}

/// Whether two character sequences are equal, decided character by character.
pub fn chars_eq_str(v: &Vec<char>, s: &str) -> (b: bool)
    ensures
        b == (v@ == s@),
{
    let n = s.unicode_len();
    if v.len() != n {
        return false;
    }
    let mut i: usize = 0;
    while i < n
        invariant
            n == s@.len(),
            v@.len() == n,
            i <= n,
            forall|j: int| 0 <= j < i ==> v@[j] == s@[j],
        decreases n - i,
    {
        let c = s.get_char(i);
        if v[i] != c {
            return false;
        }
        i = i + 1;
    }
    proof {
        assert(v@ =~= s@);
    }
    true
}

/// Whether two strings hold the same characters.
pub fn str_eq(a: &str, b: &str) -> (r: bool)
    ensures
        r == (a@ == b@),
{
    let v = str_chars(a);
    chars_eq_str(&v, b)
}

/// The decimal digit character for `n` (defined for `0 <= n <= 9`).
pub open spec fn dec_digit(n: int) -> char {
    if n == 0 {
        '0'
    } else if n == 1 {
        '1'
    } else if n == 2 {
        '2'
    } else if n == 3 {
        '3'
    } else if n == 4 {
        '4'
    } else if n == 5 {
        '5'
    } else if n == 6 {
        '6'
    } else if n == 7 {
        '7'
    } else if n == 8 {
        '8'
    } else {
        '9'
    }
}

/// The usual decimal rendering of a non-negative integer.
pub open spec fn dec_string(n: int) -> Seq<char>
    decreases n,
{
    if n < 10 {
        seq![dec_digit(n)]
    } else {
        dec_string(n / 10).push(dec_digit(n % 10))
    }
}

pub fn dec_digit_char(n: u64) -> (c: char)
    requires
        n <= 9,
    ensures
        c == dec_digit(n as int),
{
    if n == 0 {
        '0'
    } else if n == 1 {
        '1'
    } else if n == 2 {
        '2'
    } else if n == 3 {
        '3'
    } else if n == 4 {
        '4'
    } else if n == 5 {
        '5'
    } else if n == 6 {
        '6'
    } else if n == 7 {
        '7'
    } else if n == 8 {
        '8'
    } else {
        '9'
    }
}

/// Appends the decimal rendering of `n` to `v`.
pub fn push_dec_chars(n: u64, v: &mut Vec<char>)
    ensures
        final(v)@ == old(v)@ + dec_string(n as int),
    decreases n,
{
    if n >= 10 {
        push_dec_chars(n / 10, v);
    }
    let d = dec_digit_char(n % 10);
    v.push(d);
    proof {
        if n >= 10 {
            assert(v@ =~= old(v)@ + dec_string(n as int));
        } else {
            assert(n as int % 10 == n as int);
            assert(v@ =~= old(v)@ + dec_string(n as int));
        }
    }
}

/// The decimal rendering of `n` as a fresh vector.
pub fn dec_chars(n: u64) -> (v: Vec<char>)
    ensures
        v@ == dec_string(n as int),
{
    let mut v: Vec<char> = Vec::new();
    push_dec_chars(n, &mut v);
    proof {
        assert(v@ =~= dec_string(n as int));
    }
    v
}

/// The decimal rendering of `n` as a string.
pub fn u64_string(n: u64) -> (s: String)
    ensures
        s@ == dec_string(n as int),
{
    let v = dec_chars(n);
    string_from_chars(&v)
}

/// `n` spaces.
pub open spec fn spaces(n: int) -> Seq<char> {
    Seq::new(if n < 0 { 0 } else { n } as nat, |i: int| ' ')
}

/// `s` left-padded with spaces to width `w`.
pub open spec fn pad_left(s: Seq<char>, w: int) -> Seq<char> {
    if s.len() >= w {
        s
    } else {
        spaces(w - s.len()) + s
    }
}

/// Appends `s` left-padded to width `w` onto `v`.
pub fn push_padded(v: &mut Vec<char>, s: &Vec<char>, w: usize)
    ensures
        final(v)@ == old(v)@ + pad_left(s@, w as int),
{
    let mut i: usize = s.len();
    while i < w
        invariant
            s@.len() <= i <= w || (s@.len() >= w && i == s@.len()),
            v@ == old(v)@ + spaces(i - s@.len()),
        decreases w - i,
    {
        v.push(' ');
        proof {
            assert(v@ =~= old(v)@ + spaces(i + 1 - s@.len()));
        }
        i = i + 1;
    }
    let mut j: usize = 0;
    while j < s.len()
        invariant
            j <= s@.len(),
            v@ == old(v)@ + spaces(w - s@.len()) + s@.subrange(0, j as int) || (s@.len() >= w
                && v@ == old(v)@ + s@.subrange(0, j as int)),
        decreases s@.len() - j,
    {
        v.push(s[j]);
        proof {
            assert(s@.subrange(0, j + 1 as int) =~= s@.subrange(0, j as int).push(s@[j as int]));
            if s@.len() < w {
                assert(v@ =~= old(v)@ + spaces(w - s@.len()) + s@.subrange(0, j + 1 as int));
            } else {
                assert(v@ =~= old(v)@ + s@.subrange(0, j + 1 as int));
            }
        }
        j = j + 1;
    }
    proof {
        assert(s@.subrange(0, s@.len() as int) =~= s@);
        if s@.len() >= w {
            assert(pad_left(s@, w as int) == s@);
            assert(spaces(0) =~= Seq::<char>::empty());
            assert(v@ =~= old(v)@ + s@);
        } else {
            assert(v@ =~= old(v)@ + (spaces(w - s@.len()) + s@));
        }
    }
}

/// No character occurs twice.
pub open spec fn unique_chars(s: Seq<char>) -> bool {
    forall|i: int, j: int| 0 <= i < j < s.len() ==> s[i] != s[j]
}

/// Whether `v` holds the character `c`.
pub fn contains_char(v: &Vec<char>, c: char) -> (b: bool)
    ensures
        b == v@.contains(c),
{
    let mut i: usize = 0;
    while i < v.len()
        invariant
            i <= v@.len(),
            forall|j: int| 0 <= j < i ==> v@[j] != c,
        decreases v@.len() - i,
    {
        if v[i] == c {
            return true;
        }
        i = i + 1;
    }
    false
}

/// Membership in a sequence extended by one character.
pub proof fn lemma_contains_push(s: Seq<char>, x: char, c: char)
    ensures
        s.push(x).contains(c) <==> (s.contains(c) || c == x),
{
    if s.contains(c) {
        let i = choose|i: int| 0 <= i < s.len() && s[i] == c;
        assert(s.push(x)[i] == c);
    }
    assert(s.push(x)[s.len() as int] == x);
    if s.push(x).contains(c) && c != x {
        let i = choose|i: int| 0 <= i < s.push(x).len() && s.push(x)[i] == c;
        assert(s[i] == c);
    }
}

/// Adds `c` to `v` unless it is already there; keeps the characters unique.
pub fn insert_char(v: &mut Vec<char>, c: char)
    ensures
        final(v)@ == if old(v)@.contains(c) {
            old(v)@
        } else {
            old(v)@.push(c)
        },
        unique_chars(old(v)@) ==> unique_chars(final(v)@),
{
    if !contains_char(v, c) {
        v.push(c);
    }
}

/// Splitting on whitespace, processed left to right: `cur` is the token
/// being built, `acc` the tokens already finished.
pub open spec fn split_ws_from(s: Seq<char>, cur: Seq<char>, acc: Seq<Seq<char>>) -> Seq<Seq<char>>
    decreases s.len(),
{
    if s.len() == 0 {
        if cur.len() == 0 {
            acc
        } else {
            acc.push(cur)
        }
    } else if is_space(s[0]) {
        if cur.len() == 0 {
            split_ws_from(s.drop_first(), cur, acc)
        } else {
            split_ws_from(s.drop_first(), Seq::empty(), acc.push(cur))
        }
    } else {
        split_ws_from(s.drop_first(), cur.push(s[0]), acc)
    }
}

/// The maximal whitespace-free runs of `s`, in order.
pub open spec fn split_ws(s: Seq<char>) -> Seq<Seq<char>> {
    split_ws_from(s, Seq::empty(), Seq::empty())
}

/// Splits `s` on whitespace.
pub fn split_whitespace_strs(s: &str) -> (r: Vec<String>)
    ensures
        r.deep_view() == split_ws(s@),
{
    let cs = str_chars(s);
    let n = cs.len();
    let mut out: Vec<String> = Vec::new();
    let mut cur: Vec<char> = Vec::new();
    proof {
        assert(s@.subrange(0, n as int) =~= s@);
        assert(out.deep_view() =~= Seq::<Seq<char>>::empty());
    }
    let mut i: usize = 0;
    while i < n
        invariant
            n == cs@.len(),
            cs@ == s@,
            i <= n,
            split_ws(s@) == split_ws_from(
                s@.subrange(i as int, n as int),
                cur@,
                out.deep_view(),
            ),
        decreases n - i,
    {
        let ghost rest = s@.subrange(i as int, n as int);
        proof {
            assert(rest[0] == s@[i as int]);
            assert(rest.drop_first() =~= s@.subrange(i + 1 as int, n as int));
        }
        let c = cs[i];
        if space_char(c) {
            if cur.len() > 0 {
                let tok = string_from_chars(&cur);
                let ghost out0 = out.deep_view();
                out.push(tok);
                proof {
                    assert(out.deep_view() =~= out0.push(cur@));
                }
                cur = Vec::new();
            }
        } else {
            cur.push(c);
        }
        i = i + 1;
    }
    proof {
        assert(s@.subrange(n as int, n as int) =~= Seq::<char>::empty());
    }
    if cur.len() > 0 {
        let tok = string_from_chars(&cur);
        let ghost out0 = out.deep_view();
        out.push(tok);
        proof {
            assert(out.deep_view() =~= out0.push(cur@));
        }
    }
    out
}

/// The parts joined with `sep` between consecutive parts.
pub open spec fn join_with(parts: Seq<Seq<char>>, sep: Seq<char>) -> Seq<char>
    decreases parts.len(),
{
    if parts.len() == 0 {
        Seq::empty()
    } else if parts.len() == 1 {
        parts[0]
    } else {
        parts[0] + sep + join_with(parts.drop_first(), sep)
    }
}

/// Joining after appending one more part extends the join by a separator
/// and that part (unless there was nothing yet).
pub proof fn lemma_join_push(parts: Seq<Seq<char>>, sep: Seq<char>, p: Seq<char>)
    ensures
        join_with(parts.push(p), sep) == if parts.len() == 0 {
            p
        } else {
            join_with(parts, sep) + sep + p
        },
    decreases parts.len(),
{
    if parts.len() == 0 {
        assert(parts.push(p).len() == 1);
        assert(parts.push(p)[0] == p);
    } else if parts.len() == 1 {
        assert(parts.push(p).drop_first() =~= seq![p]);
        assert(join_with(seq![p], sep) == p);
        assert(parts.push(p)[0] == parts[0]);
        assert(join_with(parts.push(p), sep) == parts[0] + sep + p);
    } else {
        assert(parts.push(p).drop_first() =~= parts.drop_first().push(p));
        lemma_join_push(parts.drop_first(), sep, p);
        assert(join_with(parts.push(p), sep) == parts[0] + sep + (join_with(
            parts.drop_first(),
            sep,
        ) + sep + p));
        assert(parts[0] + sep + (join_with(parts.drop_first(), sep) + sep + p) =~= (parts[0] + sep
            + join_with(parts.drop_first(), sep)) + sep + p);
    }
}

/// The parts joined with single spaces.
pub fn join_spaces(parts: &Vec<String>) -> (r: String)
    ensures
        r@ == join_with(parts.deep_view(), seq![' ']),
{
    let ghost sep: Seq<char> = seq![' '];
    let mut acc: Vec<char> = Vec::new();
    let mut i: usize = 0;
    while i < parts.len()
        invariant
            sep == seq![' '],
            i <= parts@.len(),
            parts.deep_view().len() == parts@.len(),
            acc@ == join_with(parts.deep_view().subrange(0, i as int), sep),
        decreases parts@.len() - i,
    {
        let ghost acc0 = acc@;
        if i > 0 {
            acc.push(' ');
        }
        let part = str_chars(parts[i].as_str());
        let mut part_m = part;
        acc.append(&mut part_m);
        proof {
            let dv = parts.deep_view();
            let p = dv[i as int];
            assert(p == parts@[i as int]@);
            let pre = dv.subrange(0, i as int);
            assert(dv.subrange(0, i + 1 as int) =~= pre.push(p));
            lemma_join_push(pre, sep, p);
            if i == 0 {
                assert(pre.len() == 0);
                assert(acc0 == Seq::<char>::empty());
                assert(acc@ =~= p);
                assert(join_with(pre.push(p), sep) == p);
            } else {
                assert(acc@ == acc0.push(' ') + p);
                assert(acc0.push(' ') + p =~= acc0 + sep + p);
                assert(join_with(pre.push(p), sep) == join_with(pre, sep) + sep + p);
            }
        }
        i = i + 1;
    }
    proof {
        assert(parts.deep_view().subrange(0, parts@.len() as int) =~= parts.deep_view());
    }
    string_from_chars(&acc)
}

} // verus!
