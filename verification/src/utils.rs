//! Formatting helpers for directory listings: permission strings, human
//! readable sizes, relative times, and the grid layout.

use vstd::prelude::*;

use crate::strutil::{
    dec_chars, dec_string, pad_left, push_dec_chars, push_padded, str_chars, string_from_chars,
};

verus! {

/// 1024 to the `e`-th power.
pub open spec fn pow1024(e: nat) -> int
    decreases e,
{
    if e == 0 {
        1
    } else {
        1024 * pow1024((e - 1) as nat)
    }
}

/// The size's magnitude: how often it can be divided by 1024 before
/// dropping below 1024.
pub open spec fn size_exponent(size: int) -> nat
    decreases size,
{
    if size < 1024 {
        0
    } else {
        1 + size_exponent(size / 1024)
    }
}

/// The unit suffix for each magnitude.
pub open spec fn unit_suffix(e: nat) -> Seq<char> {
    if e == 0 {
        "B"@
    } else if e == 1 {
        "KB"@
    } else if e == 2 {
        "MB"@
    } else if e == 3 {
        "GB"@
    } else if e == 4 {
        "TB"@
    } else if e == 5 {
        "PB"@
    } else {
        "EB"@
    }
}

/// A size rendered with one decimal digit in its unit: the number of
/// tenths of the unit, rounded half up.
pub open spec fn size_rendering(size: int) -> Seq<char> {
    if size == 0 {
        seq!['0']
    } else {
        let e = size_exponent(size);
        let p = pow1024(e);
        let tenths = (10 * size + p / 2) / p;
        dec_string(tenths / 10) + seq!['.'] + seq![crate::strutil::dec_digit(tenths % 10)]
            + unit_suffix(e)
    }
}

/// Renders `size` with one decimal digit and a unit, e.g. `1.5KB`.
/// A zero size is rendered as `0`.
pub fn format_size(size: u64) -> (r: String)
    ensures
        r@ == size_rendering(size as int),
{
    if size == 0 {
        let v = str_chars("0");
        proof {
            reveal_strlit("0");
            assert(v@ =~= seq!['0']);
        }
        return string_from_chars(&v);
    }
    let mut e: u64 = 0;
    let mut p: u64 = 1;
    while size / p >= 1024
        invariant
            size >= 1,
            1 <= p <= size,
            e <= 6,
            p <= 1152921504606846976,
            p == pow1024(e as nat),
            size_exponent(size as int) == e + size_exponent((size / p) as int),
        decreases size - p,
    {
        proof {
            assert(pow1024(0) == 1);
            assert(pow1024(1) == 1024);
            assert(pow1024(2) == 1048576);
            assert(pow1024(3) == 1073741824);
            assert(pow1024(4) == 1099511627776);
            assert(pow1024(5) == 1125899906842624);
            assert(pow1024(6) == 1152921504606846976);
            assert(size / p >= 1024);
            assert((size / p) as int / 1024 == size as int / (p as int * 1024)) by {
                vstd::arithmetic::div_mod::lemma_div_denominator(
                    size as int,
                    p as int,
                    1024,
                );
            }
            assert(size_exponent((size / p) as int) == 1 + size_exponent(
                (size as int) / (p as int * 1024),
            ));
            assert(p as int * 1024 <= size as int) by {
                vstd::arithmetic::div_mod::lemma_fundamental_div_mod(size as int, p as int);
                assert(size as int == p as int * (size as int / p as int) + size as int % p as int);
                assert(size as int / p as int >= 1024);
                assert(p as int * (size as int / p as int) >= p as int * 1024) by (nonlinear_arith)
                    requires
                        p as int >= 1,
                        size as int / p as int >= 1024,
                ;
            }
        }
        proof {
            if e == 6 {
                assert(p == 1152921504606846976);
                assert(p as int * 1024 > u64::MAX as int);
                assert(false);
            }
            if e == 0 {
                assert(p == 1);
            } else if e == 1 {
                assert(p == 1024);
            } else if e == 2 {
                assert(p == 1048576);
            } else if e == 3 {
                assert(p == 1073741824);
            } else if e == 4 {
                assert(p == 1099511627776);
            } else {
                assert(p == 1125899906842624);
            }
        }
        p = p * 1024;
        e = e + 1;
        proof {
            assert((size as int) / (p as int) >= 1) by {
                vstd::arithmetic::div_mod::lemma_div_is_ordered(
                    p as int,
                    size as int,
                    p as int,
                );
                assert(p as int / p as int == 1) by {
                    vstd::arithmetic::div_mod::lemma_div_by_self(p as int);
                }
            }
        }
    }
    proof {
        assert(size_exponent((size / p) as int) == 0);
        assert(size_exponent(size as int) == e as nat);
    }
    let whole0 = size / p;
    let rem = size % p;
    proof {
        assert(rem < p) by {
            vstd::arithmetic::div_mod::lemma_mod_bound(size as int, p as int);
        }
        assert(10 * (rem as int) + (p as int) / 2 <= u64::MAX as int);
        assert(10 * (rem as int) + (p as int) / 2 < 11 * (p as int));
    }
    let frac10 = (10 * rem + p / 2) / p;
    proof {
        assert(frac10 as int <= 10) by {
            assert(10 * rem as int + p as int / 2 < p as int * 11) by (nonlinear_arith)
                requires
                    rem < p,
                    p >= 1,
            ;
            vstd::arithmetic::div_mod::lemma_multiply_divide_lt(
                10 * rem as int + p as int / 2,
                p as int,
                11,
            );
        }
        assert(whole0 < 1024);
    }
    let tenths = whole0 * 10 + frac10;
    proof {
        let s = size as int;
        let pi = p as int;
        assert((10 * s + pi / 2) / pi == whole0 as int * 10 + frac10 as int) by {
            let b = 10 * (rem as int) + pi / 2;
            vstd::arithmetic::div_mod::lemma_fundamental_div_mod(s, pi);
            vstd::arithmetic::div_mod::lemma_fundamental_div_mod(b, pi);
            assert(b % pi < pi && b % pi >= 0) by {
                vstd::arithmetic::div_mod::lemma_mod_bound(b, pi);
            }
            assert(10 * s + pi / 2 == (whole0 as int * 10 + frac10 as int) * pi + b % pi)
                by (nonlinear_arith)
                requires
                    s == pi * (whole0 as int) + rem as int,
                    b == 10 * (rem as int) + pi / 2,
                    b == pi * (frac10 as int) + b % pi,
            ;
            vstd::arithmetic::div_mod::lemma_fundamental_div_mod_converse_div(
                10 * s + pi / 2,
                pi,
                whole0 as int * 10 + frac10 as int,
                b % pi,
            );
        }
    }
    let whole = tenths / 10;
    let frac = tenths % 10;
    let mut v = dec_chars(whole);
    let ghost v0 = v@;
    v.push('.');
    let fd = crate::strutil::dec_digit_char(frac);
    v.push(fd);
    let unit = if e == 0 {
        "B"
    } else if e == 1 {
        "KB"
    } else if e == 2 {
        "MB"
    } else if e == 3 {
        "GB"
    } else if e == 4 {
        "TB"
    } else if e == 5 {
        "PB"
    } else {
        "EB"
    };
    let mut uv = str_chars(unit);
    v.append(&mut uv);
    proof {
        assert(v@ =~= dec_string(tenths as int / 10) + seq!['.'] + seq![
            crate::strutil::dec_digit(tenths as int % 10),
        ] + unit_suffix(e as nat));
    }
    string_from_chars(&v)
}

/// A possibly negative number in decimal.
pub open spec fn signed_dec(n: int) -> Seq<char> {
    if n < 0 {
        seq!['-'] + dec_string(-n)
    } else {
        dec_string(n)
    }
}

/// A time difference rendered in the largest fitting unit: seconds under
/// a minute (negative differences stay in seconds), minutes under an
/// hour, hours under a day, else days.
pub open spec fn time_rendering(time: int, now: int) -> Seq<char> {
    let d = now - time;
    if d < 60 {
        signed_dec(d) + seq!['s']
    } else if d < 3600 {
        dec_string(d / 60) + seq!['m']
    } else if d < 86400 {
        dec_string(d / 3600) + seq!['h']
    } else {
        dec_string(d / 86400) + seq!['d']
    }
}

/// Renders how long before `now` the timestamp `time` lies.
pub fn format_time(time: u64, now: u64) -> (r: String)
    requires
        time <= i64::MAX,
        now <= i64::MAX,
    ensures
        r@ == time_rendering(time as int, now as int),
{
    if now >= time {
        let d = now - time;
        let mut v: Vec<char>;
        if d < 60 {
            v = dec_chars(d);
            v.push('s');
            proof {
                assert(v@ =~= dec_string(d as int) + seq!['s']);
            }
        } else if d < 3600 {
            v = dec_chars(d / 60);
            v.push('m');
            proof {
                assert(v@ =~= dec_string(d as int / 60) + seq!['m']);
            }
        } else if d < 86400 {
            v = dec_chars(d / 3600);
            v.push('h');
            proof {
                assert(v@ =~= dec_string(d as int / 3600) + seq!['h']);
            }
        } else {
            v = dec_chars(d / 86400);
            v.push('d');
            proof {
                assert(v@ =~= dec_string(d as int / 86400) + seq!['d']);
            }
        }
        string_from_chars(&v)
    } else {
        let neg = time - now;
        let mut v: Vec<char> = Vec::new();
        v.push('-');
        push_dec_chars(neg, &mut v);
        v.push('s');
        proof {
            assert((now as int) - (time as int) < 60);
            assert(v@ =~= (seq!['-'] + dec_string(neg as int)) + seq!['s']);
        }
        string_from_chars(&v)
    }
}

/// One directory entry, as plain values: the name, the permission mode
/// bits, the hard-link count, the byte size, the modification time as
/// seconds since the epoch, and the entry's kind.
pub struct FileEntry {
    pub name: String,
    pub mode: u32,
    pub nlink: u64,
    pub size: u64,
    pub mtime: u64,
    pub is_dir: bool,
    pub is_symlink: bool,
}

/// The ten-character permission string: the kind, then read, write and
/// execute for owner, group and others.
pub open spec fn perms_rendering(mode: u32, is_dir: bool, is_symlink: bool) -> Seq<char> {
    seq![
        if is_dir {
            'd'
        } else if is_symlink {
            'l'
        } else {
            '-'
        },
        if mode & 0x100 != 0 {
            'r'
        } else {
            '-'
        },
        if mode & 0x80 != 0 {
            'w'
        } else {
            '-'
        },
        if mode & 0x40 != 0 {
            'x'
        } else {
            '-'
        },
        if mode & 0x20 != 0 {
            'r'
        } else {
            '-'
        },
        if mode & 0x10 != 0 {
            'w'
        } else {
            '-'
        },
        if mode & 0x8 != 0 {
            'x'
        } else {
            '-'
        },
        if mode & 0x4 != 0 {
            'r'
        } else {
            '-'
        },
        if mode & 0x2 != 0 {
            'w'
        } else {
            '-'
        },
        if mode & 0x1 != 0 {
            'x'
        } else {
            '-'
        },
    ]
}

/// The long-format line for an entry (without the name): permissions,
/// the link count right-aligned to four columns, the size to eight, and
/// the relative time.
pub open spec fn long_rendering(e: FileEntry, now: int) -> Seq<char> {
    perms_rendering(e.mode, e.is_dir, e.is_symlink) + seq![' '] + pad_left(
        dec_string(e.nlink as int),
        4,
    ) + seq![' '] + pad_left(size_rendering(e.size as int), 8) + seq![' '] + time_rendering(
        e.mtime as int,
        now,
    )
}

impl FileEntry {
    /// The ten-character permission string.
    pub fn format_permissions(&self) -> (r: String)
        ensures
            r@ == perms_rendering(self.mode, self.is_dir, self.is_symlink),
    {
        let mut v: Vec<char> = Vec::new();
        v.push(
            if self.is_dir {
                'd'
            } else if self.is_symlink {
                'l'
            } else {
                '-'
            },
        );
        v.push(if self.mode & 0x100 != 0 { 'r' } else { '-' });
        v.push(if self.mode & 0x80 != 0 { 'w' } else { '-' });
        v.push(if self.mode & 0x40 != 0 { 'x' } else { '-' });
        v.push(if self.mode & 0x20 != 0 { 'r' } else { '-' });
        v.push(if self.mode & 0x10 != 0 { 'w' } else { '-' });
        v.push(if self.mode & 0x8 != 0 { 'x' } else { '-' });
        v.push(if self.mode & 0x4 != 0 { 'r' } else { '-' });
        v.push(if self.mode & 0x2 != 0 { 'w' } else { '-' });
        v.push(if self.mode & 0x1 != 0 { 'x' } else { '-' });
        proof {
            assert(v@ =~= perms_rendering(self.mode, self.is_dir, self.is_symlink));
        }
        string_from_chars(&v)
    }

    /// The long-format line (without the name).
    pub fn format_long(&self, now: u64) -> (r: String)
        requires
            self.mtime <= i64::MAX,
            now <= i64::MAX,
        ensures
            r@ == long_rendering(*self, now as int),
    {
        let perms = self.format_permissions();
        let mut v = str_chars(perms.as_str());
        v.push(' ');
        let links = dec_chars(self.nlink);
        push_padded(&mut v, &links, 4);
        v.push(' ');
        let size_s = format_size(self.size);
        let size_v = str_chars(size_s.as_str());
        push_padded(&mut v, &size_v, 8);
        v.push(' ');
        let time_s = format_time(self.mtime, now);
        let mut time_v = str_chars(time_s.as_str());
        v.append(&mut time_v);
        proof {
            assert(v@ =~= long_rendering(*self, now as int));
        }
        string_from_chars(&v)
    }
}

/// The geometry of the grid listing.
pub struct GridPlan {
    pub col_width: usize,
    pub num_cols: usize,
    pub num_rows: usize,
}

/// The widest width in the list.
pub open spec fn max_width(ws: Seq<usize>) -> int
    decreases ws.len(),
{
    if ws.len() == 0 {
        0
    } else if ws.last() as int >= max_width(ws.drop_last()) {
        ws.last() as int
    } else {
        max_width(ws.drop_last())
    }
}

/// Lays the names out in columns: each column is two wider than the
/// longest name, as many columns as fit the terminal (at least one), and
/// as many rows as needed.  Entry `i` stands at column `i / num_rows`,
/// row `i % num_rows`.
pub fn grid_plan(name_widths: &Vec<usize>, term_width: usize) -> (r: GridPlan)
    requires
        name_widths@.len() > 0,
        max_width(name_widths@) + 2 <= usize::MAX,
    ensures
        r.col_width == max_width(name_widths@) + 2,
        r.num_cols == if term_width as int / (r.col_width as int) >= 1 {
            term_width as int / (r.col_width as int)
        } else {
            1
        },
        r.num_rows == name_widths@.len() as int / (r.num_cols as int) + (
        if name_widths@.len() as int % (r.num_cols as int) == 0 {
            0int
        } else {
            1int
        }),
        r.num_rows >= 1,
{
    let n = name_widths.len();
    let mut max: usize = 0;
    let mut i: usize = 0;
    proof {
        assert(name_widths@.subrange(0, 0) =~= Seq::<usize>::empty());
    }
    while i < n
        invariant
            n == name_widths@.len(),
            i <= n,
            max as int == max_width(name_widths@.subrange(0, i as int)),
            max_width(name_widths@) + 2 <= usize::MAX,
        decreases n - i,
    {
        proof {
            let pre = name_widths@.subrange(0, i + 1 as int);
            assert(pre.drop_last() =~= name_widths@.subrange(0, i as int));
            assert(pre.last() == name_widths@[i as int]);
        }
        if name_widths[i] > max {
            max = name_widths[i];
        }
        i = i + 1;
    }
    proof {
        assert(name_widths@.subrange(0, n as int) =~= name_widths@);
        lemma_max_width_bounds(name_widths@);
    }
    let col_width = max + 2;
    let cols_fit = term_width / col_width;
    let num_cols = if cols_fit >= 1 {
        cols_fit
    } else {
        1
    };
    let full_rows = n / num_cols;
    proof {
        let ni = n as int;
        let ci = num_cols as int;
        if ni % ci != 0 {
            if ci == 1 {
                assert(ni % 1 == 0) by (nonlinear_arith);
            }
            assert(ci >= 2);
            vstd::arithmetic::div_mod::lemma_div_decreases(ni, ci);
            assert(full_rows < n);
        }
    }
    let num_rows = if n % num_cols != 0 {
        full_rows + 1
    } else {
        full_rows
    };
    proof {
        let ni = n as int;
        let ci = num_cols as int;
        assert(num_rows >= 1) by {
            assert(ni >= 1);
            if num_rows == 0 {
                assert(ni / ci == 0 && ni % ci == 0);
                vstd::arithmetic::div_mod::lemma_fundamental_div_mod(ni, ci);
                assert(ni == 0) by (nonlinear_arith)
                    requires
                        ci >= 1,
                        ni / ci == 0,
                        ni % ci == 0,
                        ni == ci * (ni / ci) + ni % ci,
                ;
            }
        }
    }
    GridPlan { col_width, num_cols, num_rows }
}

/// The maximum is no smaller than zero.
proof fn lemma_max_width_bounds(ws: Seq<usize>)
    ensures
        max_width(ws) >= 0,
    decreases ws.len(),
{
    if ws.len() > 0 {
        lemma_max_width_bounds(ws.drop_last());
    }
}

} // verus!
