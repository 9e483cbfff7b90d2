//! Sizes on disk: adding them up, and showing them in a readable unit.
//!
//! A size is shown as the double-precision quotient of the number of bytes and
//! the unit, with a fixed number of decimals. The quotient is computed in
//! integers here: `half_even` is the rounding of both the conversion to double
//! precision, the division and the decimals.

use vstd::arithmetic::div_mod::lemma_fundamental_div_mod;
use vstd::prelude::*;

use crate::decimal::{decimal, decimal_text, digit_char};

verus! {

/// 2 to the power of 52: a double of at least this size has no fraction.
pub const TWO_52: u128 = 0x10_0000_0000_0000;

/// 2 to the power of 53: whole numbers below this are doubles as they are.
pub const TWO_53: u128 = 0x20_0000_0000_0000;

/// `num / den` rounded to the nearest whole number, ties to the even one.
pub open spec fn half_even(num: nat, den: nat) -> nat {
    let q = num / den;
    let r = num % den;
    if 2 * r < den || (2 * r == den && q % 2 == 0) {
        q
    } else {
        q + 1
    }
}

fn round_half_even(num: u128, den: u128) -> (r: u128)
    requires
        0 < den <= 0x1_0000_0000_0000_0000_0000_0000,
        num < u128::MAX,
    ensures
        r == half_even(num as nat, den as nat),
{
    let q: u128 = num / den;
    let rem: u128 = num % den;
    if 2 * rem < den || (2 * rem == den && q % 2 == 0) {
        q
    } else {
        assert(q <= num) by (nonlinear_arith)
            requires
                q == num / den,
                den > 0,
        ;
        q + 1
    }
}

/// The smallest power of two from `p` on that brings `n` below 2 to the power of
/// 53 when it is divided by it.
pub open spec fn down_scale(n: nat, p: nat) -> nat
    decreases n - p,
    when p >= 1
{
    if n < p * TWO_53 {
        p
    } else {
        down_scale(n, 2 * p)
    }
}

/// The double nearest to the whole number `n`.
pub open spec fn nearest_double(n: nat) -> nat {
    let p = down_scale(n, 1);
    half_even(n, p) * p
}

/// The smallest power of two from `p` on that brings `num / den` to at least 2 to
/// the power of 52 when it is multiplied by it.
pub open spec fn up_scale(num: nat, den: nat, p: nat) -> nat
    decreases
        (if num * p >= den * TWO_52 {
            0
        } else {
            den * TWO_52 - num * p
        }),
    when num >= 1 && p >= 1
    via up_scale_decreases
{
    if num * p >= den * TWO_52 {
        p
    } else {
        up_scale(num, den, 2 * p)
    }
}

#[via_fn]
proof fn up_scale_decreases(num: nat, den: nat, p: nat) {
    assert(num * (2 * p) > num * p) by (nonlinear_arith)
        requires
            num >= 1,
            p >= 1,
    ;
}

/// The double-precision quotient of `n` and `unit`, times `tens`, rounded to a
/// whole number. The double nearest to `n / unit` has 53 significant bits.
pub open spec fn quotient_digits(n: nat, unit: nat, tens: nat) -> nat {
    let v = nearest_double(n);
    let p = up_scale(v, unit, 1);
    half_even(half_even(v * p, unit) * tens, p)
}

// ── the double-precision quotient, executed ───────────────────────────────────

proof fn lemma_half_even_bound(num: nat, den: nat, bound: nat)
    requires
        den > 0,
        num < den * bound,
    ensures
        half_even(num, den) <= bound,
{
    assert(num / den < bound) by (nonlinear_arith)
        requires
            den > 0,
            num < den * bound,
    ;
}

/// The double nearest to the whole number `n`.
fn to_double(n: u64) -> (r: u128)
    ensures
        r == nearest_double(n as nat),
        r <= 0x1_0000_0000_0000_0000,
        n >= 1 ==> r >= 1,
        n < TWO_53 ==> r == n,
{
    let wide: u128 = n as u128;
    let mut p: u128 = 1;
    while wide >= p * TWO_53
        invariant
            wide == n,
            1 <= p <= 0x800,
            down_scale(n as nat, p as nat) == down_scale(n as nat, 1),
            p > 1 ==> wide >= TWO_53,
            p == 1 || p == 2 || p == 4 || p == 8 || p == 16 || p == 32 || p == 64 || p == 128 || p
                == 256 || p == 512 || p == 1024 || p == 2048,
        decreases n - p,
    {
        p = 2 * p;
    }
    let m: u128 = round_half_even(wide, p);
    proof {
        lemma_half_even_bound(wide as nat, p as nat, TWO_53 as nat);
        assert(m * p <= TWO_53 * p) by (nonlinear_arith)
            requires
                m <= TWO_53,
                p >= 1,
        ;
        if p > 1 {
            assert(m >= 1);
            assert(m * p >= 1) by (nonlinear_arith)
                requires
                    m >= 1,
                    p >= 1,
            ;
        } else {
            assert(wide / 1 == wide && wide % 1 == 0);
        }
    }
    m * p
}

/// The double-precision quotient of `n` and `unit`, times `tens`, rounded to a
/// whole number.
fn rounded_quotient(n: u64, unit: u64, tens: u64) -> (r: u64)
    requires
        n >= 1,
        1000 <= unit <= 0x4000_0000,
        n < TWO_53 || unit >= 1_000_000,
        1 <= tens <= 100,
    ensures
        r == quotient_digits(n as nat, unit as nat, tens as nat),
{
    let v: u128 = to_double(n);
    let den: u128 = unit as u128;
    let mut p: u128 = 1;
    let mut scaled: u128 = v;
    while scaled < den * TWO_52
        invariant
            v >= 1,
            den == unit,
            1000 <= den <= 0x4000_0000,
            1 <= p <= scaled,
            scaled == v * p,
            scaled < den * TWO_53,
            up_scale(v as nat, unit as nat, p as nat) == up_scale(v as nat, unit as nat, 1),
        decreases den * TWO_53 - scaled,
    {
        assert(v * (2 * p) == 2 * (v * p)) by (nonlinear_arith);
        scaled = 2 * scaled;
        p = 2 * p;
    }
    let m: u128 = round_half_even(scaled, den);
    proof {
        lemma_half_even_bound(scaled as nat, den as nat, TWO_53 as nat);
    }
    let t: u128 = tens as u128;
    assert(m * t <= TWO_53 * 100) by (nonlinear_arith)
        requires
            m <= TWO_53,
            t <= 100,
    ;
    let digits: u128 = round_half_even(m * t, p);
    proof {
        let num = m * t;
        assert(num / (p as int) <= num) by (nonlinear_arith)
            requires
                num >= 0,
                p >= 1,
        ;
    }
    digits as u64
}

// ── rendering ─────────────────────────────────────────────────────────────────

/// A number of tenths with one decimal.
pub open spec fn tenths_shown(x: nat) -> Seq<char> {
    decimal(x / 10) + "."@ + seq![digit_char(x % 10)]
}

/// A number of hundredths with two decimals.
pub open spec fn hundredths_shown(x: nat) -> Seq<char> {
    decimal(x / 100) + "."@ + seq![digit_char(x / 10 % 10), digit_char(x % 10)]
}

/// The size of a download as text: in millions or thousands of bytes with one
/// decimal, or in bytes.
pub open spec fn bytes_shown(n: nat) -> Seq<char> {
    if n >= 1_000_000 {
        tenths_shown(quotient_digits(n, 1_000_000, 10)) + " MB"@
    } else if n >= 1_000 {
        tenths_shown(quotient_digits(n, 1_000, 10)) + " KB"@
    } else {
        decimal(n) + " B"@
    }
}

/// A size on disk as text: in units of powers of 1024 with two decimals, or in
/// bytes.
pub open spec fn size_shown(bytes: nat) -> Seq<char> {
    if bytes >= 0x4000_0000 {
        hundredths_shown(quotient_digits(bytes, 0x4000_0000, 100)) + " GB"@
    } else if bytes >= 0x10_0000 {
        hundredths_shown(quotient_digits(bytes, 0x10_0000, 100)) + " MB"@
    } else if bytes >= 1024 {
        hundredths_shown(quotient_digits(bytes, 1024, 100)) + " KB"@
    } else {
        decimal(bytes) + " bytes"@
    }
}

fn digit(d: u64) -> (r: char)
    requires
        d < 10,
    ensures
        r == digit_char(d as nat),
{
    (48u8 + d as u8) as char
}

fn show_tenths(x: u64) -> (r: String)
    ensures
        r@ == tenths_shown(x as nat),
{
    let mut out = decimal_text(x / 10);
    out.append(".");
    out.push(digit(x % 10));
    out
}

fn show_hundredths(x: u64) -> (r: String)
    ensures
        r@ == hundredths_shown(x as nat),
{
    let mut out = decimal_text(x / 100);
    out.append(".");
    out.push(digit(x / 10 % 10));
    out.push(digit(x % 10));
    out
}

/// The size of a download as text.
pub fn format_bytes(n: u64) -> (r: String)
    ensures
        r@ == bytes_shown(n as nat),
{
    if n >= 1_000_000 {
        let mut out = show_tenths(rounded_quotient(n, 1_000_000, 10));
        out.append(" MB");
        out
    } else if n >= 1_000 {
        let mut out = show_tenths(rounded_quotient(n, 1_000, 10));
        out.append(" KB");
        out
    } else {
        let mut out = decimal_text(n);
        out.append(" B");
        out
    }
}

/// A size on disk as text.
pub fn format_size(bytes: u64) -> (r: String)
    ensures
        r@ == size_shown(bytes as nat),
{
    if bytes >= 0x4000_0000 {
        let mut out = show_hundredths(rounded_quotient(bytes, 0x4000_0000, 100));
        out.append(" GB");
        out
    } else if bytes >= 0x10_0000 {
        let mut out = show_hundredths(rounded_quotient(bytes, 0x10_0000, 100));
        out.append(" MB");
        out
    } else if bytes >= 1024 {
        let mut out = show_hundredths(rounded_quotient(bytes, 1024, 100));
        out.append(" KB");
        out
    } else {
        let mut out = decimal_text(bytes);
        out.append(" bytes");
        out
    }
}

// ── adding up ─────────────────────────────────────────────────────────────────

/// What lies at a path: a regular file with its length, a directory with what lies
/// in it, or anything else, such as a symbolic link, with the length that it has
/// itself.
pub enum DirTree {
    File(u64),
    Dir(Vec<DirTree>),
    Other(u64),
}

/// Which entries of a tree count for its size.
#[derive(Debug, Clone, Copy, PartialEq, Eq, Structural)]
pub enum Counted {
    /// Regular files alone.
    RegularFiles,
    /// Everything that is no directory.
    AllEntries,
}

impl DirTree {
    /// The sum of the lengths of the entries in the tree that count.
    pub open spec fn sum(self, counted: Counted) -> nat
        decreases self,
    {
        match self {
            DirTree::File(len) => len as nat,
            DirTree::Dir(entries) => DirTree::sum_of(entries@, counted),
            DirTree::Other(len) => match counted {
                Counted::RegularFiles => 0,
                Counted::AllEntries => len as nat,
            },
        }
    }

    /// The sum of the lengths of the entries in some trees that count.
    pub open spec fn sum_of(entries: Seq<DirTree>, counted: Counted) -> nat
        decreases entries,
    {
        if entries.len() == 0 {
            0
        } else {
            entries[0].sum(counted) + DirTree::sum_of(
                entries.subrange(1, entries.len() as int),
                counted,
            )
        }
    }

    /// The sum of the lengths of all regular files in the tree.
    pub open spec fn total(self) -> nat {
        self.sum(Counted::RegularFiles)
    }
}

/// Recursively sum the size of every entry under a path that counts, given what lies
/// there; `None` where the sum does not fit.
pub fn sum_sizes(tree: &DirTree, counted: Counted) -> (r: Option<u64>)
    ensures
        match r {
            Some(size) => size == tree.sum(counted),
            None => tree.sum(counted) > u64::MAX,
        },
    decreases tree,
{
    match tree {
        DirTree::File(len) => Some(*len),
        DirTree::Other(len) => match counted {
            Counted::RegularFiles => Some(0),
            Counted::AllEntries => Some(*len),
        },
        DirTree::Dir(entries) => {
            let n: usize = entries.len();
            let mut total: u64 = 0;
            let mut i: usize = 0;
            assert(entries@.subrange(0, n as int) == entries@);
            while i < n
                invariant
                    n == entries@.len(),
                    i <= n,
                    *tree == DirTree::Dir(*entries),
                    total + DirTree::sum_of(entries@.subrange(i as int, n as int), counted)
                        == tree.sum(counted),
                decreases n - i,
            {
                proof {
                    let rest = entries@.subrange(i as int, n as int);
                    assert(rest[0] == entries@[i as int]);
                    assert(rest.subrange(1, rest.len() as int) == entries@.subrange(
                        i as int + 1,
                        n as int,
                    ));
                }
                match sum_sizes(&entries[i], counted) {
                    Some(size) => match total.checked_add(size) {
                        Some(sum) => {
                            total = sum;
                        },
                        None => {
                            return None;
                        },
                    },
                    None => {
                        return None;
                    },
                }
                i = i + 1;
            }
            Some(total)
        },
    }
}

/// Recursively sum the size of every regular file under a path, given what lies
/// there; `None` where the sum does not fit.
pub fn get_dir_size(tree: &DirTree) -> (r: Option<u64>)
    ensures
        match r {
            Some(size) => size == tree.total(),
            None => tree.total() > u64::MAX,
        },
{
    sum_sizes(tree, Counted::RegularFiles)
}

/// The size of a tree as it is shown; `unknown` where the tree could not be read, or
/// its size is more than 64 bits can count.
pub open spec fn tree_size_shown(tree: Option<DirTree>, counted: Counted) -> Seq<char> {
    match tree {
        Some(t) => if t.sum(counted) <= u64::MAX {
            size_shown(t.sum(counted))
        } else {
            "unknown"@
        },
        None => "unknown"@,
    }
}

/// The size of a tree as it is shown.
pub fn show_tree_size(tree: &Option<DirTree>, counted: Counted) -> (r: String)
    ensures
        r@ == tree_size_shown(*tree, counted),
{
    let size: Option<u64> = match tree {
        Some(t) => match counted {
            Counted::RegularFiles => get_dir_size(t),
            Counted::AllEntries => sum_sizes(t, counted),
        },
        None => None,
    };
    match size {
        Some(n) => format_size(n),
        None => "unknown".to_owned(),
    }
}

// ── how exact the sizes are ───────────────────────────────────────────────────

/// Rounding goes to the nearest whole number: it is off by at most a half, and where it
/// is off by a half the result is even.
pub proof fn law_half_even_is_nearest(num: nat, den: nat)
    requires
        den > 0,
    ensures
        -(den as int) <= 2 * (half_even(num, den) * den - num) <= den,
        (2 * (half_even(num, den) * den - num) == den || 2 * (num - half_even(num, den) * den)
            == den) ==> half_even(num, den) % 2 == 0,
{
    let q = num / den;
    let r = num % den;
    lemma_fundamental_div_mod(num as int, den as int);
    assert(num == q * den + r) by (nonlinear_arith)
        requires
            num as int == den as int * (num as int / den as int) + num as int % den as int,
            q == num / den,
            r == num % den,
    ;
    assert(0 <= r < den) by (nonlinear_arith)
        requires
            r == num % den,
            den > 0,
    ;
    assert((q + 1) * den == q * den + den) by (nonlinear_arith);
}

proof fn lemma_down_scale(n: nat, p: nat)
    requires
        p >= 1,
        p == 1 || 2 * n >= p * TWO_53,
    ensures
        down_scale(n, p) >= 1,
        n < down_scale(n, p) * TWO_53,
        down_scale(n, p) == 1 || 2 * n >= down_scale(n, p) * TWO_53,
    decreases n - p,
{
    if n >= p * TWO_53 {
        lemma_down_scale(n, 2 * p);
    }
}

/// Whole numbers below 2 to the power of 53 are doubles as they are, and others are off
/// from their double by no more than one part in 2 to the power of 53.
pub proof fn law_nearest_double(n: nat)
    ensures
        n < TWO_53 ==> nearest_double(n) == n,
        -(n as int) <= TWO_53 * (nearest_double(n) - n) <= n,
{
    let p = down_scale(n, 1);
    lemma_down_scale(n, 1);
    law_half_even_is_nearest(n, p);
    let v = nearest_double(n);
    if p == 1 {
        assert(n / 1 == n && n % 1 == 0);
        assert(v == n);
    } else {
        assert(v == half_even(n, p) * p);
        assert(-(p as int) <= 2 * (v - n) <= p);
        assert(2 * (TWO_53 * (v - n)) == TWO_53 * (2 * (v - n))) by (nonlinear_arith);
        assert(TWO_53 * (2 * (v - n)) <= TWO_53 * p) by (nonlinear_arith)
            requires
                2 * (v - n) <= p,
        ;
        assert(TWO_53 * (2 * (v - n)) >= -(TWO_53 * p)) by (nonlinear_arith)
            requires
                2 * (v - n) >= -(p as int),
        ;
    }
}

proof fn lemma_up_scale(num: nat, den: nat, p: nat)
    requires
        num >= 1,
        p >= 1,
    ensures
        up_scale(num, den, p) >= 1,
        num * up_scale(num, den, p) >= den * TWO_52,
    decreases
            (if num * p >= den * TWO_52 {
                0
            } else {
                den * TWO_52 - num * p
            }),
{
    if num * p < den * TWO_52 {
        assert(num * (2 * p) > num * p) by (nonlinear_arith)
            requires
                num >= 1,
                p >= 1,
        ;
        lemma_up_scale(num, den, 2 * p);
    }
}

/// The digits shown are those of the quotient rounded to the nearest: the last one is off
/// by a half and a little more, which is what double precision loses.
pub proof fn law_quotient_digits(n: nat, unit: nat, tens: nat)
    requires
        1 <= n <= u64::MAX,
        1 <= tens <= 100,
        (n < TWO_53 && unit >= 1000) || unit >= 100_000 * tens,
    ensures
        -3 * (unit as int) <= 5 * (quotient_digits(n, unit, tens) * unit - n * tens) <= 3 * unit,
{
    law_nearest_double(n);
    let v = nearest_double(n);
    let off = v - n;
    assert(-2048 <= off <= 2048) by (nonlinear_arith)
        requires
            -(n as int) <= TWO_53 * off <= n,
            n <= u64::MAX,
            TWO_53 == 0x20_0000_0000_0000,
    ;
    assert(v >= 1) by (nonlinear_arith)
        requires
            n >= 1,
            v >= 0,
            off == v - n,
            -(n as int) <= TWO_53 * off,
            TWO_53 == 0x20_0000_0000_0000,
    ;
    let p = up_scale(v, unit, 1);
    lemma_up_scale(v, unit, 1);
    let m = half_even(v * p, unit);
    law_half_even_is_nearest(v * p, unit);
    let d = half_even(m * tens, p);
    law_half_even_is_nearest(m * tens, p);
    assert(d == quotient_digits(n, unit, tens));
    let x = d * unit - v * tens;
    let e1 = m * unit - v * p;
    let e2 = d * p - m * tens;
    assert(p * x == unit * e2 + tens * e1) by (nonlinear_arith)
        requires
            x == d * unit - v * tens,
            e1 == m * unit - v * p,
            e2 == d * p - m * tens,
    ;
    assert(2 * (unit * e2) <= unit * p && 2 * (unit * e2) >= -(unit * p)) by (nonlinear_arith)
        requires
            -(p as int) <= 2 * e2 <= p,
            unit >= 1000,
    ;
    assert(2 * (tens * e1) <= tens * unit && 2 * (tens * e1) >= -(tens * unit))
        by (nonlinear_arith)
        requires
            -(unit as int) <= 2 * e1 <= unit,
            tens >= 1,
    ;
    let y = d * unit - n * tens;
    assert(y == x + tens * off) by (nonlinear_arith)
        requires
            y == d * unit - n * tens,
            x == d * unit - v * tens,
            off == v - n,
    ;
    if n < TWO_53 {
        assert(p >= 500) by (nonlinear_arith)
            requires
                v * p >= unit * TWO_52,
                1 <= v < TWO_53,
                unit >= 1000,
                TWO_53 == 2 * TWO_52,
                TWO_52 > 0,
        ;
        assert(off == 0);
        assert(tens * off == 0);
        assert(5 * (tens * unit) <= unit * p) by (nonlinear_arith)
            requires
                tens <= 100,
                p >= 500,
                unit >= 1000,
        ;
        assert(10 * (p * x) <= 6 * (unit * p) && 10 * (p * x) >= -(6 * (unit * p)));
        assert(5 * x <= 3 * unit && 5 * x >= -3 * (unit as int)) by (nonlinear_arith)
            requires
                10 * (p * x) <= 6 * (unit * p),
                10 * (p * x) >= -(6 * (unit * p)),
                p >= 500,
        ;
    } else {
        assert(v <= 4097 * TWO_52) by (nonlinear_arith)
            requires
                v == n + off,
                off <= 2048,
                n <= u64::MAX,
                TWO_52 == 0x10_0000_0000_0000,
        ;
        assert(4097 * p >= unit) by (nonlinear_arith)
            requires
                v * p >= unit * TWO_52,
                1 <= v <= 4097 * TWO_52,
                TWO_52 == 0x10_0000_0000_0000,
                p >= 1,
        ;
        assert(20 * tens <= p) by (nonlinear_arith)
            requires
                4097 * p >= unit,
                unit >= 100_000 * tens,
                tens >= 1,
        ;
        assert(20 * (tens * unit) <= unit * p) by (nonlinear_arith)
            requires
                20 * tens <= p,
                unit >= 1000,
        ;
        assert(40 * (p * x) <= 21 * (unit * p) && 40 * (p * x) >= -(21 * (unit * p)));
        assert(40 * x <= 21 * unit && 40 * x >= -21 * (unit as int)) by (nonlinear_arith)
            requires
                40 * (p * x) <= 21 * (unit * p),
                40 * (p * x) >= -(21 * (unit * p)),
                p >= 1,
        ;
        assert(40 * (tens * off) <= unit && 40 * (tens * off) >= -(unit as int))
            by (nonlinear_arith)
            requires
                -2048 <= off <= 2048,
                unit >= 100_000 * tens,
                tens >= 1,
        ;
    }
}

/// A number of tenths or hundredths is shown with its whole part in front of the point
/// and each further digit behind it.
pub proof fn law_decimals(a: nat, b: nat, c: nat)
    requires
        b < 10,
        c < 10,
    ensures
        tenths_shown(10 * a + b) == decimal(a) + "."@ + decimal(b),
        hundredths_shown(100 * a + 10 * b + c) == decimal(a) + "."@ + decimal(b) + decimal(c),
{
    assert((10 * a + b) / 10 == a && (10 * a + b) % 10 == b);
    let x = 100 * a + 10 * b + c;
    assert(x / 100 == a && x / 10 % 10 == b && x % 10 == c);
    assert(decimal(b) == seq![digit_char(b)] && decimal(c) == seq![digit_char(c)]);
    assert(seq![digit_char(b)] + seq![digit_char(c)] == seq![digit_char(b), digit_char(c)]);
    assert(hundredths_shown(x) == decimal(a) + "."@ + (decimal(b) + decimal(c)));
    assert(decimal(a) + "."@ + (decimal(b) + decimal(c)) == decimal(a) + "."@ + decimal(b)
        + decimal(c));
}

/// Whether some digits are the quotient of `n` and `unit`, times `tens`, to the nearest.
pub open spec fn close(digits: nat, n: nat, unit: nat, tens: nat) -> bool {
    -3 * (unit as int) <= 5 * (digits * unit - n * tens) <= 3 * unit
}

/// A download is shown in the largest of megabytes, kilobytes and bytes that it reaches,
/// and the number is its size in that unit.
pub proof fn law_bytes_shown(n: nat)
    requires
        n <= u64::MAX,
    ensures
        n < 1000 ==> bytes_shown(n) == decimal(n) + " B"@,
        1000 <= n < 1000 * 1000 ==> exists|d: nat|
            bytes_shown(n) == #[trigger] tenths_shown(d) + " KB"@ && close(d, n, 1000, 10),
        1000 * 1000 <= n ==> exists|d: nat|
            bytes_shown(n) == #[trigger] tenths_shown(d) + " MB"@ && close(d, n, 1000 * 1000, 10),
{
    if 1000 <= n < 1000 * 1000 {
        law_quotient_digits(n, 1000, 10);
        let d = quotient_digits(n, 1000, 10);
        assert(bytes_shown(n) == tenths_shown(d) + " KB"@ && close(d, n, 1000, 10));
    }
    if 1000 * 1000 <= n {
        law_quotient_digits(n, 1_000_000, 10);
        let d = quotient_digits(n, 1_000_000, 10);
        assert(bytes_shown(n) == tenths_shown(d) + " MB"@ && close(d, n, 1000 * 1000, 10));
    }
}

/// A size on disk is shown in the largest of gigabytes, megabytes, kilobytes and bytes
/// that it reaches, each 1024 of the next, and the number is its size in that unit.
pub proof fn law_size_shown(n: nat)
    requires
        n <= u64::MAX,
    ensures
        n < 1024 ==> size_shown(n) == decimal(n) + " bytes"@,
        1024 <= n < 1024 * 1024 ==> exists|d: nat|
            size_shown(n) == #[trigger] hundredths_shown(d) + " KB"@ && close(d, n, 1024, 100),
        1024 * 1024 <= n < 1024 * 1024 * 1024 ==> exists|d: nat|
            size_shown(n) == #[trigger] hundredths_shown(d) + " MB"@ && close(
                d,
                n,
                1024 * 1024,
                100,
            ),
        1024 * 1024 * 1024 <= n ==> exists|d: nat|
            size_shown(n) == #[trigger] hundredths_shown(d) + " GB"@ && close(
                d,
                n,
                1024 * 1024 * 1024,
                100,
            ),
{
    if 1024 <= n < 1024 * 1024 {
        law_quotient_digits(n, 1024, 100);
        let d = quotient_digits(n, 1024, 100);
        assert(size_shown(n) == hundredths_shown(d) + " KB"@ && close(d, n, 1024, 100));
    }
    if 1024 * 1024 <= n < 1024 * 1024 * 1024 {
        law_quotient_digits(n, 0x10_0000, 100);
        let d = quotient_digits(n, 0x10_0000, 100);
        assert(size_shown(n) == hundredths_shown(d) + " MB"@ && close(d, n, 1024 * 1024, 100));
    }
    if 1024 * 1024 * 1024 <= n {
        law_quotient_digits(n, 0x4000_0000, 100);
        let d = quotient_digits(n, 0x4000_0000, 100);
        assert(size_shown(n) == hundredths_shown(d) + " GB"@ && close(
            d,
            n,
            1024 * 1024 * 1024,
            100,
        ));
    }
}

/// Sizes add up: every entry of a directory counts, wherever it stands in it and however
/// deep. A file counts with its length; what is neither a file nor a directory counts only
/// where all entries do.
pub proof fn law_sizes_add_up(
    a: Seq<DirTree>,
    one: DirTree,
    b: Seq<DirTree>,
    dir: Vec<DirTree>,
    len: u64,
    counted: Counted,
)
    ensures
        DirTree::sum_of(a + seq![one] + b, counted) == DirTree::sum_of(a, counted) + one.sum(
            counted,
        ) + DirTree::sum_of(b, counted),
        DirTree::sum_of(seq![], counted) == 0,
        DirTree::Dir(dir).sum(counted) == DirTree::sum_of(dir@, counted),
        DirTree::File(len).sum(counted) == len,
        DirTree::Other(len).sum(Counted::AllEntries) == len,
        DirTree::Other(len).sum(Counted::RegularFiles) == 0,
    decreases a.len(),
{
    let all = a + seq![one] + b;
    if a.len() == 0 {
        assert(all[0] == one);
        assert(all.subrange(1, all.len() as int) == b);
    } else {
        let rest = a.subrange(1, a.len() as int);
        law_sizes_add_up(rest, one, b, dir, len, counted);
        assert(all[0] == a[0]);
        assert(all.subrange(1, all.len() as int) == rest + seq![one] + b);
    }
}

/// A tree that could be read is shown with its size, wherever 64 bits can count it.
pub proof fn law_tree_size_shown(tree: DirTree, counted: Counted)
    ensures
        tree.sum(counted) <= u64::MAX ==> tree_size_shown(Some(tree), counted) == size_shown(
            tree.sum(counted),
        ),
        tree.sum(counted) > u64::MAX ==> tree_size_shown(Some(tree), counted) == "unknown"@,
        tree_size_shown(None, counted) == "unknown"@,
        tree.total() == tree.sum(Counted::RegularFiles),
{
}

} // verus!
