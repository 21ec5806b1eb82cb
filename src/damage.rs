//! Damage sequences and the grammar of a damage-expression cell.
//!
//! A cell is blank, or one or more decimal numbers joined by `+`
//! (`"302.5 + 605"`). Each number counts by its whole part; a piece that is
//! not a number counts as `0`.

use vstd::prelude::*;

use crate::multiplier::{scale_sequence, scaled_sequence, Multiplier, PoiseDamage};
use crate::text::{chars_of, decimal_text, push_decimal};
use vstd::string::*;

verus! {

/// The poise damage of each hit of an attack, in the order the hits land.
/// Empty when the weapon lists no damage for the attack.
#[derive(Debug, Default, Clone, PartialEq, Eq)]
pub struct PoiseDamageValues(pub Vec<PoiseDamage>);

impl PoiseDamageValues {
    /// An empty sequence.
    pub fn empty() -> (r: PoiseDamageValues)
        ensures
            r.0@ == Seq::<PoiseDamage>::empty(),
    {
        PoiseDamageValues(Vec::new())
    }

    /// The sequence that a cell of the dataset describes.
    pub fn from_cell(s: &str) -> (r: PoiseDamageValues)
        ensures
            r.0@ == damage_numbers(s@),
    {
        PoiseDamageValues(poise_string_to_numbers(s))
    }

    /// A copy holding the same figures.
    pub fn duplicate(&self) -> (r: PoiseDamageValues)
        ensures
            r.0@ == self.0@,
    {
        PoiseDamageValues(self.0.clone())
    }

    /// The figures written out and joined by ` + ` (`40 + 20`); empty for
    /// an empty sequence.
    pub fn to_text(&self) -> (r: String)
        ensures
            r@ == values_text(self.0@),
    {
        let mut out = String::new();
        let mut i: usize = 0;
        assert(self.0@.take(0) =~= Seq::<PoiseDamage>::empty());
        while i < self.0.len()
            invariant
                i <= self.0@.len(),
                out@ == values_text(self.0@.take(i as int)),
            decreases self.0.len() - i,
        {
            let ghost before = out@;
            assert(self.0@.take(i + 1 as int).drop_last() =~= self.0@.take(i as int));
            if i > 0 {
                out.append(" + ");
            }
            push_decimal(&mut out, self.0[i]);
            assert(out@ =~= values_text(self.0@.take(i + 1 as int)));
            i = i + 1;
        }
        assert(self.0@.take(self.0@.len() as int) =~= self.0@);
        out
    }

    /// A new sequence, each figure rescaled by `m`.
    pub fn scaled(&self, m: Multiplier) -> (r: PoiseDamageValues)
        ensures
            r.0@ == scaled_sequence(self.0@, m),
    {
        PoiseDamageValues(scale_sequence(&self.0, m))
    }
}

impl From<Vec<PoiseDamage>> for PoiseDamageValues {
    fn from(v: Vec<PoiseDamage>) -> (r: PoiseDamageValues) {
        PoiseDamageValues(v)
    }
}

impl vstd::std_specs::convert::FromSpecImpl<Vec<PoiseDamage>> for PoiseDamageValues {
    open spec fn obeys_from_spec() -> bool {
        true
    }

    open spec fn from_spec(v: Vec<PoiseDamage>) -> PoiseDamageValues {
        PoiseDamageValues(v)
    }
}

/// The figures of `s` written in decimal and joined by ` + `.
pub open spec fn values_text(s: Seq<PoiseDamage>) -> Seq<char>
    decreases s.len(),
{
    if s.len() == 0 {
        Seq::empty()
    } else if s.len() == 1 {
        decimal_text(s[0] as nat)
    } else {
        values_text(s.drop_last()) + " + "@ + decimal_text(s.last() as nat)
    }
}

/// The characters that Unicode calls white space, which `str::trim` removes.
pub open spec fn is_blank(c: char) -> bool {
    let x = c as u32;
    x == 0x20 || (0x09 <= x <= 0x0d) || x == 0x85 || x == 0xa0 || x == 0x1680 || (0x2000 <= x
        <= 0x200a) || x == 0x2028 || x == 0x2029 || x == 0x202f || x == 0x205f || x == 0x3000
}

/// `s` without its leading white space.
pub open spec fn trim_start(s: Seq<char>) -> Seq<char>
    decreases s.len(),
{
    if s.len() > 0 && is_blank(s[0]) {
        trim_start(s.drop_first())
    } else {
        s
    }
}

/// `s` without its trailing white space.
pub open spec fn trim_end(s: Seq<char>) -> Seq<char>
    decreases s.len(),
{
    if s.len() > 0 && is_blank(s.last()) {
        trim_end(s.drop_last())
    } else {
        s
    }
}

/// `s` without white space at either end.
pub open spec fn trimmed(s: Seq<char>) -> Seq<char> {
    trim_end(trim_start(s))
}

/// The pieces of `s` between `+` signs, in order; a text with no `+` is one piece.
pub open spec fn pieces(s: Seq<char>) -> Seq<Seq<char>>
    decreases s.len(),
{
    if s.len() == 0 {
        seq![Seq::<char>::empty()]
    } else if s.last() == '+' {
        pieces(s.drop_last()).push(Seq::<char>::empty())
    } else {
        let p = pieces(s.drop_last());
        p.update(p.len() - 1, p.last().push(s.last()))
    }
}

/// An ASCII decimal digit.
pub open spec fn is_digit(c: char) -> bool {
    0x30 <= c as u32 <= 0x39
}

/// A decimal number: digits and at most one `.`, with at least one digit
/// (`"10"`, `"302.5"`, `"5."`, `".5"`).
pub open spec fn is_decimal(t: Seq<char>) -> bool {
    &&& forall|i: int| 0 <= i < t.len() ==> is_digit(#[trigger] t[i]) || t[i] == '.'
    &&& forall|i: int, j: int| 0 <= i < j < t.len() ==> !(#[trigger] t[i] == '.' && #[trigger] t[j] == '.')
    &&& exists|i: int| 0 <= i < t.len() && is_digit(#[trigger] t[i])
}

/// The digits at the front of `t`.
pub open spec fn leading_digits(t: Seq<char>) -> Seq<char>
    decreases t.len(),
{
    if t.len() > 0 && is_digit(t[0]) {
        seq![t[0]] + leading_digits(t.drop_first())
    } else {
        Seq::<char>::empty()
    }
}

/// The number that a string of decimal digits writes.
pub open spec fn digits_value(d: Seq<char>) -> int
    decreases d.len(),
{
    if d.len() == 0 {
        0
    } else {
        digits_value(d.drop_last()) * 10 + (d.last() as u32 - 0x30)
    }
}

/// `v`, held to the largest damage figure.
pub open spec fn capped(v: int) -> int {
    if v > u16::MAX as int {
        u16::MAX as int
    } else {
        v
    }
}

/// What one piece of a cell counts for: the whole part of the number it
/// holds once trimmed, held to the largest figure, or `0` if it holds none.
pub open spec fn piece_value(p: Seq<char>) -> PoiseDamage {
    let t = trimmed(p);
    if is_decimal(t) {
        capped(digits_value(leading_digits(t))) as PoiseDamage
    } else {
        0
    }
}

/// The damage sequence that a cell describes: empty for a blank cell, else
/// one figure for each piece between `+` signs.
pub open spec fn damage_numbers(s: Seq<char>) -> Seq<PoiseDamage> {
    if trimmed(s).len() == 0 {
        Seq::empty()
    } else {
        pieces(s).map_values(|p: Seq<char>| piece_value(p))
    }
}

proof fn lemma_pieces_nonempty(s: Seq<char>)
    ensures
        pieces(s).len() >= 1,
    decreases s.len(),
{
    if s.len() > 0 {
        lemma_pieces_nonempty(s.drop_last());
    }
}

proof fn lemma_leading_digits_split(t: Seq<char>, j: int)
    requires
        0 <= j <= t.len(),
        forall|i: int| 0 <= i < j ==> is_digit(#[trigger] t[i]),
    ensures
        leading_digits(t) == t.subrange(0, j) + leading_digits(t.skip(j)),
    decreases j,
{
    if j == 0 {
        assert(t.skip(0) =~= t);
        assert(t.subrange(0, 0) + leading_digits(t) =~= leading_digits(t));
    } else {
        let u = t.drop_first();
        assert forall|i: int| 0 <= i < j - 1 implies is_digit(#[trigger] u[i]) by {
            assert(u[i] == t[i + 1]);
        }
        lemma_leading_digits_split(u, j - 1);
        assert(u.skip(j - 1) =~= t.skip(j));
        assert(t.subrange(0, j) =~= seq![t[0]] + u.subrange(0, j - 1));
        assert(seq![t[0]] + (u.subrange(0, j - 1) + leading_digits(u.skip(j - 1))) =~= (seq![t[0]]
            + u.subrange(0, j - 1)) + leading_digits(u.skip(j - 1)));
    }
}

proof fn lemma_capped_step(v: int, x: int)
    requires
        v >= 0,
        0 <= x <= 9,
    ensures
        capped(capped(v) * 10 + x) == capped(v * 10 + x),
{
    if v > 0xffff {
        assert(v * 10 + x > 0xffff) by (nonlinear_arith)
            requires
                v > 0xffff,
                x >= 0,
        ;
    }
}

proof fn lemma_digits_value_nonneg(d: Seq<char>)
    requires
        forall|i: int| 0 <= i < d.len() ==> is_digit(#[trigger] d[i]),
    ensures
        digits_value(d) >= 0,
    decreases d.len(),
{
    if d.len() > 0 {
        lemma_digits_value_nonneg(d.drop_last());
        assert(is_digit(d[d.len() - 1]));
    }
}

/// `v[lo..hi]`.
fn slice_of(v: &Vec<char>, lo: usize, hi: usize) -> (r: Vec<char>)
    requires
        lo <= hi <= v.len(),
    ensures
        r@ == v@.subrange(lo as int, hi as int),
{
    let mut r: Vec<char> = Vec::new();
    let mut i: usize = lo;
    while i < hi
        invariant
            lo <= i <= hi <= v.len(),
            r@ == v@.subrange(lo as int, i as int),
        decreases hi - i,
    {
        r.push(v[i]);
        i = i + 1;
        assert(r@ =~= v@.subrange(lo as int, i as int));
    }
    r
}

/// Whether `c` is white space.
fn blank(c: char) -> (r: bool)
    ensures
        r == is_blank(c),
{
    let x = c as u32;
    x == 0x20 || (0x09 <= x && x <= 0x0d) || x == 0x85 || x == 0xa0 || x == 0x1680 || (0x2000
        <= x && x <= 0x200a) || x == 0x2028 || x == 0x2029 || x == 0x202f || x == 0x205f || x
        == 0x3000
}

/// `v` without white space at either end.
fn trim_chars(v: &Vec<char>) -> (r: Vec<char>)
    ensures
        r@ == trimmed(v@),
{
    let n = v.len();
    let mut lo: usize = 0;
    assert(v@.skip(0) =~= v@);
    while lo < n && blank(v[lo])
        invariant
            n == v.len(),
            lo <= n,
            trim_start(v@) == trim_start(v@.skip(lo as int)),
        decreases n - lo,
    {
        assert(v@.skip(lo as int).drop_first() =~= v@.skip(lo + 1 as int));
        lo = lo + 1;
    }
    assert(trim_start(v@) == v@.subrange(lo as int, n as int));
    let mut hi: usize = n;
    while hi > lo && blank(v[hi - 1])
        invariant
            n == v.len(),
            lo <= hi <= n,
            trimmed(v@) == trim_end(v@.subrange(lo as int, hi as int)),
        decreases hi,
    {
        assert(v@.subrange(lo as int, hi as int).drop_last() =~= v@.subrange(
            lo as int,
            hi - 1 as int,
        ));
        hi = hi - 1;
    }
    slice_of(v, lo, hi)
}

/// Whether the characters of `t` form a decimal number.
fn decimal(t: &Vec<char>) -> (r: bool)
    ensures
        r == is_decimal(t@),
{
    let n = t.len();
    let mut dot: usize = n;
    let mut digit: usize = n;
    let mut k: usize = 0;
    while k < n
        invariant
            n == t.len(),
            k <= n,
            forall|i: int| 0 <= i < k ==> is_digit(#[trigger] t@[i]) || t@[i] == '.',
            forall|i: int, j: int|
                0 <= i < j < k ==> !(#[trigger] t@[i] == '.' && #[trigger] t@[j] == '.'),
            dot < k ==> t@[dot as int] == '.',
            dot >= k ==> dot == n && forall|i: int| 0 <= i < k ==> t@[i] != '.',
            digit < k ==> is_digit(t@[digit as int]),
            digit >= k ==> digit == n && forall|i: int| 0 <= i < k ==> !is_digit(#[trigger] t@[i]),
        decreases n - k,
    {
        let c = t[k];
        let x = c as u32;
        if c == '.' {
            if dot < k {
                assert(!(t@[dot as int] == '.' && t@[k as int] == '.') ==> false);
                return false;
            }
            dot = k;
        } else if 0x30 <= x && x <= 0x39 {
            if digit >= k {
                digit = k;
            }
        } else {
            assert(!(is_digit(t@[k as int]) || t@[k as int] == '.'));
            return false;
        }
        k = k + 1;
    }
    if digit < n {
        assert(is_digit(t@[digit as int]));
        true
    } else {
        false
    }
}

/// The whole part of a decimal number, held to the largest figure.
fn whole_part(t: &Vec<char>) -> (r: PoiseDamage)
    ensures
        r as int == capped(digits_value(leading_digits(t@))),
{
    let n = t.len();
    let mut acc: u32 = 0;
    let mut j: usize = 0;
    while j < n && 0x30 <= (t[j] as u32) && (t[j] as u32) <= 0x39
        invariant
            n == t.len(),
            j <= n,
            forall|i: int| 0 <= i < j ==> is_digit(#[trigger] t@[i]),
            acc as int == capped(digits_value(t@.subrange(0, j as int))),
        decreases n - j,
    {
        let x = (t[j] as u32) - 0x30;
        let ghost prefix = t@.subrange(0, j as int);
        proof {
            assert forall|i: int| 0 <= i < prefix.len() implies is_digit(#[trigger] prefix[i]) by {
                assert(prefix[i] == t@[i]);
            }
            lemma_digits_value_nonneg(prefix);
            lemma_capped_step(digits_value(prefix), x as int);
            assert(t@.subrange(0, j + 1 as int).drop_last() =~= prefix);
        }
        let next: u32 = acc * 10 + x;
        acc = if next > 0xffff {
            0xffff
        } else {
            next
        };
        j = j + 1;
    }
    proof {
        lemma_leading_digits_split(t@, j as int);
        if j < n {
            assert(!is_digit(t@.skip(j as int)[0]));
        }
        assert(leading_digits(t@.skip(j as int)) =~= Seq::<char>::empty());
        assert(t@.subrange(0, j as int) + Seq::<char>::empty() =~= t@.subrange(0, j as int));
    }
    acc as PoiseDamage
}

/// What one piece of a cell counts for.
fn piece_number(p: &Vec<char>) -> (r: PoiseDamage)
    ensures
        r == piece_value(p@),
{
    let t = trim_chars(p);
    if decimal(&t) {
        whole_part(&t)
    } else {
        0
    }
}

/// Reads a damage-expression cell: empty for a blank cell, else the whole
/// part of each number between `+` signs (`"302.5 + 605"` gives `[302, 605]`),
/// with `0` for a piece that is not a number.
pub fn poise_string_to_numbers(s: &str) -> (r: Vec<PoiseDamage>)
    ensures
        r@ == damage_numbers(s@),
{
    let cs = chars_of(s);
    let t = trim_chars(&cs);
    if t.len() == 0 {
        return Vec::new();
    }
    let mut out: Vec<PoiseDamage> = Vec::new();
    let mut piece: Vec<char> = Vec::new();
    let mut i: usize = 0;
    proof {
        assert(cs@.subrange(0, 0) =~= Seq::<char>::empty());
    }
    while i < cs.len()
        invariant
            i <= cs.len(),
            pieces(cs@.subrange(0, i as int)).len() >= 1,
            out@ == pieces(cs@.subrange(0, i as int)).drop_last().map_values(
                |p: Seq<char>| piece_value(p),
            ),
            piece@ == pieces(cs@.subrange(0, i as int)).last(),
        decreases cs.len() - i,
    {
        let ghost before = cs@.subrange(0, i as int);
        let ghost after = cs@.subrange(0, i + 1 as int);
        proof {
            assert(after.drop_last() =~= before);
            lemma_pieces_nonempty(before);
        }
        let c = cs[i];
        if c == '+' {
            let v = piece_number(&piece);
            out.push(v);
            piece = Vec::new();
            proof {
                assert(out@ =~= pieces(after).drop_last().map_values(|p: Seq<char>| piece_value(p)));
                assert(piece@ =~= pieces(after).last());
            }
        } else {
            piece.push(c);
            proof {
                assert(pieces(after).drop_last() =~= pieces(before).drop_last());
            }
        }
        i = i + 1;
    }
    let v = piece_number(&piece);
    out.push(v);
    proof {
        assert(cs@.subrange(0, cs.len() as int) =~= cs@);
        let ps = pieces(cs@);
        assert(ps =~= ps.drop_last().push(ps.last()));
        assert(out@ =~= ps.map_values(|p: Seq<char>| piece_value(p)));
    }
    out
}

/// The positions, counted from `0`, of the pieces of `ps` that are not
/// decimal numbers once trimmed.
pub open spec fn malformed_positions(ps: Seq<Seq<char>>) -> Seq<int>
    decreases ps.len(),
{
    if ps.len() == 0 {
        Seq::empty()
    } else if is_decimal(trimmed(ps.last())) {
        malformed_positions(ps.drop_last())
    } else {
        malformed_positions(ps.drop_last()).push(ps.len() - 1)
    }
}

/// The pieces of a cell that count as `0` because they are not numbers:
/// none for a blank cell.
pub open spec fn malformed_pieces_of(s: Seq<char>) -> Seq<int> {
    if trimmed(s).len() == 0 {
        Seq::empty()
    } else {
        malformed_positions(pieces(s))
    }
}

/// The positions of the pieces of a cell that are not numbers, so that a
/// caller can report them; [`poise_string_to_numbers`] counts each as `0`.
pub fn malformed_pieces(s: &str) -> (r: Vec<usize>)
    ensures
        r@.map_values(|i: usize| i as int) == malformed_pieces_of(s@),
{
    let cs = chars_of(s);
    let t = trim_chars(&cs);
    if t.len() == 0 {
        let none: Vec<usize> = Vec::new();
        assert(none@.map_values(|i: usize| i as int) =~= Seq::<int>::empty());
        return none;
    }
    let mut out: Vec<usize> = Vec::new();
    let mut piece: Vec<char> = Vec::new();
    let mut count: usize = 0;
    let mut i: usize = 0;
    proof {
        assert(cs@.subrange(0, 0) =~= Seq::<char>::empty());
    }
    while i < cs.len()
        invariant
            i <= cs.len(),
            count <= i,
            pieces(cs@.subrange(0, i as int)).len() == count + 1,
            out@.map_values(|j: usize| j as int) == malformed_positions(
                pieces(cs@.subrange(0, i as int)).drop_last(),
            ),
            piece@ == pieces(cs@.subrange(0, i as int)).last(),
        decreases cs.len() - i,
    {
        let ghost before = cs@.subrange(0, i as int);
        let ghost after = cs@.subrange(0, i + 1 as int);
        proof {
            assert(after.drop_last() =~= before);
            lemma_pieces_nonempty(before);
        }
        let c = cs[i];
        if c == '+' {
            let ghost ps = pieces(before);
            assert(pieces(after).drop_last() =~= ps);
            assert(ps =~= ps.drop_last().push(piece@));
            let trimmed_piece = trim_chars(&piece);
            if !decimal(&trimmed_piece) {
                out.push(count);
            }
            assert(out@.map_values(|j: usize| j as int) =~= malformed_positions(ps));
            piece = Vec::new();
            count = count + 1;
        } else {
            piece.push(c);
            proof {
                assert(pieces(after).drop_last() =~= pieces(before).drop_last());
            }
        }
        i = i + 1;
    }
    proof {
        assert(cs@.subrange(0, cs.len() as int) =~= cs@);
        let ps = pieces(cs@);
        assert(ps =~= ps.drop_last().push(piece@));
    }
    let trimmed_piece = trim_chars(&piece);
    if !decimal(&trimmed_piece) {
        out.push(count);
    }
    assert(out@.map_values(|j: usize| j as int) =~= malformed_positions(pieces(cs@)));
    out
}

} // verus!
