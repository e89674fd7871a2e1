//! Decimal text for entity identifiers.
//!
//! Markers carry database-assigned identifiers as decimal character runs;
//! this module renders an identifier as its canonical decimal text and reads
//! a digit run back, rejecting runs whose value does not fit an identifier.

use crate::text::is_digit;
use vstd::prelude::*;

verus! {

/// The numeric value of a decimal digit character; zero on anything else.
pub open spec fn digit_val(c: char) -> int {
    if c == '1' {
        1
    } else if c == '2' {
        2
    } else if c == '3' {
        3
    } else if c == '4' {
        4
    } else if c == '5' {
        5
    } else if c == '6' {
        6
    } else if c == '7' {
        7
    } else if c == '8' {
        8
    } else if c == '9' {
        9
    } else {
        0
    }
}

/// The digit character for a value in `0 ..= 9`; `'0'` on anything else.
pub open spec fn digit_char(d: int) -> char {
    if d == 1 {
        '1'
    } else if d == 2 {
        '2'
    } else if d == 3 {
        '3'
    } else if d == 4 {
        '4'
    } else if d == 5 {
        '5'
    } else if d == 6 {
        '6'
    } else if d == 7 {
        '7'
    } else if d == 8 {
        '8'
    } else if d == 9 {
        '9'
    } else {
        '0'
    }
}

/// The value of a run of decimal digit characters.
pub open spec fn dec_val(s: Seq<char>) -> int
    decreases s.len(),
{
    if s.len() == 0 {
        0
    } else {
        dec_val(s.drop_last()) * 10 + digit_val(s.last())
    }
}

/// The canonical decimal text of a non-negative value: no leading zeros.
pub open spec fn dec_digits(n: int) -> Seq<char>
    decreases n,
{
    if n < 10 {
        seq![digit_char(n)]
    } else {
        dec_digits(n / 10).push(digit_char(n % 10))
    }
}

/// The decimal text of a possibly negative identifier.
pub open spec fn dec_int(v: int) -> Seq<char> {
    if v < 0 {
        seq!['-'] + dec_digits(-v)
    } else {
        dec_digits(v)
    }
}

/// A decimal reading is never negative.
pub proof fn lemma_dec_val_nonneg(s: Seq<char>)
    ensures
        dec_val(s) >= 0,
    decreases s.len(),
{
    if s.len() > 0 {
        lemma_dec_val_nonneg(s.drop_last());
    }
}

/// Canonical decimal text consists of digits, is never empty, and reads back
/// to the value it was made from.
pub proof fn lemma_dec_digits(n: int)
    requires
        0 <= n,
    ensures
        dec_digits(n).len() > 0,
        forall|k: int| 0 <= k < dec_digits(n).len() ==> is_digit(#[trigger] dec_digits(n)[k]),
        dec_val(dec_digits(n)) == n,
        n > 0 ==> dec_digits(n)[0] != '0',
        n < 10 ==> dec_digits(n).len() == 1,
    decreases n,
{
    if n < 10 {
        let ds = dec_digits(n);
        assert(ds == seq![digit_char(n)]);
        assert(ds.drop_last() =~= Seq::<char>::empty());
        assert(dec_val(Seq::<char>::empty()) == 0);
        assert(dec_val(ds) == dec_val(ds.drop_last()) * 10 + digit_val(ds.last()));
    } else {
        lemma_dec_digits(n / 10);
        assert(dec_digits(n).drop_last() =~= dec_digits(n / 10));
        assert(dec_val(dec_digits(n)) == dec_val(dec_digits(n / 10)) * 10 + digit_val(
            digit_char(n % 10),
        ));
        assert(digit_val(digit_char(n % 10)) == n % 10);
    }
}

/// Reads one digit character, executable.
pub fn digit_value(c: char) -> (d: u8)
    ensures
        d as int == digit_val(c),
        d <= 9,
{
    match c {
        '1' => 1,
        '2' => 2,
        '3' => 3,
        '4' => 4,
        '5' => 5,
        '6' => 6,
        '7' => 7,
        '8' => 8,
        '9' => 9,
        _ => 0,
    }
}

/// Renders one digit, executable.
pub fn digit_text(d: u8) -> (c: char)
    ensures
        c == digit_char(d as int),
{
    match d {
        1 => '1',
        2 => '2',
        3 => '3',
        4 => '4',
        5 => '5',
        6 => '6',
        7 => '7',
        8 => '8',
        9 => '9',
        _ => '0',
    }
}

/// Appends the canonical decimal text of `m` to `out`.
pub fn push_dec_digits(out: &mut Vec<char>, m: u64)
    ensures
        final(out)@ == old(out)@ + dec_digits(m as int),
    decreases m,
{
    if m < 10 {
        out.push(digit_text(m as u8));
        proof {
            assert(old(out)@ + dec_digits(m as int) =~= old(out)@.push(digit_char(m as int)));
        }
    } else {
        push_dec_digits(out, m / 10);
        out.push(digit_text((m % 10) as u8));
        proof {
            assert(old(out)@ + dec_digits(m as int) =~= (old(out)@ + dec_digits(m as int / 10)).push(
                digit_char(m as int % 10),
            ));
        }
    }
}

/// The decimal text of an identifier.
pub fn int_text(v: i32) -> (out: Vec<char>)
    ensures
        out@ == dec_int(v as int),
{
    let mut out: Vec<char> = Vec::new();
    if v >= 0 {
        push_dec_digits(&mut out, v as u64);
        proof {
            assert(Seq::<char>::empty() + dec_digits(v as int) =~= dec_digits(v as int));
        }
    } else {
        out.push('-');
        let m: u64 = (-(v as i64)) as u64;
        proof {
            assert(m as int == -(v as int));
        }
        push_dec_digits(&mut out, m);
        proof {
            assert(seq!['-'] + dec_digits(m as int) =~= Seq::<char>::empty().push('-') + dec_digits(
                m as int,
            ));
        }
    }
    out
}

/// Reads a digit run as an identifier; `None` when the value does not fit.
pub fn parse_id(run: &Vec<char>) -> (r: Option<i32>)
    requires
        forall|k: int| 0 <= k < run@.len() ==> is_digit(#[trigger] run@[k]),
    ensures
        match r {
            Some(v) => v as int == dec_val(run@) && 0 <= v,
            None => dec_val(run@) > i32::MAX,
        },
{
    let mut acc: u64 = 0;
    let mut big = false;
    let mut j: usize = 0;
    proof {
        assert(run@.take(0) =~= Seq::<char>::empty());
    }
    while j < run.len()
        invariant
            j <= run@.len(),
            forall|k: int| 0 <= k < run@.len() ==> is_digit(#[trigger] run@[k]),
            !big ==> acc as int == dec_val(run@.take(j as int)) && acc <= 0x7fffffff,
            big ==> dec_val(run@.take(j as int)) > 0x7fffffff,
        decreases run@.len() - j,
    {
        let d: u8 = digit_value(run[j]);
        proof {
            assert(run@.take(j + 1).drop_last() =~= run@.take(j as int));
            assert(run@.take(j + 1).last() == run@[j as int]);
            assert(dec_val(run@.take(j + 1)) == dec_val(run@.take(j as int)) * 10 + digit_val(
                run@[j as int],
            ));
        }
        if !big {
            let next: u64 = acc * 10 + (d as u64);
            if next > 0x7fffffff {
                big = true;
            } else {
                acc = next;
            }
        }
        j = j + 1;
    }
    proof {
        assert(run@.take(run@.len() as int) =~= run@);
    }
    if big {
        None
    } else {
        Some(acc as i32)
    }
}

} // verus!
