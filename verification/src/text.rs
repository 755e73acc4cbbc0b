//! Decimal text: turning numbers into digit sequences and back.
//!
//! The wire codec prints and parses `Content-Length` values, and the
//! session model names placeholder threads after their ids; both rest on
//! the spec functions here.

use vstd::prelude::*;

verus! {

/// ASCII decimal digits.
pub open spec fn is_ascii_digit(b: u8) -> bool {
    48 <= b <= 57
}

/// The decimal digit bytes of `n`, most significant first.
pub open spec fn dec_bytes(n: nat) -> Seq<u8>
    decreases n,
{
    if n < 10 {
        seq![(48 + n) as u8]
    } else {
        dec_bytes(n / 10).push((48 + n % 10) as u8)
    }
}

/// The value of a sequence of decimal digit bytes.
pub open spec fn dec_value(s: Seq<u8>) -> nat
    decreases s.len(),
{
    if s.len() == 0 {
        0
    } else {
        dec_value(s.drop_last()) * 10 + (if is_ascii_digit(s.last()) {
            (s.last() - 48) as nat
        } else {
            0
        })
    }
}

/// Every byte printed for a number is a decimal digit.
pub proof fn lemma_dec_bytes_digits(n: nat)
    ensures
        dec_bytes(n).len() > 0,
        forall|i: int| 0 <= i < dec_bytes(n).len() ==> is_ascii_digit(#[trigger] dec_bytes(n)[i]),
    decreases n,
{
    if n >= 10 {
        lemma_dec_bytes_digits(n / 10);
    }
}

/// Printing a number and reading it back yields the number.
pub proof fn lemma_dec_round_trip(n: nat)
    ensures
        dec_value(dec_bytes(n)) == n,
    decreases n,
{
    if n < 10 {
        let s = dec_bytes(n);
        assert(s =~= seq![(48 + n) as u8]);
        assert(s.drop_last() =~= Seq::<u8>::empty());
        assert(dec_value(s.drop_last()) == 0);
        assert(s.last() == (48 + n) as u8);
        assert(dec_value(s) == n);
    } else {
        lemma_dec_round_trip(n / 10);
        lemma_dec_bytes_digits(n / 10);
        let s = dec_bytes(n);
        assert(s =~= dec_bytes(n / 10).push((48 + n % 10) as u8));
        assert(s.drop_last() =~= dec_bytes(n / 10));
        assert(s.last() == (48 + n % 10) as u8);
        assert(dec_value(s) == dec_value(dec_bytes(n / 10)) * 10 + n % 10);
        assert(dec_value(s) == (n / 10) * 10 + n % 10);
        assert((n / 10) * 10 + n % 10 == n) by (nonlinear_arith);
    }
}

/// Appends the decimal digits of `n` to `out`.
pub fn push_dec_bytes(n: usize, out: &mut Vec<u8>)
    ensures
        final(out)@ == old(out)@ + dec_bytes(n as nat),
    decreases n,
{
    if n < 10 {
        out.push((48 + n) as u8);
        assert(out@ =~= old(out)@ + dec_bytes(n as nat));
    } else {
        push_dec_bytes(n / 10, out);
        out.push((48 + (n % 10)) as u8);
        assert(out@ =~= old(out)@ + dec_bytes(n as nat));
    }
}

/// Reads a decimal value from digit bytes; `None` when the slice is empty,
/// holds a non-digit, or the value does not fit in `usize`.
pub fn parse_dec_bytes(s: &[u8]) -> (r: Option<usize>)
    ensures
        match r {
            Some(v) => s@.len() > 0 && (forall|i: int|
                0 <= i < s@.len() ==> is_ascii_digit(#[trigger] s@[i])) && v == dec_value(s@)
                && dec_value(s@) <= usize::MAX,
            None => s@.len() == 0 || (exists|i: int|
                0 <= i < s@.len() && !is_ascii_digit(#[trigger] s@[i])) || dec_value(s@)
                > usize::MAX,
        },
{
    if s.len() == 0 {
        return None;
    }
    let mut acc: usize = 0;
    let mut i: usize = 0;
    while i < s.len()
        invariant
            0 <= i <= s@.len(),
            forall|j: int| 0 <= j < i ==> is_ascii_digit(#[trigger] s@[j]),
            acc == dec_value(s@.take(i as int)),
            acc <= usize::MAX,
        decreases s@.len() - i,
    {
        let b = s[i];
        if b < 48 || b > 57 {
            return None;
        }
        let d: usize = (b - 48) as usize;
        if acc > (usize::MAX - d) / 10 {
            proof {
                assert(s@.take(i as int + 1).drop_last() =~= s@.take(i as int));
                lemma_dec_value_grows(s@, i as int + 1);
            }
            return None;
        }
        proof {
            assert(s@.take(i as int + 1).drop_last() =~= s@.take(i as int));
        }
        acc = acc * 10 + d;
        i = i + 1;
    }
    proof {
        assert(s@.take(s@.len() as int) =~= s@);
    }
    Some(acc)
}

/// A prefix of digit bytes never has a larger value than the whole.
proof fn lemma_dec_value_grows(s: Seq<u8>, i: int)
    requires
        0 < i <= s.len(),
    ensures
        dec_value(s.take(i)) <= dec_value(s),
    decreases s.len() - i,
{
    if i < s.len() {
        lemma_dec_value_grows(s, i + 1);
        assert(s.take(i + 1).drop_last() =~= s.take(i));
        assert(dec_value(s.take(i)) <= dec_value(s.take(i + 1)));
    } else {
        assert(s.take(i) =~= s);
    }
}

/// The decimal digit characters of `n`, most significant first.
pub open spec fn dec_chars(n: nat) -> Seq<char>
    decreases n,
{
    if n < 10 {
        seq![((48 + n) as u8) as char]
    } else {
        dec_chars(n / 10).push(((48 + n % 10) as u8) as char)
    }
}

/// The decimal rendering of a signed number, as `Display` prints it.
pub open spec fn int_dec_chars(n: int) -> Seq<char> {
    if n < 0 {
        seq!['-'] + dec_chars((-n) as nat)
    } else {
        dec_chars(n as nat)
    }
}

/// Appends the decimal digits of `n` to `s`.
fn append_dec_chars(n: u64, s: &mut String)
    ensures
        final(s)@ == old(s)@ + dec_chars(n as nat),
    decreases n,
{
    if n >= 10 {
        append_dec_chars(n / 10, s);
    }
    let d = (n % 10) as u8;
    match d {
        0 => { proof { reveal_strlit("0"); } s.append("0") },
        1 => { proof { reveal_strlit("1"); } s.append("1") },
        2 => { proof { reveal_strlit("2"); } s.append("2") },
        3 => { proof { reveal_strlit("3"); } s.append("3") },
        4 => { proof { reveal_strlit("4"); } s.append("4") },
        5 => { proof { reveal_strlit("5"); } s.append("5") },
        6 => { proof { reveal_strlit("6"); } s.append("6") },
        7 => { proof { reveal_strlit("7"); } s.append("7") },
        8 => { proof { reveal_strlit("8"); } s.append("8") },
        _ => { proof { reveal_strlit("9"); } s.append("9") },
    }
    proof {
        if n < 10 {
            assert(s@ =~= old(s)@ + dec_chars(n as nat));
        } else {
            assert(s@ =~= old(s)@ + dec_chars(n as nat));
        }
    }
}

/// Renders a signed number in decimal, as `Display` would.
pub fn i64_to_string(n: i64) -> (s: String)
    ensures
        s@ == int_dec_chars(n as int),
{
    let mut s = String::new();
    if n < 0 {
        proof {
            reveal_strlit("-");
        }
        s.append("-");
        let mag = (-(n as i128)) as u64;
        append_dec_chars(mag, &mut s);
        assert(s@ =~= int_dec_chars(n as int));
        s
    } else {
        append_dec_chars(n as u64, &mut s);
        assert(s@ =~= int_dec_chars(n as int));
        s
    }
}

} // verus!
