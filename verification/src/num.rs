//! Decimal text for the integer-valued wire fields.
//!
//! Integer fields of the map formats travel as JSON number tokens.  These
//! functions turn such a token's text into a machine integer and back, and
//! say exactly which texts are accepted.

use vstd::prelude::*;

use crate::json::is_digit;
use crate::text::chars_to_string;
use crate::text::str_to_chars;

verus! {

/// The digit character for `0 <= d < 10`.
pub open spec fn dec_digit(d: int) -> char {
    (48 + d) as char
}

/// The decimal text of `n`, without sign and without superfluous zeros.
pub open spec fn dec_text(n: nat) -> Seq<char>
    decreases n,
{
    if n < 10 {
        seq![dec_digit(n as int)]
    } else {
        dec_text(n / 10).push(dec_digit((n % 10) as int))
    }
}

/// The decimal text of a signed value.
pub open spec fn int_text(i: int) -> Seq<char> {
    if i < 0 {
        seq!['-'] + dec_text((-i) as nat)
    } else {
        dec_text(i as nat)
    }
}

/// Whether every character of `s` is a decimal digit.
pub open spec fn all_digits(s: Seq<char>) -> bool {
    forall|i: int| 0 <= i < s.len() ==> is_digit(#[trigger] s[i])
}

/// The value of a run of decimal digits.
pub open spec fn dec_val(s: Seq<char>) -> nat
    decreases s.len(),
{
    if s.len() == 0 {
        0
    } else {
        dec_val(s.drop_last()) * 10 + (if 0 <= s.last() as int - 48 {
            (s.last() as int - 48) as nat
        } else {
            0
        })
    }
}

/// Whether `t` is accepted as an unsigned integer wire field no larger than
/// `max`: digits only, at least one, and a value in range.
pub open spec fn accepts_uint(t: Seq<char>, max: nat) -> bool {
    t.len() > 0 && all_digits(t) && dec_val(t) <= max
}

/// Whether `t` is accepted as a signed integer wire field between `min` and
/// `max`: an unsigned form, or a minus sign followed by digits not starting
/// with zero (`-0` travels as a float on the wire and is refused).
pub open spec fn accepts_int(t: Seq<char>, min: int, max: int) -> bool {
    ||| (t.len() > 0 && all_digits(t) && dec_val(t) <= max)
    ||| (t.len() >= 2 && t[0] == '-' && all_digits(t.drop_first()) && t[1] != '0' && -(dec_val(
        t.drop_first(),
    ) as int) >= min)
}

/// The value of a signed integer wire field text.
pub open spec fn int_val(t: Seq<char>) -> int {
    if t.len() > 0 && t[0] == '-' {
        -(dec_val(t.drop_first()) as int)
    } else {
        dec_val(t) as int
    }
}

/// A digit's numeric value.
fn digit_val_e(c: char) -> (r: u8)
    requires
        is_digit(c),
    ensures
        r as int == c as int - 48,
{
    let cu = c as u32;
    proof {
        assert(cu == c as int);
    }
    (cu - 48) as u8
}

pub proof fn lemma_dec_val_prefix_grows(s: Seq<char>, i: int, j: int)
    requires
        0 <= i <= j <= s.len(),
    ensures
        dec_val(s.subrange(0, i)) <= dec_val(s.subrange(0, j)),
    decreases j - i,
{
    if i < j {
        lemma_dec_val_prefix_grows(s, i + 1, j);
        assert(s.subrange(0, i + 1).drop_last() =~= s.subrange(0, i));
        assert(dec_val(s.subrange(0, i)) <= dec_val(s.subrange(0, i + 1)));
    }
}

/// Reads the digits of `cs` from `start` on as a value no larger than
/// `max`.
fn parse_digits_from(cs: &Vec<char>, start: usize, max: u64) -> (r: Option<u64>)
    requires
        start <= cs@.len(),
    ensures
        match r {
            Some(v) => accepts_uint(cs@.skip(start as int), max as nat) && v as nat == dec_val(
                cs@.skip(start as int),
            ),
            None => !accepts_uint(cs@.skip(start as int), max as nat),
        },
{
    let ghost d = cs@.skip(start as int);
    let n = cs.len();
    if n == start {
        return None;
    }
    let mut acc: u64 = 0;
    let mut i: usize = start;
    while i < n
        invariant
            start <= i <= n,
            n == cs@.len(),
            d == cs@.skip(start as int),
            d.len() > 0,
            all_digits(d.subrange(0, i - start)),
            acc as nat == dec_val(d.subrange(0, i - start)),
            acc <= max,
        decreases n - i,
    {
        let c = cs[i];
        proof {
            assert(d[i - start] == cs@[i as int]);
        }
        if !crate::json::is_digit_e(c) {
            return None;
        }
        let dv = digit_val_e(c);
        proof {
            assert(d.subrange(0, i - start + 1).drop_last() =~= d.subrange(0, i - start));
            assert(d.subrange(0, i - start + 1).last() == cs@[i as int]);
        }
        if acc > max / 10 || (acc == max / 10 && (dv as u64) > max % 10) {
            proof {
                assert(dec_val(d.subrange(0, i - start + 1)) > max);
                lemma_dec_val_prefix_grows(d, i - start + 1, d.len() as int);
                assert(d.subrange(0, d.len() as int) =~= d);
            }
            return None;
        }
        acc = acc * 10 + (dv as u64);
        i += 1;
    }
    proof {
        assert(d.subrange(0, n - start) =~= d);
    }
    Some(acc)
}

/// Reads a run of decimal digits as a value no larger than `max`.
pub fn parse_uint(t: &str, max: u64) -> (r: Option<u64>)
    ensures
        match r {
            Some(v) => accepts_uint(t@, max as nat) && v as nat == dec_val(t@),
            None => !accepts_uint(t@, max as nat),
        },
{
    let cs = str_to_chars(t);
    proof {
        assert(cs@.skip(0) =~= t@);
    }
    parse_digits_from(&cs, 0, max)
}

/// Reads a signed integer wire text whose value lies between `min` and
/// `max`.
pub fn parse_int(t: &str, min: i64, max: i64) -> (r: Option<i64>)
    requires
        min < 0 <= max,
    ensures
        match r {
            Some(v) => accepts_int(t@, min as int, max as int) && v as int == int_val(t@),
            None => !accepts_int(t@, min as int, max as int),
        },
{
    let cs = str_to_chars(t);
    let n = cs.len();
    if n == 0 {
        return None;
    }
    if cs[0] == '-' {
        if n < 2 || cs[1] == '0' {
            return None;
        }
        proof {
            assert(cs@.skip(1) =~= t@.drop_first());
            assert(t@.drop_first()[0] == t@[1]);
        }
        match parse_digits_from(&cs, 1, (-(min as i128)) as u64) {
            Some(v) => {
                let r: i64 = (-(v as i128)) as i64;
                proof {
                    assert(r as int == -(dec_val(t@.drop_first()) as int));
                }
                Some(r)
            },
            None => None,
        }
    } else {
        proof {
            assert(cs@.skip(0) =~= t@);
            assert(!(t@.len() >= 2 && t@[0] == '-'));
        }
        match parse_digits_from(&cs, 0, max as u64) {
            Some(v) => Some(v as i64),
            None => None,
        }
    }
}

/// Writes the decimal text of `n` after `out`.
fn dec_chars(n: u64, out: &mut Vec<char>)
    ensures
        final(out)@ == old(out)@ + dec_text(n as nat),
    decreases n,
{
    if n < 10 {
        out.push((48 + n as u8) as char);
        proof {
            assert(out@ =~= old(out)@ + dec_text(n as nat));
        }
    } else {
        dec_chars(n / 10, out);
        out.push((48 + (n % 10) as u8) as char);
        proof {
            assert(out@ =~= old(out)@ + dec_text(n as nat));
        }
    }
}

/// The decimal text of `n`.
pub fn dec_string(n: u64) -> (r: String)
    ensures
        r@ == dec_text(n as nat),
{
    let mut out: Vec<char> = Vec::new();
    dec_chars(n, &mut out);
    chars_to_string(&out)
}

/// The decimal text of the signed value `i`.
pub fn int_string(i: i64) -> (r: String)
    requires
        i != i64::MIN,
    ensures
        r@ == int_text(i as int),
{
    if i < 0 {
        let mut out: Vec<char> = Vec::new();
        out.push('-');
        dec_chars((-i) as u64, &mut out);
        proof {
            assert(out@ =~= int_text(i as int));
        }
        chars_to_string(&out)
    } else {
        dec_string(i as u64)
    }
}

/// The decimal text of `n` is made of digits and carries `n` back.
pub proof fn lemma_dec_text_val(n: nat)
    ensures
        all_digits(dec_text(n)),
        dec_val(dec_text(n)) == n,
        dec_text(n).len() >= 1,
    decreases n,
{
    if n < 10 {
        assert(dec_text(n) == seq![dec_digit(n as int)]);
        assert(dec_text(n).drop_last() =~= Seq::<char>::empty());
        assert(dec_val(Seq::<char>::empty()) == 0);
        assert(dec_text(n).last() as int == 48 + n);
        assert(is_digit(dec_digit(n as int)));
        assert(dec_val(dec_text(n)) == n);
    } else {
        lemma_dec_text_val(n / 10);
        let prev = dec_text(n / 10);
        let t = dec_text(n);
        assert(t == prev.push(dec_digit((n % 10) as int)));
        assert(t.drop_last() =~= prev);
        assert(t.last() == dec_digit((n % 10) as int));
        assert(is_digit(dec_digit((n % 10) as int)));
        assert(forall|i: int| 0 <= i < t.len() ==> is_digit(#[trigger] t[i]));
        assert(dec_val(t) == dec_val(prev) * 10 + n % 10);
    }
}

/// A positive value's decimal text does not start with a zero.
pub proof fn lemma_dec_text_head(n: nat)
    requires
        n >= 1,
    ensures
        dec_text(n)[0] != '0',
    decreases n,
{
    if n < 10 {
        assert(dec_text(n) == seq![dec_digit(n as int)]);
    } else {
        lemma_dec_text_val(n / 10);
        lemma_dec_text_head(n / 10);
        assert(dec_text(n) == dec_text(n / 10).push(dec_digit((n % 10) as int)));
        assert(dec_text(n)[0] == dec_text(n / 10)[0]);
    }
}

/// The signed decimal text of `i` is accepted back between `min` and `max`
/// and carries `i`.
pub proof fn lemma_int_text_val(i: int, min: int, max: int)
    requires
        min <= i <= max,
        min < 0 <= max,
    ensures
        accepts_int(int_text(i), min, max),
        int_val(int_text(i)) == i,
{
    if i >= 0 {
        lemma_dec_text_val(i as nat);
        let t = int_text(i);
        assert(t == dec_text(i as nat));
        assert(is_digit(t[0]));
        assert(t[0] != '-');
    } else {
        lemma_dec_text_val((-i) as nat);
        lemma_dec_text_head((-i) as nat);
        let t = int_text(i);
        assert(t == seq!['-'] + dec_text((-i) as nat));
        assert(t[0] == '-');
        assert(t.drop_first() =~= dec_text((-i) as nat));
        assert(t[1] == dec_text((-i) as nat)[0]);
        assert(t[1] != '0');
        assert(-(dec_val(t.drop_first()) as int) == i);
    }
}

} // verus!
