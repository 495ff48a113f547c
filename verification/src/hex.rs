//! The `#RRGGBBAA` color codec.
//!
//! Color scheme entries carry 32-bit RGBA colors, written on the wire as a
//! `#`-prefixed run of upper-case hexadecimal digits.

use vstd::prelude::*;
use vstd::string::StringExecFns;

use crate::json::hex_digit_val;
use crate::text::chars_to_string;
use crate::text::str_to_chars;
use crate::Error;

verus! {

/// The upper-case hexadecimal digit character for `0 <= d < 16`.
pub open spec fn hex_digit_upper(d: int) -> char {
    if d < 10 {
        (48 + d) as char
    } else {
        (55 + d) as char
    }
}

/// The last `k` hexadecimal digits of `n`, upper case, zero padded.
pub open spec fn hex_text(n: nat, k: nat) -> Seq<char>
    decreases k,
{
    if k == 0 {
        Seq::empty()
    } else {
        hex_text(n / 16, (k - 1) as nat).push(hex_digit_upper((n % 16) as int))
    }
}

/// The written form of a color: `#` and eight upper-case hex digits.
pub open spec fn hex_encoding(x: u32) -> Seq<char> {
    seq!['#'] + hex_text(x as nat, 8)
}

/// Whether every character of `s` is a hexadecimal digit (either case).
pub open spec fn all_hex(s: Seq<char>) -> bool {
    forall|i: int| 0 <= i < s.len() ==> hex_digit_val(#[trigger] s[i]) >= 0
}

/// The value of a run of hexadecimal digits.
pub open spec fn hex_val(s: Seq<char>) -> nat
    decreases s.len(),
{
    if s.len() == 0 {
        0
    } else {
        hex_val(s.drop_last()) * 16 + (if hex_digit_val(s.last()) >= 0 {
            hex_digit_val(s.last()) as nat
        } else {
            0
        })
    }
}

/// The text that color decoding reads its digits from: `s` with one leading
/// `#` stripped, if there is one.
pub open spec fn hex_body(s: Seq<char>) -> Seq<char> {
    if s.len() > 0 && s[0] == '#' {
        s.drop_first()
    } else {
        s
    }
}

/// Whether color decoding accepts `s`: after stripping one `#`, at least one
/// character, hexadecimal digits only, and a value that fits 32 bits.
pub open spec fn hex_accepts(s: Seq<char>) -> bool {
    hex_body(s).len() > 0 && all_hex(hex_body(s)) && hex_val(hex_body(s)) <= u32::MAX
}

/// Writes `x` as `#` and eight upper-case hexadecimal digits.  Writing
/// `0x001414FF` gives exactly `"#001414FF"`.
pub fn encode_hex(x: u32) -> (r: String)
    ensures
        r@ == hex_encoding(x),
{
    let mut out: Vec<char> = Vec::new();
    out.push('#');
    hex_chars(x as u64, 8, &mut out);
    proof {
        assert(out@ =~= hex_encoding(x));
    }
    chars_to_string(&out)
}

/// Writes the last `k` hexadecimal digits of `n`.
fn hex_chars(n: u64, k: u8, out: &mut Vec<char>)
    ensures
        final(out)@ == old(out)@ + hex_text(n as nat, k as nat),
    decreases k,
{
    if k == 0 {
        proof {
            assert(out@ =~= old(out)@ + hex_text(n as nat, 0));
        }
    } else {
        hex_chars(n / 16, k - 1, out);
        let d = (n % 16) as u8;
        out.push(if d < 10 { (48 + d) as char } else { (55 + d) as char });
        proof {
            assert(out@ =~= old(out)@ + hex_text(n as nat, k as nat));
        }
    }
}

/// The value of a hexadecimal digit, or `-1`.
fn hex_digit_val_e2(c: char) -> (r: i16)
    ensures
        r as int == hex_digit_val(c),
{
    let cu = c as u32;
    proof {
        assert(cu == c as int);
    }
    if 48 <= cu && cu <= 57 {
        (cu - 48) as i16
    } else if 97 <= cu && cu <= 102 {
        (cu - 87) as i16
    } else if 65 <= cu && cu <= 70 {
        (cu - 55) as i16
    } else {
        -1
    }
}

pub proof fn lemma_hex_val_prefix_grows(s: Seq<char>, i: int, j: int)
    requires
        0 <= i <= j <= s.len(),
    ensures
        hex_val(s.subrange(0, i)) <= hex_val(s.subrange(0, j)),
    decreases j - i,
{
    if i < j {
        lemma_hex_val_prefix_grows(s, i + 1, j);
        assert(s.subrange(0, i + 1).drop_last() =~= s.subrange(0, i));
        assert(hex_val(s.subrange(0, i)) <= hex_val(s.subrange(0, i + 1)));
    }
}

/// Reads a color written as hexadecimal digits, with one optional leading
/// `#`.  Either digit case is accepted.  Any other character, an empty run
/// of digits, or a value over 32 bits is refused, with the offending text
/// attached to the error.
pub fn decode_hex(s: &str) -> (r: Result<u32, Error>)
    ensures
        match r {
            Ok(v) => hex_accepts(s@) && v as nat == hex_val(hex_body(s@)),
            Err(e) => !hex_accepts(s@) && (e matches Error::Decode(m) && m@ == s@),
        },
{
    let cs = str_to_chars(s);
    let n = cs.len();
    let start: usize = if n > 0 && cs[0] == '#' {
        1
    } else {
        0
    };
    proof {
        assert(cs@.subrange(start as int, n as int) =~= hex_body(s@));
    }
    if n == start {
        return Err(Error::Decode(String::from_str(s)));
    }
    let ghost body = hex_body(s@);
    let mut acc: u64 = 0;
    let mut i: usize = start;
    while i < n
        invariant
            start <= i <= n,
            n == cs@.len(),
            cs@ == s@,
            body == hex_body(s@),
            body == cs@.subrange(start as int, n as int),
            all_hex(body.subrange(0, i - start)),
            acc as nat == hex_val(body.subrange(0, i - start)),
            acc <= u32::MAX,
        decreases n - i,
    {
        let c = cs[i];
        let d = hex_digit_val_e2(c);
        if d < 0 {
            proof {
                assert(body[i - start] == cs@[i as int]);
            }
            return Err(Error::Decode(String::from_str(s)));
        }
        proof {
            assert(body.subrange(0, i - start + 1).drop_last() =~= body.subrange(0, i - start));
            assert(body.subrange(0, i - start + 1).last() == cs@[i as int]);
        }
        if acc > 0xFFFFFFF || (acc == 0xFFFFFFF && d > 15) {
            proof {
                assert(hex_val(body.subrange(0, i - start + 1)) > u32::MAX);
                lemma_hex_val_prefix_grows(body, i - start + 1, body.len() as int);
                assert(body.subrange(0, body.len() as int) =~= body);
            }
            return Err(Error::Decode(String::from_str(s)));
        }
        acc = acc * 16 + (d as u64);
        i += 1;
    }
    proof {
        assert(body.subrange(0, n - start) =~= body);
    }
    Ok(acc as u32)
}

/// Sixteen to the power `k`.
pub open spec fn pow16(k: nat) -> nat
    decreases k,
{
    if k == 0 {
        1
    } else {
        16 * pow16((k - 1) as nat)
    }
}

/// Every value below `pow16(k)` round-trips through its `k`-digit upper-case
/// hexadecimal text: the digits are hexadecimal and carry the value back.
pub proof fn lemma_hex_text_val(n: nat, k: nat)
    requires
        n < pow16(k),
    ensures
        all_hex(hex_text(n, k)),
        hex_val(hex_text(n, k)) == n,
        hex_text(n, k).len() == k,
    decreases k,
{
    if k == 0 {
    } else {
        assert(pow16(k) == 16 * pow16((k - 1) as nat));
        assert(n / 16 < pow16((k - 1) as nat)) by (nonlinear_arith)
            requires
                n < 16 * pow16((k - 1) as nat),
        ;
        lemma_hex_text_val(n / 16, (k - 1) as nat);
        let t = hex_text(n, k);
        let prev = hex_text(n / 16, (k - 1) as nat);
        assert(t == prev.push(hex_digit_upper((n % 16) as int)));
        assert(t.drop_last() =~= prev);
        assert(t.last() == hex_digit_upper((n % 16) as int));
        assert(hex_digit_val(hex_digit_upper((n % 16) as int)) == n % 16);
        assert(forall|i: int| 0 <= i < t.len() ==> hex_digit_val(#[trigger] t[i]) >= 0);
        assert(hex_val(t) == hex_val(prev) * 16 + n % 16);
    }
}

/// Decoding what encoding wrote gives the color back: for every 32-bit `x`,
/// the text `hex_encoding(x)` is accepted by the decoder and its digits
/// carry exactly `x`.
pub proof fn lemma_hex_round_trip(x: u32)
    ensures
        hex_accepts(hex_encoding(x)),
        hex_val(hex_body(hex_encoding(x))) == x,
{
    let t = hex_encoding(x);
    assert(pow16(8) == 0x100000000) by {
        reveal_with_fuel(pow16, 9);
    }
    lemma_hex_text_val(x as nat, 8);
    assert(t[0] == '#');
    assert(hex_body(t) =~= hex_text(x as nat, 8));
}

} // verus!
