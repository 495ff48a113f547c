//! A JSON document tree, a parser and a pretty-printer.
//!
//! The printer emits the fixed two-space indented layout that the map files
//! use, so that decoding a file and encoding it again reproduces the file
//! byte for byte.  Numbers are kept exactly as written: the tree stores the
//! number token text and the printer emits it verbatim.

use vstd::prelude::*;

use crate::text::{chars_to_string, str_to_chars};

verus! {

/// One JSON value.
///
/// Number tokens are kept as their written text; object members keep their
/// order of appearance.
#[derive(Debug, PartialEq)]
pub enum Json {
    /// The literal `null`.
    Null,
    /// `true` or `false`.
    Bool(bool),
    /// A number, as its unparsed token text (for example `"208.0"`).
    Num(String),
    /// A string, already unescaped.
    Str(String),
    /// An array of values, in order.
    Arr(Vec<Json>),
    /// An object: member keys with their values, in order of appearance.
    Obj(Vec<(String, Json)>),
}

/// The mathematical shape of a [`Json`] value.
pub enum JsonV {
    /// The literal `null`.
    Null,
    /// `true` or `false`.
    Bool(bool),
    /// A number token's text.
    Num(Seq<char>),
    /// A string's characters, already unescaped.
    Str(Seq<char>),
    /// An array of values, in order.
    Arr(Seq<JsonV>),
    /// An object's members, in order of appearance.
    Obj(Seq<(Seq<char>, JsonV)>),
}

impl Json {
    /// What this tree stands for, mathematically.
    pub open spec fn v(self) -> JsonV
        decreases self, 0int,
    {
        match self {
            Json::Null => JsonV::Null,
            Json::Bool(b) => JsonV::Bool(b),
            Json::Num(t) => JsonV::Num(t@),
            Json::Str(t) => JsonV::Str(t@),
            Json::Arr(items) => JsonV::Arr(vs(items@)),
            Json::Obj(members) => JsonV::Obj(vms(members@)),
        }
    }
}

/// The shapes of a sequence of trees, element by element.
pub open spec fn vs(items: Seq<Json>) -> Seq<JsonV>
    decreases items, 1int,
{
    Seq::new(
        items.len(),
        |i: int|
            if 0 <= i < items.len() {
                items[i].v()
            } else {
                JsonV::Null
            },
    )
}

/// The shapes of a sequence of object members, element by element.
pub open spec fn vms(members: Seq<(String, Json)>) -> Seq<(Seq<char>, JsonV)>
    decreases members, 1int,
{
    Seq::new(
        members.len(),
        |i: int|
            if 0 <= i < members.len() {
                (members[i].0@, members[i].1.v())
            } else {
                (Seq::<char>::empty(), JsonV::Null)
            },
    )
}

/// Whether `c` is JSON insignificant whitespace.
pub open spec fn is_ws(c: char) -> bool {
    c == ' ' || c == '\n' || c == '\t' || c == '\r'
}

/// Whether `c` is a decimal digit.
pub open spec fn is_digit(c: char) -> bool {
    48 <= c as int <= 57
}

/// The value of a hexadecimal digit, or `-1` if `c` is not one.
pub open spec fn hex_digit_val(c: char) -> int {
    if 48 <= c as int <= 57 {
        c as int - 48
    } else if 97 <= c as int <= 102 {
        c as int - 87
    } else if 65 <= c as int <= 70 {
        c as int - 55
    } else {
        -1
    }
}

/// The first position at or after `pos` that does not hold whitespace.
pub open spec fn skip_ws(s: Seq<char>, pos: int) -> int
    decreases s.len() - pos,
{
    if 0 <= pos < s.len() && is_ws(s[pos]) {
        skip_ws(s, pos + 1)
    } else {
        pos
    }
}

pub proof fn lemma_skip_ws_bounds(s: Seq<char>, pos: int)
    requires
        0 <= pos <= s.len(),
    ensures
        pos <= skip_ws(s, pos) <= s.len(),
    decreases s.len() - pos,
{
    if pos < s.len() && is_ws(s[pos]) {
        lemma_skip_ws_bounds(s, pos + 1);
    }
}

/// The first position at or after `pos` that does not hold a decimal digit.
pub open spec fn digits_end(s: Seq<char>, pos: int) -> int
    decreases s.len() - pos,
{
    if 0 <= pos < s.len() && is_digit(s[pos]) {
        digits_end(s, pos + 1)
    } else {
        pos
    }
}

pub proof fn lemma_digits_end_bounds(s: Seq<char>, pos: int)
    requires
        0 <= pos <= s.len(),
    ensures
        pos <= digits_end(s, pos) <= s.len(),
    decreases s.len() - pos,
{
    if pos < s.len() && is_digit(s[pos]) {
        lemma_digits_end_bounds(s, pos + 1);
    }
}

/// Reads one number token starting at `pos`: an optional minus sign, an
/// integer part without a superfluous leading zero, an optional fraction and
/// an optional exponent.  Yields the token's text and the position after it.
pub open spec fn sp_number(s: Seq<char>, pos: int) -> Option<(Seq<char>, int)> {
    let p1 = if 0 <= pos < s.len() && s[pos] == '-' {
        pos + 1
    } else {
        pos
    };
    if !(0 <= p1 < s.len() && is_digit(s[p1])) {
        None
    } else {
        let p2 = if s[p1] == '0' {
            p1 + 1
        } else {
            digits_end(s, p1)
        };
        let p3 = if p2 < s.len() && s[p2] == '.' {
            digits_end(s, p2 + 1)
        } else {
            p2
        };
        if p2 < s.len() && s[p2] == '.' && p3 == p2 + 1 {
            None
        } else {
            let has_exp = p3 < s.len() && (s[p3] == 'e' || s[p3] == 'E');
            let p4 = if has_exp && p3 + 1 < s.len() && (s[p3 + 1] == '+' || s[p3 + 1] == '-') {
                p3 + 2
            } else {
                p3 + 1
            };
            if !has_exp {
                Some((s.subrange(pos, p3), p3))
            } else if digits_end(s, p4) == p4 {
                None
            } else {
                Some((s.subrange(pos, digits_end(s, p4)), digits_end(s, p4)))
            }
        }
    }
}

/// Reads the rest of a string token.  `pos` stands just after the opening
/// quote (or after the last character already read into `acc`); `acc` holds
/// the characters read so far, already unescaped.  Yields the whole content
/// and the position after the closing quote.
pub open spec fn sp_string(s: Seq<char>, pos: int, acc: Seq<char>) -> Option<(Seq<char>, int)>
    decreases s.len() - pos,
{
    if !(0 <= pos < s.len()) {
        None
    } else if s[pos] == '"' {
        Some((acc, pos + 1))
    } else if s[pos] == '\\' {
        if pos + 1 >= s.len() {
            None
        } else {
            let e = s[pos + 1];
            if e == '"' {
                sp_string(s, pos + 2, acc.push('"'))
            } else if e == '\\' {
                sp_string(s, pos + 2, acc.push('\\'))
            } else if e == '/' {
                sp_string(s, pos + 2, acc.push('/'))
            } else if e == 'b' {
                sp_string(s, pos + 2, acc.push('\u{8}'))
            } else if e == 'f' {
                sp_string(s, pos + 2, acc.push('\u{c}'))
            } else if e == 'n' {
                sp_string(s, pos + 2, acc.push('\n'))
            } else if e == 'r' {
                sp_string(s, pos + 2, acc.push('\r'))
            } else if e == 't' {
                sp_string(s, pos + 2, acc.push('\t'))
            } else if e == 'u' {
                if pos + 6 > s.len() {
                    None
                } else {
                    let h0 = hex_digit_val(s[pos + 2]);
                    let h1 = hex_digit_val(s[pos + 3]);
                    let h2 = hex_digit_val(s[pos + 4]);
                    let h3 = hex_digit_val(s[pos + 5]);
                    if h0 < 0 || h1 < 0 || h2 < 0 || h3 < 0 {
                        None
                    } else {
                        let code = 4096 * h0 + 256 * h1 + 16 * h2 + h3;
                        if 0xD800 <= code < 0xE000 {
                            None
                        } else {
                            sp_string(s, pos + 6, acc.push(code as char))
                        }
                    }
                }
            } else {
                None
            }
        }
    } else if (s[pos] as int) < 32 {
        None
    } else {
        sp_string(s, pos + 1, acc.push(s[pos]))
    }
}

/// Reads one value whose first character stands at `pos` (no leading
/// whitespace).  Yields the value and the position after it.
pub open spec fn sp_value(s: Seq<char>, pos: int) -> Option<(JsonV, int)>
    decreases s.len() - pos, 0int,
{
    if !(0 <= pos < s.len()) {
        None
    } else {
        let c = s[pos];
        if c == 'n' {
            if pos + 4 <= s.len() && s[pos + 1] == 'u' && s[pos + 2] == 'l' && s[pos + 3] == 'l' {
                Some((JsonV::Null, pos + 4))
            } else {
                None
            }
        } else if c == 't' {
            if pos + 4 <= s.len() && s[pos + 1] == 'r' && s[pos + 2] == 'u' && s[pos + 3] == 'e' {
                Some((JsonV::Bool(true), pos + 4))
            } else {
                None
            }
        } else if c == 'f' {
            if pos + 5 <= s.len() && s[pos + 1] == 'a' && s[pos + 2] == 'l' && s[pos + 3] == 's'
                && s[pos + 4] == 'e' {
                Some((JsonV::Bool(false), pos + 5))
            } else {
                None
            }
        } else if c == '"' {
            match sp_string(s, pos + 1, Seq::empty()) {
                Some((t, q)) => Some((JsonV::Str(t), q)),
                None => None,
            }
        } else if c == '[' {
            sp_array(s, pos + 1)
        } else if c == '{' {
            sp_object(s, pos + 1)
        } else if c == '-' || is_digit(c) {
            match sp_number(s, pos) {
                Some((t, q)) => Some((JsonV::Num(t), q)),
                None => None,
            }
        } else {
            None
        }
    }
}

/// Reads the rest of an array whose opening bracket stands just before
/// `pos`.  Yields the array and the position after the closing bracket.
pub open spec fn sp_array(s: Seq<char>, pos: int) -> Option<(JsonV, int)>
    decreases s.len() - pos, 1int,
{
    let p = skip_ws(s, pos);
    if p < pos || p >= s.len() {
        None
    } else if s[p] == ']' {
        Some((JsonV::Arr(Seq::empty()), p + 1))
    } else {
        match sp_value(s, p) {
            None => None,
            Some((v, q)) => if q <= p || q > s.len() {
                None
            } else {
                sp_arr_items(s, q, seq![v])
            },
        }
    }
}

/// Reads the rest of an array after its first `acc.len()` values.  `pos`
/// stands just after the last value read.
pub open spec fn sp_arr_items(s: Seq<char>, pos: int, acc: Seq<JsonV>) -> Option<(JsonV, int)>
    decreases s.len() - pos, 2int,
{
    let p = skip_ws(s, pos);
    if p < pos || p >= s.len() {
        None
    } else if s[p] == ']' {
        Some((JsonV::Arr(acc), p + 1))
    } else if s[p] == ',' {
        let q = skip_ws(s, p + 1);
        if q < p + 1 || q > s.len() {
            None
        } else {
            match sp_value(s, q) {
                None => None,
                Some((v, q2)) => if q2 <= q || q2 > s.len() {
                    None
                } else {
                    sp_arr_items(s, q2, acc.push(v))
                },
            }
        }
    } else {
        None
    }
}

/// Reads one `"key": value` member starting at `pos` (which must hold the
/// opening quote of the key).  Yields the key, the value and the position
/// after the value.
pub open spec fn sp_member(s: Seq<char>, pos: int) -> Option<((Seq<char>, JsonV), int)>
    decreases s.len() - pos, 1int,
{
    if !(0 <= pos < s.len() && s[pos] == '"') {
        None
    } else {
        match sp_string(s, pos + 1, Seq::empty()) {
            None => None,
            Some((k, q)) => if q <= pos + 1 || q > s.len() {
                None
            } else {
                let q2 = skip_ws(s, q);
                if q2 < q || q2 >= s.len() || s[q2] != ':' {
                    None
                } else {
                    let q3 = skip_ws(s, q2 + 1);
                    if q3 < q2 + 1 || q3 > s.len() {
                        None
                    } else {
                        match sp_value(s, q3) {
                            None => None,
                            Some((v, q4)) => if q4 <= q3 {
                                None
                            } else {
                                Some(((k, v), q4))
                            },
                        }
                    }
                }
            },
        }
    }
}

/// Reads the rest of an object whose opening brace stands just before `pos`.
pub open spec fn sp_object(s: Seq<char>, pos: int) -> Option<(JsonV, int)>
    decreases s.len() - pos, 2int,
{
    let p = skip_ws(s, pos);
    if p < pos || p >= s.len() {
        None
    } else if s[p] == '}' {
        Some((JsonV::Obj(Seq::empty()), p + 1))
    } else {
        match sp_member(s, p) {
            None => None,
            Some(((k, v), q)) => if q <= p || q > s.len() {
                None
            } else {
                sp_obj_items(s, q, seq![(k, v)])
            },
        }
    }
}

/// Reads the rest of an object after its first `acc.len()` members.  `pos`
/// stands just after the last value read.
pub open spec fn sp_obj_items(
    s: Seq<char>,
    pos: int,
    acc: Seq<(Seq<char>, JsonV)>,
) -> Option<(JsonV, int)>
    decreases s.len() - pos, 3int,
{
    let p = skip_ws(s, pos);
    if p < pos || p >= s.len() {
        None
    } else if s[p] == '}' {
        Some((JsonV::Obj(acc), p + 1))
    } else if s[p] == ',' {
        let q = skip_ws(s, p + 1);
        if q < p + 1 || q > s.len() {
            None
        } else {
            match sp_member(s, q) {
                None => None,
                Some(((k, v), q2)) => if q2 <= q || q2 > s.len() {
                    None
                } else {
                    sp_obj_items(s, q2, acc.push((k, v)))
                },
            }
        }
    } else {
        None
    }
}

/// Reads a whole document: one value, surrounded by whitespace only.
pub open spec fn sp_document(s: Seq<char>) -> Option<JsonV> {
    let p = skip_ws(s, 0);
    match sp_value(s, p) {
        None => None,
        Some((v, q)) => if 0 <= q <= s.len() && skip_ws(s, q) == s.len() {
            Some(v)
        } else {
            None
        },
    }
}

/// `n` spaces.
pub open spec fn sp_spaces(n: nat) -> Seq<char> {
    Seq::new(n, |i: int| ' ')
}

/// A lower-case hexadecimal digit for `0 <= d < 16`.
pub open spec fn hex_char_lower(d: int) -> char {
    if d < 10 {
        (48 + d) as char
    } else {
        (87 + d) as char
    }
}

/// How one character is written inside a string token: the short escapes of
/// JSON for the quote, the backslash and the common control characters, a
/// `\u00..` escape for the remaining control characters, and the character
/// itself otherwise.
pub open spec fn esc_char(c: char) -> Seq<char> {
    if c == '"' {
        seq!['\\', '"']
    } else if c == '\\' {
        seq!['\\', '\\']
    } else if c == '\u{8}' {
        seq!['\\', 'b']
    } else if c == '\t' {
        seq!['\\', 't']
    } else if c == '\n' {
        seq!['\\', 'n']
    } else if c == '\u{c}' {
        seq!['\\', 'f']
    } else if c == '\r' {
        seq!['\\', 'r']
    } else if (c as int) < 32 {
        seq!['\\', 'u', '0', '0', hex_char_lower(c as int / 16), hex_char_lower(c as int % 16)]
    } else {
        seq![c]
    }
}

/// How a whole string content is written, without the surrounding quotes.
pub open spec fn esc_str(s: Seq<char>) -> Seq<char>
    decreases s.len(),
{
    if s.len() == 0 {
        Seq::empty()
    } else {
        esc_str(s.drop_last()) + esc_char(s.last())
    }
}

/// The text of a value, pretty-printed at indentation depth `ind`: arrays
/// and objects with members spread one per line, nested members indented two
/// more spaces, and a `": "` between a key and its value.
pub open spec fn pp(v: JsonV, ind: nat) -> Seq<char>
    decreases v, 0int, 0int,
{
    match v {
        JsonV::Null => seq!['n', 'u', 'l', 'l'],
        JsonV::Bool(b) => if b {
            seq!['t', 'r', 'u', 'e']
        } else {
            seq!['f', 'a', 'l', 's', 'e']
        },
        JsonV::Num(t) => t,
        JsonV::Str(t) => seq!['"'] + esc_str(t) + seq!['"'],
        JsonV::Arr(items) => if items.len() == 0 {
            seq!['[', ']']
        } else {
            seq!['['] + pp_items(items, 0, ind + 2) + seq!['\n'] + sp_spaces(ind) + seq![']']
        },
        JsonV::Obj(members) => if members.len() == 0 {
            seq!['{', '}']
        } else {
            seq!['{'] + pp_members(members, 0, ind + 2) + seq!['\n'] + sp_spaces(ind) + seq!['}']
        },
    }
}

/// The text of the array values from `i` on, each on its own line at
/// indentation depth `ind`, separated by commas.
pub open spec fn pp_items(items: Seq<JsonV>, i: int, ind: nat) -> Seq<char>
    decreases items, 1int, items.len() - i,
{
    if !(0 <= i < items.len()) {
        Seq::empty()
    } else {
        let entry = seq!['\n'] + sp_spaces(ind) + pp(items[i], ind);
        if i + 1 < items.len() {
            entry + seq![','] + pp_items(items, i + 1, ind)
        } else {
            entry
        }
    }
}

/// The text of the object members from `i` on, each on its own line at
/// indentation depth `ind`, separated by commas.
pub open spec fn pp_members(members: Seq<(Seq<char>, JsonV)>, i: int, ind: nat) -> Seq<char>
    decreases members, 1int, members.len() - i,
{
    if !(0 <= i < members.len()) {
        Seq::empty()
    } else {
        let entry = seq!['\n'] + sp_spaces(ind) + seq!['"'] + esc_str(members[i].0) + seq!['"']
            + seq![':', ' '] + pp(members[i].1, ind);
        if i + 1 < members.len() {
            entry + seq![','] + pp_members(members, i + 1, ind)
        } else {
            entry
        }
    }
}

/// The text of a whole document: the value at depth zero.
pub open spec fn pp_document(v: JsonV) -> Seq<char> {
    pp(v, 0)
}

/// Whether every character of `s` is a space.
pub open spec fn all_spaces(s: Seq<char>) -> bool {
    forall|i: int| 0 <= i < s.len() ==> s[i] == ' '
}

/// Appends the characters of `s` to `out`.
fn write_str(out: &mut Vec<char>, s: &str)
    ensures
        final(out)@ == old(out)@ + s@,
{
    let cs = str_to_chars(s);
    out.extend_from_slice(cs.as_slice());
}

/// Appends the written form of the one character `c` to `out`.
fn write_escaped_char(c: char, out: &mut Vec<char>)
    ensures
        final(out)@ == old(out)@ + esc_char(c),
{
    let cu = c as u32;
    proof {
        assert(cu == c as int);
    }
    if c == '"' {
        out.push('\\');
        out.push('"');
        proof {
            assert(out@ =~= old(out)@ + esc_char(c));
        }
    } else if c == '\\' {
        out.push('\\');
        out.push('\\');
        proof {
            assert(out@ =~= old(out)@ + esc_char(c));
        }
    } else if cu == 8 {
        out.push('\\');
        out.push('b');
        proof {
            assert(out@ =~= old(out)@ + esc_char(c));
        }
    } else if cu == 9 {
        out.push('\\');
        out.push('t');
        proof {
            assert(out@ =~= old(out)@ + esc_char(c));
        }
    } else if cu == 10 {
        out.push('\\');
        out.push('n');
        proof {
            assert(out@ =~= old(out)@ + esc_char(c));
        }
    } else if cu == 12 {
        out.push('\\');
        out.push('f');
        proof {
            assert(out@ =~= old(out)@ + esc_char(c));
        }
    } else if cu == 13 {
        out.push('\\');
        out.push('r');
        proof {
            assert(out@ =~= old(out)@ + esc_char(c));
        }
    } else if cu < 32 {
        out.push('\\');
        out.push('u');
        out.push('0');
        out.push('0');
        let hi = (cu / 16) as u8;
        let lo = (cu % 16) as u8;
        out.push(if hi < 10 { (48 + hi) as char } else { (87 + hi) as char });
        out.push(if lo < 10 { (48 + lo) as char } else { (87 + lo) as char });
        proof {
            assert(out@ =~= old(out)@ + esc_char(c));
        }
    } else {
        out.push(c);
        proof {
            assert(out@ =~= old(out)@ + esc_char(c));
        }
    }
}

/// Appends the written form of string content `s` (without quotes) to `out`.
fn write_escaped(out: &mut Vec<char>, s: &str)
    ensures
        final(out)@ == old(out)@ + esc_str(s@),
{
    let cs = str_to_chars(s);
    let mut i: usize = 0;
    proof {
        assert(out@ =~= old(out)@ + esc_str(cs@.subrange(0, 0)));
    }
    while i < cs.len()
        invariant
            cs@ == s@,
            i <= cs@.len(),
            out@ == old(out)@ + esc_str(cs@.subrange(0, i as int)),
        decreases cs@.len() - i,
    {
        let c = cs[i];
        write_escaped_char(c, out);
        i += 1;
        proof {
            assert(cs@.subrange(0, i as int).drop_last() =~= cs@.subrange(0, i - 1));
            assert(cs@.subrange(0, i as int).last() == c);
            assert(esc_str(cs@.subrange(0, i as int)) == esc_str(cs@.subrange(0, i - 1))
                + esc_char(c));
            assert(out@ =~= old(out)@ + esc_str(cs@.subrange(0, i as int)));
        }
    }
    proof {
        assert(cs@.subrange(0, cs@.len() as int) =~= s@);
    }
}

/// Writes `v` at the indentation depth carried by `ind` (a run of spaces).
fn write_value(v: &Json, ind: &mut Vec<char>, out: &mut Vec<char>)
    requires
        all_spaces(old(ind)@),
    ensures
        final(ind)@ == old(ind)@,
        final(out)@ == old(out)@ + pp(v.v(), old(ind)@.len() as nat),
    decreases *v, 0int, 0int,
{
    match v {
        Json::Null => {
            out.push('n');
            out.push('u');
            out.push('l');
            out.push('l');
            proof {
                assert(out@ =~= old(out)@ + pp(v.v(), old(ind)@.len() as nat));
            }
        },
        Json::Bool(b) => {
            if *b {
                out.push('t');
                out.push('r');
                out.push('u');
                out.push('e');
            } else {
                out.push('f');
                out.push('a');
                out.push('l');
                out.push('s');
                out.push('e');
            }
            proof {
                assert(out@ =~= old(out)@ + pp(v.v(), old(ind)@.len() as nat));
            }
        },
        Json::Num(t) => {
            write_str(out, t.as_str());
        },
        Json::Str(t) => {
            out.push('"');
            write_escaped(out, t.as_str());
            out.push('"');
            proof {
                assert(out@ =~= old(out)@ + pp(v.v(), old(ind)@.len() as nat));
            }
        },
        Json::Arr(items) => {
            if items.len() == 0 {
                out.push('[');
                out.push(']');
                proof {
                    assert(vs(items@).len() == 0);
                    assert(out@ =~= old(out)@ + pp(v.v(), old(ind)@.len() as nat));
                }
            } else {
                out.push('[');
                ind.push(' ');
                ind.push(' ');
                write_items(items, 0, ind, out);
                let _ = ind.pop();
                let _ = ind.pop();
                out.push('\n');
                out.extend_from_slice(ind.as_slice());
                out.push(']');
                proof {
                    assert(ind@ =~= old(ind)@);
                    assert(vs(items@).len() > 0);
                    assert(ind@ =~= sp_spaces(old(ind)@.len() as nat));
                    assert(out@ =~= old(out)@ + pp(v.v(), old(ind)@.len() as nat));
                }
            }
        },
        Json::Obj(members) => {
            if members.len() == 0 {
                out.push('{');
                out.push('}');
                proof {
                    assert(vms(members@).len() == 0);
                    assert(out@ =~= old(out)@ + pp(v.v(), old(ind)@.len() as nat));
                }
            } else {
                out.push('{');
                ind.push(' ');
                ind.push(' ');
                write_members(members, 0, ind, out);
                let _ = ind.pop();
                let _ = ind.pop();
                out.push('\n');
                out.extend_from_slice(ind.as_slice());
                out.push('}');
                proof {
                    assert(ind@ =~= old(ind)@);
                    assert(vms(members@).len() > 0);
                    assert(ind@ =~= sp_spaces(old(ind)@.len() as nat));
                    assert(out@ =~= old(out)@ + pp(v.v(), old(ind)@.len() as nat));
                }
            }
        },
    }
}

/// Writes the array values from `i` on, one per line.
fn write_items(items: &Vec<Json>, i: usize, ind: &mut Vec<char>, out: &mut Vec<char>)
    requires
        all_spaces(old(ind)@),
        i < items@.len(),
    ensures
        final(ind)@ == old(ind)@,
        final(out)@ == old(out)@ + pp_items(vs(items@), i as int, old(ind)@.len() as nat),
    decreases items@, 1int, items@.len() - i,
{
    out.push('\n');
    proof {
        assert(ind@ =~= sp_spaces(ind@.len() as nat));
    }
    out.extend_from_slice(ind.as_slice());
    proof {
        assert(decreases_to!(items@ => items@[i as int]));
    }
    write_value(&items[i], ind, out);
    let n = items.len();
    if i + 1 < n {
        out.push(',');
        write_items(items, i + 1, ind, out);
        proof {
            assert(out@ =~= old(out)@ + pp_items(vs(items@), i as int, old(ind)@.len() as nat));
        }
    } else {
        proof {
            assert(out@ =~= old(out)@ + pp_items(vs(items@), i as int, old(ind)@.len() as nat));
        }
    }
}

/// Writes the object members from `i` on, one per line.
fn write_members(members: &Vec<(String, Json)>, i: usize, ind: &mut Vec<char>, out: &mut Vec<char>)
    requires
        all_spaces(old(ind)@),
        i < members@.len(),
    ensures
        final(ind)@ == old(ind)@,
        final(out)@ == old(out)@ + pp_members(vms(members@), i as int, old(ind)@.len() as nat),
    decreases members@, 1int, members@.len() - i,
{
    out.push('\n');
    proof {
        assert(ind@ =~= sp_spaces(ind@.len() as nat));
    }
    out.extend_from_slice(ind.as_slice());
    out.push('"');
    write_escaped(out, members[i].0.as_str());
    out.push('"');
    out.push(':');
    out.push(' ');
    proof {
        assert(decreases_to!(members@ => members@[i as int]));
        assert(decreases_to!(members@[i as int] => members@[i as int].1));
    }
    write_value(&members[i].1, ind, out);
    let n = members.len();
    if i + 1 < n {
        out.push(',');
        write_members(members, i + 1, ind, out);
        proof {
            assert(out@ =~= old(out)@ + pp_members(vms(members@), i as int, old(ind)@.len() as nat));
        }
    } else {
        proof {
            assert(out@ =~= old(out)@ + pp_members(vms(members@), i as int, old(ind)@.len() as nat));
        }
    }
}

impl Json {
    /// Pretty-prints this value as a whole document.
    pub fn to_pretty(&self) -> (r: String)
        ensures
            r@ == pp_document(self.v()),
    {
        let mut out: Vec<char> = Vec::new();
        let mut ind: Vec<char> = Vec::new();
        write_value(self, &mut ind, &mut out);
        chars_to_string(&out)
    }
}

/// Whether `c` is a decimal digit.
pub(crate) fn is_digit_e(c: char) -> (r: bool)
    ensures
        r == is_digit(c),
{
    let cu = c as u32;
    48 <= cu && cu <= 57
}

/// Whether `c` is a control character.
fn is_ctrl_e(c: char) -> (r: bool)
    ensures
        r == ((c as int) < 32),
{
    let cu = c as u32;
    cu < 32
}

/// Whether `c` is JSON whitespace.
fn is_ws_e(c: char) -> (r: bool)
    ensures
        r == is_ws(c),
{
    c == ' ' || c == '\n' || c == '\t' || c == '\r'
}

/// The value of a hexadecimal digit, or `-1`.
fn hex_digit_val_e(c: char) -> (r: i16)
    ensures
        r as int == hex_digit_val(c),
{
    let cu = c as u32;
    proof {
        assert(cu == c as int);
    }
    if 48 <= cu && cu <= 57 {
        (cu - 48) as i16
    } else if 97 <= cu && cu <= 102 {
        (cu - 87) as i16
    } else if 65 <= cu && cu <= 70 {
        (cu - 55) as i16
    } else {
        -1
    }
}

/// Relies on `char::from_u32`: yields the character with code point `code`,
/// which the caller must keep inside the defined, non-surrogate range.
#[verifier::external_body]
fn char_from_code(code: u32) -> (r: char)
    requires
        code < 0xD800 || (0xE000 <= code && code <= 0x10FFFF),
    ensures
        r == code as char,
{
    char::from_u32(code).unwrap()
}

/// The first position at or after `pos` holding no whitespace.
fn skip_ws_e(s: &Vec<char>, pos: usize) -> (r: usize)
    requires
        pos <= s@.len(),
    ensures
        r as int == skip_ws(s@, pos as int),
        pos <= r <= s@.len(),
{
    let n = s.len();
    let mut cur = pos;
    while cur < n && is_ws_e(s[cur])
        invariant
            pos <= cur <= n,
            n == s@.len(),
            skip_ws(s@, pos as int) == skip_ws(s@, cur as int),
        decreases n - cur,
    {
        cur += 1;
    }
    cur
}

/// The first position at or after `pos` holding no decimal digit.
fn digits_end_e(s: &Vec<char>, pos: usize) -> (r: usize)
    requires
        pos <= s@.len(),
    ensures
        r as int == digits_end(s@, pos as int),
        pos <= r <= s@.len(),
{
    let n = s.len();
    let mut cur = pos;
    while cur < n && is_digit_e(s[cur])
        invariant
            pos <= cur <= n,
            n == s@.len(),
            digits_end(s@, pos as int) == digits_end(s@, cur as int),
        decreases n - cur,
    {
        cur += 1;
    }
    cur
}

/// Copies `s[a..b]` into a `String`.
pub(crate) fn range_to_string(s: &Vec<char>, a: usize, b: usize) -> (r: String)
    requires
        a <= b <= s@.len(),
    ensures
        r@ == s@.subrange(a as int, b as int),
{
    let mut acc: Vec<char> = Vec::new();
    let mut i = a;
    while i < b
        invariant
            a <= i <= b <= s@.len(),
            acc@ == s@.subrange(a as int, i as int),
        decreases b - i,
    {
        acc.push(s[i]);
        i += 1;
        proof {
            assert(acc@ =~= s@.subrange(a as int, i as int));
        }
    }
    chars_to_string(&acc)
}

/// Reads one number token starting at `pos`.
fn p_number(s: &Vec<char>, pos: usize) -> (r: Option<(String, usize)>)
    requires
        pos <= s@.len(),
    ensures
        match r {
            Some((t, q)) => sp_number(s@, pos as int) == Some((t@, q as int)) && pos < q <= s@.len(),
            None => sp_number(s@, pos as int) is None,
        },
{
    let n = s.len();
    let p1 = if pos < n && s[pos] == '-' {
        pos + 1
    } else {
        pos
    };
    if !(p1 < n && is_digit_e(s[p1])) {
        return None;
    }
    let p2 = if s[p1] == '0' {
        p1 + 1
    } else {
        digits_end_e(s, p1)
    };
    proof {
        lemma_digits_end_bounds(s@, p1 as int + 1);
        assert(digits_end(s@, p1 as int) == digits_end(s@, p1 as int + 1));
    }
    let p3 = if p2 < n && s[p2] == '.' {
        digits_end_e(s, p2 + 1)
    } else {
        p2
    };
    if p2 < n && s[p2] == '.' && p3 == p2 + 1 {
        return None;
    }
    let has_exp = p3 < n && (s[p3] == 'e' || s[p3] == 'E');
    if !has_exp {
        return Some((range_to_string(s, pos, p3), p3));
    }
    let p4 = if p3 + 1 < n && (s[p3 + 1] == '+' || s[p3 + 1] == '-') {
        p3 + 2
    } else {
        p3 + 1
    };
    if p4 > n {
        proof {
            assert(digits_end(s@, p4 as int) == p4 as int);
        }
        return None;
    }
    let pe = digits_end_e(s, p4);
    if pe == p4 {
        return None;
    }
    Some((range_to_string(s, pos, pe), pe))
}

/// Reads the rest of a string token after the opening quote.
fn p_string(s: &Vec<char>, pos: usize) -> (r: Option<(String, usize)>)
    requires
        pos <= s@.len(),
    ensures
        match r {
            Some((t, q)) => sp_string(s@, pos as int, Seq::empty()) == Some((t@, q as int)) && pos
                < q <= s@.len(),
            None => sp_string(s@, pos as int, Seq::empty()) is None,
        },
{
    let n = s.len();
    let mut cur = pos;
    let mut acc: Vec<char> = Vec::new();
    loop
        invariant
            pos <= cur <= n,
            n == s@.len(),
            sp_string(s@, pos as int, Seq::empty()) == sp_string(s@, cur as int, acc@),
        decreases n - cur,
    {
        if cur >= n {
            return None;
        }
        let c = s[cur];
        if c == '"' {
            return Some((chars_to_string(&acc), cur + 1));
        } else if c == '\\' {
            if cur + 1 >= n {
                return None;
            }
            let e = s[cur + 1];
            if e == '"' {
                acc.push('"');
                cur += 2;
            } else if e == '\\' {
                acc.push('\\');
                cur += 2;
            } else if e == '/' {
                acc.push('/');
                cur += 2;
            } else if e == 'b' {
                acc.push('\u{8}');
                cur += 2;
            } else if e == 'f' {
                acc.push('\u{c}');
                cur += 2;
            } else if e == 'n' {
                acc.push('\n');
                cur += 2;
            } else if e == 'r' {
                acc.push('\r');
                cur += 2;
            } else if e == 't' {
                acc.push('\t');
                cur += 2;
            } else if e == 'u' {
                if n - cur < 6 {
                    return None;
                }
                let h0 = hex_digit_val_e(s[cur + 2]);
                let h1 = hex_digit_val_e(s[cur + 3]);
                let h2 = hex_digit_val_e(s[cur + 4]);
                let h3 = hex_digit_val_e(s[cur + 5]);
                if h0 < 0 || h1 < 0 || h2 < 0 || h3 < 0 {
                    return None;
                }
                let code: u32 = 4096 * (h0 as u32) + 256 * (h1 as u32) + 16 * (h2 as u32) + (
                h3 as u32);
                if 0xD800 <= code && code < 0xE000 {
                    return None;
                }
                acc.push(char_from_code(code));
                cur += 6;
            } else {
                return None;
            }
        } else if is_ctrl_e(c) {
            return None;
        } else {
            acc.push(c);
            cur += 1;
        }
    }
}

/// Reads one value whose first character stands at `pos`.
fn p_value(s: &Vec<char>, pos: usize) -> (r: Option<(Json, usize)>)
    requires
        pos <= s@.len(),
    ensures
        match r {
            Some((v, q)) => sp_value(s@, pos as int) == Some((v.v(), q as int)) && pos < q
                <= s@.len(),
            None => sp_value(s@, pos as int) is None,
        },
    decreases s@.len() - pos, 0int,
{
    let n = s.len();
    if pos >= n {
        return None;
    }
    let c = s[pos];
    if c == 'n' {
        if n - pos >= 4 && s[pos + 1] == 'u' && s[pos + 2] == 'l' && s[pos + 3] == 'l' {
            Some((Json::Null, pos + 4))
        } else {
            None
        }
    } else if c == 't' {
        if n - pos >= 4 && s[pos + 1] == 'r' && s[pos + 2] == 'u' && s[pos + 3] == 'e' {
            Some((Json::Bool(true), pos + 4))
        } else {
            None
        }
    } else if c == 'f' {
        if n - pos >= 5 && s[pos + 1] == 'a' && s[pos + 2] == 'l' && s[pos + 3] == 's' && s[pos
            + 4] == 'e' {
            Some((Json::Bool(false), pos + 5))
        } else {
            None
        }
    } else if c == '"' {
        match p_string(s, pos + 1) {
            Some((t, q)) => Some((Json::Str(t), q)),
            None => None,
        }
    } else if c == '[' {
        p_array(s, pos + 1)
    } else if c == '{' {
        p_object(s, pos + 1)
    } else if c == '-' || is_digit_e(c) {
        match p_number(s, pos) {
            Some((t, q)) => Some((Json::Num(t), q)),
            None => None,
        }
    } else {
        None
    }
}

/// Reads the rest of an array after the opening bracket.
fn p_array(s: &Vec<char>, pos: usize) -> (r: Option<(Json, usize)>)
    requires
        pos <= s@.len(),
    ensures
        match r {
            Some((v, q)) => sp_array(s@, pos as int) == Some((v.v(), q as int)) && pos < q
                <= s@.len(),
            None => sp_array(s@, pos as int) is None,
        },
    decreases s@.len() - pos, 1int,
{
    let n = s.len();
    let p = skip_ws_e(s, pos);
    if p >= n {
        return None;
    }
    if s[p] == ']' {
        let items: Vec<Json> = Vec::new();
        proof {
            assert(vs(items@) =~= Seq::<JsonV>::empty());
        }
        return Some((Json::Arr(items), p + 1));
    }
    match p_value(s, p) {
        None => None,
        Some((v, q)) => {
            let mut acc: Vec<Json> = Vec::new();
            acc.push(v);
            proof {
                assert(vs(acc@) =~= seq![acc@[0].v()]);
            }
            p_arr_items(s, q, acc)
        },
    }
}

/// Reads the rest of an array after its first `acc.len()` values.
fn p_arr_items(s: &Vec<char>, pos: usize, acc: Vec<Json>) -> (r: Option<(Json, usize)>)
    requires
        pos <= s@.len(),
    ensures
        match r {
            Some((v, q)) => sp_arr_items(s@, pos as int, vs(acc@)) == Some((v.v(), q as int)) && pos
                < q <= s@.len(),
            None => sp_arr_items(s@, pos as int, vs(acc@)) is None,
        },
    decreases s@.len() - pos, 2int,
{
    let n = s.len();
    let p = skip_ws_e(s, pos);
    if p >= n {
        return None;
    }
    if s[p] == ']' {
        return Some((Json::Arr(acc), p + 1));
    }
    if s[p] == ',' {
        let q = skip_ws_e(s, p + 1);
        match p_value(s, q) {
            None => None,
            Some((v, q2)) => {
                let ghost old_acc = acc@;
                let mut acc2 = acc;
                acc2.push(v);
                proof {
                    assert(vs(acc2@) =~= vs(old_acc).push(v.v()));
                }
                p_arr_items(s, q2, acc2)
            },
        }
    } else {
        None
    }
}

/// Reads one `"key": value` member starting at `pos`.
fn p_member(s: &Vec<char>, pos: usize) -> (r: Option<((String, Json), usize)>)
    requires
        pos <= s@.len(),
    ensures
        match r {
            Some(((k, v), q)) => sp_member(s@, pos as int) == Some(((k@, v.v()), q as int)) && pos
                < q <= s@.len(),
            None => sp_member(s@, pos as int) is None,
        },
    decreases s@.len() - pos, 1int,
{
    let n = s.len();
    if !(pos < n && s[pos] == '"') {
        return None;
    }
    match p_string(s, pos + 1) {
        None => None,
        Some((k, q)) => {
            let q2 = skip_ws_e(s, q);
            if !(q2 < n && s[q2] == ':') {
                return None;
            }
            let q3 = skip_ws_e(s, q2 + 1);
            match p_value(s, q3) {
                None => None,
                Some((v, q4)) => Some(((k, v), q4)),
            }
        },
    }
}

/// Reads the rest of an object after the opening brace.
fn p_object(s: &Vec<char>, pos: usize) -> (r: Option<(Json, usize)>)
    requires
        pos <= s@.len(),
    ensures
        match r {
            Some((v, q)) => sp_object(s@, pos as int) == Some((v.v(), q as int)) && pos < q
                <= s@.len(),
            None => sp_object(s@, pos as int) is None,
        },
    decreases s@.len() - pos, 2int,
{
    let n = s.len();
    let p = skip_ws_e(s, pos);
    if p >= n {
        return None;
    }
    if s[p] == '}' {
        let members: Vec<(String, Json)> = Vec::new();
        proof {
            assert(vms(members@) =~= Seq::<(Seq<char>, JsonV)>::empty());
        }
        return Some((Json::Obj(members), p + 1));
    }
    match p_member(s, p) {
        None => None,
        Some(((k, v), q)) => {
            let mut acc: Vec<(String, Json)> = Vec::new();
            acc.push((k, v));
            proof {
                assert(vms(acc@) =~= seq![(acc@[0].0@, acc@[0].1.v())]);
            }
            p_obj_items(s, q, acc)
        },
    }
}

/// Reads the rest of an object after its first `acc.len()` members.
fn p_obj_items(s: &Vec<char>, pos: usize, acc: Vec<(String, Json)>) -> (r: Option<(Json, usize)>)
    requires
        pos <= s@.len(),
    ensures
        match r {
            Some((v, q)) => sp_obj_items(s@, pos as int, vms(acc@)) == Some((v.v(), q as int))
                && pos < q <= s@.len(),
            None => sp_obj_items(s@, pos as int, vms(acc@)) is None,
        },
    decreases s@.len() - pos, 3int,
{
    let n = s.len();
    let p = skip_ws_e(s, pos);
    if p >= n {
        return None;
    }
    if s[p] == '}' {
        return Some((Json::Obj(acc), p + 1));
    }
    if s[p] == ',' {
        let q = skip_ws_e(s, p + 1);
        match p_member(s, q) {
            None => None,
            Some(((k, v), q2)) => {
                let ghost old_acc = acc@;
                let mut acc2 = acc;
                acc2.push((k, v));
                proof {
                    assert(vms(acc2@) =~= vms(old_acc).push((k@, v.v())));
                }
                p_obj_items(s, q2, acc2)
            },
        }
    } else {
        None
    }
}

impl Json {
    /// Parses a whole document: one value surrounded by whitespace only.
    pub fn parse_document(text: &str) -> (r: Option<Json>)
        ensures
            match r {
                Some(v) => sp_document(text@) == Some(v.v()),
                None => sp_document(text@) is None,
            },
    {
        let s = str_to_chars(text);
        let p = skip_ws_e(&s, 0);
        match p_value(&s, p) {
            None => None,
            Some((v, q)) => {
                let e = skip_ws_e(&s, q);
                if e == s.len() {
                    Some(v)
                } else {
                    None
                }
            },
        }
    }
}

} // verus!
