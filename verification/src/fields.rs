//! Reading and writing single fields of a wire object.
//!
//! Every document of the map format is a JSON object with known keys.  A
//! field wholly absent from the input takes its fixed default; a field that
//! is present but has the wrong JSON shape, or a numeric value that does not
//! fit the field's type, is refused.

use vstd::prelude::*;
use vstd::string::StringExecFns;

use crate::hex::{hex_accepts, hex_body, hex_val};
use crate::json::{vms, Json, JsonV};
use crate::num::{accepts_int, accepts_uint, dec_val, int_val};
use crate::text::str_eq;
use crate::Error;
use crate::ErrorKind;

verus! {

/// The value of the first member of `ms` whose key is `key`, if any.
pub open spec fn jget(ms: Seq<(Seq<char>, JsonV)>, key: Seq<char>) -> Option<JsonV>
    decreases ms.len(),
{
    if ms.len() == 0 {
        None
    } else if ms[0].0 == key {
        Some(ms[0].1)
    } else {
        jget(ms.drop_first(), key)
    }
}

/// Reads a string field; absent means `dflt`.
pub open spec fn sd_string(ms: Seq<(Seq<char>, JsonV)>, key: Seq<char>, dflt: Seq<char>) -> Result<
    Seq<char>,
    ErrorKind,
> {
    match jget(ms, key) {
        None => Ok(dflt),
        Some(JsonV::Str(t)) => Ok(t),
        Some(_) => Err(ErrorKind::Decode),
    }
}

/// Reads a boolean field; absent means `false`.
pub open spec fn sd_bool(ms: Seq<(Seq<char>, JsonV)>, key: Seq<char>) -> Result<bool, ErrorKind> {
    match jget(ms, key) {
        None => Ok(false),
        Some(JsonV::Bool(b)) => Ok(b),
        Some(_) => Err(ErrorKind::Decode),
    }
}

/// Reads an unsigned integer field no larger than `max`; absent means zero.
pub open spec fn sd_uint(ms: Seq<(Seq<char>, JsonV)>, key: Seq<char>, max: nat) -> Result<
    nat,
    ErrorKind,
> {
    match jget(ms, key) {
        None => Ok(0),
        Some(JsonV::Num(t)) => if accepts_uint(t, max) {
            Ok(dec_val(t))
        } else {
            Err(ErrorKind::Decode)
        },
        Some(_) => Err(ErrorKind::Decode),
    }
}

/// Reads a signed integer field between `min` and `max`; absent means zero.
pub open spec fn sd_int(ms: Seq<(Seq<char>, JsonV)>, key: Seq<char>, min: int, max: int) -> Result<
    int,
    ErrorKind,
> {
    match jget(ms, key) {
        None => Ok(0),
        Some(JsonV::Num(t)) => if accepts_int(t, min, max) {
            Ok(int_val(t))
        } else {
            Err(ErrorKind::Decode)
        },
        Some(_) => Err(ErrorKind::Decode),
    }
}

/// Reads a beat-count field, keeping the number text as written; absent
/// means `0.0`.
pub open spec fn sd_beats(ms: Seq<(Seq<char>, JsonV)>, key: Seq<char>) -> Result<
    Seq<char>,
    ErrorKind,
> {
    match jget(ms, key) {
        None => Ok(seq!['0', '.', '0']),
        Some(JsonV::Num(t)) => Ok(t),
        Some(_) => Err(ErrorKind::Decode),
    }
}

/// Reads a color field written as a `#RRGGBBAA` string; absent means zero.
pub open spec fn sd_hex(ms: Seq<(Seq<char>, JsonV)>, key: Seq<char>) -> Result<nat, ErrorKind> {
    match jget(ms, key) {
        None => Ok(0),
        Some(JsonV::Str(t)) => if hex_accepts(t) {
            Ok(hex_val(hex_body(t)))
        } else {
            Err(ErrorKind::Decode)
        },
        Some(_) => Err(ErrorKind::Decode),
    }
}

/// Reads an integer-coded enum field with `count` variants; absent means the
/// default variant, ordinal zero.  A number that is no byte is a shape
/// error; a byte at or over `count` is a range error carrying the byte.
pub open spec fn sd_enum(ms: Seq<(Seq<char>, JsonV)>, key: Seq<char>, count: nat) -> Result<
    nat,
    Option<u8>,
> {
    match jget(ms, key) {
        None => Ok(0),
        Some(JsonV::Num(t)) => if accepts_uint(t, 255) {
            if dec_val(t) < count {
                Ok(dec_val(t))
            } else {
                Err(Some(dec_val(t) as u8))
            }
        } else {
            Err(None)
        },
        Some(_) => Err(None),
    }
}

/// Reads an array field; absent means empty.
pub open spec fn sd_arr(ms: Seq<(Seq<char>, JsonV)>, key: Seq<char>) -> Result<
    Seq<JsonV>,
    ErrorKind,
> {
    match jget(ms, key) {
        None => Ok(Seq::empty()),
        Some(JsonV::Arr(items)) => Ok(items),
        Some(_) => Err(ErrorKind::Decode),
    }
}

/// Reads a nested object field; absent means an empty member list, which
/// defaults the whole nested structure recursively.
pub open spec fn sd_nested(ms: Seq<(Seq<char>, JsonV)>, key: Seq<char>) -> Result<
    Seq<(Seq<char>, JsonV)>,
    ErrorKind,
> {
    match jget(ms, key) {
        None => Ok(Seq::empty()),
        Some(JsonV::Obj(ms2)) => Ok(ms2),
        Some(_) => Err(ErrorKind::Decode),
    }
}

/// Looks a key up among the members of a wire object.
pub fn get_e<'a>(ms: &'a Vec<(String, Json)>, key: &str) -> (r: Option<&'a Json>)
    ensures
        match r {
            Some(j) => jget(vms(ms@), key@) == Some(j.v()),
            None => jget(vms(ms@), key@) is None,
        },
{
    let n = ms.len();
    let mut i: usize = 0;
    proof {
        assert(vms(ms@).skip(0) =~= vms(ms@));
    }
    while i < n
        invariant
            i <= n == ms@.len(),
            jget(vms(ms@), key@) == jget(vms(ms@).skip(i as int), key@),
        decreases n - i,
    {
        proof {
            assert(vms(ms@).skip(i as int)[0] == (ms@[i as int].0@, ms@[i as int].1.v()));
            assert(vms(ms@).skip(i as int).drop_first() =~= vms(ms@).skip(i + 1));
        }
        if str_eq(ms[i].0.as_str(), key) {
            return Some(&ms[i].1);
        }
        i += 1;
    }
    proof {
        assert(vms(ms@).skip(n as int).len() == 0);
    }
    None
}

/// Reads a string field; absent means `dflt`.
pub fn f_string(ms: &Vec<(String, Json)>, key: &str, dflt: &str) -> (r: Result<String, Error>)
    ensures
        match r {
            Ok(s) => sd_string(vms(ms@), key@, dflt@) == Ok::<Seq<char>, ErrorKind>(s@),
            Err(e) => sd_string(vms(ms@), key@, dflt@) == Err::<Seq<char>, ErrorKind>(e.kind()),
        },
{
    match get_e(ms, key) {
        None => Ok(String::from_str(dflt)),
        Some(j) => match j {
            Json::Str(t) => Ok(t.clone()),
            _ => Err(Error::Decode(String::from_str(key))),
        },
    }
}

/// Reads a boolean field; absent means `false`.
pub fn f_bool(ms: &Vec<(String, Json)>, key: &str) -> (r: Result<bool, Error>)
    ensures
        match r {
            Ok(b) => sd_bool(vms(ms@), key@) == Ok::<bool, ErrorKind>(b),
            Err(e) => sd_bool(vms(ms@), key@) == Err::<bool, ErrorKind>(e.kind()),
        },
{
    match get_e(ms, key) {
        None => Ok(false),
        Some(j) => match j {
            Json::Bool(b) => Ok(*b),
            _ => Err(Error::Decode(String::from_str(key))),
        },
    }
}

/// Reads a `u32` field; absent means zero.
pub fn f_u32(ms: &Vec<(String, Json)>, key: &str) -> (r: Result<u32, Error>)
    ensures
        match r {
            Ok(v) => sd_uint(vms(ms@), key@, u32::MAX as nat) == Ok::<nat, ErrorKind>(v as nat),
            Err(e) => sd_uint(vms(ms@), key@, u32::MAX as nat) == Err::<nat, ErrorKind>(e.kind()),
        },
{
    match get_e(ms, key) {
        None => Ok(0),
        Some(j) => match j {
            Json::Num(t) => match crate::num::parse_uint(t.as_str(), 0xFFFFFFFF) {
                Some(v) => Ok(v as u32),
                None => Err(Error::Decode(t.clone())),
            },
            _ => Err(Error::Decode(String::from_str(key))),
        },
    }
}

/// Reads a `usize` field; absent means zero.
pub fn f_usize(ms: &Vec<(String, Json)>, key: &str) -> (r: Result<usize, Error>)
    ensures
        match r {
            Ok(v) => sd_uint(vms(ms@), key@, usize::MAX as nat) == Ok::<nat, ErrorKind>(v as nat),
            Err(e) => sd_uint(vms(ms@), key@, usize::MAX as nat) == Err::<nat, ErrorKind>(
                e.kind(),
            ),
        },
{
    match get_e(ms, key) {
        None => Ok(0),
        Some(j) => match j {
            Json::Num(t) => match crate::num::parse_uint(t.as_str(), usize::MAX as u64) {
                Some(v) => Ok(v as usize),
                None => Err(Error::Decode(t.clone())),
            },
            _ => Err(Error::Decode(String::from_str(key))),
        },
    }
}

/// Reads a `u8` field; absent means zero.
pub fn f_u8(ms: &Vec<(String, Json)>, key: &str) -> (r: Result<u8, Error>)
    ensures
        match r {
            Ok(v) => sd_uint(vms(ms@), key@, 255) == Ok::<nat, ErrorKind>(v as nat),
            Err(e) => sd_uint(vms(ms@), key@, 255) == Err::<nat, ErrorKind>(e.kind()),
        },
{
    match get_e(ms, key) {
        None => Ok(0),
        Some(j) => match j {
            Json::Num(t) => match crate::num::parse_uint(t.as_str(), 255) {
                Some(v) => Ok(v as u8),
                None => Err(Error::Decode(t.clone())),
            },
            _ => Err(Error::Decode(String::from_str(key))),
        },
    }
}

/// Reads an `i16` field; absent means zero.
pub fn f_i16(ms: &Vec<(String, Json)>, key: &str) -> (r: Result<i16, Error>)
    ensures
        match r {
            Ok(v) => sd_int(vms(ms@), key@, i16::MIN as int, i16::MAX as int) == Ok::<
                int,
                ErrorKind,
            >(v as int),
            Err(e) => sd_int(vms(ms@), key@, i16::MIN as int, i16::MAX as int) == Err::<
                int,
                ErrorKind,
            >(e.kind()),
        },
{
    match get_e(ms, key) {
        None => Ok(0),
        Some(j) => match j {
            Json::Num(t) => match crate::num::parse_int(t.as_str(), -0x8000, 0x7FFF) {
                Some(v) => Ok(v as i16),
                None => Err(Error::Decode(t.clone())),
            },
            _ => Err(Error::Decode(String::from_str(key))),
        },
    }
}

/// Reads an `i8` field; absent means zero.
pub fn f_i8(ms: &Vec<(String, Json)>, key: &str) -> (r: Result<i8, Error>)
    ensures
        match r {
            Ok(v) => sd_int(vms(ms@), key@, i8::MIN as int, i8::MAX as int) == Ok::<
                int,
                ErrorKind,
            >(v as int),
            Err(e) => sd_int(vms(ms@), key@, i8::MIN as int, i8::MAX as int) == Err::<
                int,
                ErrorKind,
            >(e.kind()),
        },
{
    match get_e(ms, key) {
        None => Ok(0),
        Some(j) => match j {
            Json::Num(t) => match crate::num::parse_int(t.as_str(), -0x80, 0x7F) {
                Some(v) => Ok(v as i8),
                None => Err(Error::Decode(t.clone())),
            },
            _ => Err(Error::Decode(String::from_str(key))),
        },
    }
}

/// Reads a beat-count field, keeping the number text; absent means `0.0`.
pub fn f_beats(ms: &Vec<(String, Json)>, key: &str) -> (r: Result<String, Error>)
    ensures
        match r {
            Ok(s) => sd_beats(vms(ms@), key@) == Ok::<Seq<char>, ErrorKind>(s@),
            Err(e) => sd_beats(vms(ms@), key@) == Err::<Seq<char>, ErrorKind>(e.kind()),
        },
{
    match get_e(ms, key) {
        None => {
            let d = String::from_str("0.0");
            proof {
                reveal_strlit("0.0");
                assert(d@ =~= seq!['0', '.', '0']);
            }
            Ok(d)
        },
        Some(j) => match j {
            Json::Num(t) => Ok(t.clone()),
            _ => Err(Error::Decode(String::from_str(key))),
        },
    }
}

/// Reads a color field written in `#RRGGBBAA` form; absent means zero.
pub fn f_hex(ms: &Vec<(String, Json)>, key: &str) -> (r: Result<u32, Error>)
    ensures
        match r {
            Ok(v) => sd_hex(vms(ms@), key@) == Ok::<nat, ErrorKind>(v as nat),
            Err(e) => sd_hex(vms(ms@), key@) == Err::<nat, ErrorKind>(e.kind()),
        },
{
    match get_e(ms, key) {
        None => Ok(0),
        Some(j) => match j {
            Json::Str(t) => crate::hex::decode_hex(t.as_str()),
            _ => Err(Error::Decode(String::from_str(key))),
        },
    }
}

/// Reads an integer-coded enum field with `count` variants as the variant's
/// ordinal; absent means zero.  A range failure carries the offending byte.
pub fn f_enum(ms: &Vec<(String, Json)>, key: &str, count: u8) -> (r: Result<u8, Option<u8>>)
    requires
        count >= 1,
    ensures
        match r {
            Ok(v) => sd_enum(vms(ms@), key@, count as nat) == Ok::<nat, Option<u8>>(v as nat) && v
                < count,
            Err(e) => sd_enum(vms(ms@), key@, count as nat) == Err::<nat, Option<u8>>(e),
        },
{
    match get_e(ms, key) {
        None => Ok(0),
        Some(j) => match j {
            Json::Num(t) => match crate::num::parse_uint(t.as_str(), 255) {
                Some(v) => if (v as u8) < count {
                    Ok(v as u8)
                } else {
                    Err(Some(v as u8))
                },
                None => Err(None),
            },
            _ => Err(None),
        },
    }
}

/// Looking a key up finds the value at the first position holding it.
pub proof fn lemma_jget_at(ms: Seq<(Seq<char>, JsonV)>, i: int, key: Seq<char>)
    requires
        0 <= i < ms.len(),
        ms[i].0 == key,
        forall|j: int| 0 <= j < i ==> (#[trigger] ms[j].0) != key,
    ensures
        jget(ms, key) == Some(ms[i].1),
    decreases i,
{
    if i == 0 {
    } else {
        assert(ms[0].0 != key);
        assert(ms.drop_first()[i - 1] == ms[i]);
        assert(forall|j: int|
            0 <= j < i - 1 ==> (#[trigger] ms.drop_first()[j].0) == ms[j + 1].0 && ms[j + 1].0
                != key);
        lemma_jget_at(ms.drop_first(), i - 1, key);
    }
}

} // verus!
