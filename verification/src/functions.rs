//! The function catalog: typed signatures for the builtin functions and the
//! argument validation that runs before any implementation.
//!
//! A signature is an ordered list of parameter types. A call is validated
//! against the signature — arity first, then each argument against its
//! declared type — and a mismatch is reported as a distinct error before the
//! implementation runs; there is no coercion.

use vstd::prelude::*;
use vstd::string::StrSliceExecFns;
use vstd::string::StringExecFns;

use crate::bridge;
use crate::scope::string_equal;
use crate::bridge::b64_of;
use crate::bridge::json_of;
use crate::bridge::json_parsed;
use crate::bridge::lower_of;
use crate::bridge::md5_of;
use crate::bridge::num_of_u64;
use crate::bridge::sha1_of;
use crate::bridge::sha256_of;
use crate::bridge::sha512_of;
use crate::bridge::trimmed_of;
use crate::bridge::upper_of;
use crate::bridge::utf8_byte_len;
use crate::bridge::uuid5_of;
use crate::bridge::yaml_of;
use crate::bridge::yaml_parsed;
use crate::errors::FnError;
use crate::value::SpecValue;
use crate::value::Val;
use crate::value::view_value;
use crate::value::view_values;
use crate::value::lemma_view_values_index;
use crate::value::lemma_view_values_len;

verus! {

/// A declared parameter type.
#[derive(Debug, PartialEq)]
pub enum ParamType {
    /// Any value is allowed.
    Any,
    /// The argument must be a boolean.
    Bool,
    /// The argument must be a number.
    Num,
    /// The argument must be a string.
    Str,
    /// The argument must be an array whose elements all match the inner type.
    ArrayOf(Box<ParamType>),
    /// The argument must be null or match the inner type.
    Nullable(Box<ParamType>),
}

/// Whether a value satisfies a declared parameter type.
pub open spec fn matches_param(p: ParamType, v: SpecValue) -> bool
    decreases p,
{
    match p {
        ParamType::Any => true,
        ParamType::Bool => v is Bool,
        ParamType::Num => v is Num,
        ParamType::Str => v is Str,
        ParamType::ArrayOf(t) => v is Arr && (forall|i: int|
            0 <= i < v->Arr_0.len() ==> matches_param(*t, #[trigger] v->Arr_0[i])),
        ParamType::Nullable(t) => v is Null || matches_param(*t, v),
    }
}

/// Whether an argument list satisfies a signature: equal arity, and each
/// argument matches its declared type.
pub open spec fn args_match(params: Seq<ParamType>, args: Seq<SpecValue>) -> bool {
    params.len() == args.len() && (forall|i: int|
        0 <= i < params.len() ==> matches_param(#[trigger] params[i], args[i]))
}

/// Decides `matches_param`.
pub fn value_matches(p: &ParamType, v: &Val) -> (r: bool)
    ensures
        r == matches_param(*p, v@),
    decreases p,
{
    match p {
        ParamType::Any => true,
        ParamType::Bool => matches!(v, Val::Bool(_)),
        ParamType::Num => matches!(v, Val::Num(_)),
        ParamType::Str => matches!(v, Val::Str(_)),
        ParamType::ArrayOf(t) => {
            match v {
                Val::Arr(items) => {
                    let mut i: usize = 0;
                    proof {
                        lemma_view_values_len(items@);
                    }
                    while i < items.len()
                        invariant
                            i <= items@.len(),
                            view_values(items@).len() == items@.len(),
                            v@ == view_value(*v),
                            v@->Arr_0 == view_values(items@),
                            *p is ArrayOf,
                            (*p)->ArrayOf_0 == *t,
                            forall|j: int|
                                0 <= j < i ==> matches_param(
                                    **t,
                                    #[trigger] view_values(items@)[j],
                                ),
                        decreases items@.len() - i,
                    {
                        proof {
                            assert(decreases_to!(*p => (*p)->ArrayOf_0));
                        }
                        let m = value_matches(t, &items[i]);
                        proof {
                            lemma_view_values_index(items@, i as int);
                        }
                        if !m {
                            return false;
                        }
                        i = i + 1;
                    }
                    true
                },
                _ => false,
            }
        },
        ParamType::Nullable(t) => {
            match v {
                Val::Null => true,
                _ => {
                    proof {
                        assert(decreases_to!(*p => (*p)->Nullable_0));
                    }
                    value_matches(t, v)
                },
            }
        },
    }
}

/// Decides `args_match`.
pub fn check_args(params: &Vec<ParamType>, args: &Vec<Val>) -> (r: bool)
    ensures
        r == args_match(params@, view_values(args@)),
{
    proof {
        lemma_view_values_len(args@);
    }
    if params.len() != args.len() {
        return false;
    }
    let mut i: usize = 0;
    while i < params.len()
        invariant
            i <= params@.len(),
            params@.len() == args@.len(),
            view_values(args@).len() == args@.len(),
            forall|j: int|
                0 <= j < i ==> matches_param(#[trigger] params@[j], view_values(args@)[j]),
        decreases params@.len() - i,
    {
        let m = value_matches(&params[i], &args[i]);
        proof {
            lemma_view_values_index(args@, i as int);
        }
        if !m {
            return false;
        }
        i = i + 1;
    }
    true
}

/// The lowercase hex digit for a nibble.
pub open spec fn hex_digit(n: u8) -> char {
    if n < 10 {
        (n + 0x30) as char
    } else {
        (n + 0x57) as char
    }
}

/// The lowercase hex encoding of a byte sequence: two digits per byte.
pub open spec fn hex_of(bytes: Seq<u8>) -> Seq<char>
    decreases bytes,
{
    if bytes.len() == 0 {
        Seq::empty()
    } else {
        hex_of(bytes.drop_last()) + seq![
            hex_digit(bytes.last() / 16),
            hex_digit(bytes.last() % 16),
        ]
    }
}

/// Encodes bytes as lowercase hex, two digits per byte.
pub fn to_hex(bytes: &Vec<u8>) -> (r: String)
    ensures
        r@ == hex_of(bytes@),
{
    let mut out = String::new();
    let mut i: usize = 0;
    proof {
        assert(hex_of(bytes@.subrange(0, 0)) =~= Seq::<char>::empty());
    }
    while i < bytes.len()
        invariant
            i <= bytes@.len(),
            out@ == hex_of(bytes@.subrange(0, i as int)),
        decreases bytes@.len() - i,
    {
        let b = bytes[i];
        let hi = b / 16;
        let lo = b % 16;
        let hc = if hi < 10 {
            (hi + 0x30) as char
        } else {
            (hi + 0x57) as char
        };
        let lc = if lo < 10 {
            (lo + 0x30) as char
        } else {
            (lo + 0x57) as char
        };
        bridge::push_char(&mut out, hc);
        bridge::push_char(&mut out, lc);
        proof {
            let next = bytes@.subrange(0, i as int + 1);
            assert(next.drop_last() =~= bytes@.subrange(0, i as int));
            assert(next.last() == bytes@[i as int]);
            assert(out@ =~= hex_of(next));
        }
        i = i + 1;
    }
    proof {
        assert(bytes@.subrange(0, bytes@.len() as int) =~= bytes@);
    }
    out
}

/// The first index at or after `from` where `sep` occurs in `s`.
pub open spec fn find_from(s: Seq<char>, sep: Seq<char>, from: nat) -> Option<nat>
    decreases s.len() - from
        when from <= s.len() && sep.len() > 0
{
    if from + sep.len() > s.len() {
        Option::None
    } else if s.subrange(from as int, from + sep.len() as int) == sep {
        Option::Some(from)
    } else {
        find_from(s, sep, from + 1)
    }
}

/// What `find_from` finds is the first occurrence at or after `from`.
pub proof fn lemma_find_from(s: Seq<char>, sep: Seq<char>, from: nat)
    requires
        from <= s.len(),
        sep.len() > 0,
    ensures
        match find_from(s, sep, from) {
            Option::Some(i) => from <= i && i + sep.len() <= s.len() && s.subrange(
                i as int,
                i + sep.len() as int,
            ) == sep && (forall|j: int|
                from <= j < i ==> #[trigger] s.subrange(j, j + sep.len() as int) != sep),
            Option::None => forall|j: int|
                from <= j && j + sep.len() <= s.len() ==> #[trigger] s.subrange(
                    j,
                    j + sep.len() as int,
                ) != sep,
        },
    decreases s.len() - from,
{
    if from + sep.len() > s.len() {
    } else if s.subrange(from as int, from + sep.len() as int) == sep {
    } else {
        lemma_find_from(s, sep, from + 1);
    }
}

/// The pieces of `s` from `from` onward, split on non-overlapping, leftmost
/// occurrences of a non-empty separator.
pub open spec fn split_at(s: Seq<char>, sep: Seq<char>, from: nat) -> Seq<Seq<char>>
    decreases s.len() - from
        when from <= s.len() && sep.len() > 0
        via split_at_decreases
{
    match find_from(s, sep, from) {
        Option::Some(i) => seq![s.subrange(from as int, i as int)] + split_at(
            s,
            sep,
            (i + sep.len()) as nat,
        ),
        Option::None => seq![s.subrange(from as int, s.len() as int)],
    }
}

#[via_fn]
proof fn split_at_decreases(s: Seq<char>, sep: Seq<char>, from: nat) {
    lemma_find_from(s, sep, from);
}

/// The pieces of `s` split on `sep`. An empty separator matches at every
/// character boundary: the pieces are an empty string, each character, and an
/// empty string again.
pub open spec fn split_of(s: Seq<char>, sep: Seq<char>) -> Seq<Seq<char>> {
    if sep.len() == 0 {
        seq![Seq::<char>::empty()] + s.map_values(|c: char| seq![c]) + seq![Seq::<char>::empty()]
    } else {
        split_at(s, sep, 0)
    }
}

/// The strings among a sequence of values, in order; other values are passed
/// over.
pub open spec fn kept_strings(items: Seq<SpecValue>) -> Seq<Seq<char>>
    decreases items,
{
    if items.len() == 0 {
        Seq::empty()
    } else {
        kept_strings(items.drop_last()) + (if items.last() is Str {
            seq![items.last()->Str_0]
        } else {
            Seq::empty()
        })
    }
}

/// The parts concatenated with `sep` between consecutive parts.
pub open spec fn joined(parts: Seq<Seq<char>>, sep: Seq<char>) -> Seq<char>
    decreases parts,
{
    if parts.len() == 0 {
        Seq::empty()
    } else if parts.len() == 1 {
        parts[0]
    } else {
        joined(parts.drop_last(), sep) + sep + parts.last()
    }
}

/// Identifies a builtin implementation in the closed registry.
#[derive(Debug, PartialEq, Eq, Clone, Copy)]
pub enum BuiltinId {
    YamlDecode,
    YamlEncode,
    JsonDecode,
    JsonEncode,
    Base64Encode,
    Base64Decode,
    Lower,
    Upper,
    Split,
    Join,
    Strlen,
    Trimspace,
    Strrev,
    Md5,
    Sha1,
    Sha256,
    Sha512,
    Bcrypt,
    UuidV4,
    UuidV5,
}

/// The declared signature of each builtin.
pub open spec fn spec_sig(id: BuiltinId) -> Seq<ParamType> {
    match id {
        BuiltinId::YamlDecode => seq![ParamType::Str],
        BuiltinId::YamlEncode => seq![ParamType::Any],
        BuiltinId::JsonDecode => seq![ParamType::Str],
        BuiltinId::JsonEncode => seq![ParamType::Any],
        BuiltinId::Base64Encode => seq![ParamType::Str],
        BuiltinId::Base64Decode => seq![ParamType::Str],
        BuiltinId::Lower => seq![ParamType::Str],
        BuiltinId::Upper => seq![ParamType::Str],
        BuiltinId::Split => seq![ParamType::Str, ParamType::Str],
        BuiltinId::Join => seq![ParamType::Str, ParamType::ArrayOf(Box::new(ParamType::Str))],
        BuiltinId::Strlen => seq![ParamType::Str],
        BuiltinId::Trimspace => seq![ParamType::Str],
        BuiltinId::Strrev => seq![ParamType::Str],
        BuiltinId::Md5 => seq![ParamType::Str],
        BuiltinId::Sha1 => seq![ParamType::Str],
        BuiltinId::Sha256 => seq![ParamType::Str],
        BuiltinId::Sha512 => seq![ParamType::Str],
        BuiltinId::Bcrypt => seq![
            ParamType::Str,
            ParamType::Nullable(Box::new(ParamType::Num)),
        ],
        BuiltinId::UuidV4 => Seq::empty(),
        BuiltinId::UuidV5 => seq![ParamType::Str, ParamType::Str],
    }
}

/// The outcome of a builtin as contracts see it: the value on success,
/// nothing on error.
pub open spec fn res_view(r: Result<Val, String>) -> Option<SpecValue> {
    match r {
        Ok(v) => Option::Some(view_value(v)),
        Err(_) => Option::None,
    }
}

/// What each builtin returns, for every argument list: exactly when it
/// succeeds, and with which value; `None` stands for an error.
pub open spec fn builtin_post(id: BuiltinId, args: Seq<SpecValue>, out: Option<SpecValue>) -> bool {
    match id {
        BuiltinId::YamlDecode => if args.len() == 1 && args[0] is Str {
            match yaml_parsed(args[0]->Str_0) {
                Option::Some(v) => out == Option::Some(v),
                Option::None => out is None,
            }
        } else {
            out is None
        },
        BuiltinId::YamlEncode => if args.len() == 1 {
            out matches Some(t) ==> t == SpecValue::Str(yaml_of(args[0]))
        } else {
            out is None
        },
        BuiltinId::JsonDecode => if args.len() == 1 && args[0] is Str {
            match json_parsed(args[0]->Str_0) {
                Option::Some(v) => out == Option::Some(v),
                Option::None => out is None,
            }
        } else {
            out is None
        },
        BuiltinId::JsonEncode => if args.len() == 1 {
            out matches Some(t) ==> t == SpecValue::Str(json_of(args[0]))
        } else {
            out is None
        },
        BuiltinId::Base64Encode => if args.len() == 1 && args[0] is Str {
            out == Option::Some(SpecValue::Str(b64_of(args[0]->Str_0)))
        } else {
            out is None
        },
        BuiltinId::Base64Decode => if args.len() == 1 && args[0] is Str {
            out matches Some(d) ==> d is Str && b64_of(d->Str_0) == args[0]->Str_0
        } else {
            out is None
        },
        BuiltinId::Lower => if args.len() == 1 && args[0] is Str {
            out == Option::Some(SpecValue::Str(lower_of(args[0]->Str_0)))
        } else {
            out is None
        },
        BuiltinId::Upper => if args.len() == 1 && args[0] is Str {
            out == Option::Some(SpecValue::Str(upper_of(args[0]->Str_0)))
        } else {
            out is None
        },
        BuiltinId::Split => if args.len() == 2 && args[0] is Str && args[1] is Str {
            out == Option::Some(
                SpecValue::Arr(
                    split_of(args[1]->Str_0, args[0]->Str_0).map_values(
                        |p: Seq<char>| SpecValue::Str(p),
                    ),
                ),
            )
        } else {
            out is None
        },
        BuiltinId::Join => if args.len() == 2 && args[0] is Str && args[1] is Arr {
            out == Option::Some(
                SpecValue::Str(joined(kept_strings(args[1]->Arr_0), args[0]->Str_0)),
            )
        } else {
            out is None
        },
        BuiltinId::Strlen => if args.len() == 1 && args[0] is Str {
            out == Option::Some(
                SpecValue::Num(num_of_u64(utf8_byte_len(args[0]->Str_0) as u64)),
            )
        } else {
            out is None
        },
        BuiltinId::Trimspace => if args.len() == 1 && args[0] is Str {
            out == Option::Some(SpecValue::Str(trimmed_of(args[0]->Str_0)))
        } else {
            out is None
        },
        BuiltinId::Strrev => if args.len() == 1 && args[0] is Str {
            out == Option::Some(SpecValue::Str(args[0]->Str_0.reverse()))
        } else {
            out is None
        },
        BuiltinId::Md5 => if args.len() == 1 && args[0] is Str {
            out == Option::Some(SpecValue::Str(hex_of(md5_of(args[0]->Str_0))))
        } else {
            out is None
        },
        BuiltinId::Sha1 => if args.len() == 1 && args[0] is Str {
            out == Option::Some(SpecValue::Str(hex_of(sha1_of(args[0]->Str_0))))
        } else {
            out is None
        },
        BuiltinId::Sha256 => if args.len() == 1 && args[0] is Str {
            out == Option::Some(SpecValue::Str(hex_of(sha256_of(args[0]->Str_0))))
        } else {
            out is None
        },
        BuiltinId::Sha512 => if args.len() == 1 && args[0] is Str {
            out == Option::Some(SpecValue::Str(hex_of(sha512_of(args[0]->Str_0))))
        } else {
            out is None
        },
        BuiltinId::Bcrypt => if args.len() == 2 && args[0] is Str && (args[1] is Num || args[1]
            is Null) {
            out matches Some(h) ==> h is Str
        } else {
            out is None
        },
        BuiltinId::UuidV4 => out matches Some(u) ==> u is Str,
        BuiltinId::UuidV5 => if args.len() == 2 && args[0] is Str && args[1] is Str {
            out matches Some(u) ==> u == SpecValue::Str(
                uuid5_of(args[0]->Str_0, args[1]->Str_0),
            )
        } else {
            out is None
        },
    }
}

/// The string argument at `i`, when there is one.
fn arg_str<'a>(args: &'a Vec<Val>, i: usize) -> (r: Option<&'a String>)
    ensures
        view_values(args@).len() == args@.len(),
        match r {
            Option::Some(s) => i < args@.len() && view_values(args@)[i as int] == SpecValue::Str(
                s@,
            ),
            Option::None => !(i < args@.len() && view_values(args@)[i as int] is Str),
        },
{
    proof {
        lemma_view_values_len(args@);
    }
    if i < args.len() {
        proof {
            lemma_view_values_index(args@, i as int);
        }
        match &args[i] {
            Val::Str(s) => Option::Some(s),
            _ => Option::None,
        }
    } else {
        Option::None
    }
}

/// The error every builtin reports on arguments outside its signature.
fn invalid_args() -> (r: String) {
    String::from_str("invalid arguments")
}

/// Parses the single string argument as YAML.
pub fn yamldecode(args: &Vec<Val>) -> (r: Result<Val, String>)
    ensures
        builtin_post(BuiltinId::YamlDecode, view_values(args@), res_view(r)),
{
    proof {
        lemma_view_values_len(args@);
    }
    if args.len() != 1 {
        return Err(invalid_args());
    }
    match arg_str(args, 0) {
        Option::Some(s) => bridge::yaml_decode_value(s),
        Option::None => Err(invalid_args()),
    }
}

/// Serializes the single argument as YAML.
pub fn yamlencode(args: &Vec<Val>) -> (r: Result<Val, String>)
    ensures
        builtin_post(BuiltinId::YamlEncode, view_values(args@), res_view(r)),
{
    proof {
        lemma_view_values_len(args@);
    }
    if args.len() != 1 {
        return Err(invalid_args());
    }
    proof {
        lemma_view_values_index(args@, 0);
    }
    match bridge::yaml_encode_value(&args[0]) {
        Ok(t) => Ok(Val::Str(t)),
        Err(e) => Err(e),
    }
}

/// Parses the single string argument as JSON.
pub fn jsondecode(args: &Vec<Val>) -> (r: Result<Val, String>)
    ensures
        builtin_post(BuiltinId::JsonDecode, view_values(args@), res_view(r)),
{
    proof {
        lemma_view_values_len(args@);
    }
    if args.len() != 1 {
        return Err(invalid_args());
    }
    match arg_str(args, 0) {
        Option::Some(s) => bridge::json_decode_value(s),
        Option::None => Err(invalid_args()),
    }
}

/// Serializes the single argument as JSON.
pub fn jsonencode(args: &Vec<Val>) -> (r: Result<Val, String>)
    ensures
        builtin_post(BuiltinId::JsonEncode, view_values(args@), res_view(r)),
{
    proof {
        lemma_view_values_len(args@);
    }
    if args.len() != 1 {
        return Err(invalid_args());
    }
    proof {
        lemma_view_values_index(args@, 0);
    }
    match bridge::json_encode_value(&args[0]) {
        Ok(t) => Ok(Val::Str(t)),
        Err(e) => Err(e),
    }
}

/// Encodes the single string argument as standard padded base64.
pub fn base64encode(args: &Vec<Val>) -> (r: Result<Val, String>)
    ensures
        builtin_post(BuiltinId::Base64Encode, view_values(args@), res_view(r)),
{
    proof {
        lemma_view_values_len(args@);
    }
    if args.len() != 1 {
        return Err(invalid_args());
    }
    match arg_str(args, 0) {
        Option::Some(s) => Ok(Val::Str(bridge::b64_encode(s))),
        Option::None => Err(invalid_args()),
    }
}

/// Decodes the single string argument from standard padded base64.
pub fn base64decode(args: &Vec<Val>) -> (r: Result<Val, String>)
    ensures
        builtin_post(BuiltinId::Base64Decode, view_values(args@), res_view(r)),
{
    proof {
        lemma_view_values_len(args@);
    }
    if args.len() != 1 {
        return Err(invalid_args());
    }
    match arg_str(args, 0) {
        Option::Some(s) => match bridge::b64_decode(s) {
            Ok(d) => Ok(Val::Str(d)),
            Err(e) => Err(e),
        },
        Option::None => Err(invalid_args()),
    }
}

/// Lowercases the single string argument.
pub fn lower(args: &Vec<Val>) -> (r: Result<Val, String>)
    ensures
        builtin_post(BuiltinId::Lower, view_values(args@), res_view(r)),
{
    proof {
        lemma_view_values_len(args@);
    }
    if args.len() != 1 {
        return Err(invalid_args());
    }
    match arg_str(args, 0) {
        Option::Some(s) => Ok(Val::Str(bridge::lower_string(s))),
        Option::None => Err(invalid_args()),
    }
}

/// Uppercases the single string argument.
pub fn upper(args: &Vec<Val>) -> (r: Result<Val, String>)
    ensures
        builtin_post(BuiltinId::Upper, view_values(args@), res_view(r)),
{
    proof {
        lemma_view_values_len(args@);
    }
    if args.len() != 1 {
        return Err(invalid_args());
    }
    match arg_str(args, 0) {
        Option::Some(s) => Ok(Val::Str(bridge::upper_string(s))),
        Option::None => Err(invalid_args()),
    }
}

/// The length, in bytes, of the single string argument.
pub fn strlen(args: &Vec<Val>) -> (r: Result<Val, String>)
    ensures
        builtin_post(BuiltinId::Strlen, view_values(args@), res_view(r)),
{
    proof {
        lemma_view_values_len(args@);
    }
    if args.len() != 1 {
        return Err(invalid_args());
    }
    match arg_str(args, 0) {
        Option::Some(s) => {
            let n = bridge::str_byte_len(s);
            Ok(Val::Num(bridge::number_from_u64(n as u64)))
        },
        Option::None => Err(invalid_args()),
    }
}

/// Trims leading and trailing whitespace off the single string argument.
pub fn trimspace(args: &Vec<Val>) -> (r: Result<Val, String>)
    ensures
        builtin_post(BuiltinId::Trimspace, view_values(args@), res_view(r)),
{
    proof {
        lemma_view_values_len(args@);
    }
    if args.len() != 1 {
        return Err(invalid_args());
    }
    match arg_str(args, 0) {
        Option::Some(s) => Ok(Val::Str(bridge::trim_string(s))),
        Option::None => Err(invalid_args()),
    }
}

/// Reverses the characters of the single string argument.
pub fn strrev(args: &Vec<Val>) -> (r: Result<Val, String>)
    ensures
        builtin_post(BuiltinId::Strrev, view_values(args@), res_view(r)),
{
    proof {
        lemma_view_values_len(args@);
    }
    if args.len() != 1 {
        return Err(invalid_args());
    }
    match arg_str(args, 0) {
        Option::Some(s) => {
            let n = s.as_str().unicode_len();
            let mut out = String::new();
            let mut i: usize = 0;
            while i < n
                invariant
                    n == s@.len(),
                    i <= n,
                    out@ == s@.subrange(n - i, n as int).reverse(),
                decreases n - i,
            {
                let piece = s.as_str().substring_char(n - 1 - i, n - i);
                out.append(piece);
                proof {
                    let prev = s@.subrange(n - i, n as int);
                    let next = s@.subrange(n - i - 1, n as int);
                    assert(out@ =~= next.reverse());
                }
                i = i + 1;
            }
            proof {
                assert(s@.subrange(0, n as int) =~= s@);
            }
            Ok(Val::Str(out))
        },
        Option::None => Err(invalid_args()),
    }
}

/// The MD5 digest of the single string argument, in lowercase hex.
pub fn md5(args: &Vec<Val>) -> (r: Result<Val, String>)
    ensures
        builtin_post(BuiltinId::Md5, view_values(args@), res_view(r)),
{
    proof {
        lemma_view_values_len(args@);
    }
    if args.len() != 1 {
        return Err(invalid_args());
    }
    match arg_str(args, 0) {
        Option::Some(s) => Ok(Val::Str(to_hex(&bridge::md5_digest(s)))),
        Option::None => Err(invalid_args()),
    }
}

/// The SHA-1 digest of the single string argument, in lowercase hex.
pub fn sha1(args: &Vec<Val>) -> (r: Result<Val, String>)
    ensures
        builtin_post(BuiltinId::Sha1, view_values(args@), res_view(r)),
{
    proof {
        lemma_view_values_len(args@);
    }
    if args.len() != 1 {
        return Err(invalid_args());
    }
    match arg_str(args, 0) {
        Option::Some(s) => Ok(Val::Str(to_hex(&bridge::sha1_digest(s)))),
        Option::None => Err(invalid_args()),
    }
}

/// The SHA-256 digest of the single string argument, in lowercase hex.
pub fn sha256(args: &Vec<Val>) -> (r: Result<Val, String>)
    ensures
        builtin_post(BuiltinId::Sha256, view_values(args@), res_view(r)),
{
    proof {
        lemma_view_values_len(args@);
    }
    if args.len() != 1 {
        return Err(invalid_args());
    }
    match arg_str(args, 0) {
        Option::Some(s) => Ok(Val::Str(to_hex(&bridge::sha256_digest(s)))),
        Option::None => Err(invalid_args()),
    }
}

/// The SHA-512 digest of the single string argument, in lowercase hex.
pub fn sha512(args: &Vec<Val>) -> (r: Result<Val, String>)
    ensures
        builtin_post(BuiltinId::Sha512, view_values(args@), res_view(r)),
{
    proof {
        lemma_view_values_len(args@);
    }
    if args.len() != 1 {
        return Err(invalid_args());
    }
    match arg_str(args, 0) {
        Option::Some(s) => Ok(Val::Str(to_hex(&bridge::sha512_digest(s)))),
        Option::None => Err(invalid_args()),
    }
}

/// Hashes the string argument with bcrypt; the second argument is the cost,
/// or null for the default cost.
pub fn bcrypt(args: &Vec<Val>) -> (r: Result<Val, String>)
    ensures
        builtin_post(BuiltinId::Bcrypt, view_values(args@), res_view(r)),
{
    proof {
        lemma_view_values_len(args@);
    }
    if args.len() != 2 {
        return Err(invalid_args());
    }
    proof {
        lemma_view_values_index(args@, 0);
        lemma_view_values_index(args@, 1);
    }
    let s = match &args[0] {
        Val::Str(s) => s,
        _ => {
            return Err(invalid_args());
        },
    };
    let cost: u64 = match &args[1] {
        Val::Num(n) => {
            match n.as_u64() {
                Option::Some(c) => c,
                Option::None => 10,
            }
        },
        Val::Null => 10,
        _ => {
            return Err(invalid_args());
        },
    };
    if cost > 0xffff_ffff {
        return Err(invalid_args());
    }
    match bridge::bcrypt_hash(s, cost as u32) {
        Ok(h) => Ok(Val::Str(h)),
        Err(e) => Err(e),
    }
}

/// A fresh random version-4 UUID in textual form.
pub fn uuidv4(args: &Vec<Val>) -> (r: Result<Val, String>)
    ensures
        builtin_post(BuiltinId::UuidV4, view_values(args@), res_view(r)),
{
    let _ = args;
    Ok(Val::Str(bridge::uuid_v4()))
}

/// The version-5 UUID of a namespace UUID and a name, in textual form.
pub fn uuidv5(args: &Vec<Val>) -> (r: Result<Val, String>)
    ensures
        builtin_post(BuiltinId::UuidV5, view_values(args@), res_view(r)),
{
    proof {
        lemma_view_values_len(args@);
    }
    if args.len() != 2 {
        return Err(invalid_args());
    }
    match (arg_str(args, 0), arg_str(args, 1)) {
        (Option::Some(ns), Option::Some(name)) => {
            match bridge::uuid_v5(ns, name) {
                Ok(u) => Ok(Val::Str(u)),
                Err(e) => Err(e),
            }
        },
        _ => Err(invalid_args()),
    }
}

/// Whether `sep` occurs in `s` at position `i`.
fn match_at(s: &String, i: usize, sep: &String) -> (r: bool)
    requires
        i + sep@.len() <= s@.len(),
        s@.len() <= usize::MAX,
    ensures
        r == (s@.subrange(i as int, i + sep@.len() as int) == sep@),
{
    let m = sep.as_str().unicode_len();
    let mut j: usize = 0;
    while j < m
        invariant
            m == sep@.len(),
            i + m <= s@.len(),
            s@.len() <= usize::MAX,
            j <= m,
            forall|t: int| 0 <= t < j ==> s@[i + t] == sep@[t],
        decreases m - j,
    {
        let a = s.as_str().get_char(i + j);
        let b = sep.as_str().get_char(j);
        if a != b {
            proof {
                assert(s@.subrange(i as int, i + sep@.len() as int)[j as int] == s@[i + j]);
            }
            return false;
        }
        j = j + 1;
    }
    proof {
        assert(s@.subrange(i as int, i + sep@.len() as int) =~= sep@);
    }
    true
}

/// Splits the second string argument on the first: pieces between leftmost,
/// non-overlapping occurrences of the separator; on an empty separator, every
/// character boundary splits.
pub fn split(args: &Vec<Val>) -> (r: Result<Val, String>)
    ensures
        builtin_post(BuiltinId::Split, view_values(args@), res_view(r)),
{
    proof {
        lemma_view_values_len(args@);
    }
    if args.len() != 2 {
        return Err(invalid_args());
    }
    let sep = match arg_str(args, 0) {
        Option::Some(sep) => sep,
        Option::None => {
            return Err(invalid_args());
        },
    };
    let st = match arg_str(args, 1) {
        Option::Some(st) => st,
        Option::None => {
            return Err(invalid_args());
        },
    };
    let n = st.as_str().unicode_len();
    let m = sep.as_str().unicode_len();
    let mut parts: Vec<Val> = Vec::new();
    let ghost mut pieces: Seq<Seq<char>> = Seq::empty();
    if m == 0 {
        parts.push(Val::Str(String::new()));
        proof {
            lemma_view_values_len(parts@);
            lemma_view_values_index(parts@, 0);
        }
        let mut i: usize = 0;
        while i < n
            invariant
                n == st@.len(),
                i <= n,
                parts@.len() == i + 1,
                view_values(parts@).len() == i + 1,
                view_values(parts@)[0] == SpecValue::Str(Seq::<char>::empty()),
                forall|t: int|
                    0 <= t < i ==> view_values(parts@)[t + 1] == SpecValue::Str(seq![st@[t]]),
            decreases n - i,
        {
            let ghost pre = parts@;
            parts.push(Val::Str(st.as_str().substring_char(i, i + 1).to_owned()));
            proof {
                assert(parts@.drop_last() =~= pre);
                lemma_view_values_len(parts@);
                lemma_view_values_index(parts@, i as int + 1);
                assert forall|t: int| 0 <= t < i + 1 implies view_values(parts@)[t]
                    == view_values(pre)[t] by {
                    lemma_view_values_index(parts@, t);
                    lemma_view_values_index(pre, t);
                }
                assert(st@.subrange(i as int, i as int + 1) =~= seq![st@[i as int]]);
            }
            i = i + 1;
        }
        let ghost pre = parts@;
        parts.push(Val::Str(String::new()));
        proof {
            assert(parts@.drop_last() =~= pre);
            lemma_view_values_len(parts@);
            lemma_view_values_index(parts@, parts@.len() as int - 1);
            assert forall|t: int| 0 <= t < parts@.len() - 1 implies view_values(parts@)[t]
                == view_values(pre)[t] by {
                lemma_view_values_index(parts@, t);
                lemma_view_values_index(pre, t);
            }
            let total = split_of(st@, sep@);
            let mapped = total.map_values(|p: Seq<char>| SpecValue::Str(p));
            assert(st@.map_values(|c: char| seq![c]).len() == n);
            assert(total.len() == n + 2);
            assert(pre.len() == n + 1);
            assert(parts@.len() == pre.len() + 1);
            assert(view_values(parts@).len() == n + 2);
            assert forall|t: int| 0 <= t < n + 2 implies view_values(parts@)[t] == mapped[t] by {
                if t == 0 {
                    assert(total[0] == Seq::<char>::empty());
                } else if t < n + 1 {
                    assert(total[t] == st@.map_values(|c: char| seq![c])[t - 1]);
                    assert(total[t] == seq![st@[t - 1]]);
                    assert(view_values(parts@)[t] == view_values(pre)[t]);
                } else {
                    assert(total[t] == Seq::<char>::empty());
                }
            }
            assert(view_values(parts@) =~= mapped);
        }
        return Ok(Val::Arr(parts));
    }
    let mut start: usize = 0;
    let mut i: usize = 0;
    proof {
        assert(view_values(parts@) =~= pieces.map_values(|p: Seq<char>| SpecValue::Str(p)));
        assert(split_of(st@, sep@) =~= pieces + split_at(st@, sep@, 0));
    }
    if m <= n {
        while i <= n - m
            invariant
                m == sep@.len(),
                n == st@.len(),
                0 < m <= n,
                start <= i,
                i <= n,
                start <= n,
                view_values(parts@) == pieces.map_values(|p: Seq<char>| SpecValue::Str(p)),
                split_of(st@, sep@) == pieces + split_at(st@, sep@, start as nat),
                forall|j: int|
                    start <= j < i ==> #[trigger] st@.subrange(j, j + sep@.len() as int)
                        != sep@,
            decreases n - i,
        {
            let is_match = match_at(st, i, sep);
            if is_match {
                let piece = st.as_str().substring_char(start, i).to_owned();
                let ghost pre = parts@;
                parts.push(Val::Str(piece));
                proof {
                    lemma_find_from(st@, sep@, start as nat);
                    assert(find_from(st@, sep@, start as nat) == Option::Some(i as nat));
                    assert(split_at(st@, sep@, start as nat) == seq![
                        st@.subrange(start as int, i as int),
                    ] + split_at(st@, sep@, (i + m) as nat));
                    assert(parts@.drop_last() =~= pre);
                    assert(view_values(parts@) == view_values(parts@.drop_last()).push(
                        view_value(parts@.last()),
                    ));
                    assert(view_value(parts@.last()) == SpecValue::Str(
                        st@.subrange(start as int, i as int),
                    ));
                    pieces = pieces.push(st@.subrange(start as int, i as int));
                    assert(view_values(parts@) =~= pieces.map_values(
                        |p: Seq<char>| SpecValue::Str(p),
                    ));
                    assert(split_of(st@, sep@) =~= pieces + split_at(
                        st@,
                        sep@,
                        (i + m) as nat,
                    ));
                }
                start = i + m;
                i = start;
            } else {
                i = i + 1;
            }
        }
    }
    let last = st.as_str().substring_char(start, n).to_owned();
    let ghost pre = parts@;
    parts.push(Val::Str(last));
    proof {
        lemma_find_from(st@, sep@, start as nat);
        assert forall|j: int| start <= j && j + sep@.len() <= st@.len() implies #[trigger] st@
            .subrange(j, j + sep@.len() as int) != sep@ by {
            assert(j < i);
        }
        assert(find_from(st@, sep@, start as nat) is None);
        assert(split_at(st@, sep@, start as nat) == seq![
            st@.subrange(start as int, st@.len() as int),
        ]);
        assert(parts@.drop_last() =~= pre);
        assert(view_values(parts@) == view_values(parts@.drop_last()).push(
            view_value(parts@.last()),
        ));
        assert(view_value(parts@.last()) == SpecValue::Str(
            st@.subrange(start as int, n as int),
        ));
        pieces = pieces.push(st@.subrange(start as int, n as int));
        assert(view_values(parts@) =~= pieces.map_values(|p: Seq<char>| SpecValue::Str(p)));
        assert(split_of(st@, sep@) =~= pieces);
        assert(view_values(parts@) =~= split_of(st@, sep@).map_values(
            |p: Seq<char>| SpecValue::Str(p),
        ));
    }
    Ok(Val::Arr(parts))
}

/// Joins the strings of the array argument with the separator between
/// consecutive entries; entries that are not strings are passed over.
pub fn join(args: &Vec<Val>) -> (r: Result<Val, String>)
    ensures
        builtin_post(BuiltinId::Join, view_values(args@), res_view(r)),
{
    proof {
        lemma_view_values_len(args@);
    }
    if args.len() != 2 {
        return Err(invalid_args());
    }
    let sep = match arg_str(args, 0) {
        Option::Some(sep) => sep,
        Option::None => {
            return Err(invalid_args());
        },
    };
    proof {
        lemma_view_values_index(args@, 1);
    }
    let items = match &args[1] {
        Val::Arr(items) => items,
        _ => {
            return Err(invalid_args());
        },
    };
    let ghost vitems = view_values(items@);
    proof {
        lemma_view_values_len(items@);
        assert(vitems.subrange(0, 0) =~= Seq::<SpecValue>::empty());
    }
    let mut out = String::new();
    let mut first = true;
    let mut i: usize = 0;
    while i < items.len()
        invariant
            i <= items@.len(),
            vitems == view_values(items@),
            vitems.len() == items@.len(),
            out@ == joined(kept_strings(vitems.subrange(0, i as int)), sep@),
            first <==> kept_strings(vitems.subrange(0, i as int)).len() == 0,
        decreases items@.len() - i,
    {
        proof {
            lemma_view_values_index(items@, i as int);
            lemma_kept_strings_len(vitems.subrange(0, i as int));
        }
        match &items[i] {
            Val::Str(p) => {
                if !first {
                    out.append(sep.as_str());
                }
                out.append(p.as_str());
                first = false;
            },
            _ => {},
        }
        proof {
            let prefix = vitems.subrange(0, i as int);
            let next = vitems.subrange(0, i as int + 1);
            assert(next.drop_last() =~= prefix);
            assert(next.last() == vitems[i as int]);
            lemma_kept_strings_len(next);
            if vitems[i as int] is Str {
                assert(kept_strings(next) =~= kept_strings(prefix).push(
                    vitems[i as int]->Str_0,
                ));
                if kept_strings(prefix).len() == 0 {
                    assert(kept_strings(next) =~= seq![vitems[i as int]->Str_0]);
                } else {
                    assert(kept_strings(next).drop_last() =~= kept_strings(prefix));
                }
            } else {
                assert(kept_strings(next) =~= kept_strings(prefix));
            }
        }
        i = i + 1;
    }
    proof {
        assert(vitems.subrange(0, vitems.len() as int) =~= vitems);
    }
    Ok(Val::Str(out))
}

/// The number of kept strings never exceeds the number of values.
pub proof fn lemma_kept_strings_len(items: Seq<SpecValue>)
    ensures
        kept_strings(items).len() <= items.len(),
    decreases items,
{
    if items.len() > 0 {
        lemma_kept_strings_len(items.drop_last());
    }
}

/// The outcome of a dispatched call as contracts see it.
pub open spec fn fnres_view(r: Result<Val, FnError>) -> Option<SpecValue> {
    match r {
        Ok(v) => Option::Some(view_value(v)),
        Err(_) => Option::None,
    }
}

/// The declared signature of a builtin, as a vector.
pub fn sig_of(id: BuiltinId) -> (r: Vec<ParamType>)
    ensures
        r@ == spec_sig(id),
{
    let r: Vec<ParamType> = match id {
        BuiltinId::YamlDecode => vec![ParamType::Str],
        BuiltinId::YamlEncode => vec![ParamType::Any],
        BuiltinId::JsonDecode => vec![ParamType::Str],
        BuiltinId::JsonEncode => vec![ParamType::Any],
        BuiltinId::Base64Encode => vec![ParamType::Str],
        BuiltinId::Base64Decode => vec![ParamType::Str],
        BuiltinId::Lower => vec![ParamType::Str],
        BuiltinId::Upper => vec![ParamType::Str],
        BuiltinId::Split => vec![ParamType::Str, ParamType::Str],
        BuiltinId::Join => vec![ParamType::Str, ParamType::ArrayOf(Box::new(ParamType::Str))],
        BuiltinId::Strlen => vec![ParamType::Str],
        BuiltinId::Trimspace => vec![ParamType::Str],
        BuiltinId::Strrev => vec![ParamType::Str],
        BuiltinId::Md5 => vec![ParamType::Str],
        BuiltinId::Sha1 => vec![ParamType::Str],
        BuiltinId::Sha256 => vec![ParamType::Str],
        BuiltinId::Sha512 => vec![ParamType::Str],
        BuiltinId::Bcrypt => vec![ParamType::Str, ParamType::Nullable(Box::new(ParamType::Num))],
        BuiltinId::UuidV4 => Vec::new(),
        BuiltinId::UuidV5 => vec![ParamType::Str, ParamType::Str],
    };
    proof {
        assert(r@ =~= spec_sig(id));
    }
    r
}

/// Runs the implementation behind `id` on `args`, without validating them
/// against the declared signature; each implementation still rejects
/// arguments of the wrong shape itself.
pub fn dispatch(id: BuiltinId, args: &Vec<Val>) -> (r: Result<Val, String>)
    ensures
        builtin_post(id, view_values(args@), res_view(r)),
{
    match id {
        BuiltinId::YamlDecode => yamldecode(args),
        BuiltinId::YamlEncode => yamlencode(args),
        BuiltinId::JsonDecode => jsondecode(args),
        BuiltinId::JsonEncode => jsonencode(args),
        BuiltinId::Base64Encode => base64encode(args),
        BuiltinId::Base64Decode => base64decode(args),
        BuiltinId::Lower => lower(args),
        BuiltinId::Upper => upper(args),
        BuiltinId::Split => split(args),
        BuiltinId::Join => join(args),
        BuiltinId::Strlen => strlen(args),
        BuiltinId::Trimspace => trimspace(args),
        BuiltinId::Strrev => strrev(args),
        BuiltinId::Md5 => md5(args),
        BuiltinId::Sha1 => sha1(args),
        BuiltinId::Sha256 => sha256(args),
        BuiltinId::Sha512 => sha512(args),
        BuiltinId::Bcrypt => bcrypt(args),
        BuiltinId::UuidV4 => uuidv4(args),
        BuiltinId::UuidV5 => uuidv5(args),
    }
}

/// Validates `args` against the builtin's declared signature, then runs it:
/// a mismatch is an argument error reported before the implementation runs,
/// never a coercion.
pub fn invoke(id: BuiltinId, args: &Vec<Val>) -> (r: Result<Val, FnError>)
    ensures
        !args_match(spec_sig(id), view_values(args@)) <==> (r matches Err(e) && e is Arg),
        args_match(spec_sig(id), view_values(args@)) ==> builtin_post(
            id,
            view_values(args@),
            fnres_view(r),
        ),
        !(r matches Err(e) && e is Unknown),
{
    let params = sig_of(id);
    if !check_args(&params, args) {
        return Err(FnError::Arg(String::from_str("argument type or arity mismatch")));
    }
    match dispatch(id, args) {
        Ok(v) => Ok(v),
        Err(e) => Err(FnError::Runtime(e)),
    }
}

/// One registration: a function name, its declared signature, and the
/// implementation it dispatches to.
#[derive(Debug, PartialEq)]
pub struct CatalogEntry {
    pub name: String,
    pub params: Vec<ParamType>,
    pub id: BuiltinId,
}

/// The mathematical shape of a registration.
pub open spec fn entry_view(e: CatalogEntry) -> (Seq<char>, Seq<ParamType>, BuiltinId) {
    (e.name@, e.params@, e.id)
}

/// The function catalog: a closed registry from names to typed signatures
/// and implementations. Built once and read-only during evaluation.
#[derive(Debug, PartialEq)]
pub struct Catalog(pub Vec<CatalogEntry>);

impl View for Catalog {
    type V = Seq<(Seq<char>, Seq<ParamType>, BuiltinId)>;

    open spec fn view(&self) -> Seq<(Seq<char>, Seq<ParamType>, BuiltinId)> {
        self.0@.map_values(|e: CatalogEntry| entry_view(e))
    }
}

/// The index of the first registration named `name`, if any.
pub open spec fn find_func_idx(
    c: Seq<(Seq<char>, Seq<ParamType>, BuiltinId)>,
    name: Seq<char>,
) -> Option<int>
    decreases c,
{
    if c.len() == 0 {
        Option::None
    } else if c[0].0 == name {
        Option::Some(0int)
    } else {
        match find_func_idx(c.drop_first(), name) {
            Option::Some(i) => Option::Some(i + 1),
            Option::None => Option::None,
        }
    }
}

/// What `find_func_idx` finds is the first registration of the name.
pub proof fn lemma_find_func_idx(
    c: Seq<(Seq<char>, Seq<ParamType>, BuiltinId)>,
    name: Seq<char>,
)
    ensures
        match find_func_idx(c, name) {
            Option::Some(i) => 0 <= i < c.len() && c[i].0 == name && (forall|j: int|
                0 <= j < i ==> (#[trigger] c[j]).0 != name),
            Option::None => forall|j: int| 0 <= j < c.len() ==> (#[trigger] c[j]).0 != name,
        },
    decreases c,
{
    if c.len() > 0 {
        if c[0].0 == name {
        } else {
            lemma_find_func_idx(c.drop_first(), name);
            assert(forall|j: int| 1 <= j < c.len() ==> #[trigger] c[j] == c.drop_first()[j - 1]);
        }
    }
}

impl Catalog {
    /// An empty catalog.
    pub fn new() -> (r: Self)
        ensures
            r@ == Seq::<(Seq<char>, Seq<ParamType>, BuiltinId)>::empty(),
    {
        let r = Catalog(Vec::new());
        proof {
            assert(r@ =~= Seq::<(Seq<char>, Seq<ParamType>, BuiltinId)>::empty());
        }
        r
    }

    /// Registers a function under its name, after any existing registrations.
    pub fn register(&mut self, e: CatalogEntry)
        ensures
            final(self)@ == old(self)@.push(entry_view(e)),
    {
        let ghost ev = entry_view(e);
        self.0.push(e);
        proof {
            assert(self@ =~= old(self)@.push(ev));
        }
    }

    /// The first registration named `name`, if any.
    pub fn lookup(&self, name: &String) -> (r: Option<&CatalogEntry>)
        ensures
            match r {
                Option::Some(e) => {
                    &&& find_func_idx(self@, name@) matches Option::Some(i)
                    &&& 0 <= i < self@.len()
                    &&& self@[i] == entry_view(*e)
                },
                Option::None => find_func_idx(self@, name@) is None,
            },
    {
        let mut j: usize = 0;
        while j < self.0.len()
            invariant
                j <= self.0@.len(),
                self@.len() == self.0@.len(),
                forall|t: int| 0 <= t < j ==> (#[trigger] self@[t]).0 != name@,
        decreases self.0@.len() - j,
        {
            let matched = string_equal(&self.0[j].name, name);
            if matched {
                proof {
                    lemma_find_func_idx(self@, name@);
                    assert(self@[j as int] == entry_view(self.0@[j as int]));
                    assert(find_func_idx(self@, name@) == Option::Some(j as int));
                }
                return Option::Some(&self.0[j]);
            }
            j = j + 1;
        }
        proof {
            lemma_find_func_idx(self@, name@);
        }
        Option::None
    }

    /// Looks the name up, validates the arguments against the registered
    /// signature, and runs the registered implementation: an unknown name and
    /// an argument mismatch are distinct errors, both reported before the
    /// implementation runs.
    pub fn call_function(&self, name: &String, args: &Vec<Val>) -> (r: Result<Val, FnError>)
        ensures
            (find_func_idx(self@, name@) is None) <==> (r matches Err(e) && e is Unknown),
            (find_func_idx(self@, name@) matches Option::Some(i) ==> {
                &&& (!args_match(self@[i].1, view_values(args@)) <==> (r matches Err(e)
                    && e is Arg))
                &&& (args_match(self@[i].1, view_values(args@)) ==> builtin_post(
                    self@[i].2,
                    view_values(args@),
                    fnres_view(r),
                ))
            }),
    {
        match self.lookup(name) {
            Option::Some(e) => {
                if !check_args(&e.params, args) {
                    return Err(FnError::Arg(String::from_str("argument type or arity mismatch")));
                }
                match dispatch(e.id, args) {
                    Ok(v) => Ok(v),
                    Err(msg) => Err(FnError::Runtime(msg)),
                }
            },
            Option::None => Err(FnError::Unknown(String::from_str("unknown function"))),
        }
    }
}

/// The name each builtin is registered under.
pub open spec fn builtin_name(id: BuiltinId) -> Seq<char> {
    match id {
        BuiltinId::YamlDecode => "yamldecode"@,
        BuiltinId::YamlEncode => "yamlencode"@,
        BuiltinId::JsonDecode => "jsondecode"@,
        BuiltinId::JsonEncode => "jsonencode"@,
        BuiltinId::Base64Encode => "base64encode"@,
        BuiltinId::Base64Decode => "base64decode"@,
        BuiltinId::Lower => "lower"@,
        BuiltinId::Upper => "upper"@,
        BuiltinId::Split => "split"@,
        BuiltinId::Join => "join"@,
        BuiltinId::Strlen => "strlen"@,
        BuiltinId::Trimspace => "trimspace"@,
        BuiltinId::Strrev => "strrev"@,
        BuiltinId::Md5 => "md5"@,
        BuiltinId::Sha1 => "sha1"@,
        BuiltinId::Sha256 => "sha256"@,
        BuiltinId::Sha512 => "sha512"@,
        BuiltinId::Bcrypt => "bcrypt"@,
        BuiltinId::UuidV4 => "uuidv4"@,
        BuiltinId::UuidV5 => "uuidv5"@,
    }
}

/// The order the default catalog registers the builtins in.
pub open spec fn default_order() -> Seq<BuiltinId> {
    seq![
        BuiltinId::YamlDecode,
        BuiltinId::YamlEncode,
        BuiltinId::JsonDecode,
        BuiltinId::JsonEncode,
        BuiltinId::Base64Encode,
        BuiltinId::Base64Decode,
        BuiltinId::Lower,
        BuiltinId::Upper,
        BuiltinId::Split,
        BuiltinId::Join,
        BuiltinId::Strlen,
        BuiltinId::Trimspace,
        BuiltinId::Strrev,
        BuiltinId::Md5,
        BuiltinId::Sha1,
        BuiltinId::Sha256,
        BuiltinId::Sha512,
        BuiltinId::Bcrypt,
        BuiltinId::UuidV4,
        BuiltinId::UuidV5,
    ]
}

/// The full default catalog: every builtin, under its name, with its declared
/// signature.
pub open spec fn spec_default_catalog() -> Seq<(Seq<char>, Seq<ParamType>, BuiltinId)> {
    default_order().map_values(|id: BuiltinId| (builtin_name(id), spec_sig(id), id))
}

/// One registration for `id`, under its name, with its declared signature.
fn default_entry(id: BuiltinId, name: &str) -> (r: CatalogEntry)
    requires
        name@ == builtin_name(id),
    ensures
        entry_view(r) == (builtin_name(id), spec_sig(id), id),
{
    CatalogEntry { name: name.to_owned(), params: sig_of(id), id }
}

/// Builds the default catalog. Constructing it is the expensive part of
/// setting an engine up, so an engine builds it once and reuses it.
pub fn default_catalog() -> (r: Catalog)
    ensures
        r@ == spec_default_catalog(),
{
    let mut c = Catalog::new();
    c.register(default_entry(BuiltinId::YamlDecode, "yamldecode"));
    c.register(default_entry(BuiltinId::YamlEncode, "yamlencode"));
    c.register(default_entry(BuiltinId::JsonDecode, "jsondecode"));
    c.register(default_entry(BuiltinId::JsonEncode, "jsonencode"));
    c.register(default_entry(BuiltinId::Base64Encode, "base64encode"));
    c.register(default_entry(BuiltinId::Base64Decode, "base64decode"));
    c.register(default_entry(BuiltinId::Lower, "lower"));
    c.register(default_entry(BuiltinId::Upper, "upper"));
    c.register(default_entry(BuiltinId::Split, "split"));
    c.register(default_entry(BuiltinId::Join, "join"));
    c.register(default_entry(BuiltinId::Strlen, "strlen"));
    c.register(default_entry(BuiltinId::Trimspace, "trimspace"));
    c.register(default_entry(BuiltinId::Strrev, "strrev"));
    c.register(default_entry(BuiltinId::Md5, "md5"));
    c.register(default_entry(BuiltinId::Sha1, "sha1"));
    c.register(default_entry(BuiltinId::Sha256, "sha256"));
    c.register(default_entry(BuiltinId::Sha512, "sha512"));
    c.register(default_entry(BuiltinId::Bcrypt, "bcrypt"));
    c.register(default_entry(BuiltinId::UuidV4, "uuidv4"));
    c.register(default_entry(BuiltinId::UuidV5, "uuidv5"));
    proof {
        assert(c@ =~= spec_default_catalog());
    }
    c
}

} // verus!
