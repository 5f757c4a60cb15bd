//! The arguments of a native, read the way the natives read them: a missing or
//! unsuitable argument counts as a neutral one.
use crate::cfx_lua::{trim, trimmed};
use crate::json::{float_of, json_float, models, Json, JsonModel};
use crate::net_bridge::{target_of, EventTarget};
use crate::text::{
    chars_of, decimal, decimal_int, parse_i64, parse_unsigned, parsed_signed, parsed_unsigned,
    print_decimal, print_decimal_int, string_of,
};
use vstd::prelude::*;

verus! {

/// A text argument; empty where there is none.
pub open spec fn arg_text(args: Seq<JsonModel>, i: int) -> Seq<char> {
    if 0 <= i < args.len() {
        match args[i] {
            JsonModel::Text(s) => s,
            _ => Seq::empty(),
        }
    } else {
        Seq::empty()
    }
}

/// The whole number that a value is, if it fits.
pub open spec fn whole(value: JsonModel) -> i64 {
    match value {
        JsonModel::Unsigned(n) => if n <= i64::MAX {
            n as i64
        } else {
            0
        },
        JsonModel::Signed(n) => n,
        _ => 0,
    }
}

/// A whole number argument; zero where there is none.
pub open spec fn arg_i64(args: Seq<JsonModel>, i: int) -> i64 {
    if 0 <= i < args.len() {
        whole(args[i])
    } else {
        0
    }
}

/// An entity handle or a channel number: the low bits of a whole number.
pub open spec fn arg_handle(args: Seq<JsonModel>, i: int) -> u32 {
    arg_i64(args, i) as u32
}

/// A server id. Scripts pass them as numbers or as numeric strings.
pub open spec fn arg_netid(args: Seq<JsonModel>, i: int) -> u32 {
    if 0 <= i < args.len() {
        match args[i] {
            JsonModel::Unsigned(n) => n as u32,
            JsonModel::Text(s) => match parsed_unsigned(trim(s), u32::MAX as nat) {
                Some(n) => n as u32,
                None => 0,
            },
            _ => 0,
        }
    } else {
        0
    }
}

/// A yes or no; numbers other than zero mean yes.
pub open spec fn arg_bool(args: Seq<JsonModel>, i: int) -> bool {
    if 0 <= i < args.len() {
        match args[i] {
            JsonModel::Bool(b) => b,
            other => whole(other) != 0,
        }
    } else {
        false
    }
}

/// A number that may have a fraction, as the decimal text of a floating point number.
pub open spec fn arg_real(args: Seq<JsonModel>, i: int) -> Seq<char> {
    if 0 <= i < args.len() {
        match args[i] {
            JsonModel::Unsigned(n) => json_float(decimal(n as nat)),
            JsonModel::Signed(n) => json_float(decimal_int(n as int)),
            JsonModel::Real(s) => s,
            _ => "0.0"@,
        }
    } else {
        "0.0"@
    }
}

/// Whom an event is for.
pub open spec fn arg_target(args: Seq<JsonModel>, i: int) -> EventTarget {
    if 0 <= i < args.len() {
        match args[i] {
            JsonModel::Unsigned(n) => target_of(n as int),
            JsonModel::Signed(n) => target_of(n as int),
            JsonModel::Text(s) => match parsed_signed(trim(s), i64::MIN as int, i64::MAX as int) {
                Some(n) => target_of(n),
                None => EventTarget::One(0),
            },
            _ => EventTarget::One(0),
        }
    } else {
        EventTarget::One(0)
    }
}

/// Any argument; null where there is none.
pub open spec fn arg_any(args: Seq<JsonModel>, i: int) -> JsonModel {
    if 0 <= i < args.len() {
        args[i]
    } else {
        JsonModel::Null
    }
}

fn trimmed_text(s: &str) -> (out: String)
    ensures
        out@ == trim(s@),
{
    let chars = chars_of(s);
    string_of(&trimmed(&chars))
}

pub(crate) fn json_arg_string(args: &Vec<Json>, index: usize) -> (text: String)
    ensures
        text@ == arg_text(models(args@), index as int),
{
    if index < args.len() {
        if let Json::Text(s) = &args[index] {
            return s.clone();
        }
    }
    let none = String::new();
    assert(none@ =~= Seq::empty());
    none
}

fn whole_number(value: &Json) -> (n: i64)
    ensures
        n == whole(value@),
{
    match value {
        Json::Unsigned(n) => {
            if *n <= i64::MAX as u64 {
                *n as i64
            } else {
                0
            }
        },
        Json::Signed(n) => *n,
        _ => 0,
    }
}

pub(crate) fn json_arg_i64(args: &Vec<Json>, index: usize) -> (n: i64)
    ensures
        n == arg_i64(models(args@), index as int),
{
    if index < args.len() {
        whole_number(&args[index])
    } else {
        0
    }
}

pub(crate) fn json_arg_handle(args: &Vec<Json>, index: usize) -> (id: u32)
    ensures
        id == arg_handle(models(args@), index as int),
{
    json_arg_i64(args, index) as u32
}

/// Player/net-id argument: natives pass server ids as numbers or numeric strings.
pub(crate) fn json_arg_netid(args: &Vec<Json>, index: usize) -> (id: u32)
    ensures
        id == arg_netid(models(args@), index as int),
{
    if index < args.len() {
        match &args[index] {
            Json::Unsigned(n) => *n as u32,
            Json::Text(s) => {
                match parse_unsigned(trimmed_text(s.as_str()).as_str(), u32::MAX as u64) {
                    Some(n) => n as u32,
                    None => 0,
                }
            },
            _ => 0,
        }
    } else {
        0
    }
}

pub(crate) fn json_arg_bool(args: &Vec<Json>, index: usize) -> (yes: bool)
    ensures
        yes == arg_bool(models(args@), index as int),
{
    if index < args.len() {
        match &args[index] {
            Json::Bool(b) => *b,
            other => whole_number(other) != 0,
        }
    } else {
        false
    }
}

pub(crate) fn json_arg_real(args: &Vec<Json>, index: usize) -> (text: String)
    ensures
        text@ == arg_real(models(args@), index as int),
{
    if index < args.len() {
        match &args[index] {
            Json::Unsigned(n) => float_of(print_decimal(*n).as_str()),
            Json::Signed(n) => float_of(print_decimal_int(*n).as_str()),
            Json::Real(s) => s.clone(),
            _ => "0.0".to_owned(),
        }
    } else {
        "0.0".to_owned()
    }
}

pub(crate) fn json_arg_target(args: &Vec<Json>, index: usize) -> (target: EventTarget)
    ensures
        target == arg_target(models(args@), index as int),
{
    if index < args.len() {
        match &args[index] {
            Json::Unsigned(n) => {
                if *n <= u32::MAX as u64 {
                    EventTarget::One(*n as u32)
                } else {
                    EventTarget::All
                }
            },
            Json::Signed(n) => EventTarget::from_script(*n),
            Json::Text(s) => {
                match parse_i64(trimmed_text(s.as_str()).as_str()) {
                    Some(n) => EventTarget::from_script(n),
                    None => EventTarget::One(0),
                }
            },
            _ => EventTarget::One(0),
        }
    } else {
        EventTarget::One(0)
    }
}

pub(crate) fn json_arg_any(args: &Vec<Json>, index: usize) -> (value: Json)
    ensures
        value@ == arg_any(models(args@), index as int),
{
    if index < args.len() {
        args[index].copy()
    } else {
        Json::Null
    }
}

/// The arguments that a text stands for; none where it is not an array.
pub open spec fn args_of(args_json: Seq<char>) -> Seq<JsonModel> {
    match crate::json::json_array(args_json) {
        Ok(args) => args,
        Err(_) => Seq::empty(),
    }
}

pub(crate) fn json_args(args_json: &str) -> (args: Vec<Json>)
    ensures
        models(args@) == args_of(args_json@),
{
    match crate::json::parse_array(args_json) {
        Ok(args) => args,
        Err(_) => {
            let none: Vec<Json> = Vec::new();
            assert(models(none@) =~= Seq::empty());
            none
        },
    }
}

} // verus!
