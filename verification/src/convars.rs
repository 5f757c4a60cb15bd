//! Console variables (`GetConvar*` / `SetConvar*`).
use crate::dash::{no_texts, texts_get, texts_held, texts_insert, texts_new};
use crate::text::{ascii_lower, lowercased, parse_i64, parsed_signed, same};
use dashmap::DashMap;
use vstd::prelude::*;

verus! {

/// The console variables that every resource shares.
pub struct Convars {
    values: DashMap<String, String>,
}

impl View for Convars {
    type V = Map<Seq<char>, Seq<char>>;

    closed spec fn view(&self) -> Map<Seq<char>, Seq<char>> {
        texts_held(self.values)
    }
}

/// The value of a variable, or a default.
pub open spec fn convar(
    all: Map<Seq<char>, Seq<char>>,
    name: Seq<char>,
    default: Seq<char>,
) -> Seq<char> {
    if all.contains_key(name) {
        all[name]
    } else {
        default
    }
}

/// The number that a variable spells, or a default.
pub open spec fn convar_int(all: Map<Seq<char>, Seq<char>>, name: Seq<char>, default: i32) -> int {
    if all.contains_key(name) {
        match parsed_signed(all[name], i32::MIN as int, i32::MAX as int) {
            Some(n) => n,
            None => default as int,
        }
    } else {
        default as int
    }
}

/// Whether a value means yes.
pub open spec fn affirmative(value: Seq<char>) -> bool {
    let lower = ascii_lower(value);
    lower == "true"@ || lower == "1"@ || lower == "yes"@ || lower == "on"@
}

impl Convars {
    pub fn new() -> (convars: Self)
        ensures
            convars@ == no_texts(),
    {
        Convars { values: texts_new() }
    }

    pub fn get(&self, name: &str) -> (value: Option<String>)
        ensures
            match value {
                Some(text) => self@.contains_key(name@) && text@ == self@[name@],
                None => !self@.contains_key(name@),
            },
    {
        texts_get(&self.values, name)
    }

    pub fn get_convar(&self, name: &str, default_value: String) -> (value: String)
        ensures
            value@ == convar(self@, name@, default_value@),
    {
        match texts_get(&self.values, name) {
            Some(value) => value,
            None => default_value,
        }
    }

    pub fn get_convar_int(&self, name: &str, default_value: i32) -> (value: i32)
        ensures
            value == convar_int(self@, name@, default_value),
    {
        match texts_get(&self.values, name) {
            Some(value) => match parse_i64(value.as_str()) {
                Some(n) => {
                    if i32::MIN as i64 <= n && n <= i32::MAX as i64 {
                        n as i32
                    } else {
                        default_value
                    }
                },
                None => default_value,
            },
            None => default_value,
        }
    }

    pub fn get_convar_bool(&self, name: &str, default_value: bool) -> (value: bool)
        ensures
            value == if self@.contains_key(name@) {
                affirmative(self@[name@])
            } else {
                default_value
            },
    {
        match texts_get(&self.values, name) {
            Some(value) => {
                let lower = lowercased(value.as_str());
                let s = lower.as_str();
                same(s, "true") || same(s, "1") || same(s, "yes") || same(s, "on")
            },
            None => default_value,
        }
    }

    /// Write a variable.
    pub fn set_convar(&mut self, name: &str, value: String)
        ensures
            final(self)@ == old(self)@.insert(name@, value@),
    {
        texts_insert(&mut self.values, name.to_owned(), value);
    }
}

} // verus!
