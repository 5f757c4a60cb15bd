//! The JSON values that scripts and natives exchange.
//!
//! Scalars are held as such; an array or an object is held by its compact text, which
//! is all that the natives do with one. A number with a fraction or an exponent is
//! held by its decimal text, written the way `serde_json` writes it.
use crate::text::{print_decimal, print_decimal_int, same};
use vstd::prelude::*;
use vstd::string::StringExecFns;

verus! {

/// A JSON value.
#[derive(Debug, Clone, PartialEq, Eq)]
pub enum Json {
    Null,
    Bool(bool),
    /// A whole number that is not negative.
    Unsigned(u64),
    /// A negative whole number.
    Signed(i64),
    /// Any other number, by its decimal text.
    Real(String),
    Text(String),
    /// An array or an object, by its compact text.
    Nested(String),
}

/// What a [`Json`] is.
#[verifier::ext_equal]
pub enum JsonModel {
    Null,
    Bool(bool),
    Unsigned(u64),
    Signed(i64),
    Real(Seq<char>),
    Text(Seq<char>),
    Nested(Seq<char>),
}

impl View for Json {
    type V = JsonModel;

    open spec fn view(&self) -> JsonModel {
        match self {
            Json::Null => JsonModel::Null,
            Json::Bool(b) => JsonModel::Bool(*b),
            Json::Unsigned(n) => JsonModel::Unsigned(*n),
            Json::Signed(n) => JsonModel::Signed(*n),
            Json::Real(s) => JsonModel::Real(s@),
            Json::Text(s) => JsonModel::Text(s@),
            Json::Nested(s) => JsonModel::Nested(s@),
        }
    }
}

/// The models of a list of values.
pub open spec fn models(values: Seq<Json>) -> Seq<JsonModel> {
    values.map_values(|v: Json| v@)
}

/// How `serde_json` writes a string: quoted and escaped.
pub uninterp spec fn json_quoted(text: Seq<char>) -> Seq<char>;

/// What `serde_json` reads from a text that holds an array; what it complains of where
/// the text holds anything else.
pub uninterp spec fn json_array(text: Seq<char>) -> Result<Seq<JsonModel>, Seq<char>>;

/// What `serde_json` reads from a text that holds an object: its members in the order in
/// which `serde_json` visits them. Nothing where the text holds anything else.
pub uninterp spec fn json_pairs(text: Seq<char>) -> Option<Seq<(Seq<char>, JsonModel)>>;

/// The value under a key among some members.
pub open spec fn member_of(pairs: Seq<(Seq<char>, JsonModel)>, key: Seq<char>) -> Option<JsonModel>
    decreases pairs.len(),
{
    if pairs.len() == 0 {
        None
    } else if pairs.last().0 == key {
        Some(pairs.last().1)
    } else {
        member_of(pairs.drop_last(), key)
    }
}

/// What a text that holds an object has under a key; nothing where the text holds no
/// object, or the object does not have the key.
pub open spec fn json_member(text: Seq<char>, key: Seq<char>) -> Option<JsonModel> {
    match json_pairs(text) {
        Some(pairs) => member_of(pairs, key),
        None => None,
    }
}

/// The decimal text of the floating point number nearest to a whole number, as
/// `serde_json` writes it.
pub uninterp spec fn json_float(text: Seq<char>) -> Seq<char>;

/// `serde_json::to_string` of a string.
#[verifier::external_body]
pub(crate) fn quote(text: &str) -> (out: String)
    ensures
        out@ == json_quoted(text@),
{
    serde_json::Value::from(text).to_string()
}

/// `serde_json::from_str` into a list of values, and `ToString` of its error. Each value
/// is told by its variant; a number that is whole is kept as one.
#[verifier::external_body]
pub(crate) fn parse_array(text: &str) -> (out: Result<Vec<Json>, String>)
    ensures
        match out {
            Ok(values) => json_array(text@) == Ok::<_, Seq<char>>(models(values@)),
            Err(e) => json_array(text@) == Err::<Seq<JsonModel>, _>(e@),
        },
{
    let values: Vec<serde_json::Value> = serde_json::from_str(text).map_err(|e| e.to_string())?;
    let read = |value| match value {
        serde_json::Value::Null => Json::Null,
        serde_json::Value::Bool(b) => Json::Bool(b),
        serde_json::Value::Number(n) => match (n.as_u64(), n.as_i64()) {
            (Some(whole), _) => Json::Unsigned(whole),
            (_, Some(negative)) => Json::Signed(negative),
            _ => Json::Real(n.to_string()),
        },
        serde_json::Value::String(s) => Json::Text(s),
        nested => Json::Nested(nested.to_string()),
    };
    Ok(values.into_iter().map(read).collect())
}

/// The models of a list of members.
pub open spec fn pair_models(pairs: Seq<(String, Json)>) -> Seq<(Seq<char>, JsonModel)> {
    pairs.map_values(|p: (String, Json)| (p.0@, p.1@))
}

/// `serde_json::from_str` into an object, and its members. Each value is told by its
/// variant, as in `parse_array`.
#[verifier::external_body]
pub(crate) fn parse_pairs(text: &str) -> (out: Option<Vec<(String, Json)>>)
    ensures
        match out {
            Some(pairs) => json_pairs(text@) == Some(pair_models(pairs@)),
            None => json_pairs(text@) is None,
        },
{
    let members: serde_json::Map<String, serde_json::Value> = serde_json::from_str(text).ok()?;
    let read = |value| match value {
        serde_json::Value::Null => Json::Null,
        serde_json::Value::Bool(b) => Json::Bool(b),
        serde_json::Value::Number(n) => match (n.as_u64(), n.as_i64()) {
            (Some(whole), _) => Json::Unsigned(whole),
            (_, Some(negative)) => Json::Signed(negative),
            _ => Json::Real(n.to_string()),
        },
        serde_json::Value::String(s) => Json::Text(s),
        nested => Json::Nested(nested.to_string()),
    };
    Some(members.into_iter().map(|(k, v)| (k, read(v))).collect())
}

/// The value under a key of a text that holds an object.
pub(crate) fn parse_member(text: &str, key: &str) -> (out: Option<Json>)
    ensures
        match out {
            Some(value) => json_member(text@, key@) == Some(value@),
            None => json_member(text@, key@) is None,
        },
{
    let pairs = match parse_pairs(text) {
        Some(pairs) => pairs,
        None => {
            return None;
        },
    };
    let ghost all = pair_models(pairs@);
    let mut n: usize = pairs.len();
    assert(all.take(n as int) =~= all);
    while n > 0
        invariant
            n <= pairs@.len(),
            all == pair_models(pairs@),
            json_pairs(text@) == Some(all),
            member_of(all.take(n as int), key@) == member_of(all, key@),
        decreases n,
    {
        assert(all.take(n as int).last() == (pairs@[n - 1].0@, pairs@[n - 1].1@));
        assert(all.take(n as int).drop_last() =~= all.take(n - 1));
        if same(pairs[n - 1].0.as_str(), key) {
            return Some(pairs[n - 1].1.copy());
        }
        n = n - 1;
    }
    None
}

/// `serde_json::Value::as_f64` of a whole number, written out again.
#[verifier::external_body]
pub(crate) fn float_of(text: &str) -> (out: String)
    ensures
        out@ == json_float(text@),
{
    let value: serde_json::Value = serde_json::from_str(text).unwrap_or_default();
    serde_json::Value::from(value.as_f64().unwrap_or_default()).to_string()
}

/// What a text is as a floating point number, written the way `serde_json` writes it:
/// nothing where the text is none, and no text where the number is not finite.
pub uninterp spec fn float_read(text: Seq<char>) -> Option<Option<Seq<char>>>;

/// How Rust writes the floating point number that a decimal text stands for.
pub uninterp spec fn float_display(text: Seq<char>) -> Seq<char>;

/// `str::parse` into a floating point number, and `serde_json::Number::from_f64`.
#[verifier::external_body]
pub(crate) fn parse_float(text: &str) -> (out: Option<Option<String>>)
    ensures
        match out {
            Some(Some(number)) => float_read(text@) == Some(Some(number@)),
            Some(None) => float_read(text@) == Some(None::<Seq<char>>),
            None => float_read(text@) is None,
        },
{
    let number = text.parse().ok().map(|x| serde_json::Number::from_f64(x));
    number.map(|n| n.map(|n| n.to_string()))
}

/// `ToString::to_string` of the floating point number that a decimal text stands for.
#[verifier::external_body]
pub(crate) fn display_float(text: &str) -> (out: String)
    ensures
        out@ == float_display(text@),
{
    let number = text.parse().ok().and_then(serde_json::Number::from_f64);
    number.and_then(|n| n.as_f64()).map(|x| x.to_string()).unwrap_or_default()
}

/// The compact text of a value.
pub open spec fn json_text(value: JsonModel) -> Seq<char> {
    match value {
        JsonModel::Null => "null"@,
        JsonModel::Bool(b) => if b {
            "true"@
        } else {
            "false"@
        },
        JsonModel::Unsigned(n) => crate::text::decimal(n as nat),
        JsonModel::Signed(n) => crate::text::decimal_int(n as int),
        JsonModel::Real(s) => s,
        JsonModel::Text(s) => json_quoted(s),
        JsonModel::Nested(s) => s,
    }
}

/// The texts of values with commas between them.
pub open spec fn comma_separated(values: Seq<JsonModel>) -> Seq<char>
    decreases values.len(),
{
    if values.len() == 0 {
        Seq::empty()
    } else if values.len() == 1 {
        json_text(values[0])
    } else {
        comma_separated(values.drop_last()) + seq![','] + json_text(values.last())
    }
}

/// An array of the given values.
pub open spec fn array_of(values: Seq<JsonModel>) -> JsonModel {
    JsonModel::Nested(seq!['['] + comma_separated(values) + seq![']'])
}

/// An array of numbers.
pub open spec fn numbers(ids: Seq<u32>) -> Seq<JsonModel> {
    ids.map_values(|id: u32| JsonModel::Unsigned(id as u64))
}

impl Json {
    /// A value with the same content.
    pub fn copy(&self) -> (value: Json)
        ensures
            value@ == self@,
    {
        match self {
            Json::Null => Json::Null,
            Json::Bool(b) => Json::Bool(*b),
            Json::Unsigned(n) => Json::Unsigned(*n),
            Json::Signed(n) => Json::Signed(*n),
            Json::Real(s) => Json::Real(s.clone()),
            Json::Text(s) => Json::Text(s.clone()),
            Json::Nested(s) => Json::Nested(s.clone()),
        }
    }

    /// The compact text.
    pub fn to_json(&self) -> (text: String)
        ensures
            text@ == json_text(self@),
    {
        match self {
            Json::Null => "null".to_owned(),
            Json::Bool(b) => {
                if *b {
                    "true".to_owned()
                } else {
                    "false".to_owned()
                }
            },
            Json::Unsigned(n) => print_decimal(*n),
            Json::Signed(n) => print_decimal_int(*n),
            Json::Real(s) => s.clone(),
            Json::Text(s) => quote(s.as_str()),
            Json::Nested(s) => s.clone(),
        }
    }

    /// An array of the given values.
    pub fn array(values: &Vec<Json>) -> (array: Json)
        ensures
            array@ == array_of(models(values@)),
    {
        let mut text = String::new();
        text.push('[');
        let ghost all = models(values@);
        let mut i: usize = 0;
        assert(text@ =~= seq!['['] + comma_separated(all.take(0)));
        while i < values.len()
            invariant
                i <= values@.len(),
                all == models(values@),
                text@ == seq!['['] + comma_separated(all.take(i as int)),
            decreases values@.len() - i,
        {
            let ghost before = text@;
            if i > 0 {
                text.push(',');
            }
            let item = values[i].to_json();
            text.append(item.as_str());
            proof {
                let taken = all.take(i + 1);
                assert(taken.drop_last() =~= all.take(i as int));
                assert(taken.last() == values@[i as int]@);
                if i == 0 {
                    assert(comma_separated(all.take(0)) =~= Seq::empty());
                }
                assert(text@ =~= seq!['['] + comma_separated(taken));
            }
            i = i + 1;
        }
        assert(all.take(i as int) =~= all);
        text.push(']');
        assert(text@ =~= seq!['['] + comma_separated(all) + seq![']']);
        Json::Nested(text)
    }

    /// An array of numbers.
    pub fn ids(ids: &Vec<u32>) -> (array: Json)
        ensures
            array@ == array_of(numbers(ids@)),
    {
        let mut values: Vec<Json> = Vec::new();
        let mut i: usize = 0;
        while i < ids.len()
            invariant
                i <= ids@.len(),
                values@.len() == i,
                forall|j: int| 0 <= j < i ==> (#[trigger] values@[j])@ == JsonModel::Unsigned(
                    ids@[j] as u64,
                ),
            decreases ids@.len() - i,
        {
            values.push(Json::Unsigned(ids[i] as u64));
            i = i + 1;
        }
        assert(models(values@) =~= numbers(ids@));
        Json::array(&values)
    }

    /// An array of strings.
    pub fn texts(texts: &Vec<String>) -> (array: Json)
        ensures
            array@ == array_of(texts@.map_values(|s: String| JsonModel::Text(s@))),
    {
        let mut values: Vec<Json> = Vec::new();
        let mut i: usize = 0;
        while i < texts.len()
            invariant
                i <= texts@.len(),
                values@.len() == i,
                forall|j: int| 0 <= j < i ==> (#[trigger] values@[j])@ == JsonModel::Text(
                    texts@[j]@,
                ),
            decreases texts@.len() - i,
        {
            values.push(Json::Text(texts[i].clone()));
            i = i + 1;
        }
        assert(models(values@) =~= texts@.map_values(|s: String| JsonModel::Text(s@)));
        Json::array(&values)
    }
}

} // verus!
