//! Rendering: the report projected to a field subset and written as JSON,
//! pretty JSON, YAML (scalars quoted as `serde_yaml` does, nested values in
//! flow style), or an HTML narrative.

use vstd::prelude::*;
use vstd::string::StrSliceExecFns;
use crate::rationale::Rationale;
use crate::trusted::{
    json_encode_str, json_string, yaml_encode_str, yaml_string,
};
use crate::value::{lemma_list_view, lemma_record_view, value_list_view, value_record_view, Value,
    ValueV};

verus! {

/// A failure of the rendering layer, by cause.
#[derive(Debug)]
pub enum FormatError {
    /// JSON encoding failed.
    Json(serde_json::Error),
    /// YAML encoding failed.
    Yaml(serde_yaml::Error),
    /// A requested projection field is not a field of the view.
    InvalidViewField,
}

/// The decimal digit `d` as text.
pub open spec fn digit_str(d: int) -> Seq<char> {
    if d == 0 {
        "0"@
    } else if d == 1 {
        "1"@
    } else if d == 2 {
        "2"@
    } else if d == 3 {
        "3"@
    } else if d == 4 {
        "4"@
    } else if d == 5 {
        "5"@
    } else if d == 6 {
        "6"@
    } else if d == 7 {
        "7"@
    } else {
        if d == 8 {
            "8"@
        } else {
            "9"@
        }
    }
}

/// The decimal digits of a non-negative number.
pub open spec fn dec_digits(n: int) -> Seq<char>
    decreases n,
{
    if n < 10 {
        digit_str(n)
    } else {
        dec_digits(n / 10) + digit_str(n % 10)
    }
}

/// The decimal text of an integer, with a leading minus where negative.
pub open spec fn dec_int(n: int) -> Seq<char> {
    if n < 0 {
        "-"@ + dec_digits(-n)
    } else {
        dec_digits(n)
    }
}

/// The decimal digit `d` as text.
fn digit(d: u64) -> (r: &'static str)
    requires
        d < 10,
    ensures
        r@ == digit_str(d as int),
{
    if d == 0 {
        "0"
    } else if d == 1 {
        "1"
    } else if d == 2 {
        "2"
    } else if d == 3 {
        "3"
    } else if d == 4 {
        "4"
    } else if d == 5 {
        "5"
    } else if d == 6 {
        "6"
    } else if d == 7 {
        "7"
    } else if d == 8 {
        "8"
    } else {
        "9"
    }
}

/// The decimal digits of a non-negative number.
fn dec_u64(n: u64) -> (r: String)
    ensures
        r@ == dec_digits(n as int),
    decreases n,
{
    if n < 10 {
        String::from_str(digit(n))
    } else {
        let mut s = dec_u64(n / 10);
        s.append(digit(n % 10));
        s
    }
}

/// The decimal text of an integer.
pub fn int_str(n: i64) -> (r: String)
    ensures
        r@ == dec_int(n as int),
{
    if n >= 0 {
        dec_u64(n as u64)
    } else {
        let mag: u64 = if n == i64::MIN {
            9223372036854775808u64
        } else {
            (-n) as u64
        };
        let digits = dec_u64(mag);
        let mut s = String::from_str("-");
        s.append(digits.as_str());
        s
    }
}

/// The JSON text of a value: scalars as JSON scalars, strings as
/// `serde_json` encodes them, sequences and records in array and object
/// syntax, fields in declaration order.
pub open spec fn json_of(v: ValueV) -> Seq<char>
    decreases v, 0int, 0int,
{
    match v {
        ValueV::Null => "null"@,
        ValueV::Bool(b) => if b {
            "true"@
        } else {
            "false"@
        },
        ValueV::Int(n) => dec_int(n as int),
        ValueV::Str(s) => json_string(s),
        ValueV::List(items) => "["@ + json_items(items, 0) + "]"@,
        ValueV::Record(fields) => "{"@ + json_entries(fields, 0) + "}"@,
    }
}

/// The comma-separated JSON texts of the items from position `i` on.
pub open spec fn json_items(s: Seq<ValueV>, i: int) -> Seq<char>
    decreases s, 1int, s.len() - i,
{
    if 0 <= i < s.len() {
        (if i > 0 {
            ","@
        } else {
            Seq::empty()
        }) + json_of(s[i]) + json_items(s, i + 1)
    } else {
        Seq::empty()
    }
}

/// The comma-separated JSON texts of the record entries from position `i` on.
pub open spec fn json_entries(s: Seq<(Seq<char>, ValueV)>, i: int) -> Seq<char>
    decreases s, 1int, s.len() - i,
{
    if 0 <= i < s.len() {
        (if i > 0 {
            ","@
        } else {
            Seq::empty()
        }) + json_string(s[i].0) + ":"@ + json_of(s[i].1) + json_entries(s, i + 1)
    } else {
        Seq::empty()
    }
}

/// Render a value as JSON, exactly as [`json_of`] states; JSON emission
/// cannot fail.
pub fn json_value(v: &Value) -> (r: Result<String, FormatError>)
    ensures
        r is Ok,
        match r {
            Result::Ok(t) => t@ == json_of(v@),
            Result::Err(e) => e is Json,
        },
    decreases *v, 0int, 0int,
{
    match v {
        Value::Null => Result::Ok(String::from_str("null")),
        Value::Bool(b) => Result::Ok(
            if *b {
                String::from_str("true")
            } else {
                String::from_str("false")
            },
        ),
        Value::Int(n) => Result::Ok(int_str(*n)),
        Value::Str(s) => match json_encode_str(s.as_str()) {
            Result::Ok(t) => Result::Ok(t),
            Result::Err(e) => Result::Err(FormatError::Json(e)),
        },
        Value::List(items) => {
            proof {
                lemma_list_view(items@, 0);
            }
            let mut out = String::from_str("[");
            let body = json_items_exec(items, 0)?;
            out.append(body.as_str());
            out.append("]");
            Result::Ok(out)
        },
        Value::Record(fields) => {
            proof {
                lemma_record_view(fields@, 0);
            }
            let mut out = String::from_str("{");
            let body = json_entries_exec(fields, 0)?;
            out.append(body.as_str());
            out.append("}");
            Result::Ok(out)
        },
    }
}

/// Render the items from position `i` on, comma-separated.
fn json_items_exec(items: &Vec<Value>, i: usize) -> (r: Result<String, FormatError>)
    requires
        i <= items@.len(),
    ensures
        r is Ok,
        match r {
            Result::Ok(t) => t@ == json_items(value_list_view(items@, 0), i as int),
            Result::Err(e) => e is Json,
        },
    decreases items@, 1int, items@.len() - i,
{
    proof {
        lemma_list_view(items@, 0);
    }
    if i < items.len() {
        proof {
            assert(decreases_to!(items@ => items@[i as int]));
        }
        let mut out = if i > 0 {
            String::from_str(",")
        } else {
            String::new()
        };
        let head = json_value(&items[i])?;
        let rest = json_items_exec(items, i + 1)?;
        out.append(head.as_str());
        out.append(rest.as_str());
        Result::Ok(out)
    } else {
        Result::Ok(String::new())
    }
}

/// Render the record entries from position `i` on, comma-separated.
fn json_entries_exec(fields: &Vec<(String, Value)>, i: usize) -> (r: Result<String, FormatError>)
    requires
        i <= fields@.len(),
    ensures
        r is Ok,
        match r {
            Result::Ok(t) => t@ == json_entries(value_record_view(fields@, 0), i as int),
            Result::Err(e) => e is Json,
        },
    decreases fields@, 1int, fields@.len() - i,
{
    proof {
        lemma_record_view(fields@, 0);
    }
    if i < fields.len() {
        proof {
            assert(decreases_to!(fields@ => fields@[i as int]));
            assert(decreases_to!(fields@[i as int] => fields@[i as int].1));
        }
        let mut out = if i > 0 {
            String::from_str(",")
        } else {
            String::new()
        };
        let key = match json_encode_str(fields[i].0.as_str()) {
            Result::Ok(t) => t,
            Result::Err(e) => {
                return Result::Err(FormatError::Json(e));
            },
        };
        out.append(key.as_str());
        out.append(":");
        let head = json_value(&fields[i].1)?;
        let rest = json_entries_exec(fields, i + 1)?;
        out.append(head.as_str());
        out.append(rest.as_str());
        Result::Ok(out)
    } else {
        Result::Ok(String::new())
    }
}

/// Which top-level fields of the view a projection keeps.
#[derive(Debug, Clone, Copy, PartialEq, Eq, Structural)]
pub struct FieldSelection {
    pub name: bool,
    pub input: bool,
    pub satisfied: bool,
    pub reason: bool,
    pub rationale: bool,
}

impl FieldSelection {
    /// The full, unprojected view.
    pub fn all() -> (r: FieldSelection)
        ensures
            r == (FieldSelection {
                name: true,
                input: true,
                satisfied: true,
                reason: true,
                rationale: true,
            }),
    {
        FieldSelection { name: true, input: true, satisfied: true, reason: true, rationale: true }
    }
}

/// Whether `p` names a field of the default view.
pub open spec fn is_view_field(p: Seq<char>) -> bool {
    ||| p == "name"@
    ||| p == "input"@
    ||| p == "satisfied"@
    ||| p == "reason"@
    ||| p == "rationale"@
}

/// Whether one of the strings is `name`.
fn has_field(parts: &Vec<String>, name: &str) -> (r: bool)
    ensures
        r == parts.deep_view().contains(name@),
{
    let ghost pd = parts.deep_view();
    proof {
        assert(forall|m: int| 0 <= m < parts@.len() ==> (#[trigger] pd[m]) == parts@[m]@);
    }
    let mut i: usize = 0;
    while i < parts.len()
        invariant
            i <= parts@.len(),
            pd == parts.deep_view(),
            forall|m: int| 0 <= m < i as int ==> (#[trigger] pd[m]) != name@,
        decreases parts@.len() - i,
    {
        if parts[i].as_str().eq(name) {
            proof {
                assert(pd[i as int] == name@);
            }
            return true;
        }
        i = i + 1;
    }
    proof {
        assert(forall|m: int| 0 <= m < pd.len() ==> (#[trigger] pd[m]) != name@);
    }
    false
}

/// Parse a comma-separated list of requested top-level field names into a
/// selection: every requested name must be a field of the view, else the
/// projection fails with an invalid-field error.
pub fn parse_fields(s: &str) -> (r: Result<FieldSelection, FormatError>)
    ensures
        ({
            let parts = crate::maven::split_chars(s@, ',');
            match r {
                Result::Ok(sel) => {
                    &&& forall|k: int| 0 <= k < parts.len() ==> is_view_field(#[trigger] parts[k])
                    &&& sel.name == parts.contains("name"@)
                    &&& sel.input == parts.contains("input"@)
                    &&& sel.satisfied == parts.contains("satisfied"@)
                    &&& sel.reason == parts.contains("reason"@)
                    &&& sel.rationale == parts.contains("rationale"@)
                },
                Result::Err(e) => e is InvalidViewField && !(forall|k: int| 0 <= k < parts.len()
                    ==> is_view_field(#[trigger] parts[k])),
            }
        }),
{
    let parts = crate::maven::split_str(s, ',');
    let ghost pd = parts.deep_view();
    proof {
        assert(forall|m: int| 0 <= m < parts@.len() ==> (#[trigger] pd[m]) == parts@[m]@);
    }
    let mut i: usize = 0;
    while i < parts.len()
        invariant
            i <= parts@.len(),
            pd == parts.deep_view(),
            pd == crate::maven::split_chars(s@, ','),
            forall|k: int| 0 <= k < i as int ==> is_view_field(#[trigger] pd[k]),
        decreases parts@.len() - i,
    {
        let p = parts[i].as_str();
        let good = p.eq("name") || p.eq("input") || p.eq("satisfied") || p.eq("reason") || p.eq(
            "rationale",
        );
        if !good {
            proof {
                assert(!is_view_field(pd[i as int]));
            }
            return Result::Err(FormatError::InvalidViewField);
        }
        i = i + 1;
    }
    Result::Ok(
        FieldSelection {
            name: has_field(&parts, "name"),
            input: has_field(&parts, "input"),
            satisfied: has_field(&parts, "satisfied"),
            reason: has_field(&parts, "reason"),
            rationale: has_field(&parts, "rationale"),
        },
    )
}

/// The strings joined, each after the separator, from position `i` on.
pub open spec fn join_pre(ss: Seq<Seq<char>>, sep: Seq<char>, i: int) -> Seq<char>
    decreases ss.len() - i,
{
    if 0 <= i < ss.len() {
        sep + ss[i] + join_pre(ss, sep, i + 1)
    } else {
        Seq::empty()
    }
}

/// The strings joined by the separator.
pub open spec fn join(ss: Seq<Seq<char>>, sep: Seq<char>) -> Seq<char> {
    if ss.len() == 0 {
        Seq::empty()
    } else {
        ss[0] + join_pre(ss, sep, 1)
    }
}

/// Join the strings from position `i` on, each after the separator.
fn join_pre_exec(parts: &Vec<String>, sep: &str, i: usize) -> (r: String)
    requires
        i <= parts@.len(),
    ensures
        r@ == join_pre(parts.deep_view(), sep@, i as int),
    decreases parts@.len() - i,
{
    let ghost pd = parts.deep_view();
    proof {
        assert(forall|m: int| 0 <= m < parts@.len() ==> (#[trigger] pd[m]) == parts@[m]@);
    }
    if i < parts.len() {
        let mut out = String::from_str(sep);
        out.append(parts[i].as_str());
        let rest = join_pre_exec(parts, sep, i + 1);
        out.append(rest.as_str());
        out
    } else {
        String::new()
    }
}

/// Join the strings by the separator, exactly as [`join`] states.
pub fn join_strings(parts: &Vec<String>, sep: &str) -> (r: String)
    ensures
        r@ == join(parts.deep_view(), sep@),
{
    let ghost pd = parts.deep_view();
    proof {
        assert(forall|m: int| 0 <= m < parts@.len() ==> (#[trigger] pd[m]) == parts@[m]@);
    }
    if parts.len() == 0 {
        String::new()
    } else {
        let mut out = parts[0].clone();
        let rest = join_pre_exec(parts, sep, 1);
        out.append(rest.as_str());
        out
    }
}

/// The JSON array of the given strings.
pub open spec fn strings_json(ss: Seq<Seq<char>>) -> Seq<char> {
    "["@ + join(Seq::new(ss.len(), |i: int| json_string(ss[i])), ","@) + "]"@
}

/// Render a list of strings as a JSON array; JSON emission cannot fail.
pub fn strings_json_exec(ss: &Vec<String>) -> (r: Result<String, FormatError>)
    ensures
        r is Ok,
        match r {
            Result::Ok(t) => t@ == strings_json(ss.deep_view()),
            Result::Err(e) => e is Json,
        },
{
    let ghost sd = ss.deep_view();
    proof {
        assert(forall|m: int| 0 <= m < ss@.len() ==> (#[trigger] sd[m]) == ss@[m]@);
    }
    let mut encoded: Vec<String> = Vec::new();
    let mut i: usize = 0;
    while i < ss.len()
        invariant
            i <= ss@.len(),
            sd == ss.deep_view(),
            encoded@.len() == i as int,
            forall|m: int| 0 <= m < i as int ==> (#[trigger] encoded@[m]@) == json_string(sd[m]),
        decreases ss@.len() - i,
    {
        match json_encode_str(ss[i].as_str()) {
            Result::Ok(t) => {
                encoded.push(t);
            },
            Result::Err(e) => {
                return Result::Err(FormatError::Json(e));
            },
        }
        i = i + 1;
    }
    let body = join_strings(&encoded, ",");
    let mut out = String::from_str("[");
    out.append(body.as_str());
    out.append("]");
    proof {
        let ed = encoded.deep_view();
        assert(forall|m: int| 0 <= m < encoded@.len() ==> (#[trigger] ed[m]) == encoded@[m]@);
        assert(ed =~= Seq::new(sd.len(), |k: int| json_string(sd[k])));
    }
    Result::Ok(out)
}

/// The full rationale tree as tagged JSON, per variant: unit variants by
/// name, `Chain`, `Object`, `List` and `Function` as tagged payloads over
/// their children's rationales, message leaves as their plain sentences,
/// and the boolean leaves and `Refinement` as null.
pub open spec fn rationale_tagged_json(r: Rationale) -> Seq<char>
    decreases r, 0int, 0int,
    via rationale_tagged_dec
{
    match r {
        Rationale::Anything => "\"Anything\""@,
        Rationale::Nothing => "\"Nothing\""@,
        Rationale::Chain(terms) => "{\"Chain\":["@ + tagged_items(terms@, 0) + "]}"@,
        Rationale::Object(fields) => "{\"Object\":{"@ + tagged_fields(fields@, 0) + "}}"@,
        Rationale::List(items) => "{\"List\":["@ + tagged_items(items@, 0) + "]}"@,
        Rationale::NotAnObject => json_string("not an object"@),
        Rationale::NotAList => json_string("not a list"@),
        Rationale::MissingField(name) => json_string("missing field: "@ + name@),
        Rationale::InvalidArgument(name) => json_string("invalid argument: "@ + name@),
        Rationale::Const(_) => "null"@,
        Rationale::Primordial(_) => "null"@,
        Rationale::Expression(_) => "null"@,
        Rationale::Function(_, _, supporting) => "{\"Function\":["@ + tagged_items(supporting@, 0)
            + "]}"@,
        Rationale::Refinement(_, _) => "null"@,
    }
}

/// The comma-separated tagged JSON of the results' rationales from `i` on.
pub open spec fn tagged_items(s: Seq<crate::rationale::EvaluationResult>, i: int) -> Seq<char>
    decreases s, 1int, s.len() - i,
{
    if 0 <= i < s.len() {
        (if i > 0 {
            ","@
        } else {
            Seq::empty()
        }) + rationale_tagged_json(s[i].rationale) + tagged_items(s, i + 1)
    } else {
        Seq::empty()
    }
}

/// The comma-separated tagged JSON of the field results' rationales from
/// `i` on, each under its field name.
pub open spec fn tagged_fields(
    s: Seq<(String, crate::rationale::EvaluationResult)>,
    i: int,
) -> Seq<char>
    decreases s, 1int, s.len() - i,
{
    if 0 <= i < s.len() {
        (if i > 0 {
            ","@
        } else {
            Seq::empty()
        }) + json_string(s[i].0@) + ":"@ + rationale_tagged_json(s[i].1.rationale) + tagged_fields(
            s,
            i + 1,
        )
    } else {
        Seq::empty()
    }
}

#[via_fn]
proof fn rationale_tagged_dec(r: Rationale) {
    match r {
        Rationale::Chain(terms) => {
            assert(decreases_to!(r => terms));
            assert(decreases_to!(terms => terms@));
        },
        Rationale::Object(fields) => {
            assert(decreases_to!(r => fields));
            assert(decreases_to!(fields => fields@));
        },
        Rationale::List(items) => {
            assert(decreases_to!(r => items));
            assert(decreases_to!(items => items@));
        },
        Rationale::Function(b, nested, terms) => {
            assert(decreases_to!(r => terms));
            assert(decreases_to!(terms => terms@));
        },
        _ => {},
    }
}

/// Render the full rationale tree as tagged JSON, exactly as
/// [`rationale_tagged_json`] states; it cannot fail.
pub fn rationale_to_tagged_json(r: &Rationale) -> (t: Result<String, FormatError>)
    ensures
        t is Ok,
        match t {
            Result::Ok(s) => s@ == rationale_tagged_json(*r),
            Result::Err(e) => e is Json,
        },
    decreases *r, 0int, 0int,
{
    match r {
        Rationale::Anything => Result::Ok(String::from_str("\"Anything\"")),
        Rationale::Nothing => Result::Ok(String::from_str("\"Nothing\"")),
        Rationale::Chain(terms) => {
            let mut out = String::from_str("{\"Chain\":[");
            let body = tagged_items_exec(terms, 0)?;
            out.append(body.as_str());
            out.append("]}");
            Result::Ok(out)
        },
        Rationale::Object(fields) => {
            let mut out = String::from_str("{\"Object\":{");
            let body = tagged_fields_exec(fields, 0)?;
            out.append(body.as_str());
            out.append("}}");
            Result::Ok(out)
        },
        Rationale::List(items) => {
            let mut out = String::from_str("{\"List\":[");
            let body = tagged_items_exec(items, 0)?;
            out.append(body.as_str());
            out.append("]}");
            Result::Ok(out)
        },
        Rationale::NotAnObject => match json_encode_str("not an object") {
            Result::Ok(s) => Result::Ok(s),
            Result::Err(e) => Result::Err(FormatError::Json(e)),
        },
        Rationale::NotAList => match json_encode_str("not a list") {
            Result::Ok(s) => Result::Ok(s),
            Result::Err(e) => Result::Err(FormatError::Json(e)),
        },
        Rationale::MissingField(name) => {
            let sentence = String::from_str("missing field: ").concat(name.as_str());
            match json_encode_str(sentence.as_str()) {
                Result::Ok(s) => Result::Ok(s),
                Result::Err(e) => Result::Err(FormatError::Json(e)),
            }
        },
        Rationale::InvalidArgument(name) => {
            let sentence = String::from_str("invalid argument: ").concat(name.as_str());
            match json_encode_str(sentence.as_str()) {
                Result::Ok(s) => Result::Ok(s),
                Result::Err(e) => Result::Err(FormatError::Json(e)),
            }
        },
        Rationale::Const(_) => Result::Ok(String::from_str("null")),
        Rationale::Primordial(_) => Result::Ok(String::from_str("null")),
        Rationale::Expression(_) => Result::Ok(String::from_str("null")),
        Rationale::Function(_, _, supporting) => {
            let mut out = String::from_str("{\"Function\":[");
            let body = tagged_items_exec(supporting, 0)?;
            out.append(body.as_str());
            out.append("]}");
            Result::Ok(out)
        },
        Rationale::Refinement(_, _) => Result::Ok(String::from_str("null")),
    }
}

/// Render the results' rationales from `i` on, comma-separated.
fn tagged_items_exec(items: &Vec<crate::rationale::EvaluationResult>, i: usize) -> (t: Result<
    String,
    FormatError,
>)
    requires
        i <= items@.len(),
    ensures
        t is Ok,
        match t {
            Result::Ok(s) => s@ == tagged_items(items@, i as int),
            Result::Err(e) => e is Json,
        },
    decreases items@, 1int, items@.len() - i,
{
    if i < items.len() {
        proof {
            assert(decreases_to!(items@ => items@[i as int]));
        }
        let mut out = if i > 0 {
            String::from_str(",")
        } else {
            String::new()
        };
        let head = rationale_to_tagged_json(&items[i].rationale)?;
        let rest = tagged_items_exec(items, i + 1)?;
        out.append(head.as_str());
        out.append(rest.as_str());
        Result::Ok(out)
    } else {
        Result::Ok(String::new())
    }
}

/// Render the field results' rationales from `i` on, comma-separated, each
/// under its field name.
fn tagged_fields_exec(
    fields: &Vec<(String, crate::rationale::EvaluationResult)>,
    i: usize,
) -> (t: Result<String, FormatError>)
    requires
        i <= fields@.len(),
    ensures
        t is Ok,
        match t {
            Result::Ok(s) => s@ == tagged_fields(fields@, i as int),
            Result::Err(e) => e is Json,
        },
    decreases fields@, 1int, fields@.len() - i,
{
    if i < fields.len() {
        proof {
            assert(decreases_to!(fields@ => fields@[i as int]));
            assert(decreases_to!(fields@[i as int] => fields@[i as int].1));
        }
        let mut out = if i > 0 {
            String::from_str(",")
        } else {
            String::new()
        };
        let key = match json_encode_str(fields[i].0.as_str()) {
            Result::Ok(s) => s,
            Result::Err(e) => {
                return Result::Err(FormatError::Json(e));
            },
        };
        out.append(key.as_str());
        out.append(":");
        let head = rationale_to_tagged_json(&fields[i].1.rationale)?;
        let rest = tagged_fields_exec(fields, i + 1)?;
        out.append(head.as_str());
        out.append(rest.as_str());
        Result::Ok(out)
    } else {
        Result::Ok(String::new())
    }
}

/// `t` without one trailing newline, where it has one.
pub open spec fn strip_nl(t: Seq<char>) -> Seq<char> {
    if t.len() > 0 && t.last() == '\n' {
        t.drop_last()
    } else {
        t
    }
}

/// A string as one inline YAML scalar: the `serde_yaml` encoding without its
/// trailing newline; where that encoding spans lines, the JSON encoding,
/// which is a valid YAML double-quoted scalar, stands in.
pub open spec fn yaml_inline(s: Seq<char>) -> Seq<char> {
    if strip_nl(yaml_string(s)).contains('\n') {
        json_string(s)
    } else {
        strip_nl(yaml_string(s))
    }
}

/// Whether `c` occurs in the string.
fn str_contains_char(s: &str, c: char) -> (r: bool)
    ensures
        r == s@.contains(c),
{
    let len = s.unicode_len();
    let mut i: usize = 0;
    while i < len
        invariant
            i <= len,
            len == s@.len(),
            forall|m: int| 0 <= m < i as int ==> s@[m] != c,
        decreases len - i,
    {
        if s.get_char(i) == c {
            return true;
        }
        i = i + 1;
    }
    false
}

/// Render a string as one inline YAML scalar, exactly as [`yaml_inline`]
/// states; the one possible failure is the YAML emitter's own.
fn yaml_inline_exec(s: &String) -> (r: Result<String, FormatError>)
    ensures
        r is Ok <==> !crate::trusted::yaml_string_fails(s@),
        match r {
            Result::Ok(t) => t@ == yaml_inline(s@),
            Result::Err(e) => e is Yaml,
        },
{
    let encoded = match yaml_encode_str(s.as_str()) {
        Result::Ok(t) => t,
        Result::Err(e) => {
            return Result::Err(FormatError::Yaml(e));
        },
    };
    let len = encoded.as_str().unicode_len();
    let stripped = if len > 0 && encoded.as_str().get_char(len - 1) == '\n' {
        let cut = encoded.as_str().substring_char(0, len - 1).to_owned();
        proof {
            assert(cut@ =~= strip_nl(encoded@));
        }
        cut
    } else {
        encoded
    };
    if str_contains_char(stripped.as_str(), '\n') {
        match json_encode_str(s.as_str()) {
            Result::Ok(t) => Result::Ok(t),
            Result::Err(e) => Result::Err(FormatError::Json(e)),
        }
    } else {
        Result::Ok(stripped)
    }
}

/// One character as HTML text: the markup-significant characters become
/// entities, every other character stands as itself.
pub open spec fn html_char(c: char) -> Seq<char> {
    if c == '&' {
        "&amp;"@
    } else if c == '<' {
        "&lt;"@
    } else if c == '>' {
        "&gt;"@
    } else if c == '"' {
        "&quot;"@
    } else {
        seq![c]
    }
}

/// A string as HTML text, character by character.
pub open spec fn html_escape(s: Seq<char>) -> Seq<char>
    decreases s.len(),
{
    if s.len() == 0 {
        Seq::empty()
    } else {
        html_escape(s.drop_last()) + html_char(s.last())
    }
}

/// Escape a string for HTML, exactly as [`html_escape`] states.
pub fn html_escape_exec(s: &str) -> (r: String)
    ensures
        r@ == html_escape(s@),
{
    let len = s.unicode_len();
    let mut out = String::new();
    let mut i: usize = 0;
    while i < len
        invariant
            i <= len,
            len == s@.len(),
            out@ == html_escape(s@.take(i as int)),
        decreases len - i,
    {
        let c = s.get_char(i);
        if c == '&' {
            out.append("&amp;");
        } else if c == '<' {
            out.append("&lt;");
        } else if c == '>' {
            out.append("&gt;");
        } else if c == '"' {
            out.append("&quot;");
        } else {
            let one = s.substring_char(i, i + 1);
            out.append(one);
        }
        proof {
            let gi = i as int;
            assert(s@.take(gi + 1).drop_last() =~= s@.take(gi));
            assert(s@.take(gi + 1).last() == s@[gi]);
        }
        i = i + 1;
    }
    proof {
        assert(s@.take(len as int) =~= s@);
    }
    out
}

/// The narrative sentences from position `i` on, each as one HTML list item.
pub open spec fn html_items(ss: Seq<Seq<char>>, i: int) -> Seq<char>
    decreases ss.len() - i,
{
    if 0 <= i < ss.len() {
        "<li>"@ + html_escape(ss[i]) + "</li>"@ + html_items(ss, i + 1)
    } else {
        Seq::empty()
    }
}

/// The narrative as one HTML fragment: a list of the sentences, in order.
pub open spec fn html_doc(ss: Seq<Seq<char>>) -> Seq<char> {
    "<div class=\"rationale\"><ul>"@ + html_items(ss, 0) + "</ul></div>"@
}

/// Render the narrative sentences from position `i` on as HTML list items.
fn html_items_exec(ss: &Vec<String>, i: usize) -> (r: String)
    requires
        i <= ss@.len(),
    ensures
        r@ == html_items(ss.deep_view(), i as int),
    decreases ss@.len() - i,
{
    let ghost sd = ss.deep_view();
    proof {
        assert(forall|m: int| 0 <= m < ss@.len() ==> (#[trigger] sd[m]) == ss@[m]@);
    }
    if i < ss.len() {
        let mut out = String::from_str("<li>");
        let body = html_escape_exec(ss[i].as_str());
        out.append(body.as_str());
        out.append("</li>");
        let rest = html_items_exec(ss, i + 1);
        out.append(rest.as_str());
        out
    } else {
        String::new()
    }
}

/// Render the narrative as one HTML fragment, exactly as [`html_doc`]
/// states.
pub fn html_doc_exec(ss: &Vec<String>) -> (r: String)
    ensures
        r@ == html_doc(ss.deep_view()),
{
    let mut out = String::from_str("<div class=\"rationale\"><ul>");
    let body = html_items_exec(ss, 0);
    out.append(body.as_str());
    out.append("</ul></div>");
    out
}

/// Ghost form of the projected view: the five fields of the default
/// serialized schema.
pub ghost struct ReportV {
    pub name: Option<Seq<char>>,
    pub input: Option<ValueV>,
    pub satisfied: bool,
    pub reason: Seq<char>,
    pub rationale: Seq<Seq<char>>,
}

/// The model of a report.
pub open spec fn report_view(rep: crate::report::Report) -> ReportV {
    ReportV {
        name: crate::report::opt_name_view(rep.name),
        input: crate::report::opt_value_view(rep.input),
        satisfied: rep.satisfied,
        reason: rep.reason@,
        rationale: rep.rationale.deep_view(),
    }
}

/// The projected view of a response tree: its own fields and its flattened
/// narrative.
pub open spec fn report_of(t: crate::response::ResponseV) -> ReportV {
    ReportV {
        name: t.name,
        input: t.input,
        satisfied: t.satisfied,
        reason: t.reason,
        rationale: crate::response::resp_support(t),
    }
}

/// The text of an optional name in JSON.
pub open spec fn opt_name_json(name: Option<Seq<char>>) -> Seq<char> {
    match name {
        Option::Some(n) => json_string(n),
        Option::None => "null"@,
    }
}

/// The text of an optional input value in JSON.
pub open spec fn opt_input_json(input: Option<ValueV>) -> Seq<char> {
    match input {
        Option::Some(v) => json_of(v),
        Option::None => "null"@,
    }
}

/// The text of a boolean.
pub open spec fn bool_text(b: bool) -> Seq<char> {
    if b {
        "true"@
    } else {
        "false"@
    }
}

/// The selected `"key":value` entries of the view, in schema order.
pub open spec fn report_entries(rv: ReportV, sel: FieldSelection) -> Seq<Seq<char>> {
    (if sel.name {
        seq!["\"name\":"@ + opt_name_json(rv.name)]
    } else {
        Seq::empty()
    }) + (if sel.input {
        seq!["\"input\":"@ + opt_input_json(rv.input)]
    } else {
        Seq::empty()
    }) + (if sel.satisfied {
        seq!["\"satisfied\":"@ + bool_text(rv.satisfied)]
    } else {
        Seq::empty()
    }) + (if sel.reason {
        seq!["\"reason\":"@ + json_string(rv.reason)]
    } else {
        Seq::empty()
    }) + (if sel.rationale {
        seq!["\"rationale\":"@ + strings_json(rv.rationale)]
    } else {
        Seq::empty()
    })
}

/// The selected view as one JSON object.
pub open spec fn json_report(rv: ReportV, sel: FieldSelection) -> Seq<char> {
    "{"@ + join(report_entries(rv, sel), ","@) + "}"@
}

/// The selected view as pretty-printed JSON: the same entries, one per
/// indented line.
pub open spec fn pretty_report(rv: ReportV, sel: FieldSelection) -> Seq<char> {
    if report_entries(rv, sel).len() == 0 {
        "{}"@
    } else {
        "{\n  "@ + join(report_entries(rv, sel), ",\n  "@) + "\n}"@
    }
}

/// The `name` line of the YAML document, where selected.
pub open spec fn yaml_line_name(rv: ReportV, on: bool) -> Seq<char> {
    if on {
        "name: "@ + (match rv.name {
            Option::Some(n) => yaml_inline(n),
            Option::None => "null"@,
        }) + "\n"@
    } else {
        Seq::empty()
    }
}

/// The `input` line of the YAML document, where selected.
pub open spec fn yaml_line_input(rv: ReportV, on: bool) -> Seq<char> {
    if on {
        "input: "@ + opt_input_json(rv.input) + "\n"@
    } else {
        Seq::empty()
    }
}

/// The `satisfied` line of the YAML document, where selected.
pub open spec fn yaml_line_satisfied(rv: ReportV, on: bool) -> Seq<char> {
    if on {
        "satisfied: "@ + bool_text(rv.satisfied) + "\n"@
    } else {
        Seq::empty()
    }
}

/// The `reason` line of the YAML document, where selected.
pub open spec fn yaml_line_reason(rv: ReportV, on: bool) -> Seq<char> {
    if on {
        "reason: "@ + yaml_inline(rv.reason) + "\n"@
    } else {
        Seq::empty()
    }
}

/// The `rationale` line of the YAML document, where selected.
pub open spec fn yaml_line_rationale(rv: ReportV, on: bool) -> Seq<char> {
    if on {
        "rationale: "@ + strings_json(rv.rationale) + "\n"@
    } else {
        Seq::empty()
    }
}

/// Whether rendering the selected view as YAML fails: exactly when a
/// selected string scalar defeats the emitter.
pub open spec fn yaml_report_fails(rv: ReportV, sel: FieldSelection) -> bool {
    ||| (sel.name && match rv.name {
        Option::Some(n) => crate::trusted::yaml_string_fails(n),
        Option::None => false,
    })
    ||| (sel.reason && crate::trusted::yaml_string_fails(rv.reason))
}

/// The selected view as a YAML document: one `key: value` line per selected
/// field, string scalars inline, nested values in flow style.
pub open spec fn yaml_report(rv: ReportV, sel: FieldSelection) -> Seq<char> {
    yaml_line_name(rv, sel.name) + yaml_line_input(rv, sel.input) + yaml_line_satisfied(
        rv,
        sel.satisfied,
    ) + yaml_line_reason(rv, sel.reason) + yaml_line_rationale(rv, sel.rationale)
}

/// Build the selected `"key":value` entries of a report, in schema order;
/// JSON emission cannot fail.
fn report_entries_exec(rep: &crate::report::Report, sel: FieldSelection) -> (r: Result<
    Vec<String>,
    FormatError,
>)
    ensures
        r is Ok,
        match r {
            Result::Ok(es) => es.deep_view() == report_entries(report_view(*rep), sel),
            Result::Err(e) => e is Json,
        },
{
    let mut es: Vec<String> = Vec::new();
    if sel.name {
        let mut e = String::from_str("\"name\":");
        match &rep.name {
            Option::Some(n) => match json_encode_str(n.as_str()) {
                Result::Ok(t) => {
                    e.append(t.as_str());
                },
                Result::Err(err) => {
                    return Result::Err(FormatError::Json(err));
                },
            },
            Option::None => {
                e.append("null");
            },
        }
        es.push(e);
    }
    if sel.input {
        let mut e = String::from_str("\"input\":");
        match &rep.input {
            Option::Some(v) => {
                let t = json_value(v)?;
                e.append(t.as_str());
            },
            Option::None => {
                e.append("null");
            },
        }
        es.push(e);
    }
    if sel.satisfied {
        let mut e = String::from_str("\"satisfied\":");
        e.append(if rep.satisfied {
            "true"
        } else {
            "false"
        });
        es.push(e);
    }
    if sel.reason {
        let mut e = String::from_str("\"reason\":");
        match json_encode_str(rep.reason.as_str()) {
            Result::Ok(t) => {
                e.append(t.as_str());
            },
            Result::Err(err) => {
                return Result::Err(FormatError::Json(err));
            },
        }
        es.push(e);
    }
    if sel.rationale {
        let mut e = String::from_str("\"rationale\":");
        let t = strings_json_exec(&rep.rationale)?;
        e.append(t.as_str());
        es.push(e);
    }
    proof {
        let ed = es.deep_view();
        assert(forall|m: int| 0 <= m < es@.len() ==> (#[trigger] ed[m]) == es@[m]@);
        assert(es.deep_view() =~= report_entries(report_view(*rep), sel));
    }
    Result::Ok(es)
}

/// Render the selected view as one JSON object, exactly as [`json_report`]
/// states; it cannot fail.
pub fn json_report_exec(rep: &crate::report::Report, sel: FieldSelection) -> (r: Result<
    String,
    FormatError,
>)
    ensures
        r is Ok,
        match r {
            Result::Ok(t) => t@ == json_report(report_view(*rep), sel),
            Result::Err(e) => e is Json,
        },
{
    let es = report_entries_exec(rep, sel)?;
    let body = join_strings(&es, ",");
    let mut out = String::from_str("{");
    out.append(body.as_str());
    out.append("}");
    Result::Ok(out)
}

/// Render the selected view as pretty-printed JSON, exactly as
/// [`pretty_report`] states; it cannot fail.
pub fn pretty_report_exec(rep: &crate::report::Report, sel: FieldSelection) -> (r: Result<
    String,
    FormatError,
>)
    ensures
        r is Ok,
        match r {
            Result::Ok(t) => t@ == pretty_report(report_view(*rep), sel),
            Result::Err(e) => e is Json,
        },
{
    let es = report_entries_exec(rep, sel)?;
    if es.len() == 0 {
        Result::Ok(String::from_str("{}"))
    } else {
        let body = join_strings(&es, ",\n  ");
        let mut out = String::from_str("{\n  ");
        out.append(body.as_str());
        out.append("\n}");
        Result::Ok(out)
    }
}

/// Render the selected view as a YAML document, exactly as [`yaml_report`]
/// states; it fails exactly as [`yaml_report_fails`] says, and then with the
/// YAML cause.
#[verifier::rlimit(100)]
pub fn yaml_report_exec(rep: &crate::report::Report, sel: FieldSelection) -> (r: Result<
    String,
    FormatError,
>)
    ensures
        r is Ok <==> !yaml_report_fails(report_view(*rep), sel),
        match r {
            Result::Ok(t) => t@ == yaml_report(report_view(*rep), sel),
            Result::Err(e) => e is Yaml,
        },
{
    let ghost rv = report_view(*rep);
    let mut out = String::new();
    if sel.name {
        out.append("name: ");
        match &rep.name {
            Option::Some(n) => {
                let t = yaml_inline_exec(n)?;
                out.append(t.as_str());
            },
            Option::None => {
                out.append("null");
            },
        }
        out.append("\n");
    }
    proof {
        assert(out@ == yaml_line_name(rv, sel.name));
    }
    if sel.input {
        out.append("input: ");
        match &rep.input {
            Option::Some(v) => {
                let t = json_value(v)?;
                out.append(t.as_str());
            },
            Option::None => {
                out.append("null");
            },
        }
        out.append("\n");
    }
    proof {
        assert(out@ == yaml_line_name(rv, sel.name) + yaml_line_input(rv, sel.input));
    }
    if sel.satisfied {
        out.append("satisfied: ");
        out.append(if rep.satisfied {
            "true"
        } else {
            "false"
        });
        out.append("\n");
    }
    proof {
        assert(out@ == yaml_line_name(rv, sel.name) + yaml_line_input(rv, sel.input)
            + yaml_line_satisfied(rv, sel.satisfied));
    }
    if sel.reason {
        out.append("reason: ");
        let t = yaml_inline_exec(&rep.reason)?;
        out.append(t.as_str());
        out.append("\n");
    }
    proof {
        assert(out@ == yaml_line_name(rv, sel.name) + yaml_line_input(rv, sel.input)
            + yaml_line_satisfied(rv, sel.satisfied) + yaml_line_reason(rv, sel.reason));
    }
    if sel.rationale {
        out.append("rationale: ");
        let t = strings_json_exec(&rep.rationale)?;
        out.append(t.as_str());
        out.append("\n");
    }
    proof {
        assert(out@ == yaml_line_name(rv, sel.name) + yaml_line_input(rv, sel.input)
            + yaml_line_satisfied(rv, sel.satisfied) + yaml_line_reason(rv, sel.reason)
            + yaml_line_rationale(rv, sel.rationale));
    }
    Result::Ok(out)
}

} // verus!
