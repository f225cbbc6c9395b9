//! The Maven coordinate function: splits a colon-delimited identifier string
//! into a keyed record of its coordinates.

use vstd::prelude::*;
use vstd::string::StrSliceExecFns;
use crate::protocol::{
    Bindings, CallOutcome, EngineFault, ExecutionContext, Function, FunctionEvaluationResult,
    FunctionInput, PatternMeta,
};
use crate::rationale::Severity;
use crate::value::{lemma_record_view, value_record_view, Value, ValueV};

verus! {

/// `i` is the position of the first `c` in `s`.
pub open spec fn first_at(s: Seq<char>, c: char, i: int) -> bool {
    &&& 0 <= i < s.len()
    &&& s[i] == c
    &&& forall|j: int| 0 <= j < i ==> s[j] != c
}

/// The segments of `s` between occurrences of `c`, in order. A string
/// without the separator is one segment; each separator ends a segment.
pub open spec fn split_chars(s: Seq<char>, c: char) -> Seq<Seq<char>>
    decreases s.len(),
{
    if exists|i: int| first_at(s, c, i) {
        let i = choose|i: int| first_at(s, c, i);
        seq![s.take(i)] + split_chars(s.skip(i + 1), c)
    } else {
        seq![s]
    }
}

/// Split `s` at every occurrence of `c`, exactly as [`split_chars`] states.
pub fn split_str(s: &str, c: char) -> (r: Vec<String>)
    ensures
        r.deep_view() == split_chars(s@, c),
    decreases s@.len(),
{
    let len = s.unicode_len();
    let mut i: usize = 0;
    while i < len
        invariant
            i <= len,
            forall|j: int| 0 <= j < i as int ==> s@[j] != c,
        decreases len - i,
    {
        if s.get_char(i) == c {
            proof {
                assert(first_at(s@, c, i as int));
            }
            let head = s.substring_char(0, i);
            let tail = s.substring_char(i + 1, len);
            let mut out: Vec<String> = Vec::new();
            out.push(head.to_owned());
            let mut rest = split_str(tail, c);
            out.append(&mut rest);
            proof {
                let i0 = choose|k: int| first_at(s@, c, k);
                assert(s@[i0] == c);
                assert(i0 == i as int);
                assert(head@ =~= s@.take(i as int));
                assert(tail@ =~= s@.skip(i as int + 1));
                assert(out.deep_view() =~= split_chars(s@, c));
            }
            return out;
        }
        i = i + 1;
    }
    let mut out: Vec<String> = Vec::new();
    out.push(s.to_owned());
    proof {
        assert(forall|k: int| !first_at(s@, c, k));
        assert(out.deep_view() =~= split_chars(s@, c));
    }
    out
}

/// The coordinate record built from the split segments: `groupId`,
/// `artifactId`, `version`, a `packaging` that defaults to `jar`, and a
/// `classifier` only when a fifth segment exists.
pub open spec fn gav_record(parts: Seq<Seq<char>>) -> Seq<(Seq<char>, ValueV)> {
    seq![
        ("groupId"@, ValueV::Str(parts[0])),
        ("artifactId"@, ValueV::Str(parts[1])),
        ("version"@, ValueV::Str(parts[2])),
        (
            "packaging"@,
            ValueV::Str(
                if parts.len() >= 4 {
                    parts[3]
                } else {
                    "jar"@
                },
            ),
        ),
    ] + if parts.len() == 5 {
        seq![("classifier"@, ValueV::Str(parts[4]))]
    } else {
        Seq::empty()
    }
}

/// The outcome of the coordinate function on one input: a transform to the
/// coordinate record for a string of three to five segments, an
/// `Error`-severity outcome otherwise.
pub open spec fn gav_outcome(input: ValueV) -> CallOutcome {
    match input {
        ValueV::Str(s) => {
            let parts = split_chars(s, ':');
            if 3 <= parts.len() <= 5 {
                CallOutcome {
                    severity: Severity::Nominal,
                    output: Option::Some(ValueV::Record(gav_record(parts))),
                }
            } else {
                CallOutcome { severity: Severity::Error, output: Option::None }
            }
        },
        _ => CallOutcome { severity: Severity::Error, output: Option::None },
    }
}

/// The Maven coordinate function: on a colon-delimited identifier string of
/// three to five segments it transforms the input into the coordinate
/// record; on anything else it reports an `Error`-severity outcome.
#[derive(Debug)]
pub struct GAV;

impl Function for GAV {
    open spec fn spec_order(&self) -> int {
        0
    }

    open spec fn spec_parameters(&self) -> Seq<Seq<char>> {
        Seq::empty()
    }

    open spec fn spec_input(&self) -> FunctionInput {
        FunctionInput::Str
    }

    open spec fn spec_call(
        &self,
        input: ValueV,
        config: Seq<(Seq<char>, ValueV)>,
        bindings: Seq<(Seq<char>, crate::protocol::BindingV)>,
    ) -> CallOutcome {
        gav_outcome(input)
    }

    fn order(&self) -> (r: u8) {
        0
    }

    fn metadata(&self) -> (r: PatternMeta)
        ensures
            r.severity == Severity::Error,
    {
        PatternMeta {
            documentation: String::from_str(
                "Splits a colon-delimited identifier into Maven coordinates.",
            ),
            severity: Severity::Error,
        }
    }

    fn parameters(&self) -> (r: Vec<String>) {
        let r: Vec<String> = Vec::new();
        proof {
            assert(r.deep_view() =~= Seq::<Seq<char>>::empty());
        }
        r
    }

    fn input(&self) -> (r: FunctionInput) {
        FunctionInput::Str
    }

    /// Never faults: a value of the wrong shape or a string with too few or
    /// too many segments is an `Error`-severity outcome, not an engine fault.
    fn call(
        &self,
        input: &Value,
        ctx: &ExecutionContext,
        bindings: &Bindings,
    ) -> (r: Result<FunctionEvaluationResult, EngineFault>)
        ensures
            r is Ok,
    {
        match input.try_get_str() {
            Option::Some(s) => {
                let parts = split_str(s.as_str(), ':');
                if parts.len() >= 3 && parts.len() <= 5 {
                    let mut fields: Vec<(String, Value)> = Vec::new();
                    fields.push((String::from_str("groupId"), Value::Str(parts[0].clone())));
                    fields.push((String::from_str("artifactId"), Value::Str(parts[1].clone())));
                    fields.push((String::from_str("version"), Value::Str(parts[2].clone())));
                    let packaging = if parts.len() >= 4 {
                        parts[3].clone()
                    } else {
                        String::from_str("jar")
                    };
                    fields.push((String::from_str("packaging"), Value::Str(packaging)));
                    if parts.len() == 5 {
                        fields.push((
                            String::from_str("classifier"),
                            Value::Str(parts[4].clone()),
                        ));
                    }
                    let coordinates = Value::Record(fields);
                    proof {
                        lemma_record_view(coordinates->Record_0@, 0);
                        assert(value_record_view(coordinates->Record_0@, 0) =~= gav_record(
                            split_chars(s@, ':'),
                        ));
                    }
                    Result::Ok(FunctionEvaluationResult {
                        severity: Severity::Nominal,
                        output: Option::Some(coordinates),
                        rationale: Option::None,
                        supporting: Vec::new(),
                    })
                } else {
                    Result::Ok(FunctionEvaluationResult {
                        severity: Severity::Error,
                        output: Option::None,
                        rationale: Option::None,
                        supporting: Vec::new(),
                    })
                }
            },
            Option::None => Result::Ok(FunctionEvaluationResult {
                severity: Severity::Error,
                output: Option::None,
                rationale: Option::None,
                supporting: Vec::new(),
            }),
        }
    }
}

} // verus!
