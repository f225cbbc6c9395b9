//! The default serialized projection of an evaluation: one sentence per node
//! (`reason`), the flattened pre-order narrative (`support`), and the
//! `{name, input, satisfied, reason, rationale}` record (`Report`).

use vstd::prelude::*;
use crate::rationale::{sat, EvaluationResult, Rationale};
use crate::value::{value_view, Value, ValueV};

verus! {

/// The fixed sentence for one rationale node.
pub open spec fn reason_spec(r: Rationale) -> Seq<char> {
    match r {
        Rationale::Anything => "anything is satisfied by anything"@,
        Rationale::Nothing => Seq::<char>::empty(),
        Rationale::Const(_) => Seq::<char>::empty(),
        Rationale::Primordial(_) => Seq::<char>::empty(),
        Rationale::Expression(_) => Seq::<char>::empty(),
        Rationale::Object(_) => if sat(r) {
            "because all fields were satisfied"@
        } else {
            "because not all fields were satisfied"@
        },
        Rationale::List(_) => if sat(r) {
            "because all members were satisfied"@
        } else {
            "because not all members were satisfied"@
        },
        Rationale::Chain(_) => if sat(r) {
            "because the chain was satisfied"@
        } else {
            "because the chain was not satisfied"@
        },
        Rationale::NotAnObject => "not an object"@,
        Rationale::NotAList => "not a list"@,
        Rationale::MissingField(name) => "missing field: "@ + name@,
        Rationale::InvalidArgument(name) => "invalid argument: "@ + name@,
        Rationale::Function(_, _, _) => Seq::<char>::empty(),
        Rationale::Refinement(_, _) => if sat(r) {
            "because the refinement was satisfied"@
        } else {
            "because the refinement was not satisfied"@
        },
    }
}

/// One sentence saying why this rationale holds or fails; empty for the
/// plain boolean leaves.
pub fn reason(rationale: &Rationale) -> (r: String)
    ensures
        r@ == reason_spec(*rationale),
{
    match rationale {
        Rationale::Anything => String::from_str("anything is satisfied by anything"),
        Rationale::Nothing => String::new(),
        Rationale::Const(_) => String::new(),
        Rationale::Primordial(_) => String::new(),
        Rationale::Expression(_) => String::new(),
        Rationale::Object(_) => if rationale.satisfied() {
            String::from_str("because all fields were satisfied")
        } else {
            String::from_str("because not all fields were satisfied")
        },
        Rationale::List(_) => if rationale.satisfied() {
            String::from_str("because all members were satisfied")
        } else {
            String::from_str("because not all members were satisfied")
        },
        Rationale::Chain(_) => if rationale.satisfied() {
            String::from_str("because the chain was satisfied")
        } else {
            String::from_str("because the chain was not satisfied")
        },
        Rationale::NotAnObject => String::from_str("not an object"),
        Rationale::NotAList => String::from_str("not a list"),
        Rationale::MissingField(name) => String::from_str("missing field: ").concat(name.as_str()),
        Rationale::InvalidArgument(name) => String::from_str("invalid argument: ").concat(
            name.as_str(),
        ),
        Rationale::Function(_, _, _) => String::new(),
        Rationale::Refinement(_, _) => if rationale.satisfied() {
            String::from_str("because the refinement was satisfied")
        } else {
            String::from_str("because the refinement was not satisfied")
        },
    }
}

/// The flattened narrative of a rationale: its own sentence first, then each
/// child's narrative in declaration order.
pub open spec fn support_spec(r: Rationale) -> Seq<Seq<char>>
    decreases r, 0int, 0int,
    via support_dec
{
    seq![reason_spec(r)] + match r {
        Rationale::Object(fields) => support_fields_spec(fields@, 0),
        Rationale::List(items) => support_all_spec(items@, 0),
        Rationale::Chain(terms) => support_all_spec(terms@, 0),
        Rationale::Function(_, _, terms) => support_all_spec(terms@, 0),
        Rationale::Refinement(primary, refinement) => support_spec(primary.rationale) + match refinement {
            Option::Some(secondary) => support_spec(secondary.rationale),
            Option::None => Seq::empty(),
        },
        _ => Seq::empty(),
    }
}

/// The concatenated narratives of the results from position `i` on.
pub open spec fn support_all_spec(s: Seq<EvaluationResult>, i: int) -> Seq<Seq<char>>
    decreases s, 1int, s.len() - i,
{
    if 0 <= i < s.len() {
        support_spec(s[i].rationale) + support_all_spec(s, i + 1)
    } else {
        Seq::empty()
    }
}

/// The concatenated narratives of the field results from position `i` on.
pub open spec fn support_fields_spec(s: Seq<(String, EvaluationResult)>, i: int) -> Seq<Seq<char>>
    decreases s, 1int, s.len() - i,
{
    if 0 <= i < s.len() {
        support_spec(s[i].1.rationale) + support_fields_spec(s, i + 1)
    } else {
        Seq::empty()
    }
}

#[via_fn]
proof fn support_dec(r: Rationale) {
    match r {
        Rationale::Chain(terms) => {
            assert(decreases_to!(r => terms));
            assert(decreases_to!(terms => terms@));
        },
        Rationale::Object(fields) => {
            assert(decreases_to!(r => fields));
            assert(decreases_to!(fields => fields@));
        },
        Rationale::List(items) => {
            assert(decreases_to!(r => items));
            assert(decreases_to!(items => items@));
        },
        Rationale::Function(b, nested, terms) => {
            assert(decreases_to!(r => terms));
            assert(decreases_to!(terms => terms@));
        },
        Rationale::Refinement(primary, refinement) => {
            assert(decreases_to!(r => primary));
            match refinement {
                Option::Some(secondary) => {
                    assert(decreases_to!(r => refinement));
                    assert(decreases_to!(refinement => secondary));
                },
                Option::None => {},
            }
        },
        _ => {},
    }
}

/// The flattened narrative of a rationale, as [`support_spec`] states: the
/// node's own sentence, then each child's narrative, in order.
pub fn support(rationale: &Rationale) -> (r: Vec<String>)
    ensures
        r.deep_view() == support_spec(*rationale),
    decreases *rationale, 0int, 0int,
{
    let mut out: Vec<String> = Vec::new();
    out.push(reason(rationale));
    match rationale {
        Rationale::Object(fields) => {
            let mut rest = support_fields(fields, 0);
            out.append(&mut rest);
        },
        Rationale::List(items) => {
            let mut rest = support_all(items, 0);
            out.append(&mut rest);
        },
        Rationale::Chain(terms) => {
            let mut rest = support_all(terms, 0);
            out.append(&mut rest);
        },
        Rationale::Function(_, _, terms) => {
            let mut rest = support_all(terms, 0);
            out.append(&mut rest);
        },
        Rationale::Refinement(primary, refinement) => {
            proof {
                assert(decreases_to!(*rationale => *primary));
            }
            let mut rest = support(&primary.rationale);
            out.append(&mut rest);
            match refinement {
                Option::Some(secondary) => {
                    proof {
                        assert(decreases_to!(*rationale => *refinement));
                        assert(decreases_to!(*refinement => **secondary));
                    }
                    let mut second = support(&secondary.rationale);
                    out.append(&mut second);
                },
                Option::None => {},
            }
        },
        _ => {},
    }
    proof {
        assert(out.deep_view() =~= support_spec(*rationale));
    }
    out
}

/// The concatenated narratives of the results from position `i` on.
fn support_all(items: &Vec<EvaluationResult>, i: usize) -> (r: Vec<String>)
    requires
        i <= items@.len(),
    ensures
        r.deep_view() == support_all_spec(items@, i as int),
    decreases items@, 1int, items@.len() - i,
{
    if i < items.len() {
        let mut out = support(&items[i].rationale);
        let mut rest = support_all(items, i + 1);
        out.append(&mut rest);
        proof {
            assert(out.deep_view() =~= support_all_spec(items@, i as int));
        }
        out
    } else {
        Vec::new()
    }
}

/// The concatenated narratives of the field results from position `i` on.
fn support_fields(fields: &Vec<(String, EvaluationResult)>, i: usize) -> (r: Vec<String>)
    requires
        i <= fields@.len(),
    ensures
        r.deep_view() == support_fields_spec(fields@, i as int),
    decreases fields@, 1int, fields@.len() - i,
{
    if i < fields.len() {
        let mut out = support(&fields[i].1.rationale);
        let mut rest = support_fields(fields, i + 1);
        out.append(&mut rest);
        proof {
            assert(out.deep_view() =~= support_fields_spec(fields@, i as int));
        }
        out
    } else {
        Vec::new()
    }
}

/// The model of an optional pattern name.
pub open spec fn opt_name_view(o: Option<String>) -> Option<Seq<char>> {
    match o {
        Option::Some(s) => Option::Some(s@),
        Option::None => Option::None,
    }
}

/// The model of an optional value.
pub open spec fn opt_value_view(o: Option<Value>) -> Option<ValueV> {
    match o {
        Option::Some(v) => Option::Some(value_view(v)),
        Option::None => Option::None,
    }
}

/// The default serialized projection of an evaluation result:
/// `{name, input, satisfied, reason, rationale}`.
#[derive(Debug)]
pub struct Report {
    pub name: Option<String>,
    pub input: Option<Value>,
    pub satisfied: bool,
    pub reason: String,
    pub rationale: Vec<String>,
}

impl Report {
    /// Build the default projection of `result`: its pattern name, its input,
    /// its verdict, its own sentence, and its flattened narrative.
    pub fn new(result: &EvaluationResult) -> (r: Report)
        ensures
            opt_name_view(r.name) == opt_name_view(result.name),
            opt_value_view(r.input) == opt_value_view(result.input),
            r.satisfied == sat(result.rationale),
            r.reason@ == reason_spec(result.rationale),
            r.rationale.deep_view() == support_spec(result.rationale),
    {
        let name = match &result.name {
            Option::Some(s) => Option::Some(s.clone()),
            Option::None => Option::None,
        };
        let input = match &result.input {
            Option::Some(v) => Option::Some(v.clone()),
            Option::None => Option::None,
        };
        Report {
            name,
            input,
            satisfied: result.satisfied(),
            reason: reason(&result.rationale),
            rationale: support(&result.rationale),
        }
    }
}

} // verus!
