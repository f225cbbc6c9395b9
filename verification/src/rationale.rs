//! The explanation model: every evaluation produces a tree of
//! [`EvaluationResult`] nodes, each carrying a [`Rationale`] saying why that
//! node holds or fails. Satisfaction is a pure function of the stored tree.

use vstd::prelude::*;
use crate::value::Value;

verus! {

/// Ranked classification of an outcome, used for default verdict levels and
/// for collapse thresholding. `Nominal` is the quiet, all-is-well rank.
#[derive(Debug, Clone, Copy, PartialEq, Eq, Structural)]
pub enum Severity {
    Nominal,
    Advice,
    Warning,
    Error,
}

impl Severity {
    /// Numeric rank of the severity, `Nominal` lowest, `Error` highest.
    pub open spec fn spec_level(self) -> int {
        match self {
            Severity::Nominal => 0,
            Severity::Advice => 1,
            Severity::Warning => 2,
            Severity::Error => 3,
        }
    }

    /// Numeric rank of the severity, usable from executable code.
    pub fn level(&self) -> (r: u8)
        ensures
            r as int == self.spec_level(),
    {
        match self {
            Severity::Nominal => 0,
            Severity::Advice => 1,
            Severity::Warning => 2,
            Severity::Error => 3,
        }
    }

    /// Whether this severity ranks strictly below `other`.
    pub fn ranks_below(&self, other: &Severity) -> (r: bool)
        ensures
            r == (self.spec_level() < other.spec_level()),
    {
        self.level() < other.level()
    }
}

/// Why one node of the evaluation tree is satisfied or not. The set of
/// variants is closed: every consumer matches it exhaustively.
#[derive(Debug)]
pub enum Rationale {
    Anything,
    Nothing,
    Chain(Vec<EvaluationResult>),
    Object(Vec<(String, EvaluationResult)>),
    List(Vec<EvaluationResult>),
    NotAnObject,
    NotAList,
    MissingField(String),
    InvalidArgument(String),
    Const(bool),
    Primordial(bool),
    Expression(bool),
    Function(bool, Option<Box<Rationale>>, Vec<EvaluationResult>),
    Refinement(Box<EvaluationResult>, Option<Box<EvaluationResult>>),
}

/// One node of the evaluation tree: the name of the pattern evaluated, the
/// input it saw, the value it produced, the severity of its outcome, and the
/// rationale for it.
#[derive(Debug)]
pub struct EvaluationResult {
    pub name: Option<String>,
    pub input: Option<Value>,
    pub output: Option<Value>,
    pub severity: Severity,
    pub rationale: Rationale,
}

/// The satisfaction rule, per variant: boolean leaves hold their own verdict,
/// `Object`, `List` and `Chain` are the conjunction over their children
/// (vacuously true when empty), a `Function` holds exactly its stored verdict,
/// and a `Refinement` requires a satisfied primary and a present, satisfied
/// refinement.
pub open spec fn sat(r: Rationale) -> bool
    decreases r, 0int, 0int,
    via sat_dec
{
    match r {
        Rationale::Anything => true,
        Rationale::Nothing => false,
        Rationale::Chain(terms) => sat_all(terms@, 0),
        Rationale::Object(fields) => sat_fields(fields@, 0),
        Rationale::List(items) => sat_all(items@, 0),
        Rationale::NotAnObject => false,
        Rationale::NotAList => false,
        Rationale::MissingField(_) => false,
        Rationale::InvalidArgument(_) => false,
        Rationale::Const(b) => b,
        Rationale::Primordial(b) => b,
        Rationale::Expression(b) => b,
        Rationale::Function(b, _, _) => b,
        Rationale::Refinement(primary, refinement) => if !sat(primary.rationale) {
            false
        } else {
            match refinement {
                Option::Some(secondary) => sat(secondary.rationale),
                Option::None => false,
            }
        },
    }
}

/// Conjunction of the satisfaction of the results from position `i` on.
pub open spec fn sat_all(s: Seq<EvaluationResult>, i: int) -> bool
    decreases s, 1int, s.len() - i,
{
    if 0 <= i < s.len() {
        sat(s[i].rationale) && sat_all(s, i + 1)
    } else {
        true
    }
}

/// Conjunction of the satisfaction of the field results from position `i` on.
pub open spec fn sat_fields(s: Seq<(String, EvaluationResult)>, i: int) -> bool
    decreases s, 1int, s.len() - i,
{
    if 0 <= i < s.len() {
        sat(s[i].1.rationale) && sat_fields(s, i + 1)
    } else {
        true
    }
}

#[via_fn]
proof fn sat_dec(r: Rationale) {
    match r {
        Rationale::Chain(terms) => {
            assert(decreases_to!(r => terms));
            assert(decreases_to!(terms => terms@));
        },
        Rationale::Object(fields) => {
            assert(decreases_to!(r => fields));
            assert(decreases_to!(fields => fields@));
        },
        Rationale::List(items) => {
            assert(decreases_to!(r => items));
            assert(decreases_to!(items => items@));
        },
        Rationale::Refinement(primary, refinement) => {
            assert(decreases_to!(r => primary));
            match refinement {
                Option::Some(secondary) => {
                    assert(decreases_to!(r => refinement));
                    assert(decreases_to!(refinement => secondary));
                },
                Option::None => {},
            }
        },
        _ => {},
    }
}

/// `sat_all` is the pointwise conjunction over the tail.
pub proof fn lemma_sat_all(s: Seq<EvaluationResult>, i: int)
    requires
        0 <= i <= s.len(),
    ensures
        sat_all(s, i) <==> (forall|k: int| i <= k < s.len() ==> #[trigger] sat(s[k].rationale)),
    decreases s.len() - i,
{
    if i < s.len() {
        lemma_sat_all(s, i + 1);
        assert(sat_all(s, i) == (sat(s[i].rationale) && sat_all(s, i + 1)));
        if sat_all(s, i) {
            assert(forall|k: int| i <= k < s.len() ==> #[trigger] sat(s[k].rationale)) by {
                assert(forall|k: int| i + 1 <= k < s.len() ==> #[trigger] sat(s[k].rationale));
            }
        }
    }
}

/// `sat_fields` is the pointwise conjunction over the tail.
pub proof fn lemma_sat_fields(s: Seq<(String, EvaluationResult)>, i: int)
    requires
        0 <= i <= s.len(),
    ensures
        sat_fields(s, i) <==> (forall|k: int| i <= k < s.len() ==> #[trigger] sat(s[k].1.rationale)),
    decreases s.len() - i,
{
    if i < s.len() {
        lemma_sat_fields(s, i + 1);
        assert(sat_fields(s, i) == (sat(s[i].1.rationale) && sat_fields(s, i + 1)));
        if sat_fields(s, i) {
            assert(forall|k: int| i <= k < s.len() ==> #[trigger] sat(s[k].1.rationale)) by {
                assert(forall|k: int| i + 1 <= k < s.len() ==> #[trigger] sat(s[k].1.rationale));
            }
        }
    }
}

impl Rationale {
    /// Whether this rationale is satisfied, exactly as [`sat`] states.
    pub fn satisfied(&self) -> (r: bool)
        ensures
            r == sat(*self),
        decreases *self, 0int, 0int,
    {
        match self {
            Rationale::Anything => true,
            Rationale::Nothing => false,
            Rationale::Chain(terms) => all_satisfied(terms),
            Rationale::Object(fields) => all_fields_satisfied(fields),
            Rationale::List(items) => all_satisfied(items),
            Rationale::NotAnObject => false,
            Rationale::NotAList => false,
            Rationale::MissingField(_) => false,
            Rationale::InvalidArgument(_) => false,
            Rationale::Const(b) => *b,
            Rationale::Primordial(b) => *b,
            Rationale::Expression(b) => *b,
            Rationale::Function(b, _, _) => *b,
            Rationale::Refinement(primary, refinement) => {
                proof {
                    assert(decreases_to!(*self => *primary));
                }
                if !primary.rationale.satisfied() {
                    false
                } else {
                    match refinement {
                        Option::Some(secondary) => {
                            proof {
                                assert(decreases_to!(*self => *refinement));
                                assert(decreases_to!(*refinement => **secondary));
                            }
                            secondary.rationale.satisfied()
                        },
                        Option::None => false,
                    }
                }
            },
        }
    }
}

/// Whether every result in the list is satisfied.
fn all_satisfied(items: &Vec<EvaluationResult>) -> (r: bool)
    ensures
        r == sat_all(items@, 0),
    decreases items@, 1int, 0int,
{
    proof {
        lemma_sat_all(items@, 0);
    }
    let mut i: usize = 0;
    while i < items.len()
        invariant
            i <= items.len(),
            forall|k: int| 0 <= k < i as int ==> #[trigger] sat(items@[k].rationale),
        decreases items.len() - i,
    {
        proof {
            assert(decreases_to!(items@ => items@[i as int]));
        }
        if !items[i].rationale.satisfied() {
            return false;
        }
        i = i + 1;
    }
    true
}

/// Whether every field result in the list is satisfied.
fn all_fields_satisfied(fields: &Vec<(String, EvaluationResult)>) -> (r: bool)
    ensures
        r == sat_fields(fields@, 0),
    decreases fields@, 1int, 0int,
{
    proof {
        lemma_sat_fields(fields@, 0);
    }
    let mut i: usize = 0;
    while i < fields.len()
        invariant
            i <= fields.len(),
            forall|k: int| 0 <= k < i as int ==> #[trigger] sat(fields@[k].1.rationale),
        decreases fields.len() - i,
    {
        proof {
            assert(decreases_to!(fields@ => fields@[i as int]));
        }
        if !fields[i].1.rationale.satisfied() {
            return false;
        }
        i = i + 1;
    }
    true
}

impl EvaluationResult {
    /// Whether this node of the evaluation tree is satisfied; defined as the
    /// satisfaction of its rationale.
    pub fn satisfied(&self) -> (r: bool)
        ensures
            r == sat(self.rationale),
    {
        self.rationale.satisfied()
    }

    /// The value this node produced: the transformed output where the pattern
    /// produced one, otherwise nothing.
    pub fn output(&self) -> (r: &Option<Value>)
        ensures
            r == &self.output,
    {
        &self.output
    }
}

} // verus!
