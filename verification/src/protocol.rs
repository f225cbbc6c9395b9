//! The function extension protocol and the read-only execution services:
//! pluggable named operations, the per-call argument bindings they receive,
//! and the per-evaluation configuration context they may consult.

use vstd::prelude::*;
use crate::rationale::Severity;
use crate::value::{value_view, Value, ValueV};

verus! {

/// An internal malfunction of the engine. Ordinary policy mismatches are
/// never faults: they are reported inside the rationale tree. A fault aborts
/// the whole evaluation request.
#[derive(Debug)]
pub enum EngineFault {
    /// A function implementation failed for a reason other than the checked
    /// condition being false (an I/O failure, a malformed required binding).
    Function(String),
}

/// The structural precondition a function declares on acceptable inputs.
#[derive(Debug, Clone, Copy, PartialEq, Eq, Structural)]
pub enum FunctionInput {
    Anything,
    Str,
    Bool,
    Int,
}

impl FunctionInput {
    /// Whether `v` has the declared shape.
    pub open spec fn spec_accepts(self, v: ValueV) -> bool {
        match self {
            FunctionInput::Anything => true,
            FunctionInput::Str => v is Str,
            FunctionInput::Bool => v is Bool,
            FunctionInput::Int => v is Int,
        }
    }

    /// Whether `v` has the declared shape.
    pub fn accepts(&self, v: &Value) -> (r: bool)
        ensures
            r == self.spec_accepts(v@),
    {
        proof {
            crate::value::lemma_view_kind(*v);
        }
        match self {
            FunctionInput::Anything => true,
            FunctionInput::Str => matches!(v, Value::Str(_)),
            FunctionInput::Bool => matches!(v, Value::Bool(_)),
            FunctionInput::Int => matches!(v, Value::Int(_)),
        }
    }
}

/// Documentation and default severity of a registered function, for catalog
/// and display use. The evaluator does not consult it: the severity of an
/// outcome comes from the call's own verdict.
#[derive(Debug)]
pub struct PatternMeta {
    pub documentation: String,
    pub severity: Severity,
}

/// What one function invocation produced: an outcome severity (anything
/// below `Error` counts as satisfied), an optional transformed value to pass
/// onward, an optional nested rationale, and advisory supporting results.
#[derive(Debug)]
pub struct FunctionEvaluationResult {
    pub severity: Severity,
    pub output: Option<Value>,
    pub rationale: Option<crate::rationale::Rationale>,
    pub supporting: Vec<crate::rationale::EvaluationResult>,
}

/// Ghost summary of a function invocation: its severity and its transform.
pub ghost struct CallOutcome {
    pub severity: Severity,
    pub output: Option<ValueV>,
}

/// A named argument handed to one function invocation: either a literal,
/// already resolved value, or an unresolved reference to a named pattern.
#[derive(Debug)]
pub enum Binding {
    Literal(Value),
    PatternRef(String),
}

impl Clone for Binding {
    fn clone(&self) -> (r: Self)
        ensures
            r@ == self@,
    {
        match self {
            Binding::Literal(v) => Binding::Literal(v.clone()),
            Binding::PatternRef(name) => Binding::PatternRef(name.clone()),
        }
    }
}

/// Ghost form of a [`Binding`].
pub ghost enum BindingV {
    Literal(ValueV),
    PatternRef(Seq<char>),
}

impl View for Binding {
    type V = BindingV;

    open spec fn view(&self) -> BindingV {
        match self {
            Binding::Literal(v) => BindingV::Literal(value_view(*v)),
            Binding::PatternRef(name) => BindingV::PatternRef(name@),
        }
    }
}

/// First-match lookup in an ordered name/binding list.
pub open spec fn binding_lookup(s: Seq<(Seq<char>, BindingV)>, key: Seq<char>) -> Option<BindingV>
    decreases s.len(),
{
    if s.len() == 0 {
        Option::None
    } else if s[0].0 == key {
        Option::Some(s[0].1)
    } else {
        binding_lookup(s.skip(1), key)
    }
}

/// Immutable, call-scoped ordered mapping from parameter name to argument;
/// created for one function invocation and discarded after it returns.
#[derive(Debug)]
pub struct Bindings {
    pub entries: Vec<(String, Binding)>,
}

impl View for Bindings {
    type V = Seq<(Seq<char>, BindingV)>;

    open spec fn view(&self) -> Seq<(Seq<char>, BindingV)> {
        Seq::new(self.entries@.len(), |i: int| (self.entries@[i].0@, self.entries@[i].1@))
    }
}

impl Bindings {
    /// An empty set of bindings.
    pub fn new() -> (r: Bindings)
        ensures
            r@ == Seq::<(Seq<char>, BindingV)>::empty(),
    {
        let r = Bindings { entries: Vec::new() };
        proof {
            assert(r@ =~= Seq::<(Seq<char>, BindingV)>::empty());
        }
        r
    }

    /// Bind one more argument, after the existing ones.
    pub fn push(&mut self, name: String, binding: Binding)
        ensures
            final(self)@ == old(self)@ + seq![(name@, binding@)],
    {
        let ghost before = self@;
        self.entries.push((name, binding));
        proof {
            assert(self@ =~= before + seq![(name@, binding@)]);
        }
    }

    /// The argument bound under `name`, if any: the first entry wins.
    pub fn get(&self, name: &str) -> (r: Option<&Binding>)
        ensures
            match r {
                Option::Some(b) => binding_lookup(self@, name@) == Option::Some(b@),
                Option::None => binding_lookup(self@, name@) is None,
            },
    {
        proof {
            assert(self@.skip(0) =~= self@);
        }
        let mut i: usize = 0;
        while i < self.entries.len()
            invariant
                i <= self.entries@.len(),
                binding_lookup(self@, name@) == binding_lookup(self@.skip(i as int), name@),
            decreases self.entries@.len() - i,
        {
            proof {
                assert(self@.skip(i as int)[0] == (self.entries@[i as int].0@,
                    self.entries@[i as int].1@));
            }
            if self.entries[i].0.as_str().eq(name) {
                return Option::Some(&self.entries[i].1);
            }
            proof {
                assert(self@.skip(i as int).skip(1) =~= self@.skip(i as int + 1));
            }
            i = i + 1;
        }
        proof {
            assert(self@.skip(i as int).len() == 0);
        }
        Option::None
    }
}

/// First-match lookup in an ordered name/value list.
pub open spec fn config_lookup(s: Seq<(Seq<char>, ValueV)>, key: Seq<char>) -> Option<ValueV>
    decreases s.len(),
{
    if s.len() == 0 {
        Option::None
    } else if s[0].0 == key {
        Option::Some(s[0].1)
    } else {
        config_lookup(s.skip(1), key)
    }
}

/// The read-only configuration exposed to an evaluation.
#[derive(Debug)]
pub struct ConfigContext {
    pub entries: Vec<(String, Value)>,
}

impl View for ConfigContext {
    type V = Seq<(Seq<char>, ValueV)>;

    open spec fn view(&self) -> Seq<(Seq<char>, ValueV)> {
        Seq::new(self.entries@.len(), |i: int| (
            self.entries@[i].0@,
            value_view(self.entries@[i].1),
        ))
    }
}

impl ConfigContext {
    /// An empty configuration.
    pub fn new() -> (r: ConfigContext)
        ensures
            r@ == Seq::<(Seq<char>, ValueV)>::empty(),
    {
        let r = ConfigContext { entries: Vec::new() };
        proof {
            assert(r@ =~= Seq::<(Seq<char>, ValueV)>::empty());
        }
        r
    }

    /// Add one configured key, after the existing ones.
    pub fn push(&mut self, key: String, value: Value)
        ensures
            final(self)@ == old(self)@ + seq![(key@, value@)],
    {
        let ghost before = self@;
        self.entries.push((key, value));
        proof {
            assert(self@ =~= before + seq![(key@, value@)]);
        }
    }

    /// The configured value under `key`, if any: the first entry wins.
    pub fn get(&self, key: &String) -> (r: Option<&Value>)
        ensures
            match r {
                Option::Some(v) => config_lookup(self@, key@) == Option::Some(v@),
                Option::None => config_lookup(self@, key@) is None,
            },
    {
        proof {
            assert(self@.skip(0) =~= self@);
        }
        let mut i: usize = 0;
        while i < self.entries.len()
            invariant
                i <= self.entries@.len(),
                config_lookup(self@, key@) == config_lookup(self@.skip(i as int), key@),
            decreases self.entries@.len() - i,
        {
            proof {
                assert(self@.skip(i as int)[0] == (self.entries@[i as int].0@,
                    value_view(self.entries@[i as int].1)));
            }
            if self.entries[i].0.eq(key) {
                return Option::Some(&self.entries[i].1);
            }
            proof {
                assert(self@.skip(i as int).skip(1) =~= self@.skip(i as int + 1));
            }
            i = i + 1;
        }
        proof {
            assert(self@.skip(i as int).len() == 0);
        }
        Option::None
    }
}

/// Per-top-level-evaluation, read-only handle the evaluator and the
/// registered functions consult.
#[derive(Debug)]
pub struct ExecutionContext {
    pub config: ConfigContext,
}

impl ExecutionContext {
    /// A context with no configuration.
    pub fn new() -> (r: ExecutionContext)
        ensures
            r.config@ == Seq::<(Seq<char>, ValueV)>::empty(),
    {
        ExecutionContext { config: ConfigContext::new() }
    }

    /// The configuration of this evaluation.
    pub fn config(&self) -> (r: &ConfigContext)
        ensures
            r == &self.config,
    {
        &self.config
    }
}

/// The contract a pluggable named operation implements. `order` resolves
/// multi-candidate ties (lower runs first), `parameters` names the required
/// arguments, `input` constrains acceptable value shapes, and `call` performs
/// the operation; its outcome is pinned by the implementation's `spec_call`.
pub trait Function {
    /// Priority of this implementation among same-named candidates.
    spec fn spec_order(&self) -> int;

    /// The declared required parameter names.
    spec fn spec_parameters(&self) -> Seq<Seq<char>>;

    /// The declared input constraint.
    spec fn spec_input(&self) -> FunctionInput;

    /// The outcome of a call, as a function of the input, the configuration
    /// and the bindings.
    spec fn spec_call(
        &self,
        input: ValueV,
        config: Seq<(Seq<char>, ValueV)>,
        bindings: Seq<(Seq<char>, BindingV)>,
    ) -> CallOutcome;

    /// Priority of this implementation among same-named candidates; lower
    /// values are resolved first.
    fn order(&self) -> (r: u8)
        ensures
            r as int == self.spec_order(),
    ;

    /// Documentation and default severity.
    fn metadata(&self) -> PatternMeta;

    /// The ordered list of required named arguments.
    fn parameters(&self) -> (r: Vec<String>)
        ensures
            r.deep_view() == self.spec_parameters(),
    ;

    /// The structural precondition on acceptable inputs.
    fn input(&self) -> (r: FunctionInput)
        ensures
            r == self.spec_input(),
    ;

    /// Invoke the operation. A false checked condition is reported as an
    /// `Error`-severity outcome, never as a fault; faults are reserved for
    /// malfunctions.
    fn call(
        &self,
        input: &Value,
        ctx: &ExecutionContext,
        bindings: &Bindings,
    ) -> (r: Result<FunctionEvaluationResult, EngineFault>)
        ensures
            match r {
                Result::Ok(out) => {
                    &&& out.severity == self.spec_call(input@, ctx.config@, bindings@).severity
                    &&& crate::report::opt_value_view(out.output) == self.spec_call(
                        input@,
                        ctx.config@,
                        bindings@,
                    ).output
                },
                Result::Err(_) => true,
            },
    ;
}

} // verus!
