//! The evaluator: recursively applies a compiled pattern to a value,
//! producing an evaluation-result tree built from rationale nodes. Policy
//! mismatches become rationale leaves; only engine malfunctions abort the
//! whole call.

use vstd::prelude::*;
use crate::config::Of;
use crate::maven::GAV;
use crate::protocol::{
    binding_lookup, config_lookup, Binding, Bindings, BindingV, CallOutcome, EngineFault,
    ExecutionContext, Function, FunctionEvaluationResult, FunctionInput,
};
use crate::rationale::{sat, EvaluationResult, Rationale, Severity};
use crate::report::opt_value_view;
use crate::value::{lemma_record_view, value_record_view, value_view, Value, ValueV};

verus! {

/// A compiled structural pattern: what the evaluator applies to a value.
#[derive(Debug)]
pub enum Pattern {
    /// Satisfied by any value.
    Anything,
    /// Satisfied by no value.
    Nothing,
    /// Satisfied exactly by values equal to the given constant.
    Const(Value),
    /// Requires a keyed record and constrains the named fields.
    Object(Vec<(String, Pattern)>),
    /// Requires a sequence and constrains every item.
    List(Box<Pattern>),
    /// A sequential refinement pipeline with short-circuit on failure.
    Chain(Vec<Pattern>),
    /// Satisfied when any alternative is satisfied.
    Or(Vec<Pattern>),
    /// A named registered function with its declared call arguments.
    Function(String, Vec<(String, Binding)>),
    /// A primary pattern plus an optional secondary constraint on the
    /// primary's output.
    Refinement(Box<Pattern>, Option<Box<Pattern>>),
}

/// One registered function implementation. The registry is a closed set of
/// the [`Function`] implementations this crate ships: with no dynamic
/// dispatch available to verified code, an outside implementation is added
/// by extending this enumeration, which keeps every registered call under a
/// proved contract.
#[derive(Debug)]
pub enum FunctionHolder {
    Config(Of),
    Maven(GAV),
}

impl FunctionHolder {
    /// Priority of the held implementation.
    pub open spec fn spec_order(&self) -> int {
        match self {
            FunctionHolder::Config(f) => f.spec_order(),
            FunctionHolder::Maven(f) => f.spec_order(),
        }
    }

    /// Declared parameter names of the held implementation.
    pub open spec fn spec_parameters(&self) -> Seq<Seq<char>> {
        match self {
            FunctionHolder::Config(f) => f.spec_parameters(),
            FunctionHolder::Maven(f) => f.spec_parameters(),
        }
    }

    /// Declared input constraint of the held implementation.
    pub open spec fn spec_input(&self) -> FunctionInput {
        match self {
            FunctionHolder::Config(f) => f.spec_input(),
            FunctionHolder::Maven(f) => f.spec_input(),
        }
    }

    /// Outcome of the held implementation on the given input.
    pub open spec fn spec_call(
        &self,
        input: ValueV,
        config: Seq<(Seq<char>, ValueV)>,
        bindings: Seq<(Seq<char>, BindingV)>,
    ) -> CallOutcome {
        match self {
            FunctionHolder::Config(f) => f.spec_call(input, config, bindings),
            FunctionHolder::Maven(f) => f.spec_call(input, config, bindings),
        }
    }

    /// Priority of the held implementation; lower runs first.
    pub fn order(&self) -> (r: u8)
        ensures
            r as int == self.spec_order(),
    {
        match self {
            FunctionHolder::Config(f) => f.order(),
            FunctionHolder::Maven(f) => f.order(),
        }
    }

    /// Declared parameter names of the held implementation.
    pub fn parameters(&self) -> (r: Vec<String>)
        ensures
            r.deep_view() == self.spec_parameters(),
    {
        match self {
            FunctionHolder::Config(f) => f.parameters(),
            FunctionHolder::Maven(f) => f.parameters(),
        }
    }

    /// Declared input constraint of the held implementation.
    pub fn input(&self) -> (r: FunctionInput)
        ensures
            r == self.spec_input(),
    {
        match self {
            FunctionHolder::Config(f) => f.input(),
            FunctionHolder::Maven(f) => f.input(),
        }
    }

    /// Whether a call with the given bindings returns normally: the held
    /// implementations fault only on a malformed required binding, never on
    /// the value under test.
    pub open spec fn call_succeeds(&self, bindings: Seq<(Seq<char>, BindingV)>) -> bool {
        match self {
            FunctionHolder::Config(_) => crate::config::of_key_ok(bindings),
            FunctionHolder::Maven(_) => true,
        }
    }

    /// Invoke the held implementation: a normal return exactly when
    /// [`Self::call_succeeds`] says so, with the outcome the implementation's
    /// own contract pins.
    pub fn call(
        &self,
        input: &Value,
        ctx: &ExecutionContext,
        bindings: &Bindings,
    ) -> (r: Result<FunctionEvaluationResult, EngineFault>)
        ensures
            r is Ok <==> self.call_succeeds(bindings@),
            match r {
                Result::Ok(out) => {
                    &&& out.severity == self.spec_call(input@, ctx.config@, bindings@).severity
                    &&& opt_value_view(out.output) == self.spec_call(
                        input@,
                        ctx.config@,
                        bindings@,
                    ).output
                },
                Result::Err(_) => true,
            },
    {
        match self {
            FunctionHolder::Config(f) => f.call(input, ctx, bindings),
            FunctionHolder::Maven(f) => f.call(input, ctx, bindings),
        }
    }
}

/// `i` names the registered candidate the given function name resolves to:
/// its name matches, no matching candidate has a lower priority, and no
/// earlier matching candidate has the same priority.
pub open spec fn resolves_at(
    s: Seq<(String, FunctionHolder)>,
    name: Seq<char>,
    i: int,
) -> bool {
    &&& 0 <= i < s.len()
    &&& s[i].0@ == name
    &&& forall|j: int| 0 <= j < s.len() && (#[trigger] s[j].0@) == name ==> s[i].1.spec_order()
        <= s[j].1.spec_order()
    &&& forall|j: int| 0 <= j < i && (#[trigger] s[j].0@) == name ==> s[j].1.spec_order()
        > s[i].1.spec_order()
}

/// The view of declared call arguments.
pub open spec fn args_view(args: Seq<(String, Binding)>) -> Seq<(Seq<char>, BindingV)> {
    Seq::new(args.len(), |i: int| (args[i].0@, args[i].1@))
}

/// The first declared parameter, from position `i` on, that the arguments
/// leave unbound.
pub open spec fn first_unbound(
    params: Seq<Seq<char>>,
    bindings: Seq<(Seq<char>, BindingV)>,
    i: int,
) -> Option<Seq<char>>
    decreases params.len() - i,
{
    if 0 <= i < params.len() {
        if binding_lookup(bindings, params[i]) is None {
            Option::Some(params[i])
        } else {
            first_unbound(params, bindings, i + 1)
        }
    } else {
        Option::None
    }
}

/// The next value a pipeline stage hands onward: the transformed output of
/// the result where there is one, the current value otherwise.
pub open spec fn next_value(cur: ValueV, er: EvaluationResult) -> ValueV {
    match opt_value_view(er.output) {
        Option::Some(o) => o,
        Option::None => cur,
    }
}

/// The severity a plain node derives from its verdict.
pub open spec fn derived_severity(satisfied: bool) -> Severity {
    if satisfied {
        Severity::Nominal
    } else {
        Severity::Error
    }
}

/// The common frame of a freshly evaluated node: unnamed, remembering the
/// value it saw.
pub open spec fn plain_node(er: EvaluationResult, v: ValueV) -> bool {
    &&& er.name is None
    &&& opt_value_view(er.input) == Option::Some(v)
}

/// A slot standing for a field the value does not have.
pub open spec fn missing_node(er: EvaluationResult, field: Seq<char>) -> bool {
    &&& er.name is None
    &&& er.input is None
    &&& er.output is None
    &&& er.severity == Severity::Error
    &&& match er.rationale {
        Rationale::MissingField(m) => m@ == field,
        _ => false,
    }
}

/// `er` is the evaluation of `p` against `v`: the relation the evaluator
/// establishes, node for node.
pub open spec fn eval_ok(
    p: Pattern,
    v: ValueV,
    config: Seq<(Seq<char>, ValueV)>,
    world: World,
    er: EvaluationResult,
) -> bool
    decreases p, 0int, 0int,
    via eval_ok_dec
{
    match p {
        Pattern::Anything => {
            &&& plain_node(er, v)
            &&& er.output is None
            &&& er.rationale is Anything
            &&& er.severity == Severity::Nominal
        },
        Pattern::Nothing => {
            &&& plain_node(er, v)
            &&& er.output is None
            &&& er.rationale is Nothing
            &&& er.severity == Severity::Error
        },
        Pattern::Const(c) => {
            &&& plain_node(er, v)
            &&& er.output is None
            &&& er.rationale == Rationale::Const(v == value_view(c))
            &&& er.severity == derived_severity(v == value_view(c))
        },
        Pattern::Object(decl) => {
            &&& plain_node(er, v)
            &&& er.output is None
            &&& match v {
                ValueV::Record(rfs) => match er.rationale {
                    Rationale::Object(frs) => {
                        &&& frs@.len() == decl@.len()
                        &&& (forall|k: int| 0 <= k < decl@.len() ==> (#[trigger] frs@[k]).0@
                            == decl@[k].0@)
                        &&& (forall|k: int| 0 <= k < decl@.len() ==> match config_lookup(
                            rfs,
                            decl@[k].0@,
                        ) {
                            Option::Some(sub) => eval_ok(
                                decl@[k].1,
                                sub,
                                config,
                                world,
                                (#[trigger] frs@[k]).1,
                            ),
                            Option::None => missing_node(frs@[k].1, decl@[k].0@),
                        })
                        &&& er.severity == derived_severity(sat(er.rationale))
                    },
                    _ => false,
                },
                _ => {
                    &&& er.rationale is NotAnObject
                    &&& er.severity == Severity::Error
                },
            }
        },
        Pattern::List(item) => {
            &&& plain_node(er, v)
            &&& er.output is None
            &&& match v {
                ValueV::List(items) => match er.rationale {
                    Rationale::List(ers) => {
                        &&& ers@.len() == items.len()
                        &&& (forall|k: int| 0 <= k < items.len() ==> eval_ok(
                            *item,
                            items[k],
                            config,
                            world,
                            (#[trigger] ers@[k]),
                        ))
                        &&& er.severity == derived_severity(sat(er.rationale))
                    },
                    _ => false,
                },
                _ => {
                    &&& er.rationale is NotAList
                    &&& er.severity == Severity::Error
                },
            }
        },
        Pattern::Chain(stages) => {
            &&& plain_node(er, v)
            &&& er.output is None
            &&& match er.rationale {
                Rationale::Chain(ers) => chain_ok(stages@, 0, v, config, world, ers@),
                _ => false,
            }
            &&& er.severity == derived_severity(sat(er.rationale))
        },
        Pattern::Or(alts) => {
            &&& plain_node(er, v)
            &&& er.output is None
            &&& match er.rationale {
                Rationale::Function(b, nested, ers) => {
                    &&& nested is None
                    &&& ers@.len() == alts@.len()
                    &&& (forall|k: int| 0 <= k < alts@.len() ==> eval_ok(
                        alts@[k],
                        v,
                        config,
                        world,
                        (#[trigger] ers@[k]),
                    ))
                    &&& b == sat(er.rationale)
                    &&& b == !(forall|k: int| 0 <= k < ers@.len() ==> !sat(
                        (#[trigger] ers@[k]).rationale,
                    ))
                },
                _ => false,
            }
            &&& er.severity == derived_severity(sat(er.rationale))
        },
        Pattern::Function(name, args) => {
            if exists|i: int| resolves_at(world.functions@, name@, i) {
                let i = choose|i: int| resolves_at(world.functions@, name@, i);
                let holder = world.functions@[i].1;
                match first_unbound(holder.spec_parameters(), args_view(args@), 0) {
                    Option::Some(param) => {
                        &&& plain_node(er, v)
                        &&& er.output is None
                        &&& er.rationale == Rationale::InvalidArgument(
                            er.rationale->InvalidArgument_0,
                        )
                        &&& er.rationale->InvalidArgument_0@ == param
                        &&& er.severity == Severity::Error
                    },
                    Option::None => {
                        if !holder.spec_input().spec_accepts(v) {
                            &&& plain_node(er, v)
                            &&& er.output is None
                            &&& er.rationale == Rationale::InvalidArgument(
                                er.rationale->InvalidArgument_0,
                            )
                            &&& er.rationale->InvalidArgument_0@ == name@
                            &&& er.severity == Severity::Error
                        } else {
                            let outcome = holder.spec_call(v, config, args_view(args@));
                            &&& plain_node(er, v)
                            &&& opt_value_view(er.output) == outcome.output
                            &&& er.severity == outcome.severity
                            &&& match er.rationale {
                                Rationale::Function(b, nested, sup) => {
                                    &&& b == (outcome.severity != Severity::Error)
                                    &&& nested is None
                                    &&& sup@.len() == 0
                                },
                                _ => false,
                            }
                        }
                    },
                }
            } else {
                false
            }
        },
        Pattern::Refinement(primary, refinement) => {
            &&& plain_node(er, v)
            &&& match er.rationale {
                Rationale::Refinement(pr, sec) => {
                    &&& eval_ok(*primary, v, config, world, *pr)
                    &&& opt_value_view(er.output) == opt_value_view(pr.output)
                    &&& if !sat(pr.rationale) {
                        sec is None
                    } else {
                        match refinement {
                            Option::Some(sp) => match sec {
                                Option::Some(se) => eval_ok(
                                    *sp,
                                    next_value(v, *pr),
                                    config,
                                    world,
                                    *se,
                                ),
                                Option::None => false,
                            },
                            Option::None => sec is None,
                        }
                    }
                },
                _ => false,
            }
            &&& er.severity == derived_severity(sat(er.rationale))
        },
    }
}

/// `ers` are the evaluations of the pipeline stages from `i` on, against the
/// running value `cur`: each satisfied stage hands its output onward, and
/// the first unsatisfied stage ends the pipeline.
pub open spec fn chain_ok(
    stages: Seq<Pattern>,
    i: int,
    cur: ValueV,
    config: Seq<(Seq<char>, ValueV)>,
    world: World,
    ers: Seq<EvaluationResult>,
) -> bool
    decreases stages, 1int, stages.len() - i,
{
    if 0 <= i < stages.len() {
        &&& ers.len() >= 1
        &&& eval_ok(stages[i], cur, config, world, ers[0])
        &&& if sat(ers[0].rationale) {
            chain_ok(stages, i + 1, next_value(cur, ers[0]), config, world, ers.skip(1))
        } else {
            ers.len() == 1
        }
    } else {
        ers.len() == 0
    }
}

#[via_fn]
proof fn eval_ok_dec(
    p: Pattern,
    v: ValueV,
    config: Seq<(Seq<char>, ValueV)>,
    world: World,
    er: EvaluationResult,
) {
    match p {
        Pattern::Object(decl) => {
            assert(decreases_to!(p => decl));
            assert(decreases_to!(decl => decl@));
        },
        Pattern::List(item) => {
            assert(decreases_to!(p => item));
        },
        Pattern::Chain(stages) => {
            assert(decreases_to!(p => stages));
            assert(decreases_to!(stages => stages@));
        },
        Pattern::Or(alts) => {
            assert(decreases_to!(p => alts));
            assert(decreases_to!(alts => alts@));
        },
        Pattern::Refinement(primary, refinement) => {
            assert(decreases_to!(p => primary));
            match refinement {
                Option::Some(sp) => {
                    assert(decreases_to!(p => refinement));
                    assert(decreases_to!(refinement => sp));
                },
                Option::None => {},
            }
        },
        _ => {},
    }
}

/// Evaluation of this pattern cannot fault, whatever the value under test:
/// every named function resolves to a registered candidate, and wherever the
/// declared arguments bind every required parameter, the resolved call
/// returns normally. Exactly when this holds, [`evaluate`] returns `Ok`.
pub open spec fn eval_safe(p: Pattern, world: World) -> bool
    decreases p, 0int, 0int,
    via eval_safe_dec
{
    match p {
        Pattern::Anything => true,
        Pattern::Nothing => true,
        Pattern::Const(_) => true,
        Pattern::Object(decl) => safe_fields(decl@, 0, world),
        Pattern::List(item) => eval_safe(*item, world),
        Pattern::Chain(stages) => safe_list(stages@, 0, world),
        Pattern::Or(alts) => safe_list(alts@, 0, world),
        Pattern::Function(name, args) => {
            &&& exists|i: int| resolves_at(world.functions@, name@, i)
            &&& {
                let i = choose|i: int| resolves_at(world.functions@, name@, i);
                let holder = world.functions@[i].1;
                first_unbound(holder.spec_parameters(), args_view(args@), 0) is None
                    ==> holder.call_succeeds(args_view(args@))
            }
        },
        Pattern::Refinement(primary, refinement) => {
            &&& eval_safe(*primary, world)
            &&& match refinement {
                Option::Some(sp) => eval_safe(*sp, world),
                Option::None => true,
            }
        },
    }
}

/// Every pattern in the list, from position `i` on, evaluates without fault.
pub open spec fn safe_list(s: Seq<Pattern>, i: int, world: World) -> bool
    decreases s, 1int, s.len() - i,
{
    if 0 <= i < s.len() {
        eval_safe(s[i], world) && safe_list(s, i + 1, world)
    } else {
        true
    }
}

/// Every field pattern in the list, from position `i` on, evaluates without
/// fault.
pub open spec fn safe_fields(s: Seq<(String, Pattern)>, i: int, world: World) -> bool
    decreases s, 1int, s.len() - i,
{
    if 0 <= i < s.len() {
        eval_safe(s[i].1, world) && safe_fields(s, i + 1, world)
    } else {
        true
    }
}

#[via_fn]
proof fn eval_safe_dec(p: Pattern, world: World) {
    match p {
        Pattern::Object(decl) => {
            assert(decreases_to!(p => decl));
            assert(decreases_to!(decl => decl@));
        },
        Pattern::List(item) => {
            assert(decreases_to!(p => item));
        },
        Pattern::Chain(stages) => {
            assert(decreases_to!(p => stages));
            assert(decreases_to!(stages => stages@));
        },
        Pattern::Or(alts) => {
            assert(decreases_to!(p => alts));
            assert(decreases_to!(alts => alts@));
        },
        Pattern::Refinement(primary, refinement) => {
            assert(decreases_to!(p => primary));
            match refinement {
                Option::Some(sp) => {
                    assert(decreases_to!(p => refinement));
                    assert(decreases_to!(refinement => sp));
                },
                Option::None => {},
            }
        },
        _ => {},
    }
}

/// `safe_list` is the pointwise conjunction over the tail.
pub proof fn lemma_safe_list(s: Seq<Pattern>, i: int, world: World)
    requires
        0 <= i <= s.len(),
    ensures
        safe_list(s, i, world) <==> (forall|k: int| i <= k < s.len() ==> #[trigger] eval_safe(
            s[k],
            world,
        )),
    decreases s.len() - i,
{
    if i < s.len() {
        lemma_safe_list(s, i + 1, world);
        assert(safe_list(s, i, world) == (eval_safe(s[i], world) && safe_list(s, i + 1, world)));
        if safe_list(s, i, world) {
            assert(forall|k: int| i <= k < s.len() ==> #[trigger] eval_safe(s[k], world)) by {
                assert(forall|k: int| i + 1 <= k < s.len() ==> #[trigger] eval_safe(s[k], world));
            }
        }
    }
}

/// `safe_fields` is the pointwise conjunction over the tail.
pub proof fn lemma_safe_fields(s: Seq<(String, Pattern)>, i: int, world: World)
    requires
        0 <= i <= s.len(),
    ensures
        safe_fields(s, i, world) <==> (forall|k: int| i <= k < s.len() ==> #[trigger] eval_safe(
            s[k].1,
            world,
        )),
    decreases s.len() - i,
{
    if i < s.len() {
        lemma_safe_fields(s, i + 1, world);
        assert(safe_fields(s, i, world) == (eval_safe(s[i].1, world) && safe_fields(
            s,
            i + 1,
            world,
        )));
        if safe_fields(s, i, world) {
            assert(forall|k: int| i <= k < s.len() ==> #[trigger] eval_safe(s[k].1, world)) by {
                assert(forall|k: int| i + 1 <= k < s.len() ==> #[trigger] eval_safe(s[k].1, world));
            }
        }
    }
}

/// No two candidates resolve one name: the minimal-priority, earliest
/// matching entry is unique.
pub proof fn lemma_resolves_unique(
    s: Seq<(String, FunctionHolder)>,
    name: Seq<char>,
    i: int,
    j: int,
)
    requires
        resolves_at(s, name, i),
        resolves_at(s, name, j),
    ensures
        i == j,
{
    if i < j {
        assert(s[i].1.spec_order() > s[j].1.spec_order());
        assert(s[j].1.spec_order() >= s[i].1.spec_order());
    }
    if j < i {
        assert(s[j].1.spec_order() > s[i].1.spec_order());
        assert(s[i].1.spec_order() >= s[j].1.spec_order());
    }
}

/// Resolve a function name among the registered candidates: the matching
/// candidate with the lowest priority, the earliest on a tie.
fn resolve(functions: &Vec<(String, FunctionHolder)>, name: &str) -> (r: Option<usize>)
    ensures
        match r {
            Option::Some(i) => resolves_at(functions@, name@, i as int),
            Option::None => forall|j: int| 0 <= j < functions@.len()
                ==> (#[trigger] functions@[j].0@) != name@,
        },
{
    let mut best: Option<usize> = Option::None;
    let mut j: usize = 0;
    while j < functions.len()
        invariant
            j <= functions@.len(),
            match best {
                Option::Some(b) => {
                    &&& 0 <= b < j
                    &&& functions@[b as int].0@ == name@
                    &&& forall|k: int| 0 <= k < j as int && (#[trigger] functions@[k].0@) == name@
                        ==> functions@[b as int].1.spec_order() <= functions@[k].1.spec_order()
                    &&& forall|k: int| 0 <= k < b as int && (#[trigger] functions@[k].0@) == name@
                        ==> functions@[k].1.spec_order() > functions@[b as int].1.spec_order()
                },
                Option::None => forall|k: int| 0 <= k < j as int ==> (#[trigger] functions@[k].0@)
                    != name@,
            },
        decreases functions@.len() - j,
    {
        if functions[j].0.as_str().eq(name) {
            match best {
                Option::None => {
                    best = Option::Some(j);
                },
                Option::Some(b) => {
                    if functions[j].1.order() < functions[b].1.order() {
                        best = Option::Some(j);
                    }
                },
            }
        }
        j = j + 1;
    }
    best
}

/// First-match lookup of a field of a keyed record.
fn record_get<'a>(fields: &'a Vec<(String, Value)>, key: &String) -> (r: Option<&'a Value>)
    ensures
        match r {
            Option::Some(v) => config_lookup(value_record_view(fields@, 0), key@) == Option::Some(
                v@,
            ),
            Option::None => config_lookup(value_record_view(fields@, 0), key@) is None,
        },
{
    proof {
        lemma_record_view(fields@, 0);
    }
    let ghost whole = value_record_view(fields@, 0);
    let mut i: usize = 0;
    proof {
        assert(whole.skip(0) =~= whole);
    }
    while i < fields.len()
        invariant
            i <= fields@.len(),
            whole == value_record_view(fields@, 0),
            whole.len() == fields@.len(),
            forall|k: int| 0 <= k < fields@.len() ==> whole[k] == (
                fields@[k].0@,
                value_view(fields@[k].1),
            ),
            config_lookup(whole, key@) == config_lookup(whole.skip(i as int), key@),
        decreases fields@.len() - i,
    {
        proof {
            assert(whole.skip(i as int)[0] == whole[i as int]);
        }
        if fields[i].0.eq(key) {
            return Option::Some(&fields[i].1);
        }
        proof {
            assert(whole.skip(i as int).skip(1) =~= whole.skip(i as int + 1));
        }
        i = i + 1;
    }
    proof {
        assert(whole.skip(i as int).len() == 0);
    }
    Option::None
}

/// Apply a compiled pattern to a value. Ordinary policy mismatches become
/// rationale leaves in the returned tree, exactly as [`eval_ok`] states;
/// only an engine malfunction — an unresolvable function name or a faulting
/// call — aborts the call, and a pattern that is [`eval_safe`] always
/// evaluates normally.
#[verifier::rlimit(100)]
pub fn evaluate(
    pattern: &Pattern,
    value: &Value,
    ctx: &ExecutionContext,
    world: &World,
) -> (r: Result<EvaluationResult, EngineFault>)
    ensures
        eval_safe(*pattern, *world) ==> r is Ok,
        match r {
            Result::Ok(er) => eval_ok(*pattern, value@, ctx.config@, *world, er),
            Result::Err(_) => true,
        },
    decreases *pattern, 0int, 0int,
{
    match pattern {
        Pattern::Anything => Result::Ok(EvaluationResult {
            name: Option::None,
            input: Option::Some(value.clone()),
            output: Option::None,
            severity: Severity::Nominal,
            rationale: Rationale::Anything,
        }),
        Pattern::Nothing => Result::Ok(EvaluationResult {
            name: Option::None,
            input: Option::Some(value.clone()),
            output: Option::None,
            severity: Severity::Error,
            rationale: Rationale::Nothing,
        }),
        Pattern::Const(c) => {
            let same = value.value_eq(c);
            Result::Ok(EvaluationResult {
                name: Option::None,
                input: Option::Some(value.clone()),
                output: Option::None,
                severity: if same {
                    Severity::Nominal
                } else {
                    Severity::Error
                },
                rationale: Rationale::Const(same),
            })
        },
        Pattern::Object(decl) => {
            match value {
                Value::Record(rfs) => {
                    proof {
                        lemma_record_view(rfs@, 0);
                        crate::value::lemma_view_kind(*value);
                        lemma_safe_fields(decl@, 0, *world);
                    }
                    let mut frs: Vec<(String, EvaluationResult)> = Vec::new();
                    let mut k: usize = 0;
                    while k < decl.len()
                        invariant
                            k <= decl@.len(),
                            frs@.len() == k as int,
                            value@ == ValueV::Record(value_record_view(rfs@, 0)),
                            forall|m: int| 0 <= m < k as int ==> (#[trigger] frs@[m]).0@
                                == decl@[m].0@,
                            forall|m: int| 0 <= m < k as int ==> match config_lookup(
                                value_record_view(rfs@, 0),
                                decl@[m].0@,
                            ) {
                                Option::Some(sub) => eval_ok(
                                    decl@[m].1,
                                    sub,
                                    ctx.config@,
                                    *world,
                                    (#[trigger] frs@[m]).1,
                                ),
                                Option::None => missing_node(frs@[m].1, decl@[m].0@),
                            },
                        decreases decl@.len() - k,
                    {
                        proof {
                            assert(decreases_to!(*pattern => *decl));
                            assert(decreases_to!(*decl => decl@));
                            assert(decreases_to!(decl@ => decl@[k as int]));
                            assert(decreases_to!(decl@[k as int] => decl@[k as int].1));
                        }
                        let fname = &decl[k].0;
                        let child = match record_get(rfs, fname) {
                            Option::Some(sub) => {
                                let sub_er = evaluate(&decl[k].1, sub, ctx, world)?;
                                sub_er
                            },
                            Option::None => EvaluationResult {
                                name: Option::None,
                                input: Option::None,
                                output: Option::None,
                                severity: Severity::Error,
                                rationale: Rationale::MissingField(fname.clone()),
                            },
                        };
                        frs.push((fname.clone(), child));
                        k = k + 1;
                    }
                    let rat = Rationale::Object(frs);
                    let ok = rat.satisfied();
                    Result::Ok(EvaluationResult {
                        name: Option::None,
                        input: Option::Some(value.clone()),
                        output: Option::None,
                        severity: if ok {
                            Severity::Nominal
                        } else {
                            Severity::Error
                        },
                        rationale: rat,
                    })
                },
                _ => {
                    proof {
                        crate::value::lemma_view_kind(*value);
                    }
                    Result::Ok(EvaluationResult {
                        name: Option::None,
                        input: Option::Some(value.clone()),
                        output: Option::None,
                        severity: Severity::Error,
                        rationale: Rationale::NotAnObject,
                    })
                },
            }
        },
        Pattern::List(item) => {
            match value {
                Value::List(items) => {
                    proof {
                        crate::value::lemma_list_view(items@, 0);
                        crate::value::lemma_view_kind(*value);
                    }
                    let mut ers: Vec<EvaluationResult> = Vec::new();
                    let mut k: usize = 0;
                    while k < items.len()
                        invariant
                            k <= items@.len(),
                            ers@.len() == k as int,
                            value@ == ValueV::List(crate::value::value_list_view(items@, 0)),
                            forall|m: int| 0 <= m < k as int ==> eval_ok(
                                **item,
                                crate::value::value_list_view(items@, 0)[m],
                                ctx.config@,
                                *world,
                                (#[trigger] ers@[m]),
                            ),
                        decreases items@.len() - k,
                    {
                        proof {
                            assert(decreases_to!(*pattern => *item));
                            assert(decreases_to!(*items => items@));
                            assert(decreases_to!(items@ => items@[k as int]));
                        }
                        let child = evaluate(item, &items[k], ctx, world)?;
                        ers.push(child);
                        k = k + 1;
                    }
                    let rat = Rationale::List(ers);
                    let ok = rat.satisfied();
                    Result::Ok(EvaluationResult {
                        name: Option::None,
                        input: Option::Some(value.clone()),
                        output: Option::None,
                        severity: if ok {
                            Severity::Nominal
                        } else {
                            Severity::Error
                        },
                        rationale: rat,
                    })
                },
                _ => {
                    proof {
                        crate::value::lemma_view_kind(*value);
                    }
                    Result::Ok(EvaluationResult {
                        name: Option::None,
                        input: Option::Some(value.clone()),
                        output: Option::None,
                        severity: Severity::Error,
                        rationale: Rationale::NotAList,
                    })
                },
            }
        },
        Pattern::Chain(stages) => {
            let ers = eval_chain(stages, 0, value, ctx, world)?;
            let rat = Rationale::Chain(ers);
            let ok = rat.satisfied();
            Result::Ok(EvaluationResult {
                name: Option::None,
                input: Option::Some(value.clone()),
                output: Option::None,
                severity: if ok {
                    Severity::Nominal
                } else {
                    Severity::Error
                },
                rationale: rat,
            })
        },
        Pattern::Or(alts) => {
            proof {
                lemma_safe_list(alts@, 0, *world);
            }
            let mut ers: Vec<EvaluationResult> = Vec::new();
            let mut any: bool = false;
            let mut k: usize = 0;
            while k < alts.len()
                invariant
                    k <= alts@.len(),
                    ers@.len() == k as int,
                    forall|m: int| 0 <= m < k as int ==> eval_ok(
                        alts@[m],
                        value@,
                        ctx.config@,
                        *world,
                        (#[trigger] ers@[m]),
                    ),
                    any == !(forall|m: int| 0 <= m < k as int ==> !sat(
                        (#[trigger] ers@[m]).rationale,
                    )),
                decreases alts@.len() - k,
            {
                proof {
                    assert(decreases_to!(*pattern => *alts));
                    assert(decreases_to!(*alts => alts@));
                    assert(decreases_to!(alts@ => alts@[k as int]));
                }
                let child = evaluate(&alts[k], value, ctx, world)?;
                let child_ok = child.satisfied();
                let ghost prev = ers@;
                ers.push(child);
                proof {
                    let gk = k as int;
                    assert(sat(ers@[gk].rationale) == child_ok);
                    assert(forall|m: int| 0 <= m < gk ==> ers@[m] == prev[m]);
                    if any || child_ok {
                        if child_ok {
                            assert(!(forall|m: int| 0 <= m < gk + 1 ==> !sat(
                                (#[trigger] ers@[m]).rationale,
                            )));
                        } else {
                            let w = choose|m: int| !(0 <= m < gk ==> !sat(
                                (#[trigger] prev[m]).rationale,
                            ));
                            assert(sat(ers@[w].rationale));
                            assert(!(forall|m: int| 0 <= m < gk + 1 ==> !sat(
                                (#[trigger] ers@[m]).rationale,
                            )));
                        }
                    } else {
                        assert(forall|m: int| 0 <= m < gk + 1 ==> !sat(
                            (#[trigger] ers@[m]).rationale,
                        ));
                    }
                }
                any = any || child_ok;
                k = k + 1;
            }
            Result::Ok(EvaluationResult {
                name: Option::None,
                input: Option::Some(value.clone()),
                output: Option::None,
                severity: if any {
                    Severity::Nominal
                } else {
                    Severity::Error
                },
                rationale: Rationale::Function(any, Option::None, ers),
            })
        },
        Pattern::Function(name, args) => {
            match resolve(&world.functions, name.as_str()) {
                Option::None => Result::Err(EngineFault::Function(name.clone())),
                Option::Some(idx) => {
                    proof {
                        let gi = choose|i: int| resolves_at(world.functions@, name@, i);
                        lemma_resolves_unique(world.functions@, name@, gi, idx as int);
                    }
                    let holder = &world.functions[idx].1;
                    let mut bindings = Bindings::new();
                    let mut k: usize = 0;
                    while k < args.len()
                        invariant
                            k <= args@.len(),
                            bindings@ == args_view(args@).take(k as int),
                        decreases args@.len() - k,
                    {
                        bindings.push(args[k].0.clone(), args[k].1.clone());
                        proof {
                            assert(args_view(args@).take(k as int) + seq![
                                (args@[k as int].0@, args@[k as int].1@),
                            ] =~= args_view(args@).take(k as int + 1));
                        }
                        k = k + 1;
                    }
                    proof {
                        assert(args_view(args@).take(args@.len() as int) =~= args_view(args@));
                    }
                    let params = holder.parameters();
                    let ghost pd = holder.spec_parameters();
                    let mut pi: usize = 0;
                    while pi < params.len()
                        invariant
                            pi <= params@.len(),
                            pd == holder.spec_parameters(),
                            params.deep_view() == pd,
                            bindings@ == args_view(args@),
                            first_unbound(pd, bindings@, 0) == first_unbound(
                                pd,
                                bindings@,
                                pi as int,
                            ),
                        decreases params@.len() - pi,
                    {
                        match bindings.get(params[pi].as_str()) {
                            Option::None => {
                                return Result::Ok(EvaluationResult {
                                    name: Option::None,
                                    input: Option::Some(value.clone()),
                                    output: Option::None,
                                    severity: Severity::Error,
                                    rationale: Rationale::InvalidArgument(params[pi].clone()),
                                });
                            },
                            Option::Some(_) => {},
                        }
                        pi = pi + 1;
                    }
                    if !holder.input().accepts(value) {
                        return Result::Ok(EvaluationResult {
                            name: Option::None,
                            input: Option::Some(value.clone()),
                            output: Option::None,
                            severity: Severity::Error,
                            rationale: Rationale::InvalidArgument(name.clone()),
                        });
                    }
                    let fer = holder.call(value, ctx, &bindings)?;
                    let failed = matches!(fer.severity, Severity::Error);
                    Result::Ok(EvaluationResult {
                        name: Option::None,
                        input: Option::Some(value.clone()),
                        output: fer.output,
                        severity: fer.severity,
                        rationale: Rationale::Function(!failed, Option::None, Vec::new()),
                    })
                },
            }
        },
        Pattern::Refinement(primary, refinement) => {
            proof {
                assert(decreases_to!(*pattern => *primary));
            }
            let pr = evaluate(primary, value, ctx, world)?;
            let pr_ok = pr.satisfied();
            let output = match &pr.output {
                Option::Some(o) => Option::Some(o.clone()),
                Option::None => Option::None,
            };
            if !pr_ok {
                let rat = Rationale::Refinement(Box::new(pr), Option::None);
                let ok = rat.satisfied();
                return Result::Ok(EvaluationResult {
                    name: Option::None,
                    input: Option::Some(value.clone()),
                    output,
                    severity: if ok {
                        Severity::Nominal
                    } else {
                        Severity::Error
                    },
                    rationale: rat,
                });
            }
            match refinement {
                Option::None => {
                    let rat = Rationale::Refinement(Box::new(pr), Option::None);
                    let ok = rat.satisfied();
                    Result::Ok(EvaluationResult {
                        name: Option::None,
                        input: Option::Some(value.clone()),
                        output,
                        severity: if ok {
                            Severity::Nominal
                        } else {
                            Severity::Error
                        },
                        rationale: rat,
                    })
                },
                Option::Some(sp) => {
                    proof {
                        assert(decreases_to!(*pattern => *refinement));
                        assert(decreases_to!(*refinement => **sp));
                    }
                    let next = match &pr.output {
                        Option::Some(o) => o.clone(),
                        Option::None => value.clone(),
                    };
                    let se = evaluate(sp, &next, ctx, world)?;
                    let rat = Rationale::Refinement(Box::new(pr), Option::Some(Box::new(se)));
                    let ok = rat.satisfied();
                    Result::Ok(EvaluationResult {
                        name: Option::None,
                        input: Option::Some(value.clone()),
                        output,
                        severity: if ok {
                            Severity::Nominal
                        } else {
                            Severity::Error
                        },
                        rationale: rat,
                    })
                },
            }
        },
    }
}

/// Evaluate the pipeline stages from `i` on against the running value,
/// short-circuiting at the first unsatisfied stage.
fn eval_chain(
    stages: &Vec<Pattern>,
    i: usize,
    cur: &Value,
    ctx: &ExecutionContext,
    world: &World,
) -> (r: Result<Vec<EvaluationResult>, EngineFault>)
    requires
        i <= stages@.len(),
    ensures
        safe_list(stages@, i as int, *world) ==> r is Ok,
        match r {
            Result::Ok(ers) => chain_ok(stages@, i as int, cur@, ctx.config@, *world, ers@),
            Result::Err(_) => true,
        },
    decreases stages@, 1int, stages@.len() - i,
{
    if i < stages.len() {
        proof {
            assert(decreases_to!(stages@ => stages@[i as int]));
        }
        let er = evaluate(&stages[i], cur, ctx, world)?;
        if er.satisfied() {
            let next = match &er.output {
                Option::Some(o) => o.clone(),
                Option::None => cur.clone(),
            };
            let rest = eval_chain(stages, i + 1, &next, ctx, world)?;
            let ghost rest_snapshot = rest@;
            let mut out: Vec<EvaluationResult> = Vec::new();
            out.push(er);
            let mut rest = rest;
            out.append(&mut rest);
            proof {
                assert(out@[0] == er);
                assert(out@.skip(1) =~= rest_snapshot);
            }
            Result::Ok(out)
        } else {
            let mut out: Vec<EvaluationResult> = Vec::new();
            out.push(er);
            Result::Ok(out)
        }
    } else {
        Result::Ok(Vec::new())
    }
}

/// First-match lookup of a registered pattern.
pub open spec fn pattern_lookup(s: Seq<(Seq<char>, Pattern)>, name: Seq<char>) -> Option<Pattern>
    decreases s.len(),
{
    if s.len() == 0 {
        Option::None
    } else if s[0].0 == name {
        Option::Some(s[0].1)
    } else {
        pattern_lookup(s.skip(1), name)
    }
}

/// The process-wide, read-only registry: qualified pattern names mapped to
/// compiled patterns, and function names mapped to implementations. Built
/// once, before evaluation begins; never mutated during evaluation.
#[derive(Debug)]
pub struct World {
    pub patterns: Vec<(String, Pattern)>,
    pub functions: Vec<(String, FunctionHolder)>,
}

impl World {
    /// An empty registry.
    pub fn new() -> (r: World)
        ensures
            r.patterns@.len() == 0,
            r.functions@.len() == 0,
    {
        World { patterns: Vec::new(), functions: Vec::new() }
    }

    /// Register a named pattern, after the existing ones.
    pub fn define(&mut self, name: String, pattern: Pattern)
        ensures
            final(self).patterns@ == old(self).patterns@ + seq![(name, pattern)],
            final(self).functions@ == old(self).functions@,
    {
        self.patterns.push((name, pattern));
    }

    /// Register a function implementation, after the existing ones.
    pub fn register(&mut self, name: String, holder: FunctionHolder)
        ensures
            final(self).functions@ == old(self).functions@ + seq![(name, holder)],
            final(self).patterns@ == old(self).patterns@,
    {
        self.functions.push((name, holder));
    }

    /// The registered pattern of the given qualified name, if any: the first
    /// entry wins.
    pub fn lookup(&self, name: &str) -> (r: Option<&Pattern>)
        ensures
            match r {
                Option::Some(p) => pattern_lookup(world_patterns_view(self.patterns@), name@)
                    == Option::Some(*p),
                Option::None => pattern_lookup(world_patterns_view(self.patterns@), name@) is None,
            },
    {
        let ghost whole = world_patterns_view(self.patterns@);
        let mut i: usize = 0;
        proof {
            assert(whole.skip(0) =~= whole);
        }
        while i < self.patterns.len()
            invariant
                i <= self.patterns@.len(),
                whole == world_patterns_view(self.patterns@),
                pattern_lookup(whole, name@) == pattern_lookup(whole.skip(i as int), name@),
            decreases self.patterns@.len() - i,
        {
            proof {
                assert(whole.skip(i as int)[0] == whole[i as int]);
            }
            if self.patterns[i].0.as_str().eq(name) {
                return Option::Some(&self.patterns[i].1);
            }
            proof {
                assert(whole.skip(i as int).skip(1) =~= whole.skip(i as int + 1));
            }
            i = i + 1;
        }
        proof {
            assert(whole.skip(i as int).len() == 0);
        }
        Option::None
    }

    /// Evaluate the registered pattern of the given qualified name against a
    /// value: the returned tree carries the pattern's name and otherwise
    /// relates to the pattern as [`eval_ok`] states. An unregistered name is
    /// an engine fault.
    pub fn evaluate(&self, name: &str, value: &Value, ctx: &ExecutionContext) -> (r: Result<
        EvaluationResult,
        EngineFault,
    >)
        ensures
            match pattern_lookup(world_patterns_view(self.patterns@), name@) {
                Option::Some(p) => {
                    &&& (eval_safe(p, *self) ==> r is Ok)
                    &&& match r {
                        Result::Ok(er) => crate::report::opt_name_view(er.name) == Option::Some(
                            name@,
                        ) && eval_ok(
                            p,
                            value@,
                            ctx.config@,
                            *self,
                            EvaluationResult { name: Option::None, ..er },
                        ),
                        Result::Err(_) => true,
                    }
                },
                Option::None => r is Err,
            },
    {
        let ghost whole = world_patterns_view(self.patterns@);
        let mut i: usize = 0;
        proof {
            assert(whole.skip(0) =~= whole);
        }
        while i < self.patterns.len()
            invariant
                i <= self.patterns@.len(),
                whole == world_patterns_view(self.patterns@),
                pattern_lookup(whole, name@) == pattern_lookup(whole.skip(i as int), name@),
            decreases self.patterns@.len() - i,
        {
            proof {
                assert(whole.skip(i as int)[0] == whole[i as int]);
            }
            if self.patterns[i].0.as_str().eq(name) {
                let found = evaluate(&self.patterns[i].1, value, ctx, self);
                match found {
                    Result::Ok(er) => {
                        let ghost bare = er;
                        let mut er = er;
                        er.name = Option::Some(self.patterns[i].0.clone());
                        proof {
                            assert(EvaluationResult { name: Option::None, ..er } == bare);
                        }
                        return Result::Ok(er);
                    },
                    Result::Err(e) => {
                        return Result::Err(e);
                    },
                }
            }
            proof {
                assert(whole.skip(i as int).skip(1) =~= whole.skip(i as int + 1));
            }
            i = i + 1;
        }
        proof {
            assert(whole.skip(i as int).len() == 0);
        }
        Result::Err(EngineFault::Function(String::from_str(name)))
    }
}

/// The view of the registered pattern list.
pub open spec fn world_patterns_view(s: Seq<(String, Pattern)>) -> Seq<(Seq<char>, Pattern)> {
    Seq::new(s.len(), |i: int| (s[i].0@, s[i].1))
}

} // verus!
