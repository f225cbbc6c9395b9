//! The configuration accessor function: resolves its bound `key` argument
//! against the evaluation's configuration and transforms the input into the
//! configured value, or reports an `Error`-severity outcome when the key is
//! unbound, not a string, or absent from the configuration.

use vstd::prelude::*;
use crate::protocol::{
    binding_lookup, config_lookup, Binding, Bindings, BindingV, CallOutcome, EngineFault,
    ExecutionContext, Function, FunctionEvaluationResult, FunctionInput, PatternMeta,
};
use crate::rationale::Severity;
use crate::value::{Value, ValueV};

verus! {

/// Whether the required `key` binding is present and resolved to a string
/// literal. Anything else is a malformed required binding: an engine fault,
/// not a policy outcome.
pub open spec fn of_key_ok(bindings: Seq<(Seq<char>, BindingV)>) -> bool {
    match binding_lookup(bindings, "key"@) {
        Option::Some(BindingV::Literal(ValueV::Str(_))) => true,
        _ => false,
    }
}

/// The outcome of the configuration accessor on a well-formed `key` binding:
/// a transform to the configured value where the key is configured, an
/// `Error`-severity outcome where it is absent.
pub open spec fn of_outcome(
    config: Seq<(Seq<char>, ValueV)>,
    bindings: Seq<(Seq<char>, BindingV)>,
) -> CallOutcome {
    match binding_lookup(bindings, "key"@) {
        Option::Some(BindingV::Literal(ValueV::Str(key))) => match config_lookup(config, key) {
            Option::Some(v) => CallOutcome { severity: Severity::Nominal, output: Option::Some(v) },
            Option::None => CallOutcome { severity: Severity::Error, output: Option::None },
        },
        _ => CallOutcome { severity: Severity::Error, output: Option::None },
    }
}

/// The configuration accessor function.
#[derive(Debug)]
pub struct Of;

impl Function for Of {
    open spec fn spec_order(&self) -> int {
        192
    }

    open spec fn spec_parameters(&self) -> Seq<Seq<char>> {
        seq!["key"@]
    }

    open spec fn spec_input(&self) -> FunctionInput {
        FunctionInput::Anything
    }

    open spec fn spec_call(
        &self,
        input: ValueV,
        config: Seq<(Seq<char>, ValueV)>,
        bindings: Seq<(Seq<char>, BindingV)>,
    ) -> CallOutcome {
        of_outcome(config, bindings)
    }

    fn order(&self) -> (r: u8) {
        192
    }

    fn metadata(&self) -> (r: PatternMeta)
        ensures
            r.severity == Severity::Error,
    {
        PatternMeta {
            documentation: String::from_str(
                "Resolves a configured value under the bound key.",
            ),
            severity: Severity::Error,
        }
    }

    fn parameters(&self) -> (r: Vec<String>) {
        let mut r: Vec<String> = Vec::new();
        r.push(String::from_str("key"));
        proof {
            assert(r.deep_view() =~= seq!["key"@]);
        }
        r
    }

    fn input(&self) -> (r: FunctionInput) {
        FunctionInput::Anything
    }

    /// A missing or malformed required `key` binding aborts the call as an
    /// engine fault; an absent configuration key is a policy outcome.
    fn call(
        &self,
        input: &Value,
        ctx: &ExecutionContext,
        bindings: &Bindings,
    ) -> (r: Result<FunctionEvaluationResult, EngineFault>)
        ensures
            r is Ok <==> of_key_ok(bindings@),
    {
        match bindings.get("key") {
            Option::Some(binding) => match binding {
                Binding::Literal(bound) => match bound {
                    Value::Str(key) => match ctx.config().get(key) {
                        Option::Some(value) => {
                            let out = value.clone();
                            Result::Ok(FunctionEvaluationResult {
                                severity: Severity::Nominal,
                                output: Option::Some(out),
                                rationale: Option::None,
                                supporting: Vec::new(),
                            })
                        },
                        Option::None => Result::Ok(FunctionEvaluationResult {
                            severity: Severity::Error,
                            output: Option::None,
                            rationale: Option::None,
                            supporting: Vec::new(),
                        }),
                    },
                    _ => Result::Err(EngineFault::Function(String::from_str(
                        "malformed required binding: key",
                    ))),
                },
                Binding::PatternRef(_) => Result::Err(EngineFault::Function(String::from_str(
                    "malformed required binding: key",
                ))),
            },
            Option::None => Result::Err(EngineFault::Function(String::from_str(
                "malformed required binding: key",
            ))),
        }
    }
}

} // verus!
