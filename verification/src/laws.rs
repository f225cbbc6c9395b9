//! The load-bearing properties of the satisfaction algebra, the evaluator
//! and the projection, each proved once and for all inputs.

use vstd::prelude::*;
use crate::eval::{chain_ok, Pattern, World};
use crate::rationale::{
    lemma_sat_all, lemma_sat_fields, sat, sat_all, EvaluationResult, Rationale,
};
use crate::render::{join, join_pre, json_report, opt_name_json, report_entries, FieldSelection,
    ReportV};
use crate::value::ValueV;

verus! {

/// `Anything` is satisfied by anything and `Nothing` by nothing,
/// unconditionally.
pub proof fn law_constants()
    ensures
        sat(Rationale::Anything),
        !sat(Rationale::Nothing),
{
}

/// An object with no fields and a list with no items are satisfied: the
/// conjunction over nothing holds vacuously.
pub proof fn law_vacuous_conjunction(
    fields: Vec<(String, EvaluationResult)>,
    items: Vec<EvaluationResult>,
)
    requires
        fields@.len() == 0,
        items@.len() == 0,
    ensures
        sat(Rationale::Object(fields)),
        sat(Rationale::List(items)),
{
    assert(crate::rationale::sat_fields(fields@, 0));
    assert(sat_all(items@, 0));
}

/// An object or a list is satisfied exactly when every child is: one
/// unsatisfied child forces the parent unsatisfied.
pub proof fn law_conjunction(fields: Vec<(String, EvaluationResult)>, items: Vec<EvaluationResult>)
    ensures
        sat(Rationale::Object(fields)) <==> (forall|k: int| 0 <= k < fields@.len() ==> #[trigger]
            sat(fields@[k].1.rationale)),
        sat(Rationale::List(items)) <==> (forall|k: int| 0 <= k < items@.len() ==> #[trigger] sat(
            items@[k].rationale,
        )),
{
    lemma_sat_fields(fields@, 0);
    lemma_sat_all(items@, 0);
}

/// A refinement whose primary is satisfied but which has no secondary is
/// unsatisfied: the absence of the refinement is itself a failure.
pub proof fn law_refinement_without_secondary(primary: Box<EvaluationResult>)
    requires
        sat(primary.rationale),
    ensures
        !sat(Rationale::Refinement(primary, Option::None)),
{
}

/// A pipeline that fails at stage `k` (counting from zero, with every
/// earlier stage satisfied) is unsatisfied and holds exactly `k + 1`
/// evaluated stages, never the full declared length.
pub proof fn law_chain_short_circuit(
    stages: Seq<Pattern>,
    cur: ValueV,
    config: Seq<(Seq<char>, ValueV)>,
    world: World,
    ers: Vec<EvaluationResult>,
    k: int,
)
    requires
        chain_ok(stages, 0, cur, config, world, ers@),
        0 <= k < ers@.len(),
        !sat(ers@[k].rationale),
        forall|j: int| 0 <= j < k ==> #[trigger] sat(ers@[j].rationale),
    ensures
        ers@.len() == k + 1,
        !sat(Rationale::Chain(ers)),
{
    law_chain_stop(stages, 0, cur, config, world, ers@, k);
    lemma_sat_all(ers@, 0);
}

/// Helper for the short-circuit law, generalized over the starting stage.
proof fn law_chain_stop(
    stages: Seq<Pattern>,
    i: int,
    cur: ValueV,
    config: Seq<(Seq<char>, ValueV)>,
    world: World,
    ers: Seq<EvaluationResult>,
    k: int,
)
    requires
        chain_ok(stages, i, cur, config, world, ers),
        0 <= k < ers.len(),
        !sat(ers[k].rationale),
        forall|j: int| 0 <= j < k ==> #[trigger] sat(ers[j].rationale),
    ensures
        ers.len() == k + 1,
    decreases ers.len(),
{
    if k == 0 {
    } else {
        law_chain_stop(
            stages,
            i + 1,
            crate::eval::next_value(cur, ers[0]),
            config,
            world,
            ers.skip(1),
            k - 1,
        );
    }
}

/// The projection kept to one existing field serializes exactly that field
/// and no others.
pub proof fn law_single_field_projection(rv: ReportV)
    ensures
        json_report(
            rv,
            FieldSelection {
                name: true,
                input: false,
                satisfied: false,
                reason: false,
                rationale: false,
            },
        ) == "{"@ + "\"name\":"@ + opt_name_json(rv.name) + "}"@,
{
    let sel = FieldSelection {
        name: true,
        input: false,
        satisfied: false,
        reason: false,
        rationale: false,
    };
    let es = report_entries(rv, sel);
    assert(es =~= seq!["\"name\":"@ + opt_name_json(rv.name)]);
    assert(join(es, ","@) == es[0] + join_pre(es, ","@, 1));
    assert(join_pre(es, ","@, 1) =~= Seq::<char>::empty());
    assert(join(es, ","@) =~= "\"name\":"@ + opt_name_json(rv.name));
}

} // verus!
