//! The dispatcher: filter the configured handlers through the matching
//! engine, plan one invocation per matching handler, and fold the
//! invocation results back into an ordered outcome list.
//!
//! Running the planned invocations is the caller's business (they are
//! side-effecting and concurrent); the plan says what to run, and
//! `collect_outcomes` says what each result means. A handler whose type is
//! not registered contributes one error outcome naming it and never
//! disturbs its siblings.

use vstd::prelude::*;
use vstd::string::*;
use crate::config::{HandlerConfig, HandlerConfigModel, handlers_model};
use crate::event::Event;
use crate::hooks::{HandlerOutcome, OutcomeModel, outcomes_model};
use crate::json::{JsonModel, JsonValue, clone_fields, obj_model};
use crate::matcher::spec_rule_matches;
use crate::strings::{concat_str, str_eq};

verus! {

/// What one matching handler contributes to the dispatch.
#[derive(Debug)]
pub enum DispatchJob {
    /// The handler's backend is known: invoke it with this configuration.
    Invoke { handler_type: String, config: Vec<(String, JsonValue)> },
    /// The handler names a backend that is not registered.
    UnknownType { handler_type: String },
}

/// One planned entry, tagged with the handler's name.
#[derive(Debug)]
pub struct DispatchItem {
    pub name: String,
    pub job: DispatchJob,
}

/// Model of `DispatchJob`.
pub enum DispatchJobModel {
    Invoke { handler_type: Seq<char>, config: Seq<(Seq<char>, JsonModel)> },
    UnknownType { handler_type: Seq<char> },
}

/// Model of `DispatchItem`.
pub struct DispatchItemModel {
    pub name: Seq<char>,
    pub job: DispatchJobModel,
}

impl DispatchItem {
    pub open spec fn deep_view(&self) -> DispatchItemModel {
        DispatchItemModel {
            name: self.name@,
            job: match &self.job {
                DispatchJob::Invoke { handler_type, config } => DispatchJobModel::Invoke {
                    handler_type: handler_type@,
                    config: obj_model(config@),
                },
                DispatchJob::UnknownType { handler_type } => DispatchJobModel::UnknownType {
                    handler_type: handler_type@,
                },
            },
        }
    }
}

/// The models of a plan.
pub open spec fn items_model(items: Seq<DispatchItem>) -> Seq<DispatchItemModel> {
    items.map_values(|it: DispatchItem| it.deep_view())
}

/// The models of a registry's type names.
pub open spec fn known_model(known: Seq<String>) -> Seq<Seq<char>> {
    known.map_values(|s: String| s@)
}

/// A type name is registered.
pub open spec fn spec_known_type(known: Seq<Seq<char>>, t: Seq<char>) -> bool {
    exists|i: int| 0 <= i < known.len() && known[i] == t
}

/// The item one matching handler contributes.
pub open spec fn spec_item_for(h: HandlerConfigModel, known: Seq<Seq<char>>) -> DispatchItemModel {
    DispatchItemModel {
        name: h.name,
        job: if spec_known_type(known, h.handler_type) {
            DispatchJobModel::Invoke { handler_type: h.handler_type, config: h.config }
        } else {
            DispatchJobModel::UnknownType { handler_type: h.handler_type }
        },
    }
}

/// The dispatch plan: each handler whose rules match the event, in
/// configuration order, contributes exactly one item; the others none.
pub open spec fn spec_plan(
    handlers: Seq<HandlerConfigModel>,
    event: Seq<(Seq<char>, JsonModel)>,
    known: Seq<Seq<char>>,
) -> Seq<DispatchItemModel>
    decreases handlers.len(),
{
    if handlers.len() == 0 {
        Seq::empty()
    } else {
        let rest = spec_plan(handlers.drop_first(), event, known);
        if spec_rule_matches(event, handlers[0].match_rules, handlers[0].match_type) {
            seq![spec_item_for(handlers[0], known)] + rest
        } else {
            rest
        }
    }
}

/// Whether a backend type name is registered.
pub fn contains_type(known_types: &Vec<String>, t: &str) -> (r: bool)
    ensures
        r == spec_known_type(known_model(known_types@), t@),
{
    let ghost km = known_model(known_types@);
    let mut i: usize = 0;
    while i < known_types.len()
        invariant
            i <= known_types@.len(),
            km == known_model(known_types@),
            km.len() == known_types@.len(),
            forall|k: int| 0 <= k < i ==> km[k] != t@,
        decreases known_types@.len() - i,
    {
        if str_eq(known_types[i].as_str(), t) {
            proof {
                assert(km[i as int] == t@);
            }
            return true;
        }
        i = i + 1;
    }
    false
}

/// Plan the dispatch of an event: one item per handler whose rules match,
/// in configuration order. The registry is represented by the list of its
/// type names.
pub fn plan_dispatch(
    handlers: &Vec<HandlerConfig>,
    event: &Event,
    known_types: &Vec<String>,
) -> (plan: Vec<DispatchItem>)
    ensures
        items_model(plan@) == spec_plan(
            handlers_model(handlers@),
            event.deep_view(),
            known_model(known_types@),
        ),
{
    let ghost hm = handlers_model(handlers@);
    let ghost km = known_model(known_types@);
    let ghost ev = event.deep_view();
    proof {
        assert(hm.skip(0) =~= hm);
    }
    let mut plan: Vec<DispatchItem> = Vec::new();
    let mut i: usize = 0;
    proof {
        assert(items_model(plan@) + spec_plan(hm, ev, km) =~= spec_plan(hm, ev, km));
    }
    while i < handlers.len()
        invariant
            i <= handlers@.len(),
            hm == handlers_model(handlers@),
            hm.len() == handlers@.len(),
            km == known_model(known_types@),
            ev == event.deep_view(),
            items_model(plan@) + spec_plan(hm.skip(i as int), ev, km) == spec_plan(hm, ev, km),
        decreases handlers@.len() - i,
    {
        proof {
            assert(hm.skip(i as int)[0] == hm[i as int]);
            assert(hm.skip(i as int).drop_first() =~= hm.skip(i + 1));
        }
        let ghost prev = items_model(plan@);
        let h = &handlers[i];
        if crate::matcher::matches(event, &h.match_rules, &h.match_type) {
            let job = if contains_type(known_types, h.handler_type.as_str()) {
                DispatchJob::Invoke {
                    handler_type: h.handler_type.clone(),
                    config: clone_fields(&h.config),
                }
            } else {
                DispatchJob::UnknownType { handler_type: h.handler_type.clone() }
            };
            let ghost plan0 = plan@;
            plan.push(DispatchItem { name: h.name.clone(), job });
            proof {
                assert(plan@.drop_last() =~= plan0);
                assert(plan@.last().deep_view() == spec_item_for(hm[i as int], km));
                assert(items_model(plan@) =~= prev.push(spec_item_for(hm[i as int], km)));
                assert(prev + (seq![spec_item_for(hm[i as int], km)] + spec_plan(
                    hm.skip(i + 1),
                    ev,
                    km,
                )) =~= items_model(plan@) + spec_plan(hm.skip(i + 1), ev, km));
            }
        }
        i = i + 1;
    }
    proof {
        assert(hm.skip(handlers@.len() as int).len() == 0);
        assert(items_model(plan@) + Seq::<DispatchItemModel>::empty() =~= items_model(plan@));
    }
    plan
}

/// The models of an invocation result list.
pub open spec fn results_model(results: Seq<Result<(), String>>) -> Seq<Result<(), Seq<char>>> {
    results.map_values(
        |r: Result<(), String>|
            match r {
                Ok(_) => Ok(()),
                Err(m) => Err(m@),
            },
    )
}

/// The outcome one planned item yields for its invocation result: an
/// unregistered type is an error naming the handler whatever the result
/// slot holds; otherwise success or an error carrying the handler's name
/// and the failure message.
pub open spec fn spec_outcome_of(
    item: DispatchItemModel,
    result: Result<(), Seq<char>>,
) -> OutcomeModel {
    match item.job {
        DispatchJobModel::UnknownType { handler_type } => OutcomeModel::Error(
            item.name + ": Unknown handler type: "@ + handler_type,
        ),
        DispatchJobModel::Invoke { .. } => match result {
            Ok(_) => OutcomeModel::Success,
            Err(m) => OutcomeModel::Error(item.name + ": "@ + m),
        },
    }
}

/// The outcomes of a whole plan, item by item in plan order.
pub open spec fn spec_collect(
    plan: Seq<DispatchItemModel>,
    results: Seq<Result<(), Seq<char>>>,
) -> Seq<OutcomeModel>
    decreases plan.len(),
{
    if plan.len() == 0 {
        Seq::empty()
    } else {
        seq![spec_outcome_of(plan[0], results[0])] + spec_collect(
            plan.drop_first(),
            results.drop_first(),
        )
    }
}

/// Law: outcome collection is pointwise — the plan yields exactly one
/// outcome per item, in plan order, and each outcome depends only on its
/// own item and result slot; one handler's failure never touches another's
/// outcome.
pub proof fn lemma_collect_pointwise(
    plan: Seq<DispatchItemModel>,
    results: Seq<Result<(), Seq<char>>>,
)
    requires
        plan.len() == results.len(),
    ensures
        spec_collect(plan, results).len() == plan.len(),
        forall|i: int| 0 <= i < plan.len() ==> spec_collect(plan, results)[i] == spec_outcome_of(
            plan[i],
            results[i],
        ),
    decreases plan.len(),
{
    if plan.len() > 0 {
        lemma_collect_pointwise(plan.drop_first(), results.drop_first());
        assert forall|i: int| 0 <= i < plan.len() implies spec_collect(plan, results)[i]
            == spec_outcome_of(plan[i], results[i]) by {
            if i > 0 {
                assert(spec_collect(plan.drop_first(), results.drop_first())[i - 1]
                    == spec_outcome_of(plan.drop_first()[i - 1], results.drop_first()[i - 1]));
            }
        }
    }
}

/// Fold the invocation results back into outcomes, one per planned item,
/// in plan order.
pub fn collect_outcomes(plan: &Vec<DispatchItem>, results: &Vec<Result<(), String>>) -> (outcomes:
    Vec<HandlerOutcome>)
    requires
        plan@.len() == results@.len(),
    ensures
        outcomes_model(outcomes@) == spec_collect(items_model(plan@), results_model(results@)),
{
    let ghost pm = items_model(plan@);
    let ghost rm = results_model(results@);
    proof {
        assert(pm.skip(0) =~= pm);
        assert(rm.skip(0) =~= rm);
        assert(Seq::<OutcomeModel>::empty() + spec_collect(pm, rm) =~= spec_collect(pm, rm));
    }
    let mut outcomes: Vec<HandlerOutcome> = Vec::new();
    let mut i: usize = 0;
    while i < plan.len()
        invariant
            i <= plan@.len(),
            plan@.len() == results@.len(),
            pm == items_model(plan@),
            rm == results_model(results@),
            pm.len() == plan@.len(),
            rm.len() == results@.len(),
            outcomes_model(outcomes@) + spec_collect(pm.skip(i as int), rm.skip(i as int))
                == spec_collect(pm, rm),
        decreases plan@.len() - i,
    {
        proof {
            assert(pm.skip(i as int)[0] == pm[i as int]);
            assert(rm.skip(i as int)[0] == rm[i as int]);
            assert(pm.skip(i as int).drop_first() =~= pm.skip(i + 1));
            assert(rm.skip(i as int).drop_first() =~= rm.skip(i + 1));
        }
        let ghost prev = outcomes_model(outcomes@);
        let item = &plan[i];
        let outcome: HandlerOutcome = match &item.job {
            DispatchJob::UnknownType { handler_type } => {
                let msg = concat_str(
                    concat_str(item.name.as_str(), ": Unknown handler type: ").as_str(),
                    handler_type.as_str(),
                );
                HandlerOutcome::Error(msg)
            },
            DispatchJob::Invoke { .. } => match &results[i] {
                Ok(_) => HandlerOutcome::Success,
                Err(m) => {
                    let msg = concat_str(
                        concat_str(item.name.as_str(), ": ").as_str(),
                        m.as_str(),
                    );
                    HandlerOutcome::Error(msg)
                },
            },
        };
        let ghost out0 = outcomes@;
        outcomes.push(outcome);
        proof {
            assert(outcomes@.drop_last() =~= out0);
            assert(outcomes@.last().deep_view() == spec_outcome_of(pm[i as int], rm[i as int]));
            assert(outcomes_model(outcomes@) =~= prev.push(
                spec_outcome_of(pm[i as int], rm[i as int]),
            ));
            assert(prev + (seq![spec_outcome_of(pm[i as int], rm[i as int])] + spec_collect(
                pm.skip(i + 1),
                rm.skip(i + 1),
            )) =~= outcomes_model(outcomes@) + spec_collect(pm.skip(i + 1), rm.skip(i + 1)));
        }
        i = i + 1;
    }
    proof {
        assert(pm.skip(plan@.len() as int).len() == 0);
        assert(outcomes_model(outcomes@) + Seq::<OutcomeModel>::empty() =~= outcomes_model(
            outcomes@,
        ));
    }
    outcomes
}

} // verus!
