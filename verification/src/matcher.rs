//! The rule-matching engine: whether an event satisfies a rule set, under
//! an exact or regular-expression string comparison mode.

use vstd::prelude::*;
use vstd::string::*;
use crate::config::{MatchRules, MatchRulesModel, MatchType, rules_list_model, rules_opt_model};
use crate::event::{Event, spec_event_nested};
use crate::json::{
    JsonModel, JsonValue, arr_model, clone_fields, json_eq, lemma_arr_model, lemma_obj_model,
    obj_get, obj_model, spec_obj_get,
};
use crate::strings::{contains_char, spec_find_char, str_eq};

verus! {

/// Whether a pattern is accepted by the regular-expression compiler; a
/// property of the pattern alone.
pub uninterp spec fn regex_valid(pat: Seq<char>) -> bool;

/// Whether a valid pattern matches somewhere in a text; a function of the
/// pattern and the text alone. Unconstrained for invalid patterns.
pub uninterp spec fn regex_match(pat: Seq<char>, text: Seq<char>) -> bool;

/// Relies on regex::Regex::new and regex::Regex::is_match: whether the
/// pattern compiles, and whether it then matches anywhere in the text,
/// depend only on the pattern and the text. A pattern that does not
/// compile matches nothing.
#[verifier::external_body]
fn regex_test(pattern: &str, text: &str) -> (r: bool)
    ensures
        r == (regex_valid(pattern@) && regex_match(pattern@, text@)),
{
    regex::Regex::new(pattern).map(|re| re.is_match(text)).unwrap_or(false)
}

/// Whether an actual value satisfies an expected value: equality for
/// numbers and booleans; equality or regular-expression match for strings;
/// subset for arrays; recursive field-wise match for objects.
pub open spec fn spec_value_matches(actual: JsonModel, expected: JsonModel, mode: MatchType) -> bool
    decreases expected,
{
    match (actual, expected) {
        (JsonModel::Str(a), JsonModel::Str(e)) => match mode {
            MatchType::Exact => a == e,
            MatchType::Regex => regex_valid(e) && regex_match(e, a),
        },
        (JsonModel::Num(a), JsonModel::Num(e)) => a == e,
        (JsonModel::Bool(a), JsonModel::Bool(e)) => a == e,
        (JsonModel::Arr(a), JsonModel::Arr(e)) => forall|i: int|
            0 <= i < e.len() ==> spec_elem_in(a, #[trigger] e[i]),
        (JsonModel::Obj(a), JsonModel::Obj(e)) => forall|i: int|
            0 <= i < e.len() ==> spec_field_matches(a, #[trigger] e[i], mode),
        _ => false,
    }
}

/// `x` occurs among the elements of `a`.
pub open spec fn spec_elem_in(a: Seq<JsonModel>, x: JsonModel) -> bool {
    exists|j: int| 0 <= j < a.len() && a[j] == x
}

/// One expected object field holds in `a`: the field is present and its
/// value matches recursively.
pub open spec fn spec_field_matches(
    a: Seq<(Seq<char>, JsonModel)>,
    field: (Seq<char>, JsonModel),
    mode: MatchType,
) -> bool
    decreases field,
{
    match spec_obj_get(a, field.0) {
        Some(av) => spec_value_matches(av, field.1, mode),
        None => false,
    }
}

/// One (path, expected) pair of a simple rule holds of the event: a dotted
/// path is resolved by nested traversal, a plain key as a top-level field;
/// whatever value is reached is compared like any other, and a missing
/// field fails.
pub open spec fn spec_pair_matches(
    event: Seq<(Seq<char>, JsonModel)>,
    key: Seq<char>,
    expected: JsonModel,
    mode: MatchType,
) -> bool {
    if spec_find_char(key, '.') is Some {
        match spec_event_nested(event, key) {
            Some(av) => spec_value_matches(av, expected, mode),
            None => false,
        }
    } else {
        match spec_obj_get(event, key) {
            Some(av) => spec_value_matches(av, expected, mode),
            None => false,
        }
    }
}

/// A simple rule holds: every listed pair holds (implicit AND).
pub open spec fn spec_simple_matches(
    event: Seq<(Seq<char>, JsonModel)>,
    rule: Seq<(Seq<char>, JsonModel)>,
    mode: MatchType,
) -> bool {
    forall|i: int|
        0 <= i < rule.len() ==> spec_pair_matches(event, (#[trigger] rule[i]).0, rule[i].1, mode)
}

/// Every simple rule in the list holds of the event (vacuously true of an
/// empty list).
pub open spec fn spec_all_part(
    event: Seq<(Seq<char>, JsonModel)>,
    l: Seq<Seq<(Seq<char>, JsonModel)>>,
    mode: MatchType,
) -> bool {
    forall|i: int| 0 <= i < l.len() ==> spec_simple_matches(event, #[trigger] l[i], mode)
}

/// At least one simple rule in the list holds of the event (false of an
/// empty list).
pub open spec fn spec_any_part(
    event: Seq<(Seq<char>, JsonModel)>,
    l: Seq<Seq<(Seq<char>, JsonModel)>>,
    mode: MatchType,
) -> bool {
    exists|i: int| 0 <= i < l.len() && spec_simple_matches(event, #[trigger] l[i], mode)
}

/// A complex rule holds: with all three members absent it never holds;
/// otherwise `all` demands every member, `any` demands at least one (an
/// empty list fails), and `not` demands its member to fail.
pub open spec fn spec_complex_matches(
    event: Seq<(Seq<char>, JsonModel)>,
    all: Option<Seq<Seq<(Seq<char>, JsonModel)>>>,
    any: Option<Seq<Seq<(Seq<char>, JsonModel)>>>,
    not: Option<Seq<(Seq<char>, JsonModel)>>,
    mode: MatchType,
) -> bool {
    if all is None && any is None && not is None {
        false
    } else {
        &&& match all {
            Some(l) => spec_all_part(event, l, mode),
            None => true,
        }
        &&& match any {
            Some(l) => spec_any_part(event, l, mode),
            None => true,
        }
        &&& match not {
            Some(r) => !spec_simple_matches(event, r, mode),
            None => true,
        }
    }
}

/// The object payloads of an array's elements, non-objects skipped.
pub open spec fn spec_obj_list(items: Seq<JsonModel>) -> Seq<Seq<(Seq<char>, JsonModel)>>
    decreases items.len(),
{
    if items.len() == 0 {
        Seq::empty()
    } else {
        (if items[0] is Obj {
            seq![items[0]->Obj_0]
        } else {
            Seq::empty()
        }) + spec_obj_list(items.drop_first())
    }
}

/// Read a reserved member's payload as a list of simple rules: the value
/// must be an array, whose object elements are kept.
pub open spec fn spec_rules_list_of(v: JsonModel) -> Option<Seq<Seq<(Seq<char>, JsonModel)>>> {
    match v {
        JsonModel::Arr(items) => Some(spec_obj_list(items)),
        _ => None,
    }
}

/// A simple mapping is reinterpreted as complex when it carries any of the
/// reserved keys.
pub open spec fn spec_reserved(m: Seq<(Seq<char>, JsonModel)>) -> bool {
    ||| spec_obj_get(m, "any"@) is Some
    ||| spec_obj_get(m, "all"@) is Some
    ||| spec_obj_get(m, "not"@) is Some
}

/// The payload a reserved list member contributes: absent or non-array
/// counts as absent.
pub open spec fn spec_reserved_list(m: Seq<(Seq<char>, JsonModel)>, key: Seq<char>) -> Option<
    Seq<Seq<(Seq<char>, JsonModel)>>,
> {
    match spec_obj_get(m, key) {
        Some(v) => spec_rules_list_of(v),
        None => None,
    }
}

/// The payload of the reserved `not` member: its object fields, if it is
/// an object.
pub open spec fn spec_reserved_not(m: Seq<(Seq<char>, JsonModel)>) -> Option<
    Seq<(Seq<char>, JsonModel)>,
> {
    match spec_obj_get(m, "not"@) {
        Some(v) => if v is Obj {
            Some(v->Obj_0)
        } else {
            None
        },
        None => None,
    }
}

/// Whether an event satisfies an optional rule set: no rules match every
/// event; a simple mapping whose keys include a reserved key is evaluated
/// as a complex rule.
pub open spec fn spec_rule_matches(
    event: Seq<(Seq<char>, JsonModel)>,
    rules: Option<MatchRulesModel>,
    mode: MatchType,
) -> bool {
    match rules {
        None => true,
        Some(MatchRulesModel::Simple(m)) => if spec_reserved(m) {
            spec_complex_matches(
                event,
                spec_reserved_list(m, "all"@),
                spec_reserved_list(m, "any"@),
                spec_reserved_not(m),
                mode,
            )
        } else {
            spec_simple_matches(event, m, mode)
        },
        Some(MatchRulesModel::Complex { all, any, not }) => spec_complex_matches(
            event,
            all,
            any,
            not,
            mode,
        ),
    }
}

/// Law: an absent rule set matches every event.
pub proof fn lemma_no_rule_matches_all(event: Seq<(Seq<char>, JsonModel)>, mode: MatchType)
    ensures
        spec_rule_matches(event, None, mode),
{
}

/// Law: a complex rule with `all`, `any` and `not` all absent never
/// matches any event.
pub proof fn lemma_empty_complex_never_matches(
    event: Seq<(Seq<char>, JsonModel)>,
    mode: MatchType,
)
    ensures
        !spec_complex_matches(event, None, None, None, mode),
{
}

/// Law: a complex rule carrying only `all` holds exactly when every listed
/// simple rule holds — the conjunction of its members; one failing member
/// fails the whole rule.
pub proof fn lemma_all_semantics(
    event: Seq<(Seq<char>, JsonModel)>,
    l: Seq<Seq<(Seq<char>, JsonModel)>>,
    mode: MatchType,
)
    ensures
        spec_complex_matches(event, Some(l), None, None, mode) == (forall|i: int|
            0 <= i < l.len() ==> spec_simple_matches(event, #[trigger] l[i], mode)),
{
}

/// Law: a complex rule carrying only `any` holds exactly when at least one
/// listed simple rule holds — the disjunction of its members; an empty
/// list never holds.
pub proof fn lemma_any_semantics(
    event: Seq<(Seq<char>, JsonModel)>,
    l: Seq<Seq<(Seq<char>, JsonModel)>>,
    mode: MatchType,
)
    ensures
        spec_complex_matches(event, None, Some(l), None, mode) == (exists|i: int|
            0 <= i < l.len() && spec_simple_matches(event, #[trigger] l[i], mode)),
        l.len() == 0 ==> !spec_complex_matches(event, None, Some(l), None, mode),
{
}

/// Law: a complex rule carrying only `not` negates its simple rule; and an
/// absent `not` imposes no constraint beside the `all` and `any` parts.
pub proof fn lemma_not_semantics(
    event: Seq<(Seq<char>, JsonModel)>,
    r: Seq<(Seq<char>, JsonModel)>,
    all: Option<Seq<Seq<(Seq<char>, JsonModel)>>>,
    any: Option<Seq<Seq<(Seq<char>, JsonModel)>>>,
    mode: MatchType,
)
    ensures
        spec_complex_matches(event, None, None, Some(r), mode) == !spec_simple_matches(
            event,
            r,
            mode,
        ),
        !(all is None && any is None) ==> spec_complex_matches(event, all, any, None, mode) == ((
        match all {
            Some(l) => spec_all_part(event, l, mode),
            None => true,
        }) && (match any {
            Some(l) => spec_any_part(event, l, mode),
            None => true,
        })),
{
}

/// Law: in regular-expression mode, an expected string that is not a valid
/// pattern matches no actual string.
pub proof fn lemma_invalid_regex_never_matches(a: Seq<char>, pat: Seq<char>)
    requires
        !regex_valid(pat),
    ensures
        !spec_value_matches(JsonModel::Str(a), JsonModel::Str(pat), MatchType::Regex),
{
}

/// Whether an actual value satisfies an expected value.
pub fn values_match(actual: &JsonValue, expected: &JsonValue, match_type: &MatchType) -> (r: bool)
    ensures
        r == spec_value_matches(actual.deep_view(), expected.deep_view(), *match_type),
    decreases expected,
{
    match (actual, expected) {
        (JsonValue::Str(a), JsonValue::Str(e)) => match match_type {
            MatchType::Exact => str_eq(a.as_str(), e.as_str()),
            MatchType::Regex => regex_test(e.as_str(), a.as_str()),
        },
        (JsonValue::Num(a), JsonValue::Num(e)) => str_eq(a.as_str(), e.as_str()),
        (JsonValue::Bool(a), JsonValue::Bool(e)) => a == e,
        (JsonValue::Arr(a), JsonValue::Arr(e)) => {
            let ghost am = arr_model(a@);
            let ghost em = arr_model(e@);
            proof {
                lemma_arr_model(a@);
                lemma_arr_model(e@);
            }
            let mut i: usize = 0;
            while i < e.len()
                invariant
                    actual is Arr,
                    a == actual->Arr_0,
                    expected is Arr,
                    e == expected->Arr_0,
                    i <= e@.len(),
                    am == arr_model(a@),
                    em == arr_model(e@),
                    am.len() == a@.len(),
                    em.len() == e@.len(),
                    forall|k: int| 0 <= k < a@.len() ==> am[k] == a@[k].deep_view(),
                    forall|k: int| 0 <= k < e@.len() ==> em[k] == e@[k].deep_view(),
                    forall|ii: int| 0 <= ii < i ==> spec_elem_in(am, #[trigger] em[ii]),
                decreases e@.len() - i,
            {
                let mut found = false;
                let mut j: usize = 0;
                while j < a.len()
                    invariant
                        i < e@.len(),
                        j <= a@.len(),
                        am.len() == a@.len(),
                        em.len() == e@.len(),
                        forall|k: int| 0 <= k < a@.len() ==> am[k] == a@[k].deep_view(),
                        forall|k: int| 0 <= k < e@.len() ==> em[k] == e@[k].deep_view(),
                        found ==> spec_elem_in(am, em[i as int]),
                        !found ==> forall|jj: int| 0 <= jj < j ==> am[jj] != em[i as int],
                    decreases a@.len() - j,
                {
                    if !found {
                        if json_eq(&a[j], &e[i]) {
                            proof {
                                assert(am[j as int] == em[i as int]);
                                assert(spec_elem_in(am, em[i as int]));
                            }
                            found = true;
                        }
                    }
                    j = j + 1;
                }
                if !found {
                    proof {
                        assert(!spec_elem_in(am, em[i as int]));
                        assert(actual.deep_view() == JsonModel::Arr(am));
                        assert(expected.deep_view() == JsonModel::Arr(em));
                        assert(!spec_value_matches(
                            actual.deep_view(),
                            expected.deep_view(),
                            *match_type,
                        )) by {
                            if spec_value_matches(
                                JsonModel::Arr(am),
                                JsonModel::Arr(em),
                                *match_type,
                            ) {
                                assert(JsonModel::Arr(am)->Arr_0 == am);
                                assert(JsonModel::Arr(em)->Arr_0 == em);
                                assert(spec_elem_in(am, em[i as int]));
                            }
                        }
                    }
                    return false;
                }
                i = i + 1;
            }
            proof {
                assert(i == em.len());
                assert(forall|ii: int| 0 <= ii < em.len() ==> spec_elem_in(am, #[trigger] em[ii]));
                assert(actual.deep_view() == JsonModel::Arr(am));
                assert(expected.deep_view() == JsonModel::Arr(em));
                assert(spec_value_matches(actual.deep_view(), expected.deep_view(), *match_type));
            }
            true
        },
        (JsonValue::Obj(a), JsonValue::Obj(e)) => {
            let ghost am = obj_model(a@);
            let ghost em = obj_model(e@);
            proof {
                lemma_obj_model(a@);
                lemma_obj_model(e@);
            }
            let mut i: usize = 0;
            while i < e.len()
                invariant
                    actual is Obj,
                    a == actual->Obj_0,
                    expected is Obj,
                    e == expected->Obj_0,
                    i <= e@.len(),
                    am == obj_model(a@),
                    em == obj_model(e@),
                    am.len() == a@.len(),
                    em.len() == e@.len(),
                    forall|k: int| 0 <= k < e@.len() ==> em[k] == (
                        e@[k].0@,
                        e@[k].1.deep_view(),
                    ),
                    forall|ii: int|
                        0 <= ii < i ==> spec_field_matches(am, #[trigger] em[ii], *match_type),
                decreases e@.len() - i,
            {
                match obj_get(a, e[i].0.as_str()) {
                    Some(av) => {
                        if !values_match(av, &e[i].1, match_type) {
                            proof {
                                assert(!spec_field_matches(am, em[i as int], *match_type));
                                assert(actual.deep_view() == JsonModel::Obj(am));
                                assert(expected.deep_view() == JsonModel::Obj(em));
                                assert(!spec_value_matches(
                                    actual.deep_view(),
                                    expected.deep_view(),
                                    *match_type,
                                )) by {
                                    if spec_value_matches(
                                        JsonModel::Obj(am),
                                        JsonModel::Obj(em),
                                        *match_type,
                                    ) {
                                        assert(JsonModel::Obj(am)->Obj_0 == am);
                                        assert(JsonModel::Obj(em)->Obj_0 == em);
                                        assert(spec_field_matches(am, em[i as int], *match_type));
                                    }
                                }
                            }
                            return false;
                        }
                    },
                    None => {
                        proof {
                            assert(!spec_field_matches(am, em[i as int], *match_type));
                            assert(actual.deep_view() == JsonModel::Obj(am));
                            assert(expected.deep_view() == JsonModel::Obj(em));
                            assert(!spec_value_matches(
                                actual.deep_view(),
                                expected.deep_view(),
                                *match_type,
                            )) by {
                                if spec_value_matches(
                                    JsonModel::Obj(am),
                                    JsonModel::Obj(em),
                                    *match_type,
                                ) {
                                    assert(JsonModel::Obj(am)->Obj_0 == am);
                                    assert(JsonModel::Obj(em)->Obj_0 == em);
                                    assert(spec_field_matches(am, em[i as int], *match_type));
                                }
                            }
                        }
                        return false;
                    },
                }
                proof {
                    assert(spec_field_matches(am, em[i as int], *match_type));
                }
                i = i + 1;
            }
            proof {
                assert(actual.deep_view() == JsonModel::Obj(am));
                assert(expected.deep_view() == JsonModel::Obj(em));
            }
            true
        },
        _ => false,
    }
}

/// Whether every pair of a simple rule holds of the event.
pub fn matches_simple(
    event: &Event,
    rules: &Vec<(String, JsonValue)>,
    match_type: &MatchType,
) -> (r: bool)
    ensures
        r == spec_simple_matches(event.deep_view(), obj_model(rules@), *match_type),
{
    let ghost rm = obj_model(rules@);
    proof {
        lemma_obj_model(rules@);
    }
    let mut i: usize = 0;
    while i < rules.len()
        invariant
            i <= rules@.len(),
            rm == obj_model(rules@),
            rm.len() == rules@.len(),
            forall|k: int| 0 <= k < rules@.len() ==> rm[k] == (
                rules@[k].0@,
                rules@[k].1.deep_view(),
            ),
            forall|ii: int|
                0 <= ii < i ==> spec_pair_matches(
                    event.deep_view(),
                    (#[trigger] rm[ii]).0,
                    rm[ii].1,
                    *match_type,
                ),
        decreases rules@.len() - i,
    {
        let key = rules[i].0.as_str();
        let pair_ok: bool;
        if contains_char(key, '.') {
            match event.get_nested(key) {
                Some(av) => {
                    pair_ok = values_match(av, &rules[i].1, match_type);
                },
                None => {
                    pair_ok = false;
                },
            }
        } else {
            match event.get(key) {
                Some(av) => {
                    pair_ok = values_match(av, &rules[i].1, match_type);
                },
                None => {
                    pair_ok = false;
                },
            }
        }
        if !pair_ok {
            proof {
                assert(!spec_pair_matches(
                    event.deep_view(),
                    rm[i as int].0,
                    rm[i as int].1,
                    *match_type,
                ));
            }
            return false;
        }
        proof {
            assert(spec_pair_matches(event.deep_view(), rm[i as int].0, rm[i as int].1, *match_type));
        }
        i = i + 1;
    }
    true
}

/// Whether a complex rule holds of the event.
pub fn matches_complex(
    event: &Event,
    all: Option<&Vec<Vec<(String, JsonValue)>>>,
    any: Option<&Vec<Vec<(String, JsonValue)>>>,
    not: Option<&Vec<(String, JsonValue)>>,
    match_type: &MatchType,
) -> (r: bool)
    ensures
        r == spec_complex_matches(
            event.deep_view(),
            match all {
                Some(l) => Some(rules_list_model(l@)),
                None => None,
            },
            match any {
                Some(l) => Some(rules_list_model(l@)),
                None => None,
            },
            match not {
                Some(m) => Some(obj_model(m@)),
                None => None,
            },
            *match_type,
        ),
{
    if all.is_none() && any.is_none() && not.is_none() {
        return false;
    }
    if let Some(all_rules) = all {
        let ghost lm = rules_list_model(all_rules@);
        let mut i: usize = 0;
        while i < all_rules.len()
            invariant
                all is Some,
                all_rules == all->0,
                i <= all_rules@.len(),
                lm == rules_list_model(all_rules@),
                lm.len() == all_rules@.len(),
                forall|k: int| 0 <= k < all_rules@.len() ==> lm[k] == obj_model(
                    (#[trigger] all_rules@[k])@,
                ),
                forall|ii: int|
                    0 <= ii < i ==> spec_simple_matches(
                        event.deep_view(),
                        #[trigger] lm[ii],
                        *match_type,
                    ),
            decreases all_rules@.len() - i,
        {
            if !matches_simple(event, &all_rules[i], match_type) {
                proof {
                    assert(!spec_simple_matches(event.deep_view(), lm[i as int], *match_type));
                    assert(!spec_all_part(event.deep_view(), lm, *match_type));
                }
                return false;
            }
            proof {
                assert(spec_simple_matches(event.deep_view(), lm[i as int], *match_type));
            }
            i = i + 1;
        }
        proof {
            assert(spec_all_part(event.deep_view(), lm, *match_type));
        }
    }
    if let Some(any_rules) = any {
        let ghost lm = rules_list_model(any_rules@);
        let mut matched = false;
        let mut i: usize = 0;
        while i < any_rules.len()
            invariant
                any is Some,
                any_rules == any->0,
                i <= any_rules@.len(),
                lm == rules_list_model(any_rules@),
                lm.len() == any_rules@.len(),
                forall|k: int| 0 <= k < any_rules@.len() ==> lm[k] == obj_model(
                    (#[trigger] any_rules@[k])@,
                ),
                matched ==> spec_any_part(event.deep_view(), lm, *match_type),
                !matched ==> forall|ii: int|
                    0 <= ii < i ==> !spec_simple_matches(
                        event.deep_view(),
                        #[trigger] lm[ii],
                        *match_type,
                    ),
            decreases any_rules@.len() - i,
        {
            if !matched {
                if matches_simple(event, &any_rules[i], match_type) {
                    proof {
                        assert(spec_simple_matches(event.deep_view(), lm[i as int], *match_type));
                        assert(spec_any_part(event.deep_view(), lm, *match_type));
                    }
                    matched = true;
                } else {
                    proof {
                        assert(!spec_simple_matches(event.deep_view(), lm[i as int], *match_type));
                    }
                }
            }
            i = i + 1;
        }
        if !matched {
            proof {
                assert(!spec_any_part(event.deep_view(), lm, *match_type));
            }
            return false;
        }
    }
    if let Some(not_rules) = not {
        if matches_simple(event, not_rules, match_type) {
            return false;
        }
    }
    true
}

/// Read a reserved member's payload as an owned list of simple rules.
fn rules_list_of(v: &JsonValue) -> (r: Option<Vec<Vec<(String, JsonValue)>>>)
    ensures
        match r {
            Some(l) => spec_rules_list_of(v.deep_view()) == Some(rules_list_model(l@)),
            None => spec_rules_list_of(v.deep_view()) is None,
        },
{
    match v {
        JsonValue::Arr(items) => {
            let ghost im = arr_model(items@);
            proof {
                lemma_arr_model(items@);
                assert(im.skip(0) =~= im);
            }
            let mut out: Vec<Vec<(String, JsonValue)>> = Vec::new();
            let mut i: usize = 0;
            while i < items.len()
                invariant
                    v is Arr,
                    items == v->Arr_0,
                    i <= items@.len(),
                    im == arr_model(items@),
                    im.len() == items@.len(),
                    forall|k: int| 0 <= k < items@.len() ==> im[k] == items@[k].deep_view(),
                    rules_list_model(out@) + spec_obj_list(im.skip(i as int)) == spec_obj_list(im),
                decreases items@.len() - i,
            {
                let ghost prev = rules_list_model(out@);
                proof {
                    assert(im.skip(i as int)[0] == im[i as int]);
                    assert(im.skip(i as int).drop_first() =~= im.skip(i + 1));
                }
                match &items[i] {
                    JsonValue::Obj(fields) => {
                        let c = clone_fields(fields);
                        out.push(c);
                        proof {
                            assert(rules_list_model(out@) =~= prev + seq![obj_model(fields@)]);
                            assert(prev + spec_obj_list(im.skip(i as int)) =~= (prev + seq![
                                im[i as int]->Obj_0,
                            ]) + spec_obj_list(im.skip(i + 1)));
                        }
                    },
                    _ => {
                        proof {
                            assert(prev + spec_obj_list(im.skip(i as int)) =~= prev
                                + spec_obj_list(im.skip(i + 1)));
                        }
                    },
                }
                i = i + 1;
            }
            proof {
                assert(im.skip(items@.len() as int).len() == 0);
                assert(rules_list_model(out@) + spec_obj_list(im.skip(items@.len() as int))
                    =~= rules_list_model(out@));
            }
            Some(out)
        },
        _ => None,
    }
}

/// Whether an event satisfies an optional rule set under the given string
/// comparison mode. Absent rules match every event; a simple mapping whose
/// top-level keys include `all`, `any` or `not` is evaluated as a complex
/// rule.
pub fn matches(event: &Event, rules: &Option<MatchRules>, match_type: &MatchType) -> (r: bool)
    ensures
        r == spec_rule_matches(event.deep_view(), rules_opt_model(*rules), *match_type),
{
    match rules {
        None => true,
        Some(MatchRules::Simple(simple_rules)) => {
            let has_any = obj_get(simple_rules, "any").is_some();
            let has_all = obj_get(simple_rules, "all").is_some();
            let has_not = obj_get(simple_rules, "not").is_some();
            if has_any || has_all || has_not {
                let all = match obj_get(simple_rules, "all") {
                    Some(v) => rules_list_of(v),
                    None => None,
                };
                let any = match obj_get(simple_rules, "any") {
                    Some(v) => rules_list_of(v),
                    None => None,
                };
                let not = match obj_get(simple_rules, "not") {
                    Some(v) => match v {
                        JsonValue::Obj(fields) => Some(clone_fields(fields)),
                        _ => None,
                    },
                    None => None,
                };
                matches_complex(event, all.as_ref(), any.as_ref(), not.as_ref(), match_type)
            } else {
                matches_simple(event, simple_rules, match_type)
            }
        },
        Some(MatchRules::Complex { all, any, not }) => {
            matches_complex(event, all.as_ref(), any.as_ref(), not.as_ref(), match_type)
        },
    }
}

} // verus!
