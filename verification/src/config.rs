//! Configuration data: handler entries, match rules, and project overrides,
//! with glob-scoped override resolution.

use vstd::prelude::*;
use crate::json::{JsonModel, JsonValue, clone_fields, obj_model};

verus! {

/// How strings are compared during matching.
#[derive(Debug, Clone, Copy, PartialEq, Eq, Structural)]
pub enum MatchType {
    /// Exact character-wise equality (the default).
    Exact,
    /// The expected string is compiled as a regular expression and tested
    /// against the actual string.
    Regex,
}

impl Default for MatchType {
    fn default() -> (r: Self)
        ensures
            r == MatchType::Exact,
    {
        MatchType::Exact
    }
}

/// Rules for matching events: either a plain field-to-value mapping, or a
/// boolean composition of such mappings.
#[derive(Debug, PartialEq)]
pub enum MatchRules {
    /// Every listed field must match (implicit AND).
    Simple(Vec<(String, JsonValue)>),
    /// Composition over simple mappings: all of `all`, at least one of
    /// `any`, and none of `not`.
    Complex {
        all: Option<Vec<Vec<(String, JsonValue)>>>,
        any: Option<Vec<Vec<(String, JsonValue)>>>,
        not: Option<Vec<(String, JsonValue)>>,
    },
}

/// Model of `MatchRules`.
pub enum MatchRulesModel {
    Simple(Seq<(Seq<char>, JsonModel)>),
    Complex {
        all: Option<Seq<Seq<(Seq<char>, JsonModel)>>>,
        any: Option<Seq<Seq<(Seq<char>, JsonModel)>>>,
        not: Option<Seq<(Seq<char>, JsonModel)>>,
    },
}

/// The models of a list of simple rule mappings.
pub open spec fn rules_list_model(l: Seq<Vec<(String, JsonValue)>>) -> Seq<
    Seq<(Seq<char>, JsonModel)>,
> {
    l.map_values(|v: Vec<(String, JsonValue)>| obj_model(v@))
}

impl MatchRules {
    pub open spec fn deep_view(&self) -> MatchRulesModel {
        match self {
            MatchRules::Simple(m) => MatchRulesModel::Simple(obj_model(m@)),
            MatchRules::Complex { all, any, not } => MatchRulesModel::Complex {
                all: match all {
                    Some(l) => Some(rules_list_model(l@)),
                    None => None,
                },
                any: match any {
                    Some(l) => Some(rules_list_model(l@)),
                    None => None,
                },
                not: match not {
                    Some(m) => Some(obj_model(m@)),
                    None => None,
                },
            },
        }
    }
}

/// The model of an optional rule set.
pub open spec fn rules_opt_model(rules: Option<MatchRules>) -> Option<MatchRulesModel> {
    match rules {
        Some(r) => Some(r.deep_view()),
        None => None,
    }
}

/// Configuration of a single notification handler.
#[derive(Debug)]
pub struct HandlerConfig {
    /// Name of this handler entry, used to attribute its outcome.
    pub name: String,
    /// Which backend runs it.
    pub handler_type: String,
    /// The events it fires on; absent means every event.
    pub match_rules: Option<MatchRules>,
    /// How string fields are compared.
    pub match_type: MatchType,
    /// Backend-specific settings.
    pub config: Vec<(String, JsonValue)>,
}

/// Model of `HandlerConfig`.
pub struct HandlerConfigModel {
    pub name: Seq<char>,
    pub handler_type: Seq<char>,
    pub match_rules: Option<MatchRulesModel>,
    pub match_type: MatchType,
    pub config: Seq<(Seq<char>, JsonModel)>,
}

impl HandlerConfig {
    pub open spec fn deep_view(&self) -> HandlerConfigModel {
        HandlerConfigModel {
            name: self.name@,
            handler_type: self.handler_type@,
            match_rules: rules_opt_model(self.match_rules),
            match_type: self.match_type,
            config: obj_model(self.config@),
        }
    }
}

/// The models of a handler list.
pub open spec fn handlers_model(hs: Seq<HandlerConfig>) -> Seq<HandlerConfigModel> {
    hs.map_values(|h: HandlerConfig| h.deep_view())
}

/// A path-scoped replacement of the handler list.
#[derive(Debug)]
pub struct ProjectOverride {
    /// Glob pattern matched against the active project path.
    pub path_pattern: String,
    /// Handlers that replace the base list when the pattern matches.
    pub handlers: Vec<HandlerConfig>,
}

/// Model of `ProjectOverride`.
pub struct ProjectOverrideModel {
    pub path_pattern: Seq<char>,
    pub handlers: Seq<HandlerConfigModel>,
}

impl ProjectOverride {
    pub open spec fn deep_view(&self) -> ProjectOverrideModel {
        ProjectOverrideModel {
            path_pattern: self.path_pattern@,
            handlers: handlers_model(self.handlers@),
        }
    }
}

/// The models of an override list.
pub open spec fn overrides_model(ovs: Seq<ProjectOverride>) -> Seq<ProjectOverrideModel> {
    ovs.map_values(|o: ProjectOverride| o.deep_view())
}

/// The whole configuration.
#[derive(Debug)]
pub struct Config {
    /// The base handler list.
    pub handlers: Vec<HandlerConfig>,
    /// Optional path-scoped overrides.
    pub overrides: Option<Vec<ProjectOverride>>,
}

/// Model of `Config`.
pub struct ConfigModel {
    pub handlers: Seq<HandlerConfigModel>,
    pub overrides: Option<Seq<ProjectOverrideModel>>,
}

impl Config {
    pub open spec fn deep_view(&self) -> ConfigModel {
        ConfigModel {
            handlers: handlers_model(self.handlers@),
            overrides: match self.overrides {
                Some(ovs) => Some(overrides_model(ovs@)),
                None => None,
            },
        }
    }
}

/// A deep copy of a list of simple rule mappings, with the same model.
fn clone_rules_list(l: &Vec<Vec<(String, JsonValue)>>) -> (r: Vec<Vec<(String, JsonValue)>>)
    ensures
        rules_list_model(r@) == rules_list_model(l@),
{
    let mut out: Vec<Vec<(String, JsonValue)>> = Vec::new();
    let mut i: usize = 0;
    while i < l.len()
        invariant
            i <= l@.len(),
            out@.len() == i,
            forall|j: int| 0 <= j < i ==> obj_model((#[trigger] out@[j])@) == obj_model(l@[j]@),
        decreases l@.len() - i,
    {
        let c = clone_fields(&l[i]);
        out.push(c);
        i = i + 1;
    }
    proof {
        assert(rules_list_model(out@) =~= rules_list_model(l@));
    }
    out
}

/// A deep copy of a rule set, with the same model.
fn clone_match_rules(r: &MatchRules) -> (c: MatchRules)
    ensures
        c.deep_view() == r.deep_view(),
{
    match r {
        MatchRules::Simple(m) => MatchRules::Simple(clone_fields(m)),
        MatchRules::Complex { all, any, not } => MatchRules::Complex {
            all: match all {
                Some(l) => Some(clone_rules_list(l)),
                None => None,
            },
            any: match any {
                Some(l) => Some(clone_rules_list(l)),
                None => None,
            },
            not: match not {
                Some(m) => Some(clone_fields(m)),
                None => None,
            },
        },
    }
}

/// A deep copy of one handler entry, with the same model.
pub fn clone_handler(h: &HandlerConfig) -> (c: HandlerConfig)
    ensures
        c.deep_view() == h.deep_view(),
{
    HandlerConfig {
        name: h.name.clone(),
        handler_type: h.handler_type.clone(),
        match_rules: match &h.match_rules {
            Some(r) => Some(clone_match_rules(r)),
            None => None,
        },
        match_type: h.match_type,
        config: clone_fields(&h.config),
    }
}

/// A deep copy of a handler list, with the same model.
pub fn clone_handlers(hs: &Vec<HandlerConfig>) -> (r: Vec<HandlerConfig>)
    ensures
        handlers_model(r@) == handlers_model(hs@),
{
    let mut out: Vec<HandlerConfig> = Vec::new();
    let mut i: usize = 0;
    while i < hs.len()
        invariant
            i <= hs@.len(),
            out@.len() == i,
            forall|j: int| 0 <= j < i ==> (#[trigger] out@[j]).deep_view() == hs@[j].deep_view(),
        decreases hs@.len() - i,
    {
        let c = clone_handler(&hs[i]);
        out.push(c);
        i = i + 1;
    }
    proof {
        assert(handlers_model(out@) =~= handlers_model(hs@));
    }
    out
}

/// Whether a glob pattern is accepted by the pattern compiler; a property
/// of the pattern alone.
pub uninterp spec fn glob_valid(pat: Seq<char>) -> bool;

/// Whether a valid glob pattern matches a path; a function of the pattern
/// and the path alone. Unconstrained for invalid patterns.
pub uninterp spec fn glob_match(pat: Seq<char>, path: Seq<char>) -> bool;

/// Relies on glob::Pattern::new and glob::Pattern::matches: whether the
/// pattern compiles, and whether it then matches the path, depend only on
/// the pattern and the path. A pattern that does not compile matches
/// nothing.
#[verifier::external_body]
fn glob_test(pattern: &str, path: &str) -> (r: bool)
    ensures
        r == (glob_valid(pattern@) && glob_match(pattern@, path@)),
{
    glob::Pattern::new(pattern).map(|p| p.matches(path)).unwrap_or(false)
}

/// An override replaces the handler list when its pattern is a valid glob
/// that matches the active path.
pub open spec fn spec_override_applies(ov: ProjectOverrideModel, path: Seq<char>) -> bool {
    glob_valid(ov.path_pattern) && glob_match(ov.path_pattern, path)
}

/// The handler list that override resolution yields: the last override
/// whose pattern matches the path replaces the base list outright; with no
/// match the base list stands.
pub open spec fn spec_resolved_handlers(
    base: Seq<HandlerConfigModel>,
    ovs: Seq<ProjectOverrideModel>,
    path: Seq<char>,
) -> Seq<HandlerConfigModel>
    decreases ovs.len(),
{
    if ovs.len() == 0 {
        base
    } else if spec_override_applies(ovs.last(), path) {
        ovs.last().handlers
    } else {
        spec_resolved_handlers(base, ovs.drop_last(), path)
    }
}

impl Config {
    /// Replace the handler list according to the overrides, the last
    /// matching pattern winning; the override list itself is kept.
    pub fn apply_overrides(&mut self, project_path: &str)
        ensures
            final(self).deep_view().overrides == old(self).deep_view().overrides,
            final(self).deep_view().handlers == (match old(self).deep_view().overrides {
                Some(ovm) => spec_resolved_handlers(
                    old(self).deep_view().handlers,
                    ovm,
                    project_path@,
                ),
                None => old(self).deep_view().handlers,
            }),
    {
        let ghost base = handlers_model(self.handlers@);
        let replacement: Vec<HandlerConfig>;
        match &self.overrides {
            None => {
                return ;
            },
            Some(ovs) => {
                let ghost ovm = overrides_model(ovs@);
                let mut last: Option<usize> = None;
                let mut i: usize = 0;
                proof {
                    assert(ovm.take(0) =~= Seq::<ProjectOverrideModel>::empty());
                }
                while i < ovs.len()
                    invariant
                        i <= ovs@.len(),
                        ovm == overrides_model(ovs@),
                        ovm.len() == ovs@.len(),
                        match last {
                            Some(j) => j < i && spec_resolved_handlers(base, ovm.take(i as int), project_path@)
                                == ovm[j as int].handlers,
                            None => spec_resolved_handlers(base, ovm.take(i as int), project_path@)
                                == base,
                        },
                    decreases ovs@.len() - i,
                {
                    proof {
                        assert(ovm.take(i + 1).last() == ovm[i as int]);
                        assert(ovm.take(i + 1).drop_last() =~= ovm.take(i as int));
                    }
                    if glob_test(ovs[i].path_pattern.as_str(), project_path) {
                        last = Some(i);
                    }
                    i = i + 1;
                }
                proof {
                    assert(ovm.take(ovs@.len() as int) =~= ovm);
                }
                match last {
                    Some(j) => {
                        replacement = clone_handlers(&ovs[j].handlers);
                    },
                    None => {
                        return ;
                    },
                }
            },
        }
        self.handlers = replacement;
    }
}

} // verus!
