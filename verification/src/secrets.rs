//! Secret substitution in handler configuration values.
//!
//! A string value may carry an environment placeholder `{{env.NAME}}` and a
//! file placeholder `{{file.PATH}}`. The first occurrence of each kind is
//! located, its name extracted, and every textually identical occurrence of
//! that placeholder replaced with the resolved value; a name that cannot be
//! resolved fails the whole configuration. Lookups are supplied as tables,
//! so resolution itself is pure: the caller fetches the named environment
//! variables and files and hands in what it found.

use vstd::prelude::*;
use vstd::string::*;
use crate::config::{
    Config, ConfigModel, HandlerConfig, HandlerConfigModel, ProjectOverride, ProjectOverrideModel,
    clone_handler, handlers_model, overrides_model,
};
use crate::error::NotificationError;
use crate::json::{JsonModel, JsonValue, clone_value, lemma_obj_model, obj_model};
use crate::strings::{
    concat_str, find_sub, lemma_spec_find, lemma_spec_find_bounds, match_at, replace_all,
    spec_find, spec_replace_all, str_eq,
};

verus! {

/// First-match lookup in an association table of strings.
pub open spec fn spec_assoc(t: Seq<(Seq<char>, Seq<char>)>, key: Seq<char>) -> Option<Seq<char>>
    decreases t.len(),
{
    if t.len() == 0 {
        None
    } else if t[0].0 == key {
        Some(t[0].1)
    } else {
        spec_assoc(t.drop_first(), key)
    }
}

/// The model of a lookup table.
pub open spec fn table_model(t: Seq<(String, String)>) -> Seq<(Seq<char>, Seq<char>)> {
    t.map_values(|p: (String, String)| (p.0@, p.1@))
}

/// Look a key up in a table, by first match.
fn assoc_get(t: &Vec<(String, String)>, key: &str) -> (r: Option<String>)
    ensures
        match r {
            Some(v) => spec_assoc(table_model(t@), key@) == Some(v@),
            None => spec_assoc(table_model(t@), key@) is None,
        },
{
    let ghost tm = table_model(t@);
    proof {
        assert(tm.skip(0) =~= tm);
    }
    let mut i: usize = 0;
    while i < t.len()
        invariant
            i <= t@.len(),
            tm == table_model(t@),
            tm.len() == t@.len(),
            spec_assoc(tm.skip(i as int), key@) == spec_assoc(tm, key@),
        decreases t@.len() - i,
    {
        proof {
            assert(tm.skip(i as int)[0] == tm[i as int]);
            assert(tm.skip(i as int).drop_first() =~= tm.skip(i + 1));
        }
        if str_eq(t[i].0.as_str(), key) {
            return Some(t[i].1.clone());
        }
        i = i + 1;
    }
    None
}

/// The environment variable named by the first `{{env.NAME}}` placeholder,
/// if the marker and its closing braces are present.
pub open spec fn spec_env_request(s: Seq<char>) -> Option<Seq<char>> {
    match spec_find(s, "{{env."@) {
        Some(start) => match spec_find(s.skip(start), "}}"@) {
            Some(end) => Some(s.subrange(start + 6, start + end)),
            None => None,
        },
        None => None,
    }
}

/// The file path named by the first `{{file.PATH}}` placeholder.
pub open spec fn spec_file_request(s: Seq<char>) -> Option<Seq<char>> {
    match spec_find(s, "{{file."@) {
        Some(start) => match spec_find(s.skip(start), "}}"@) {
            Some(end) => Some(s.subrange(start + 7, start + end)),
            None => None,
        },
        None => None,
    }
}

/// The full text of an environment placeholder for a variable name.
pub open spec fn spec_env_placeholder(var: Seq<char>) -> Seq<char> {
    "{{env."@ + var + "}}"@
}

/// The full text of a file placeholder for a path.
pub open spec fn spec_file_placeholder(path: Seq<char>) -> Seq<char> {
    "{{file."@ + path + "}}"@
}

/// The whitespace-trimmed content of a file, as str::trim yields it; a
/// function of the content alone.
pub uninterp spec fn trimmed(s: Seq<char>) -> Seq<char>;

/// Relies on str::trim: the input with leading and trailing whitespace
/// removed, a function of the characters alone.
#[verifier::external_body]
fn trim_str(s: &str) -> (r: String)
    ensures
        r@ == trimmed(s@),
{
    s.trim().to_string()
}

proof fn lemma_close_after_marker(s: Seq<char>, marker: Seq<char>, start: int, end: int)
    requires
        match_at(s, marker, start),
        match_at(s.skip(start), "}}"@, end),
        0 <= end,
        forall|k: int| 0 <= k < marker.len() ==> #[trigger] s[start + k] != '}',
    ensures
        end >= marker.len(),
{
    reveal_strlit("}}");
    assert("}}"@.len() == 2);
    if end < marker.len() {
        assert(s.skip(start).subrange(end, end + 2)[0] == s.skip(start)[end]);
        assert(s.skip(start)[end] == s[start + end]);
        assert(s[start + end] == '}');
        assert(false);
    }
}

proof fn lemma_env_marker_chars(s: Seq<char>, start: int)
    requires
        match_at(s, "{{env."@, start),
    ensures
        forall|k: int| 0 <= k < "{{env."@.len() ==> #[trigger] s[start + k] != '}',
        "{{env."@.len() == 6,
{
    reveal_strlit("{{env.");
    assert forall|k: int| 0 <= k < "{{env."@.len() implies #[trigger] s[start + k] != '}' by {
        assert(s.subrange(start, start + 6)[k] == s[start + k]);
    }
}

proof fn lemma_file_marker_chars(s: Seq<char>, start: int)
    requires
        match_at(s, "{{file."@, start),
    ensures
        forall|k: int| 0 <= k < "{{file."@.len() ==> #[trigger] s[start + k] != '}',
        "{{file."@.len() == 7,
{
    reveal_strlit("{{file.");
    assert forall|k: int| 0 <= k < "{{file."@.len() implies #[trigger] s[start + k] != '}' by {
        assert(s.subrange(start, start + 7)[k] == s[start + k]);
    }
}

/// The variable named by the first environment placeholder in `s`.
pub fn env_request(s: &str) -> (r: Option<String>)
    ensures
        match r {
            Some(v) => spec_env_request(s@) == Some(v@),
            None => spec_env_request(s@) is None,
        },
{
    let n = s.unicode_len();
    match find_sub(s, "{{env.") {
        Some(start) => {
            proof {
                lemma_spec_find(s@, "{{env."@);
            }
            let rem = s.substring_char(start, n);
            proof {
                assert(rem@ =~= s@.skip(start as int));
            }
            match find_sub(rem, "}}") {
                Some(end) => {
                    proof {
                        lemma_spec_find(rem@, "}}"@);
                        lemma_env_marker_chars(s@, start as int);
                        lemma_close_after_marker(s@, "{{env."@, start as int, end as int);
                        lemma_spec_find_bounds(rem@, "}}"@);
                    }
                    let var = s.substring_char(start + 6, start + end).to_owned();
                    Some(var)
                },
                None => None,
            }
        },
        None => None,
    }
}

/// The path named by the first file placeholder in `s`.
pub fn file_request(s: &str) -> (r: Option<String>)
    ensures
        match r {
            Some(v) => spec_file_request(s@) == Some(v@),
            None => spec_file_request(s@) is None,
        },
{
    let n = s.unicode_len();
    match find_sub(s, "{{file.") {
        Some(start) => {
            proof {
                lemma_spec_find(s@, "{{file."@);
            }
            let rem = s.substring_char(start, n);
            proof {
                assert(rem@ =~= s@.skip(start as int));
            }
            match find_sub(rem, "}}") {
                Some(end) => {
                    proof {
                        lemma_spec_find(rem@, "}}"@);
                        lemma_file_marker_chars(s@, start as int);
                        lemma_close_after_marker(s@, "{{file."@, start as int, end as int);
                        lemma_spec_find_bounds(rem@, "}}"@);
                    }
                    let path = s.substring_char(start + 7, start + end).to_owned();
                    Some(path)
                },
                None => None,
            }
        },
        None => None,
    }
}

/// How one resolution step can fail.
pub enum SecretErrModel {
    /// The named environment variable is not in the table.
    EnvMissing(Seq<char>),
    /// The named file is not in the table.
    FileMissing(Seq<char>),
}

/// Resolve the environment placeholder of one string, if it carries one.
pub open spec fn spec_resolve_env_step(
    s: Seq<char>,
    env: Seq<(Seq<char>, Seq<char>)>,
) -> Result<Seq<char>, SecretErrModel> {
    match spec_env_request(s) {
        None => Ok(s),
        Some(var) => match spec_assoc(env, var) {
            Some(val) => Ok(spec_replace_all(s, spec_env_placeholder(var), val)),
            None => Err(SecretErrModel::EnvMissing(var)),
        },
    }
}

/// Resolve the file placeholder of one string, if it carries one; the
/// substituted text is the file's content trimmed.
pub open spec fn spec_resolve_file_step(
    s: Seq<char>,
    files: Seq<(Seq<char>, Seq<char>)>,
) -> Result<Seq<char>, SecretErrModel> {
    match spec_file_request(s) {
        None => Ok(s),
        Some(path) => match spec_assoc(files, path) {
            Some(content) => Ok(
                spec_replace_all(s, spec_file_placeholder(path), trimmed(content)),
            ),
            None => Err(SecretErrModel::FileMissing(path)),
        },
    }
}

/// Resolve one string value: the environment step first, then the file
/// step on its result.
pub open spec fn spec_resolve_secret(
    s: Seq<char>,
    env: Seq<(Seq<char>, Seq<char>)>,
    files: Seq<(Seq<char>, Seq<char>)>,
) -> Result<Seq<char>, SecretErrModel> {
    match spec_resolve_env_step(s, env) {
        Ok(t) => spec_resolve_file_step(t, files),
        Err(e) => Err(e),
    }
}

/// The error a failed resolution is reported as.
pub open spec fn spec_secret_error(e: SecretErrModel) -> Seq<char> {
    match e {
        SecretErrModel::EnvMissing(var) => "Environment variable not found: "@ + var,
        SecretErrModel::FileMissing(path) => "Failed to read file: "@ + path,
    }
}

/// Resolve the placeholders of one string value against the two tables.
pub fn resolve_secret_string(
    s: &str,
    env: &Vec<(String, String)>,
    files: &Vec<(String, String)>,
) -> (r: Result<String, NotificationError>)
    ensures
        match spec_resolve_secret(s@, table_model(env@), table_model(files@)) {
            Ok(t) => r is Ok && r->Ok_0@ == t,
            Err(e) => r matches Err(NotificationError::InvalidConfig(m)) && m@
                == spec_secret_error(e),
        },
{
    proof {
        reveal_strlit("{{env.");
        reveal_strlit("{{file.");
        reveal_strlit("}}");
    }
    let after_env: String;
    match env_request(s) {
        None => {
            after_env = s.to_owned();
        },
        Some(var) => {
            match assoc_get(env, var.as_str()) {
                Some(val) => {
                    let ph = concat_str(concat_str("{{env.", var.as_str()).as_str(), "}}");
                    after_env = replace_all(s, ph.as_str(), val.as_str());
                },
                None => {
                    return Err(NotificationError::InvalidConfig(concat_str(
                        "Environment variable not found: ",
                        var.as_str(),
                    )));
                },
            }
        },
    }
    match file_request(after_env.as_str()) {
        None => Ok(after_env),
        Some(path) => {
            match assoc_get(files, path.as_str()) {
                Some(content) => {
                    let t = trim_str(content.as_str());
                    let ph = concat_str(concat_str("{{file.", path.as_str()).as_str(), "}}");
                    let out = replace_all(after_env.as_str(), ph.as_str(), t.as_str());
                    Ok(out)
                },
                None => {
                    Err(NotificationError::InvalidConfig(concat_str(
                        "Failed to read file: ",
                        path.as_str(),
                    )))
                },
            }
        },
    }
}

/// Resolve one configuration value: only string values are scanned.
pub open spec fn spec_resolve_value(
    v: JsonModel,
    env: Seq<(Seq<char>, Seq<char>)>,
    files: Seq<(Seq<char>, Seq<char>)>,
) -> Result<JsonModel, SecretErrModel> {
    match v {
        JsonModel::Str(s) => match spec_resolve_secret(s, env, files) {
            Ok(t) => Ok(JsonModel::Str(t)),
            Err(e) => Err(e),
        },
        other => Ok(other),
    }
}

/// Resolve every value of a configuration mapping, in order, stopping at
/// the first failure.
pub open spec fn spec_resolve_fields(
    fields: Seq<(Seq<char>, JsonModel)>,
    env: Seq<(Seq<char>, Seq<char>)>,
    files: Seq<(Seq<char>, Seq<char>)>,
) -> Result<Seq<(Seq<char>, JsonModel)>, SecretErrModel>
    decreases fields.len(),
{
    if fields.len() == 0 {
        Ok(Seq::empty())
    } else {
        match spec_resolve_value(fields[0].1, env, files) {
            Err(e) => Err(e),
            Ok(v) => match spec_resolve_fields(fields.drop_first(), env, files) {
                Err(e) => Err(e),
                Ok(rest) => Ok(seq![(fields[0].0, v)] + rest),
            },
        }
    }
}

/// Resolve one handler's configuration mapping; the rest of the entry is
/// kept.
pub open spec fn spec_resolve_handler(
    h: HandlerConfigModel,
    env: Seq<(Seq<char>, Seq<char>)>,
    files: Seq<(Seq<char>, Seq<char>)>,
) -> Result<HandlerConfigModel, SecretErrModel> {
    match spec_resolve_fields(h.config, env, files) {
        Ok(cfg) => Ok(HandlerConfigModel { config: cfg, ..h }),
        Err(e) => Err(e),
    }
}

/// Resolve a handler list, in order, stopping at the first failure.
pub open spec fn spec_resolve_handlers(
    hs: Seq<HandlerConfigModel>,
    env: Seq<(Seq<char>, Seq<char>)>,
    files: Seq<(Seq<char>, Seq<char>)>,
) -> Result<Seq<HandlerConfigModel>, SecretErrModel>
    decreases hs.len(),
{
    if hs.len() == 0 {
        Ok(Seq::empty())
    } else {
        match spec_resolve_handler(hs[0], env, files) {
            Err(e) => Err(e),
            Ok(h) => match spec_resolve_handlers(hs.drop_first(), env, files) {
                Err(e) => Err(e),
                Ok(rest) => Ok(seq![h] + rest),
            },
        }
    }
}

/// Resolve the handler lists of every override, in order.
pub open spec fn spec_resolve_overrides(
    ovs: Seq<ProjectOverrideModel>,
    env: Seq<(Seq<char>, Seq<char>)>,
    files: Seq<(Seq<char>, Seq<char>)>,
) -> Result<Seq<ProjectOverrideModel>, SecretErrModel>
    decreases ovs.len(),
{
    if ovs.len() == 0 {
        Ok(Seq::empty())
    } else {
        match spec_resolve_handlers(ovs[0].handlers, env, files) {
            Err(e) => Err(e),
            Ok(hs) => match spec_resolve_overrides(ovs.drop_first(), env, files) {
                Err(e) => Err(e),
                Ok(rest) => Ok(seq![ProjectOverrideModel { handlers: hs, ..ovs[0] }] + rest),
            },
        }
    }
}

/// Resolve a whole configuration: the base handlers, then the overrides'
/// handlers.
pub open spec fn spec_resolve_config(
    c: ConfigModel,
    env: Seq<(Seq<char>, Seq<char>)>,
    files: Seq<(Seq<char>, Seq<char>)>,
) -> Result<ConfigModel, SecretErrModel> {
    match spec_resolve_handlers(c.handlers, env, files) {
        Err(e) => Err(e),
        Ok(hs) => match c.overrides {
            None => Ok(ConfigModel { handlers: hs, overrides: None }),
            Some(ovs) => match spec_resolve_overrides(ovs, env, files) {
                Err(e) => Err(e),
                Ok(ro) => Ok(ConfigModel { handlers: hs, overrides: Some(ro) }),
            },
        },
    }
}

fn resolve_value(
    v: &JsonValue,
    env: &Vec<(String, String)>,
    files: &Vec<(String, String)>,
) -> (r: Result<JsonValue, NotificationError>)
    ensures
        match spec_resolve_value(v.deep_view(), table_model(env@), table_model(files@)) {
            Ok(m) => r is Ok && r->Ok_0.deep_view() == m,
            Err(e) => r matches Err(NotificationError::InvalidConfig(msg)) && msg@
                == spec_secret_error(e),
        },
{
    match v {
        JsonValue::Str(s) => match resolve_secret_string(s.as_str(), env, files) {
            Ok(t) => Ok(JsonValue::Str(t)),
            Err(e) => Err(e),
        },
        other => Ok(clone_value(other)),
    }
}

fn resolve_fields(
    fields: &Vec<(String, JsonValue)>,
    env: &Vec<(String, String)>,
    files: &Vec<(String, String)>,
) -> (r: Result<Vec<(String, JsonValue)>, NotificationError>)
    ensures
        match spec_resolve_fields(obj_model(fields@), table_model(env@), table_model(files@)) {
            Ok(m) => r is Ok && obj_model(r->Ok_0@) == m,
            Err(e) => r matches Err(NotificationError::InvalidConfig(msg)) && msg@
                == spec_secret_error(e),
        },
{
    let ghost fm = obj_model(fields@);
    let ghost envm = table_model(env@);
    let ghost filesm = table_model(files@);
    proof {
        lemma_obj_model(fields@);
        assert(fm.skip(0) =~= fm);
        assert(obj_model(Seq::<(String, JsonValue)>::empty())
            =~= Seq::<(Seq<char>, JsonModel)>::empty());
        match spec_resolve_fields(fm, envm, filesm) {
            Ok(rest) => {
                assert(Seq::<(Seq<char>, JsonModel)>::empty() + rest =~= rest);
            },
            Err(_) => {},
        }
    }
    let mut out: Vec<(String, JsonValue)> = Vec::new();
    let mut i: usize = 0;
    while i < fields.len()
        invariant
            i <= fields@.len(),
            fm == obj_model(fields@),
            fm.len() == fields@.len(),
            forall|k: int| 0 <= k < fields@.len() ==> fm[k] == (
                fields@[k].0@,
                fields@[k].1.deep_view(),
            ),
            envm == table_model(env@),
            filesm == table_model(files@),
            match spec_resolve_fields(fm.skip(i as int), envm, filesm) {
                Ok(rest) => spec_resolve_fields(fm, envm, filesm) == Ok::<_, SecretErrModel>(
                    obj_model(out@) + rest,
                ),
                Err(e) => spec_resolve_fields(fm, envm, filesm) == Err::<
                    Seq<(Seq<char>, JsonModel)>,
                    _,
                >(e),
            },
        decreases fields@.len() - i,
    {
        proof {
            assert(fm.skip(i as int)[0] == fm[i as int]);
            assert(fm.skip(i as int).drop_first() =~= fm.skip(i + 1));
        }
        let ghost prev = obj_model(out@);
        match resolve_value(&fields[i].1, env, files) {
            Ok(v) => {
                let ghost vm = v.deep_view();
                let ghost outv0 = out@;
                let k = fields[i].0.clone();
                out.push((k, v));
                proof {
                    assert(out@.drop_last() =~= outv0);
                    assert(obj_model(out@) =~= prev.push((fm[i as int].0, vm)));
                    match spec_resolve_fields(fm.skip(i + 1), envm, filesm) {
                        Ok(rest) => {
                            assert(spec_resolve_fields(fm.skip(i as int), envm, filesm) == Ok::<
                                _,
                                SecretErrModel,
                            >(seq![(fm[i as int].0, vm)] + rest));
                            assert(prev + (seq![(fm[i as int].0, vm)] + rest) =~= obj_model(out@)
                                + rest);
                        },
                        Err(_) => {},
                    }
                }
            },
            Err(e) => {
                return Err(e);
            },
        }
        i = i + 1;
    }
    proof {
        assert(fm.skip(fields@.len() as int).len() == 0);
        match spec_resolve_fields(fm, envm, filesm) {
            Ok(rest) => {
                assert(obj_model(out@) + Seq::<(Seq<char>, JsonModel)>::empty()
                    =~= obj_model(out@));
            },
            Err(_) => {},
        }
    }
    Ok(out)
}

/// Resolve one handler entry's configuration values.
fn resolve_handler(
    h: &HandlerConfig,
    env: &Vec<(String, String)>,
    files: &Vec<(String, String)>,
) -> (r: Result<HandlerConfig, NotificationError>)
    ensures
        match spec_resolve_handler(h.deep_view(), table_model(env@), table_model(files@)) {
            Ok(m) => r is Ok && r->Ok_0.deep_view() == m,
            Err(e) => r matches Err(NotificationError::InvalidConfig(msg)) && msg@
                == spec_secret_error(e),
        },
{
    let mut c = clone_handler(h);
    match resolve_fields(&c.config, env, files) {
        Ok(cfg) => {
            c.config = cfg;
            Ok(c)
        },
        Err(e) => Err(e),
    }
}

/// Resolve a whole handler list.
fn resolve_handler_list(
    hs: &Vec<HandlerConfig>,
    env: &Vec<(String, String)>,
    files: &Vec<(String, String)>,
) -> (r: Result<Vec<HandlerConfig>, NotificationError>)
    ensures
        match spec_resolve_handlers(handlers_model(hs@), table_model(env@), table_model(files@)) {
            Ok(m) => r is Ok && handlers_model(r->Ok_0@) == m,
            Err(e) => r matches Err(NotificationError::InvalidConfig(msg)) && msg@
                == spec_secret_error(e),
        },
{
    let ghost hm = handlers_model(hs@);
    let ghost envm = table_model(env@);
    let ghost filesm = table_model(files@);
    proof {
        assert(hm.skip(0) =~= hm);
        match spec_resolve_handlers(hm, envm, filesm) {
            Ok(rest) => {
                assert(Seq::<HandlerConfigModel>::empty() + rest =~= rest);
                assert(handlers_model(Seq::<HandlerConfig>::empty())
                    =~= Seq::<HandlerConfigModel>::empty());
            },
            Err(_) => {},
        }
    }
    let mut out: Vec<HandlerConfig> = Vec::new();
    let mut i: usize = 0;
    while i < hs.len()
        invariant
            i <= hs@.len(),
            hm == handlers_model(hs@),
            hm.len() == hs@.len(),
            envm == table_model(env@),
            filesm == table_model(files@),
            match spec_resolve_handlers(hm.skip(i as int), envm, filesm) {
                Ok(rest) => spec_resolve_handlers(hm, envm, filesm) == Ok::<_, SecretErrModel>(
                    handlers_model(out@) + rest,
                ),
                Err(e) => spec_resolve_handlers(hm, envm, filesm) == Err::<
                    Seq<HandlerConfigModel>,
                    _,
                >(e),
            },
        decreases hs@.len() - i,
    {
        proof {
            assert(hm.skip(i as int)[0] == hm[i as int]);
            assert(hm.skip(i as int).drop_first() =~= hm.skip(i + 1));
        }
        let ghost prev = handlers_model(out@);
        match resolve_handler(&hs[i], env, files) {
            Ok(h) => {
                let ghost vm = h.deep_view();
                let ghost outv0 = out@;
                out.push(h);
                proof {
                    assert(out@.drop_last() =~= outv0);
                    assert(handlers_model(out@) =~= prev.push(vm));
                    match spec_resolve_handlers(hm.skip(i + 1), envm, filesm) {
                        Ok(rest) => {
                            assert(prev + (seq![vm] + rest) =~= handlers_model(out@) + rest);
                        },
                        Err(_) => {},
                    }
                }
            },
            Err(e) => {
                return Err(e);
            },
        }
        i = i + 1;
    }
    proof {
        assert(hm.skip(hs@.len() as int).len() == 0);
        match spec_resolve_handlers(hm, envm, filesm) {
            Ok(rest) => {
                assert(handlers_model(out@) + Seq::<HandlerConfigModel>::empty()
                    =~= handlers_model(out@));
            },
            Err(_) => {},
        }
    }
    Ok(out)
}

/// Resolve the override list's handler lists.
fn resolve_override_list(
    ovs: &Vec<ProjectOverride>,
    env: &Vec<(String, String)>,
    files: &Vec<(String, String)>,
) -> (r: Result<Vec<ProjectOverride>, NotificationError>)
    ensures
        match spec_resolve_overrides(overrides_model(ovs@), table_model(env@), table_model(files@)) {
            Ok(m) => r is Ok && overrides_model(r->Ok_0@) == m,
            Err(e) => r matches Err(NotificationError::InvalidConfig(msg)) && msg@
                == spec_secret_error(e),
        },
{
    let ghost om = overrides_model(ovs@);
    let ghost envm = table_model(env@);
    let ghost filesm = table_model(files@);
    proof {
        assert(om.skip(0) =~= om);
        match spec_resolve_overrides(om, envm, filesm) {
            Ok(rest) => {
                assert(Seq::<ProjectOverrideModel>::empty() + rest =~= rest);
                assert(overrides_model(Seq::<ProjectOverride>::empty())
                    =~= Seq::<ProjectOverrideModel>::empty());
            },
            Err(_) => {},
        }
    }
    let mut out: Vec<ProjectOverride> = Vec::new();
    let mut i: usize = 0;
    while i < ovs.len()
        invariant
            i <= ovs@.len(),
            om == overrides_model(ovs@),
            om.len() == ovs@.len(),
            envm == table_model(env@),
            filesm == table_model(files@),
            match spec_resolve_overrides(om.skip(i as int), envm, filesm) {
                Ok(rest) => spec_resolve_overrides(om, envm, filesm) == Ok::<_, SecretErrModel>(
                    overrides_model(out@) + rest,
                ),
                Err(e) => spec_resolve_overrides(om, envm, filesm) == Err::<
                    Seq<ProjectOverrideModel>,
                    _,
                >(e),
            },
        decreases ovs@.len() - i,
    {
        proof {
            assert(om.skip(i as int)[0] == om[i as int]);
            assert(om.skip(i as int).drop_first() =~= om.skip(i + 1));
        }
        let ghost prev = overrides_model(out@);
        match resolve_handler_list(&ovs[i].handlers, env, files) {
            Ok(hs) => {
                let pattern = ovs[i].path_pattern.clone();
                let ghost outv0 = out@;
                out.push(ProjectOverride { path_pattern: pattern, handlers: hs });
                proof {
                    assert(out@.drop_last() =~= outv0);
                    assert(overrides_model(out@) =~= prev.push(out@.last().deep_view()));
                    match spec_resolve_overrides(om.skip(i + 1), envm, filesm) {
                        Ok(rest) => {
                            assert(out@.last().deep_view() == ProjectOverrideModel {
                                handlers: handlers_model(out@.last().handlers@),
                                ..om[i as int]
                            });
                            assert(prev + (seq![out@.last().deep_view()] + rest) =~= overrides_model(
                                out@,
                            ) + rest);
                        },
                        Err(_) => {},
                    }
                }
            },
            Err(e) => {
                return Err(e);
            },
        }
        i = i + 1;
    }
    proof {
        assert(om.skip(ovs@.len() as int).len() == 0);
        match spec_resolve_overrides(om, envm, filesm) {
            Ok(rest) => {
                assert(overrides_model(out@) + Seq::<ProjectOverrideModel>::empty()
                    =~= overrides_model(out@));
            },
            Err(_) => {},
        }
    }
    Ok(out)
}

/// Resolve every secret placeholder in the configuration against the two
/// tables. On failure the configuration is left unchanged and the error
/// names what was missing.
pub fn resolve_secrets(
    config: &mut Config,
    env: &Vec<(String, String)>,
    files: &Vec<(String, String)>,
) -> (r: Result<(), NotificationError>)
    ensures
        match spec_resolve_config(old(config).deep_view(), table_model(env@), table_model(files@)) {
            Ok(m) => r is Ok && final(config).deep_view() == m,
            Err(e) => r matches Err(NotificationError::InvalidConfig(msg)) && msg@
                == spec_secret_error(e) && final(config).deep_view() == old(config).deep_view(),
        },
{
    let handlers = match resolve_handler_list(&config.handlers, env, files) {
        Ok(hs) => hs,
        Err(e) => {
            return Err(e);
        },
    };
    match &config.overrides {
        None => {
            config.handlers = handlers;
            Ok(())
        },
        Some(ovs) => {
            match resolve_override_list(ovs, env, files) {
                Ok(ro) => {
                    config.handlers = handlers;
                    config.overrides = Some(ro);
                    Ok(())
                },
                Err(e) => Err(e),
            }
        },
    }
}

} // verus!
