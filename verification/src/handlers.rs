//! The notification backends' decision logic: reading their settings out
//! of a handler configuration, rendering message templates, and building
//! the request each backend's I/O call needs. The I/O itself (showing a
//! toast, playing audio, sending mail, posting a webhook, spawning a
//! messenger process) lives with the caller.

use vstd::prelude::*;
use vstd::string::*;
use crate::error::NotificationError;
use crate::event::Event;
use crate::json::{
    JsonModel, JsonValue, arr_model, clone_value, json_display, json_text, lemma_arr_model,
    lemma_obj_model, num_as_u64, obj_get, obj_model, spec_num_u64, spec_obj_get,
};
use crate::strings::{
    concat_str, contains_sub, replace_all, spec_find, spec_replace_all, str_eq,
};

verus! {

/// A string-valued setting, or the default when the key is absent or not
/// a string.
pub open spec fn spec_get_string(
    cfg: Seq<(Seq<char>, JsonModel)>,
    key: Seq<char>,
    default: Seq<char>,
) -> Seq<char> {
    match spec_obj_get(cfg, key) {
        Some(JsonModel::Str(s)) => s,
        _ => default,
    }
}

/// Read a string-valued setting with a default.
pub fn get_string(config: &Vec<(String, JsonValue)>, key: &str, default: &str) -> (r: String)
    ensures
        r@ == spec_get_string(obj_model(config@), key@, default@),
{
    match obj_get(config, key) {
        Some(v) => match v {
            JsonValue::Str(s) => s.clone(),
            _ => default.to_owned(),
        },
        None => default.to_owned(),
    }
}

/// An optional string-valued setting.
pub open spec fn spec_get_opt_string(
    cfg: Seq<(Seq<char>, JsonModel)>,
    key: Seq<char>,
) -> Option<Seq<char>> {
    match spec_obj_get(cfg, key) {
        Some(JsonModel::Str(s)) => Some(s),
        _ => None,
    }
}

/// Read an optional string-valued setting.
pub fn get_opt_string(config: &Vec<(String, JsonValue)>, key: &str) -> (r: Option<String>)
    ensures
        match r {
            Some(s) => spec_get_opt_string(obj_model(config@), key@) == Some(s@),
            None => spec_get_opt_string(obj_model(config@), key@) is None,
        },
{
    match obj_get(config, key) {
        Some(v) => match v {
            JsonValue::Str(s) => Some(s.clone()),
            _ => None,
        },
        None => None,
    }
}

/// An unsigned setting read as `u64`, or the default when the key is
/// absent or does not hold an unsigned integer.
pub open spec fn spec_get_u64(
    cfg: Seq<(Seq<char>, JsonModel)>,
    key: Seq<char>,
    default: int,
) -> int {
    match spec_obj_get(cfg, key) {
        Some(JsonModel::Num(s)) => match spec_num_u64(s) {
            Some(v) => v,
            None => default,
        },
        _ => default,
    }
}

/// Read an unsigned setting, truncated to `u32`, with a default.
pub fn get_u32(config: &Vec<(String, JsonValue)>, key: &str, default: u32) -> (r: u32)
    ensures
        r == spec_get_u64(obj_model(config@), key@, default as int) % 0x1_0000_0000,
        spec_get_u64(obj_model(config@), key@, default as int) < 0x1_0000_0000 ==> r
            == spec_get_u64(obj_model(config@), key@, default as int),
{
    match obj_get(config, key) {
        Some(v) => match v {
            JsonValue::Num(s) => match num_as_u64(s.as_str()) {
                Some(n) => (n % 0x1_0000_0000u64) as u32,
                None => default,
            },
            _ => default,
        },
        None => default,
    }
}

/// Read an unsigned setting, truncated to `u16`, with a default.
pub fn get_u16(config: &Vec<(String, JsonValue)>, key: &str, default: u16) -> (r: u16)
    ensures
        r == spec_get_u64(obj_model(config@), key@, default as int) % 0x1_0000,
        spec_get_u64(obj_model(config@), key@, default as int) < 0x1_0000 ==> r == spec_get_u64(
            obj_model(config@),
            key@,
            default as int,
        ),
{
    match obj_get(config, key) {
        Some(v) => match v {
            JsonValue::Num(s) => match num_as_u64(s.as_str()) {
                Some(n) => (n % 0x1_0000u64) as u16,
                None => default,
            },
            _ => default,
        },
        None => default,
    }
}

/// The substitution text of an event field: a string field stands as
/// itself, any other value as its JSON text.
pub open spec fn spec_text_of(v: JsonModel) -> Seq<char> {
    match v {
        JsonModel::Str(s) => s,
        other => json_text(other),
    }
}

/// One fold step per event field, in field order: where the field's
/// placeholder occurs in the text, every occurrence is replaced with the
/// field's substitution text.
pub open spec fn spec_render_fold(s: Seq<char>, fields: Seq<(Seq<char>, JsonModel)>) -> Seq<char>
    decreases fields.len(),
{
    if fields.len() == 0 {
        s
    } else {
        let ph = "{{"@ + fields[0].0 + "}}"@;
        let s2 = if spec_find(s, ph) is Some {
            spec_replace_all(s, ph, spec_text_of(fields[0].1))
        } else {
            s
        };
        spec_render_fold(s2, fields.drop_first())
    }
}

/// A rendered template: a string template has each event field's
/// `{{name}}` placeholder substituted; a missing or non-string template
/// renders as the default.
pub open spec fn spec_render_template(
    template: Option<JsonModel>,
    event: Seq<(Seq<char>, JsonModel)>,
    default: Seq<char>,
) -> Seq<char> {
    match template {
        Some(JsonModel::Str(s)) => spec_render_fold(s, event),
        _ => default,
    }
}

/// Substitute every event field's placeholder in one string.
fn render_string(s: &String, event: &Event) -> (r: String)
    ensures
        r@ == spec_render_fold(s@, event.deep_view()),
{
    let ghost em = event.deep_view();
    proof {
        lemma_obj_model(event.data@);
        assert(em.skip(0) =~= em);
    }
    let mut result = s.clone();
    let mut i: usize = 0;
    while i < event.data.len()
        invariant
            i <= event.data@.len(),
            em == event.deep_view(),
            em.len() == event.data@.len(),
            forall|k: int| 0 <= k < event.data@.len() ==> em[k] == (
                event.data@[k].0@,
                event.data@[k].1.deep_view(),
            ),
            spec_render_fold(result@, em.skip(i as int)) == spec_render_fold(s@, em),
        decreases event.data@.len() - i,
    {
        proof {
            reveal_strlit("{{");
            reveal_strlit("}}");
            assert("{{"@.len() == 2);
            assert("}}"@.len() == 2);
            assert(em.skip(i as int)[0] == em[i as int]);
            assert(em.skip(i as int).drop_first() =~= em.skip(i + 1));
        }
        let ph = concat_str(concat_str("{{", event.data[i].0.as_str()).as_str(), "}}");
        if contains_sub(result.as_str(), ph.as_str()) {
            let text: String = match &event.data[i].1 {
                JsonValue::Str(t) => t.clone(),
                other => json_display(other),
            };
            result = replace_all(result.as_str(), ph.as_str(), text.as_str());
        }
        i = i + 1;
    }
    proof {
        assert(em.skip(event.data@.len() as int).len() == 0);
    }
    result
}

/// Render a template value against an event, with a default for a missing
/// or non-string template.
pub fn render_template(template: Option<&JsonValue>, event: &Event, default: &str) -> (r: String)
    ensures
        r@ == spec_render_template(
            match template {
                Some(v) => Some(v.deep_view()),
                None => None,
            },
            event.deep_view(),
            default@,
        ),
{
    match template {
        Some(v) => match v {
            JsonValue::Str(s) => render_string(s, event),
            _ => default.to_owned(),
        },
        None => default.to_owned(),
    }
}

/// A payload value with every string in it rendered against the event:
/// strings have their placeholders substituted, arrays and objects are
/// rendered element-wise, other values stand as they are.
pub open spec fn spec_render_payload(v: JsonModel, event: Seq<(Seq<char>, JsonModel)>) -> JsonModel
    decreases v,
{
    match v {
        JsonModel::Str(s) => JsonModel::Str(spec_render_fold(s, event)),
        JsonModel::Obj(fields) => JsonModel::Obj(spec_render_payload_fields(fields, event)),
        JsonModel::Arr(items) => JsonModel::Arr(spec_render_payload_items(items, event)),
        other => other,
    }
}

pub open spec fn spec_render_payload_fields(
    fields: Seq<(Seq<char>, JsonModel)>,
    event: Seq<(Seq<char>, JsonModel)>,
) -> Seq<(Seq<char>, JsonModel)>
    decreases fields,
{
    if fields.len() == 0 {
        Seq::empty()
    } else {
        spec_render_payload_fields(fields.drop_last(), event).push(
            (fields.last().0, spec_render_payload(fields.last().1, event)),
        )
    }
}

pub open spec fn spec_render_payload_items(
    items: Seq<JsonModel>,
    event: Seq<(Seq<char>, JsonModel)>,
) -> Seq<JsonModel>
    decreases items,
{
    if items.len() == 0 {
        Seq::empty()
    } else {
        spec_render_payload_items(items.drop_last(), event).push(
            spec_render_payload(items.last(), event),
        )
    }
}

proof fn lemma_render_payload_fields(
    fields: Seq<(Seq<char>, JsonModel)>,
    event: Seq<(Seq<char>, JsonModel)>,
)
    ensures
        spec_render_payload_fields(fields, event).len() == fields.len(),
        forall|i: int| 0 <= i < fields.len() ==> spec_render_payload_fields(fields, event)[i] == (
            fields[i].0,
            spec_render_payload(fields[i].1, event),
        ),
    decreases fields,
{
    if fields.len() > 0 {
        lemma_render_payload_fields(fields.drop_last(), event);
    }
}

proof fn lemma_render_payload_items(items: Seq<JsonModel>, event: Seq<(Seq<char>, JsonModel)>)
    ensures
        spec_render_payload_items(items, event).len() == items.len(),
        forall|i: int| 0 <= i < items.len() ==> spec_render_payload_items(items, event)[i]
            == spec_render_payload(items[i], event),
    decreases items,
{
    if items.len() > 0 {
        lemma_render_payload_items(items.drop_last(), event);
    }
}

/// Render every string inside a payload value against the event.
pub fn render_payload_template(value: &JsonValue, event: &Event) -> (r: JsonValue)
    ensures
        r.deep_view() == spec_render_payload(value.deep_view(), event.deep_view()),
    decreases value,
{
    match value {
        JsonValue::Str(s) => JsonValue::Str(render_string(s, event)),
        JsonValue::Obj(fields) => {
            let ghost em = event.deep_view();
            let ghost fm = obj_model(fields@);
            proof {
                lemma_obj_model(fields@);
                lemma_render_payload_fields(fm, em);
            }
            let mut out: Vec<(String, JsonValue)> = Vec::new();
            let mut i: usize = 0;
            while i < fields.len()
                invariant
                    value is Obj,
                    fields == value->Obj_0,
                    em == event.deep_view(),
                    i <= fields@.len(),
                    out@.len() == i,
                    fm == obj_model(fields@),
                    fm.len() == fields@.len(),
                    forall|k: int| 0 <= k < fields@.len() ==> fm[k] == (
                        fields@[k].0@,
                        fields@[k].1.deep_view(),
                    ),
                    spec_render_payload_fields(fm, em).len() == fm.len(),
                    forall|k: int| 0 <= k < fm.len() ==> spec_render_payload_fields(fm, em)[k] == (
                        fm[k].0,
                        spec_render_payload(fm[k].1, em),
                    ),
                    forall|k: int| 0 <= k < i ==> (
                        (#[trigger] out@[k]).0@,
                        out@[k].1.deep_view(),
                    ) == spec_render_payload_fields(fm, em)[k],
                decreases fields@.len() - i,
            {
                let k = fields[i].0.clone();
                let v = render_payload_template(&fields[i].1, event);
                out.push((k, v));
                i = i + 1;
            }
            proof {
                lemma_obj_model(out@);
                assert(obj_model(out@) =~= spec_render_payload_fields(fm, em));
            }
            JsonValue::Obj(out)
        },
        JsonValue::Arr(items) => {
            let ghost em = event.deep_view();
            let ghost im = arr_model(items@);
            proof {
                lemma_arr_model(items@);
                lemma_render_payload_items(im, em);
            }
            let mut out: Vec<JsonValue> = Vec::new();
            let mut i: usize = 0;
            while i < items.len()
                invariant
                    value is Arr,
                    items == value->Arr_0,
                    em == event.deep_view(),
                    i <= items@.len(),
                    out@.len() == i,
                    im == arr_model(items@),
                    im.len() == items@.len(),
                    forall|k: int| 0 <= k < items@.len() ==> im[k] == items@[k].deep_view(),
                    spec_render_payload_items(im, em).len() == im.len(),
                    forall|k: int| 0 <= k < im.len() ==> spec_render_payload_items(im, em)[k]
                        == spec_render_payload(im[k], em),
                    forall|k: int| 0 <= k < i ==> (#[trigger] out@[k]).deep_view()
                        == spec_render_payload_items(im, em)[k],
                decreases items@.len() - i,
            {
                let v = render_payload_template(&items[i], event);
                out.push(v);
                i = i + 1;
            }
            proof {
                lemma_arr_model(out@);
                assert(arr_model(out@) =~= spec_render_payload_items(im, em));
            }
            JsonValue::Arr(out)
        },
        other => clone_value(other),
    }
}

/// The default message text: the whole event rendered as JSON.
pub open spec fn spec_default_text(event: Seq<(Seq<char>, JsonModel)>) -> Seq<char> {
    "Event: "@ + json_text(JsonModel::Obj(event))
}

/// The default message text for an event.
fn default_text(event: &Event) -> (r: String)
    ensures
        r@ == spec_default_text(event.deep_view()),
{
    let whole = event.as_value();
    concat_str("Event: ", json_display(&whole).as_str())
}

/// The message-service payload: the rendered `text` template, with the
/// optional `channel` and `username` settings echoed.
pub open spec fn spec_build_slack(
    event: Seq<(Seq<char>, JsonModel)>,
    cfg: Seq<(Seq<char>, JsonModel)>,
) -> JsonModel {
    let text = spec_render_template(spec_obj_get(cfg, "text"@), event, spec_default_text(event));
    let base = seq![("text"@, JsonModel::Str(text))];
    let with_channel = match spec_get_opt_string(cfg, "channel"@) {
        Some(c) => base.push(("channel"@, JsonModel::Str(c))),
        None => base,
    };
    JsonModel::Obj(
        match spec_get_opt_string(cfg, "username"@) {
            Some(u) => with_channel.push(("username"@, JsonModel::Str(u))),
            None => with_channel,
        },
    )
}

/// Build the message-service payload.
pub fn build_slack_payload(event: &Event, config: &Vec<(String, JsonValue)>) -> (r: Result<
    JsonValue,
    NotificationError,
>)
    ensures
        r is Ok,
        r->Ok_0.deep_view() == spec_build_slack(event.deep_view(), obj_model(config@)),
{
    let dflt = default_text(event);
    let text = render_template(obj_get(config, "text"), event, dflt.as_str());
    let mut fields: Vec<(String, JsonValue)> = Vec::new();
    fields.push(("text".to_owned(), JsonValue::Str(text)));
    match get_opt_string(config, "channel") {
        Some(c) => {
            fields.push(("channel".to_owned(), JsonValue::Str(c)));
        },
        None => {},
    }
    match get_opt_string(config, "username") {
        Some(u) => {
            fields.push(("username".to_owned(), JsonValue::Str(u)));
        },
        None => {},
    }
    proof {
        lemma_obj_model(fields@);
        assert(obj_model(fields@) =~= spec_build_slack(event.deep_view(), obj_model(config@))
            ->Obj_0);
    }
    Ok(JsonValue::Obj(fields))
}

/// The chat-service payload: the rendered `content` template, with the
/// optional `username` setting echoed.
pub open spec fn spec_build_discord(
    event: Seq<(Seq<char>, JsonModel)>,
    cfg: Seq<(Seq<char>, JsonModel)>,
) -> JsonModel {
    let content = spec_render_template(
        spec_obj_get(cfg, "content"@),
        event,
        spec_default_text(event),
    );
    let base = seq![("content"@, JsonModel::Str(content))];
    JsonModel::Obj(
        match spec_get_opt_string(cfg, "username"@) {
            Some(u) => base.push(("username"@, JsonModel::Str(u))),
            None => base,
        },
    )
}

/// Build the chat-service payload.
pub fn build_discord_payload(event: &Event, config: &Vec<(String, JsonValue)>) -> (r: Result<
    JsonValue,
    NotificationError,
>)
    ensures
        r is Ok,
        r->Ok_0.deep_view() == spec_build_discord(event.deep_view(), obj_model(config@)),
{
    let dflt = default_text(event);
    let content = render_template(obj_get(config, "content"), event, dflt.as_str());
    let mut fields: Vec<(String, JsonValue)> = Vec::new();
    fields.push(("content".to_owned(), JsonValue::Str(content)));
    match get_opt_string(config, "username") {
        Some(u) => {
            fields.push(("username".to_owned(), JsonValue::Str(u)));
        },
        None => {},
    }
    proof {
        lemma_obj_model(fields@);
        assert(obj_model(fields@) =~= spec_build_discord(event.deep_view(), obj_model(config@))
            ->Obj_0);
    }
    Ok(JsonValue::Obj(fields))
}

/// The generic JSON payload: a configured `payload` value rendered against
/// the event, or the whole event when none is configured.
pub open spec fn spec_build_json(
    event: Seq<(Seq<char>, JsonModel)>,
    cfg: Seq<(Seq<char>, JsonModel)>,
) -> JsonModel {
    match spec_obj_get(cfg, "payload"@) {
        Some(v) => spec_render_payload(v, event),
        None => JsonModel::Obj(event),
    }
}

/// Build the generic JSON payload.
pub fn build_json_payload(event: &Event, config: &Vec<(String, JsonValue)>) -> (r: Result<
    JsonValue,
    NotificationError,
>)
    ensures
        r is Ok,
        r->Ok_0.deep_view() == spec_build_json(event.deep_view(), obj_model(config@)),
{
    match obj_get(config, "payload") {
        Some(custom) => Ok(render_payload_template(custom, event)),
        None => Ok(event.as_value()),
    }
}

/// Build the webhook payload for a payload type: the message-service,
/// chat-service or generic shape, or a configuration error naming an
/// unknown type.
pub fn build_payload(
    payload_type: &str,
    event: &Event,
    config: &Vec<(String, JsonValue)>,
) -> (r: Result<JsonValue, NotificationError>)
    ensures
        payload_type@ == "slack"@ ==> r is Ok && r->Ok_0.deep_view() == spec_build_slack(
            event.deep_view(),
            obj_model(config@),
        ),
        payload_type@ == "discord"@ ==> r is Ok && r->Ok_0.deep_view() == spec_build_discord(
            event.deep_view(),
            obj_model(config@),
        ),
        payload_type@ == "json"@ ==> r is Ok && r->Ok_0.deep_view() == spec_build_json(
            event.deep_view(),
            obj_model(config@),
        ),
        !(payload_type@ == "slack"@ || payload_type@ == "discord"@ || payload_type@ == "json"@)
            ==> r is Err && r->Err_0 is InvalidConfig && r->Err_0->InvalidConfig_0@
            == "Unknown webhook type: "@ + payload_type@,
{
    proof {
        reveal_strlit("slack");
        reveal_strlit("discord");
        reveal_strlit("json");
        assert("slack"@.len() == 5);
        assert("discord"@.len() == 7);
        assert("json"@.len() == 4);
    }
    if str_eq(payload_type, "slack") {
        build_slack_payload(event, config)
    } else if str_eq(payload_type, "discord") {
        build_discord_payload(event, config)
    } else if str_eq(payload_type, "json") {
        build_json_payload(event, config)
    } else {
        Err(NotificationError::InvalidConfig(concat_str("Unknown webhook type: ", payload_type)))
    }
}

/// Everything the webhook backend's HTTP call needs.
#[derive(Debug)]
pub struct WebhookRequest {
    pub url: String,
    pub payload: JsonValue,
}

/// The webhook backend.
#[derive(Debug)]
pub struct WebhookHandler;

impl WebhookHandler {
    pub fn handler_type(&self) -> (r: &str)
        ensures
            r@ == "webhook"@,
    {
        "webhook"
    }

    /// Decide the webhook request for an event: the `url` setting is
    /// required, the payload shape follows the `type` setting (`json` by
    /// default).
    pub fn prepare(&self, event: &Event, config: &Vec<(String, JsonValue)>) -> (r: Result<
        WebhookRequest,
        NotificationError,
    >)
        ensures
            ({
                let cfg = obj_model(config@);
                let url = spec_get_opt_string(cfg, "url"@);
                let ptype = spec_get_string(cfg, "type"@, "json"@);
                &&& url is None ==> r is Err && r->Err_0 is InvalidConfig
                    && r->Err_0->InvalidConfig_0@
                    == "Webhook handler requires 'url' configuration"@
                &&& url is Some && ptype == "slack"@ ==> r is Ok && r->Ok_0.url@ == url->0
                    && r->Ok_0.payload.deep_view() == spec_build_slack(event.deep_view(), cfg)
                &&& url is Some && ptype == "discord"@ ==> r is Ok && r->Ok_0.url@ == url->0
                    && r->Ok_0.payload.deep_view() == spec_build_discord(event.deep_view(), cfg)
                &&& url is Some && ptype == "json"@ ==> r is Ok && r->Ok_0.url@ == url->0
                    && r->Ok_0.payload.deep_view() == spec_build_json(event.deep_view(), cfg)
                &&& url is Some && !(ptype == "slack"@ || ptype == "discord"@ || ptype
                    == "json"@) ==> r is Err && r->Err_0 is InvalidConfig
                    && r->Err_0->InvalidConfig_0@ == "Unknown webhook type: "@ + ptype
            }),
    {
        let url = match get_opt_string(config, "url") {
            Some(u) => u,
            None => {
                return Err(NotificationError::InvalidConfig(
                    "Webhook handler requires 'url' configuration".to_owned(),
                ));
            },
        };
        let payload_type = get_string(config, "type", "json");
        match build_payload(payload_type.as_str(), event, config) {
            Ok(payload) => Ok(WebhookRequest { url, payload }),
            Err(e) => Err(e),
        }
    }
}

/// Everything the email backend's SMTP call needs.
#[derive(Debug)]
pub struct EmailRequest {
    pub from: String,
    pub to: String,
    pub subject: String,
    pub body: String,
    pub smtp_server: String,
    pub smtp_port: u16,
    pub username: Option<String>,
    pub password: Option<String>,
}

/// The email backend.
#[derive(Debug)]
pub struct EmailHandler;

impl EmailHandler {
    pub fn handler_type(&self) -> (r: &str)
        ensures
            r@ == "email"@,
    {
        "email"
    }

    /// Decide the email for an event: `to`, `from` and `smtp_server` are
    /// required in that order; the port defaults to 25; subject and body
    /// are rendered templates.
    pub fn prepare(&self, event: &Event, config: &Vec<(String, JsonValue)>) -> (r: Result<
        EmailRequest,
        NotificationError,
    >)
        ensures
            ({
                let cfg = obj_model(config@);
                let to = spec_get_opt_string(cfg, "to"@);
                let from = spec_get_opt_string(cfg, "from"@);
                let server = spec_get_opt_string(cfg, "smtp_server"@);
                &&& to is None ==> r is Err && r->Err_0 is InvalidConfig
                    && r->Err_0->InvalidConfig_0@ == "Email handler requires 'to' configuration"@
                &&& to is Some && from is None ==> r is Err && r->Err_0 is InvalidConfig
                    && r->Err_0->InvalidConfig_0@
                    == "Email handler requires 'from' configuration"@
                &&& to is Some && from is Some && server is None ==> r is Err && r->Err_0
                    is InvalidConfig && r->Err_0->InvalidConfig_0@
                    == "Email handler requires 'smtp_server' configuration"@
                &&& to is Some && from is Some && server is Some ==> r is Ok && ({
                    let q = r->Ok_0;
                    &&& q.to@ == to->0
                    &&& q.from@ == from->0
                    &&& q.smtp_server@ == server->0
                    &&& q.smtp_port == spec_get_u64(cfg, "smtp_port"@, 25) % 0x1_0000
                    &&& q.subject@ == spec_render_template(
                        spec_obj_get(cfg, "subject"@),
                        event.deep_view(),
                        "Notification"@,
                    )
                    &&& q.body@ == spec_render_template(
                        spec_obj_get(cfg, "body"@),
                        event.deep_view(),
                        spec_default_text(event.deep_view()),
                    )
                    &&& q.username is Some <==> spec_get_opt_string(cfg, "username"@) is Some
                    &&& q.username is Some ==> q.username->0@ == spec_get_opt_string(
                        cfg,
                        "username"@,
                    )->0
                    &&& q.password is Some <==> spec_get_opt_string(cfg, "password"@) is Some
                    &&& q.password is Some ==> q.password->0@ == spec_get_opt_string(
                        cfg,
                        "password"@,
                    )->0
                })
            }),
    {
        let to = match get_opt_string(config, "to") {
            Some(v) => v,
            None => {
                return Err(NotificationError::InvalidConfig(
                    "Email handler requires 'to' configuration".to_owned(),
                ));
            },
        };
        let from = match get_opt_string(config, "from") {
            Some(v) => v,
            None => {
                return Err(NotificationError::InvalidConfig(
                    "Email handler requires 'from' configuration".to_owned(),
                ));
            },
        };
        let smtp_server = match get_opt_string(config, "smtp_server") {
            Some(v) => v,
            None => {
                return Err(NotificationError::InvalidConfig(
                    "Email handler requires 'smtp_server' configuration".to_owned(),
                ));
            },
        };
        let smtp_port = get_u16(config, "smtp_port", 25);
        let subject = render_template(obj_get(config, "subject"), event, "Notification");
        let dflt = default_text(event);
        let body = render_template(obj_get(config, "body"), event, dflt.as_str());
        let username = get_opt_string(config, "username");
        let password = get_opt_string(config, "password");
        Ok(EmailRequest { from, to, subject, body, smtp_server, smtp_port, username, password })
    }

    /// Whether the SMTP transport should skip TLS: local test servers are
    /// addressed directly.
    pub fn use_plain_transport(&self, server: &str, port: u16) -> (r: bool)
        ensures
            r == (port == 1025 || server@ == "localhost"@ || server@ == "127.0.0.1"@),
    {
        port == 1025 || str_eq(server, "localhost") || str_eq(server, "127.0.0.1")
    }
}

/// Everything the messenger backend's process call needs.
#[derive(Debug)]
pub struct SignalRequest {
    pub cli_path: String,
    pub account: Option<String>,
    pub recipient: String,
    pub message: String,
}

/// The command-line messenger backend.
#[derive(Debug)]
pub struct SignalHandler;

impl SignalHandler {
    pub fn handler_type(&self) -> (r: &str)
        ensures
            r@ == "signal"@,
    {
        "signal"
    }

    /// Decide the messenger invocation for an event: `recipient` is
    /// required; the client path defaults to `signal-cli`.
    pub fn prepare(&self, event: &Event, config: &Vec<(String, JsonValue)>) -> (r: Result<
        SignalRequest,
        NotificationError,
    >)
        ensures
            ({
                let cfg = obj_model(config@);
                let recipient = spec_get_opt_string(cfg, "recipient"@);
                &&& recipient is None ==> r is Err && r->Err_0 is InvalidConfig
                    && r->Err_0->InvalidConfig_0@
                    == "Signal handler requires 'recipient' configuration"@
                &&& recipient is Some ==> r is Ok && ({
                    let q = r->Ok_0;
                    &&& q.recipient@ == recipient->0
                    &&& q.cli_path@ == spec_get_string(cfg, "signal_cli_path"@, "signal-cli"@)
                    &&& q.message@ == spec_render_template(
                        spec_obj_get(cfg, "message"@),
                        event.deep_view(),
                        spec_default_text(event.deep_view()),
                    )
                    &&& q.account is Some <==> spec_get_opt_string(cfg, "account"@) is Some
                    &&& q.account is Some ==> q.account->0@ == spec_get_opt_string(
                        cfg,
                        "account"@,
                    )->0
                })
            }),
    {
        let recipient = match get_opt_string(config, "recipient") {
            Some(v) => v,
            None => {
                return Err(NotificationError::InvalidConfig(
                    "Signal handler requires 'recipient' configuration".to_owned(),
                ));
            },
        };
        let dflt = default_text(event);
        let message = render_template(obj_get(config, "message"), event, dflt.as_str());
        let cli_path = get_string(config, "signal_cli_path", "signal-cli");
        let account = get_opt_string(config, "account");
        Ok(SignalRequest { cli_path, account, recipient, message })
    }
}

/// Urgency of a desktop notification.
#[derive(Debug, Clone, Copy, PartialEq, Eq, Structural)]
pub enum DesktopUrgency {
    Low,
    Normal,
    Critical,
}

/// The urgency named by a setting: `low` and `critical` are recognized,
/// anything else is normal.
pub open spec fn spec_urgency_of(s: Seq<char>) -> DesktopUrgency {
    if s == "low"@ {
        DesktopUrgency::Low
    } else if s == "critical"@ {
        DesktopUrgency::Critical
    } else {
        DesktopUrgency::Normal
    }
}

/// Everything the desktop backend's notification call needs.
#[derive(Debug)]
pub struct DesktopRequest {
    pub summary: String,
    pub body: String,
    pub timeout_ms: u32,
    pub urgency: DesktopUrgency,
}

/// The desktop notification backend.
#[derive(Debug)]
pub struct DesktopHandler;

impl DesktopHandler {
    pub fn handler_type(&self) -> (r: &str)
        ensures
            r@ == "desktop"@,
    {
        "desktop"
    }

    /// Decide the desktop notification for an event: summary, rendered
    /// body, timeout (5000 ms by default) and urgency.
    pub fn prepare(&self, event: &Event, config: &Vec<(String, JsonValue)>) -> (r: DesktopRequest)
        ensures
            ({
                let cfg = obj_model(config@);
                &&& r.summary@ == spec_get_string(cfg, "summary"@, "Notification"@)
                &&& r.body@ == spec_render_template(
                    spec_obj_get(cfg, "body"@),
                    event.deep_view(),
                    spec_default_text(event.deep_view()),
                )
                &&& r.timeout_ms == spec_get_u64(cfg, "timeout"@, 5000) % 0x1_0000_0000
                &&& r.urgency == spec_urgency_of(spec_get_string(cfg, "urgency"@, "normal"@))
            }),
    {
        let summary = get_string(config, "summary", "Notification");
        let dflt = default_text(event);
        let body = render_template(obj_get(config, "body"), event, dflt.as_str());
        let timeout_ms = get_u32(config, "timeout", 5000);
        let urgency_name = get_string(config, "urgency", "normal");
        let urgency = if str_eq(urgency_name.as_str(), "low") {
            DesktopUrgency::Low
        } else if str_eq(urgency_name.as_str(), "critical") {
            DesktopUrgency::Critical
        } else {
            DesktopUrgency::Normal
        };
        DesktopRequest { summary, body, timeout_ms, urgency }
    }
}

/// The string elements of an array of values, non-strings skipped.
pub open spec fn spec_str_list(items: Seq<JsonModel>) -> Seq<Seq<char>>
    decreases items.len(),
{
    if items.len() == 0 {
        Seq::empty()
    } else {
        (match items[0] {
            JsonModel::Str(s) => seq![s],
            _ => Seq::empty(),
        }) + spec_str_list(items.drop_first())
    }
}

/// Relies on rand::Rng::gen_range over thread_rng: an index drawn below
/// the bound. Nothing is assumed about which index comes back.
#[verifier::external_body]
fn random_below(n: usize) -> (r: usize)
    requires
        n > 0,
    ensures
        r < n,
{
    rand::Rng::gen_range(&mut rand::thread_rng(), 0..n)
}

/// The sound backend.
#[derive(Debug)]
pub struct SoundHandler;

impl SoundHandler {
    pub fn handler_type(&self) -> (r: &str)
        ensures
            r@ == "sound"@,
    {
        "sound"
    }
}

/// Decide which sound file to play: a single `file` setting wins; else
/// the `files` list must be an array with at least one string element,
/// of which the first is taken, or a random one when `random` is set.
pub fn get_sound_file(config: &Vec<(String, JsonValue)>) -> (r: Result<String, NotificationError>)
    ensures
        ({
            let cfg = obj_model(config@);
            let single = spec_get_opt_string(cfg, "file"@);
            let rnd = (match spec_obj_get(cfg, "random"@) {
                Some(JsonModel::Bool(b)) => b,
                _ => false,
            });
            &&& single is Some ==> r is Ok && r->Ok_0@ == single->0
            &&& single is None ==> match spec_obj_get(cfg, "files"@) {
                None => r is Err && r->Err_0 is InvalidConfig && r->Err_0->InvalidConfig_0@
                    == "Sound handler requires either 'file' or 'files' configuration"@,
                Some(v) => match v {
                    JsonModel::Arr(items) => {
                        let fl = spec_str_list(items);
                        &&& fl.len() == 0 ==> r is Err && r->Err_0 is InvalidConfig
                            && r->Err_0->InvalidConfig_0@
                            == "Sound handler 'files' array is empty"@
                        &&& fl.len() > 0 && !rnd ==> r is Ok && r->Ok_0@ == fl[0]
                        &&& fl.len() > 0 && rnd ==> r is Ok && (exists|i: int|
                            0 <= i < fl.len() && r->Ok_0@ == fl[i])
                    },
                    _ => r is Err && r->Err_0 is InvalidConfig && r->Err_0->InvalidConfig_0@
                        == "Sound handler 'files' must be an array of strings"@,
                },
            }
        }),
{
    match get_opt_string(config, "file") {
        Some(f) => {
            return Ok(f);
        },
        None => {},
    }
    let files_value = match obj_get(config, "files") {
        Some(v) => v,
        None => {
            return Err(NotificationError::InvalidConfig(
                "Sound handler requires either 'file' or 'files' configuration".to_owned(),
            ));
        },
    };
    let items = match files_value {
        JsonValue::Arr(items) => items,
        _ => {
            return Err(NotificationError::InvalidConfig(
                "Sound handler 'files' must be an array of strings".to_owned(),
            ));
        },
    };
    let ghost im = arr_model(items@);
    let ghost fl = spec_str_list(im);
    proof {
        lemma_arr_model(items@);
        assert(im.skip(0) =~= im);
        assert(Seq::<Seq<char>>::empty() + fl =~= fl);
    }
    let mut files: Vec<String> = Vec::new();
    let mut i: usize = 0;
    while i < items.len()
        invariant
            i <= items@.len(),
            im == arr_model(items@),
            fl == spec_str_list(im),
            im.len() == items@.len(),
            forall|k: int| 0 <= k < items@.len() ==> im[k] == items@[k].deep_view(),
            files@.map_values(|t: String| t@) + spec_str_list(im.skip(i as int)) == fl,
        decreases items@.len() - i,
    {
        proof {
            assert(im.skip(i as int)[0] == im[i as int]);
            assert(im.skip(i as int).drop_first() =~= im.skip(i + 1));
        }
        let ghost prev = files@.map_values(|t: String| t@);
        match &items[i] {
            JsonValue::Str(s) => {
                files.push(s.clone());
                proof {
                    assert(files@.map_values(|t: String| t@) =~= prev.push(im[i as int]->Str_0));
                    assert(prev + (seq![im[i as int]->Str_0] + spec_str_list(im.skip(i + 1)))
                        =~= files@.map_values(|t: String| t@) + spec_str_list(im.skip(i + 1)));
                }
            },
            _ => {
                proof {
                    assert(prev + spec_str_list(im.skip(i as int)) =~= prev + spec_str_list(
                        im.skip(i + 1),
                    ));
                }
            },
        }
        i = i + 1;
    }
    proof {
        assert(spec_str_list(im.skip(items@.len() as int)).len() == 0);
        assert(files@.map_values(|t: String| t@) + spec_str_list(im.skip(items@.len() as int))
            =~= files@.map_values(|t: String| t@));
    }
    if files.len() == 0 {
        return Err(NotificationError::InvalidConfig(
            "Sound handler 'files' array is empty".to_owned(),
        ));
    }
    let random = match obj_get(config, "random") {
        Some(v) => match v {
            JsonValue::Bool(b) => *b,
            _ => false,
        },
        None => false,
    };
    if random {
        let idx = random_below(files.len());
        let pick = files[idx].clone();
        proof {
            assert(pick@ == fl[idx as int]);
        }
        Ok(pick)
    } else {
        let first = files[0].clone();
        proof {
            assert(first@ == fl[0]);
        }
        Ok(first)
    }
}

} // verus!
