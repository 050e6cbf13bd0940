//! Hook categories and the response state machine: the event's declared
//! name picks a category, and the category together with the collected
//! handler outcomes yields the response object.

use vstd::prelude::*;
use vstd::string::*;
use crate::event::{Event, spec_event_get_str};
use crate::json::{JsonModel, JsonValue, lemma_obj_model, obj_model};
use crate::strings::{concat_str, str_eq};

verus! {

/// Decision an interactive handler can take on a pending action.
#[derive(Debug, Clone, Copy, PartialEq, Eq, Structural)]
pub enum PermissionDecision {
    Allow,
    Deny,
    Ask,
}

/// Interactive response from a handler, with an optional reason.
#[derive(Debug, Clone, PartialEq)]
pub struct InteractiveResponse {
    pub decision: PermissionDecision,
    pub reason: Option<String>,
}

/// Model of `InteractiveResponse`.
pub struct InteractiveModel {
    pub decision: PermissionDecision,
    pub reason: Option<Seq<char>>,
}

/// A copy of an interactive response, with the same model.
fn clone_interactive(r: &InteractiveResponse) -> (c: InteractiveResponse)
    ensures
        c.deep_view() == r.deep_view(),
{
    InteractiveResponse {
        decision: r.decision,
        reason: match &r.reason {
            Some(s) => Some(s.clone()),
            None => None,
        },
    }
}

impl InteractiveResponse {
    pub open spec fn deep_view(&self) -> InteractiveModel {
        InteractiveModel {
            decision: self.decision,
            reason: match self.reason {
                Some(s) => Some(s@),
                None => None,
            },
        }
    }
}

/// Outcome of one handler execution.
#[derive(Debug, Clone, PartialEq)]
pub enum HandlerOutcome {
    /// The handler ran and succeeded.
    Success,
    /// The handler failed, with a message naming it.
    Error(String),
    /// The handler answered with a decision on the pending action.
    Interactive(InteractiveResponse),
}

/// Model of `HandlerOutcome`.
pub enum OutcomeModel {
    Success,
    Error(Seq<char>),
    Interactive(InteractiveModel),
}

impl HandlerOutcome {
    pub open spec fn deep_view(&self) -> OutcomeModel {
        match self {
            HandlerOutcome::Success => OutcomeModel::Success,
            HandlerOutcome::Error(m) => OutcomeModel::Error(m@),
            HandlerOutcome::Interactive(r) => OutcomeModel::Interactive(r.deep_view()),
        }
    }
}

/// The models of an outcome list.
pub open spec fn outcomes_model(os: Seq<HandlerOutcome>) -> Seq<OutcomeModel> {
    os.map_values(|o: HandlerOutcome| o.deep_view())
}

/// The empty response object that passive categories emit.
pub open spec fn spec_empty_response() -> JsonModel {
    JsonModel::Obj(Seq::empty())
}

/// An empty response object.
fn empty_response() -> (r: JsonValue)
    ensures
        r.deep_view() == spec_empty_response(),
{
    JsonValue::Obj(Vec::new())
}

/// The first interactive outcome in the list, if any; it alone is
/// authoritative for the decision.
pub open spec fn spec_first_interactive(os: Seq<OutcomeModel>) -> Option<InteractiveModel>
    decreases os.len(),
{
    if os.len() == 0 {
        None
    } else {
        match os[0] {
            OutcomeModel::Interactive(r) => Some(r),
            _ => spec_first_interactive(os.drop_first()),
        }
    }
}

/// The wire text of a decision.
pub open spec fn spec_decision_text(d: PermissionDecision) -> Seq<char> {
    match d {
        PermissionDecision::Allow => "allow"@,
        PermissionDecision::Deny => "deny"@,
        PermissionDecision::Ask => "ask"@,
    }
}

/// The response owed before a tool runs: the first interactive outcome's
/// decision and reason verbatim, or an allow with no reason when no
/// handler answered.
pub open spec fn spec_pre_tool_response(os: Seq<OutcomeModel>) -> JsonModel {
    let chosen = spec_first_interactive(os);
    let decision = match chosen {
        Some(r) => spec_decision_text(r.decision),
        None => "allow"@,
    };
    let reason = match chosen {
        Some(r) => r.reason,
        None => None,
    };
    let inner = match reason {
        Some(t) => seq![
            ("hookEventName"@, JsonModel::Str("PreToolUse"@)),
            ("permissionDecision"@, JsonModel::Str(decision)),
            ("permissionDecisionReason"@, JsonModel::Str(t)),
        ],
        None => seq![
            ("hookEventName"@, JsonModel::Str("PreToolUse"@)),
            ("permissionDecision"@, JsonModel::Str(decision)),
        ],
    };
    JsonModel::Obj(seq![("hookSpecificOutput"@, JsonModel::Obj(inner))])
}

/// Category of hooks that fire when work is about to stop.
#[derive(Debug)]
pub struct StopHook {
    pub hook_name: String,
}

impl StopHook {
    /// A stop-category hook remembering the event name it answers for.
    pub fn new(hook_name: &str) -> (h: StopHook)
        ensures
            h.hook_name@ == hook_name@,
    {
        StopHook { hook_name: hook_name.to_owned() }
    }

    pub fn hook_type(&self) -> (r: &str)
        ensures
            r@ == self.hook_name@,
    {
        self.hook_name.as_str()
    }

    /// Passive: outcomes are ignored and the response is empty.
    pub fn generate_response(&self, outcomes: &Vec<HandlerOutcome>) -> (r: JsonValue)
        ensures
            r.deep_view() == spec_empty_response(),
    {
        empty_response()
    }
}

/// Passive notification category.
#[derive(Debug)]
pub struct NotificationHook;

impl NotificationHook {
    pub fn hook_type(&self) -> (r: &str)
        ensures
            r@ == "Notification"@,
    {
        "Notification"
    }

    /// Passive: outcomes are ignored and the response is empty.
    pub fn generate_response(&self, outcomes: &Vec<HandlerOutcome>) -> (r: JsonValue)
        ensures
            r.deep_view() == spec_empty_response(),
    {
        empty_response()
    }
}

/// Category that fires before a tool runs; it may answer with a decision.
#[derive(Debug)]
pub struct PreToolUseHook {
    pub tool_name: String,
}

impl PreToolUseHook {
    /// Read the tool name from the event, `unknown` when absent.
    pub fn from_event(event: &Event) -> (r: Result<PreToolUseHook, String>)
        ensures
            r is Ok,
            r->Ok_0.tool_name@ == (match spec_event_get_str(event.deep_view(), "tool_name"@) {
                Some(s) => s,
                None => "unknown"@,
            }),
    {
        let tool_name = match event.get_str("tool_name") {
            Some(s) => s.to_owned(),
            None => "unknown".to_owned(),
        };
        Ok(PreToolUseHook { tool_name })
    }

    pub fn hook_type(&self) -> (r: &str)
        ensures
            r@ == "PreToolUse"@,
    {
        "PreToolUse"
    }

    /// The first interactive outcome decides; with none, allow with no
    /// reason.
    pub fn generate_response(&self, outcomes: &Vec<HandlerOutcome>) -> (r: JsonValue)
        ensures
            r.deep_view() == spec_pre_tool_response(outcomes_model(outcomes@)),
    {
        let ghost om = outcomes_model(outcomes@);
        proof {
            assert(om.skip(0) =~= om);
        }
        let mut chosen: Option<InteractiveResponse> = None;
        let mut i: usize = 0;
        while i < outcomes.len()
            invariant
                i <= outcomes@.len(),
                om == outcomes_model(outcomes@),
                om.len() == outcomes@.len(),
                match chosen {
                    Some(c) => spec_first_interactive(om) == Some(c.deep_view()),
                    None => spec_first_interactive(om) == spec_first_interactive(
                        om.skip(i as int),
                    ),
                },
            decreases outcomes@.len() - i,
        {
            proof {
                assert(om.skip(i as int)[0] == om[i as int]);
                assert(om.skip(i as int).drop_first() =~= om.skip(i + 1));
            }
            if chosen.is_none() {
                match &outcomes[i] {
                    HandlerOutcome::Interactive(resp) => {
                        chosen = Some(clone_interactive(resp));
                    },
                    _ => {},
                }
            }
            i = i + 1;
        }
        proof {
            assert(om.skip(om.len() as int).len() == 0);
        }
        let ghost chosen_m = spec_first_interactive(om);
        let decision: String;
        let reason: Option<String>;
        match chosen {
            Some(resp) => {
                decision = match resp.decision {
                    PermissionDecision::Allow => "allow".to_owned(),
                    PermissionDecision::Deny => "deny".to_owned(),
                    PermissionDecision::Ask => "ask".to_owned(),
                };
                reason = resp.reason;
            },
            None => {
                decision = "allow".to_owned();
                reason = None;
            },
        }
        let mut inner: Vec<(String, JsonValue)> = Vec::new();
        inner.push(("hookEventName".to_owned(), JsonValue::Str("PreToolUse".to_owned())));
        inner.push(("permissionDecision".to_owned(), JsonValue::Str(decision)));
        match reason {
            Some(t) => {
                inner.push(("permissionDecisionReason".to_owned(), JsonValue::Str(t)));
            },
            None => {},
        }
        proof {
            lemma_obj_model(inner@);
            assert(obj_model(inner@) =~= spec_pre_tool_response(om)->Obj_0[0].1->Obj_0);
        }
        let mut outer: Vec<(String, JsonValue)> = Vec::new();
        outer.push(("hookSpecificOutput".to_owned(), JsonValue::Obj(inner)));
        proof {
            lemma_obj_model(outer@);
            assert(obj_model(outer@) =~= spec_pre_tool_response(om)->Obj_0);
        }
        JsonValue::Obj(outer)
    }
}

/// Passive category that fires after a tool has run.
#[derive(Debug)]
pub struct PostToolUseHook;

impl PostToolUseHook {
    pub fn hook_type(&self) -> (r: &str)
        ensures
            r@ == "PostToolUse"@,
    {
        "PostToolUse"
    }

    /// Passive: outcomes are ignored and the response is empty.
    pub fn generate_response(&self, outcomes: &Vec<HandlerOutcome>) -> (r: JsonValue)
        ensures
            r.deep_view() == spec_empty_response(),
    {
        empty_response()
    }
}

/// Passive permission-request category.
#[derive(Debug)]
pub struct PermissionRequestHook;

impl PermissionRequestHook {
    pub fn hook_type(&self) -> (r: &str)
        ensures
            r@ == "PermissionRequest"@,
    {
        "PermissionRequest"
    }

    /// Passive: outcomes are ignored and the response is empty.
    pub fn generate_response(&self, outcomes: &Vec<HandlerOutcome>) -> (r: JsonValue)
        ensures
            r.deep_view() == spec_empty_response(),
    {
        empty_response()
    }
}

/// Passive prompt-submission category.
#[derive(Debug)]
pub struct UserPromptSubmitHook;

impl UserPromptSubmitHook {
    pub fn hook_type(&self) -> (r: &str)
        ensures
            r@ == "UserPromptSubmit"@,
    {
        "UserPromptSubmit"
    }

    /// Passive: outcomes are ignored and the response is empty.
    pub fn generate_response(&self, outcomes: &Vec<HandlerOutcome>) -> (r: JsonValue)
        ensures
            r.deep_view() == spec_empty_response(),
    {
        empty_response()
    }
}

/// Passive session-start category.
#[derive(Debug)]
pub struct SessionStartHook;

impl SessionStartHook {
    pub fn hook_type(&self) -> (r: &str)
        ensures
            r@ == "SessionStart"@,
    {
        "SessionStart"
    }

    /// Passive: outcomes are ignored and the response is empty.
    pub fn generate_response(&self, outcomes: &Vec<HandlerOutcome>) -> (r: JsonValue)
        ensures
            r.deep_view() == spec_empty_response(),
    {
        empty_response()
    }
}

/// Passive session-end category.
#[derive(Debug)]
pub struct SessionEndHook;

impl SessionEndHook {
    pub fn hook_type(&self) -> (r: &str)
        ensures
            r@ == "SessionEnd"@,
    {
        "SessionEnd"
    }

    /// Passive: outcomes are ignored and the response is empty.
    pub fn generate_response(&self, outcomes: &Vec<HandlerOutcome>) -> (r: JsonValue)
        ensures
            r.deep_view() == spec_empty_response(),
    {
        empty_response()
    }
}

/// Passive category that fires before history is compacted.
#[derive(Debug)]
pub struct PreCompactHook;

impl PreCompactHook {
    pub fn hook_type(&self) -> (r: &str)
        ensures
            r@ == "PreCompact"@,
    {
        "PreCompact"
    }

    /// Passive: outcomes are ignored and the response is empty.
    pub fn generate_response(&self, outcomes: &Vec<HandlerOutcome>) -> (r: JsonValue)
        ensures
            r.deep_view() == spec_empty_response(),
    {
        empty_response()
    }
}

/// The closed set of hook categories.
#[derive(Debug)]
pub enum Hook {
    Stop(StopHook),
    Notification(NotificationHook),
    PreToolUse(PreToolUseHook),
    PostToolUse(PostToolUseHook),
    PermissionRequest(PermissionRequestHook),
    UserPromptSubmit(UserPromptSubmitHook),
    SessionStart(SessionStartHook),
    SessionEnd(SessionEndHook),
    PreCompact(PreCompactHook),
}

/// The response a category owes for a list of outcomes: the pre-tool
/// category consults the first interactive outcome; every other category
/// is passive and emits the empty object.
pub open spec fn spec_hook_response(h: Hook, os: Seq<OutcomeModel>) -> JsonModel {
    match h {
        Hook::PreToolUse(_) => spec_pre_tool_response(os),
        _ => spec_empty_response(),
    }
}

impl Hook {
    /// The category's name: for the stop category, the event name it was
    /// built from.
    pub open spec fn spec_hook_type(&self) -> Seq<char> {
        match self {
            Hook::Stop(h) => h.hook_name@,
            Hook::Notification(_) => "Notification"@,
            Hook::PreToolUse(_) => "PreToolUse"@,
            Hook::PostToolUse(_) => "PostToolUse"@,
            Hook::PermissionRequest(_) => "PermissionRequest"@,
            Hook::UserPromptSubmit(_) => "UserPromptSubmit"@,
            Hook::SessionStart(_) => "SessionStart"@,
            Hook::SessionEnd(_) => "SessionEnd"@,
            Hook::PreCompact(_) => "PreCompact"@,
        }
    }

    pub fn hook_type(&self) -> (r: &str)
        ensures
            r@ == self.spec_hook_type(),
    {
        match self {
            Hook::Stop(h) => h.hook_type(),
            Hook::Notification(h) => h.hook_type(),
            Hook::PreToolUse(h) => h.hook_type(),
            Hook::PostToolUse(h) => h.hook_type(),
            Hook::PermissionRequest(h) => h.hook_type(),
            Hook::UserPromptSubmit(h) => h.hook_type(),
            Hook::SessionStart(h) => h.hook_type(),
            Hook::SessionEnd(h) => h.hook_type(),
            Hook::PreCompact(h) => h.hook_type(),
        }
    }

    /// The category-specific response for the collected outcomes.
    pub fn generate_response(&self, outcomes: &Vec<HandlerOutcome>) -> (r: JsonValue)
        ensures
            r.deep_view() == spec_hook_response(*self, outcomes_model(outcomes@)),
    {
        match self {
            Hook::Stop(h) => h.generate_response(outcomes),
            Hook::Notification(h) => h.generate_response(outcomes),
            Hook::PreToolUse(h) => h.generate_response(outcomes),
            Hook::PostToolUse(h) => h.generate_response(outcomes),
            Hook::PermissionRequest(h) => h.generate_response(outcomes),
            Hook::UserPromptSubmit(h) => h.generate_response(outcomes),
            Hook::SessionStart(h) => h.generate_response(outcomes),
            Hook::SessionEnd(h) => h.generate_response(outcomes),
            Hook::PreCompact(h) => h.generate_response(outcomes),
        }
    }
}

/// The event name a hook is derived from: the declared field, `unknown`
/// when absent.
pub open spec fn spec_hook_name(ev: Seq<(Seq<char>, JsonModel)>) -> Seq<char> {
    match spec_event_get_str(ev, "hook_event_name"@) {
        Some(s) => s,
        None => "unknown"@,
    }
}

/// Whether an event name belongs to a known category.
pub open spec fn spec_known_hook(name: Seq<char>) -> bool {
    ||| name == "Stop"@
    ||| name == "SubagentStop"@
    ||| name == "Notification"@
    ||| name == "PreToolUse"@
    ||| name == "PostToolUse"@
    ||| name == "PermissionRequest"@
    ||| name == "UserPromptSubmit"@
    ||| name == "SessionStart"@
    ||| name == "SessionEnd"@
    ||| name == "PreCompact"@
}

/// Derive the hook category from the event's declared name; an unknown
/// name is a failure for the whole invocation.
pub fn hook_from_event(event: &Event) -> (r: Result<Hook, String>)
    ensures
        ({
            let name = spec_hook_name(event.deep_view());
            &&& (name == "Stop"@ || name == "SubagentStop"@) ==> r is Ok && r->Ok_0 is Stop
                && r->Ok_0->Stop_0.hook_name@ == name
            &&& name == "Notification"@ ==> r is Ok && r->Ok_0 is Notification
            &&& name == "PreToolUse"@ ==> r is Ok && r->Ok_0 is PreToolUse
                && r->Ok_0->PreToolUse_0.tool_name@ == (match spec_event_get_str(
                event.deep_view(),
                "tool_name"@,
            ) {
                Some(s) => s,
                None => "unknown"@,
            })
            &&& name == "PostToolUse"@ ==> r is Ok && r->Ok_0 is PostToolUse
            &&& name == "PermissionRequest"@ ==> r is Ok && r->Ok_0 is PermissionRequest
            &&& name == "UserPromptSubmit"@ ==> r is Ok && r->Ok_0 is UserPromptSubmit
            &&& name == "SessionStart"@ ==> r is Ok && r->Ok_0 is SessionStart
            &&& name == "SessionEnd"@ ==> r is Ok && r->Ok_0 is SessionEnd
            &&& name == "PreCompact"@ ==> r is Ok && r->Ok_0 is PreCompact
            &&& !spec_known_hook(name) ==> r is Err && r->Err_0@ == "Unknown hook type: "@
                + name
        }),
{
    proof {
        reveal_strlit("Stop");
        reveal_strlit("SubagentStop");
        reveal_strlit("Notification");
        reveal_strlit("PreToolUse");
        reveal_strlit("PostToolUse");
        reveal_strlit("PermissionRequest");
        reveal_strlit("UserPromptSubmit");
        reveal_strlit("SessionStart");
        reveal_strlit("SessionEnd");
        reveal_strlit("PreCompact");
        assert("Stop"@.len() == 4);
        assert("SubagentStop"@.len() == 12);
        assert("Notification"@.len() == 12);
        assert("PreToolUse"@.len() == 10);
        assert("PostToolUse"@.len() == 11);
        assert("PermissionRequest"@.len() == 17);
        assert("UserPromptSubmit"@.len() == 16);
        assert("SessionStart"@.len() == 12);
        assert("SessionEnd"@.len() == 10);
        assert("PreCompact"@.len() == 10);
        assert("Notification"@[0] == 'N');
        assert("SubagentStop"@[1] == 'u');
        assert("SessionStart"@[1] == 'e');
        assert("SessionEnd"@[1] == 'e');
        assert("SessionEnd"@[7] == 'E');
        assert("SessionStart"@[7] == 'S');
        assert("PreToolUse"@[3] == 'T');
        assert("PreCompact"@[3] == 'C');
        assert("SessionEnd"@[0] == 'S');
        assert("PreToolUse"@[0] == 'P');
        assert("PreCompact"@[0] == 'P');
    }
    let name: &str = match event.get_str("hook_event_name") {
        Some(s) => s,
        None => "unknown",
    };
    if str_eq(name, "Stop") || str_eq(name, "SubagentStop") {
        Ok(Hook::Stop(StopHook::new(name)))
    } else if str_eq(name, "Notification") {
        Ok(Hook::Notification(NotificationHook))
    } else if str_eq(name, "PreToolUse") {
        match PreToolUseHook::from_event(event) {
            Ok(h) => Ok(Hook::PreToolUse(h)),
            Err(e) => Err(e),
        }
    } else if str_eq(name, "PostToolUse") {
        Ok(Hook::PostToolUse(PostToolUseHook))
    } else if str_eq(name, "PermissionRequest") {
        Ok(Hook::PermissionRequest(PermissionRequestHook))
    } else if str_eq(name, "UserPromptSubmit") {
        Ok(Hook::UserPromptSubmit(UserPromptSubmitHook))
    } else if str_eq(name, "SessionStart") {
        Ok(Hook::SessionStart(SessionStartHook))
    } else if str_eq(name, "SessionEnd") {
        Ok(Hook::SessionEnd(SessionEndHook))
    } else if str_eq(name, "PreCompact") {
        Ok(Hook::PreCompact(PreCompactHook))
    } else {
        Err(concat_str("Unknown hook type: ", name))
    }
}

/// The graceful-degrade response on a fatal error: the caller is told to
/// continue, with a warning message.
pub open spec fn spec_error_response(msg: Seq<char>) -> JsonModel {
    JsonModel::Obj(
        seq![
            ("continue"@, JsonModel::Bool(true)),
            ("systemMessage"@, JsonModel::Str("Boopifier warning: "@ + msg)),
        ],
    )
}

/// Build the graceful-degrade response carrying a warning message.
pub fn error_response(msg: &str) -> (r: JsonValue)
    ensures
        r.deep_view() == spec_error_response(msg@),
{
    let mut fields: Vec<(String, JsonValue)> = Vec::new();
    fields.push(("continue".to_owned(), JsonValue::Bool(true)));
    fields.push((
        "systemMessage".to_owned(),
        JsonValue::Str(concat_str("Boopifier warning: ", msg)),
    ));
    proof {
        lemma_obj_model(fields@);
        assert(obj_model(fields@) =~= spec_error_response(msg@)->Obj_0);
    }
    JsonValue::Obj(fields)
}

} // verus!
