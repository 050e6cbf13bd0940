//! A notification rules library: it decides which configured notification
//! handlers apply to an incoming event, resolves configuration overrides and
//! secret placeholders, plans the dispatch of the matching handlers, and
//! derives the response object owed for the event's category.

pub mod config;
pub mod dispatch;
pub mod error;
pub mod event;
pub mod handlers;
pub mod hooks;
pub mod json;
pub mod matcher;
pub mod secrets;
pub mod settings;
pub mod strings;

pub use config::{Config, HandlerConfig, MatchRules, MatchType, ProjectOverride};
pub use dispatch::{DispatchItem, DispatchJob, collect_outcomes, plan_dispatch};
pub use error::NotificationError;
pub use event::Event;
pub use handlers::{DesktopHandler, EmailHandler, SignalHandler, SoundHandler, WebhookHandler};
pub use hooks::{
    HandlerOutcome, Hook, InteractiveResponse, PermissionDecision, hook_from_event,
};
pub use json::JsonValue;
pub use settings::{Settings, is_debug_mode, set_debug_mode};
