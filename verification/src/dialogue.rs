//! The per-chat settings dialogue: a finite-state machine that lets exactly
//! one admin at a time walk a multi-step configuration flow. Every
//! state-advancing event must come from the admin tracked by the state, and a
//! callback is honored only when it references the prompt message currently
//! tracked; anything else is rejected without a state change and without a
//! commit.
//!
//! The machine is pure: it decides, and hands the caller an effect to
//! perform. When a kind is selected, the caller posts the value prompt and
//! records its message id with `value_prompt_posted`; until then the old
//! prompt stays tracked.

use vstd::prelude::*;

verus! {

use crate::l10n::{Language, spec_parse_language};
use crate::responses::{spec_parse_bool, valid_welcome_template};
use crate::text::{chars_of, contains_str, str_eq};

/// The setting kinds the dialogue can change.
#[derive(Debug, Clone, Copy, PartialEq, Eq, Structural)]
pub enum SettingKind {
    Language,
    ChannelPostPolicy,
    WelcomeMessage,
}

/// The kind a callback payload names, if any.
pub open spec fn spec_parse_kind(s: Seq<char>) -> Option<SettingKind> {
    if s == "language"@ {
        Some(SettingKind::Language)
    } else if s == "ban_channels"@ {
        Some(SettingKind::ChannelPostPolicy)
    } else if s == "greeting"@ {
        Some(SettingKind::WelcomeMessage)
    } else {
        None
    }
}

/// The payload that names a kind on a prompt button.
pub open spec fn spec_kind_payload(k: SettingKind) -> Seq<char> {
    match k {
        SettingKind::Language => "language"@,
        SettingKind::ChannelPostPolicy => "ban_channels"@,
        SettingKind::WelcomeMessage => "greeting"@,
    }
}

impl SettingKind {
    /// Parses a callback payload.
    pub fn from_str(s: &str) -> (r: Option<SettingKind>)
        ensures
            r == spec_parse_kind(s@),
    {
        if str_eq(s, "language") {
            Some(SettingKind::Language)
        } else if str_eq(s, "ban_channels") {
            Some(SettingKind::ChannelPostPolicy)
        } else if str_eq(s, "greeting") {
            Some(SettingKind::WelcomeMessage)
        } else {
            None
        }
    }

    /// The payload put on this kind's prompt button.
    pub fn as_str(&self) -> (r: &'static str)
        ensures
            r@ == spec_kind_payload(*self),
    {
        match self {
            SettingKind::Language => "language",
            SettingKind::ChannelPostPolicy => "ban_channels",
            SettingKind::WelcomeMessage => "greeting",
        }
    }
}

/// The dialogue state of one chat. Outside `Idle`, the state tracks the admin
/// who opened the dialogue and the id of the prompt whose answer is awaited.
#[derive(Debug, Clone, Copy, PartialEq, Eq, Structural)]
pub enum DialogueState {
    Idle,
    AwaitingKindSelection { admin_id: u64, prompt_message_id: i32 },
    AwaitingValueSelection { admin_id: u64, prompt_message_id: i32, kind: SettingKind },
    AwaitingValueText { admin_id: u64, prompt_message_id: i32, kind: SettingKind },
}

impl DialogueState {
    /// Selectable values are awaited only for enumerable kinds; free text
    /// only for the welcome message.
    pub open spec fn wf(&self) -> bool {
        match *self {
            DialogueState::AwaitingValueSelection { kind, .. } => kind
                != SettingKind::WelcomeMessage,
            DialogueState::AwaitingValueText { kind, .. } => kind == SettingKind::WelcomeMessage,
            _ => true,
        }
    }
}

/// The admin tracked by a state, while one is.
pub open spec fn tracked_admin(s: DialogueState) -> Option<u64> {
    match s {
        DialogueState::Idle => None,
        DialogueState::AwaitingKindSelection { admin_id, .. } => Some(admin_id),
        DialogueState::AwaitingValueSelection { admin_id, .. } => Some(admin_id),
        DialogueState::AwaitingValueText { admin_id, .. } => Some(admin_id),
    }
}

/// The prompt message a callback must reference, while one is tracked.
pub open spec fn tracked_prompt(s: DialogueState) -> Option<i32> {
    match s {
        DialogueState::Idle => None,
        DialogueState::AwaitingKindSelection { prompt_message_id, .. } => Some(prompt_message_id),
        DialogueState::AwaitingValueSelection { prompt_message_id, .. } => Some(prompt_message_id),
        DialogueState::AwaitingValueText { prompt_message_id, .. } => Some(prompt_message_id),
    }
}

/// An inbound event. The caller attributes each event to the platform user
/// that caused it; for the settings command the caller has already confirmed
/// the sender is privileged and posted the kind prompt, whose id it hands in.
pub enum DialogueEvent {
    SettingsCommand { admin_id: u64, prompt_message_id: i32 },
    Callback { from_id: u64, message_id: i32, data: String },
    TextMessage { from_id: u64, text: String },
    CancelCommand { from_id: u64 },
}

/// The user an event is attributed to.
pub open spec fn event_actor(e: DialogueEvent) -> u64 {
    match e {
        DialogueEvent::SettingsCommand { admin_id, .. } => admin_id,
        DialogueEvent::Callback { from_id, .. } => from_id,
        DialogueEvent::TextMessage { from_id, .. } => from_id,
        DialogueEvent::CancelCommand { from_id } => from_id,
    }
}

/// The message a callback references (zero for other events, which reference
/// none).
pub open spec fn callback_message_id(e: DialogueEvent) -> i32 {
    match e {
        DialogueEvent::Callback { message_id, .. } => message_id,
        _ => 0,
    }
}

/// The text carried by a text-message event (empty for other events).
pub open spec fn event_text(e: DialogueEvent) -> Seq<char> {
    match e {
        DialogueEvent::TextMessage { text, .. } => text@,
        _ => Seq::empty(),
    }
}

/// What the caller must do after a step.
#[derive(Debug, Clone, PartialEq, Eq)]
pub enum DialogueEffect {
    /// Nothing; the event was ignored.
    Nothing,
    /// Tell the sender their press was stale or not theirs.
    RejectStaleOrForeign,
    /// Post the value prompt for the chosen kind, then record its message id
    /// with `value_prompt_posted`.
    ShowValuePrompt(SettingKind),
    /// Commit the chosen language, confirm, and clean up the prompt.
    CommitLanguage(Language),
    /// Commit the channel-post policy switch, confirm, and clean up.
    CommitChannelPolicy(bool),
    /// Commit the new welcome template, confirm, and clean up.
    CommitWelcome(String),
    /// Report a value that does not parse; the dialogue stays open for retry.
    ReportParseError,
    /// Confirm cancellation and delete the open prompt.
    Cancelled,
}

/// An effect that changes the chat's settings.
pub open spec fn commits(e: DialogueEffect) -> bool {
    e is CommitLanguage || e is CommitChannelPolicy || e is CommitWelcome
}

/// The transition relation of the dialogue.
pub open spec fn spec_step(s: DialogueState, e: DialogueEvent) -> (DialogueState, DialogueEffect) {
    match e {
        DialogueEvent::SettingsCommand { admin_id, prompt_message_id } => (
            DialogueState::AwaitingKindSelection { admin_id, prompt_message_id },
            DialogueEffect::Nothing,
        ),
        DialogueEvent::Callback { from_id, message_id, data } => match s {
            DialogueState::Idle => (s, DialogueEffect::Nothing),
            DialogueState::AwaitingKindSelection { admin_id, prompt_message_id } => {
                if from_id != admin_id || message_id != prompt_message_id {
                    (s, DialogueEffect::RejectStaleOrForeign)
                } else {
                    match spec_parse_kind(data@) {
                        Some(k) => (s, DialogueEffect::ShowValuePrompt(k)),
                        None => (s, DialogueEffect::ReportParseError),
                    }
                }
            },
            DialogueState::AwaitingValueSelection { admin_id, prompt_message_id, kind } => {
                if from_id != admin_id || message_id != prompt_message_id {
                    (s, DialogueEffect::RejectStaleOrForeign)
                } else {
                    match kind {
                        SettingKind::Language => match spec_parse_language(data@) {
                            Some(l) => (DialogueState::Idle, DialogueEffect::CommitLanguage(l)),
                            None => (s, DialogueEffect::ReportParseError),
                        },
                        SettingKind::ChannelPostPolicy => match spec_parse_bool(data@) {
                            Some(b) => (
                                DialogueState::Idle,
                                DialogueEffect::CommitChannelPolicy(b),
                            ),
                            None => (s, DialogueEffect::ReportParseError),
                        },
                        SettingKind::WelcomeMessage => (s, DialogueEffect::ReportParseError),
                    }
                }
            },
            DialogueState::AwaitingValueText { .. } => (s, DialogueEffect::RejectStaleOrForeign),
        },
        DialogueEvent::TextMessage { from_id, text } => match s {
            DialogueState::AwaitingValueText { admin_id, .. } => {
                if from_id != admin_id {
                    (s, DialogueEffect::Nothing)
                } else if valid_welcome_template(text@) {
                    (DialogueState::Idle, DialogueEffect::CommitWelcome(text))
                } else {
                    (s, DialogueEffect::ReportParseError)
                }
            },
            _ => (s, DialogueEffect::Nothing),
        },
        DialogueEvent::CancelCommand { from_id } => {
            if s is Idle {
                (s, DialogueEffect::Nothing)
            } else if tracked_admin(s) == Some(from_id) {
                (DialogueState::Idle, DialogueEffect::Cancelled)
            } else {
                (s, DialogueEffect::Nothing)
            }
        },
    }
}

/// Runs one event against the dialogue state.
pub fn step(state: &DialogueState, event: &DialogueEvent) -> (r: (DialogueState, DialogueEffect))
    requires
        state.wf(),
    ensures
        r == spec_step(*state, *event),
        r.0.wf(),
{
    match event {
        DialogueEvent::SettingsCommand { admin_id, prompt_message_id } => (
            DialogueState::AwaitingKindSelection {
                admin_id: *admin_id,
                prompt_message_id: *prompt_message_id,
            },
            DialogueEffect::Nothing,
        ),
        DialogueEvent::Callback { from_id, message_id, data } => match state {
            DialogueState::Idle => (*state, DialogueEffect::Nothing),
            DialogueState::AwaitingKindSelection { admin_id, prompt_message_id } => {
                if *from_id != *admin_id || *message_id != *prompt_message_id {
                    (*state, DialogueEffect::RejectStaleOrForeign)
                } else {
                    match SettingKind::from_str(data.as_str()) {
                        Some(k) => (*state, DialogueEffect::ShowValuePrompt(k)),
                        None => (*state, DialogueEffect::ReportParseError),
                    }
                }
            },
            DialogueState::AwaitingValueSelection { admin_id, prompt_message_id, kind } => {
                if *from_id != *admin_id || *message_id != *prompt_message_id {
                    (*state, DialogueEffect::RejectStaleOrForeign)
                } else {
                    match kind {
                        SettingKind::Language => match Language::from_str(data.as_str()) {
                            Some(l) => (DialogueState::Idle, DialogueEffect::CommitLanguage(l)),
                            None => (*state, DialogueEffect::ReportParseError),
                        },
                        SettingKind::ChannelPostPolicy => {
                            if str_eq(data.as_str(), "true") {
                                (DialogueState::Idle, DialogueEffect::CommitChannelPolicy(true))
                            } else if str_eq(data.as_str(), "false") {
                                (DialogueState::Idle, DialogueEffect::CommitChannelPolicy(false))
                            } else {
                                (*state, DialogueEffect::ReportParseError)
                            }
                        },
                        SettingKind::WelcomeMessage => (*state, DialogueEffect::ReportParseError),
                    }
                }
            },
            DialogueState::AwaitingValueText { .. } => (
                *state,
                DialogueEffect::RejectStaleOrForeign,
            ),
        },
        DialogueEvent::TextMessage { from_id, text } => match state {
            DialogueState::AwaitingValueText { admin_id, .. } => {
                if *from_id != *admin_id {
                    (*state, DialogueEffect::Nothing)
                } else {
                    let cs = chars_of(text.as_str());
                    if contains_str(&cs, "{user_tag}") {
                        (DialogueState::Idle, DialogueEffect::CommitWelcome(text.clone()))
                    } else {
                        (*state, DialogueEffect::ReportParseError)
                    }
                }
            },
            _ => (*state, DialogueEffect::Nothing),
        },
        DialogueEvent::CancelCommand { from_id } => match state {
            DialogueState::Idle => (*state, DialogueEffect::Nothing),
            DialogueState::AwaitingKindSelection { admin_id, .. } => {
                if *from_id == *admin_id {
                    (DialogueState::Idle, DialogueEffect::Cancelled)
                } else {
                    (*state, DialogueEffect::Nothing)
                }
            },
            DialogueState::AwaitingValueSelection { admin_id, .. } => {
                if *from_id == *admin_id {
                    (DialogueState::Idle, DialogueEffect::Cancelled)
                } else {
                    (*state, DialogueEffect::Nothing)
                }
            },
            DialogueState::AwaitingValueText { admin_id, .. } => {
                if *from_id == *admin_id {
                    (DialogueState::Idle, DialogueEffect::Cancelled)
                } else {
                    (*state, DialogueEffect::Nothing)
                }
            },
        },
    }
}

/// The state after the value prompt for a selected kind was posted: the
/// dialogue advances from kind selection to awaiting the value, tracking the
/// new prompt; in any other state the posting is ignored.
pub open spec fn spec_value_prompt_posted(
    s: DialogueState,
    kind: SettingKind,
    prompt_message_id: i32,
) -> DialogueState {
    match s {
        DialogueState::AwaitingKindSelection { admin_id, .. } => {
            if kind == SettingKind::WelcomeMessage {
                DialogueState::AwaitingValueText { admin_id, prompt_message_id, kind }
            } else {
                DialogueState::AwaitingValueSelection { admin_id, prompt_message_id, kind }
            }
        },
        _ => s,
    }
}

/// Records the id of the value prompt the caller posted after a
/// `ShowValuePrompt` effect.
pub fn value_prompt_posted(
    state: &DialogueState,
    kind: SettingKind,
    prompt_message_id: i32,
) -> (r: DialogueState)
    requires
        state.wf(),
    ensures
        r == spec_value_prompt_posted(*state, kind, prompt_message_id),
        r.wf(),
{
    match state {
        DialogueState::AwaitingKindSelection { admin_id, .. } => {
            match kind {
                SettingKind::WelcomeMessage => DialogueState::AwaitingValueText {
                    admin_id: *admin_id,
                    prompt_message_id,
                    kind,
                },
                _ => DialogueState::AwaitingValueSelection {
                    admin_id: *admin_id,
                    prompt_message_id,
                    kind,
                },
            }
        },
        _ => *state,
    }
}

/// Law (staleness): a callback that references any message other than the
/// tracked prompt never changes the state and never commits a setting.
pub proof fn lemma_stale_callback_rejected(s: DialogueState, e: DialogueEvent)
    requires
        e is Callback,
        tracked_prompt(s) != Some(callback_message_id(e)),
    ensures
        spec_step(s, e).0 == s,
        !commits(spec_step(s, e).1),
{
}

/// Law (authorization): an event attributed to anyone but the tracked admin
/// never changes the state and never commits a setting. (The settings
/// command, which opens a fresh dialogue for its sender, stands apart.)
pub proof fn lemma_foreign_actor_rejected(s: DialogueState, e: DialogueEvent)
    requires
        !(e is SettingsCommand),
        tracked_admin(s) != Some(event_actor(e)),
    ensures
        spec_step(s, e).0 == s,
        !commits(spec_step(s, e).1),
{
}

/// Law (welcome validation): while the tracked admin's welcome text is
/// awaited, a template without the user-tag placeholder is reported and the
/// dialogue stays where it is; one with it commits and closes the dialogue.
pub proof fn lemma_welcome_text_validation(s: DialogueState, e: DialogueEvent)
    requires
        s is AwaitingValueText,
        e is TextMessage,
        tracked_admin(s) == Some(event_actor(e)),
    ensures
        !valid_welcome_template(event_text(e)) ==> spec_step(s, e) == (
            s,
            DialogueEffect::ReportParseError,
        ),
        valid_welcome_template(event_text(e)) ==> spec_step(s, e).0 == DialogueState::Idle
            && spec_step(s, e).1 is CommitWelcome,
{
}

} // verus!
