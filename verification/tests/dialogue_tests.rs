use captcha_bot::dialogue::{
    step, value_prompt_posted, DialogueEffect, DialogueEvent, DialogueState, SettingKind,
};
use captcha_bot::greet::welcome_text;
use captcha_bot::l10n::Language;
use captcha_bot::responses::{
    BanChannelsResponse, LanguageResponse, WelcomeMessageResponse,
};
use captcha_bot::utils::keyboard_rows;

const ADMIN: u64 = 11;
const OTHER: u64 = 22;

fn open_dialogue(prompt: i32) -> DialogueState {
    let (state, effect) = step(
        &DialogueState::Idle,
        &DialogueEvent::SettingsCommand { admin_id: ADMIN, prompt_message_id: prompt },
    );
    assert_eq!(effect, DialogueEffect::Nothing);
    state
}

#[test]
fn settings_command_opens_dialogue_for_admin() {
    let state = open_dialogue(900);
    assert_eq!(
        state,
        DialogueState::AwaitingKindSelection { admin_id: ADMIN, prompt_message_id: 900 }
    );
}

#[test]
fn stale_prompt_callback_changes_nothing() {
    // admin opened settings; a click against an old prompt id is rejected
    let state = open_dialogue(900);
    let (next, effect) = step(
        &state,
        &DialogueEvent::Callback {
            from_id: ADMIN,
            message_id: 899,
            data: "language".to_string(),
        },
    );
    assert_eq!(next, state);
    assert_eq!(effect, DialogueEffect::RejectStaleOrForeign);
}

#[test]
fn foreign_user_callback_commits_nothing() {
    let state = open_dialogue(900);
    let kind_state = value_prompt_posted(&state, SettingKind::Language, 901);
    let (next, effect) = step(
        &kind_state,
        &DialogueEvent::Callback { from_id: OTHER, message_id: 901, data: "ru".to_string() },
    );
    assert_eq!(next, kind_state);
    assert_eq!(effect, DialogueEffect::RejectStaleOrForeign);
}

#[test]
fn language_flow_commits_and_closes() {
    let state = open_dialogue(900);
    let (state, effect) = step(
        &state,
        &DialogueEvent::Callback {
            from_id: ADMIN,
            message_id: 900,
            data: "language".to_string(),
        },
    );
    assert_eq!(effect, DialogueEffect::ShowValuePrompt(SettingKind::Language));
    let state = value_prompt_posted(&state, SettingKind::Language, 901);
    assert_eq!(
        state,
        DialogueState::AwaitingValueSelection {
            admin_id: ADMIN,
            prompt_message_id: 901,
            kind: SettingKind::Language,
        }
    );
    let (state, effect) = step(
        &state,
        &DialogueEvent::Callback { from_id: ADMIN, message_id: 901, data: "ru".to_string() },
    );
    assert_eq!(state, DialogueState::Idle);
    assert_eq!(effect, DialogueEffect::CommitLanguage(Language::Ru));
}

#[test]
fn channel_policy_flow_commits_switch() {
    let state = open_dialogue(10);
    let (state, effect) = step(
        &state,
        &DialogueEvent::Callback {
            from_id: ADMIN,
            message_id: 10,
            data: "ban_channels".to_string(),
        },
    );
    assert_eq!(effect, DialogueEffect::ShowValuePrompt(SettingKind::ChannelPostPolicy));
    let state = value_prompt_posted(&state, SettingKind::ChannelPostPolicy, 11);
    let (state, effect) = step(
        &state,
        &DialogueEvent::Callback { from_id: ADMIN, message_id: 11, data: "true".to_string() },
    );
    assert_eq!(state, DialogueState::Idle);
    assert_eq!(effect, DialogueEffect::CommitChannelPolicy(true));
}

#[test]
fn welcome_text_rejected_without_placeholder() {
    let state = open_dialogue(30);
    let (state, effect) = step(
        &state,
        &DialogueEvent::Callback {
            from_id: ADMIN,
            message_id: 30,
            data: "greeting".to_string(),
        },
    );
    assert_eq!(effect, DialogueEffect::ShowValuePrompt(SettingKind::WelcomeMessage));
    let state = value_prompt_posted(&state, SettingKind::WelcomeMessage, 31);

    // "hi there!" has no placeholder: reported, dialogue stays open
    let (kept, effect) = step(
        &state,
        &DialogueEvent::TextMessage { from_id: ADMIN, text: "hi there!".to_string() },
    );
    assert_eq!(kept, state);
    assert_eq!(effect, DialogueEffect::ReportParseError);

    // "hi {user_tag}!" is accepted and commits
    let (closed, effect) = step(
        &kept,
        &DialogueEvent::TextMessage { from_id: ADMIN, text: "hi {user_tag}!".to_string() },
    );
    assert_eq!(closed, DialogueState::Idle);
    assert_eq!(effect, DialogueEffect::CommitWelcome("hi {user_tag}!".to_string()));
}

#[test]
fn unknown_kind_payload_is_reported() {
    let state = open_dialogue(70);
    let (kept, effect) = step(
        &state,
        &DialogueEvent::Callback {
            from_id: ADMIN,
            message_id: 70,
            data: "nonsense".to_string(),
        },
    );
    assert_eq!(kept, state);
    assert_eq!(effect, DialogueEffect::ReportParseError);
}

#[test]
fn idle_dialogue_ignores_callbacks_and_text() {
    let (state, effect) = step(
        &DialogueState::Idle,
        &DialogueEvent::Callback { from_id: ADMIN, message_id: 1, data: "en".to_string() },
    );
    assert_eq!(state, DialogueState::Idle);
    assert_eq!(effect, DialogueEffect::Nothing);
    let (state, effect) = step(
        &DialogueState::Idle,
        &DialogueEvent::TextMessage { from_id: ADMIN, text: "hello".to_string() },
    );
    assert_eq!(state, DialogueState::Idle);
    assert_eq!(effect, DialogueEffect::Nothing);
}

#[test]
fn cancel_only_for_tracked_admin() {
    let state = open_dialogue(40);
    let (kept, effect) = step(&state, &DialogueEvent::CancelCommand { from_id: OTHER });
    assert_eq!(kept, state);
    assert_eq!(effect, DialogueEffect::Nothing);
    let (closed, effect) = step(&kept, &DialogueEvent::CancelCommand { from_id: ADMIN });
    assert_eq!(closed, DialogueState::Idle);
    assert_eq!(effect, DialogueEffect::Cancelled);
}

#[test]
fn cancel_while_idle_is_a_no_op() {
    let (state, effect) = step(
        &DialogueState::Idle,
        &DialogueEvent::CancelCommand { from_id: ADMIN },
    );
    assert_eq!(state, DialogueState::Idle);
    assert_eq!(effect, DialogueEffect::Nothing);
}

#[test]
fn new_command_supersedes_open_dialogue() {
    let state = open_dialogue(50);
    let (state, _) = step(
        &state,
        &DialogueEvent::SettingsCommand { admin_id: OTHER, prompt_message_id: 60 },
    );
    assert_eq!(
        state,
        DialogueState::AwaitingKindSelection { admin_id: OTHER, prompt_message_id: 60 }
    );
}

#[test]
fn kind_payloads_round_trip() {
    for kind in [
        SettingKind::Language,
        SettingKind::ChannelPostPolicy,
        SettingKind::WelcomeMessage,
    ] {
        assert_eq!(SettingKind::from_str(kind.as_str()), Some(kind));
    }
    assert_eq!(SettingKind::from_str("nonsense"), None);
}

#[test]
fn response_parsers_accept_and_reject() {
    assert_eq!(LanguageResponse::from_str("en").unwrap().0, Language::En);
    assert_eq!(LanguageResponse::from_str("ru").unwrap().0, Language::Ru);
    assert!(LanguageResponse::from_str("de").is_err());
    assert_eq!(BanChannelsResponse::from_str("true").unwrap().0, true);
    assert_eq!(BanChannelsResponse::from_str("false").unwrap().0, false);
    assert!(BanChannelsResponse::from_str("yes").is_none());
    assert_eq!(
        WelcomeMessageResponse::from_str("yo {user_tag}").unwrap().0,
        "yo {user_tag}"
    );
    assert!(WelcomeMessageResponse::from_str("yo").is_err());
}

#[test]
fn welcome_text_substitutes_user_tag() {
    // would fail if the renderer handed its template back unchanged
    assert_eq!(welcome_text("hi {user_tag}!", "fallback", "Ada"), "hi Ada!");
    assert_eq!(
        welcome_text("{user_tag} and {user_tag}", "fallback", "Bo"),
        "Bo and Bo"
    );
    // a template naming an unknown variable does not render: the fallback is used
    assert_eq!(welcome_text("hi {other}!", "welcome Ada!", "Ada"), "welcome Ada!");
}

#[test]
fn keyboard_rows_spread_tokens() {
    let items: Vec<String> = (0..6).map(|i| format!("e{}", i)).collect();
    let rows = keyboard_rows(&items, 2);
    assert_eq!(rows.len(), 2);
    assert_eq!(rows[0], vec!["e0", "e1", "e2"]);
    assert_eq!(rows[1], vec!["e3", "e4", "e5"]);

    let items: Vec<String> = (0..5).map(|i| format!("e{}", i)).collect();
    let rows = keyboard_rows(&items, 2);
    assert_eq!(rows.len(), 2);
    assert_eq!(rows[0].len(), 3);
    assert_eq!(rows[1].len(), 2);

    let empty: Vec<String> = Vec::new();
    assert_eq!(keyboard_rows(&empty, 2).len(), 0);
}
