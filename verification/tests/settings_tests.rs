use captcha_bot::cache::SettingsCache;
use captcha_bot::l10n::{duration_parts, Language};
use captcha_bot::policy::{evaluate_channel_post, PostVerdict};
use captcha_bot::settings::{
    apply_settings, ban_choice, BanChannels, RawGreeting, RawSetting, RawSettingError, Settings,
};

#[test]
fn parse_settings_text_in_line_order() {
    let text = "language: ru\ncaptcha_expire: 120\n\n  delete_entry_messages :  true  \n";
    let parsed = RawSetting::from_str(text).unwrap();
    assert_eq!(
        parsed,
        vec![
            RawSetting::Language(Language::Ru),
            RawSetting::CaptchaExpire(120),
            RawSetting::DeleteEntryMessages(true),
        ]
    );
}

#[test]
fn parse_settings_empty_text_is_empty() {
    assert_eq!(RawSetting::from_str("").unwrap(), vec![]);
    assert_eq!(RawSetting::from_str("  \n\n   \n").unwrap(), vec![]);
}

#[test]
fn parse_settings_rejects_line_without_colon() {
    match RawSetting::from_str("language en") {
        Err(RawSettingError::InvalidFormat(line)) => assert_eq!(line, "language en"),
        other => panic!("expected InvalidFormat, got {:?}", other),
    }
}

#[test]
fn parse_settings_rejects_unknown_key() {
    match RawSetting::from_str("colour: red") {
        Err(RawSettingError::UnknownSetting(key)) => assert_eq!(key, "colour"),
        other => panic!("expected UnknownSetting, got {:?}", other),
    }
}

#[test]
fn parse_settings_rejects_bad_values() {
    match RawSetting::from_str("language: de") {
        Err(RawSettingError::InvalidValue(key, value)) => {
            assert_eq!(key, "language");
            assert_eq!(value, "de");
        },
        other => panic!("expected InvalidValue, got {:?}", other),
    }
    assert!(matches!(
        RawSetting::from_str("ban_channels: maybe"),
        Err(RawSettingError::InvalidValue(_, _))
    ));
    // zero is rejected for expiry settings
    assert!(matches!(
        RawSetting::from_str("captcha_expire: 0"),
        Err(RawSettingError::InvalidValue(_, _))
    ));
    // overflow is rejected
    assert!(matches!(
        RawSetting::from_str("ignore_expire: 18446744073709551616"),
        Err(RawSettingError::InvalidValue(_, _))
    ));
    // a non-digit is rejected
    assert!(matches!(
        RawSetting::from_str("message_expire: 10s"),
        Err(RawSettingError::InvalidValue(_, _))
    ));
}

#[test]
fn parse_settings_accepts_plus_and_max() {
    let parsed = RawSetting::from_str("captcha_expire: +5").unwrap();
    assert_eq!(parsed, vec![RawSetting::CaptchaExpire(5)]);
    let parsed = RawSetting::from_str("ignore_expire: 18446744073709551615").unwrap();
    assert_eq!(parsed, vec![RawSetting::IgnoreExpire(u64::MAX)]);
}

#[test]
fn settings_render_matches_grammar_keys() {
    let settings = Settings::default();
    let text = RawSetting::to_string(&settings);
    assert_eq!(
        text,
        "language: <code>en</code>\nban_channels: <code>false</code>\ncaptcha_expire: <code>60</code>\nmessage_expire: <code>10</code>\nignore_expire: <code>300</code>\ndelete_entry_messages: <code>false</code>"
    );
}

#[test]
fn settings_render_reflects_changes() {
    let mut s = Settings::default();
    s.language = Language::Ru;
    s.ban_channels = Some(BanChannels::All);
    s.captcha_expire = 75;
    let text = RawSetting::to_string(&s);
    assert_eq!(
        text,
        "language: <code>ru</code>\nban_channels: <code>true</code>\ncaptcha_expire: <code>75</code>\nmessage_expire: <code>10</code>\nignore_expire: <code>300</code>\ndelete_entry_messages: <code>false</code>"
    );
}

#[test]
fn apply_settings_updates_fields_in_order() {
    let base = Settings::default();
    let raw = vec![
        RawSetting::Language(Language::Ru),
        RawSetting::CaptchaExpire(90),
        RawSetting::CaptchaExpire(120),
        RawSetting::BanChannels(true),
    ];
    let updated = apply_settings(&base, &raw, Some(-100123));
    assert_eq!(updated.language, Language::Ru);
    assert_eq!(updated.captcha_expire, 120);
    assert_eq!(updated.ban_channels, Some(BanChannels::AllExceptLinked(-100123)));
    assert_eq!(updated.message_expire, base.message_expire);
}

#[test]
fn ban_choice_follows_linked_channel() {
    assert_eq!(ban_choice(false, Some(5)), None);
    assert_eq!(ban_choice(true, None), Some(BanChannels::All));
    assert_eq!(ban_choice(true, Some(5)), Some(BanChannels::AllExceptLinked(5)));
}

#[test]
fn ban_channels_integer_form_round_trips() {
    assert_eq!(BanChannels::from(0), BanChannels::All);
    assert_eq!(BanChannels::from(-42), BanChannels::AllExceptLinked(-42));
    assert_eq!(BanChannels::All.as_i64(), 0);
    assert_eq!(BanChannels::AllExceptLinked(-42).as_i64(), -42);
}

#[test]
fn channel_post_policy_verdicts() {
    assert_eq!(evaluate_channel_post(&None, -7), PostVerdict::Allow);
    assert_eq!(evaluate_channel_post(&Some(BanChannels::All), -7), PostVerdict::Deny);
    assert_eq!(
        evaluate_channel_post(&Some(BanChannels::AllExceptLinked(-7)), -7),
        PostVerdict::Allow
    );
    assert_eq!(
        evaluate_channel_post(&Some(BanChannels::AllExceptLinked(-7)), -8),
        PostVerdict::Deny
    );
}

#[test]
fn raw_greeting_requires_placeholder() {
    let ok = RawGreeting::from_str("hi {user_tag}!").unwrap();
    assert_eq!(ok.0, "hi {user_tag}!");
    assert!(RawGreeting::from_str("hi there!").is_err());
}

#[test]
fn cache_reads_defaults_until_a_commit() {
    let mut cache = SettingsCache::new();
    assert_eq!(cache.get(5), Settings::default());
    assert_eq!(cache.get_ban_channels(5), None);
    assert_eq!(cache.lang(5), Language::En);
    assert_eq!(cache.get_greeting(5), None);

    let mut s = Settings::default();
    s.language = Language::Ru;
    s.ban_channels = Some(BanChannels::All);
    cache.set(5, s);
    assert_eq!(cache.get(5).language, Language::Ru);
    assert_eq!(cache.lang(5), Language::Ru);
    assert_eq!(cache.get_ban_channels(5), Some(BanChannels::All));
    // other chats stay untouched
    assert_eq!(cache.get(6), Settings::default());

    cache.set_greeting(5, "hello {user_tag}".to_string());
    assert_eq!(cache.get_greeting(5), Some("hello {user_tag}".to_string()));
    assert_eq!(cache.get_greeting(6), None);
}

#[test]
fn cache_preload_last_row_wins() {
    let mut a = Settings::default();
    a.captcha_expire = 30;
    let mut b = Settings::default();
    b.captcha_expire = 90;
    let cache = SettingsCache::preload(
        vec![(1, a), (2, Settings::default()), (1, b)],
        vec![(2, "hey {user_tag}".to_string())],
    );
    assert_eq!(cache.get(1).captcha_expire, 90);
    assert_eq!(cache.get(2).captcha_expire, 60);
    assert_eq!(cache.get_greeting(2), Some("hey {user_tag}".to_string()));
}

#[test]
fn duration_parts_splits_seconds() {
    assert_eq!(duration_parts(0), (0, 0, 0));
    assert_eq!(duration_parts(59), (0, 0, 59));
    assert_eq!(duration_parts(60), (0, 1, 0));
    assert_eq!(duration_parts(3600), (1, 0, 0));
    assert_eq!(duration_parts(3725), (1, 2, 5));
}

#[test]
fn settings_getters_return_second_counts() {
    let s = Settings::default();
    assert_eq!(s.captcha_expire(), 60);
    assert_eq!(s.message_expire(), 10);
}
