use captcha_bot::l10n::Language;
use captcha_bot::sched::{after_challenge_delete, after_notice_sent, CleanupStep};
use captcha_bot::text::{
    chars_of, contains_str, find_char, parse_u64_chars, split_chars, str_eq, string_from_chars,
    subvec, trim_chars, u64_to_string,
};

#[test]
fn str_eq_compares_characters() {
    assert!(str_eq("", ""));
    assert!(str_eq("abc", "abc"));
    assert!(!str_eq("abc", "abd"));
    assert!(!str_eq("abc", "ab"));
    assert!(str_eq("日本", "日本"));
}

#[test]
fn chars_round_trip_through_strings() {
    let cs = chars_of("keyboard");
    assert_eq!(string_from_chars(&cs), "keyboard");
    assert_eq!(subvec(&cs, 3, 8), vec!['b', 'o', 'a', 'r', 'd']);
}

#[test]
fn find_char_reports_first_hit() {
    let cs = chars_of("a:b:c");
    assert_eq!(find_char(&cs, ':'), Some(1));
    assert_eq!(find_char(&cs, 'z'), None);
}

#[test]
fn trim_strips_blank_ends() {
    let cs = chars_of("  \t hi there \r ");
    assert_eq!(string_from_chars(&trim_chars(&cs)), "hi there");
    let blank = chars_of("   ");
    assert!(trim_chars(&blank).is_empty());
}

#[test]
fn split_keeps_empty_pieces() {
    let cs = chars_of("a\n\nb\n");
    let pieces: Vec<String> =
        split_chars(&cs, '\n').iter().map(|p| string_from_chars(p)).collect();
    assert_eq!(pieces, vec!["a", "", "b", ""]);
}

#[test]
fn contains_finds_substrings() {
    let hay = chars_of("say {user_tag} loudly");
    assert!(contains_str(&hay, "{user_tag}"));
    assert!(contains_str(&hay, ""));
    assert!(!contains_str(&hay, "{user_tag}!"));
}

#[test]
fn parse_u64_handles_edges() {
    assert_eq!(parse_u64_chars(&chars_of("0")), Some(0));
    assert_eq!(parse_u64_chars(&chars_of("+120")), Some(120));
    assert_eq!(parse_u64_chars(&chars_of("18446744073709551615")), Some(u64::MAX));
    assert_eq!(parse_u64_chars(&chars_of("18446744073709551616")), None);
    assert_eq!(parse_u64_chars(&chars_of("")), None);
    assert_eq!(parse_u64_chars(&chars_of("+")), None);
    assert_eq!(parse_u64_chars(&chars_of("12a")), None);
    assert_eq!(parse_u64_chars(&chars_of("-5")), None);
}

#[test]
fn u64_renders_in_decimal() {
    assert_eq!(u64_to_string(0), "0");
    assert_eq!(u64_to_string(7), "7");
    assert_eq!(u64_to_string(105), "105");
    assert_eq!(u64_to_string(u64::MAX), "18446744073709551615");
}

#[test]
fn language_codes_round_trip() {
    assert_eq!(Language::values(), vec![Language::En, Language::Ru]);
    for lang in Language::values() {
        assert_eq!(Language::from_str(lang.as_str()), Some(lang));
    }
    assert_eq!(Language::from_str("fr"), None);
    assert_eq!(Language::default(), Language::En);
}

#[test]
fn cleanup_notice_follows_successful_delete_only() {
    // the expiry notice appears only when the challenge was still there
    assert_eq!(after_challenge_delete(true), CleanupStep::SendExpiryNotice);
    assert_eq!(after_challenge_delete(false), CleanupStep::Done);
    assert_eq!(after_notice_sent(true), CleanupStep::DeleteNotice);
    assert_eq!(after_notice_sent(false), CleanupStep::Done);
}
