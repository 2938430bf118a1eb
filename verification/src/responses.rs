//! Parsers for the short replies a dialogue collects: a language choice, a
//! channel-ban switch, and a welcome-message template.

use vstd::prelude::*;

verus! {

use crate::l10n::{Language, spec_parse_language};
use crate::text::{chars_of, contains_seq, contains_str, str_eq};

/// Error for a reply that names no known language.
#[derive(Debug, Clone, Copy, PartialEq, Eq, Structural)]
pub struct UnknownLanguageError;

/// A language chosen in a dialogue reply.
#[derive(Debug, Clone, Copy, PartialEq, Eq, Structural)]
pub struct LanguageResponse(pub Language);

impl LanguageResponse {
    /// Accepts exactly the locale codes of the known languages.
    pub fn from_str(s: &str) -> (r: Result<LanguageResponse, UnknownLanguageError>)
        ensures
            match spec_parse_language(s@) {
                Some(l) => r == Ok::<LanguageResponse, UnknownLanguageError>(LanguageResponse(l)),
                None => r == Err::<LanguageResponse, UnknownLanguageError>(UnknownLanguageError),
            },
    {
        match Language::from_str(s) {
            Some(l) => Ok(LanguageResponse(l)),
            None => Err(UnknownLanguageError),
        }
    }
}

/// `true` or `false`, as a reply string.
pub open spec fn spec_parse_bool(s: Seq<char>) -> Option<bool> {
    if s == "true"@ {
        Some(true)
    } else if s == "false"@ {
        Some(false)
    } else {
        None
    }
}

/// Whether channel posts should be banned, chosen in a dialogue reply.
#[derive(Debug, Clone, Copy, PartialEq, Eq, Structural)]
pub struct BanChannelsResponse(pub bool);

impl BanChannelsResponse {
    /// Accepts exactly `true` and `false`.
    pub fn from_str(s: &str) -> (r: Option<BanChannelsResponse>)
        ensures
            match spec_parse_bool(s@) {
                Some(b) => r == Some(BanChannelsResponse(b)),
                None => r is None,
            },
    {
        if str_eq(s, "true") {
            Some(BanChannelsResponse(true))
        } else if str_eq(s, "false") {
            Some(BanChannelsResponse(false))
        } else {
            None
        }
    }
}

/// The placeholder a welcome-message template must contain; it is replaced
/// with the new member's display tag when the welcome is rendered.
pub open spec fn user_tag_placeholder() -> Seq<char> {
    "{user_tag}"@
}

/// A welcome template holds the placeholder somewhere.
pub open spec fn valid_welcome_template(s: Seq<char>) -> bool {
    contains_seq(s, user_tag_placeholder())
}

/// Error for a welcome template without the user-tag placeholder.
#[derive(Debug, Clone, Copy, PartialEq, Eq, Structural)]
pub struct UserTagNotPresentError;

/// A validated welcome-message template.
#[derive(Debug, Clone)]
pub struct WelcomeMessageResponse(pub String);

impl WelcomeMessageResponse {
    /// Accepts exactly the strings that contain the user-tag placeholder.
    pub fn from_str(s: &str) -> (r: Result<WelcomeMessageResponse, UserTagNotPresentError>)
        ensures
            valid_welcome_template(s@) ==> (r matches Ok(w) && w.0@ == s@),
            !valid_welcome_template(s@) ==> (r matches Err(e) && e == UserTagNotPresentError),
    {
        let cs = chars_of(s);
        if contains_str(&cs, "{user_tag}") {
            Ok(WelcomeMessageResponse(s.to_owned()))
        } else {
            Err(UserTagNotPresentError)
        }
    }
}

} // verus!
