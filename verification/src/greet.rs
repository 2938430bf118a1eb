//! Rendering the welcome message: the chat's stored template with the new
//! member's display tag substituted for the `{user_tag}` placeholder.

use vstd::prelude::*;
use std::collections::HashMap;

verus! {

/// What strfmt makes of a template and a single `user_tag` variable: `Some`
/// rendering or a formatting failure, a function of the two strings alone.
pub uninterp spec fn strfmt_user_tag(template: Seq<char>, user_tag: Seq<char>) -> Option<
    Seq<char>,
>;

/// Relies on strfmt::strfmt with the one variable `user_tag`: the result
/// depends on the template and the variable alone, and is an error for a
/// template whose placeholders are malformed or name another variable.
#[verifier::external_body]
fn render_template(template: &str, user_tag: &str) -> (r: Option<String>)
    ensures
        match r {
            Some(s) => strfmt_user_tag(template@, user_tag@) == Some(s@),
            None => strfmt_user_tag(template@, user_tag@) is None,
        },
{
    let mut vars: HashMap<String, String> = HashMap::new();
    vars.insert("user_tag".to_string(), user_tag.to_string());
    strfmt::strfmt(template, &vars).ok()
}

/// The welcome text for a verified member: the template rendered with the
/// member's tag where it renders, else the fallback (the caller's localized
/// stock greeting).
pub fn welcome_text(template: &str, fallback: &str, user_tag: &str) -> (r: String)
    ensures
        r@ == match strfmt_user_tag(template@, user_tag@) {
            Some(s) => s,
            None => fallback@,
        },
{
    match render_template(template, user_tag) {
        Some(s) => s,
        None => fallback.to_owned(),
    }
}

} // verus!
