//! Languages the bot can answer in, and the split of a duration into the
//! parts a localized formatter renders.

use vstd::prelude::*;

verus! {

use crate::text::str_eq;

/// A locale the per-chat settings can select.
#[derive(Debug, Clone, Copy, PartialEq, Eq, Structural, Hash)]
pub enum Language {
    En,
    Ru,
}

/// The locale code of a language.
pub open spec fn spec_language_code(l: Language) -> Seq<char> {
    match l {
        Language::En => "en"@,
        Language::Ru => "ru"@,
    }
}

/// The language a locale code names, if any.
pub open spec fn spec_parse_language(s: Seq<char>) -> Option<Language> {
    if s == "en"@ {
        Some(Language::En)
    } else if s == "ru"@ {
        Some(Language::Ru)
    } else {
        None
    }
}

impl Language {
    /// Every language, in a fixed order.
    pub fn values() -> (r: Vec<Language>)
        ensures
            r@ == seq![Language::En, Language::Ru],
    {
        let mut v: Vec<Language> = Vec::new();
        v.push(Language::En);
        v.push(Language::Ru);
        proof {
            assert(v@ =~= seq![Language::En, Language::Ru]);
        }
        v
    }

    /// The locale code of this language.
    pub fn as_str(&self) -> (r: &'static str)
        ensures
            r@ == spec_language_code(*self),
    {
        match self {
            Language::En => "en",
            Language::Ru => "ru",
        }
    }

    /// Parses a locale code.
    pub fn from_str(s: &str) -> (r: Option<Language>)
        ensures
            r == spec_parse_language(s@),
    {
        if str_eq(s, "en") {
            Some(Language::En)
        } else if str_eq(s, "ru") {
            Some(Language::Ru)
        } else {
            None
        }
    }
}

impl Default for Language {
    /// The language assumed until a chat selects one.
    fn default() -> (r: Self)
        ensures
            r == Language::En,
    {
        Language::En
    }
}

/// Splits a number of seconds into whole hours, minutes and leftover seconds,
/// the three values a localized duration formatter prints.
pub fn duration_parts(secs: u64) -> (r: (u64, u64, u64))
    ensures
        r.0 == secs as int / 3600,
        r.1 == (secs as int % 3600) / 60,
        r.2 == secs as int % 3600 % 60,
        r.0 * 3600 + r.1 * 60 + r.2 == secs,
        r.1 < 60,
        r.2 < 60,
{
    let hours = secs / 3600;
    let minutes = secs % 3600 / 60;
    let seconds = secs % 3600 % 60;
    proof {
        assert(hours * 3600 + minutes * 60 + seconds == secs) by (nonlinear_arith)
            requires
                hours == secs as int / 3600,
                minutes == (secs as int % 3600) / 60,
                seconds == secs as int % 3600 % 60,
        ;
    }
    (hours, minutes, seconds)
}

} // verus!
