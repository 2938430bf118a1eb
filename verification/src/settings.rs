//! Per-chat moderation settings: the settings record, the line-oriented
//! `key: value` grammar that changes it, and the welcome-message template.

use vstd::prelude::*;

verus! {

use crate::l10n::{Language, spec_language_code, spec_parse_language};
use crate::responses::spec_parse_bool;
use crate::text::{
    chars_eq_str, chars_of, contains_str, find_char, lemma_find_props, parse_u64_chars,
    spec_find, spec_parse_nonzero_u64, spec_split, spec_trim, spec_u64_string, split_chars,
    string_from_chars, subvec, trim_chars, u64_to_string,
};
use crate::text::contains_seq;

/// How posts sent on behalf of channels are policed in a chat.
#[derive(Debug, Clone, Copy, PartialEq, Eq, Structural)]
pub enum BanChannels {
    /// Ban every posting channel.
    All,
    /// Ban every posting channel except the chat's own linked channel.
    AllExceptLinked(i64),
}

impl BanChannels {
    /// The stored integer form: zero for `All`, else the linked channel id.
    pub fn as_i64(&self) -> (r: i64)
        ensures
            *self == BanChannels::All ==> r == 0,
            forall|id: i64| *self == BanChannels::AllExceptLinked(id) ==> r == id,
    {
        match self {
            BanChannels::All => 0,
            BanChannels::AllExceptLinked(id) => *id,
        }
    }
}

impl From<i64> for BanChannels {
    /// Zero decodes as `All`; any other value names the linked channel.
    fn from(value: i64) -> (r: Self) {
        if value == 0 {
            BanChannels::All
        } else {
            BanChannels::AllExceptLinked(value)
        }
    }
}

impl vstd::std_specs::convert::FromSpecImpl<i64> for BanChannels {
    open spec fn obeys_from_spec() -> bool {
        true
    }

    open spec fn from_spec(value: i64) -> Self {
        if value == 0 {
            BanChannels::All
        } else {
            BanChannels::AllExceptLinked(value)
        }
    }
}

/// Per-chat configuration. Expiry fields are second counts and must stay
/// positive (`wf`).
#[derive(Debug, Clone, Copy, PartialEq, Eq, Structural)]
pub struct Settings {
    pub language: Language,
    pub ban_channels: Option<BanChannels>,
    pub captcha_expire: u64,
    pub message_expire: u64,
    pub ignore_expire: u64,
    pub delete_entry_messages: bool,
}

/// The configuration a chat has before an admin changes anything.
pub open spec fn spec_default_settings() -> Settings {
    Settings {
        language: Language::En,
        ban_channels: None,
        captcha_expire: 60,
        message_expire: 10,
        ignore_expire: 300,
        delete_entry_messages: false,
    }
}

impl Settings {
    /// The expiry fields hold positive second counts.
    pub open spec fn wf(&self) -> bool {
        self.captcha_expire > 0 && self.message_expire > 0 && self.ignore_expire > 0
    }

    /// Seconds an unanswered challenge stays valid.
    pub fn captcha_expire(&self) -> (r: u64)
        ensures
            r == self.captcha_expire,
    {
        self.captcha_expire
    }

    /// Seconds a transient service message stays before deletion.
    pub fn message_expire(&self) -> (r: u64)
        ensures
            r == self.message_expire,
    {
        self.message_expire
    }
}

impl Default for Settings {
    fn default() -> (r: Self)
        ensures
            r == spec_default_settings(),
            r.wf(),
    {
        Settings {
            language: Language::En,
            ban_channels: None,
            captcha_expire: 60,
            message_expire: 10,
            ignore_expire: 300,
            delete_entry_messages: false,
        }
    }
}

// ---------- the settings text grammar ----------

/// One `key: value` assignment parsed out of a settings text.
#[derive(Debug, Clone, Copy, PartialEq, Eq, Structural, Hash)]
pub enum RawSetting {
    Language(Language),
    BanChannels(bool),
    CaptchaExpire(u64),
    MessageExpire(u64),
    IgnoreExpire(u64),
    DeleteEntryMessages(bool),
}

impl RawSetting {
    /// Expiry assignments carry positive values.
    pub open spec fn wf(&self) -> bool {
        match *self {
            RawSetting::CaptchaExpire(v) => v > 0,
            RawSetting::MessageExpire(v) => v > 0,
            RawSetting::IgnoreExpire(v) => v > 0,
            _ => true,
        }
    }
}

/// Why a settings text was rejected.
#[derive(Debug, Clone)]
pub enum RawSettingError {
    /// A non-blank line without a `key: value` shape; holds the trimmed line.
    InvalidFormat(String),
    /// A key that names no setting; holds the key.
    UnknownSetting(String),
    /// A value that does not parse for its key; holds the key and the value.
    InvalidValue(String, String),
}

/// The error cases of the grammar, over character sequences.
pub enum SettingErr {
    InvalidFormat(Seq<char>),
    UnknownSetting(Seq<char>),
    InvalidValue(Seq<char>, Seq<char>),
}

/// The executable error carries the same strings as the abstract one.
pub open spec fn error_matches(e: RawSettingError, se: SettingErr) -> bool {
    match (e, se) {
        (RawSettingError::InvalidFormat(a), SettingErr::InvalidFormat(b)) => a@ == b,
        (RawSettingError::UnknownSetting(a), SettingErr::UnknownSetting(b)) => a@ == b,
        (RawSettingError::InvalidValue(k, v), SettingErr::InvalidValue(sk, sv)) => k@ == sk && v@
            == sv,
        _ => false,
    }
}

/// What one line of a settings text means.
pub enum LineMeaning {
    Blank,
    NoColon,
    Unknown(Seq<char>),
    BadValue(Seq<char>, Seq<char>),
    Setting(RawSetting),
}

/// The assignment a trimmed `key` / `value` pair makes, if any.
pub open spec fn spec_parse_value(key: Seq<char>, value: Seq<char>) -> LineMeaning {
    if key == "language"@ {
        match spec_parse_language(value) {
            Some(l) => LineMeaning::Setting(RawSetting::Language(l)),
            None => LineMeaning::BadValue(key, value),
        }
    } else if key == "ban_channels"@ {
        match spec_parse_bool(value) {
            Some(b) => LineMeaning::Setting(RawSetting::BanChannels(b)),
            None => LineMeaning::BadValue(key, value),
        }
    } else if key == "captcha_expire"@ {
        match spec_parse_nonzero_u64(value) {
            Some(v) => LineMeaning::Setting(RawSetting::CaptchaExpire(v)),
            None => LineMeaning::BadValue(key, value),
        }
    } else if key == "message_expire"@ {
        match spec_parse_nonzero_u64(value) {
            Some(v) => LineMeaning::Setting(RawSetting::MessageExpire(v)),
            None => LineMeaning::BadValue(key, value),
        }
    } else if key == "ignore_expire"@ {
        match spec_parse_nonzero_u64(value) {
            Some(v) => LineMeaning::Setting(RawSetting::IgnoreExpire(v)),
            None => LineMeaning::BadValue(key, value),
        }
    } else if key == "delete_entry_messages"@ {
        match spec_parse_bool(value) {
            Some(b) => LineMeaning::Setting(RawSetting::DeleteEntryMessages(b)),
            None => LineMeaning::BadValue(key, value),
        }
    } else {
        LineMeaning::Unknown(key)
    }
}

/// The meaning of one line: trim it, skip it when blank, else split it at the
/// first colon into a key and a value, both trimmed.
pub open spec fn spec_parse_line(line: Seq<char>) -> LineMeaning {
    let t = spec_trim(line);
    if t.len() == 0 {
        LineMeaning::Blank
    } else {
        match spec_find(t, ':') {
            None => LineMeaning::NoColon,
            Some(i) => spec_parse_value(
                spec_trim(t.subrange(0, i)),
                spec_trim(t.subrange(i + 1, t.len() as int)),
            ),
        }
    }
}

/// The assignments a sequence of lines makes, or its first error.
pub open spec fn spec_parse_lines(lines: Seq<Seq<char>>) -> Result<Seq<RawSetting>, SettingErr>
    decreases lines.len(),
{
    if lines.len() == 0 {
        Ok(Seq::empty())
    } else {
        match spec_parse_line(lines[0]) {
            LineMeaning::Blank => spec_parse_lines(lines.drop_first()),
            LineMeaning::NoColon => Err(SettingErr::InvalidFormat(spec_trim(lines[0]))),
            LineMeaning::Unknown(k) => Err(SettingErr::UnknownSetting(k)),
            LineMeaning::BadValue(k, v) => Err(SettingErr::InvalidValue(k, v)),
            LineMeaning::Setting(rs) => match spec_parse_lines(lines.drop_first()) {
                Ok(tail) => Ok(seq![rs] + tail),
                Err(e) => Err(e),
            },
        }
    }
}

/// The meaning of a whole settings text.
pub open spec fn spec_parse_settings(s: Seq<char>) -> Result<Seq<RawSetting>, SettingErr> {
    spec_parse_lines(spec_split(s, '\n'))
}

/// Every assignment a successful parse yields is well formed.
pub proof fn lemma_parsed_settings_wf(lines: Seq<Seq<char>>)
    requires
        spec_parse_lines(lines) is Ok,
    ensures
        forall|i: int|
            0 <= i < spec_parse_lines(lines)->Ok_0.len() ==> (
            #[trigger] spec_parse_lines(lines)->Ok_0[i]).wf(),
    decreases lines.len(),
{
    if lines.len() > 0 {
        match spec_parse_line(lines[0]) {
            LineMeaning::Blank => {
                lemma_parsed_settings_wf(lines.drop_first());
            },
            LineMeaning::Setting(rs) => {
                lemma_parsed_settings_wf(lines.drop_first());
                assert(rs.wf());
            },
            _ => {},
        }
    }
}

impl RawSetting {
    /// Parses a settings text: one `key: value` assignment per line, blank
    /// lines skipped; returns the assignments in line order, or the first
    /// error.
    pub fn from_str(s: &str) -> (r: Result<Vec<RawSetting>, RawSettingError>)
        ensures
            match r {
                Ok(v) => spec_parse_settings(s@) == Ok::<Seq<RawSetting>, SettingErr>(v@)
                    && forall|i: int| 0 <= i < v@.len() ==> (#[trigger] v@[i]).wf(),
                Err(e) => (spec_parse_settings(s@) matches Err(se) && error_matches(e, se)),
            },
    {
        let cs = chars_of(s);
        let lines = split_chars(&cs, '\n');
        let ghost lseq = spec_split(s@, '\n');
        let n = lines.len();
        let mut out: Vec<RawSetting> = Vec::new();
        let mut li: usize = 0;
        proof {
            assert(lseq.skip(0) =~= lseq);
            if spec_parse_lines(lseq) is Ok {
                assert(out@ + spec_parse_lines(lseq)->Ok_0 =~= spec_parse_lines(lseq)->Ok_0);
            }
        }
        while li < n
            invariant
                n == lines@.len(),
                li <= n,
                lines.deep_view() == lseq,
                spec_parse_settings(s@) == spec_parse_lines(lseq),
                spec_parse_lines(lseq) == (match spec_parse_lines(lseq.skip(li as int)) {
                    Ok(tail) => Ok::<Seq<RawSetting>, SettingErr>(out@ + tail),
                    Err(e) => Err::<Seq<RawSetting>, SettingErr>(e),
                }),
            decreases n - li,
        {
            let ghost suffix = lseq.skip(li as int);
            proof {
                assert(suffix[0] == lseq[li as int]);
                assert(suffix.drop_first() =~= lseq.skip(li as int + 1));
                assert(lines@[li as int].deep_view() == lseq[li as int]);
                assert(lines@[li as int]@ =~= lines@[li as int].deep_view());
            }
            let line = &lines[li];
            let t = trim_chars(line);
            let ghost tl = spec_trim(lseq[li as int]);
            if t.len() == 0 {
                li += 1;
                continue;
            }
            match find_char(&t, ':') {
                None => {
                    return Err(RawSettingError::InvalidFormat(string_from_chars(t.as_slice())));
                },
                Some(ci) => {
                    proof {
                        lemma_find_props(tl, ':');
                    }
                    let key = trim_chars(&subvec(&t, 0, ci));
                    let value = trim_chars(&subvec(&t, ci + 1, t.len()));
                    let parsed: RawSetting;
                    if chars_eq_str(&key, "language") {
                        if chars_eq_str(&value, "en") {
                            parsed = RawSetting::Language(Language::En);
                        } else if chars_eq_str(&value, "ru") {
                            parsed = RawSetting::Language(Language::Ru);
                        } else {
                            return Err(RawSettingError::InvalidValue(
                                string_from_chars(key.as_slice()),
                                string_from_chars(value.as_slice()),
                            ));
                        }
                    } else if chars_eq_str(&key, "ban_channels") {
                        if chars_eq_str(&value, "true") {
                            parsed = RawSetting::BanChannels(true);
                        } else if chars_eq_str(&value, "false") {
                            parsed = RawSetting::BanChannels(false);
                        } else {
                            return Err(RawSettingError::InvalidValue(
                                string_from_chars(key.as_slice()),
                                string_from_chars(value.as_slice()),
                            ));
                        }
                    } else if chars_eq_str(&key, "captcha_expire") {
                        match parse_u64_chars(&value) {
                            Some(v) if v > 0 => {
                                parsed = RawSetting::CaptchaExpire(v);
                            },
                            _ => {
                                return Err(RawSettingError::InvalidValue(
                                    string_from_chars(key.as_slice()),
                                    string_from_chars(value.as_slice()),
                                ));
                            },
                        }
                    } else if chars_eq_str(&key, "message_expire") {
                        match parse_u64_chars(&value) {
                            Some(v) if v > 0 => {
                                parsed = RawSetting::MessageExpire(v);
                            },
                            _ => {
                                return Err(RawSettingError::InvalidValue(
                                    string_from_chars(key.as_slice()),
                                    string_from_chars(value.as_slice()),
                                ));
                            },
                        }
                    } else if chars_eq_str(&key, "ignore_expire") {
                        match parse_u64_chars(&value) {
                            Some(v) if v > 0 => {
                                parsed = RawSetting::IgnoreExpire(v);
                            },
                            _ => {
                                return Err(RawSettingError::InvalidValue(
                                    string_from_chars(key.as_slice()),
                                    string_from_chars(value.as_slice()),
                                ));
                            },
                        }
                    } else if chars_eq_str(&key, "delete_entry_messages") {
                        if chars_eq_str(&value, "true") {
                            parsed = RawSetting::DeleteEntryMessages(true);
                        } else if chars_eq_str(&value, "false") {
                            parsed = RawSetting::DeleteEntryMessages(false);
                        } else {
                            return Err(RawSettingError::InvalidValue(
                                string_from_chars(key.as_slice()),
                                string_from_chars(value.as_slice()),
                            ));
                        }
                    } else {
                        return Err(RawSettingError::UnknownSetting(
                            string_from_chars(key.as_slice()),
                        ));
                    }
                    let ghost prev_out = out@;
                    out.push(parsed);
                    proof {
                        assert(spec_parse_line(lseq[li as int]) == LineMeaning::Setting(parsed));
                        match spec_parse_lines(lseq.skip(li as int + 1)) {
                            Ok(tail) => {
                                assert(prev_out + (seq![parsed] + tail) =~= out@ + tail);
                            },
                            Err(_) => {},
                        }
                    }
                },
            }
            li += 1;
        }
        proof {
            assert(lseq.skip(n as int) =~= Seq::<Seq<char>>::empty());
            assert(out@ + Seq::<RawSetting>::empty() =~= out@);
            lemma_parsed_settings_wf(lseq);
        }
        Ok(out)
    }
}

// ---------- rendering the current settings ----------

/// `true` or `false`.
pub open spec fn spec_bool_string(b: bool) -> Seq<char> {
    if b {
        "true"@
    } else {
        "false"@
    }
}

/// The text `RawSetting::to_string` renders for a settings record: one line
/// per setting, each value wrapped in a `<code>` span.
pub open spec fn spec_settings_text(s: Settings) -> Seq<char> {
    "language: <code>"@ + spec_language_code(s.language) + "</code>\nban_channels: <code>"@
        + spec_bool_string(s.ban_channels is Some) + "</code>\ncaptcha_expire: <code>"@
        + spec_u64_string(s.captcha_expire as nat) + "</code>\nmessage_expire: <code>"@
        + spec_u64_string(s.message_expire as nat) + "</code>\nignore_expire: <code>"@
        + spec_u64_string(s.ignore_expire as nat) + "</code>\ndelete_entry_messages: <code>"@
        + spec_bool_string(s.delete_entry_messages) + "</code>"@
}

fn bool_str(b: bool) -> (r: &'static str)
    ensures
        r@ == spec_bool_string(b),
{
    if b {
        "true"
    } else {
        "false"
    }
}

impl RawSetting {
    /// Renders the current settings in the shape the grammar reads back.
    pub fn to_string(settings: &Settings) -> (r: String)
        ensures
            r@ == spec_settings_text(*settings),
    {
        let mut r = String::new();
        r.append("language: <code>");
        r.append(settings.language.as_str());
        r.append("</code>\nban_channels: <code>");
        r.append(bool_str(settings.ban_channels.is_some()));
        r.append("</code>\ncaptcha_expire: <code>");
        let ce = u64_to_string(settings.captcha_expire);
        r.append(ce.as_str());
        r.append("</code>\nmessage_expire: <code>");
        let me = u64_to_string(settings.message_expire);
        r.append(me.as_str());
        r.append("</code>\nignore_expire: <code>");
        let ie = u64_to_string(settings.ignore_expire);
        r.append(ie.as_str());
        r.append("</code>\ndelete_entry_messages: <code>");
        r.append(bool_str(settings.delete_entry_messages));
        r.append("</code>");
        proof {
            assert(r@ =~= spec_settings_text(*settings));
        }
        r
    }
}

// ---------- applying assignments ----------

/// The channel policy an enable flag selects, given the chat's linked
/// channel, if it has one.
pub open spec fn spec_ban_choice(enable: bool, linked: Option<i64>) -> Option<BanChannels> {
    if enable {
        match linked {
            Some(id) => Some(BanChannels::AllExceptLinked(id)),
            None => Some(BanChannels::All),
        }
    } else {
        None
    }
}

/// Exec form of `spec_ban_choice`.
pub fn ban_choice(enable: bool, linked: Option<i64>) -> (r: Option<BanChannels>)
    ensures
        r == spec_ban_choice(enable, linked),
{
    if enable {
        match linked {
            Some(id) => Some(BanChannels::AllExceptLinked(id)),
            None => Some(BanChannels::All),
        }
    } else {
        None
    }
}

/// The record after one assignment.
pub open spec fn spec_apply(s: Settings, r: RawSetting, linked: Option<i64>) -> Settings {
    match r {
        RawSetting::Language(l) => Settings { language: l, ..s },
        RawSetting::BanChannels(b) => Settings { ban_channels: spec_ban_choice(b, linked), ..s },
        RawSetting::CaptchaExpire(v) => Settings { captcha_expire: v, ..s },
        RawSetting::MessageExpire(v) => Settings { message_expire: v, ..s },
        RawSetting::IgnoreExpire(v) => Settings { ignore_expire: v, ..s },
        RawSetting::DeleteEntryMessages(b) => Settings { delete_entry_messages: b, ..s },
    }
}

/// The record after a sequence of assignments, applied in order.
pub open spec fn spec_apply_all(s: Settings, rs: Seq<RawSetting>, linked: Option<i64>) -> Settings
    decreases rs.len(),
{
    if rs.len() == 0 {
        s
    } else {
        spec_apply_all(spec_apply(s, rs[0], linked), rs.drop_first(), linked)
    }
}

/// Applies parsed assignments to a settings record, in order. `linked` is the
/// chat's linked channel id, used when an assignment enables channel banning.
pub fn apply_settings(settings: &Settings, raw: &Vec<RawSetting>, linked: Option<i64>) -> (r:
    Settings)
    ensures
        r == spec_apply_all(*settings, raw@, linked),
        settings.wf() && (forall|i: int| 0 <= i < raw@.len() ==> (#[trigger] raw@[i]).wf())
            ==> r.wf(),
{
    let mut cur = settings.clone();
    let n = raw.len();
    let mut i: usize = 0;
    proof {
        assert(raw@.skip(0) =~= raw@);
    }
    while i < n
        invariant
            n == raw@.len(),
            i <= n,
            spec_apply_all(*settings, raw@, linked) == spec_apply_all(
                cur,
                raw@.skip(i as int),
                linked,
            ),
            settings.wf() && (forall|j: int| 0 <= j < raw@.len() ==> (#[trigger] raw@[j]).wf())
                ==> cur.wf(),
        decreases n - i,
    {
        let ghost suffix = raw@.skip(i as int);
        proof {
            assert(suffix[0] == raw@[i as int]);
            assert(suffix.drop_first() =~= raw@.skip(i as int + 1));
        }
        match raw[i] {
            RawSetting::Language(l) => {
                cur = Settings { language: l, ..cur };
            },
            RawSetting::BanChannels(b) => {
                cur = Settings { ban_channels: ban_choice(b, linked), ..cur };
            },
            RawSetting::CaptchaExpire(v) => {
                cur = Settings { captcha_expire: v, ..cur };
            },
            RawSetting::MessageExpire(v) => {
                cur = Settings { message_expire: v, ..cur };
            },
            RawSetting::IgnoreExpire(v) => {
                cur = Settings { ignore_expire: v, ..cur };
            },
            RawSetting::DeleteEntryMessages(b) => {
                cur = Settings { delete_entry_messages: b, ..cur };
            },
        }
        i += 1;
    }
    proof {
        assert(raw@.skip(n as int) =~= Seq::<RawSetting>::empty());
    }
    cur
}

// ---------- welcome templates ----------

/// Error for a welcome template without the user-tag placeholder.
#[derive(Debug, Clone, Copy, PartialEq, Eq, Structural)]
pub struct UserTagNotPresentError;

/// A welcome template as typed by an admin; accepted only when it holds the
/// `{user_tag}` placeholder.
#[derive(Debug, Clone)]
pub struct RawGreeting(pub String);

impl RawGreeting {
    /// Accepts exactly the strings that contain the user-tag placeholder.
    pub fn from_str(s: &str) -> (r: Result<RawGreeting, UserTagNotPresentError>)
        ensures
            contains_seq(s@, "{user_tag}"@) ==> (r matches Ok(g) && g.0@ == s@),
            !contains_seq(s@, "{user_tag}"@) ==> r == Err::<RawGreeting, UserTagNotPresentError>(
                UserTagNotPresentError,
            ),
    {
        let cs = chars_of(s);
        if contains_str(&cs, "{user_tag}") {
            Ok(RawGreeting(s.to_owned()))
        } else {
            Err(UserTagNotPresentError)
        }
    }
}

} // verus!
