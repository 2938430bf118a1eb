//! The challenge engine: issuing a challenge draws a combination and stores
//! its expected answer together with an ignore marker as one unit;
//! verification compares a submitted token against the stored answer under
//! the caller's clock. Verification does not consume the entry: it lapses by
//! expiry alone.

use vstd::prelude::*;

verus! {

use crate::qna::{Combination, Group, catalog_wf, pick_witness};
use crate::store::{ExpiringStore, spec_is_ignored, spec_live_answer};
use crate::text::str_eq;

/// The outcome of verifying a submitted token.
#[derive(Debug, Clone, Copy, PartialEq, Eq, Structural)]
pub enum VerifyOutcome {
    Correct,
    Incorrect,
    NoSuchChallenge,
}

/// What verification returns, as a function of the stored answers: the exact
/// live answer gives `Correct`, any other token gives `Incorrect`, and a pair
/// with no live answer (never issued, or expired) gives `NoSuchChallenge`.
pub open spec fn spec_verify_outcome(
    m: Map<(int, int), (Seq<char>, int)>,
    chat: int,
    user: int,
    token: Seq<char>,
    now: int,
) -> VerifyOutcome {
    match spec_live_answer(m, chat, user, now) {
        Some(ans) => if token == ans {
            VerifyOutcome::Correct
        } else {
            VerifyOutcome::Incorrect
        },
        None => VerifyOutcome::NoSuchChallenge,
    }
}

/// The challenge engine over its TTL store.
pub struct ChallengeEngine {
    store: ExpiringStore,
}

impl ChallengeEngine {
    pub closed spec fn wf(&self) -> bool {
        self.store.wf()
    }

    /// Pending answers: `(chat, user)` to (expected token, absolute expiry).
    pub closed spec fn answers(&self) -> Map<(int, int), (Seq<char>, int)> {
        self.store.answers_map()
    }

    /// Ignore markers: `(chat, user)` to the absolute "ignored until" time.
    pub closed spec fn ignores(&self) -> Map<(int, int), int> {
        self.store.ignores_map()
    }

    /// An engine with no pending challenges and no ignore markers.
    pub fn new() -> (r: ChallengeEngine)
        ensures
            r.wf(),
            r.answers() == Map::<(int, int), (Seq<char>, int)>::empty(),
            r.ignores() == Map::<(int, int), int>::empty(),
    {
        ChallengeEngine { store: ExpiringStore::new() }
    }

    /// Issues a challenge to the pair: draws a `size`-way combination from
    /// the catalog, stores its answer with expiry `now + captcha_expire` and
    /// the ignore marker `now + ignore_expire` as one unit, overwriting any
    /// earlier pending challenge of the pair.
    pub fn issue(
        &mut self,
        groups: &Vec<Group>,
        chat_id: i64,
        user_id: u64,
        size: usize,
        now: u64,
        captcha_expire: u64,
        ignore_expire: u64,
    ) -> (c: Combination)
        requires
            old(self).wf(),
            0 < size <= groups@.len(),
            catalog_wf(groups@),
            now + captcha_expire <= u64::MAX,
            now + ignore_expire <= u64::MAX,
        ensures
            final(self).wf(),
            c.emojis@.len() == size,
            exists|sel: Seq<int>, k: int| pick_witness(groups@, size as int, c, sel, k),
            final(self).answers() == old(self).answers().insert(
                (chat_id as int, user_id as int),
                (c.answer@, now + captcha_expire),
            ),
            final(self).ignores() == old(self).ignores().insert(
                (chat_id as int, user_id as int),
                now + ignore_expire,
            ),
    {
        let c = Combination::pick(groups, size);
        self.store.set_answer(
            chat_id,
            user_id,
            c.answer.clone(),
            now,
            captcha_expire,
            ignore_expire,
        );
        c
    }

    /// Verifies a submitted token against the pending answer at `now`.
    pub fn verify(&self, chat_id: i64, user_id: u64, token: &str, now: u64) -> (r: VerifyOutcome)
        requires
            self.wf(),
        ensures
            r == spec_verify_outcome(
                self.answers(),
                chat_id as int,
                user_id as int,
                token@,
                now as int,
            ),
    {
        match self.store.get_answer(chat_id, user_id, now) {
            Some(ans) => {
                if str_eq(token, ans.as_str()) {
                    VerifyOutcome::Correct
                } else {
                    VerifyOutcome::Incorrect
                }
            },
            None => VerifyOutcome::NoSuchChallenge,
        }
    }

    /// Whether the pair is ignored at `now`: an ignore marker exists and lies
    /// strictly in the future.
    pub fn is_ignored(&self, chat_id: i64, user_id: u64, now: u64) -> (r: bool)
        requires
            self.wf(),
        ensures
            r == spec_is_ignored(self.ignores(), chat_id as int, user_id as int, now as int),
    {
        self.store.is_ignored(chat_id, user_id, now)
    }
}

/// Law: within the challenge window, verifying the exact stored answer
/// reports `Correct` and verifying any other token reports `Incorrect`, on
/// the answer table an issue leaves behind.
pub proof fn lemma_issue_then_verify(
    m: Map<(int, int), (Seq<char>, int)>,
    chat: int,
    user: int,
    answer: Seq<char>,
    expiry: int,
    token: Seq<char>,
    now: int,
)
    requires
        now < expiry,
    ensures
        spec_verify_outcome(m.insert((chat, user), (answer, expiry)), chat, user, answer, now)
            == VerifyOutcome::Correct,
        token != answer ==> spec_verify_outcome(
            m.insert((chat, user), (answer, expiry)),
            chat,
            user,
            token,
            now,
        ) == VerifyOutcome::Incorrect,
{
}

/// Law: a pair for which no answer was ever stored gets `NoSuchChallenge`,
/// whatever token it submits and whenever it submits it.
pub proof fn lemma_verify_without_issue(
    m: Map<(int, int), (Seq<char>, int)>,
    chat: int,
    user: int,
    token: Seq<char>,
    now: int,
)
    requires
        !m.contains_key((chat, user)),
    ensures
        spec_verify_outcome(m, chat, user, token, now) == VerifyOutcome::NoSuchChallenge,
{
}

/// Law: once the stored expiry has passed, verification reports
/// `NoSuchChallenge` even for the exact stored answer.
pub proof fn lemma_verify_after_expiry(
    m: Map<(int, int), (Seq<char>, int)>,
    chat: int,
    user: int,
    token: Seq<char>,
    now: int,
)
    requires
        m.contains_key((chat, user)),
        now >= m[(chat, user)].1,
    ensures
        spec_verify_outcome(m, chat, user, token, now) == VerifyOutcome::NoSuchChallenge,
{
}

/// Law: the ignore marker an issue at `issued_at` leaves behind holds
/// immediately (the horizon being positive) and lapses once the clock passes
/// `issued_at + ignore_expire`.
pub proof fn lemma_ignore_window(
    g: Map<(int, int), int>,
    chat: int,
    user: int,
    issued_at: int,
    ignore_expire: int,
    now: int,
)
    ensures
        ignore_expire > 0 ==> spec_is_ignored(
            g.insert((chat, user), issued_at + ignore_expire),
            chat,
            user,
            issued_at,
        ),
        now >= issued_at + ignore_expire ==> !spec_is_ignored(
            g.insert((chat, user), issued_at + ignore_expire),
            chat,
            user,
            now,
        ),
{
}

/// Law: a second issue for the same pair before expiry overwrites the first:
/// on the resulting table only the second answer verifies as `Correct`, and
/// the first answer, when it differs, is `Incorrect`.
pub proof fn lemma_second_issue_overwrites(
    m: Map<(int, int), (Seq<char>, int)>,
    chat: int,
    user: int,
    answer1: Seq<char>,
    expiry1: int,
    answer2: Seq<char>,
    expiry2: int,
    now: int,
)
    requires
        now < expiry2,
    ensures
        spec_verify_outcome(
            m.insert((chat, user), (answer1, expiry1)).insert((chat, user), (answer2, expiry2)),
            chat,
            user,
            answer2,
            now,
        ) == VerifyOutcome::Correct,
        answer1 != answer2 ==> spec_verify_outcome(
            m.insert((chat, user), (answer1, expiry1)).insert((chat, user), (answer2, expiry2)),
            chat,
            user,
            answer1,
            now,
        ) == VerifyOutcome::Incorrect,
{
}

} // verus!
