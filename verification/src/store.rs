//! In-memory model of the TTL store: pending challenge answers keyed by
//! `(chat, user)` with an absolute expiry, and an "ignored until" set. Expiry
//! is lazy: entries are interpreted against the caller's clock and never
//! evicted, exactly as a score-as-timestamp sorted set behaves.

use vstd::prelude::*;

verus! {

struct AnswerEntry {
    chat_id: i64,
    user_id: u64,
    answer: String,
    expires_at: u64,
}

struct IgnoreEntry {
    chat_id: i64,
    user_id: u64,
    until: u64,
}

spec fn akey(e: AnswerEntry) -> (int, int) {
    (e.chat_id as int, e.user_id as int)
}

spec fn aval(e: AnswerEntry) -> (Seq<char>, int) {
    (e.answer@, e.expires_at as int)
}

spec fn ikey(e: IgnoreEntry) -> (int, int) {
    (e.chat_id as int, e.user_id as int)
}

spec fn awf(s: Seq<AnswerEntry>) -> bool {
    forall|i: int, j: int| 0 <= i < j < s.len() ==> #[trigger] akey(s[i]) != #[trigger] akey(s[j])
}

spec fn iwf(s: Seq<IgnoreEntry>) -> bool {
    forall|i: int, j: int| 0 <= i < j < s.len() ==> #[trigger] ikey(s[i]) != #[trigger] ikey(s[j])
}

spec fn amap(s: Seq<AnswerEntry>) -> Map<(int, int), (Seq<char>, int)> {
    Map::new(
        |k: (int, int)| exists|j: int| 0 <= j < s.len() && #[trigger] akey(s[j]) == k,
        |k: (int, int)|
            aval(s[choose|j: int| 0 <= j < s.len() && #[trigger] akey(s[j]) == k]),
    )
}

spec fn imap(s: Seq<IgnoreEntry>) -> Map<(int, int), int> {
    Map::new(
        |k: (int, int)| exists|j: int| 0 <= j < s.len() && #[trigger] ikey(s[j]) == k,
        |k: (int, int)|
            s[choose|j: int| 0 <= j < s.len() && #[trigger] ikey(s[j]) == k].until as int,
    )
}

proof fn lemma_amap_at(s: Seq<AnswerEntry>, j: int)
    requires
        awf(s),
        0 <= j < s.len(),
    ensures
        amap(s).contains_key(akey(s[j])),
        amap(s)[akey(s[j])] == aval(s[j]),
{
    let k = akey(s[j]);
    assert(0 <= j < s.len() && akey(s[j]) == k);
    let j2 = choose|i: int| 0 <= i < s.len() && #[trigger] akey(s[i]) == k;
    if j2 < j {
        assert(akey(s[j2]) != akey(s[j]));
    } else if j < j2 {
        assert(akey(s[j]) != akey(s[j2]));
    }
}

proof fn lemma_imap_at(s: Seq<IgnoreEntry>, j: int)
    requires
        iwf(s),
        0 <= j < s.len(),
    ensures
        imap(s).contains_key(ikey(s[j])),
        imap(s)[ikey(s[j])] == s[j].until as int,
{
    let k = ikey(s[j]);
    assert(0 <= j < s.len() && ikey(s[j]) == k);
    let j2 = choose|i: int| 0 <= i < s.len() && #[trigger] ikey(s[i]) == k;
    if j2 < j {
        assert(ikey(s[j2]) != ikey(s[j]));
    } else if j < j2 {
        assert(ikey(s[j]) != ikey(s[j2]));
    }
}

proof fn lemma_amap_remove(s: Seq<AnswerEntry>, j: int)
    requires
        awf(s),
        0 <= j < s.len(),
    ensures
        awf(s.remove(j)),
        amap(s.remove(j)) == amap(s).remove(akey(s[j])),
{
    let t = s.remove(j);
    let k = akey(s[j]);
    s.remove_ensures(j);
    assert forall|a: int, b: int| 0 <= a < b < t.len() implies #[trigger] akey(t[a])
        != #[trigger] akey(t[b]) by {
        let a0: int = if a < j {
            a
        } else {
            a + 1
        };
        let b0: int = if b < j {
            b
        } else {
            b + 1
        };
        assert(t[a] == s[a0]);
        assert(t[b] == s[b0]);
        assert(akey(s[a0]) != akey(s[b0]));
    }
    assert forall|q: (int, int)| amap(t).contains_key(q) == amap(s).remove(k).contains_key(
        q,
    ) by {
        if amap(t).contains_key(q) {
            let i = choose|i: int| 0 <= i < t.len() && #[trigger] akey(t[i]) == q;
            let i0: int = if i < j {
                i
            } else {
                i + 1
            };
            assert(t[i] == s[i0]);
            assert(0 <= i0 < s.len() && akey(s[i0]) == q);
            if i0 < j {
                assert(akey(s[i0]) != akey(s[j]));
            } else {
                assert(akey(s[j]) != akey(s[i0]));
            }
            assert(q != k);
        }
        if q != k && amap(s).contains_key(q) {
            let i0 = choose|i: int| 0 <= i < s.len() && #[trigger] akey(s[i]) == q;
            assert(i0 != j);
            if i0 < j {
                assert(t[i0] == s[i0]);
                assert(0 <= i0 < t.len() && akey(t[i0]) == q);
            } else {
                assert(t[i0 - 1] == s[i0]);
                assert(0 <= i0 - 1 < t.len() && akey(t[i0 - 1]) == q);
            }
        }
    }
    assert forall|q: (int, int)| #[trigger]
        amap(t).contains_key(q) && amap(s).remove(k).contains_key(q) implies amap(t)[q] == amap(
        s,
    ).remove(k)[q] by {
        let i = choose|i: int| 0 <= i < t.len() && #[trigger] akey(t[i]) == q;
        lemma_amap_at(t, i);
        let i0: int = if i < j {
            i
        } else {
            i + 1
        };
        assert(t[i] == s[i0]);
        lemma_amap_at(s, i0);
    }
    assert(amap(t) =~= amap(s).remove(k));
}

proof fn lemma_imap_remove(s: Seq<IgnoreEntry>, j: int)
    requires
        iwf(s),
        0 <= j < s.len(),
    ensures
        iwf(s.remove(j)),
        imap(s.remove(j)) == imap(s).remove(ikey(s[j])),
{
    let t = s.remove(j);
    let k = ikey(s[j]);
    s.remove_ensures(j);
    assert forall|a: int, b: int| 0 <= a < b < t.len() implies #[trigger] ikey(t[a])
        != #[trigger] ikey(t[b]) by {
        let a0: int = if a < j {
            a
        } else {
            a + 1
        };
        let b0: int = if b < j {
            b
        } else {
            b + 1
        };
        assert(t[a] == s[a0]);
        assert(t[b] == s[b0]);
        assert(ikey(s[a0]) != ikey(s[b0]));
    }
    assert forall|q: (int, int)| imap(t).contains_key(q) == imap(s).remove(k).contains_key(
        q,
    ) by {
        if imap(t).contains_key(q) {
            let i = choose|i: int| 0 <= i < t.len() && #[trigger] ikey(t[i]) == q;
            let i0: int = if i < j {
                i
            } else {
                i + 1
            };
            assert(t[i] == s[i0]);
            assert(0 <= i0 < s.len() && ikey(s[i0]) == q);
            if i0 < j {
                assert(ikey(s[i0]) != ikey(s[j]));
            } else {
                assert(ikey(s[j]) != ikey(s[i0]));
            }
            assert(q != k);
        }
        if q != k && imap(s).contains_key(q) {
            let i0 = choose|i: int| 0 <= i < s.len() && #[trigger] ikey(s[i]) == q;
            assert(i0 != j);
            if i0 < j {
                assert(t[i0] == s[i0]);
                assert(0 <= i0 < t.len() && ikey(t[i0]) == q);
            } else {
                assert(t[i0 - 1] == s[i0]);
                assert(0 <= i0 - 1 < t.len() && ikey(t[i0 - 1]) == q);
            }
        }
    }
    assert forall|q: (int, int)| #[trigger]
        imap(t).contains_key(q) && imap(s).remove(k).contains_key(q) implies imap(t)[q] == imap(
        s,
    ).remove(k)[q] by {
        let i = choose|i: int| 0 <= i < t.len() && #[trigger] ikey(t[i]) == q;
        lemma_imap_at(t, i);
        let i0: int = if i < j {
            i
        } else {
            i + 1
        };
        assert(t[i] == s[i0]);
        lemma_imap_at(s, i0);
    }
    assert(imap(t) =~= imap(s).remove(k));
}

proof fn lemma_amap_push(s: Seq<AnswerEntry>, e: AnswerEntry)
    requires
        awf(s),
        forall|i: int| 0 <= i < s.len() ==> #[trigger] akey(s[i]) != akey(e),
    ensures
        awf(s.push(e)),
        amap(s.push(e)) == amap(s).insert(akey(e), aval(e)),
{
    let t = s.push(e);
    let k = akey(e);
    assert forall|a: int, b: int| 0 <= a < b < t.len() implies #[trigger] akey(t[a])
        != #[trigger] akey(t[b]) by {
        if b == s.len() {
            assert(t[a] == s[a]);
            assert(t[b] == e);
        } else {
            assert(t[a] == s[a]);
            assert(t[b] == s[b]);
        }
    }
    assert(t[s.len() as int] == e);
    assert(0 <= s.len() && akey(t[s.len() as int]) == k);
    assert forall|q: (int, int)| amap(t).contains_key(q) == amap(s).insert(k, aval(e)).contains_key(
        q,
    ) by {
        if q != k && amap(t).contains_key(q) {
            let i = choose|i: int| 0 <= i < t.len() && #[trigger] akey(t[i]) == q;
            assert(i != s.len());
            assert(t[i] == s[i]);
            assert(0 <= i < s.len() && akey(s[i]) == q);
        }
        if q != k && amap(s).contains_key(q) {
            let i = choose|i: int| 0 <= i < s.len() && #[trigger] akey(s[i]) == q;
            assert(t[i] == s[i]);
            assert(0 <= i < t.len() && akey(t[i]) == q);
        }
    }
    assert forall|q: (int, int)| #[trigger]
        amap(t).contains_key(q) && amap(s).insert(k, aval(e)).contains_key(q) implies amap(t)[q]
        == amap(s).insert(k, aval(e))[q] by {
        let i = choose|i: int| 0 <= i < t.len() && #[trigger] akey(t[i]) == q;
        lemma_amap_at(t, i);
        if q == k {
            if i < s.len() {
                assert(akey(s[i]) != k);
                assert(t[i] == s[i]);
                assert(false);
            }
            assert(t[i] == e);
        } else {
            assert(i != s.len());
            assert(t[i] == s[i]);
            lemma_amap_at(s, i);
        }
    }
    assert(amap(t) =~= amap(s).insert(k, aval(e)));
}

proof fn lemma_imap_push(s: Seq<IgnoreEntry>, e: IgnoreEntry)
    requires
        iwf(s),
        forall|i: int| 0 <= i < s.len() ==> #[trigger] ikey(s[i]) != ikey(e),
    ensures
        iwf(s.push(e)),
        imap(s.push(e)) == imap(s).insert(ikey(e), e.until as int),
{
    let t = s.push(e);
    let k = ikey(e);
    assert forall|a: int, b: int| 0 <= a < b < t.len() implies #[trigger] ikey(t[a])
        != #[trigger] ikey(t[b]) by {
        if b == s.len() {
            assert(t[a] == s[a]);
            assert(t[b] == e);
        } else {
            assert(t[a] == s[a]);
            assert(t[b] == s[b]);
        }
    }
    assert(t[s.len() as int] == e);
    assert(0 <= s.len() && ikey(t[s.len() as int]) == k);
    assert forall|q: (int, int)| imap(t).contains_key(q) == imap(s).insert(
        k,
        e.until as int,
    ).contains_key(q) by {
        if q != k && imap(t).contains_key(q) {
            let i = choose|i: int| 0 <= i < t.len() && #[trigger] ikey(t[i]) == q;
            assert(i != s.len());
            assert(t[i] == s[i]);
            assert(0 <= i < s.len() && ikey(s[i]) == q);
        }
        if q != k && imap(s).contains_key(q) {
            let i = choose|i: int| 0 <= i < s.len() && #[trigger] ikey(s[i]) == q;
            assert(t[i] == s[i]);
            assert(0 <= i < t.len() && ikey(t[i]) == q);
        }
    }
    assert forall|q: (int, int)| #[trigger]
        imap(t).contains_key(q) && imap(s).insert(k, e.until as int).contains_key(q) implies imap(
        t,
    )[q] == imap(s).insert(k, e.until as int)[q] by {
        let i = choose|i: int| 0 <= i < t.len() && #[trigger] ikey(t[i]) == q;
        lemma_imap_at(t, i);
        if q == k {
            if i < s.len() {
                assert(ikey(s[i]) != k);
                assert(t[i] == s[i]);
                assert(false);
            }
            assert(t[i] == e);
        } else {
            assert(i != s.len());
            assert(t[i] == s[i]);
            lemma_imap_at(s, i);
        }
    }
    assert(imap(t) =~= imap(s).insert(k, e.until as int));
}

/// The store of pending answers and ignore markers.
pub struct ExpiringStore {
    answers: Vec<AnswerEntry>,
    ignores: Vec<IgnoreEntry>,
}

/// The answer a pair must submit at time `now`: present and not yet expired.
pub open spec fn spec_live_answer(
    m: Map<(int, int), (Seq<char>, int)>,
    chat: int,
    user: int,
    now: int,
) -> Option<Seq<char>> {
    if m.contains_key((chat, user)) && now < m[(chat, user)].1 {
        Some(m[(chat, user)].0)
    } else {
        None
    }
}

/// A pair is ignored at `now` when its marker lies strictly in the future.
pub open spec fn spec_is_ignored(m: Map<(int, int), int>, chat: int, user: int, now: int) -> bool {
    m.contains_key((chat, user)) && now < m[(chat, user)]
}

impl ExpiringStore {
    /// Keys are unique in both tables.
    pub closed spec fn wf(&self) -> bool {
        awf(self.answers@) && iwf(self.ignores@)
    }

    /// Pending answers: `(chat, user)` to (expected token, absolute expiry).
    pub closed spec fn answers_map(&self) -> Map<(int, int), (Seq<char>, int)> {
        amap(self.answers@)
    }

    /// Ignore markers: `(chat, user)` to the absolute "ignored until" time.
    pub closed spec fn ignores_map(&self) -> Map<(int, int), int> {
        imap(self.ignores@)
    }

    /// An empty store.
    pub fn new() -> (r: ExpiringStore)
        ensures
            r.wf(),
            r.answers_map() == Map::<(int, int), (Seq<char>, int)>::empty(),
            r.ignores_map() == Map::<(int, int), int>::empty(),
    {
        let r = ExpiringStore { answers: Vec::new(), ignores: Vec::new() };
        proof {
            assert(r.answers_map() =~= Map::<(int, int), (Seq<char>, int)>::empty());
            assert(r.ignores_map() =~= Map::<(int, int), int>::empty());
        }
        r
    }

    fn find_answer(&self, chat_id: i64, user_id: u64) -> (r: Option<usize>)
        requires
            self.wf(),
        ensures
            match r {
                Some(j) => j < self.answers@.len() && akey(self.answers@[j as int]) == (
                    chat_id as int,
                    user_id as int,
                ),
                None => !self.answers_map().contains_key((chat_id as int, user_id as int)),
            },
    {
        let n = self.answers.len();
        let mut i: usize = 0;
        while i < n
            invariant
                n == self.answers@.len(),
                i <= n,
                forall|j: int|
                    0 <= j < i ==> #[trigger] akey(self.answers@[j]) != (
                        chat_id as int,
                        user_id as int,
                    ),
            decreases n - i,
        {
            if self.answers[i].chat_id == chat_id && self.answers[i].user_id == user_id {
                return Some(i);
            }
            i += 1;
        }
        None
    }

    fn find_ignore(&self, chat_id: i64, user_id: u64) -> (r: Option<usize>)
        requires
            self.wf(),
        ensures
            match r {
                Some(j) => j < self.ignores@.len() && ikey(self.ignores@[j as int]) == (
                    chat_id as int,
                    user_id as int,
                ),
                None => !self.ignores_map().contains_key((chat_id as int, user_id as int)),
            },
    {
        let n = self.ignores.len();
        let mut i: usize = 0;
        while i < n
            invariant
                n == self.ignores@.len(),
                i <= n,
                forall|j: int|
                    0 <= j < i ==> #[trigger] ikey(self.ignores@[j]) != (
                        chat_id as int,
                        user_id as int,
                    ),
            decreases n - i,
        {
            if self.ignores[i].chat_id == chat_id && self.ignores[i].user_id == user_id {
                return Some(i);
            }
            i += 1;
        }
        None
    }

    /// Stores the expected answer with expiry `now + captcha_expire` and the
    /// ignore marker `now + ignore_expire` for the pair, as one unit; an
    /// earlier entry for the same pair is overwritten.
    pub fn set_answer(
        &mut self,
        chat_id: i64,
        user_id: u64,
        answer: String,
        now: u64,
        captcha_expire: u64,
        ignore_expire: u64,
    )
        requires
            old(self).wf(),
            now + captcha_expire <= u64::MAX,
            now + ignore_expire <= u64::MAX,
        ensures
            final(self).wf(),
            final(self).answers_map() == old(self).answers_map().insert(
                (chat_id as int, user_id as int),
                (answer@, now + captcha_expire),
            ),
            final(self).ignores_map() == old(self).ignores_map().insert(
                (chat_id as int, user_id as int),
                now + ignore_expire,
            ),
    {
        let ghost k = (chat_id as int, user_id as int);
        let ghost m0 = amap(old(self).answers@);
        let ghost g0 = imap(old(self).ignores@);

        match self.find_answer(chat_id, user_id) {
            Some(j) => {
                let ghost pre = self.answers@;
                self.answers.remove(j);
                proof {
                    lemma_amap_remove(pre, j as int);
                    assert(amap(self.answers@) == m0.remove(k));
                    assert(!amap(self.answers@).contains_key(k));
                }
            },
            None => {},
        }
        proof {
            assert(!amap(self.answers@).contains_key(k));
            assert forall|i: int| 0 <= i < self.answers@.len() implies #[trigger] akey(
                self.answers@[i],
            ) != k by {
                if akey(self.answers@[i]) == k {
                    assert(amap(self.answers@).contains_key(k));
                }
            }
        }
        let ghost mid = self.answers@;
        let entry = AnswerEntry { chat_id, user_id, answer, expires_at: now + captcha_expire };
        self.answers.push(entry);
        proof {
            lemma_amap_push(mid, entry);
            assert(amap(self.answers@) =~= m0.insert(k, (answer@, (now + captcha_expire) as int)));
        }

        match self.find_ignore(chat_id, user_id) {
            Some(j) => {
                let ghost pre = self.ignores@;
                self.ignores.remove(j);
                proof {
                    lemma_imap_remove(pre, j as int);
                    assert(imap(self.ignores@) == g0.remove(k));
                    assert(!imap(self.ignores@).contains_key(k));
                }
            },
            None => {},
        }
        proof {
            assert(!imap(self.ignores@).contains_key(k));
            assert forall|i: int| 0 <= i < self.ignores@.len() implies #[trigger] ikey(
                self.ignores@[i],
            ) != k by {
                if ikey(self.ignores@[i]) == k {
                    assert(imap(self.ignores@).contains_key(k));
                }
            }
        }
        let ghost gmid = self.ignores@;
        let marker = IgnoreEntry { chat_id, user_id, until: now + ignore_expire };
        self.ignores.push(marker);
        proof {
            lemma_imap_push(gmid, marker);
            assert(imap(self.ignores@) =~= g0.insert(k, (now + ignore_expire) as int));
        }
    }

    /// The pending answer for the pair, while not expired at `now`.
    pub fn get_answer(&self, chat_id: i64, user_id: u64, now: u64) -> (r: Option<String>)
        requires
            self.wf(),
        ensures
            match r {
                Some(a) => spec_live_answer(
                    self.answers_map(),
                    chat_id as int,
                    user_id as int,
                    now as int,
                ) == Some(a@),
                None => spec_live_answer(
                    self.answers_map(),
                    chat_id as int,
                    user_id as int,
                    now as int,
                ) is None,
            },
    {
        match self.find_answer(chat_id, user_id) {
            Some(j) => {
                proof {
                    lemma_amap_at(self.answers@, j as int);
                }
                if now < self.answers[j].expires_at {
                    Some(self.answers[j].answer.clone())
                } else {
                    None
                }
            },
            None => None,
        }
    }

    /// Whether the pair is ignored at `now`: a marker exists and lies
    /// strictly in the future.
    pub fn is_ignored(&self, chat_id: i64, user_id: u64, now: u64) -> (r: bool)
        requires
            self.wf(),
        ensures
            r == spec_is_ignored(self.ignores_map(), chat_id as int, user_id as int, now as int),
    {
        match self.find_ignore(chat_id, user_id) {
            Some(j) => {
                proof {
                    lemma_imap_at(self.ignores@, j as int);
                }
                now < self.ignores[j].until
            },
            None => false,
        }
    }
}

} // verus!
