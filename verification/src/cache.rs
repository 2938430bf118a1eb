//! The settings cache: an in-memory mirror of per-chat configuration and
//! welcome templates, keyed by chat id. Reads never touch durable storage; a
//! write is mirrored here only after the caller's durable upsert succeeded
//! (write-through, never write-back). `preload` rebuilds the mirror from all
//! durable rows at start.

use vstd::prelude::*;

verus! {

use crate::l10n::Language;
use crate::settings::{BanChannels, Settings, spec_default_settings};

spec fn entry_key<T>(e: (i64, T)) -> int {
    e.0 as int
}

spec fn kwf<T>(s: Seq<(i64, T)>) -> bool {
    forall|i: int, j: int|
        0 <= i < j < s.len() ==> #[trigger] entry_key(s[i]) != #[trigger] entry_key(s[j])
}

spec fn kmap<T>(s: Seq<(i64, T)>) -> Map<int, T> {
    Map::new(
        |k: int| exists|j: int| 0 <= j < s.len() && #[trigger] entry_key(s[j]) == k,
        |k: int| s[choose|j: int| 0 <= j < s.len() && #[trigger] entry_key(s[j]) == k].1,
    )
}

proof fn lemma_kmap_at<T>(s: Seq<(i64, T)>, j: int)
    requires
        kwf(s),
        0 <= j < s.len(),
    ensures
        kmap(s).contains_key(entry_key(s[j])),
        kmap(s)[entry_key(s[j])] == s[j].1,
{
    let k = entry_key(s[j]);
    assert(0 <= j < s.len() && entry_key(s[j]) == k);
    let j2 = choose|i: int| 0 <= i < s.len() && #[trigger] entry_key(s[i]) == k;
    if j2 < j {
        assert(entry_key(s[j2]) != entry_key(s[j]));
    } else if j < j2 {
        assert(entry_key(s[j]) != entry_key(s[j2]));
    }
}

proof fn lemma_kmap_remove<T>(s: Seq<(i64, T)>, j: int)
    requires
        kwf(s),
        0 <= j < s.len(),
    ensures
        kwf(s.remove(j)),
        kmap(s.remove(j)) == kmap(s).remove(entry_key(s[j])),
{
    let t = s.remove(j);
    let k = entry_key(s[j]);
    s.remove_ensures(j);
    assert forall|a: int, b: int| 0 <= a < b < t.len() implies #[trigger] entry_key(t[a])
        != #[trigger] entry_key(t[b]) by {
        let a0: int = if a < j {
            a
        } else {
            a + 1
        };
        let b0: int = if b < j {
            b
        } else {
            b + 1
        };
        assert(t[a] == s[a0]);
        assert(t[b] == s[b0]);
        assert(entry_key(s[a0]) != entry_key(s[b0]));
    }
    assert forall|q: int| kmap(t).contains_key(q) == kmap(s).remove(k).contains_key(q) by {
        if kmap(t).contains_key(q) {
            let i = choose|i: int| 0 <= i < t.len() && #[trigger] entry_key(t[i]) == q;
            let i0: int = if i < j {
                i
            } else {
                i + 1
            };
            assert(t[i] == s[i0]);
            assert(0 <= i0 < s.len() && entry_key(s[i0]) == q);
            if i0 < j {
                assert(entry_key(s[i0]) != entry_key(s[j]));
            } else {
                assert(entry_key(s[j]) != entry_key(s[i0]));
            }
            assert(q != k);
        }
        if q != k && kmap(s).contains_key(q) {
            let i0 = choose|i: int| 0 <= i < s.len() && #[trigger] entry_key(s[i]) == q;
            assert(i0 != j);
            if i0 < j {
                assert(t[i0] == s[i0]);
                assert(0 <= i0 < t.len() && entry_key(t[i0]) == q);
            } else {
                assert(t[i0 - 1] == s[i0]);
                assert(0 <= i0 - 1 < t.len() && entry_key(t[i0 - 1]) == q);
            }
        }
    }
    assert forall|q: int| #[trigger]
        kmap(t).contains_key(q) && kmap(s).remove(k).contains_key(q) implies kmap(t)[q] == kmap(
        s,
    ).remove(k)[q] by {
        let i = choose|i: int| 0 <= i < t.len() && #[trigger] entry_key(t[i]) == q;
        lemma_kmap_at(t, i);
        let i0: int = if i < j {
            i
        } else {
            i + 1
        };
        assert(t[i] == s[i0]);
        lemma_kmap_at(s, i0);
    }
    assert(kmap(t) =~= kmap(s).remove(k));
}

proof fn lemma_kmap_push<T>(s: Seq<(i64, T)>, e: (i64, T))
    requires
        kwf(s),
        forall|i: int| 0 <= i < s.len() ==> #[trigger] entry_key(s[i]) != entry_key(e),
    ensures
        kwf(s.push(e)),
        kmap(s.push(e)) == kmap(s).insert(entry_key(e), e.1),
{
    let t = s.push(e);
    let k = entry_key(e);
    assert forall|a: int, b: int| 0 <= a < b < t.len() implies #[trigger] entry_key(t[a])
        != #[trigger] entry_key(t[b]) by {
        if b == s.len() {
            assert(t[a] == s[a]);
            assert(t[b] == e);
        } else {
            assert(t[a] == s[a]);
            assert(t[b] == s[b]);
        }
    }
    assert(t[s.len() as int] == e);
    assert(0 <= s.len() && entry_key(t[s.len() as int]) == k);
    assert forall|q: int| kmap(t).contains_key(q) == kmap(s).insert(k, e.1).contains_key(q) by {
        if q != k && kmap(t).contains_key(q) {
            let i = choose|i: int| 0 <= i < t.len() && #[trigger] entry_key(t[i]) == q;
            assert(i != s.len());
            assert(t[i] == s[i]);
            assert(0 <= i < s.len() && entry_key(s[i]) == q);
        }
        if q != k && kmap(s).contains_key(q) {
            let i = choose|i: int| 0 <= i < s.len() && #[trigger] entry_key(s[i]) == q;
            assert(t[i] == s[i]);
            assert(0 <= i < t.len() && entry_key(t[i]) == q);
        }
    }
    assert forall|q: int| #[trigger]
        kmap(t).contains_key(q) && kmap(s).insert(k, e.1).contains_key(q) implies kmap(t)[q]
        == kmap(s).insert(k, e.1)[q] by {
        let i = choose|i: int| 0 <= i < t.len() && #[trigger] entry_key(t[i]) == q;
        lemma_kmap_at(t, i);
        if q == k {
            if i < s.len() {
                assert(entry_key(s[i]) != k);
                assert(t[i] == s[i]);
                assert(false);
            }
            assert(t[i] == e);
        } else {
            assert(i != s.len());
            assert(t[i] == s[i]);
            lemma_kmap_at(s, i);
        }
    }
    assert(kmap(t) =~= kmap(s).insert(k, e.1));
}

/// The mirror rows build, first to last: a later row for the same chat wins.
pub open spec fn spec_load<T>(rows: Seq<(i64, T)>) -> Map<int, T>
    decreases rows.len(),
{
    if rows.len() == 0 {
        Map::empty()
    } else {
        spec_load(rows.drop_last()).insert(rows.last().0 as int, rows.last().1)
    }
}

/// The in-memory mirror of per-chat settings and welcome templates.
pub struct SettingsCache {
    settings: Vec<(i64, Settings)>,
    greetings: Vec<(i64, String)>,
}

impl SettingsCache {
    /// Chat ids are unique in both tables.
    pub closed spec fn wf(&self) -> bool {
        kwf(self.settings@) && kwf(self.greetings@)
    }

    /// The mirrored settings, by chat id.
    pub closed spec fn settings_map(&self) -> Map<int, Settings> {
        kmap(self.settings@)
    }

    /// The mirrored welcome templates, by chat id.
    pub closed spec fn greetings_map(&self) -> Map<int, String> {
        kmap(self.greetings@)
    }

    /// An empty mirror.
    pub fn new() -> (r: SettingsCache)
        ensures
            r.wf(),
            r.settings_map() == Map::<int, Settings>::empty(),
            r.greetings_map() == Map::<int, String>::empty(),
    {
        let r = SettingsCache { settings: Vec::new(), greetings: Vec::new() };
        proof {
            assert(r.settings_map() =~= Map::<int, Settings>::empty());
            assert(r.greetings_map() =~= Map::<int, String>::empty());
        }
        r
    }

    /// Builds the mirror from all durable rows, in row order (a later row for
    /// the same chat wins).
    pub fn preload(rows: Vec<(i64, Settings)>, greeting_rows: Vec<(i64, String)>) -> (r:
        SettingsCache)
        ensures
            r.wf(),
            r.settings_map() == spec_load(rows@),
            r.greetings_map() == spec_load(greeting_rows@),
    {
        let mut cache = SettingsCache::new();
        let n = rows.len();
        let mut i: usize = 0;
        proof {
            assert(rows@.take(0) =~= Seq::<(i64, Settings)>::empty());
            assert(cache.settings_map() =~= spec_load(rows@.take(0)));
        }
        while i < n
            invariant
                n == rows@.len(),
                i <= n,
                cache.wf(),
                cache.settings_map() == spec_load(rows@.take(i as int)),
                cache.greetings_map() == Map::<int, String>::empty(),
            decreases n - i,
        {
            let (chat_id, settings) = rows[i];
            cache.set(chat_id, settings);
            proof {
                assert(rows@.take(i as int + 1).drop_last() =~= rows@.take(i as int));
                assert(rows@.take(i as int + 1).last() == rows@[i as int]);
            }
            i += 1;
        }
        proof {
            assert(rows@.take(n as int) =~= rows@);
        }
        let m = greeting_rows.len();
        let mut j: usize = 0;
        proof {
            assert(greeting_rows@.take(0) =~= Seq::<(i64, String)>::empty());
            assert(cache.greetings_map() =~= spec_load(greeting_rows@.take(0)));
        }
        while j < m
            invariant
                m == greeting_rows@.len(),
                j <= m,
                cache.wf(),
                cache.settings_map() == spec_load(rows@),
                cache.greetings_map() == spec_load(greeting_rows@.take(j as int)),
            decreases m - j,
        {
            let chat_id = greeting_rows[j].0;
            let greeting = greeting_rows[j].1.clone();
            cache.set_greeting(chat_id, greeting);
            proof {
                assert(greeting_rows@.take(j as int + 1).drop_last() =~= greeting_rows@.take(
                    j as int,
                ));
                assert(greeting_rows@.take(j as int + 1).last() == greeting_rows@[j as int]);
            }
            j += 1;
        }
        proof {
            assert(greeting_rows@.take(m as int) =~= greeting_rows@);
        }
        cache
    }

    fn find_settings(&self, chat_id: i64) -> (r: Option<usize>)
        requires
            self.wf(),
        ensures
            match r {
                Some(j) => j < self.settings@.len() && entry_key(self.settings@[j as int])
                    == chat_id as int,
                None => !self.settings_map().contains_key(chat_id as int),
            },
    {
        let n = self.settings.len();
        let mut i: usize = 0;
        while i < n
            invariant
                n == self.settings@.len(),
                i <= n,
                forall|j: int|
                    0 <= j < i ==> #[trigger] entry_key(self.settings@[j]) != chat_id as int,
            decreases n - i,
        {
            if self.settings[i].0 == chat_id {
                return Some(i);
            }
            i += 1;
        }
        None
    }

    fn find_greeting(&self, chat_id: i64) -> (r: Option<usize>)
        requires
            self.wf(),
        ensures
            match r {
                Some(j) => j < self.greetings@.len() && entry_key(self.greetings@[j as int])
                    == chat_id as int,
                None => !self.greetings_map().contains_key(chat_id as int),
            },
    {
        let n = self.greetings.len();
        let mut i: usize = 0;
        while i < n
            invariant
                n == self.greetings@.len(),
                i <= n,
                forall|j: int|
                    0 <= j < i ==> #[trigger] entry_key(self.greetings@[j]) != chat_id as int,
            decreases n - i,
        {
            if self.greetings[i].0 == chat_id {
                return Some(i);
            }
            i += 1;
        }
        None
    }

    /// The chat's settings, or the defaults when the chat has none stored.
    pub fn get(&self, chat_id: i64) -> (r: Settings)
        requires
            self.wf(),
        ensures
            r == if self.settings_map().contains_key(chat_id as int) {
                self.settings_map()[chat_id as int]
            } else {
                spec_default_settings()
            },
    {
        match self.find_settings(chat_id) {
            Some(j) => {
                proof {
                    lemma_kmap_at(self.settings@, j as int);
                }
                self.settings[j].1
            },
            None => Settings::default(),
        }
    }

    /// The chat's channel policy, or none when the chat has no settings.
    pub fn get_ban_channels(&self, chat_id: i64) -> (r: Option<BanChannels>)
        requires
            self.wf(),
        ensures
            r == if self.settings_map().contains_key(chat_id as int) {
                self.settings_map()[chat_id as int].ban_channels
            } else {
                None::<BanChannels>
            },
    {
        match self.find_settings(chat_id) {
            Some(j) => {
                proof {
                    lemma_kmap_at(self.settings@, j as int);
                }
                self.settings[j].1.ban_channels
            },
            None => None,
        }
    }

    /// The chat's language, or the default when the chat has no settings.
    pub fn lang(&self, chat_id: i64) -> (r: Language)
        requires
            self.wf(),
        ensures
            r == if self.settings_map().contains_key(chat_id as int) {
                self.settings_map()[chat_id as int].language
            } else {
                Language::En
            },
    {
        match self.find_settings(chat_id) {
            Some(j) => {
                proof {
                    lemma_kmap_at(self.settings@, j as int);
                }
                self.settings[j].1.language
            },
            None => Language::En,
        }
    }

    /// The chat's stored welcome template, if any.
    pub fn get_greeting(&self, chat_id: i64) -> (r: Option<String>)
        requires
            self.wf(),
        ensures
            match r {
                Some(g) => self.greetings_map().contains_key(chat_id as int) && g
                    == self.greetings_map()[chat_id as int],
                None => !self.greetings_map().contains_key(chat_id as int),
            },
    {
        match self.find_greeting(chat_id) {
            Some(j) => {
                proof {
                    lemma_kmap_at(self.greetings@, j as int);
                }
                Some(self.greetings[j].1.clone())
            },
            None => None,
        }
    }

    /// Mirrors a committed settings row; to be called only after the durable
    /// upsert succeeded.
    pub fn set(&mut self, chat_id: i64, settings: Settings)
        requires
            old(self).wf(),
        ensures
            final(self).wf(),
            final(self).settings_map() == old(self).settings_map().insert(
                chat_id as int,
                settings,
            ),
            final(self).greetings_map() == old(self).greetings_map(),
    {
        let ghost m0 = kmap(old(self).settings@);
        match self.find_settings(chat_id) {
            Some(j) => {
                let ghost pre = self.settings@;
                self.settings.remove(j);
                proof {
                    lemma_kmap_remove(pre, j as int);
                }
            },
            None => {},
        }
        proof {
            assert(!kmap(self.settings@).contains_key(chat_id as int));
            assert forall|i: int| 0 <= i < self.settings@.len() implies #[trigger] entry_key(
                self.settings@[i],
            ) != chat_id as int by {
                if entry_key(self.settings@[i]) == chat_id as int {
                    assert(kmap(self.settings@).contains_key(chat_id as int));
                }
            }
        }
        let ghost mid = self.settings@;
        self.settings.push((chat_id, settings));
        proof {
            lemma_kmap_push(mid, (chat_id, settings));
            assert(kmap(self.settings@) =~= m0.insert(chat_id as int, settings));
            assert(final(self).greetings_map() =~= old(self).greetings_map());
        }
    }

    /// Mirrors a committed welcome template; to be called only after the
    /// durable upsert succeeded.
    pub fn set_greeting(&mut self, chat_id: i64, greeting: String)
        requires
            old(self).wf(),
        ensures
            final(self).wf(),
            final(self).greetings_map() == old(self).greetings_map().insert(
                chat_id as int,
                greeting,
            ),
            final(self).settings_map() == old(self).settings_map(),
    {
        let ghost g0 = kmap(old(self).greetings@);
        match self.find_greeting(chat_id) {
            Some(j) => {
                let ghost pre = self.greetings@;
                self.greetings.remove(j);
                proof {
                    lemma_kmap_remove(pre, j as int);
                }
            },
            None => {},
        }
        proof {
            assert(!kmap(self.greetings@).contains_key(chat_id as int));
            assert forall|i: int| 0 <= i < self.greetings@.len() implies #[trigger] entry_key(
                self.greetings@[i],
            ) != chat_id as int by {
                if entry_key(self.greetings@[i]) == chat_id as int {
                    assert(kmap(self.greetings@).contains_key(chat_id as int));
                }
            }
        }
        let ghost mid = self.greetings@;
        let ghost gv = greeting@;
        self.greetings.push((chat_id, greeting));
        proof {
            lemma_kmap_push(mid, self.greetings@.last());
            assert(kmap(self.greetings@) =~= g0.insert(
                chat_id as int,
                self.greetings@.last().1,
            ));
            assert(final(self).settings_map() =~= old(self).settings_map());
        }
    }
}

} // verus!
