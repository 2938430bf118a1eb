//! The challenge catalog and sampler: semantic groups of visual tokens and
//! query phrases, and the random draw of an N-way challenge. Each chosen
//! group contributes one token; the correct token's group also supplies the
//! phrase an image lookup runs on.

use vstd::prelude::*;

verus! {

use crate::rng::{rand_below, sample_indices};

/// One realization of a semantic slot: its visual tokens and the phrases that
/// describe them to an image search.
pub struct Query {
    pub emojis: Vec<String>,
    pub phrases: Vec<String>,
}

impl Query {
    /// A query offers at least one token and one phrase.
    pub open spec fn wf(&self) -> bool {
        self.emojis@.len() > 0 && self.phrases@.len() > 0
    }
}

/// A semantic group: either a single query or mutually exclusive variants of
/// one slot (so that two confusable concepts never appear side by side).
pub enum Group {
    Single(Query),
    Multiple(Vec<Query>),
}

impl Group {
    pub open spec fn wf(&self) -> bool {
        match *self {
            Group::Single(q) => q.wf(),
            Group::Multiple(qs) => qs@.len() > 0 && forall|i: int|
                0 <= i < qs@.len() ==> (#[trigger] qs@[i]).wf(),
        }
    }
}

/// Every group of a catalog is well formed.
pub open spec fn catalog_wf(groups: Seq<Group>) -> bool {
    forall|i: int| 0 <= i < groups.len() ==> (#[trigger] groups[i]).wf()
}

/// The query a group resolves to for a sub-variant index.
pub open spec fn spec_sub_query(g: Group, si: int) -> Query {
    match g {
        Group::Single(q) => q,
        Group::Multiple(qs) => qs@[si],
    }
}

/// `si` indexes a sub-variant of `g` (always zero for a single query).
pub open spec fn valid_sub_index(g: Group, si: int) -> bool {
    match g {
        Group::Single(_) => si == 0,
        Group::Multiple(qs) => 0 <= si < qs@.len(),
    }
}

/// Some query of the group offers both the token and the phrase.
pub open spec fn group_offers(g: Group, tok: Seq<char>, phrase: Seq<char>) -> bool {
    match g {
        Group::Single(q) => q.emojis.deep_view().contains(tok) && q.phrases.deep_view().contains(
            phrase,
        ),
        Group::Multiple(qs) => exists|j: int|
            0 <= j < qs@.len() && (#[trigger] qs@[j]).emojis.deep_view().contains(tok) && qs@[
                j
            ].phrases.deep_view().contains(phrase),
    }
}

/// Some query of the group offers the token.
pub open spec fn group_has_token(g: Group, tok: Seq<char>) -> bool {
    match g {
        Group::Single(q) => q.emojis.deep_view().contains(tok),
        Group::Multiple(qs) => exists|j: int|
            0 <= j < qs@.len() && (#[trigger] qs@[j]).emojis.deep_view().contains(tok),
    }
}

proof fn lemma_sub_query_token(g: Group, si: int, tok: Seq<char>)
    requires
        valid_sub_index(g, si),
        spec_sub_query(g, si).emojis.deep_view().contains(tok),
    ensures
        group_has_token(g, tok),
{
    match g {
        Group::Single(_) => {},
        Group::Multiple(qs) => {
            assert(0 <= si < qs@.len() && qs@[si].emojis.deep_view().contains(tok));
        },
    }
}

proof fn lemma_sub_query_offers(g: Group, si: int, tok: Seq<char>, phrase: Seq<char>)
    requires
        valid_sub_index(g, si),
        spec_sub_query(g, si).emojis.deep_view().contains(tok),
        spec_sub_query(g, si).phrases.deep_view().contains(phrase),
    ensures
        group_offers(g, tok, phrase),
{
    match g {
        Group::Single(_) => {},
        Group::Multiple(qs) => {
            assert(0 <= si < qs@.len() && qs@[si].emojis.deep_view().contains(tok) && qs@[
                si
            ].phrases.deep_view().contains(phrase));
        },
    }
}

fn query_at<'a>(groups: &'a Vec<Group>, gi: usize, si: usize) -> (q: &'a Query)
    requires
        gi < groups@.len(),
        valid_sub_index(groups@[gi as int], si as int),
    ensures
        *q == spec_sub_query(groups@[gi as int], si as int),
{
    match &groups[gi] {
        Group::Single(q) => q,
        Group::Multiple(qs) => &qs[si],
    }
}

/// Picks one of the image candidates a lookup returned, uniformly at random;
/// `None` exactly when the lookup returned none, which the caller surfaces as
/// a provider error.
pub fn choose_candidate(urls: &Vec<String>) -> (r: Option<usize>)
    ensures
        r is None <==> urls@.len() == 0,
        r matches Some(i) ==> i < urls@.len(),
{
    if urls.len() == 0 {
        None
    } else {
        Some(rand_below(urls.len()))
    }
}

/// An N-way challenge: the shown tokens, the single correct one, and the
/// phrase an image lookup runs on for the correct token's concept.
pub struct Combination {
    pub emojis: Vec<String>,
    pub answer: String,
    pub query_phrase: String,
}

/// What a drawn combination guarantees: the tokens come from `n` distinct
/// catalog groups, the answer stands at some position `k` among them, and the
/// group at `k` offers both the answer token and the query phrase from one of
/// its queries.
pub open spec fn pick_witness(
    groups: Seq<Group>,
    n: int,
    c: Combination,
    sel: Seq<int>,
    k: int,
) -> bool {
    &&& sel.len() == n
    &&& forall|i: int, j: int| 0 <= i < j < n ==> sel[i] != sel[j]
    &&& forall|i: int| 0 <= i < n ==> 0 <= #[trigger] sel[i] < groups.len()
    &&& forall|i: int|
        0 <= i < n ==> group_has_token(groups[sel[i]], #[trigger] c.emojis.deep_view()[i])
    &&& 0 <= k < n
    &&& c.answer@ == c.emojis.deep_view()[k]
    &&& group_offers(groups[sel[k]], c.answer@, c.query_phrase@)
}

impl Combination {
    /// Draws a challenge of `queries_amount` tokens from distinct groups of
    /// the catalog, with the correct position chosen among them. Asking for
    /// more tokens than there are groups is a programming error and is ruled
    /// out up front.
    pub fn pick(groups: &Vec<Group>, queries_amount: usize) -> (r: Combination)
        requires
            0 < queries_amount <= groups@.len(),
            catalog_wf(groups@),
        ensures
            r.emojis@.len() == queries_amount,
            exists|sel: Seq<int>, k: int|
                pick_witness(groups@, queries_amount as int, r, sel, k),
    {
        let n = queries_amount;
        let idxs = sample_indices(groups.len(), n);

        // resolve each chosen group to one of its sub-variants
        let mut qsel: Vec<usize> = Vec::new();
        let mut i: usize = 0;
        while i < n
            invariant
                n == idxs@.len(),
                n <= groups@.len(),
                catalog_wf(groups@),
                forall|t: int| 0 <= t < idxs@.len() ==> idxs@[t] < groups@.len(),
                i <= n,
                qsel@.len() == i,
                forall|t: int|
                    0 <= t < i ==> valid_sub_index(
                        groups@[idxs@[t] as int],
                        #[trigger] qsel@[t] as int,
                    ),
            decreases n - i,
        {
            match &groups[idxs[i]] {
                Group::Single(_) => {
                    qsel.push(0);
                },
                Group::Multiple(qs) => {
                    qsel.push(rand_below(qs.len()));
                },
            }
            i += 1;
        }

        // draw one token per resolved query
        let mut emojis: Vec<String> = Vec::new();
        let mut i: usize = 0;
        while i < n
            invariant
                n == idxs@.len(),
                n == qsel@.len(),
                n <= groups@.len(),
                catalog_wf(groups@),
                forall|t: int| 0 <= t < idxs@.len() ==> idxs@[t] < groups@.len(),
                forall|t: int|
                    0 <= t < n ==> valid_sub_index(
                        groups@[idxs@[t] as int],
                        #[trigger] qsel@[t] as int,
                    ),
                i <= n,
                emojis@.len() == i,
                forall|t: int|
                    0 <= t < i ==> spec_sub_query(
                        groups@[idxs@[t] as int],
                        qsel@[t] as int,
                    ).emojis.deep_view().contains(#[trigger] emojis.deep_view()[t]),
            decreases n - i,
        {
            let q = query_at(groups, idxs[i], qsel[i]);
            proof {
                assert(groups@[idxs@[i as int] as int].wf());
                match groups@[idxs@[i as int] as int] {
                    Group::Single(_) => {},
                    Group::Multiple(qs) => {
                        assert(qs@[qsel@[i as int] as int].wf());
                    },
                }
                assert(q.wf());
            }
            let e: usize = if q.emojis.len() == 1 {
                0
            } else {
                rand_below(q.emojis.len())
            };
            let ghost prev = emojis.deep_view();
            emojis.push(q.emojis[e].clone());
            proof {
                assert(emojis.deep_view() =~~= prev.push(q.emojis@[e as int]@));
                assert(q.emojis.deep_view()[e as int] == q.emojis@[e as int]@);
                assert(q.emojis.deep_view().contains(emojis.deep_view()[i as int]));
            }
            i += 1;
        }

        // choose the correct position and a phrase from its query
        let k = rand_below(n);
        let qk = query_at(groups, idxs[k], qsel[k]);
        proof {
            assert(groups@[idxs@[k as int] as int].wf());
            match groups@[idxs@[k as int] as int] {
                Group::Single(_) => {},
                Group::Multiple(qs) => {
                    assert(qs@[qsel@[k as int] as int].wf());
                },
            }
            assert(qk.wf());
        }
        let p: usize = if qk.phrases.len() == 1 {
            0
        } else {
            rand_below(qk.phrases.len())
        };
        let query_phrase = qk.phrases[p].clone();
        let answer = emojis[k].clone();
        proof {
            assert(qk.phrases.deep_view()[p as int] == qk.phrases@[p as int]@);
            assert(qk.phrases.deep_view().contains(query_phrase@));
        }
        let r = Combination { emojis, answer, query_phrase };
        proof {
            let sel = idxs@.map_values(|v: usize| v as int);
            let ki = k as int;
            assert forall|t: int| 0 <= t < n implies group_has_token(
                groups@[sel[t]],
                #[trigger] r.emojis.deep_view()[t],
            ) by {
                lemma_sub_query_token(
                    groups@[idxs@[t] as int],
                    qsel@[t] as int,
                    r.emojis.deep_view()[t],
                );
            }
            assert(r.answer@ == r.emojis.deep_view()[ki]);
            lemma_sub_query_offers(
                groups@[idxs@[ki] as int],
                qsel@[ki] as int,
                r.answer@,
                r.query_phrase@,
            );
            assert(pick_witness(groups@, n as int, r, sel, ki));
        }
        r
    }
}

} // verus!
