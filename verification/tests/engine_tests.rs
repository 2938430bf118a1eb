use captcha_bot::engine::{ChallengeEngine, VerifyOutcome};
use captcha_bot::qna::{Combination, Group, Query, choose_candidate};
use captcha_bot::store::ExpiringStore;

fn small_catalog(n: usize) -> Vec<Group> {
    let mut groups = Vec::new();
    for i in 0..n {
        groups.push(Group::Single(Query {
            emojis: vec![format!("t{}", i)],
            phrases: vec![format!("p{}", i)],
        }));
    }
    groups
}

#[test]
fn pick_draws_distinct_tokens_with_tied_phrase() {
    let groups = small_catalog(10);
    for _ in 0..50 {
        let c = Combination::pick(&groups, 6);
        assert_eq!(c.emojis.len(), 6);
        // tokens come from distinct single-token groups, so they are distinct
        for i in 0..c.emojis.len() {
            for j in 0..i {
                assert_ne!(c.emojis[i], c.emojis[j]);
            }
        }
        // the answer is one of the shown tokens
        let k = c.emojis.iter().position(|e| *e == c.answer).unwrap();
        // the phrase belongs to the same group as the token at the answer position
        let token_idx: usize = c.emojis[k][1..].parse().unwrap();
        assert_eq!(c.query_phrase, format!("p{}", token_idx));
    }
}

#[test]
fn pick_full_catalog_uses_every_group() {
    let groups = small_catalog(4);
    let c = Combination::pick(&groups, 4);
    let mut tokens: Vec<String> = c.emojis.clone();
    tokens.sort();
    assert_eq!(tokens, vec!["t0", "t1", "t2", "t3"]);
}

#[test]
fn pick_resolves_multi_variant_groups() {
    let groups = vec![
        Group::Multiple(vec![
            Query { emojis: vec!["lion".to_string()], phrases: vec!["a lion".to_string()] },
            Query { emojis: vec!["tiger".to_string()], phrases: vec!["a tiger".to_string()] },
        ]),
        Group::Single(Query {
            emojis: vec!["fox".to_string()],
            phrases: vec!["a fox".to_string()],
        }),
    ];
    for _ in 0..20 {
        let c = Combination::pick(&groups, 2);
        assert_eq!(c.emojis.len(), 2);
        // one token from each group; the variants never appear together
        let cats = c.emojis.iter().filter(|e| *e == "lion" || *e == "tiger").count();
        let foxes = c.emojis.iter().filter(|e| *e == "fox").count();
        assert_eq!(cats, 1);
        assert_eq!(foxes, 1);
    }
}

#[test]
fn issue_then_verify_correct_and_incorrect() {
    let groups = small_catalog(8);
    let mut engine = ChallengeEngine::new();
    let now = 1_000_000;
    let c = engine.issue(&groups, 100, 42, 6, now, 60, 300);
    assert_eq!(engine.verify(100, 42, &c.answer, now + 1), VerifyOutcome::Correct);
    let wrong = c.emojis.iter().find(|e| **e != c.answer).unwrap();
    assert_eq!(engine.verify(100, 42, wrong, now + 1), VerifyOutcome::Incorrect);
}

#[test]
fn verify_without_issue_reports_no_challenge() {
    let engine = ChallengeEngine::new();
    assert_eq!(engine.verify(100, 42, "anything", 5), VerifyOutcome::NoSuchChallenge);
}

#[test]
fn verify_after_expiry_reports_no_challenge() {
    let groups = small_catalog(8);
    let mut engine = ChallengeEngine::new();
    let now = 1_000_000;
    let c = engine.issue(&groups, 100, 42, 6, now, 60, 300);
    assert_eq!(engine.verify(100, 42, &c.answer, now + 59), VerifyOutcome::Correct);
    assert_eq!(engine.verify(100, 42, &c.answer, now + 60), VerifyOutcome::NoSuchChallenge);
}

#[test]
fn ignore_window_opens_and_lapses() {
    let groups = small_catalog(8);
    let mut engine = ChallengeEngine::new();
    let now = 1_000_000;
    engine.issue(&groups, 100, 42, 6, now, 60, 300);
    assert!(engine.is_ignored(100, 42, now));
    assert!(engine.is_ignored(100, 42, now + 299));
    assert!(!engine.is_ignored(100, 42, now + 300));
    assert!(!engine.is_ignored(100, 43, now));
    assert!(!engine.is_ignored(101, 42, now));
}

#[test]
fn second_issue_overwrites_first() {
    // single-token groups around two disjoint catalogs force distinct answers
    let groups_a = vec![Group::Single(Query {
        emojis: vec!["a".to_string()],
        phrases: vec!["pa".to_string()],
    })];
    let groups_b = vec![Group::Single(Query {
        emojis: vec!["b".to_string()],
        phrases: vec!["pb".to_string()],
    })];
    let mut engine = ChallengeEngine::new();
    let now = 50;
    let c1 = engine.issue(&groups_a, 7, 9, 1, now, 60, 300);
    let c2 = engine.issue(&groups_b, 7, 9, 1, now + 5, 60, 300);
    assert_eq!(c1.answer, "a");
    assert_eq!(c2.answer, "b");
    assert_eq!(engine.verify(7, 9, "b", now + 6), VerifyOutcome::Correct);
    assert_eq!(engine.verify(7, 9, "a", now + 6), VerifyOutcome::Incorrect);
}

#[test]
fn store_expiry_is_strict_and_lazy() {
    let mut store = ExpiringStore::new();
    store.set_answer(1, 2, "tok".to_string(), 100, 60, 300);
    assert_eq!(store.get_answer(1, 2, 100), Some("tok".to_string()));
    assert_eq!(store.get_answer(1, 2, 159), Some("tok".to_string()));
    assert_eq!(store.get_answer(1, 2, 160), None);
    assert_eq!(store.get_answer(1, 3, 100), None);
    assert!(store.is_ignored(1, 2, 399));
    assert!(!store.is_ignored(1, 2, 400));
}

#[test]
fn end_to_end_join_answer_and_ignore() {
    // a new member joins chat 100: captcha_ttl = 60, ignore_ttl = 300
    let groups = small_catalog(12);
    let mut engine = ChallengeEngine::new();
    let joined_at = 10_000;
    let c = engine.issue(&groups, 100, 555, 6, joined_at, 60, 300);
    assert_eq!(c.emojis.len(), 6);

    // the correct token lifts the restriction within the same interaction
    assert_eq!(engine.verify(100, 555, &c.answer, joined_at + 3), VerifyOutcome::Correct);

    // an incorrect token before 60 s keeps the restriction
    let wrong = c.emojis.iter().find(|e| **e != c.answer).unwrap();
    assert_eq!(engine.verify(100, 555, wrong, joined_at + 59), VerifyOutcome::Incorrect);

    // the member stays ignored while the horizon lasts, then is challengeable again
    assert!(engine.is_ignored(100, 555, joined_at + 299));
    assert!(!engine.is_ignored(100, 555, joined_at + 300));
    assert!(!engine.is_ignored(100, 555, joined_at + 301));
}

#[test]
fn choose_candidate_picks_from_list_and_rejects_empty() {
    let empty: Vec<String> = Vec::new();
    assert_eq!(choose_candidate(&empty), None);
    let urls = vec!["u0".to_string(), "u1".to_string(), "u2".to_string()];
    for _ in 0..20 {
        let i = choose_candidate(&urls).unwrap();
        assert!(i < urls.len());
    }
}
