//! Ranking-engine behavior: thresholds, ordering, branch selection, and the
//! empty-query browse mode.

use picker::rank::{rank, rank_indices, ScoredIndex, JW_THRESHOLD_BITS, SIMILARITY_ONE_BITS};

fn keys(v: &[&str]) -> Vec<String> {
    v.iter().map(|s| s.to_string()).collect()
}

#[test]
fn empty_query_is_identity_ranking() {
    let store = keys(&["bravo", "alpha", "charlie"]);
    let r = rank("", &store);
    assert_eq!(r.len(), 3);
    for (k, e) in r.iter().enumerate() {
        assert_eq!(e.index, k as u32);
        assert_eq!(e.score, 0);
    }
    assert_eq!(rank_indices("", &store), vec![0, 1, 2]);
}

#[test]
fn empty_query_on_empty_store() {
    let store: Vec<String> = Vec::new();
    assert_eq!(rank("", &store), Vec::<ScoredIndex>::new());
}

#[test]
fn long_query_scores_exceed_threshold_and_sort_descending() {
    let store = keys(&["firefox", "files", "terminal"]);
    let r = rank("fire", &store);
    for e in &r {
        assert!(e.score > 300);
    }
    for w in r.windows(2) {
        assert!(w[0].score >= w[1].score);
        if w[0].score == w[1].score {
            assert!(w[0].index < w[1].index);
        }
    }
}

#[test]
fn firefox_scenario() {
    // "firefox": distance 3 from "fire", length 7, substring bonus; "files":
    // distance 2, length 5, no bonus; "terminal": distance 7, length 8,
    // under the threshold.
    let store = keys(&["firefox", "files", "terminal"]);
    let r = rank("fire", &store);
    assert_eq!(r.len(), 2);
    assert_eq!(r[0], ScoredIndex { index: 0, score: 1000 * 4 / 7 + 500 });
    assert_eq!(r[1], ScoredIndex { index: 1, score: 600 });
    assert_eq!(rank_indices("fire", &store), vec![0, 1]);
}

#[test]
fn short_query_uses_jaro_winkler_only() {
    // With the query buried past the Jaro matching window the similarity is
    // zero, so a three-character query drops the key; Levenshtein with the
    // substring bonus would have kept it.
    let store = keys(&["zzzabc"]);
    assert_eq!(rank_indices("abc", &store), Vec::<u32>::new());
}

#[test]
fn long_query_uses_levenshtein_only() {
    // One character more and the same shape is kept by the substring bonus;
    // Jaro-Winkler would have scored it zero and dropped it.
    let store = keys(&["zzzabcd"]);
    assert_eq!(rank_indices("abcd", &store), vec![0]);
    let r = rank("abcd", &store);
    assert_eq!(r[0].score, 1000 * 4 / 7 + 500);
}

#[test]
fn short_query_exact_match_ranks_first() {
    let store = keys(&["emacs", "vim"]);
    let r = rank("vim", &store);
    assert_eq!(r.len(), 2);
    assert_eq!(r[0].index, 1);
    assert_eq!(r[0].score, SIMILARITY_ONE_BITS);
    assert_eq!(r[1].index, 0);
    assert!(r[1].score > JW_THRESHOLD_BITS);
    assert!(r[1].score < SIMILARITY_ONE_BITS);
}

#[test]
fn score_key_constants_match_the_doubles() {
    assert_eq!(SIMILARITY_ONE_BITS, (1.0f64).to_bits());
    assert_eq!(JW_THRESHOLD_BITS, (0.3f64).to_bits());
    assert_eq!(
        strsim::jaro_winkler("same", "same").to_bits(),
        SIMILARITY_ONE_BITS
    );
}

#[test]
fn bit_pattern_order_matches_similarity_order() {
    let pairs = [("vim", "vi"), ("emacs", "vim"), ("alpha", "alp"), ("x", "x")];
    let mut sims: Vec<(u64, f64)> = pairs
        .iter()
        .map(|(a, b)| (strsim::jaro_winkler(a, b).to_bits(), strsim::jaro_winkler(a, b)))
        .collect();
    sims.sort_by(|x, y| x.0.cmp(&y.0));
    for w in sims.windows(2) {
        assert!(w[0].1 <= w[1].1);
    }
}

#[test]
fn query_is_lowercased_against_lowercase_keys() {
    // `rank` takes precomputed lowercase keys and folds only the query; a
    // case mismatch scores zero under Jaro-Winkler, so this passes only if
    // the query really is folded.
    let store = keys(&["vim"]);
    assert_eq!(rank_indices("VIM", &store), vec![0]);
    assert_eq!(rank_indices("vim", &store), vec![0]);
}

#[test]
fn levenshtein_distance_is_exact() {
    // distance 2 over length 5: exactly six hundred thousandths, no bonus
    let store = keys(&["files"]);
    let r = rank("fire", &store);
    assert_eq!(r.len(), 1);
    assert_eq!(r[0].score, 600);
    assert_eq!(strsim::levenshtein("files", "fire"), 2);
}

#[test]
fn no_match_above_threshold_yields_empty_result() {
    let store = keys(&["terminal", "console"]);
    let r = rank("fire", &store);
    assert!(r.is_empty());
}

#[test]
fn tie_scores_order_by_original_index() {
    // identical keys score identically; the earlier original index wins
    let store = keys(&["pad", "pad"]);
    assert_eq!(rank_indices("pad", &store), vec![0, 1]);
}
