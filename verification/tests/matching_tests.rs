use zkfp::matching::{
    angle_histogram, bidirectional_score, combine_scores, identify_outcome, match_result,
    no_match, normalize_degrees, normalize_score, rank_candidates, round_robin_tasks,
    stable_order, template_image_height, top_by_score, BestMatch, IdentifyResult,
    MemorySearchGallery, PreFilter,
};
use zkfp::matching::{fast_path_settles, search_mode, SearchMode};

#[test]
fn prefilter_distance_is_rotation_invariant() {
    let a = PreFilter::new(10, [1, 2, 3, 4, 0, 0, 0, 0], [5, 0, 0, 0, 0, 0, 0, 0]);
    let b = PreFilter::new(12, [3, 4, 0, 0, 0, 0, 1, 2], [4, 1, 0, 0, 0, 0, 0, 0]);
    // b's angles are a's rotated by two bins: angle distance 0;
    // radial distance 2, counted twice; count difference 2
    assert_eq!(a.distance(&b), 0 + 2 * 2 + 2);
    assert_eq!(a.distance(&a), 0);
    let c = PreFilter::new(10, [0, 0, 0, 0, 0, 0, 0, 9], [5, 0, 0, 0, 0, 0, 0, 0]);
    // best rotation puts 9 over 4: |1|+|2|+|3|+|4-9| = 11
    assert_eq!(a.distance(&c), 11);
}

#[test]
fn angle_histogram_bins() {
    let h = angle_histogram(&[0, 44, 45, 90, 359, 400]);
    assert_eq!(h, [2, 1, 1, 0, 0, 0, 0, 2]);
    let many = vec![10i32; 300];
    assert_eq!(angle_histogram(&many)[0], 255);
}

#[test]
fn score_helpers() {
    assert_eq!(normalize_score(4000), 0);
    assert_eq!(normalize_score(37), 37);
    assert_eq!(bidirectional_score(12, 30), 30);
    assert_eq!(combine_scores(4000, 90), 0);
    assert_eq!(combine_scores(90, 4000), 0);
    assert_eq!(combine_scores(40, 55), 55);
    assert_eq!(combine_scores(55, 40), combine_scores(40, 55));
    assert_eq!(normalize_degrees(-90), 270);
    assert_eq!(normalize_degrees(725), 5);
    let mut iso = vec![0u8; 18];
    iso[16] = 1;
    iso[17] = 0x77;
    assert_eq!(template_image_height(&iso), 375);
    assert_eq!(template_image_height(&[0u8; 10]), 375);
    iso[17] = 0x90;
    assert_eq!(template_image_height(&iso), 400);
}

#[test]
fn results() {
    let m = match_result(50, 50);
    assert!(m.is_match && m.score == 50 && m.paired_minutiae.is_empty());
    assert!(!match_result(49, 50).is_match);
    let n = no_match();
    assert!(!n.is_match && n.score == 0);
    assert_eq!(identify_outcome(Some(7), 25, 20), IdentifyResult { user_id: Some(7), score: 25 });
    assert_eq!(identify_outcome(Some(7), 19, 20), IdentifyResult { user_id: None, score: 19 });
}

#[test]
fn stable_ranking() {
    assert_eq!(stable_order(&[3, 1, 3, 0, 1]), vec![3, 1, 4, 0, 2]);
    let cands = vec![(10usize, 5u32), (11, 2), (12, 5), (13, 1)];
    assert_eq!(rank_candidates(&cands, 1000), vec![13, 11, 10, 12]);
    assert_eq!(rank_candidates(&cands, 2), vec![13, 11]);
    assert_eq!(top_by_score(&[10, 40, 40, 5], 2), vec![1, 2]);
    assert_eq!(top_by_score(&[10, 40], 25), vec![1, 0]);
}

#[test]
fn best_match_keeps_first_highest() {
    let mut b = BestMatch::new();
    b.consider_all(&[(1, 10), (2, 30), (3, 30), (4, -5)]);
    assert_eq!((b.best_id, b.best_score), (Some(2), 30));
    b.update(9, 31);
    assert_eq!((b.best_id, b.best_score), (Some(9), 31));
    let mut z = BestMatch::new();
    z.consider_all(&[(1, 0), (2, -3)]);
    assert_eq!((z.best_id, z.best_score), (None, 0));
}

#[test]
fn round_robin() {
    assert_eq!(round_robin_tasks(128, 140, 1, 4), vec![129, 133, 137]);
    assert_eq!(round_robin_tasks(10, 10, 0, 3), Vec::<usize>::new());
}

#[test]
fn gallery_operations() {
    let mut g: MemorySearchGallery<&str> = MemorySearchGallery::new();
    g.insert(1, "a");
    g.insert(2, "b");
    g.insert(1, "c");
    assert_eq!(g.len(), 3);
    assert_eq!(g.position(2), Some(1));
    g.remove(1);
    assert_eq!(g.len(), 1);
    assert_eq!(g.entries[0], (2, "b"));
    assert_eq!(g.position(1), None);
    g.clear();
    assert_eq!(g.len(), 0);
}

#[test]
fn search_mode_follows_gallery_size_and_workers() {
    assert_eq!(search_mode(0, 8), SearchMode::Empty);
    assert_eq!(search_mode(50, 8), SearchMode::Sequential);
    assert_eq!(search_mode(500, 1), SearchMode::Sequential);
    assert_eq!(search_mode(500, 8), SearchMode::Forked { workers: 8 });
    assert_eq!(search_mode(100, 200), SearchMode::Forked { workers: 100 });
}

#[test]
fn fast_path_settles_on_threshold_or_exhaustion() {
    assert!(fast_path_settles(40, 40, 300, 128));
    assert!(fast_path_settles(10, 40, 128, 128));
    assert!(!fast_path_settles(39, 40, 300, 128));
}

#[test]
fn ranking_keeps_every_candidate_below_the_limit() {
    let cands = vec![(7usize, 30u32), (2, 5), (9, 30), (4, 0)];
    let r = rank_candidates(&cands, usize::MAX);
    assert_eq!(r, vec![4, 2, 7, 9]);
    let cut = rank_candidates(&cands, 2);
    assert_eq!(cut, vec![4, 2]);
}
