//! Matching decisions around the Bozorth3 scorer: the pre-filter that ranks
//! gallery candidates, the ranking and re-ranking of candidates, and how the
//! scores become match and identification results.

use vstd::prelude::*;

verus! {

/// Identification threshold used when none is given.
pub const DEFAULT_THRESHOLD: i32 = 20;

/// Verification threshold used when none is given.
pub const DEFAULT_VERIFY_THRESHOLD: i32 = 50;

/// Most minutiae that the Bozorth3 structure holds.
pub const MAX_BOZORTH_MINUTIAE: usize = 200;

/// Most minutiae kept per template (the NIST limit).
pub const MAX_KEPT_MINUTIAE: usize = 150;

/// The Bozorth3 score that stands for a failed comparison.
pub const BOZORTH_FAILURE_SCORE: i32 = 4000;

/// Sensor height assumed when a template header is too short to say.
pub const DEFAULT_TEMPLATE_HEIGHT: i32 = 375;

// --- Pre-filter ---

/// A cheap signature of a template used to order candidates before the
/// expensive comparison: the minutia count, an 8-bin histogram of minutia
/// angles (45 degrees each) and an 8-bin histogram of distances to the
/// centroid.
#[derive(Debug, Clone, Copy)]
pub struct PreFilter {
    pub count: u16,
    pub angle_hist: [u8; 8],
    pub radial_hist: [u8; 8],
}

/// `|a - b|` of two histogram entries.
pub open spec fn bin_diff(a: u8, b: u8) -> nat {
    if a >= b {
        (a - b) as nat
    } else {
        (b - a) as nat
    }
}

/// The angle histogram distance when `b` is read rotated by `shift` bins,
/// over the first `k` bins.
pub open spec fn shifted_dist(a: Seq<u8>, b: Seq<u8>, shift: int, k: nat) -> nat
    decreases k,
{
    if k == 0 {
        0
    } else {
        shifted_dist(a, b, shift, (k - 1) as nat) + bin_diff(a[k - 1], b[(k - 1 + shift) % 8])
    }
}

/// The smallest rotated angle distance over the first `k` rotations.
pub open spec fn best_shift_dist(a: Seq<u8>, b: Seq<u8>, k: nat) -> nat
    decreases k,
{
    if k <= 1 {
        shifted_dist(a, b, 0, 8)
    } else {
        let m = best_shift_dist(a, b, (k - 1) as nat);
        let d = shifted_dist(a, b, k - 1, 8);
        if d < m {
            d
        } else {
            m
        }
    }
}

/// The radial histogram distance over the first `k` bins.
pub open spec fn radial_dist(a: Seq<u8>, b: Seq<u8>, k: nat) -> nat
    decreases k,
{
    if k == 0 {
        0
    } else {
        radial_dist(a, b, (k - 1) as nat) + bin_diff(a[k - 1], b[k - 1])
    }
}

/// The pre-filter distance (lower is likelier to match): the angle
/// histogram distance under the best of the 8 rotations, so a rotated
/// finger is not pushed back, plus twice the radial histogram distance,
/// plus the difference of the minutia counts.
pub open spec fn prefilter_distance(p: PreFilter, q: PreFilter) -> nat {
    let c = if p.count >= q.count {
        (p.count - q.count) as nat
    } else {
        (q.count - p.count) as nat
    };
    best_shift_dist(p.angle_hist@, q.angle_hist@, 8) + 2 * radial_dist(
        p.radial_hist@,
        q.radial_hist@,
        8,
    ) + c
}

fn diff_u8(a: u8, b: u8) -> (r: u32)
    ensures
        r == bin_diff(a, b),
{
    if a >= b {
        (a - b) as u32
    } else {
        (b - a) as u32
    }
}

proof fn lemma_shifted_dist_bound(a: Seq<u8>, b: Seq<u8>, shift: int, k: nat)
    ensures
        shifted_dist(a, b, shift, k) <= 255 * k,
    decreases k,
{
    if k > 0 {
        lemma_shifted_dist_bound(a, b, shift, (k - 1) as nat);
    }
}

proof fn lemma_radial_dist_bound(a: Seq<u8>, b: Seq<u8>, k: nat)
    ensures
        radial_dist(a, b, k) <= 255 * k,
    decreases k,
{
    if k > 0 {
        lemma_radial_dist_bound(a, b, (k - 1) as nat);
    }
}

proof fn lemma_best_shift_bound(a: Seq<u8>, b: Seq<u8>, k: nat)
    ensures
        best_shift_dist(a, b, k) <= 255 * 8,
    decreases k,
{
    if k <= 1 {
        lemma_shifted_dist_bound(a, b, 0, 8);
    } else {
        lemma_best_shift_bound(a, b, (k - 1) as nat);
        lemma_shifted_dist_bound(a, b, k - 1, 8);
    }
}

impl PreFilter {
    /// The angle histogram distance with `other` rotated by `shift` bins.
    fn shifted_angle_dist(&self, other: &PreFilter, shift: usize) -> (r: u32)
        requires
            shift < 8,
        ensures
            r == shifted_dist(self.angle_hist@, other.angle_hist@, shift as int, 8),
    {
        let mut sum: u32 = 0;
        let mut i: usize = 0;
        while i < 8
            invariant
                shift < 8,
                i <= 8,
                sum == shifted_dist(self.angle_hist@, other.angle_hist@, shift as int, i as nat),
                sum <= 255 * i,
            decreases 8 - i,
        {
            let d = diff_u8(self.angle_hist[i], other.angle_hist[(i + shift) % 8]);
            sum = sum + d;
            i = i + 1;
        }
        sum
    }

    /// The heuristic distance between two signatures (see
    /// `prefilter_distance`).
    pub fn distance(&self, other: &PreFilter) -> (r: u32)
        ensures
            r == prefilter_distance(*self, *other),
    {
        let (lo, hi) = if self.count < other.count {
            (self.count as u32, other.count as u32)
        } else {
            (other.count as u32, self.count as u32)
        };
        let mut best: u32 = self.shifted_angle_dist(other, 0);
        let mut shift: usize = 1;
        while shift < 8
            invariant
                1 <= shift <= 8,
                best == best_shift_dist(self.angle_hist@, other.angle_hist@, shift as nat),
            decreases 8 - shift,
        {
            let d = self.shifted_angle_dist(other, shift);
            if d < best {
                best = d;
            }
            shift = shift + 1;
        }
        let mut radial: u32 = 0;
        let mut i: usize = 0;
        while i < 8
            invariant
                i <= 8,
                radial == radial_dist(self.radial_hist@, other.radial_hist@, i as nat),
                radial <= 255 * i,
            decreases 8 - i,
        {
            radial = radial + diff_u8(self.radial_hist[i], other.radial_hist[i]);
            i = i + 1;
        }
        proof {
            lemma_best_shift_bound(self.angle_hist@, other.angle_hist@, 8);
        }
        // every term is small, so the sum cannot saturate
        let count_penalty = hi - lo;
        best + radial * 2 + count_penalty
    }
}

/// A histogram read rotated by `r` bins.
pub open spec fn rotate_bins(b: Seq<u8>, r: int) -> Seq<u8> {
    Seq::new(8, |i: int| b[(i + r) % 8])
}

proof fn lemma_shifted_rotate(a: Seq<u8>, b: Seq<u8>, r: int, s: int, k: nat)
    requires
        b.len() == 8,
        0 <= r < 8,
        0 <= s < 8,
        k <= 8,
    ensures
        shifted_dist(a, rotate_bins(b, r), s, k) == shifted_dist(a, b, (s + r) % 8, k),
    decreases k,
{
    if k > 0 {
        lemma_shifted_rotate(a, b, r, s, (k - 1) as nat);
        let x = k - 1 + s;
        assert(0 <= x % 8 < 8);
        assert(rotate_bins(b, r)[x % 8] == b[(x % 8 + r) % 8]);
        assert((x % 8 + r) % 8 == (k - 1 + (s + r) % 8) % 8) by {
            vstd::arithmetic::div_mod::lemma_add_mod_noop(x, r, 8);
            vstd::arithmetic::div_mod::lemma_add_mod_noop(k - 1, s + r, 8);
            vstd::arithmetic::div_mod::lemma_mod_twice(r, 8);
            vstd::arithmetic::div_mod::lemma_small_mod(r as nat, 8);
            vstd::arithmetic::div_mod::lemma_small_mod((k - 1) as nat, 8);
            assert(x + r == (k - 1) + (s + r));
        }
    }
}

proof fn lemma_best_shift_is_min(a: Seq<u8>, b: Seq<u8>, k: nat)
    requires
        1 <= k <= 8,
    ensures
        forall|s: int| 0 <= s < k ==> best_shift_dist(a, b, k) <= #[trigger] shifted_dist(a, b, s, 8),
        exists|s: int| 0 <= s < k && best_shift_dist(a, b, k) == #[trigger] shifted_dist(a, b, s, 8),
    decreases k,
{
    if k > 1 {
        lemma_best_shift_is_min(a, b, (k - 1) as nat);
        let m = best_shift_dist(a, b, (k - 1) as nat);
        let t = choose|s: int| 0 <= s < k - 1 && m == #[trigger] shifted_dist(a, b, s, 8);
        if shifted_dist(a, b, k - 1, 8) < m {
            assert(best_shift_dist(a, b, k) == shifted_dist(a, b, k - 1, 8));
        } else {
            assert(best_shift_dist(a, b, k) == shifted_dist(a, b, t, 8));
        }
    } else {
        assert(best_shift_dist(a, b, k) == shifted_dist(a, b, 0, 8));
    }
}

/// The pre-filter distance is rotation invariant: turning the finger, which
/// rotates its angle histogram by whole bins, leaves the distance unchanged.
pub proof fn law_prefilter_rotation_invariant(p: PreFilter, q: PreFilter, q2: PreFilter, r: int)
    requires
        0 <= r < 8,
        q2.count == q.count,
        q2.radial_hist == q.radial_hist,
        q2.angle_hist@ == rotate_bins(q.angle_hist@, r),
    ensures
        prefilter_distance(p, q2) == prefilter_distance(p, q),
{
    let a = p.angle_hist@;
    let b = q.angle_hist@;
    let b2 = q2.angle_hist@;
    lemma_best_shift_is_min(a, b, 8);
    lemma_best_shift_is_min(a, b2, 8);
    let lo2 = best_shift_dist(a, b2, 8);
    let lo = best_shift_dist(a, b, 8);
    let s2 = choose|s: int| 0 <= s < 8 && lo2 == #[trigger] shifted_dist(a, b2, s, 8);
    lemma_shifted_rotate(a, b, r, s2, 8);
    assert(0 <= (s2 + r) % 8 < 8);
    assert(lo <= shifted_dist(a, b, (s2 + r) % 8, 8));
    let s1 = choose|s: int| 0 <= s < 8 && lo == #[trigger] shifted_dist(a, b, s, 8);
    let t = (s1 - r + 8) % 8;
    lemma_shifted_rotate(a, b, r, t, 8);
    assert((t + r) % 8 == s1) by {
        vstd::arithmetic::div_mod::lemma_add_mod_noop(s1 - r + 8, r, 8);
        vstd::arithmetic::div_mod::lemma_small_mod(r as nat, 8);
        vstd::arithmetic::div_mod::lemma_mod_add_multiples_vanish(s1, 8);
        vstd::arithmetic::div_mod::lemma_small_mod(s1 as nat, 8);
    }
    assert(lo2 <= shifted_dist(a, b2, t, 8));
}

/// A signature is at distance 0 from itself.
pub proof fn law_prefilter_self_distance(p: PreFilter)
    ensures
        prefilter_distance(p, p) == 0,
{
    assert(shifted_dist(p.angle_hist@, p.angle_hist@, 0, 8) == 0) by {
        reveal_with_fuel(shifted_dist, 9);
    }
    assert(radial_dist(p.radial_hist@, p.radial_hist@, 8) == 0) by {
        reveal_with_fuel(radial_dist, 9);
    }
    lemma_best_shift_zero(p.angle_hist@, 8);
}

proof fn lemma_best_shift_zero(a: Seq<u8>, k: nat)
    requires
        shifted_dist(a, a, 0, 8) == 0,
    ensures
        best_shift_dist(a, a, k) == 0,
    decreases k,
{
    if k > 1 {
        lemma_best_shift_zero(a, (k - 1) as nat);
    }
}


/// The angle histogram of minutia directions (degrees, `0 <= t`): bin
/// `t * 8 / 360`, the last bin taking everything above; each bin stops
/// counting at 255.
pub open spec fn angle_bin(t: i32) -> int {
    let b = (t as int) * 8 / 360;
    if b < 7 {
        b
    } else {
        7
    }
}

/// The number of directions among the first `k` that fall in bin `bin`,
/// counting up to 255.
pub open spec fn angle_count(thetas: Seq<i32>, bin: int, k: nat) -> nat
    decreases k,
{
    if k == 0 {
        0
    } else {
        let c = angle_count(thetas, bin, (k - 1) as nat);
        if angle_bin(thetas[k - 1]) == bin && c < 255 {
            c + 1
        } else {
            c
        }
    }
}

/// Builds the angle histogram of a template's minutia directions.
pub fn angle_histogram(thetas: &[i32]) -> (r: [u8; 8])
    requires
        forall|i: int| 0 <= i < thetas@.len() ==> 0 <= #[trigger] thetas@[i] && thetas@[i] * 8
            <= usize::MAX,
    ensures
        forall|b: int| 0 <= b < 8 ==> #[trigger] r@[b] == angle_count(thetas@, b, thetas@.len()),
{
    let mut hist: [u8; 8] = [0u8; 8];
    let n = thetas.len();
    let mut i: usize = 0;
    while i < n
        invariant
            n == thetas@.len(),
            i <= n,
            forall|j: int| 0 <= j < thetas@.len() ==> 0 <= #[trigger] thetas@[j] && thetas@[j] * 8
                <= usize::MAX,
            forall|b: int| 0 <= b < 8 ==> #[trigger] hist@[b] == angle_count(thetas@, b, i as nat),
        decreases n - i,
    {
        let t = thetas[i];
        let raw = (t as usize) * 8 / 360;
        let bin: usize = if raw < 7 {
            raw
        } else {
            7
        };
        assert(bin == angle_bin(thetas@[i as int]));
        let c = hist[bin];
        let ghost before = hist@;
        hist[bin] = if c < 255 {
            c + 1
        } else {
            255
        };
        assert forall|b: int| 0 <= b < 8 implies #[trigger] hist@[b] == angle_count(
            thetas@,
            b,
            (i + 1) as nat,
        ) by {
            if b != bin {
                assert(hist@[b] == before[b]);
            }
        }
        i = i + 1;
    }
    hist
}

impl PreFilter {
    /// A signature from its parts.
    pub fn new(count: u16, angle_hist: [u8; 8], radial_hist: [u8; 8]) -> (r: PreFilter)
        ensures
            r.count == count,
            r.angle_hist == angle_hist,
            r.radial_hist == radial_hist,
    {
        PreFilter { count, angle_hist, radial_hist }
    }
}

/// The height of the image that an ISO 19794-2 template describes: the
/// big-endian word at bytes 16 and 17 of its header, or 375 when the header
/// is shorter.
pub fn template_image_height(iso: &[u8]) -> (r: i32)
    ensures
        iso@.len() >= 18 ==> r == iso@[16] * 256 + iso@[17],
        iso@.len() < 18 ==> r == DEFAULT_TEMPLATE_HEIGHT,
{
    if iso.len() >= 18 {
        (iso[16] as i32) * 256 + (iso[17] as i32)
    } else {
        DEFAULT_TEMPLATE_HEIGHT
    }
}

/// A minutia direction in whole degrees brought into `[0, 360)`.
pub open spec fn normalized_degrees(t: int) -> int {
    let m = t % 360;
    if m < 0 {
        m + 360
    } else {
        m
    }
}

/// Brings a rounded minutia direction into `[0, 360)` as the remainder of
/// truncating division does it, then adds 360 to a negative remainder.
pub fn normalize_degrees(t: i32) -> (r: i32)
    ensures
        0 <= r < 360,
        r == normalized_degrees(t as int),
{
    let m = t % 360;
    if m < 0 {
        m + 360
    } else {
        m
    }
}

// --- Scores and results ---

/// A single-direction Bozorth3 score, with the failure marker 4000 read as 0.
pub open spec fn normalized_score(raw: i32) -> i32 {
    if raw == BOZORTH_FAILURE_SCORE {
        0
    } else {
        raw
    }
}

/// Reads a raw Bozorth3 score: the failure marker 4000 counts as 0.
pub fn normalize_score(raw: i32) -> (r: i32)
    ensures
        r == normalized_score(raw),
{
    if raw == BOZORTH_FAILURE_SCORE {
        0
    } else {
        raw
    }
}

/// The score of both directions together: the larger one.
pub fn bidirectional_score(ab: i32, ba: i32) -> (r: i32)
    ensures
        r == if ab >= ba {
            ab
        } else {
            ba
        },
        r >= ab && r >= ba,
        r == ab || r == ba,
{
    if ab >= ba {
        ab
    } else {
        ba
    }
}

/// The outcome of a one-to-one comparison.
#[derive(Debug, Clone)]
pub struct MatchResult {
    pub score: i32,
    pub is_match: bool,
    pub paired_minutiae: Vec<(usize, usize)>,
}

/// The outcome of a one-to-many search: the best candidate when it reached
/// the threshold, and the best score either way.
#[derive(Debug, Clone, Copy, PartialEq, Eq, Structural)]
pub struct IdentifyResult {
    pub user_id: Option<u32>,
    pub score: i32,
}

/// An identification together with the verification of its candidate.
#[derive(Debug, Clone)]
pub struct VerifiedIdentifyResult {
    pub identify: IdentifyResult,
    pub verify: MatchResult,
}

/// The verification result for `score`: a match when it reaches the
/// threshold; no minutia pairs are reported.
pub fn match_result(score: i32, verify_threshold: i32) -> (r: MatchResult)
    ensures
        r.score == score,
        r.is_match == (score >= verify_threshold),
        r.paired_minutiae@.len() == 0,
{
    MatchResult { score, is_match: score >= verify_threshold, paired_minutiae: Vec::new() }
}

/// The result when there is nothing to verify: score 0, no match.
pub fn no_match() -> (r: MatchResult)
    ensures
        r.score == 0,
        !r.is_match,
        r.paired_minutiae@.len() == 0,
{
    MatchResult { score: 0, is_match: false, paired_minutiae: Vec::new() }
}

/// The identification result for the best candidate found: its id only
/// when its score reaches the threshold.
pub fn identify_outcome(best_id: Option<u32>, best_score: i32, threshold: i32) -> (r:
    IdentifyResult)
    ensures
        r.score == best_score,
        r.user_id == if best_score >= threshold {
            best_id
        } else {
            None::<u32>
        },
{
    IdentifyResult { user_id: if best_score >= threshold { best_id } else { None }, score: best_score }
}

/// The combined score of two minutiae sets, compared both ways: a failed
/// forward comparison (4000) gives 0; otherwise a failed backward one gives
/// 0; otherwise the larger of the two.
pub open spec fn combined_score(forward: i32, backward: i32) -> i32 {
    if forward == BOZORTH_FAILURE_SCORE {
        0
    } else if backward == BOZORTH_FAILURE_SCORE {
        0
    } else if forward >= backward {
        forward
    } else {
        backward
    }
}

/// Combines the two directions of a minutiae comparison (see
/// `combined_score`).
pub fn combine_scores(forward: i32, backward: i32) -> (r: i32)
    ensures
        r == combined_score(forward, backward),
{
    if forward == BOZORTH_FAILURE_SCORE {
        0
    } else if backward == BOZORTH_FAILURE_SCORE {
        0
    } else if forward >= backward {
        forward
    } else {
        backward
    }
}

/// The combined score does not depend on which set is compared first.
pub proof fn law_combined_score_symmetric(a: i32, b: i32)
    ensures
        combined_score(a, b) == combined_score(b, a),
{
}


// --- Candidate ranking ---

/// Candidates ranked before scoring in a sequential search.
pub const SEQ_CANDIDATE_LIMIT: usize = 1000;

/// Best single-direction results re-scored in both directions in a
/// sequential search.
pub const FINAL_RERANK_TOP_K: usize = 25;

/// Candidates scored before the search is handed to worker processes.
pub const FAST_PATH_COUNT: usize = 128;

/// Best fast-path results re-scored in both directions.
pub const FAST_PATH_RERANK_TOP_K: usize = 16;

/// Galleries smaller than this are searched sequentially.
pub const PARALLEL_MIN_ENTRIES: usize = 100;

/// How a one-to-many search runs.
#[derive(Debug, Clone, Copy, PartialEq, Eq, Structural)]
pub enum SearchMode {
    /// The gallery is empty: nothing to search.
    Empty,
    /// One process scores the candidates in turn.
    Sequential,
    /// The search is shared among this many worker processes.
    Forked { workers: usize },
}

/// The search mode for a gallery of `entries` templates on a machine that
/// runs `available` workers at once: no search for an empty gallery; one
/// worker per entry at most; sequential when that leaves one worker or the
/// gallery is small.
pub fn search_mode(entries: usize, available: usize) -> (r: SearchMode)
    ensures
        entries == 0 ==> r == SearchMode::Empty,
        entries > 0 ==> {
            let workers = if available < entries { available } else { entries };
            if workers <= 1 || entries < PARALLEL_MIN_ENTRIES {
                r == SearchMode::Sequential
            } else {
                r == SearchMode::Forked { workers }
            }
        },
{
    if entries == 0 {
        return SearchMode::Empty;
    }
    let workers = if available < entries { available } else { entries };
    if workers <= 1 || entries < PARALLEL_MIN_ENTRIES {
        SearchMode::Sequential
    } else {
        SearchMode::Forked { workers }
    }
}

/// Whether a shared search ends after its fast path: when the best score
/// found there reaches the threshold, or when no candidate is left for the
/// workers.
pub fn fast_path_settles(best_score: i32, threshold: i32, ranked: usize, fast: usize) -> (r: bool)
    ensures
        r == (best_score >= threshold || ranked == fast),
{
    best_score >= threshold || ranked == fast
}

/// Position `i` comes before position `j`: a smaller key, or the same key
/// and an earlier position.
pub open spec fn key_before(keys: Seq<i64>, i: int, j: int) -> bool {
    keys[i] < keys[j] || (keys[i] == keys[j] && i < j)
}

/// `order` lists the positions of `keys` by increasing key, equal keys in
/// the order given (a stable sort). As the order is strict, it names
/// every position exactly once.
pub open spec fn is_stable_order(keys: Seq<i64>, order: Seq<usize>) -> bool {
    &&& order.len() == keys.len()
    &&& forall|i: int| 0 <= i < order.len() ==> #[trigger] order[i] < keys.len()
    &&& forall|i: int, j: int|
        0 <= i < j < order.len() ==> key_before(keys, #[trigger] order[i] as int, #[trigger] order[j] as int)
}

/// The positions of `keys` in stable ascending order of key.
pub fn stable_order(keys: &[i64]) -> (r: Vec<usize>)
    ensures
        is_stable_order(keys@, r@),
{
    let n = keys.len();
    let mut out: Vec<usize> = Vec::new();
    let mut p: usize = 0;
    while p < n
        invariant
            n == keys@.len(),
            p <= n,
            out@.len() == p,
            forall|i: int| 0 <= i < out@.len() ==> #[trigger] out@[i] < p,
            forall|i: int, j: int|
                0 <= i < j < out@.len() ==> key_before(keys@, #[trigger] out@[i] as int, #[trigger] out@[j] as int),
        decreases n - p,
    {
        let kp = keys[p];
        let mut idx: usize = 0;
        while idx < out.len() && keys[out[idx]] <= kp
            invariant
                n == keys@.len(),
                p < n,
                kp == keys@[p as int],
                idx <= out@.len(),
                forall|i: int| 0 <= i < out@.len() ==> #[trigger] out@[i] < p,
                forall|i: int| 0 <= i < idx ==> keys@[#[trigger] out@[i] as int] <= kp,
            decreases out@.len() - idx,
        {
            idx = idx + 1;
        }
        let ghost old_out = out@;
        proof {
            if idx < old_out.len() {
                assert forall|j: int| idx <= j < old_out.len() implies kp < keys@[#[trigger] old_out[j] as int] by {
                    if j > idx {
                        assert(key_before(keys@, old_out[idx as int] as int, old_out[j] as int));
                    }
                }
            }
        }
        out.insert(idx, p);
        assert forall|i: int, j: int|
            0 <= i < j < out@.len() implies key_before(keys@, #[trigger] out@[i] as int, #[trigger] out@[j] as int) by {
            if j < idx {
                assert(out@[i] == old_out[i] && out@[j] == old_out[j]);
            } else if j == idx {
                assert(out@[i] == old_out[i]);
            } else if i < idx {
                assert(out@[i] == old_out[i] && out@[j] == old_out[j - 1]);
                assert(key_before(keys@, old_out[i] as int, old_out[j - 1] as int));
            } else if i == idx {
                assert(out@[j] == old_out[j - 1]);
            } else {
                assert(out@[i] == old_out[i - 1] && out@[j] == old_out[j - 1]);
                assert(key_before(keys@, old_out[i - 1] as int, old_out[j - 1] as int));
            }
        }
        assert forall|i: int| 0 <= i < out@.len() implies #[trigger] out@[i] < p + 1 by {
            if i < idx {
                assert(out@[i] == old_out[i]);
            } else if i > idx {
                assert(out@[i] == old_out[i - 1]);
            }
        }
        p = p + 1;
    }
    out
}

/// The distances of the candidates, as sort keys.
pub open spec fn distance_keys(cands: Seq<(usize, u32)>) -> Seq<i64> {
    cands.map_values(|c: (usize, u32)| c.1 as i64)
}

/// The order in which candidates are scored: the candidates (gallery
/// index, pre-filter distance) by increasing distance, equal distances in
/// gallery order, at most `limit` of them; the gallery indices come back.
/// Nothing is discarded below the limit, so a true match that the
/// pre-filter ranks late is still scored.
pub fn rank_candidates(cands: &[(usize, u32)], limit: usize) -> (r: Vec<usize>)
    ensures
        exists|order: Seq<usize>|
            is_stable_order(distance_keys(cands@), order) && r@ == order.take(
                if limit < cands@.len() {
                    limit as int
                } else {
                    cands@.len() as int
                },
            ).map_values(|k: usize| cands@[k as int].0),
{
    let n = cands.len();
    let mut keys: Vec<i64> = Vec::with_capacity(n);
    let mut i: usize = 0;
    while i < n
        invariant
            n == cands@.len(),
            i <= n,
            keys@ == distance_keys(cands@).take(i as int),
        decreases n - i,
    {
        keys.push(cands[i].1 as i64);
        i = i + 1;
        assert(keys@ =~= distance_keys(cands@).take(i as int));
    }
    assert(keys@ =~= distance_keys(cands@));
    let order = stable_order(keys.as_slice());
    let m = if limit < n {
        limit
    } else {
        n
    };
    let mut out: Vec<usize> = Vec::with_capacity(m);
    let mut k: usize = 0;
    while k < m
        invariant
            n == cands@.len(),
            m <= n,
            order@.len() == n,
            is_stable_order(distance_keys(cands@), order@),
            k <= m,
            out@ == order@.take(k as int).map_values(|q: usize| cands@[q as int].0),
        decreases m - k,
    {
        let q = order[k];
        out.push(cands[q].0);
        k = k + 1;
        assert(out@ =~= order@.take(k as int).map_values(|q: usize| cands@[q as int].0));
    }
    out
}

/// A stable order names every position: position `p` stands somewhere in
/// it.
pub proof fn lemma_stable_order_covers(keys: Seq<i64>, order: Seq<usize>, p: int)
    requires
        is_stable_order(keys, order),
        0 <= p < keys.len(),
    ensures
        exists|i: int| 0 <= i < order.len() && order[i] as int == p,
{
    let s = order.map_values(|x: usize| x as int);
    assert(s.no_duplicates()) by {
        assert forall|i: int, j: int|
            0 <= i < s.len() && 0 <= j < s.len() && i != j implies s[i] != s[j] by {
            if i < j {
                assert(key_before(keys, order[i] as int, order[j] as int));
            } else {
                assert(key_before(keys, order[j] as int, order[i] as int));
            }
        }
    }
    s.unique_seq_to_set();
    let range = vstd::set_lib::set_int_range(0, keys.len() as int);
    vstd::set_lib::lemma_int_range(0, keys.len() as int);
    assert(s.to_set().subset_of(range)) by {
        assert forall|x: int| s.to_set().contains(x) implies range.contains(x) by {
            assert(s.contains(x));
            let i = choose|i: int| 0 <= i < s.len() && s[i] == x;
            assert(order[i] < keys.len());
        }
    }
    vstd::seq_lib::seq_to_set_is_finite(s);
    vstd::set_lib::lemma_subset_equality(s.to_set(), range);
    assert(range.contains(p));
    assert(s.to_set().contains(p));
    assert(s.contains(p));
    let i = choose|i: int| 0 <= i < s.len() && s[i] == p;
    assert(order[i] as int == p);
}

/// Ranking discards nothing when the limit allows it: when the limit is at
/// least the number of candidates, the gallery index of every candidate is
/// scored, so the pre-filter alone never hides a true match.
pub proof fn law_ranking_keeps_every_candidate(
    cands: Seq<(usize, u32)>,
    limit: usize,
    r: Seq<usize>,
)
    requires
        cands.len() <= limit,
        exists|order: Seq<usize>|
            is_stable_order(distance_keys(cands), order) && r == order.take(
                if limit < cands.len() {
                    limit as int
                } else {
                    cands.len() as int
                },
            ).map_values(|k: usize| cands[k as int].0),
    ensures
        r.len() == cands.len(),
        forall|p: int| 0 <= p < cands.len() ==> r.contains(#[trigger] cands[p].0),
{
    let order = choose|order: Seq<usize>|
        is_stable_order(distance_keys(cands), order) && r == order.take(
            if limit < cands.len() {
                limit as int
            } else {
                cands.len() as int
            },
        ).map_values(|k: usize| cands[k as int].0);
    assert(order.take(cands.len() as int) =~= order);
    assert forall|p: int| 0 <= p < cands.len() implies r.contains(#[trigger] cands[p].0) by {
        lemma_stable_order_covers(distance_keys(cands), order, p);
        let i = choose|i: int| 0 <= i < order.len() && order[i] as int == p;
        assert(r[i] == cands[p].0);
    }
}

/// Sort keys that put higher scores first.
pub open spec fn descending_keys(scores: Seq<i32>) -> Seq<i64> {
    scores.map_values(|s: i32| (-(s as int)) as i64)
}

/// The positions of the `k` best scores, best first, equal scores in the
/// order given: the candidates worth scoring again in both directions.
pub fn top_by_score(scores: &[i32], k: usize) -> (r: Vec<usize>)
    ensures
        exists|order: Seq<usize>|
            is_stable_order(descending_keys(scores@), order) && r@ == order.take(
                if k < scores@.len() {
                    k as int
                } else {
                    scores@.len() as int
                },
            ),
{
    let n = scores.len();
    let mut keys: Vec<i64> = Vec::with_capacity(n);
    let mut i: usize = 0;
    while i < n
        invariant
            n == scores@.len(),
            i <= n,
            keys@ == descending_keys(scores@).take(i as int),
        decreases n - i,
    {
        keys.push(-(scores[i] as i64));
        i = i + 1;
        assert(keys@ =~= descending_keys(scores@).take(i as int));
    }
    assert(keys@ =~= descending_keys(scores@));
    let mut order = stable_order(keys.as_slice());
    let ghost full = order@;
    if k < n {
        order.truncate(k);
    }
    assert(order@ =~= full.take(if k < n { k as int } else { n as int }));
    order
}

// --- Best candidate ---

/// The best (id, score) of a run of scored candidates, starting from no
/// candidate at score 0: a candidate replaces the best only with a strictly
/// higher score, so the first of equal scores stays.
pub open spec fn running_best(s: Seq<(u32, i32)>) -> (Option<u32>, i32)
    decreases s.len(),
{
    if s.len() == 0 {
        (None, 0)
    } else {
        let b = running_best(s.drop_last());
        if s.last().1 > b.1 {
            (Some(s.last().0), s.last().1)
        } else {
            b
        }
    }
}

/// The best candidate seen so far.
#[derive(Debug, Clone, Copy)]
pub struct BestMatch {
    pub best_id: Option<u32>,
    pub best_score: i32,
}

impl BestMatch {
    /// No candidate yet, score 0.
    pub fn new() -> (r: BestMatch)
        ensures
            r.best_id is None,
            r.best_score == 0,
    {
        BestMatch { best_id: None, best_score: 0 }
    }

    /// Takes in one scored candidate.
    pub fn update(&mut self, id: u32, score: i32)
        ensures
            score > old(self).best_score ==> final(self).best_id == Some(id)
                && final(self).best_score == score,
            score <= old(self).best_score ==> *final(self) == *old(self),
    {
        if score > self.best_score {
            self.best_id = Some(id);
            self.best_score = score;
        }
    }

    /// Takes in a run of scored candidates, in order.
    pub fn consider_all(&mut self, scored: &[(u32, i32)])
        requires
            (old(self).best_id, old(self).best_score) == running_best(Seq::empty()),
        ensures
            (final(self).best_id, final(self).best_score) == running_best(scored@),
    {
        let mut i: usize = 0;
        while i < scored.len()
            invariant
                i <= scored@.len(),
                (self.best_id, self.best_score) == running_best(scored@.take(i as int)),
            decreases scored.len() - i,
        {
            assert(scored@.take(i as int + 1).drop_last() =~= scored@.take(i as int));
            let (id, score) = scored[i];
            self.update(id, score);
            i = i + 1;
        }
        assert(scored@.take(scored@.len() as int) =~= scored@);
    }
}

/// The best of a run is the first candidate with the highest score above
/// 0; with no score above 0 there is no best and the score stays 0.
pub proof fn law_running_best_first_max(s: Seq<(u32, i32)>)
    ensures
        running_best(s).1 >= 0,
        forall|i: int| 0 <= i < s.len() ==> (#[trigger] s[i]).1 <= running_best(s).1,
        running_best(s).0 is None ==> running_best(s).1 == 0,
        running_best(s).0 matches Some(id) ==> exists|i: int|
            0 <= i < s.len() && s[i] == (id, running_best(s).1) && forall|j: int|
                0 <= j < i ==> (#[trigger] s[j]).1 < running_best(s).1,
    decreases s.len(),
{
    if s.len() > 0 {
        let t = s.drop_last();
        law_running_best_first_max(t);
        assert forall|i: int| 0 <= i < s.len() implies (#[trigger] s[i]).1 <= running_best(s).1 by {
            if i < s.len() - 1 {
                assert(s[i] == t[i]);
            }
        }
        if s.last().1 > running_best(t).1 {
            let i = s.len() - 1;
            assert(s[i] == (s.last().0, s.last().1));
            assert forall|j: int| 0 <= j < i implies (#[trigger] s[j]).1 < running_best(s).1 by {
                assert(s[j] == t[j]);
            }
        } else if running_best(t).0 is Some {
            let id = running_best(t).0->0;
            let i = choose|i: int|
                0 <= i < t.len() && t[i] == (id, running_best(t).1) && forall|j: int|
                    0 <= j < i ==> (#[trigger] t[j]).1 < running_best(t).1;
            assert(s[i] == t[i]);
            assert forall|j: int| 0 <= j < i implies (#[trigger] s[j]).1 < running_best(s).1 by {
                assert(s[j] == t[j]);
            }
        }
    }
}

/// The tasks of worker `worker` out of `workers`: every `workers`-th task
/// from `start + worker` up to `end` (exclusive), so the workers share the
/// ranked tasks round-robin.
pub fn round_robin_tasks(start: usize, end: usize, worker: usize, workers: usize) -> (r: Vec<usize>)
    requires
        workers > 0,
        start + worker + workers <= usize::MAX,
        end + workers <= usize::MAX,
    ensures
        forall|i: int| 0 <= i < r@.len() ==> #[trigger] r@[i] == start + worker + i * workers,
        forall|i: int| 0 <= i < r@.len() ==> #[trigger] r@[i] < end,
        start + worker + r@.len() * workers >= end,
{
    let mut out: Vec<usize> = Vec::new();
    let mut t = start + worker;
    assert(out@.len() * workers == 0) by (nonlinear_arith)
        requires
            out@.len() == 0,
    ;
    while t < end
        invariant
            workers > 0,
            end + workers <= usize::MAX,
            t == start + worker + out@.len() * workers,
            forall|i: int| 0 <= i < out@.len() ==> #[trigger] out@[i] == start + worker + i * workers,
            forall|i: int| 0 <= i < out@.len() ==> #[trigger] out@[i] < end,
        decreases end + workers - t,
    {
        out.push(t);
        assert((out@.len() - 1) * workers + workers == out@.len() * workers) by (nonlinear_arith);
        t = t + workers;
    }
    out
}

// --- Gallery ---

/// The entries of `s` whose id is not `id`, in order.
pub open spec fn without_id<T>(s: Seq<(u32, T)>, id: u32) -> Seq<(u32, T)>
    decreases s.len(),
{
    if s.len() == 0 {
        s
    } else if s.last().0 == id {
        without_id(s.drop_last(), id)
    } else {
        without_id(s.drop_last(), id).push(s.last())
    }
}

/// The index of the first entry with id `id`, if any.
pub open spec fn first_with_id<T>(s: Seq<(u32, T)>, id: u32, i: int) -> bool {
    &&& 0 <= i < s.len()
    &&& s[i].0 == id
    &&& forall|j: int| 0 <= j < i ==> (#[trigger] s[j]).0 != id
}

/// An in-memory gallery: user ids with their search templates, in
/// insertion order (an id may occur more than once).
pub struct MemorySearchGallery<T> {
    pub entries: Vec<(u32, T)>,
}

impl<T> MemorySearchGallery<T> {
    pub fn new() -> (r: MemorySearchGallery<T>)
        ensures
            r.entries@.len() == 0,
    {
        MemorySearchGallery { entries: Vec::new() }
    }

    /// Adds an entry at the end.
    pub fn insert(&mut self, user_id: u32, template: T)
        ensures
            final(self).entries@ == old(self).entries@.push((user_id, template)),
    {
        self.entries.push((user_id, template));
    }

    /// Removes every entry of `user_id`, keeping the others in order.
    pub fn remove(&mut self, user_id: u32)
        ensures
            final(self).entries@ == without_id(old(self).entries@, user_id),
    {
        let mut old_entries: Vec<(u32, T)> = Vec::new();
        std::mem::swap(&mut old_entries, &mut self.entries);
        let ghost all = old_entries@;
        let total = old_entries.len();
        let mut kept: Vec<(u32, T)> = Vec::new();
        let mut taken: usize = 0;
        while old_entries.len() > 0
            invariant
                all.len() == total,
                taken + old_entries@.len() == all.len(),
                old_entries@ == all.skip(taken as int),
                kept@ == without_id(all.take(taken as int), user_id),
            decreases old_entries@.len(),
        {
            let e = old_entries.remove(0);
            assert(all.take(taken as int + 1).drop_last() =~= all.take(taken as int));
            assert(all.take(taken as int + 1).last() == e);
            if e.0 != user_id {
                kept.push(e);
            }
            taken = taken + 1;
            assert(old_entries@ =~= all.skip(taken as int));
        }
        assert(all.take(taken as int) =~= all);
        self.entries = kept;
    }

    /// Removes every entry.
    pub fn clear(&mut self)
        ensures
            final(self).entries@.len() == 0,
    {
        self.entries.clear();
    }

    /// The number of entries.
    pub fn len(&self) -> (r: usize)
        ensures
            r == self.entries@.len(),
    {
        self.entries.len()
    }

    /// The index of the first entry of `user_id`.
    pub fn position(&self, user_id: u32) -> (r: Option<usize>)
        ensures
            r matches Some(i) ==> first_with_id(self.entries@, user_id, i as int),
            r is None ==> forall|j: int| 0 <= j < self.entries@.len() ==> (#[trigger] self.entries@[j]).0 != user_id,
    {
        let mut i: usize = 0;
        while i < self.entries.len()
            invariant
                i <= self.entries@.len(),
                forall|j: int| 0 <= j < i ==> (#[trigger] self.entries@[j]).0 != user_id,
            decreases self.entries@.len() - i,
        {
            if self.entries[i].0 == user_id {
                return Some(i);
            }
            i = i + 1;
        }
        None
    }
}

/// After removing an id, no entry of it is left and every other entry is
/// kept; removing is idempotent.
pub proof fn law_remove_id<T>(s: Seq<(u32, T)>, id: u32)
    ensures
        forall|i: int| 0 <= i < without_id(s, id).len() ==> (#[trigger] without_id(s, id)[i]).0 != id,
        forall|i: int| 0 <= i < s.len() && s[i].0 != id ==> without_id(s, id).contains(#[trigger] s[i]),
        without_id(without_id(s, id), id) == without_id(s, id),
    decreases s.len(),
{
    if s.len() > 0 {
        let t = s.drop_last();
        law_remove_id(t, id);
        assert forall|i: int| 0 <= i < s.len() && s[i].0 != id implies without_id(s, id).contains(#[trigger] s[i]) by {
            if i < s.len() - 1 {
                assert(s[i] == t[i]);
                assert(without_id(t, id).contains(t[i]));
                if s.last().0 != id {
                    let k = choose|k: int| 0 <= k < without_id(t, id).len() && without_id(t, id)[k] == t[i];
                    assert(without_id(s, id)[k] == t[i]);
                }
            } else {
                assert(without_id(s, id).last() == s[i]);
            }
        }
        lemma_without_id_fixed(without_id(s, id), id);
    }
}

/// A sequence holding no entry of `id` is left as it is.
proof fn lemma_without_id_fixed<T>(s: Seq<(u32, T)>, id: u32)
    requires
        forall|i: int| 0 <= i < s.len() ==> (#[trigger] s[i]).0 != id,
    ensures
        without_id(s, id) == s,
    decreases s.len(),
{
    if s.len() > 0 {
        let t = s.drop_last();
        assert forall|i: int| 0 <= i < t.len() implies (#[trigger] t[i]).0 != id by {
            assert(t[i] == s[i]);
        }
        lemma_without_id_fixed(t, id);
        assert(s.drop_last().push(s.last()) =~= s);
    }
}

} // verus!
