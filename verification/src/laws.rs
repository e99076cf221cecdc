//! Laws of the merge logic, proved over arbitrary sequences of level
//! results. The store's mutating operations state in their contracts that
//! every successful submission — direct or committed from a session — turns
//! the record into `merged(record, level_id, score, star_count)`, so these
//! lemmas describe any sequence of successful operations.

use vstd::prelude::*;
use crate::record::{record_wf, valid_level, AuthorityLocation, RecordModel, MAX_LEVELS};
use crate::aggregator::{max_score, max_u64, max_u8, merged, sum_scores};
use crate::session::swap_recorded;

verus! {

/// One submitted level result.
#[derive(Clone, Copy, Debug, PartialEq, Eq)]
pub struct LevelResult {
    pub level_id: u8,
    pub score: u64,
    pub star_count: u8,
}

/// The record after folding a sequence of level results into `r`, oldest
/// first.
pub open spec fn apply_results(r: RecordModel, ops: Seq<LevelResult>) -> RecordModel
    decreases ops.len(),
{
    if ops.len() == 0 {
        r
    } else {
        merged(
            apply_results(r, ops.drop_last()),
            ops.last().level_id,
            ops.last().score,
            ops.last().star_count,
        )
    }
}

/// Every result in the sequence names a valid level.
pub open spec fn results_valid(ops: Seq<LevelResult>) -> bool {
    forall|k: int| 0 <= k < ops.len() ==> valid_level((#[trigger] ops[k]).level_id)
}

/// The scores of a sequence of results.
pub open spec fn scores_of(ops: Seq<LevelResult>) -> Seq<u64> {
    ops.map_values(|op: LevelResult| op.score)
}

/// Maximum star count in a sequence of results, zero when empty.
pub open spec fn max_stars_of(ops: Seq<LevelResult>) -> u8
    decreases ops.len(),
{
    if ops.len() == 0 {
        0u8
    } else {
        max_u8(max_stars_of(ops.drop_last()), ops.last().star_count)
    }
}

/// Bit `level_id` of the completion mask.
pub open spec fn level_completed(mask: u8, level_id: u8) -> bool {
    mask & (1u8 << level_id) != 0
}

/// Folding one more result is merging it into the folded record.
pub proof fn lemma_apply_push(r: RecordModel, ops: Seq<LevelResult>, op: LevelResult)
    ensures
        apply_results(r, ops.push(op)) == merged(
            apply_results(r, ops),
            op.level_id,
            op.score,
            op.star_count,
        ),
{
    assert(ops.push(op).drop_last() =~= ops);
    assert(ops.push(op).last() == op);
}

/// One merge never decreases any best score or star rating, never clears a
/// completion bit, and advances the games-played counter by exactly one
/// (short of the counter's machine limit).
pub proof fn lemma_merge_monotonic(r: RecordModel, level_id: u8, score: u64, star_count: u8)
    requires
        r.best_scores.len() == MAX_LEVELS,
        r.stars.len() == MAX_LEVELS,
        valid_level(level_id),
    ensures
        forall|j: int|
            0 <= j < MAX_LEVELS ==> merged(r, level_id, score, star_count).best_scores[j]
                >= r.best_scores[j],
        forall|j: int|
            0 <= j < MAX_LEVELS ==> merged(r, level_id, score, star_count).stars[j] >= r.stars[j],
        forall|i: u8|
            valid_level(i) && level_completed(r.completed_levels, i) ==> level_completed(
                merged(r, level_id, score, star_count).completed_levels,
                i,
            ),
        r.games_played < u32::MAX ==> merged(r, level_id, score, star_count).games_played
            == r.games_played + 1,
{
    assert forall|i: u8|
        valid_level(i) && level_completed(r.completed_levels, i) implies level_completed(
        merged(r, level_id, score, star_count).completed_levels,
        i,
    ) by {
        lemma_mask_bit(r.completed_levels, level_id, i);
    }
}

/// Setting the completion bit of one valid level leaves bit `i` set exactly
/// when it was set before or `i` is that level.
proof fn lemma_mask_bit(m: u8, l: u8, i: u8)
    by (bit_vector)
    requires
        l < 6,
        i < 6,
    ensures
        ((m | (1u8 << l)) & (1u8 << i) != 0) <==> (m & (1u8 << i) != 0) || i == l,
{
}

/// Folding results never changes the size of the per-level tables.
pub proof fn lemma_apply_results_len(r: RecordModel, ops: Seq<LevelResult>)
    requires
        r.best_scores.len() == MAX_LEVELS,
        r.stars.len() == MAX_LEVELS,
        results_valid(ops),
    ensures
        apply_results(r, ops).best_scores.len() == MAX_LEVELS,
        apply_results(r, ops).stars.len() == MAX_LEVELS,
    decreases ops.len(),
{
    if ops.len() == 0 {
    } else {
        lemma_apply_results_len(r, ops.drop_last());
        assert(valid_level(ops[ops.len() - 1].level_id));
    }
}

/// After any sequence of results for one fixed level, that level's best
/// score is the maximum of its initial value and every score submitted, and
/// its star rating is likewise the running maximum of the submitted star
/// counts.
pub proof fn lemma_running_maxima(r: RecordModel, level_id: u8, ops: Seq<LevelResult>)
    requires
        r.best_scores.len() == MAX_LEVELS,
        r.stars.len() == MAX_LEVELS,
        valid_level(level_id),
        forall|k: int| 0 <= k < ops.len() ==> (#[trigger] ops[k]).level_id == level_id,
    ensures
        apply_results(r, ops).best_scores[level_id as int] == max_u64(
            r.best_scores[level_id as int],
            max_score(scores_of(ops)),
        ),
        apply_results(r, ops).stars[level_id as int] == max_u8(
            r.stars[level_id as int],
            max_stars_of(ops),
        ),
    decreases ops.len(),
{
    if ops.len() == 0 {
    } else {
        lemma_running_maxima(r, level_id, ops.drop_last());
        lemma_apply_results_len(r, ops.drop_last());
        assert(scores_of(ops).drop_last() =~= scores_of(ops.drop_last()));
        assert(scores_of(ops).last() == ops.last().score);
    }
}

/// Completion bits record history exactly: after any sequence of valid
/// results, bit `i` is set iff it was set before or some result in the
/// sequence was for level `i`. In particular a set bit is never cleared.
pub proof fn lemma_completed_mask(r: RecordModel, ops: Seq<LevelResult>, i: u8)
    requires
        valid_level(i),
        results_valid(ops),
    ensures
        level_completed(apply_results(r, ops).completed_levels, i) <==> level_completed(
            r.completed_levels,
            i,
        ) || exists|k: int| 0 <= k < ops.len() && (#[trigger] ops[k]).level_id == i,
    decreases ops.len(),
{
    if ops.len() == 0 {
    } else {
        lemma_completed_mask(r, ops.drop_last(), i);
        lemma_mask_bit(apply_results(r, ops.drop_last()).completed_levels, ops.last().level_id, i);
        if level_completed(apply_results(r, ops).completed_levels, i) {
            if !level_completed(r.completed_levels, i) {
                if ops.last().level_id == i {
                    assert(ops[ops.len() - 1].level_id == i);
                } else {
                    let k = choose|k: int|
                        0 <= k < ops.drop_last().len() && (#[trigger] ops.drop_last()[k]).level_id
                            == i;
                    assert(ops[k].level_id == i);
                }
            }
        } else {
            if exists|k: int| 0 <= k < ops.len() && (#[trigger] ops[k]).level_id == i {
                let k = choose|k: int| 0 <= k < ops.len() && (#[trigger] ops[k]).level_id == i;
                if k < ops.len() - 1 {
                    assert(ops.drop_last()[k].level_id == i);
                }
                assert(false);
            }
        }
    }
}

/// The record after a sequence of swaps, oldest first.
pub open spec fn apply_swaps(r: RecordModel, deltas: Seq<u64>) -> RecordModel
    decreases deltas.len(),
{
    if deltas.len() == 0 {
        r
    } else {
        swap_recorded(apply_swaps(r, deltas.drop_last()), deltas.last())
    }
}

/// A session accumulates exactly: after any sequence of swaps the session
/// score has grown by their sum and the swap counter by their count (within
/// the machine limits), while every permanent statistic — best scores,
/// stars, completion mask, games played — is untouched.
pub proof fn lemma_session_accumulates(r: RecordModel, deltas: Seq<u64>)
    requires
        r.current_score + sum_scores(deltas) <= u64::MAX,
        r.swap_count + deltas.len() <= u32::MAX,
    ensures
        apply_swaps(r, deltas).current_score == r.current_score + sum_scores(deltas),
        apply_swaps(r, deltas).swap_count == r.swap_count + deltas.len(),
        apply_swaps(r, deltas).best_scores == r.best_scores,
        apply_swaps(r, deltas).stars == r.stars,
        apply_swaps(r, deltas).completed_levels == r.completed_levels,
        apply_swaps(r, deltas).games_played == r.games_played,
        apply_swaps(r, deltas).session_active == r.session_active,
    decreases deltas.len(),
{
    if deltas.len() == 0 {
    } else {
        lemma_session_accumulates(r, deltas.drop_last());
    }
}

/// Delegation followed directly by undelegation is a round trip: applying
/// the two marker updates the store's contracts state — first `Delegated`,
/// then back to `Local` with the session flag cleared — returns a
/// well-formed local record to exactly its prior state. Nothing is lost or
/// duplicated by the hand-off itself.
pub proof fn lemma_delegation_round_trip(r: RecordModel, target: u64)
    requires
        record_wf(r),
        r.authority_location is Local,
    ensures
        (RecordModel {
            authority_location: AuthorityLocation::Local,
            session_active: false,
            ..(RecordModel {
                authority_location: AuthorityLocation::Delegated(target),
                ..r
            })
        }) == r,
{
}

/// The games-played counter counts successful merges: after a sequence of
/// results it has advanced by exactly the sequence's length, as long as the
/// total stays within the counter's machine limit.
pub proof fn lemma_games_played_counts(r: RecordModel, ops: Seq<LevelResult>)
    requires
        r.games_played + ops.len() <= u32::MAX,
    ensures
        apply_results(r, ops).games_played == r.games_played + ops.len(),
    decreases ops.len(),
{
    if ops.len() == 0 {
    } else {
        lemma_games_played_counts(r, ops.drop_last());
    }
}

} // verus!

