//! Pure merge logic: folding one level result into a record. Best score and
//! star rating are merged via maximum, the completion bit for the level is
//! set, and the games-played counter advances by one.

use vstd::prelude::*;
use crate::record::{valid_level, ErrorCode, PlayerAccount, RecordModel, MAX_LEVELS};

verus! {

broadcast use vstd::array::group_array_axioms;

/// The larger of two scores.
pub open spec fn max_u64(a: u64, b: u64) -> u64 {
    if a >= b { a } else { b }
}

/// The larger of two star counts.
pub open spec fn max_u8(a: u8, b: u8) -> u8 {
    if a >= b { a } else { b }
}

/// The record after merging one result for `level_id`: per-level maxima,
/// completion bit set, counter advanced, last level noted. Session fields,
/// owner and authority marker are untouched.
pub open spec fn merged(r: RecordModel, level_id: u8, score: u64, star_count: u8) -> RecordModel
    recommends
        valid_level(level_id),
        r.games_played < u32::MAX,
{
    RecordModel {
        best_scores: r.best_scores.update(
            level_id as int,
            max_u64(r.best_scores[level_id as int], score),
        ),
        stars: r.stars.update(level_id as int, max_u8(r.stars[level_id as int], star_count)),
        completed_levels: r.completed_levels | (1u8 << level_id),
        games_played: (r.games_played + 1) as u32,
        last_level: level_id,
        ..r
    }
}

/// Sum of all entries of a score table.
pub open spec fn sum_scores(s: Seq<u64>) -> int
    decreases s.len(),
{
    if s.len() == 0 {
        0
    } else {
        sum_scores(s.drop_last()) + s.last()
    }
}

/// Maximum entry of a score table, zero when the table is empty.
pub open spec fn max_score(s: Seq<u64>) -> u64
    decreases s.len(),
{
    if s.len() == 0 {
        0u64
    } else {
        max_u64(max_score(s.drop_last()), s.last())
    }
}

/// Report produced by a merge: the sum and the maximum of the per-level best
/// scores after the merge. Reporting only; never stored.
#[derive(Clone, Copy, Debug, PartialEq, Eq)]
pub struct MergeTotals {
    pub total_best: u128,
    pub max_best: u64,
}

/// Compute the totals of a record's best-score table.
pub fn compute_totals(rec: &PlayerAccount) -> (t: MergeTotals)
    ensures
        t.total_best as int == sum_scores(rec@.best_scores),
        t.max_best == max_score(rec@.best_scores),
{
    let mut total: u128 = 0;
    let mut best: u64 = 0;
    let mut i: usize = 0;
    while i < MAX_LEVELS
        invariant
            i <= MAX_LEVELS,
            total as int == sum_scores(rec@.best_scores.take(i as int)),
            best == max_score(rec@.best_scores.take(i as int)),
            total <= (i as int) * (u64::MAX as int),
        decreases MAX_LEVELS - i,
    {
        proof {
            assert(rec@.best_scores.take(i + 1).drop_last() =~= rec@.best_scores.take(i as int));
            assert(rec@.best_scores.take(i + 1).last() == rec@.best_scores[i as int]);
        }
        total = total + (rec.best_scores[i] as u128);
        if rec.best_scores[i] > best {
            best = rec.best_scores[i];
        }
        i = i + 1;
    }
    proof {
        assert(rec@.best_scores.take(MAX_LEVELS as int) =~= rec@.best_scores);
    }
    MergeTotals { total_best: total, max_best: best }
}

/// Merge one level result into a record (the direct submission path).
///
/// Succeeds exactly when `level_id` is a valid level; on success the record
/// becomes `merged(..)` and the returned totals describe the new best-score
/// table. On `InvalidLevel` the record is unchanged.
pub fn merge(rec: &mut PlayerAccount, level_id: u8, score: u64, star_count: u8) -> (r: Result<
    MergeTotals,
    ErrorCode,
>)
    requires
        old(rec).games_played < u32::MAX,
    ensures
        match r {
            Ok(t) => {
                &&& valid_level(level_id)
                &&& final(rec)@ == merged(old(rec)@, level_id, score, star_count)
                &&& t.total_best as int == sum_scores(final(rec)@.best_scores)
                &&& t.max_best == max_score(final(rec)@.best_scores)
            },
            Err(e) => {
                &&& e == ErrorCode::InvalidLevel
                &&& !valid_level(level_id)
                &&& *final(rec) == *old(rec)
            },
        },
{
    let idx = level_id as usize;
    if idx >= MAX_LEVELS {
        return Err(ErrorCode::InvalidLevel);
    }
    if score > rec.best_scores[idx] {
        rec.best_scores[idx] = score;
    }
    if star_count > rec.stars[idx] {
        rec.stars[idx] = star_count;
    }
    rec.completed_levels = rec.completed_levels | (1u8 << level_id);
    rec.games_played = rec.games_played + 1;
    rec.last_level = level_id;
    let t = compute_totals(rec);
    proof {
        assert(rec@.best_scores =~= merged(old(rec)@, level_id, score, star_count).best_scores);
        assert(rec@.stars =~= merged(old(rec)@, level_id, score, star_count).stars);
    }
    Ok(t)
}

} // verus!
