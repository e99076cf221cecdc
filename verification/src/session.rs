//! The in-progress-session state machine, layered on a record. Used only
//! while the record's write authority is delegated to the accelerated layer:
//! a session accumulates swap results cheaply and is merged into the
//! permanent statistics only when it ends.

use vstd::prelude::*;
use crate::record::{valid_level, record_wf, ErrorCode, PlayerAccount, RecordModel};
use crate::aggregator::{merge, merged, MergeTotals};

verus! {

/// The record after a session starts on `level_id`: session counters reset,
/// the session marked active. Permanent statistics are untouched.
pub open spec fn session_started(r: RecordModel, level_id: u8) -> RecordModel
    recommends
        valid_level(level_id),
{
    RecordModel { current_score: 0, current_level: level_id, swap_count: 0, session_active: true, ..r }
}

/// The record after one swap worth `delta`: the session score grows by
/// `delta` and the swap counter by one. Nothing else moves.
pub open spec fn swap_recorded(r: RecordModel, delta: u64) -> RecordModel
    recommends
        r.current_score + delta <= u64::MAX,
        r.swap_count < u32::MAX,
{
    RecordModel {
        current_score: (r.current_score + delta) as u64,
        swap_count: (r.swap_count + 1) as u32,
        ..r
    }
}

/// The record after its active session ends with `star_count` stars: the
/// accumulated session score is merged into the permanent statistics for the
/// session's level, and the session is closed.
pub open spec fn session_ended(r: RecordModel, star_count: u8) -> RecordModel
    recommends
        r.session_active,
        valid_level(r.current_level),
        r.games_played < u32::MAX,
{
    RecordModel { session_active: false, ..merged(r, r.current_level, r.current_score, star_count) }
}

/// Begin a session on `level_id`. Valid only while authority is delegated.
///
/// Starting while a session is already active is permitted and discards the
/// prior unfinished session without merging it — an explicit design choice,
/// not an error. Fails with `InvalidLevel` exactly when `level_id` is out of
/// range, leaving the record unchanged.
pub fn start_session(rec: &mut PlayerAccount, level_id: u8) -> (r: Result<(), ErrorCode>)
    requires
        old(rec)@.authority_location is Delegated,
    ensures
        match r {
            Ok(()) => {
                &&& valid_level(level_id)
                &&& final(rec)@ == session_started(old(rec)@, level_id)
            },
            Err(e) => {
                &&& e == ErrorCode::InvalidLevel
                &&& !valid_level(level_id)
                &&& *final(rec) == *old(rec)
            },
        },
{
    if level_id as usize >= crate::record::MAX_LEVELS {
        return Err(ErrorCode::InvalidLevel);
    }
    rec.current_score = 0;
    rec.current_level = level_id;
    rec.swap_count = 0;
    rec.session_active = true;
    Ok(())
}

/// Record one swap worth `score_delta` in the active session.
///
/// Fails with `NoActiveSession` exactly when no session is active, leaving
/// the record unchanged. The delta's correctness is the caller's
/// responsibility; it is accumulated, not validated.
pub fn record_swap(rec: &mut PlayerAccount, score_delta: u64) -> (r: Result<(), ErrorCode>)
    requires
        old(rec).session_active ==> {
            &&& old(rec).current_score + score_delta <= u64::MAX
            &&& old(rec).swap_count < u32::MAX
        },
    ensures
        match r {
            Ok(()) => {
                &&& old(rec).session_active
                &&& final(rec)@ == swap_recorded(old(rec)@, score_delta)
            },
            Err(e) => {
                &&& e == ErrorCode::NoActiveSession
                &&& !old(rec).session_active
                &&& *final(rec) == *old(rec)
            },
        },
{
    if !rec.session_active {
        return Err(ErrorCode::NoActiveSession);
    }
    rec.swap_count = rec.swap_count + 1;
    rec.current_score = rec.current_score + score_delta;
    Ok(())
}

/// End the active session with `star_count` stars, merging its accumulated
/// score into the permanent statistics for the session's level.
///
/// Fails with `NoActiveSession` exactly when no session is active, leaving
/// the record unchanged. On success the returned totals describe the merged
/// best-score table.
pub fn end_session(rec: &mut PlayerAccount, star_count: u8) -> (r: Result<MergeTotals, ErrorCode>)
    requires
        record_wf(old(rec)@),
        old(rec).session_active ==> old(rec).games_played < u32::MAX,
    ensures
        match r {
            Ok(t) => {
                &&& old(rec).session_active
                &&& final(rec)@ == session_ended(old(rec)@, star_count)
                &&& t.total_best as int == crate::aggregator::sum_scores(final(rec)@.best_scores)
                &&& t.max_best == crate::aggregator::max_score(final(rec)@.best_scores)
            },
            Err(e) => {
                &&& e == ErrorCode::NoActiveSession
                &&& !old(rec).session_active
                &&& *final(rec) == *old(rec)
            },
        },
        record_wf(final(rec)@),
{
    if !rec.session_active {
        return Err(ErrorCode::NoActiveSession);
    }
    let level_id = rec.current_level;
    let score = rec.current_score;
    let t = match merge(rec, level_id, score, star_count) {
        Ok(t) => t,
        Err(_) => {
            // Unreachable: an active session's level is valid by well-formedness,
            // so the merge cannot reject it.
            proof {
                assert(false);
            }
            return Err(ErrorCode::NoActiveSession);
        },
    };
    rec.session_active = false;
    Ok(t)
}

} // verus!
