use candy_blitz::record::{AuthorityLocation, ErrorCode, MAX_LEVELS};
use candy_blitz::store::RecordStore;

const OWNER: u64 = 7;
const TARGET: u64 = 400;

#[test]
fn initialize_creates_zeroed_record() {
    let mut s = RecordStore::new();
    let r = s.initialize_player(OWNER);
    assert_eq!(r.authority, OWNER);
    assert_eq!(r.best_scores, [0u64; 6]);
    assert_eq!(r.stars, [0u8; 6]);
    assert_eq!(r.completed_levels, 0);
    assert_eq!(r.games_played, 0);
    assert_eq!(r.last_level, 0);
    assert!(!r.session_active);
    assert_eq!(r.authority_location, AuthorityLocation::Local);
    assert_eq!(s.read(OWNER).unwrap(), r);
}

#[test]
fn scenario_direct_submission() {
    let mut s = RecordStore::new();
    s.initialize_player(OWNER);
    let t = s.submit_score(OWNER, 2, 100, 2).unwrap();
    let r = s.read(OWNER).unwrap();
    assert_eq!(r.best_scores, [0, 0, 100, 0, 0, 0]);
    assert_eq!(r.stars, [0, 0, 2, 0, 0, 0]);
    assert_eq!(r.completed_levels, 0b000100);
    assert_eq!(r.games_played, 1);
    assert_eq!(r.last_level, 2);
    assert_eq!(t.total_best, 100);
    assert_eq!(t.max_best, 100);
}

#[test]
fn scenario_session_lifecycle() {
    let mut s = RecordStore::new();
    s.initialize_player(OWNER);
    s.delegate_player(OWNER, TARGET).unwrap();
    s.start_session(OWNER, 1).unwrap();
    for _ in 0..3 {
        s.record_swap(OWNER, 50).unwrap();
    }
    let pending = s.read_accelerated(OWNER).unwrap();
    assert_eq!(pending.current_score, 150);
    assert_eq!(pending.swap_count, 3);
    assert_eq!(pending.current_level, 1);
    assert!(pending.session_active);
    // Session progress is not durable before the commit.
    assert_eq!(s.read(OWNER).unwrap().best_scores, [0u64; 6]);

    let t = s.submit_score_and_commit(OWNER, 3).unwrap();
    let r = s.read(OWNER).unwrap();
    assert_eq!(r.best_scores, [0, 150, 0, 0, 0, 0]);
    assert_eq!(r.stars, [0, 3, 0, 0, 0, 0]);
    assert!(!r.session_active);
    assert_eq!(r.games_played, 1);
    assert_eq!(t.total_best, 150);
    assert_eq!(t.max_best, 150);
}

#[test]
fn scenario_double_delegation_conflict() {
    let mut s = RecordStore::new();
    s.initialize_player(OWNER);
    s.delegate_player(OWNER, TARGET).unwrap();
    let second = s.delegate_player(OWNER, TARGET + 1);
    assert_eq!(second.unwrap_err(), ErrorCode::AuthorityConflict);
    let r = s.read(OWNER).unwrap();
    assert_eq!(r.authority_location, AuthorityLocation::Delegated(TARGET));
}

#[test]
fn scenario_initialize_is_idempotent() {
    let mut s = RecordStore::new();
    s.initialize_player(OWNER);
    s.submit_score(OWNER, 4, 999, 1).unwrap();
    let before = s.read(OWNER).unwrap();
    let returned = s.initialize_player(OWNER);
    assert_eq!(returned, before);
    assert_eq!(s.read(OWNER).unwrap(), before);
}

#[test]
fn submit_rejects_invalid_level() {
    let mut s = RecordStore::new();
    s.initialize_player(OWNER);
    s.submit_score(OWNER, 3, 42, 1).unwrap();
    let before = s.read(OWNER).unwrap();
    let res = s.submit_score(OWNER, MAX_LEVELS as u8, 1000, 3);
    assert_eq!(res.unwrap_err(), ErrorCode::InvalidLevel);
    assert_eq!(s.read(OWNER).unwrap(), before);
}

#[test]
fn swap_without_session_fails() {
    let mut s = RecordStore::new();
    s.initialize_player(OWNER);
    s.delegate_player(OWNER, TARGET).unwrap();
    let before = s.read(OWNER).unwrap();
    let res = s.record_swap(OWNER, 50);
    assert_eq!(res.unwrap_err(), ErrorCode::NoActiveSession);
    assert_eq!(s.read(OWNER).unwrap(), before);
    // Same answer when authority was never delegated: no session can be active.
    let mut s2 = RecordStore::new();
    s2.initialize_player(OWNER);
    assert_eq!(s2.record_swap(OWNER, 50).unwrap_err(), ErrorCode::NoActiveSession);
}

#[test]
fn best_score_is_running_max() {
    let mut s = RecordStore::new();
    s.initialize_player(OWNER);
    let mut seen_best = 0u64;
    for (score, expected) in [(100u64, 100u64), (50, 100), (120, 120), (120, 120)] {
        s.submit_score(OWNER, 0, score, 1).unwrap();
        let best = s.read(OWNER).unwrap().best_scores[0];
        assert_eq!(best, expected);
        assert!(best >= seen_best);
        seen_best = best;
    }
}

#[test]
fn stars_are_running_max() {
    let mut s = RecordStore::new();
    s.initialize_player(OWNER);
    for (stars, expected) in [(2u8, 2u8), (1, 2), (3, 3), (0, 3)] {
        s.submit_score(OWNER, 5, 10, stars).unwrap();
        assert_eq!(s.read(OWNER).unwrap().stars[5], expected);
    }
}

#[test]
fn completion_mask_tracks_submitted_levels() {
    let mut s = RecordStore::new();
    s.initialize_player(OWNER);
    s.submit_score(OWNER, 0, 1, 0).unwrap();
    assert_eq!(s.read(OWNER).unwrap().completed_levels, 0b000001);
    s.submit_score(OWNER, 5, 1, 0).unwrap();
    assert_eq!(s.read(OWNER).unwrap().completed_levels, 0b100001);
    // Resubmitting a worse result never clears a bit.
    s.submit_score(OWNER, 0, 0, 0).unwrap();
    assert_eq!(s.read(OWNER).unwrap().completed_levels, 0b100001);
}

#[test]
fn games_played_counts_successful_merges() {
    let mut s = RecordStore::new();
    s.initialize_player(OWNER);
    s.submit_score(OWNER, 0, 5, 1).unwrap();
    s.submit_score(OWNER, 1, 5, 1).unwrap();
    assert!(s.submit_score(OWNER, 9, 5, 1).is_err());
    s.delegate_player(OWNER, TARGET).unwrap();
    s.start_session(OWNER, 2).unwrap();
    s.record_swap(OWNER, 10).unwrap();
    s.record_swap(OWNER, 10).unwrap();
    s.submit_score_and_commit(OWNER, 1).unwrap();
    // Two direct submissions and one committed session; the failed
    // submission and the individual swaps do not count.
    assert_eq!(s.read(OWNER).unwrap().games_played, 3);
}

#[test]
fn totals_report_sum_and_max() {
    let mut s = RecordStore::new();
    s.initialize_player(OWNER);
    s.submit_score(OWNER, 0, 11, 1).unwrap();
    s.submit_score(OWNER, 1, 33, 1).unwrap();
    let t = s.submit_score(OWNER, 2, 22, 1).unwrap();
    assert_eq!(t.total_best, 66);
    assert_eq!(t.max_best, 33);
}

#[test]
fn unknown_owner_is_reported() {
    let mut s = RecordStore::new();
    assert!(s.read(OWNER).is_none());
    assert_eq!(s.submit_score(OWNER, 0, 1, 1).unwrap_err(), ErrorCode::RecordNotFound);
    assert_eq!(s.delegate_player(OWNER, TARGET).unwrap_err(), ErrorCode::RecordNotFound);
    assert_eq!(s.start_session(OWNER, 0).unwrap_err(), ErrorCode::RecordNotFound);
    assert_eq!(s.record_swap(OWNER, 1).unwrap_err(), ErrorCode::RecordNotFound);
    assert_eq!(s.submit_score_and_commit(OWNER, 1).unwrap_err(), ErrorCode::RecordNotFound);
    assert_eq!(s.undelegate_player(OWNER).unwrap_err(), ErrorCode::RecordNotFound);
    assert_eq!(s.commit(OWNER).unwrap_err(), ErrorCode::RecordNotFound);
}

#[test]
fn direct_submission_rejected_while_delegated() {
    let mut s = RecordStore::new();
    s.initialize_player(OWNER);
    s.delegate_player(OWNER, TARGET).unwrap();
    let before = s.read(OWNER).unwrap();
    assert_eq!(s.submit_score(OWNER, 0, 5, 1).unwrap_err(), ErrorCode::AuthorityConflict);
    assert_eq!(s.read(OWNER).unwrap(), before);
}

#[test]
fn session_needs_delegated_authority() {
    let mut s = RecordStore::new();
    s.initialize_player(OWNER);
    assert_eq!(s.start_session(OWNER, 0).unwrap_err(), ErrorCode::AuthorityConflict);
    assert_eq!(s.submit_score_and_commit(OWNER, 1).unwrap_err(), ErrorCode::NoActiveSession);
}

#[test]
fn start_session_rejects_invalid_level() {
    let mut s = RecordStore::new();
    s.initialize_player(OWNER);
    s.delegate_player(OWNER, TARGET).unwrap();
    assert_eq!(s.start_session(OWNER, 6).unwrap_err(), ErrorCode::InvalidLevel);
    assert!(!s.read_accelerated(OWNER).unwrap().session_active);
}

#[test]
fn restart_discards_unfinished_session() {
    let mut s = RecordStore::new();
    s.initialize_player(OWNER);
    s.delegate_player(OWNER, TARGET).unwrap();
    s.start_session(OWNER, 1).unwrap();
    s.record_swap(OWNER, 500).unwrap();
    s.start_session(OWNER, 2).unwrap();
    let a = s.read_accelerated(OWNER).unwrap();
    assert_eq!(a.current_score, 0);
    assert_eq!(a.swap_count, 0);
    assert_eq!(a.current_level, 2);
    s.record_swap(OWNER, 70).unwrap();
    s.submit_score_and_commit(OWNER, 1).unwrap();
    // Only the second session's level was merged.
    let r = s.read(OWNER).unwrap();
    assert_eq!(r.best_scores, [0, 0, 70, 0, 0, 0]);
    assert_eq!(r.games_played, 1);
}

#[test]
fn undelegate_returns_authority() {
    let mut s = RecordStore::new();
    s.initialize_player(OWNER);
    s.delegate_player(OWNER, TARGET).unwrap();
    s.start_session(OWNER, 0).unwrap();
    s.record_swap(OWNER, 25).unwrap();
    s.submit_score_and_commit(OWNER, 2).unwrap();
    s.undelegate_player(OWNER).unwrap();
    let r = s.read(OWNER).unwrap();
    assert_eq!(r.authority_location, AuthorityLocation::Local);
    assert!(s.read_accelerated(OWNER).is_none());
    assert_eq!(r.best_scores, [25, 0, 0, 0, 0, 0]);
    // Authority is back: the direct path works again, and a second
    // undelegation is a protocol violation.
    s.submit_score(OWNER, 1, 9, 1).unwrap();
    assert_eq!(s.undelegate_player(OWNER).unwrap_err(), ErrorCode::AuthorityConflict);
}

#[test]
fn plain_commit_keeps_delegation() {
    let mut s = RecordStore::new();
    s.initialize_player(OWNER);
    s.delegate_player(OWNER, TARGET).unwrap();
    s.start_session(OWNER, 3).unwrap();
    s.record_swap(OWNER, 40).unwrap();
    s.submit_score_and_commit(OWNER, 1).unwrap();
    s.commit(OWNER).unwrap();
    let r = s.read(OWNER).unwrap();
    assert_eq!(r.best_scores[3], 40);
    assert_eq!(r.authority_location, AuthorityLocation::Delegated(TARGET));
    // Still delegated: direct mutation stays rejected.
    assert_eq!(s.submit_score(OWNER, 0, 5, 1).unwrap_err(), ErrorCode::AuthorityConflict);
}

#[test]
fn undelegate_discards_uncommitted_session() {
    let mut s = RecordStore::new();
    s.initialize_player(OWNER);
    s.delegate_player(OWNER, TARGET).unwrap();
    s.start_session(OWNER, 1).unwrap();
    s.record_swap(OWNER, 75).unwrap();
    s.undelegate_player(OWNER).unwrap();
    let r = s.read(OWNER).unwrap();
    // The unfinished session was never merged: it is the accepted
    // data-loss boundary of the accelerated layer.
    assert!(!r.session_active);
    assert_eq!(r.best_scores, [0u64; 6]);
    assert_eq!(r.games_played, 0);
    assert_eq!(r.authority_location, AuthorityLocation::Local);
}

#[test]
fn owners_are_independent() {
    let mut s = RecordStore::new();
    s.initialize_player(1);
    s.initialize_player(2);
    s.submit_score(1, 0, 10, 1).unwrap();
    s.delegate_player(2, TARGET).unwrap();
    s.submit_score(1, 1, 20, 2).unwrap();
    let r1 = s.read(1).unwrap();
    let r2 = s.read(2).unwrap();
    assert_eq!(r1.best_scores, [10, 20, 0, 0, 0, 0]);
    assert_eq!(r1.authority_location, AuthorityLocation::Local);
    assert_eq!(r2.best_scores, [0u64; 6]);
    assert_eq!(r2.authority_location, AuthorityLocation::Delegated(TARGET));
    assert_eq!(r2.games_played, 0);
}

#[test]
fn delegation_copies_record_exactly() {
    let mut s = RecordStore::new();
    s.initialize_player(OWNER);
    s.submit_score(OWNER, 2, 300, 3).unwrap();
    s.delegate_player(OWNER, TARGET).unwrap();
    let d = s.read(OWNER).unwrap();
    let a = s.read_accelerated(OWNER).unwrap();
    assert_eq!(d, a);
    assert_eq!(a.best_scores, [0, 0, 300, 0, 0, 0]);
    assert_eq!(a.authority_location, AuthorityLocation::Delegated(TARGET));
}

#[test]
fn last_level_tracks_latest_merge() {
    let mut s = RecordStore::new();
    s.initialize_player(OWNER);
    s.submit_score(OWNER, 4, 1, 1).unwrap();
    assert_eq!(s.read(OWNER).unwrap().last_level, 4);
    s.submit_score(OWNER, 1, 1, 1).unwrap();
    assert_eq!(s.read(OWNER).unwrap().last_level, 1);
}

#[test]
fn delegation_round_trip_restores_record() {
    let mut s = RecordStore::new();
    s.initialize_player(OWNER);
    s.submit_score(OWNER, 2, 300, 3).unwrap();
    let before = s.read(OWNER).unwrap();
    s.delegate_player(OWNER, TARGET).unwrap();
    s.undelegate_player(OWNER).unwrap();
    assert_eq!(s.read(OWNER).unwrap(), before);
}
