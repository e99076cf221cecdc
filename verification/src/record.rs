//! The player record: one per owner, never deleted. Holds the permanent
//! per-level statistics, the in-progress session sub-state, and the marker
//! that says which layer currently holds write authority.

use vstd::prelude::*;

verus! {

broadcast use vstd::array::group_array_axioms;

/// Number of levels tracked per record.
pub const MAX_LEVELS: usize = 6;

/// Every failure a record operation can report. Operations are atomic with
/// respect to these: on any error the record is unchanged.
#[derive(Clone, Copy, Debug, PartialEq, Eq)]
pub enum ErrorCode {
    /// Level identifier outside `[0, MAX_LEVELS)`.
    InvalidLevel,
    /// A session-scoped operation was issued while no session is active.
    NoActiveSession,
    /// No record exists for the given owner.
    RecordNotFound,
    /// The record's write authority is not where the operation needs it.
    AuthorityConflict,
}

/// Which layer may currently write the record: the durable layer itself, or
/// an accelerated-layer operator identified by its id.
#[derive(Clone, Copy, Debug, PartialEq, Eq)]
pub enum AuthorityLocation {
    Local,
    Delegated(u64),
}

/// A player's progress record.
#[derive(Clone, Copy, Debug, PartialEq, Eq)]
pub struct PlayerAccount {
    /// Identity of the owning principal; immutable after creation.
    pub authority: u64,
    /// Per-level best score, monotonically non-decreasing.
    pub best_scores: [u64; 6],
    /// Per-level best star rating, monotonically non-decreasing.
    pub stars: [u8; 6],
    /// Bit `i` set once any result has been merged for level `i`; never cleared.
    pub completed_levels: u8,
    /// Count of successful merge operations.
    pub games_played: u32,
    /// Last level for which a result was merged.
    pub last_level: u8,
    /// Session sub-state: score accumulated so far.
    pub current_score: u64,
    /// Session sub-state: the level being played.
    pub current_level: u8,
    /// Session sub-state: number of swaps recorded.
    pub swap_count: u32,
    /// Session sub-state: whether a session is in progress.
    pub session_active: bool,
    /// Which layer holds write authority for this record.
    pub authority_location: AuthorityLocation,
}

/// Mathematical model of a record: the same fields, with the fixed-size
/// arrays read as sequences.
pub struct RecordModel {
    pub authority: u64,
    pub best_scores: Seq<u64>,
    pub stars: Seq<u8>,
    pub completed_levels: u8,
    pub games_played: u32,
    pub last_level: u8,
    pub current_score: u64,
    pub current_level: u8,
    pub swap_count: u32,
    pub session_active: bool,
    pub authority_location: AuthorityLocation,
}

impl View for PlayerAccount {
    type V = RecordModel;

    open spec fn view(&self) -> RecordModel {
        RecordModel {
            authority: self.authority,
            best_scores: self.best_scores@,
            stars: self.stars@,
            completed_levels: self.completed_levels,
            games_played: self.games_played,
            last_level: self.last_level,
            current_score: self.current_score,
            current_level: self.current_level,
            swap_count: self.swap_count,
            session_active: self.session_active,
            authority_location: self.authority_location,
        }
    }
}

/// A level identifier is valid when it lies in `[0, MAX_LEVELS)`.
pub open spec fn valid_level(level_id: u8) -> bool {
    (level_id as int) < (MAX_LEVELS as int)
}

/// Well-formedness of a record: the per-level tables have one entry per
/// level, and an active session can only exist while authority is delegated,
/// on a valid level.
pub open spec fn record_wf(r: RecordModel) -> bool {
    &&& r.best_scores.len() == MAX_LEVELS
    &&& r.stars.len() == MAX_LEVELS
    &&& r.session_active ==> r.authority_location is Delegated && valid_level(r.current_level)
}

/// The state of a freshly created record: everything zero, authority local.
pub open spec fn zeroed_record(owner: u64) -> RecordModel {
    RecordModel {
        authority: owner,
        best_scores: Seq::new(MAX_LEVELS as nat, |i: int| 0u64),
        stars: Seq::new(MAX_LEVELS as nat, |i: int| 0u8),
        completed_levels: 0,
        games_played: 0,
        last_level: 0,
        current_score: 0,
        current_level: 0,
        swap_count: 0,
        session_active: false,
        authority_location: AuthorityLocation::Local,
    }
}

impl PlayerAccount {
    /// Create the zeroed record for `owner`.
    pub fn new(owner: u64) -> (r: PlayerAccount)
        ensures
            r@ == zeroed_record(owner),
            record_wf(r@),
    {
        let r = PlayerAccount {
            authority: owner,
            best_scores: [0u64; 6],
            stars: [0u8; 6],
            completed_levels: 0,
            games_played: 0,
            last_level: 0,
            current_score: 0,
            current_level: 0,
            swap_count: 0,
            session_active: false,
            authority_location: AuthorityLocation::Local,
        };
        proof {
            assert(r@.best_scores =~= zeroed_record(owner).best_scores);
            assert(r@.stars =~= zeroed_record(owner).stars);
        }
        r
    }
}

} // verus!
