//! The keyed record store and the protocol around it: one slot per owner,
//! holding the durable copy of the record and, while authority is delegated,
//! the accelerated-layer copy. Direct submissions edit the durable copy;
//! session operations edit the accelerated copy; the commit pipeline flushes
//! the accelerated copy back into the durable one, optionally returning
//! authority.

use vstd::prelude::*;
use crate::record::{
    valid_level, record_wf, zeroed_record, AuthorityLocation, ErrorCode, PlayerAccount,
    RecordModel,
};
use crate::aggregator::{max_score, merge, merged, sum_scores, MergeTotals};
use crate::session::{session_ended, session_started, swap_recorded};

verus! {

/// One owner's slot: the durable record, and the accelerated-layer copy
/// while (and only while) authority is delegated.
#[derive(Clone, Copy, Debug, PartialEq, Eq)]
pub struct PlayerSlot {
    pub durable: PlayerAccount,
    pub accel: Option<PlayerAccount>,
}

/// A slot is well formed when both copies are well-formed records of the
/// same owner, and the accelerated copy exists exactly while the durable
/// record's authority marker says `Delegated`, carrying the same marker.
pub open spec fn slot_wf(s: PlayerSlot) -> bool {
    &&& record_wf(s.durable@)
    &&& match s.accel {
        Option::None => s.durable@.authority_location is Local,
        Option::Some(a) => {
            &&& record_wf(a@)
            &&& s.durable@.authority_location is Delegated
            &&& a@.authority_location == s.durable@.authority_location
            &&& a@.authority == s.durable@.authority
        },
    }
}

/// The keyed store: one slot per owner identity, owners unique.
pub struct RecordStore {
    slots: Vec<PlayerSlot>,
}

impl RecordStore {
    /// True when a record exists for `owner`.
    pub closed spec fn has_owner(self, owner: u64) -> bool {
        exists|i: int|
            0 <= i < self.slots@.len() && self.slots@[i].durable.authority == owner
    }

    /// Index of `owner`'s slot (meaningful only when `has_owner`).
    pub closed spec fn idx_of(self, owner: u64) -> int {
        choose|i: int|
            0 <= i < self.slots@.len() && self.slots@[i].durable.authority == owner
    }

    /// The durable record of `owner` (meaningful only when `has_owner`).
    pub closed spec fn durable(self, owner: u64) -> RecordModel {
        self.slots@[self.idx_of(owner)].durable@
    }

    /// The accelerated-layer copy of `owner`'s record, if authority is
    /// currently delegated (meaningful only when `has_owner`).
    pub closed spec fn accel(self, owner: u64) -> Option<RecordModel> {
        match self.slots@[self.idx_of(owner)].accel {
            Option::None => Option::None,
            Option::Some(a) => Option::Some(a@),
        }
    }

    /// Well-formedness: owners unique, every slot well formed.
    pub closed spec fn wf(self) -> bool {
        &&& forall|i: int, j: int|
            0 <= i < j < self.slots@.len() ==> self.slots@[i].durable.authority
                != self.slots@[j].durable.authority
        &&& forall|i: int| 0 <= i < self.slots@.len() ==> slot_wf(#[trigger] self.slots@[i])
    }

    /// A found index is the index the specification functions speak of.
    proof fn lemma_idx(self, owner: u64, i: int)
        requires
            self.wf(),
            0 <= i < self.slots@.len(),
            self.slots@[i].durable.authority == owner,
        ensures
            self.has_owner(owner),
            self.idx_of(owner) == i,
            self.durable(owner) == self.slots@[i].durable@,
            self.accel(owner) == match self.slots@[i].accel {
                Option::None => Option::<RecordModel>::None,
                Option::Some(a) => Option::Some(a@),
            },
    {
        assert(self.has_owner(owner));
        let j = self.idx_of(owner);
        assert(0 <= j < self.slots@.len() && self.slots@[j].durable.authority == owner);
        if i < j {
            assert(self.slots@[i].durable.authority != self.slots@[j].durable.authority);
        } else if j < i {
            assert(self.slots@[j].durable.authority != self.slots@[i].durable.authority);
        }
    }

    /// Updating one owner's slot leaves every other owner's presence,
    /// durable record and accelerated copy untouched.
    pub open spec fn preserves_others(pre: RecordStore, post: RecordStore, owner: u64) -> bool {
        &&& forall|o: u64| #[trigger] post.has_owner(o) == pre.has_owner(o)
        &&& forall|o: u64|
            o != owner && pre.has_owner(o) ==> #[trigger] post.durable(o) == pre.durable(o)
                && post.accel(o) == pre.accel(o)
    }

    /// Replacing the slot at `owner`'s index with another well-formed slot
    /// of the same owner keeps the store well formed and every other owner's
    /// state untouched.
    proof fn lemma_slot_update_frame(pre: RecordStore, post: RecordStore, i: int, owner: u64)
        requires
            pre.wf(),
            0 <= i < pre.slots@.len(),
            post.slots@ == pre.slots@.update(i, post.slots@[i]),
            pre.slots@[i].durable.authority == owner,
            post.slots@[i].durable.authority == owner,
            slot_wf(post.slots@[i]),
        ensures
            post.wf(),
            post.has_owner(owner),
            post.idx_of(owner) == i,
            post.durable(owner) == post.slots@[i].durable@,
            post.accel(owner) == (match post.slots@[i].accel {
                Option::None => Option::<RecordModel>::None,
                Option::Some(a) => Option::Some(a@),
            }),
            RecordStore::preserves_others(pre, post, owner),
    {
        assert(post.slots@.len() == pre.slots@.len());
        assert forall|j: int| 0 <= j < post.slots@.len() implies (#[trigger] post.slots@[j])
            .durable.authority == pre.slots@[j].durable.authority by {
            if j != i {
                assert(post.slots@[j] == pre.slots@[j]);
            }
        }
        assert forall|j: int| 0 <= j < post.slots@.len() implies slot_wf(
            #[trigger] post.slots@[j],
        ) by {
            if j != i {
                assert(post.slots@[j] == pre.slots@[j]);
            }
        }
        assert(post.wf());
        post.lemma_idx(owner, i);
        assert forall|o: u64| #[trigger] post.has_owner(o) == pre.has_owner(o) by {
            if pre.has_owner(o) {
                let k = pre.idx_of(o);
                assert(post.slots@[k].durable.authority == o);
            }
            if post.has_owner(o) {
                let k = post.idx_of(o);
                assert(pre.slots@[k].durable.authority == o);
            }
        }
        assert forall|o: u64| o != owner && pre.has_owner(o) implies #[trigger] post.durable(o)
            == pre.durable(o) && post.accel(o) == pre.accel(o) by {
            let k = pre.idx_of(o);
            assert(pre.slots@[k].durable.authority == o);
            assert(k != i);
            assert(post.slots@[k] == pre.slots@[k]);
            pre.lemma_idx(o, k);
            post.lemma_idx(o, k);
        }
    }

    /// An empty store.
    pub fn new() -> (s: RecordStore)
        ensures
            s.wf(),
            forall|o: u64| !s.has_owner(o),
    {
        RecordStore { slots: Vec::new() }
    }

    /// Find the slot index of `owner`.
    fn find(&self, owner: u64) -> (r: Option<usize>)
        ensures
            match r {
                Option::Some(i) => (i as int) < self.slots@.len()
                    && self.slots@[i as int].durable.authority == owner,
                Option::None => forall|i: int|
                    0 <= i < self.slots@.len() ==> (#[trigger] self.slots@[i]).durable.authority
                        != owner,
            },
    {
        let mut i: usize = 0;
        while i < self.slots.len()
            invariant
                i <= self.slots@.len(),
                forall|j: int|
                    0 <= j < i ==> (#[trigger] self.slots@[j]).durable.authority != owner,
            decreases self.slots@.len() - i,
        {
            if self.slots[i].durable.authority == owner {
                return Some(i);
            }
            i = i + 1;
        }
        None
    }

    /// Create a zeroed record for `owner` if none exists; if one already
    /// exists, return it unchanged with no field reset. Idempotent by
    /// contract. Returns the record now stored durably for `owner`.
    pub fn initialize_player(&mut self, owner: u64) -> (r: PlayerAccount)
        requires
            old(self).wf(),
        ensures
            final(self).wf(),
            final(self).has_owner(owner),
            r@ == final(self).durable(owner),
            old(self).has_owner(owner) ==> *final(self) == *old(self) && r@ == old(self).durable(
                owner,
            ),
            !old(self).has_owner(owner) ==> {
                &&& final(self).durable(owner) == zeroed_record(owner)
                &&& final(self).accel(owner) is None
                &&& forall|o: u64|
                    o != owner ==> #[trigger] final(self).has_owner(o) == old(self).has_owner(o)
            },
            !old(self).has_owner(owner) ==> forall|o: u64|
                o != owner && old(self).has_owner(o) ==> #[trigger] final(self).durable(o) == old(
                    self,
                ).durable(o) && final(self).accel(o) == old(self).accel(o),
    {
        match self.find(owner) {
            Some(i) => {
                proof {
                    self.lemma_idx(owner, i as int);
                }
                self.slots[i].durable
            },
            None => {
                let rec = PlayerAccount::new(owner);
                let ghost pre = *self;
                self.slots.push(PlayerSlot { durable: rec, accel: None });
                proof {
                    let n = pre.slots@.len();
                    self.lemma_idx(owner, n as int);
                    assert forall|o: u64| o != owner implies #[trigger] self.has_owner(o)
                        == pre.has_owner(o) by {
                        if pre.has_owner(o) {
                            let k = pre.idx_of(o);
                            assert(self.slots@[k].durable.authority == o);
                        }
                        if self.has_owner(o) {
                            let k = self.idx_of(o);
                            assert(k < n);
                            assert(pre.slots@[k].durable.authority == o);
                        }
                    }
                    assert forall|o: u64| o != owner && pre.has_owner(o) implies #[trigger] self
                        .durable(o) == pre.durable(o) && self.accel(o) == pre.accel(o) by {
                        let k = pre.idx_of(o);
                        assert(pre.slots@[k].durable.authority == o);
                        self.lemma_idx(o, k);
                        pre.lemma_idx(o, k);
                    }
                }
                rec
            },
        }
    }

    /// Submit a level result directly against the durable record — the path
    /// used while authority is local. Merges the result and reports the new
    /// best-score totals.
    ///
    /// Fails with `RecordNotFound` when no record exists for `owner`, with
    /// `AuthorityConflict` when the record's authority is delegated (the
    /// durable layer rejects direct mutation until undelegated), and with
    /// `InvalidLevel` when `level_id` is out of range; in every failure the
    /// store is unchanged.
    pub fn submit_score(&mut self, owner: u64, level_id: u8, score: u64, star_count: u8) -> (r:
        Result<MergeTotals, ErrorCode>)
        requires
            old(self).wf(),
            old(self).has_owner(owner) ==> old(self).durable(owner).games_played < u32::MAX,
        ensures
            final(self).wf(),
            match r {
                Ok(t) => {
                    &&& old(self).has_owner(owner)
                    &&& old(self).durable(owner).authority_location is Local
                    &&& valid_level(level_id)
                    &&& final(self).has_owner(owner)
                    &&& final(self).durable(owner) == merged(
                        old(self).durable(owner),
                        level_id,
                        score,
                        star_count,
                    )
                    &&& final(self).accel(owner) is None
                    &&& t.total_best as int == sum_scores(final(self).durable(owner).best_scores)
                    &&& t.max_best == max_score(final(self).durable(owner).best_scores)
                    &&& RecordStore::preserves_others(*old(self), *final(self), owner)
                },
                Err(e) => {
                    &&& *final(self) == *old(self)
                    &&& match e {
                        ErrorCode::RecordNotFound => !old(self).has_owner(owner),
                        ErrorCode::AuthorityConflict => old(self).has_owner(owner) && old(
                            self,
                        ).durable(owner).authority_location is Delegated,
                        ErrorCode::InvalidLevel => old(self).has_owner(owner) && old(self).durable(
                            owner,
                        ).authority_location is Local && !valid_level(level_id),
                        ErrorCode::NoActiveSession => false,
                    }
                },
            },
    {
        let i = match self.find(owner) {
            Some(i) => i,
            None => return Err(ErrorCode::RecordNotFound),
        };
        proof {
            self.lemma_idx(owner, i as int);
        }
        let mut d = self.slots[i].durable;
        match d.authority_location {
            AuthorityLocation::Delegated(_) => return Err(ErrorCode::AuthorityConflict),
            AuthorityLocation::Local => {},
        }
        let t = match merge(&mut d, level_id, score, star_count) {
            Ok(t) => t,
            Err(e) => return Err(e),
        };
        let ghost pre = *self;
        let slot = &mut self.slots[i];
        slot.durable = d;
        proof {
            RecordStore::lemma_slot_update_frame(pre, *self, i as int, owner);
        }
        Ok(t)
    }

    /// Move `owner`'s write authority to the accelerated-layer operator
    /// `target`: the authority marker flips to `Delegated(target)` and the
    /// accelerated layer receives an exact copy of the durable record, so
    /// delegation loses no state.
    ///
    /// Fails with `RecordNotFound` when no record exists, and with
    /// `AuthorityConflict` when authority is already delegated — the second
    /// of two delegations without an intervening undelegation is a protocol
    /// violation. On failure the store is unchanged.
    pub fn delegate_player(&mut self, owner: u64, target: u64) -> (r: Result<(), ErrorCode>)
        requires
            old(self).wf(),
        ensures
            final(self).wf(),
            match r {
                Ok(()) => {
                    &&& old(self).has_owner(owner)
                    &&& old(self).durable(owner).authority_location is Local
                    &&& final(self).has_owner(owner)
                    &&& final(self).durable(owner) == (RecordModel {
                        authority_location: AuthorityLocation::Delegated(target),
                        ..old(self).durable(owner)
                    })
                    &&& final(self).accel(owner) == Option::Some(final(self).durable(owner))
                    &&& RecordStore::preserves_others(*old(self), *final(self), owner)
                },
                Err(e) => {
                    &&& *final(self) == *old(self)
                    &&& match e {
                        ErrorCode::RecordNotFound => !old(self).has_owner(owner),
                        ErrorCode::AuthorityConflict => old(self).has_owner(owner) && old(
                            self,
                        ).durable(owner).authority_location is Delegated,
                        _ => false,
                    }
                },
            },
    {
        let i = match self.find(owner) {
            Some(i) => i,
            None => return Err(ErrorCode::RecordNotFound),
        };
        proof {
            self.lemma_idx(owner, i as int);
        }
        let mut d = self.slots[i].durable;
        match d.authority_location {
            AuthorityLocation::Delegated(_) => return Err(ErrorCode::AuthorityConflict),
            AuthorityLocation::Local => {},
        }
        d.authority_location = AuthorityLocation::Delegated(target);
        let ghost pre = *self;
        let slot = &mut self.slots[i];
        slot.durable = d;
        slot.accel = Some(d);
        proof {
            RecordStore::lemma_slot_update_frame(pre, *self, i as int, owner);
        }
        Ok(())
    }

    /// Begin a session on `level_id` in `owner`'s accelerated-layer copy.
    /// Starting over an unfinished session discards it without merging —
    /// an explicit design choice. The durable record is untouched.
    ///
    /// Fails with `RecordNotFound` when no record exists, with
    /// `AuthorityConflict` when authority is not delegated (sessions live
    /// only on the accelerated layer), and with `InvalidLevel` when
    /// `level_id` is out of range; on failure the store is unchanged.
    pub fn start_session(&mut self, owner: u64, level_id: u8) -> (r: Result<(), ErrorCode>)
        requires
            old(self).wf(),
        ensures
            final(self).wf(),
            match r {
                Ok(()) => {
                    &&& old(self).has_owner(owner)
                    &&& old(self).accel(owner) is Some
                    &&& valid_level(level_id)
                    &&& final(self).has_owner(owner)
                    &&& final(self).accel(owner) == Option::Some(
                        session_started(old(self).accel(owner)->Some_0, level_id),
                    )
                    &&& final(self).durable(owner) == old(self).durable(owner)
                    &&& RecordStore::preserves_others(*old(self), *final(self), owner)
                },
                Err(e) => {
                    &&& *final(self) == *old(self)
                    &&& match e {
                        ErrorCode::RecordNotFound => !old(self).has_owner(owner),
                        ErrorCode::AuthorityConflict => old(self).has_owner(owner) && old(
                            self,
                        ).accel(owner) is None,
                        ErrorCode::InvalidLevel => old(self).has_owner(owner) && old(self).accel(
                            owner,
                        ) is Some && !valid_level(level_id),
                        ErrorCode::NoActiveSession => false,
                    }
                },
            },
    {
        let i = match self.find(owner) {
            Some(i) => i,
            None => return Err(ErrorCode::RecordNotFound),
        };
        proof {
            self.lemma_idx(owner, i as int);
        }
        let mut a = match &self.slots[i].accel {
            Some(a) => *a,
            None => return Err(ErrorCode::AuthorityConflict),
        };
        match crate::session::start_session(&mut a, level_id) {
            Ok(()) => {},
            Err(e) => return Err(e),
        }
        let ghost pre = *self;
        let slot = &mut self.slots[i];
        slot.accel = Some(a);
        proof {
            RecordStore::lemma_slot_update_frame(pre, *self, i as int, owner);
        }
        Ok(())
    }

    /// Record one swap worth `score_delta` in `owner`'s active session on
    /// the accelerated layer. The durable record is untouched.
    ///
    /// Fails with `RecordNotFound` when no record exists and with
    /// `NoActiveSession` when no session is active — in particular whenever
    /// authority is not delegated, since a session can only be active there.
    /// On failure the store is unchanged.
    pub fn record_swap(&mut self, owner: u64, score_delta: u64) -> (r: Result<(), ErrorCode>)
        requires
            old(self).wf(),
            old(self).has_owner(owner) && old(self).accel(owner) is Some && old(self).accel(
                owner,
            )->Some_0.session_active ==> {
                &&& old(self).accel(owner)->Some_0.current_score + score_delta <= u64::MAX
                &&& old(self).accel(owner)->Some_0.swap_count < u32::MAX
            },
        ensures
            final(self).wf(),
            match r {
                Ok(()) => {
                    &&& old(self).has_owner(owner)
                    &&& old(self).accel(owner) matches Some(a) && a.session_active
                    &&& final(self).has_owner(owner)
                    &&& final(self).accel(owner) == Option::Some(
                        swap_recorded(old(self).accel(owner)->Some_0, score_delta),
                    )
                    &&& final(self).durable(owner) == old(self).durable(owner)
                    &&& RecordStore::preserves_others(*old(self), *final(self), owner)
                },
                Err(e) => {
                    &&& *final(self) == *old(self)
                    &&& match e {
                        ErrorCode::RecordNotFound => !old(self).has_owner(owner),
                        ErrorCode::NoActiveSession => old(self).has_owner(owner) && !(old(
                            self,
                        ).accel(owner) matches Some(a) && a.session_active),
                        _ => false,
                    }
                },
            },
    {
        let i = match self.find(owner) {
            Some(i) => i,
            None => return Err(ErrorCode::RecordNotFound),
        };
        proof {
            self.lemma_idx(owner, i as int);
        }
        let mut a = match &self.slots[i].accel {
            Some(a) => *a,
            None => return Err(ErrorCode::NoActiveSession),
        };
        match crate::session::record_swap(&mut a, score_delta) {
            Ok(()) => {},
            Err(e) => return Err(e),
        }
        let ghost pre = *self;
        let slot = &mut self.slots[i];
        slot.accel = Some(a);
        proof {
            RecordStore::lemma_slot_update_frame(pre, *self, i as int, owner);
        }
        Ok(())
    }

    /// End `owner`'s active session with `star_count` stars, merge its
    /// accumulated score into the permanent statistics, and commit: the
    /// whole accelerated-layer record is pushed into the durable store
    /// atomically. Authority stays delegated. Reports the new best-score
    /// totals.
    ///
    /// Fails with `RecordNotFound` when no record exists and with
    /// `NoActiveSession` when no session is active (in particular whenever
    /// authority is not delegated); on failure the store is unchanged.
    pub fn submit_score_and_commit(&mut self, owner: u64, star_count: u8) -> (r: Result<
        MergeTotals,
        ErrorCode,
    >)
        requires
            old(self).wf(),
            old(self).has_owner(owner) && old(self).accel(owner) is Some && old(self).accel(
                owner,
            )->Some_0.session_active ==> old(self).accel(owner)->Some_0.games_played < u32::MAX,
        ensures
            final(self).wf(),
            match r {
                Ok(t) => {
                    &&& old(self).has_owner(owner)
                    &&& old(self).accel(owner) matches Some(a) && a.session_active
                    &&& final(self).has_owner(owner)
                    &&& final(self).accel(owner) == Option::Some(
                        session_ended(old(self).accel(owner)->Some_0, star_count),
                    )
                    &&& final(self).durable(owner) == session_ended(
                        old(self).accel(owner)->Some_0,
                        star_count,
                    )
                    &&& t.total_best as int == sum_scores(final(self).durable(owner).best_scores)
                    &&& t.max_best == max_score(final(self).durable(owner).best_scores)
                    &&& RecordStore::preserves_others(*old(self), *final(self), owner)
                },
                Err(e) => {
                    &&& *final(self) == *old(self)
                    &&& match e {
                        ErrorCode::RecordNotFound => !old(self).has_owner(owner),
                        ErrorCode::NoActiveSession => old(self).has_owner(owner) && !(old(
                            self,
                        ).accel(owner) matches Some(a) && a.session_active),
                        _ => false,
                    }
                },
            },
    {
        let i = match self.find(owner) {
            Some(i) => i,
            None => return Err(ErrorCode::RecordNotFound),
        };
        proof {
            self.lemma_idx(owner, i as int);
        }
        let mut a = match &self.slots[i].accel {
            Some(a) => *a,
            None => return Err(ErrorCode::NoActiveSession),
        };
        let t = match crate::session::end_session(&mut a, star_count) {
            Ok(t) => t,
            Err(e) => return Err(e),
        };
        let ghost pre = *self;
        let slot = &mut self.slots[i];
        slot.accel = Some(a);
        slot.durable = a;
        proof {
            RecordStore::lemma_slot_update_frame(pre, *self, i as int, owner);
        }
        Ok(t)
    }

    /// Push `owner`'s accelerated-layer record into the durable store,
    /// atomically and without changing where authority lies.
    ///
    /// Fails with `RecordNotFound` when no record exists and with
    /// `AuthorityConflict` when authority is not delegated; on failure the
    /// store is unchanged.
    pub fn commit(&mut self, owner: u64) -> (r: Result<(), ErrorCode>)
        requires
            old(self).wf(),
        ensures
            final(self).wf(),
            match r {
                Ok(()) => {
                    &&& old(self).has_owner(owner)
                    &&& old(self).accel(owner) is Some
                    &&& final(self).has_owner(owner)
                    &&& final(self).durable(owner) == old(self).accel(owner)->Some_0
                    &&& final(self).accel(owner) == old(self).accel(owner)
                    &&& RecordStore::preserves_others(*old(self), *final(self), owner)
                },
                Err(e) => {
                    &&& *final(self) == *old(self)
                    &&& match e {
                        ErrorCode::RecordNotFound => !old(self).has_owner(owner),
                        ErrorCode::AuthorityConflict => old(self).has_owner(owner) && old(
                            self,
                        ).accel(owner) is None,
                        _ => false,
                    }
                },
            },
    {
        let i = match self.find(owner) {
            Some(i) => i,
            None => return Err(ErrorCode::RecordNotFound),
        };
        proof {
            self.lemma_idx(owner, i as int);
        }
        let a = match &self.slots[i].accel {
            Some(a) => *a,
            None => return Err(ErrorCode::AuthorityConflict),
        };
        let ghost pre = *self;
        let slot = &mut self.slots[i];
        slot.durable = a;
        proof {
            RecordStore::lemma_slot_update_frame(pre, *self, i as int, owner);
        }
        Ok(())
    }

    /// Commit `owner`'s accelerated-layer record and return write authority
    /// to the durable layer: the durable record becomes the accelerated
    /// copy with the authority marker back at `Local`, and the accelerated
    /// copy is released. Any still-active session is discarded unmerged —
    /// the explicit data-loss boundary of the accelerated layer.
    ///
    /// Fails with `RecordNotFound` when no record exists and with
    /// `AuthorityConflict` when authority is not delegated; on failure the
    /// store is unchanged.
    pub fn undelegate_player(&mut self, owner: u64) -> (r: Result<(), ErrorCode>)
        requires
            old(self).wf(),
        ensures
            final(self).wf(),
            match r {
                Ok(()) => {
                    &&& old(self).has_owner(owner)
                    &&& old(self).accel(owner) is Some
                    &&& final(self).has_owner(owner)
                    &&& final(self).durable(owner) == (RecordModel {
                        authority_location: AuthorityLocation::Local,
                        session_active: false,
                        ..old(self).accel(owner)->Some_0
                    })
                    &&& final(self).accel(owner) is None
                    &&& RecordStore::preserves_others(*old(self), *final(self), owner)
                },
                Err(e) => {
                    &&& *final(self) == *old(self)
                    &&& match e {
                        ErrorCode::RecordNotFound => !old(self).has_owner(owner),
                        ErrorCode::AuthorityConflict => old(self).has_owner(owner) && old(
                            self,
                        ).accel(owner) is None,
                        _ => false,
                    }
                },
            },
    {
        let i = match self.find(owner) {
            Some(i) => i,
            None => return Err(ErrorCode::RecordNotFound),
        };
        proof {
            self.lemma_idx(owner, i as int);
        }
        let mut a = match &self.slots[i].accel {
            Some(a) => *a,
            None => return Err(ErrorCode::AuthorityConflict),
        };
        a.session_active = false;
        a.authority_location = AuthorityLocation::Local;
        let ghost pre = *self;
        let slot = &mut self.slots[i];
        slot.durable = a;
        slot.accel = None;
        proof {
            RecordStore::lemma_slot_update_frame(pre, *self, i as int, owner);
        }
        Ok(())
    }

    /// Read the durable record of `owner`, or `None` when no record exists.
    pub fn read(&self, owner: u64) -> (r: Option<PlayerAccount>)
        requires
            self.wf(),
        ensures
            match r {
                Option::Some(rec) => self.has_owner(owner) && rec@ == self.durable(owner),
                Option::None => !self.has_owner(owner),
            },
    {
        match self.find(owner) {
            Some(i) => {
                proof {
                    self.lemma_idx(owner, i as int);
                }
                Some(self.slots[i].durable)
            },
            None => None,
        }
    }

    /// Read the accelerated-layer copy of `owner`'s record: `None` when no
    /// record exists or authority is not currently delegated.
    pub fn read_accelerated(&self, owner: u64) -> (r: Option<PlayerAccount>)
        requires
            self.wf(),
        ensures
            match r {
                Option::Some(rec) => self.has_owner(owner) && self.accel(owner) == Option::Some(
                    rec@,
                ),
                Option::None => !self.has_owner(owner) || self.accel(owner) is None,
            },
    {
        match self.find(owner) {
            Some(i) => {
                proof {
                    self.lemma_idx(owner, i as int);
                }
                match &self.slots[i].accel {
                    Some(a) => Some(*a),
                    None => None,
                }
            },
            None => None,
        }
    }
}

} // verus!
