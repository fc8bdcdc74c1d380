//! The coordinator: one place that holds the connection registry and every
//! player's location, routes player events, and runs the sweep.

use crate::connection::{
    live_at, player_ids, stale_at, ConnectionManager, TrackedConnection,
    DEFAULT_HEARTBEAT_TIMEOUT_MS,
};
use crate::player::{next_location, EventView, LocationView, PlayerEvent, PlayerState, InvalidTransition, RejectReason};
use std::collections::HashMap;
use vstd::prelude::*;

verus! {

broadcast use vstd::std_specs::hash::group_hash_axioms;

/// The location of `player_id` in `locations`; a player never seen is `Disconnected`.
pub open spec fn location_of(locations: Map<i64, LocationView>, player_id: i64) -> LocationView {
    if locations.contains_key(player_id) {
        locations[player_id]
    } else {
        LocationView::Disconnected
    }
}

/// What a sweep did.
#[derive(Debug, Default)]
pub struct CleanupResult {
    /// The players whose connections were swept out, in registry order.
    pub expired_connections: Vec<i64>,
}

impl CleanupResult {
    /// Nothing was swept.
    pub fn is_empty(&self) -> (r: bool)
        ensures
            r == (self.expired_connections@.len() == 0),
    {
        self.expired_connections.is_empty()
    }
}

/// The connection registry and every player's location, kept together so
/// that a sweep updates both as one step.
#[derive(Debug)]
pub struct AppState {
    pub connections: ConnectionManager,
    player_states: HashMap<i64, PlayerState>,
}

impl AppState {
    /// The connection registry.
    pub closed spec fn registry(&self) -> ConnectionManager {
        self.connections
    }

    /// The location of every player seen so far.
    pub closed spec fn locations(&self) -> Map<i64, LocationView> {
        Map::new(
            |k: i64| self.player_states@.contains_key(k),
            |k: i64| self.player_states@[k]@,
        )
    }

    /// The connection registry.
    pub fn connections(&self) -> (r: &ConnectionManager)
        ensures
            *r == self.registry(),
    {
        &self.connections
    }

    /// The connection registry, to change in place; player locations are
    /// untouched.
    pub fn connections_mut(&mut self) -> (r: &mut ConnectionManager)
        ensures
            *r == old(self).registry(),
            final(self).registry() == *final(r),
            final(self).locations() == old(self).locations(),
    {
        &mut self.connections
    }

    /// Nothing connected and no player seen.
    pub fn new() -> (r: Self)
        ensures
            r.registry()@ == Seq::<TrackedConnection>::empty(),
            r.registry().wf(),
            r.locations() == Map::<i64, LocationView>::empty(),
    {
        let r = AppState { connections: ConnectionManager::new(), player_states: HashMap::new() };
        assert(r.locations() =~= Map::<i64, LocationView>::empty());
        r
    }

    /// The state machine of `player_id`, created `Disconnected` when first seen.
    pub fn player_state(&mut self, player_id: i64) -> (r: &mut PlayerState)
        ensures
            (*r)@ == location_of(old(self).locations(), player_id),
            final(self).locations() == old(self).locations().insert(player_id, (*final(r))@),
            final(self).registry() == old(self).registry(),
    {
        self.player_states.entry(player_id).or_insert(PlayerState::new())
    }

    /// The state machine of `player_id`, if the player has been seen.
    pub fn get_player_state(&self, player_id: i64) -> (r: Option<&PlayerState>)
        ensures
            match r {
                Some(s) => self.locations().contains_key(player_id) && s@ == self.locations()[player_id],
                None => !self.locations().contains_key(player_id),
            },
    {
        self.player_states.get(&player_id)
    }

    /// Forgets `player_id`'s state machine and returns it.
    pub fn remove_player_state(&mut self, player_id: i64) -> (r: Option<PlayerState>)
        ensures
            match r {
                Some(s) => old(self).locations().contains_key(player_id) && s@ == old(
                    self,
                ).locations()[player_id],
                None => !old(self).locations().contains_key(player_id),
            },
            final(self).locations() == old(self).locations().remove(player_id),
            final(self).registry() == old(self).registry(),
    {
        let r = self.player_states.remove(&player_id);
        assert(self.locations() =~= old(self).locations().remove(player_id));
        r
    }

    /// Applies `event` to `player_id`'s location. On a rejection the location
    /// is unchanged.
    pub fn apply_player_event(&mut self, player_id: i64, event: PlayerEvent) -> (r: Result<
        (),
        InvalidTransition,
    >)
        ensures
            ({
                let before = location_of(old(self).locations(), player_id);
                let after = final(self).locations()[player_id];
                &&& final(self).locations() == old(self).locations().insert(player_id, after)
                &&& match r {
                    Ok(_) => next_location(before, event@) == Ok::<LocationView, RejectReason>(
                        after,
                    ),
                    Err(e) => {
                        &&& next_location(before, event@) == Err::<LocationView, RejectReason>(
                            e.reason,
                        )
                        &&& after == before
                        &&& e.from@ == before
                        &&& e.event == event
                    },
                }
            }),
            final(self).registry() == old(self).registry(),
    {
        let state = self.player_state(player_id);
        state.apply_mut(event)
    }

    /// Sweeps stale connections out of the registry at `now_ms`, with the
    /// default heartbeat timeout, and forces each of their players to
    /// `Disconnected`.
    pub fn cleanup(&mut self, now_ms: u64) -> (r: CleanupResult)
        ensures
            final(self).registry()@ == old(self).registry()@.filter(
                live_at(DEFAULT_HEARTBEAT_TIMEOUT_MS, now_ms),
            ),
            r.expired_connections@ == player_ids(
                old(self).registry()@.filter(stale_at(DEFAULT_HEARTBEAT_TIMEOUT_MS, now_ms)),
            ),
            old(self).registry().wf() ==> final(self).registry().wf(),
            final(self).locations().dom() == old(self).locations().dom(),
            forall|k: i64|
                #[trigger] final(self).locations().contains_key(k) ==> final(self).locations()[k]
                    == if r.expired_connections@.contains(k) {
                    LocationView::Disconnected
                } else {
                    old(self).locations()[k]
                },
    {
        self.cleanup_with_timeout(DEFAULT_HEARTBEAT_TIMEOUT_MS, now_ms)
    }

    /// Sweeps connections stale at `now_ms` for the heartbeat timeout
    /// `timeout_ms` out of the registry and forces each of their players to
    /// `Disconnected`.
    ///
    /// A swept player ends `Disconnected` whatever its location was; other
    /// locations are untouched.
    pub fn cleanup_with_timeout(&mut self, timeout_ms: u64, now_ms: u64) -> (r: CleanupResult)
        ensures
            final(self).registry()@ == old(self).registry()@.filter(live_at(timeout_ms, now_ms)),
            r.expired_connections@ == player_ids(
                old(self).registry()@.filter(stale_at(timeout_ms, now_ms)),
            ),
            old(self).registry().wf() ==> final(self).registry().wf(),
            final(self).locations().dom() == old(self).locations().dom(),
            forall|k: i64|
                #[trigger] final(self).locations().contains_key(k) ==> final(self).locations()[k]
                    == if r.expired_connections@.contains(k) {
                    LocationView::Disconnected
                } else {
                    old(self).locations()[k]
                },
    {
        let expired = self.connections.expire_stale_with_timeout(timeout_ms, now_ms);
        let ghost before = self.locations();
        let ghost swept = self.connections;
        let mut i: usize = 0;
        while i < expired.len()
            invariant
                i <= expired@.len(),
                self.connections == swept,
                self.locations().dom() == before.dom(),
                forall|k: i64|
                    #[trigger] self.locations().contains_key(k) ==> self.locations()[k] == if expired@.take(
                        i as int,
                    ).contains(k) {
                        LocationView::Disconnected
                    } else {
                        before[k]
                    },
            decreases expired@.len() - i,
        {
            let player_id = expired[i];
            let ghost prior = self.locations();
            if let Some(mut state) = self.player_states.remove(&player_id) {
                let _ = state.apply_mut(PlayerEvent::Disconnect);
                assert(state@ == LocationView::Disconnected);
                self.player_states.insert(player_id, state);
            }
            proof {
                let done = expired@.take(i as int);
                assert(expired@.take(i + 1) =~= done.push(player_id));
                assert(self.locations() =~= if prior.contains_key(player_id) {
                    prior.insert(player_id, LocationView::Disconnected)
                } else {
                    prior
                });
                assert forall|k: i64| #[trigger] self.locations().contains_key(k) implies self.locations()[k]
                    == if expired@.take(i + 1).contains(k) {
                    LocationView::Disconnected
                } else {
                    before[k]
                } by {
                    assert(done.push(player_id).contains(k) <==> (done.contains(k) || k == player_id)) by {
                        if done.push(player_id).contains(k) {
                            let j = choose|j: int| 0 <= j < done.len() + 1 && done.push(player_id)[j] == k;
                            if j < done.len() {
                                assert(done[j] == k);
                            }
                        }
                        if done.contains(k) {
                            let j = choose|j: int| 0 <= j < done.len() && done[j] == k;
                            assert(done.push(player_id)[j] == k);
                        }
                        if k == player_id {
                            assert(done.push(player_id)[done.len() as int] == k);
                        }
                    }
                    assert(prior.contains_key(k));
                }
            }
            i = i + 1;
        }
        proof {
            assert(expired@.take(expired@.len() as int) == expired@);
        }
        CleanupResult { expired_connections: expired }
    }
}

} // verus!
