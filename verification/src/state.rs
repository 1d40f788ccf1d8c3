//! The state manager: the event-sourcing discipline around the chain
//! reducer. Every incoming state change is appended to the change log
//! before it is applied; on success the cached current state is replaced,
//! on failure it is left untouched while the logged entry remains. Restart
//! recovery replays the log from empty state and skips entries the reducer
//! rejects, so a persisted-but-unapplied record is never fatal.
//!
//! One transition is in flight at a time: `transition` takes the manager
//! exclusively, which is the single-writer discipline; readers take their
//! own snapshot of `current_state`.

use crate::enums::{Event, StateChange};
use crate::errors::{RaidenError, StateTransitionError};
use crate::transfer::chain::{
    apply, failure_msg, handle_state_change, lemma_apply_wf, replay, replay_from,
};
use crate::transfer::state::{chain_state_wf, opt_view, ChainState};
use vstd::prelude::*;

verus! {

/// Owns the cached current state and the append-only change log.
pub struct StateManager {
    /// The state reached by the last accepted transition, if any.
    pub current_state: Option<ChainState>,
    /// The append-only log of every submitted state change, accepted or
    /// not, in submission order. Written only through `transition`.
    pub change_log: Vec<StateChange>,
}

impl StateManager {
    /// The cached state, if present, is well formed.
    pub open spec fn wf(&self) -> bool {
        self.current_state matches Some(s) ==> s.wf() && chain_state_wf(s@)
    }

    /// The view of the cached state.
    pub open spec fn state_view(&self) -> Option<crate::transfer::state::ChainStateView> {
        opt_view(self.current_state)
    }

    /// The event-sourcing guarantee: the cached state is exactly what
    /// replaying the persisted log from empty state reproduces, so a crash
    /// at any point between persist and apply is recoverable by replay.
    pub open spec fn log_consistent(&self) -> bool {
        self.state_view() == replay(self.change_log@)
    }

    pub fn new() -> (r: StateManager)
        ensures
            r.current_state is None,
            r.change_log@ == Seq::<StateChange>::empty(),
            r.wf(),
            r.log_consistent(),
    {
        StateManager { current_state: None, change_log: Vec::new() }
    }

    /// Appends the change to the log; the model of the durable store.
    fn store_state_change(&mut self, state_change: StateChange) -> (r: Result<
        bool,
        StateTransitionError,
    >)
        ensures
            final(self).change_log@ == old(self).change_log@.push(state_change),
            final(self).current_state == old(self).current_state,
            r matches Ok(b) && b == true,
    {
        self.change_log.push(state_change);
        Ok(true)
    }

    /// Applies the change through the reducer against a snapshot of the
    /// current state; replaces the cache only on success.
    fn dispatch(&mut self, state_change: StateChange) -> (r: Result<
        Vec<Event>,
        StateTransitionError,
    >)
        requires
            old(self).wf(),
        ensures
            final(self).wf(),
            final(self).change_log == old(self).change_log,
            match apply(old(self).state_view(), state_change) {
                Ok(p) => r matches Ok(events) && events@ == p.1 && final(self).state_view()
                    == Some(p.0),
                Err(f) => r matches Err(e) && e.msg@ == failure_msg(f) && final(self).current_state
                    == old(self).current_state,
            },
    {
        let current_state = match &self.current_state {
            Some(s) => Some(s.clone()),
            None => None,
        };
        proof {
            lemma_apply_wf(opt_view(current_state), state_change);
        }
        match handle_state_change(current_state, state_change) {
            Ok(transition_result) => {
                self.current_state = Some(transition_result.new_state);
                Ok(transition_result.events)
            },
            Err(e) => Err(e),
        }
    }

    /// Persists the change, then applies it: the write-ahead discipline.
    /// The entry is logged even when the reducer rejects it; the error is
    /// returned and the cached state does not advance.
    pub fn transition(&mut self, state_change: StateChange) -> (r: Result<
        Vec<Event>,
        StateTransitionError,
    >)
        requires
            old(self).wf(),
        ensures
            final(self).wf(),
            final(self).change_log@ == old(self).change_log@.push(state_change),
            old(self).log_consistent() ==> final(self).log_consistent(),
            match apply(old(self).state_view(), state_change) {
                Ok(p) => r matches Ok(events) && events@ == p.1 && final(self).state_view()
                    == Some(p.0),
                Err(f) => r matches Err(e) && e.msg@ == failure_msg(f) && final(self).current_state
                    == old(self).current_state,
            },
    {
        match self.store_state_change(state_change) {
            Ok(_) => {},
            Err(e) => {
                return Err(e);
            },
        }
        let r = self.dispatch(state_change);
        proof {
            let log2 = old(self).change_log@.push(state_change);
            assert(log2.drop_last() =~= old(self).change_log@);
            assert(log2.last() == state_change);
        }
        r
    }

    /// Rebuilds the current state by replaying the whole change log from
    /// empty state, skipping entries the reducer rejects. A log whose
    /// replay produces no state signals that initialization is needed.
    pub fn restore_state(&mut self) -> (r: Result<bool, RaidenError>)
        ensures
            final(self).change_log == old(self).change_log,
            final(self).state_view() == replay(old(self).change_log@),
            final(self).wf(),
            final(self).log_consistent(),
            match r {
                Ok(b) => b == true && replay(old(self).change_log@) is Some,
                Err(e) => replay(old(self).change_log@) is None && e.msg@ == "Invalid state"@
                    && final(self).current_state is None,
            },
    {
        let ghost log = self.change_log@;
        let n = self.change_log.len();
        let mut state: Option<ChainState> = None;
        let mut i: usize = 0;
        proof {
            assert(log.take(0) =~= Seq::<StateChange>::empty());
        }
        while i < n
            invariant
                0 <= i <= n,
                n == self.change_log@.len(),
                self.change_log@ == log,
                opt_view(state) == replay_from(None, log.take(i as int)),
                state matches Some(s) ==> s.wf() && chain_state_wf(s@),
            decreases n - i,
        {
            let sc = self.change_log[i];
            let snapshot = match &state {
                Some(s) => Some(s.clone()),
                None => None,
            };
            proof {
                assert(log.take(i + 1).drop_last() =~= log.take(i as int));
                assert(log.take(i + 1).last() == log[i as int]);
                lemma_apply_wf(opt_view(snapshot), sc);
            }
            state = match handle_state_change(snapshot, sc) {
                Ok(transition_result) => Some(transition_result.new_state),
                Err(_) => state,
            };
            i = i + 1;
        }
        proof {
            assert(log.take(n as int) =~= log);
        }
        self.current_state = state;
        match &self.current_state {
            Some(_) => Ok(true),
            None => Err(RaidenError { msg: "Invalid state".to_owned() }),
        }
    }
}

} // verus!
