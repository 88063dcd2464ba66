//! Shift session manager: from session 2 on, selects two thirds of the
//! initial validator set, rotated by the session index.

use vstd::prelude::*;

verus! {

/// Index of a session.
pub type SessionIndex = u32;

/// Identity of a validator.
pub type ValidatorId = u64;

/// How many validators a session gets: two thirds of the available set,
/// but at least one.
pub open spec fn selected_count(n: int) -> int {
    if 2 * n / 3 > 1 {
        2 * n / 3
    } else {
        1
    }
}

/// The validators of a session: a `selected_count` slice of the available
/// set, starting at the session index modulo the set size, wrapping.
pub open spec fn selection(v: Seq<ValidatorId>, session_index: SessionIndex) -> Seq<
    ValidatorId,
>
    recommends
        v.len() > 0,
{
    Seq::new(
        selected_count(v.len() as int) as nat,
        |i: int| v[((session_index as int) % (v.len() as int) + i) % (v.len() as int)],
    )
}

/// Selects the validators for a session from the available set.
pub fn select_validators(
    session_index: SessionIndex,
    available_validators: &Vec<ValidatorId>,
) -> (r: Vec<ValidatorId>)
    requires
        0 < available_validators@.len(),
        available_validators@.len() <= usize::MAX / 2,
    ensures
        r@ == selection(available_validators@, session_index),
{
    let n = available_validators.len();
    let two_thirds = 2 * n / 3;
    let count = if two_thirds > 1 {
        two_thirds
    } else {
        1
    };
    let offset = (session_index as usize) % n;
    let mut r: Vec<ValidatorId> = Vec::new();
    let mut i: usize = 0;
    while i < count
        invariant
            i <= count,
            count == selected_count(n as int),
            count <= n,
            0 < n == available_validators@.len() <= usize::MAX / 2,
            offset == (session_index as int) % (n as int),
            r@.len() == i,
            forall|k: int| 0 <= k < i ==> r@[k] == available_validators@[(offset + k) % (
            n as int)],
        decreases count - i,
    {
        r.push(available_validators[(offset + i) % n]);
        i = i + 1;
    }
    proof {
        assert(r@ =~= selection(available_validators@, session_index));
    }
    r
}

/// The session manager's own state: the validator set of the first two
/// sessions, cached when session 2 begins.
pub struct ShiftSessionManager {
    /// Validators of the first two sessions, once learned.
    pub initial_validators: Option<Vec<ValidatorId>>,
}

impl ShiftSessionManager {
    /// The cached set, when present, is usable by `select_validators`.
    pub open spec fn wf(self) -> bool {
        match self.initial_validators {
            Some(v) => 0 < v@.len() <= usize::MAX / 2,
            None => true,
        }
    }

    /// A manager that has not yet learned the initial validator set.
    pub fn new() -> (r: ShiftSessionManager)
        ensures
            r.wf(),
            r.initial_validators is None,
    {
        ShiftSessionManager { initial_validators: None }
    }

    /// Ending a session changes nothing.
    pub fn end_session(&self, session_index: SessionIndex) {
    }

    /// Starting a session changes nothing.
    pub fn start_session(&self, session_index: SessionIndex) {
    }

    /// Plans the validator set of a new session: none for the first two
    /// sessions; afterwards a rotated slice of the initial set, which is
    /// read from `current_validators` the first time and cached.
    pub fn new_session(
        &mut self,
        session_index: SessionIndex,
        current_validators: &Vec<ValidatorId>,
    ) -> (r: Option<Vec<ValidatorId>>)
        requires
            old(self).wf(),
            session_index >= 2 && old(self).initial_validators is None ==> 0
                < current_validators@.len() <= usize::MAX / 2,
        ensures
            final(self).wf(),
            session_index < 2 ==> r is None && *final(self) == *old(self),
            session_index >= 2 ==> match old(self).initial_validators {
                Some(v) => final(self).initial_validators == old(self).initial_validators
                    && (r matches Some(sel) && sel@ == selection(v@, session_index)),
                None => (final(self).initial_validators matches Some(cached)
                    && cached@ == current_validators@) && (r matches Some(sel) && sel@
                    == selection(current_validators@, session_index)),
            },
    {
        if session_index == 0 || session_index == 1 {
            return None;
        }
        if self.initial_validators.is_none() {
            let mut cached: Vec<ValidatorId> = Vec::new();
            let mut i: usize = 0;
            while i < current_validators.len()
                invariant
                    i <= current_validators@.len(),
                    cached@ == current_validators@.subrange(0, i as int),
                decreases current_validators@.len() - i,
            {
                cached.push(current_validators[i]);
                proof {
                    assert(cached@ =~= current_validators@.subrange(0, i + 1));
                }
                i = i + 1;
            }
            proof {
                assert(cached@ =~= current_validators@);
            }
            self.initial_validators = Some(cached);
        }
        match &self.initial_validators {
            Some(v) => Some(select_validators(session_index, v)),
            None => None,
        }
    }
}

} // verus!
