//! The timeline playback tracker: a cursor over one axis's sorted action
//! list, answering "is an action due at this clock value" and relocating in
//! logarithmic time on seek.

use vstd::prelude::*;

use crate::movement::POSITION_SCALE;

verus! {

/// One timeline data point: where the axis should be at a given time.
#[derive(Copy, Clone, Debug, PartialEq, Eq, Structural)]
pub struct NormalisedAction {
    /// Time in milliseconds since the start of the content.
    pub at: u32,
    /// Where the axis should be, in millionths of full scale.
    pub norm_pos: u32,
}

/// Whether the positions of all actions lie inside the full scale.
pub open spec fn actions_in_scale(s: Seq<NormalisedAction>) -> bool {
    forall|i: int| 0 <= i < s.len() ==> (#[trigger] s[i]).norm_pos <= POSITION_SCALE
}

/// Whether the actions are sorted by time, the order the tracker relies on.
pub open spec fn actions_sorted(s: Seq<NormalisedAction>) -> bool {
    forall|i: int, j: int| 0 <= i < j < s.len() ==> (#[trigger] s[i]).at <= (#[trigger] s[j]).at
}

/// A well-formed action list: sorted by time, positions inside the scale.
pub open spec fn actions_wf(s: Seq<NormalisedAction>) -> bool {
    actions_sorted(s) && actions_in_scale(s)
}

/// Checks at run time that an action list is sorted with in-scale
/// positions, so an unchecked list from outside can be admitted.
pub fn check_actions_wf(actions: &Vec<NormalisedAction>) -> (r: bool)
    ensures
        r == actions_wf(actions@),
{
    let n = actions.len();
    let mut i: usize = 0;
    while i < n
        invariant
            0 <= i <= n,
            n == actions@.len(),
            forall|j: int, l: int|
                0 <= j < l < i ==> (#[trigger] actions@[j]).at <= (#[trigger] actions@[l]).at,
            forall|j: int| 0 <= j < i ==> (#[trigger] actions@[j]).norm_pos <= POSITION_SCALE,
        decreases n - i,
    {
        if actions[i].norm_pos > POSITION_SCALE {
            return false;
        }
        if i > 0 && actions[i - 1].at > actions[i].at {
            assert(!actions_sorted(actions@));
            return false;
        }
        proof {
            assert forall|j: int, l: int| 0 <= j < l < i + 1 implies (#[trigger] actions@[j]).at
                <= (#[trigger] actions@[l]).at by {
                if l == i && j < i - 1 {
                    assert(actions@[j].at <= actions@[i - 1].at);
                }
            }
        }
        i += 1;
    }
    true
}

/// Tracks playback of one axis's timeline.
pub struct FunscriptPlaystate {
    /// The timeline, sorted by time. Never changed after construction.
    pub normalised_actions: Vec<NormalisedAction>,
    /// Cursor: index of the next action. May equal the length, meaning
    /// playback is exhausted.
    pub next_index: usize,
    /// Time at which the next tick is due, if one is pending.
    pub next_tick_at: Option<u32>,
}

/// The least index whose action lies strictly after `now`; the length if
/// every action lies at or before `now`.
pub open spec fn spec_seek_index(s: Seq<NormalisedAction>, now: u32) -> int
    decreases s.len(),
{
    if s.len() == 0 {
        0
    } else if s[0].at > now {
        0
    } else {
        1 + spec_seek_index(s.drop_first(), now)
    }
}

/// What [`spec_seek_index`] finds: everything before it is due at or before
/// `now`, and the action at it (if any) lies after `now`.
pub proof fn lemma_seek_index_props(s: Seq<NormalisedAction>, now: u32)
    ensures
        0 <= spec_seek_index(s, now) <= s.len(),
        forall|j: int| 0 <= j < spec_seek_index(s, now) ==> (#[trigger] s[j]).at <= now,
        spec_seek_index(s, now) < s.len() ==> s[spec_seek_index(s, now)].at > now,
    decreases s.len(),
{
    if s.len() > 0 && !(s[0].at > now) {
        lemma_seek_index_props(s.drop_first(), now);
        let idx = spec_seek_index(s, now);
        assert forall|j: int| 0 <= j < idx implies (#[trigger] s[j]).at <= now by {
            if j > 0 {
                assert(s.drop_first()[j - 1].at <= now);
            }
        }
        if idx < s.len() {
            assert(s.drop_first()[idx - 1].at > now);
        }
    }
}

impl FunscriptPlaystate {
    /// The tracker's invariant: a well-formed action list and a cursor that
    /// never runs more than one past the end.
    pub open spec fn wf(self) -> bool {
        actions_wf(self.normalised_actions@) && self.next_index <= self.normalised_actions@.len()
    }

    /// What a tick decides, as a pure function of the state and the clock:
    /// nothing is due if no tick is pending, the clock has not reached the
    /// pending time, or the cursor is past the end; otherwise the action at
    /// the cursor comes back, the cursor advances, and the next due time
    /// becomes that action's own timestamp.
    pub open spec fn spec_tick(self, now: u32) -> (FunscriptPlaystate, Option<NormalisedAction>) {
        match self.next_tick_at {
            None => (self, None),
            Some(due) => {
                if now < due {
                    (self, None)
                } else if self.next_index >= self.normalised_actions@.len() {
                    (self, None)
                } else {
                    let a = self.normalised_actions@[self.next_index as int];
                    (
                        FunscriptPlaystate {
                            next_index: (self.next_index + 1) as usize,
                            next_tick_at: Some(a.at),
                            ..self
                        },
                        Some(a),
                    )
                }
            },
        }
    }

    /// A fresh tracker over `normalised_actions`: cursor at the start, a
    /// tick due immediately.
    pub fn new(normalised_actions: Vec<NormalisedAction>) -> (r: FunscriptPlaystate)
        requires
            actions_wf(normalised_actions@),
        ensures
            r.wf(),
            r.normalised_actions == normalised_actions,
            r.next_index == 0,
            r.next_tick_at == Some(0u32),
    {
        FunscriptPlaystate { normalised_actions, next_index: 0, next_tick_at: Some(0) }
    }

    /// Tells the tracker the current time and takes the due action, if any.
    pub fn tick(&mut self, time_milliseconds: u32) -> (r: Option<NormalisedAction>)
        requires
            old(self).wf(),
        ensures
            final(self).wf(),
            *final(self) == old(self).spec_tick(time_milliseconds).0,
            r == old(self).spec_tick(time_milliseconds).1,
    {
        let next_tick_at = match self.next_tick_at {
            None => {
                return None;
            },
            Some(t) => t,
        };
        if time_milliseconds < next_tick_at {
            return None;
        }
        if self.next_index >= self.normalised_actions.len() {
            return None;
        }
        let next_action = self.normalised_actions[self.next_index];
        self.next_index += 1;
        self.next_tick_at = Some(next_action.at);
        Some(next_action)
    }

    /// The tracker state after a seek to `t`.
    pub open spec fn spec_after_seek(self, t: u32) -> FunscriptPlaystate {
        FunscriptPlaystate {
            next_tick_at: Some(t),
            next_index: spec_seek_index(self.normalised_actions@, t) as usize,
            ..self
        }
    }

    /// Seeks to `time_milliseconds`: a tick becomes due immediately, and
    /// the cursor relocates, by binary search, to the first action strictly
    /// after that time.
    pub fn seek(&mut self, time_milliseconds: u32)
        requires
            old(self).wf(),
        ensures
            final(self).wf(),
            *final(self) == old(self).spec_after_seek(time_milliseconds),
            final(self).normalised_actions == old(self).normalised_actions,
            final(self).next_tick_at == Some(time_milliseconds),
            final(self).next_index == spec_seek_index(
                old(self).normalised_actions@,
                time_milliseconds,
            ),
    {
        let ghost s = self.normalised_actions@;
        self.next_tick_at = Some(time_milliseconds);
        let mut lo: usize = 0;
        let mut hi: usize = self.normalised_actions.len();
        while lo < hi
            invariant
                0 <= lo <= hi <= s.len(),
                s == self.normalised_actions@,
                actions_wf(s),
                forall|j: int| 0 <= j < lo ==> (#[trigger] s[j]).at <= time_milliseconds,
                forall|j: int| hi <= j < s.len() ==> (#[trigger] s[j]).at > time_milliseconds,
            decreases hi - lo,
        {
            let mid = lo + (hi - lo) / 2;
            if self.normalised_actions[mid].at > time_milliseconds {
                proof {
                    assert forall|j: int| mid <= j < s.len() implies (#[trigger] s[j]).at
                        > time_milliseconds by {
                        if j > mid {
                            assert(s[mid as int].at <= s[j].at);
                        }
                    }
                }
                hi = mid;
            } else {
                proof {
                    assert forall|j: int| 0 <= j < mid + 1 implies (#[trigger] s[j]).at
                        <= time_milliseconds by {
                        if j < mid {
                            assert(s[j].at <= s[mid as int].at);
                        }
                    }
                }
                lo = mid + 1;
            }
        }
        proof {
            lemma_seek_index_props(s, time_milliseconds);
            let si = spec_seek_index(s, time_milliseconds);
            if si < lo {
                assert(s[si].at <= time_milliseconds);
            }
            if lo < si {
                assert(s[lo as int].at > time_milliseconds);
            }
        }
        self.next_index = lo;
    }
}

/// No backward replay: two consecutive ticks that both return an action,
/// with no seek between them, return actions in timestamp order.
pub proof fn lemma_tick_monotone(s0: FunscriptPlaystate, now1: u32, now2: u32)
    requires
        s0.wf(),
        s0.spec_tick(now1).1 is Some,
        s0.spec_tick(now1).0.spec_tick(now2).1 is Some,
    ensures
        s0.spec_tick(now1).1.unwrap().at <= s0.spec_tick(now1).0.spec_tick(now2).1.unwrap().at,
{
    broadcast use vstd::std_specs::vec::group_vec_axioms;

    let acts = s0.normalised_actions@;
    let s1 = s0.spec_tick(now1).0;
    let a1 = s0.spec_tick(now1).1.unwrap();
    let a2 = s1.spec_tick(now2).1.unwrap();
    assert(s0.normalised_actions@.len() <= usize::MAX) by {
        vstd::std_specs::vec::axiom_spec_len(&s0.normalised_actions);
    }
    assert(s0.next_index < acts.len());
    assert(s1.next_index == s0.next_index + 1);
    assert(a1 == acts[s0.next_index as int]);
    assert(a2 == acts[s0.next_index + 1]);
}

/// After a seek, whatever tick returns next lies strictly after the sought
/// time: seeking never replays what is already past.
pub proof fn lemma_seek_then_tick_after(
    sought: FunscriptPlaystate,
    seek_time: u32,
    tick_time: u32,
)
    requires
        sought.wf(),
        sought.next_tick_at == Some(seek_time),
        sought.next_index == spec_seek_index(sought.normalised_actions@, seek_time),
    ensures
        sought.spec_tick(tick_time).1 matches Some(a) ==> a.at > seek_time,
{
    lemma_seek_index_props(sought.normalised_actions@, seek_time);
}

/// Exhaustion: once the cursor has passed the last action, every tick
/// returns nothing and leaves the tracker exactly as it is, so it keeps
/// returning nothing for good (absent a seek).
pub proof fn lemma_tick_exhausted(s: FunscriptPlaystate, now: u32)
    requires
        s.next_index >= s.normalised_actions@.len(),
    ensures
        s.spec_tick(now).0 == s,
        s.spec_tick(now).1 is None,
{
}

} // verus!
