//! The synchronization coordinator: owns one tracker/limiter pair per live
//! axis, consumes the stream of lifecycle events one at a time, and decides
//! which device commands each event gives rise to. All device I/O stays
//! with the caller: each event yields the commands to send, in order.

use vstd::prelude::*;

use crate::axis::{spec_kind_rank, AxisDescriptor, AxisId, AxisKind};
use crate::config::{conservative_limits, limits_wf, LimitsConfig};
use crate::keybindings::KeyCommand;
use crate::limiter::{spec_update_limit, AxisLimiter};
use crate::movement::{Movement, MAX_RAMP_TIME_MS, POSITION_SCALE};
use crate::tracker::{actions_wf, FunscriptPlaystate, NormalisedAction};
use crate::vecmap::{spec_insert, spec_lookup, VecMap};

verus! {

/// Error of a seek or time-change step: a due action demanded a ramp the
/// protocol cannot express (its deadline lies further away than the
/// longest ramp), so no movement could be constructed.
#[derive(Copy, Clone, Debug, PartialEq, Eq, Structural)]
pub struct MovementConstructionFailed {}

/// What one axis is asked to do when an event arrives.
#[derive(Copy, Clone, Debug, PartialEq, Eq, Structural)]
pub enum AxisStepOp {
    /// The clock moved forward normally.
    Tick,
    /// The clock jumped; `paused` selects the long fixed ramp used while
    /// paused, so the axis drifts gently to the right position.
    Seek { paused: bool },
}

/// The playback state of one live axis: its timeline tracker and its
/// motion limiter.
pub struct AxisPlaystate {
    pub funscript: FunscriptPlaystate,
    pub limiter: AxisLimiter,
}

impl AxisPlaystate {
    /// Both halves well-formed.
    pub open spec fn wf(self) -> bool {
        self.funscript.wf() && self.limiter.wf()
    }

    /// A fresh playstate over `normalised_actions` with the given safety
    /// limits, as of wall-clock time `wall_now_millis`.
    pub fn new(
        normalised_actions: Vec<NormalisedAction>,
        speed_limit: u32,
        min: u32,
        max: u32,
        wall_now_millis: u64,
    ) -> (r: AxisPlaystate)
        requires
            actions_wf(normalised_actions@),
            min <= POSITION_SCALE,
            max <= POSITION_SCALE,
        ensures
            r.wf(),
            r.funscript.normalised_actions == normalised_actions,
            r.funscript.next_index == 0,
            r.funscript.next_tick_at == Some(0u32),
            r.limiter.speed_limit == speed_limit,
            r.limiter.min == min,
            r.limiter.max == max,
            r.limiter.last_command_start_time == wall_now_millis,
            r.limiter.last_command_target_time == wall_now_millis,
            r.limiter.last_command_start == POSITION_SCALE / 2,
            r.limiter.last_command_target == POSITION_SCALE / 2,
    {
        AxisPlaystate {
            funscript: FunscriptPlaystate::new(normalised_actions),
            limiter: AxisLimiter::new(speed_limit, min, max, wall_now_millis),
        }
    }

    /// The limiter-and-commit stage both step kinds share: the due action's
    /// position is clamped, the limiter records the motion as dispatched,
    /// and the movement comes back — unless its ramp duration exceeds the
    /// protocol maximum, which fails the step (after the commit, mirroring
    /// the dispatch order).
    pub open spec fn spec_clamp_and_commit(
        self,
        axis_id: AxisId,
        action: NormalisedAction,
        duration: u32,
        wall_now_millis: u64,
    ) -> (AxisPlaystate, Result<Option<Movement>, MovementConstructionFailed>) {
        let target = self.limiter.spec_limit_target(wall_now_millis, action.norm_pos, duration);
        let lim2 = self.limiter.spec_after_commanded(wall_now_millis, target as u32, duration);
        let st2 = AxisPlaystate { limiter: lim2, ..self };
        if duration <= MAX_RAMP_TIME_MS {
            (st2, Ok(Some(Movement::spec_movement(axis_id, target as u32, duration))))
        } else {
            (st2, Err(MovementConstructionFailed {}))
        }
    }

    /// What one event step does to one axis. On a tick, a due-but-stale
    /// action (its own time already before `now`) is taken off the timeline
    /// but commands no motion. On a seek, the tracker first relocates, and
    /// the ramp lasts until the action's own deadline — or a fixed second
    /// while paused, so the axis drifts gently to position.
    pub open spec fn spec_step(
        self,
        axis_id: AxisId,
        op: AxisStepOp,
        now_millis: u32,
        wall_now_millis: u64,
    ) -> (AxisPlaystate, Result<Option<Movement>, MovementConstructionFailed>) {
        let pre = match op {
            AxisStepOp::Tick => self,
            AxisStepOp::Seek { .. } => AxisPlaystate {
                funscript: self.funscript.spec_after_seek(now_millis),
                ..self
            },
        };
        let (fs2, ticked) = pre.funscript.spec_tick(now_millis);
        let mid = AxisPlaystate { funscript: fs2, ..pre };
        match ticked {
            None => (mid, Ok(None)),
            Some(action) => match op {
                AxisStepOp::Tick => {
                    if action.at < now_millis {
                        (mid, Ok(None))
                    } else {
                        mid.spec_clamp_and_commit(
                            axis_id,
                            action,
                            (action.at - now_millis) as u32,
                            wall_now_millis,
                        )
                    }
                },
                AxisStepOp::Seek { paused } => {
                    let duration = if paused {
                        1000u32
                    } else {
                        (action.at - now_millis) as u32
                    };
                    mid.spec_clamp_and_commit(axis_id, action, duration, wall_now_millis)
                },
            },
        }
    }

    /// Advances this axis for a normal clock tick; the returned movement,
    /// if any, is already committed to the limiter and ready to dispatch.
    pub fn tick(&mut self, now_millis: u32, axis_id: AxisId, wall_now_millis: u64) -> (r: Result<
        Option<Movement>,
        MovementConstructionFailed,
    >)
        requires
            old(self).wf(),
            wall_now_millis <= u64::MAX - u32::MAX,
        ensures
            final(self).wf(),
            *final(self) == old(self).spec_step(
                axis_id,
                AxisStepOp::Tick,
                now_millis,
                wall_now_millis,
            ).0,
            r == old(self).spec_step(axis_id, AxisStepOp::Tick, now_millis, wall_now_millis).1,
            r matches Ok(Some(m)) ==> m.wf() && m.spec_axis() == axis_id,
    {
        let action = match self.funscript.tick(now_millis) {
            None => {
                return Ok(None);
            },
            Some(action) => action,
        };
        if action.at < now_millis {
            return Ok(None);
        }
        self.clamp_and_commit(axis_id, action, action.at - now_millis, wall_now_millis)
    }

    /// Relocates this axis after a clock jump and advances it once; the
    /// returned movement, if any, is already committed to the limiter.
    pub fn seek(
        &mut self,
        now_millis: u32,
        paused: bool,
        axis_id: AxisId,
        wall_now_millis: u64,
    ) -> (r: Result<Option<Movement>, MovementConstructionFailed>)
        requires
            old(self).wf(),
            wall_now_millis <= u64::MAX - u32::MAX,
        ensures
            final(self).wf(),
            *final(self) == old(self).spec_step(
                axis_id,
                AxisStepOp::Seek { paused },
                now_millis,
                wall_now_millis,
            ).0,
            r == old(self).spec_step(
                axis_id,
                AxisStepOp::Seek { paused },
                now_millis,
                wall_now_millis,
            ).1,
            r matches Ok(Some(m)) ==> m.wf() && m.spec_axis() == axis_id,
    {
        self.funscript.seek(now_millis);
        let ghost sought = self.funscript;
        let action = match self.funscript.tick(now_millis) {
            None => {
                return Ok(None);
            },
            Some(action) => action,
        };
        proof {
            crate::tracker::lemma_seek_then_tick_after(sought, now_millis, now_millis);
        }
        let duration: u32 = if paused {
            1000
        } else {
            action.at - now_millis
        };
        self.clamp_and_commit(axis_id, action, duration, wall_now_millis)
    }

    /// Clamps a due action and commits the resulting motion; see
    /// [`AxisPlaystate::spec_clamp_and_commit`].
    fn clamp_and_commit(
        &mut self,
        axis_id: AxisId,
        action: NormalisedAction,
        duration: u32,
        wall_now_millis: u64,
    ) -> (r: Result<Option<Movement>, MovementConstructionFailed>)
        requires
            old(self).wf(),
            action.norm_pos <= POSITION_SCALE,
            wall_now_millis <= u64::MAX - u32::MAX,
        ensures
            final(self).wf(),
            *final(self) == old(self).spec_clamp_and_commit(
                axis_id,
                action,
                duration,
                wall_now_millis,
            ).0,
            r == old(self).spec_clamp_and_commit(axis_id, action, duration, wall_now_millis).1,
            r matches Ok(Some(m)) ==> m.wf() && m.spec_axis() == axis_id,
    {
        let (new_target, new_duration) = self.limiter.limit_command(
            wall_now_millis,
            action.norm_pos,
            duration,
        );
        self.limiter.notify_commanded(wall_now_millis, new_target, new_duration);
        match Movement::new(axis_id, new_target, new_duration) {
            Some(movement) => Ok(Some(movement)),
            None => Err(MovementConstructionFailed {}),
        }
    }
}

/// One thing the caller must do to the device.
#[derive(Copy, Clone, Debug, PartialEq, Eq, Structural)]
pub enum DeviceCommand {
    /// Dispatch this movement.
    Move(Movement),
    /// Stop all motion immediately.
    Stop,
}

/// Whether every playstate in an entry sequence is well-formed.
pub open spec fn playstate_values_wf(s: Seq<(u32, AxisPlaystate)>) -> bool {
    forall|i: int| 0 <= i < s.len() ==> (#[trigger] s[i]).1.wf()
}

/// What one event step does to the whole live-axis map, axis by axis in
/// ascending id order: each axis is stepped and its commands collected; a
/// failing axis keeps its (already committed) state, later axes are left
/// untouched, and the commands gathered so far stand.
pub open spec fn spec_step_entries(
    entries: Seq<(u32, AxisPlaystate)>,
    op: AxisStepOp,
    now_millis: u32,
    wall_now_millis: u64,
) -> (Seq<(u32, AxisPlaystate)>, Seq<DeviceCommand>, Option<MovementConstructionFailed>)
    decreases entries.len(),
{
    if entries.len() == 0 {
        (entries, Seq::empty(), None)
    } else {
        let stepped = entries[0].1.spec_step(
            AxisId(entries[0].0),
            op,
            now_millis,
            wall_now_millis,
        );
        match stepped.1 {
            Err(e) => (
                seq![(entries[0].0, stepped.0)] + entries.drop_first(),
                Seq::empty(),
                Some(e),
            ),
            Ok(cmd) => {
                let rest = spec_step_entries(entries.drop_first(), op, now_millis, wall_now_millis);
                let cmds = match cmd {
                    Some(m) => seq![DeviceCommand::Move(m)] + rest.1,
                    None => rest.1,
                };
                (seq![(entries[0].0, stepped.0)] + rest.0, cmds, rest.2)
            },
        }
    }
}

/// Steps every axis of `map` for one event, appending the commands to send
/// (in ascending axis-id order) to `commands`; see [`spec_step_entries`].
fn step_axes(
    map: &mut VecMap<AxisPlaystate>,
    op: AxisStepOp,
    now_millis: u32,
    wall_now_millis: u64,
    commands: &mut Vec<DeviceCommand>,
) -> (failure: Option<MovementConstructionFailed>)
    requires
        old(map).wf(),
        playstate_values_wf(old(map).view()),
        wall_now_millis <= u64::MAX - u32::MAX,
    ensures
        final(map).wf(),
        playstate_values_wf(final(map).view()),
        final(map).view() == spec_step_entries(old(map).view(), op, now_millis, wall_now_millis).0,
        final(commands)@ == old(commands)@ + spec_step_entries(
            old(map).view(),
            op,
            now_millis,
            wall_now_millis,
        ).1,
        failure == spec_step_entries(old(map).view(), op, now_millis, wall_now_millis).2,
{
    let mut taken: VecMap<AxisPlaystate> = VecMap::new();
    core::mem::swap(&mut taken, map);
    let ghost orig = taken.view();
    let ghost base = commands@;
    let mut failure: Option<MovementConstructionFailed> = None;
    proof {
        assert(map.view() + taken.view() =~= orig);
        assert(commands@.skip(base.len() as int) =~= Seq::<DeviceCommand>::empty());
    }
    while taken.len() > 0
        invariant
            taken.wf(),
            map.wf(),
            playstate_values_wf(taken.view()),
            playstate_values_wf(map.view()),
            wall_now_millis <= u64::MAX - u32::MAX,
            forall|i: int, j: int|
                0 <= i < map.view().len() && 0 <= j < taken.view().len() ==> (#[trigger] map.view()[i]).0
                    < (#[trigger] taken.view()[j]).0,
            base.len() <= commands@.len(),
            commands@.take(base.len() as int) == base,
            ({
                let f = spec_step_entries(orig, op, now_millis, wall_now_millis);
                match failure {
                    None => {
                        let g = spec_step_entries(taken.view(), op, now_millis, wall_now_millis);
                        f.0 == map.view() + g.0 && f.1 == commands@.skip(base.len() as int) + g.1
                            && f.2 == g.2
                    },
                    Some(e) => f.0 == map.view() + taken.view() && f.1 == commands@.skip(
                        base.len() as int,
                    ) && f.2 == Some(e),
                }
            }),
        decreases taken.view().len(),
    {
        let ghost t0 = taken.view();
        let ghost m0 = map.view();
        let ghost c0 = commands@;
        let (k, mut ap) = taken.remove_first();
        proof {
            assert(t0.drop_first() =~= taken.view());
        }
        match failure {
            None => {
                let r = match op {
                    AxisStepOp::Tick => ap.tick(now_millis, AxisId(k), wall_now_millis),
                    AxisStepOp::Seek { paused } => ap.seek(
                        now_millis,
                        paused,
                        AxisId(k),
                        wall_now_millis,
                    ),
                };
                map.push_back(k, ap);
                proof {
                    assert(map.view() =~= m0.push((k, ap)));
                }
                match r {
                    Ok(Some(m)) => {
                        commands.push(DeviceCommand::Move(m));
                        proof {
                            assert(commands@.take(base.len() as int) =~= base);
                            assert(commands@.skip(base.len() as int) =~= c0.skip(
                                base.len() as int,
                            ).push(DeviceCommand::Move(m)));
                            let g0 = spec_step_entries(t0, op, now_millis, wall_now_millis);
                            let g1 = spec_step_entries(
                                taken.view(),
                                op,
                                now_millis,
                                wall_now_millis,
                            );
                            assert(g0.0 =~= seq![(k, ap)] + g1.0);
                            assert(g0.1 =~= seq![DeviceCommand::Move(m)] + g1.1);
                            assert(m0 + g0.0 =~= map.view() + g1.0);
                            assert(c0.skip(base.len() as int) + g0.1 =~= commands@.skip(
                                base.len() as int,
                            ) + g1.1);
                        }
                    },
                    Ok(None) => {
                        proof {
                            let g0 = spec_step_entries(t0, op, now_millis, wall_now_millis);
                            let g1 = spec_step_entries(
                                taken.view(),
                                op,
                                now_millis,
                                wall_now_millis,
                            );
                            assert(g0.0 =~= seq![(k, ap)] + g1.0);
                            assert(g0.1 == g1.1);
                            assert(m0 + g0.0 =~= map.view() + g1.0);
                        }
                    },
                    Err(e) => {
                        failure = Some(e);
                        proof {
                            let g0 = spec_step_entries(t0, op, now_millis, wall_now_millis);
                            assert(g0.0 =~= seq![(k, ap)] + taken.view());
                            assert(g0.1 == Seq::<DeviceCommand>::empty());
                            assert(m0 + g0.0 =~= map.view() + taken.view());
                            assert(c0.skip(base.len() as int) + g0.1 =~= commands@.skip(
                                base.len() as int,
                            ));
                        }
                    },
                }
            },
            Some(_) => {
                map.push_back(k, ap);
                proof {
                    assert(map.view() =~= m0.push((k, ap)));
                    assert(m0 + t0 =~= map.view() + taken.view());
                }
            },
        }
    }
    proof {
        assert(map.view() + taken.view() =~= map.view());
        let f = spec_step_entries(orig, op, now_millis, wall_now_millis);
        match failure {
            None => {
                assert(spec_step_entries(taken.view(), op, now_millis, wall_now_millis).1
                    =~= Seq::<DeviceCommand>::empty());
                assert(f.0 =~= map.view());
                assert(f.1 =~= commands@.skip(base.len() as int));
            },
            Some(_) => {
                assert(f.0 =~= map.view());
            },
        }
        assert(commands@ =~= base + commands@.skip(base.len() as int));
    }
    failure
}

/// The live-axis map: one playstate per axis currently driven.
pub struct Playstate {
    pub by_axis: VecMap<AxisPlaystate>,
}

impl Playstate {
    /// A sorted map of well-formed playstates.
    pub open spec fn wf(self) -> bool {
        self.by_axis.wf() && playstate_values_wf(self.by_axis.view())
    }

    /// An empty map: no axis is driven yet.
    pub fn new() -> (r: Playstate)
        ensures
            r.wf(),
            r.by_axis.view() =~= Seq::<(u32, AxisPlaystate)>::empty(),
    {
        Playstate { by_axis: VecMap::new() }
    }
}

/// One lifecycle event of the controlled content, consumed by the
/// coordinator in strict arrival order.
pub enum PlaythreadMessage {
    /// New content started: any running timeline discovery should be
    /// cancelled and a new one begun. The live axis map is not cleared;
    /// discovered timelines replace its entries one by one.
    VideoStarting,
    /// A timeline for one axis kind became available.
    UseFunscript { axis_kind: AxisKind, normalised_actions: Vec<NormalisedAction> },
    /// The playback position jumped.
    Seek { now_millis: u32 },
    /// The playback position moved forward normally.
    TimeChange { now_millis: u32 },
    /// The pause state changed.
    PauseChange { paused: bool },
    /// The host is shutting down; stop the device and end the loop.
    Shutdown,
    /// A user key command was triggered.
    KeyCommand(KeyCommand),
}

/// Everything the caller must do after one event: the device commands to
/// send in order, whether to restart timeline discovery, whether to end
/// the loop, and whether command computation failed part-way (the
/// commands gathered before the failure still stand, and the event loop
/// should surface the error).
pub struct StepOutput {
    pub commands: Vec<DeviceCommand>,
    pub restart_discovery: bool,
    pub shutdown: bool,
    pub failure: Option<MovementConstructionFailed>,
}

/// The first descriptor of the given kind, if the device has one.
pub open spec fn spec_find_axis(axes: Seq<AxisDescriptor>, kind: AxisKind) -> Option<
    AxisDescriptor,
>
    decreases axes.len(),
{
    if axes.len() == 0 {
        None
    } else if axes[0].axis_kind == kind {
        Some(axes[0])
    } else {
        spec_find_axis(axes.drop_first(), kind)
    }
}

/// Finds the first device axis of the given kind.
fn find_axis(axes: &Vec<AxisDescriptor>, kind: AxisKind) -> (r: Option<AxisDescriptor>)
    ensures
        r == spec_find_axis(axes@, kind),
{
    let n = axes.len();
    let mut i: usize = 0;
    proof {
        assert(axes@.skip(0) =~= axes@);
    }
    while i < n
        invariant
            0 <= i <= n,
            n == axes@.len(),
            spec_find_axis(axes@, kind) == spec_find_axis(axes@.skip(i as int), kind),
        decreases n - i,
    {
        proof {
            assert(axes@.skip(i as int).drop_first() =~= axes@.skip(i as int + 1));
            assert(axes@.skip(i as int)[0] == axes@[i as int]);
        }
        if axes[i].axis_kind == kind {
            return Some(axes[i]);
        }
        i += 1;
    }
    None
}

/// The limits configured for a kind, or the conservative built-in fallback.
pub open spec fn spec_limits_for(
    limits: Seq<(u32, (AxisKind, LimitsConfig))>,
    kind: AxisKind,
) -> LimitsConfig {
    match spec_lookup(limits, spec_kind_rank(kind)) {
        Some(e) => e.1,
        None => LimitsConfig { speed: 250_000, default_min: 400_000, default_max: 600_000 },
    }
}

/// The playstate a freshly loaded timeline starts with.
pub open spec fn spec_fresh_playstate(
    normalised_actions: Vec<NormalisedAction>,
    limits: LimitsConfig,
    wall_now_millis: u64,
) -> AxisPlaystate {
    AxisPlaystate {
        funscript: FunscriptPlaystate {
            normalised_actions,
            next_index: 0,
            next_tick_at: Some(0),
        },
        limiter: AxisLimiter {
            speed_limit: limits.speed,
            last_command_start_time: wall_now_millis,
            last_command_start: (POSITION_SCALE / 2) as u32,
            last_command_target_time: wall_now_millis,
            last_command_target: (POSITION_SCALE / 2) as u32,
            min: limits.default_min,
            max: limits.default_max,
        },
    }
}

/// One live-axis entry after a limit-change command aimed at `target_id`:
/// only the targeted axis's limiter window moves, and only if the whole
/// command validates.
pub open spec fn spec_limit_changed_entry(
    entry: (u32, AxisPlaystate),
    target_id: u32,
    cmd: crate::keybindings::AxisLimitChangeCommand,
) -> (u32, AxisPlaystate) {
    if entry.0 == target_id {
        let lim = entry.1.limiter;
        let updated = match (
            spec_update_limit(cmd.min_by, cmd.min_new, lim.min),
            spec_update_limit(cmd.max_by, cmd.max_new, lim.max),
        ) {
            (Ok(mn), Ok(mx)) => AxisLimiter { min: mn, max: mx, ..lim },
            _ => lim,
        };
        (entry.0, AxisPlaystate { limiter: updated, ..entry.1 })
    } else {
        entry
    }
}

/// The synchronization coordinator: the pause flag, the device's axis set,
/// the configured limits, and the live axis map.
pub struct Coordinator {
    /// Whether playback is currently paused.
    pub paused: bool,
    /// The axes the connected device reported.
    pub axes: Vec<AxisDescriptor>,
    /// Configured limits per axis kind, keyed by kind rank.
    pub limits: VecMap<(AxisKind, LimitsConfig)>,
    /// The live axis map.
    pub playstate: Playstate,
}

impl Coordinator {
    /// Well-formed limits and playstates.
    pub open spec fn wf(self) -> bool {
        limits_wf(self.limits) && self.playstate.wf()
    }

    /// A fresh coordinator: unpaused, no live axes.
    pub fn new(axes: Vec<AxisDescriptor>, limits: VecMap<(AxisKind, LimitsConfig)>) -> (r:
        Coordinator)
        requires
            limits_wf(limits),
        ensures
            r.wf(),
            r.paused == false,
            r.axes == axes,
            r.limits == limits,
            r.playstate.by_axis.view() =~= Seq::<(u32, AxisPlaystate)>::empty(),
    {
        Coordinator { paused: false, axes, limits, playstate: Playstate::new() }
    }

    /// The current limiter window of the live axis of the given kind, for
    /// display; `None` where no such axis is live.
    pub fn limits_of_kind(&self, kind: AxisKind) -> (r: Option<(u32, u32)>)
        ensures
            match spec_find_axis(self.axes@, kind) {
                None => r is None,
                Some(d) => match spec_lookup(self.playstate.by_axis.view(), d.axis_id.0) {
                    None => r is None,
                    Some(ap) => r == Some((ap.limiter.min, ap.limiter.max)),
                },
            },
    {
        let d = match find_axis(&self.axes, kind) {
            None => {
                return None;
            },
            Some(d) => d,
        };
        match self.playstate.by_axis.get(d.axis_id.0) {
            None => None,
            Some(ap) => Some((ap.limiter.min, ap.limiter.max)),
        }
    }

    /// Consumes one lifecycle event, updating the live-axis state and
    /// returning what the caller must now do to the device. Events are
    /// meant to be handed over strictly in arrival order.
    ///
    /// `wall_now_millis` is the wall clock the limiters extrapolate
    /// against; it must be monotone across calls for estimates to mean
    /// anything, though nothing here depends on it for safety.
    pub fn handle_event(&mut self, event: PlaythreadMessage, wall_now_millis: u64) -> (out:
        StepOutput)
        requires
            old(self).wf(),
            wall_now_millis <= u64::MAX - u32::MAX,
            event matches PlaythreadMessage::UseFunscript { normalised_actions, .. }
                ==> actions_wf(normalised_actions@),
        ensures
            final(self).wf(),
            final(self).axes == old(self).axes,
            final(self).limits == old(self).limits,
            (event matches PlaythreadMessage::PauseChange { .. }) == false ==> final(self).paused
                == old(self).paused,
            event matches PlaythreadMessage::VideoStarting ==> *final(self) == *old(self)
                && out.commands@.len() == 0 && out.restart_discovery && !out.shutdown
                && out.failure is None,
            event matches PlaythreadMessage::Shutdown ==> *final(self) == *old(self)
                && out.commands@ =~= seq![DeviceCommand::Stop] && !out.restart_discovery
                && out.shutdown && out.failure is None,
            event matches PlaythreadMessage::PauseChange { paused } ==> final(self).paused
                == paused && final(self).playstate == old(self).playstate && out.commands@ == if paused {
                seq![DeviceCommand::Stop]
            } else {
                Seq::<DeviceCommand>::empty()
            } && !out.restart_discovery && !out.shutdown && out.failure is None,
            event matches PlaythreadMessage::UseFunscript { axis_kind, normalised_actions } ==> (
            out.commands@.len() == 0 && !out.restart_discovery && !out.shutdown
                && out.failure is None && final(self).paused == old(self).paused && match spec_find_axis(
                old(self).axes@,
                axis_kind,
            ) {
                None => *final(self) == *old(self),
                Some(d) => final(self).playstate.by_axis.view() == spec_insert(
                    old(self).playstate.by_axis.view(),
                    d.axis_id.0,
                    spec_fresh_playstate(
                        normalised_actions,
                        spec_limits_for(old(self).limits.view(), axis_kind),
                        wall_now_millis,
                    ),
                ),
            }),
            event matches PlaythreadMessage::Seek { now_millis } ==> ({
                let f = spec_step_entries(
                    old(self).playstate.by_axis.view(),
                    AxisStepOp::Seek { paused: old(self).paused },
                    now_millis,
                    wall_now_millis,
                );
                final(self).playstate.by_axis.view() == f.0 && out.commands@ == f.1 && out.failure
                    == f.2 && !out.restart_discovery && !out.shutdown
            }),
            event matches PlaythreadMessage::TimeChange { now_millis } ==> if old(self).paused {
                *final(self) == *old(self) && out.commands@.len() == 0 && !out.restart_discovery
                    && !out.shutdown && out.failure is None
            } else {
                let f = spec_step_entries(
                    old(self).playstate.by_axis.view(),
                    AxisStepOp::Tick,
                    now_millis,
                    wall_now_millis,
                );
                final(self).playstate.by_axis.view() == f.0 && out.commands@ == f.1 && out.failure
                    == f.2 && !out.restart_discovery && !out.shutdown
            },
            event matches PlaythreadMessage::KeyCommand(cmd) ==> (match cmd {
                KeyCommand::AxisLimitChange(change) => out.commands@.len() == 0
                    && !out.restart_discovery && !out.shutdown
                    && out.failure is None && final(self).paused == old(self).paused
                    && match spec_find_axis(old(self).axes@, change.axis) {
                    None => *final(self) == *old(self),
                    Some(d) => final(self).playstate.by_axis.view().len() == old(
                        self,
                    ).playstate.by_axis.view().len() && forall|i: int|
                        0 <= i < old(self).playstate.by_axis.view().len()
                            ==> #[trigger] final(self).playstate.by_axis.view()[i]
                            == spec_limit_changed_entry(
                            old(self).playstate.by_axis.view()[i],
                            d.axis_id.0,
                            change,
                        ),
                },
            }),
    {
        match event {
            PlaythreadMessage::VideoStarting => {
                StepOutput {
                    commands: Vec::new(),
                    restart_discovery: true,
                    shutdown: false,
                    failure: None,
                }
            },
            PlaythreadMessage::UseFunscript { axis_kind, normalised_actions } => {
                let d = match find_axis(&self.axes, axis_kind) {
                    None => {
                        return StepOutput {
                            commands: Vec::new(),
                            restart_discovery: false,
                            shutdown: false,
                            failure: None,
                        };
                    },
                    Some(d) => d,
                };
                let limits: LimitsConfig = match self.limits.get(crate::axis::kind_rank(axis_kind))
                    {
                    Some(e) => e.1,
                    None => conservative_limits(),
                };
                proof {
                    if spec_lookup(self.limits.view(), spec_kind_rank(axis_kind)) is Some {
                        crate::vecmap::lemma_lookup_in_entries(
                            self.limits.view(),
                            spec_kind_rank(axis_kind),
                        );
                    }
                }
                let ap = AxisPlaystate::new(
                    normalised_actions,
                    limits.speed,
                    limits.default_min,
                    limits.default_max,
                    wall_now_millis,
                );
                let ghost before = self.playstate.by_axis.view();
                self.playstate.by_axis.insert(d.axis_id.0, ap);
                proof {
                    crate::vecmap::lemma_insert_entries(before, d.axis_id.0, ap);
                }
                StepOutput {
                    commands: Vec::new(),
                    restart_discovery: false,
                    shutdown: false,
                    failure: None,
                }
            },
            PlaythreadMessage::Seek { now_millis } => {
                let mut commands: Vec<DeviceCommand> = Vec::new();
                let paused = self.paused;
                let failure = step_axes(
                    &mut self.playstate.by_axis,
                    AxisStepOp::Seek { paused },
                    now_millis,
                    wall_now_millis,
                    &mut commands,
                );
                StepOutput { commands, restart_discovery: false, shutdown: false, failure }
            },
            PlaythreadMessage::TimeChange { now_millis } => {
                if self.paused {
                    return StepOutput {
                        commands: Vec::new(),
                        restart_discovery: false,
                        shutdown: false,
                        failure: None,
                    };
                }
                let mut commands: Vec<DeviceCommand> = Vec::new();
                let failure = step_axes(
                    &mut self.playstate.by_axis,
                    AxisStepOp::Tick,
                    now_millis,
                    wall_now_millis,
                    &mut commands,
                );
                StepOutput { commands, restart_discovery: false, shutdown: false, failure }
            },
            PlaythreadMessage::PauseChange { paused } => {
                self.paused = paused;
                let mut commands: Vec<DeviceCommand> = Vec::new();
                if paused {
                    commands.push(DeviceCommand::Stop);
                }
                proof {
                    if paused {
                        assert(commands@ =~= seq![DeviceCommand::Stop]);
                    }
                }
                StepOutput { commands, restart_discovery: false, shutdown: false, failure: None }
            },
            PlaythreadMessage::Shutdown => {
                let mut commands: Vec<DeviceCommand> = Vec::new();
                commands.push(DeviceCommand::Stop);
                proof {
                    assert(commands@ =~= seq![DeviceCommand::Stop]);
                }
                StepOutput { commands, restart_discovery: false, shutdown: true, failure: None }
            },
            PlaythreadMessage::KeyCommand(cmd) => {
                let KeyCommand::AxisLimitChange(change) = cmd;
                let d = match find_axis(&self.axes, change.axis) {
                    None => {
                        return StepOutput {
                            commands: Vec::new(),
                            restart_discovery: false,
                            shutdown: false,
                            failure: None,
                        };
                    },
                    Some(d) => d,
                };
                let target_id = d.axis_id.0;
                let ghost orig = self.playstate.by_axis.view();
                let mut taken: VecMap<AxisPlaystate> = VecMap::new();
                core::mem::swap(&mut taken, &mut self.playstate.by_axis);
                proof {
                    assert(self.playstate.by_axis.view() + taken.view() =~= orig);
                }
                while taken.len() > 0
                    invariant
                        self.axes == old(self).axes,
                        self.limits == old(self).limits,
                        self.paused == old(self).paused,
                        limits_wf(self.limits),
                        taken.wf(),
                        self.playstate.by_axis.wf(),
                        playstate_values_wf(taken.view()),
                        playstate_values_wf(self.playstate.by_axis.view()),
                        forall|i: int, j: int|
                            0 <= i < self.playstate.by_axis.view().len() && 0 <= j
                                < taken.view().len() ==> (
                            #[trigger] self.playstate.by_axis.view()[i]).0 < (
                            #[trigger] taken.view()[j]).0,
                        self.playstate.by_axis.view().len() + taken.view().len() == orig.len(),
                        forall|i: int|
                            0 <= i < self.playstate.by_axis.view().len()
                                ==> #[trigger] self.playstate.by_axis.view()[i]
                                == spec_limit_changed_entry(orig[i], target_id, change),
                        forall|j: int|
                            0 <= j < taken.view().len() ==> #[trigger] taken.view()[j] == orig[j
                                + self.playstate.by_axis.view().len()],
                    decreases taken.view().len(),
                {
                    let ghost m0 = self.playstate.by_axis.view();
                    let (k, mut ap) = taken.remove_first();
                    if k == target_id {
                        let _ = crate::limiter::update_limits(&change, &mut ap.limiter);
                    }
                    self.playstate.by_axis.push_back(k, ap);
                    proof {
                        assert(self.playstate.by_axis.view() =~= m0.push((k, ap)));
                    }
                }
                proof {
                    assert(self.playstate.by_axis.view().len() == orig.len());
                }
                StepOutput {
                    commands: Vec::new(),
                    restart_discovery: false,
                    shutdown: false,
                    failure: None,
                }
            },
        }
    }
}

} // verus!
