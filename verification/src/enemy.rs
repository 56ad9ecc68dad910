use vstd::prelude::*;
use crate::arith::{
    lemma_quotient_bounded, lemma_rem_negated, spec_truncated_div, spec_truncated_rem,
};

verus! {

// Each enemy is a state machine that advances once per physics frame. What
// an enemy perceives (whether it sees the player, how far it must lunge) is
// measured by the physics engine and handed in; what it does is handed back
// as a plain action, which the physics side turns into forces and bullets.

/// One frame of a countdown: `Some(frames - 1)` while frames are left,
/// `None` once the count has run out.
pub open spec fn spec_tick(frames: i32) -> Option<i32> {
    if frames > 0 { Some((frames - 1) as i32) } else { None }
}

/// Counts a timed state down by one frame, or reports that it is over.
pub fn tick(frames: i32) -> (next: Option<i32>)
    ensures
        next == spec_tick(frames),
{
    if frames > 0 { Some(frames - 1) } else { None }
}

// ---------------------------------------------------------------- goblin

/// A goblin waits until it sees the player, lunges at them, brakes, and
/// catches its breath before it looks again.
#[derive(Clone, Copy, Debug, PartialEq, Eq, Structural)]
pub enum EnemyGoblinState {
    Idle,
    Lunging(i32),
    Slowing(i32),
    Recovering(i32),
}

impl EnemyGoblinState {
    /// The state a goblin is placed in.
    pub fn initial() -> (state: Self)
        ensures
            state == EnemyGoblinState::Idle,
    {
        EnemyGoblinState::Idle
    }
}

#[derive(Clone, Copy, Debug, PartialEq, Eq, Structural)]
pub struct EnemyGoblin {
    pub state: EnemyGoblinState,
}

/// The goblin's frame counts from the balancing data.
#[derive(Clone, Copy, Debug, PartialEq, Eq, Structural)]
pub struct GoblinTiming {
    pub slowing_frames: i32,
    pub recovering_frames: i32,
}

/// What a goblin perceives in a frame. `lunge_frames` is how long a lunge
/// that starts now would last (distance over speed, in frames), and
/// `moving` whether the goblin still has any velocity.
#[derive(Clone, Copy, Debug, PartialEq, Eq, Structural)]
pub struct GoblinSenses {
    pub player_in_sight: bool,
    pub lunge_frames: i32,
    pub moving: bool,
}

/// The force a goblin applies in a frame.
#[derive(Clone, Copy, Debug, PartialEq, Eq, Structural)]
pub enum GoblinForce {
    /// No force.
    Coast,
    /// Towards the player with the lunge force.
    Lunge,
    /// Against its own velocity with the slowing force.
    Brake,
}

pub open spec fn spec_goblin_step(
    state: EnemyGoblinState,
    senses: GoblinSenses,
    timing: GoblinTiming,
) -> (EnemyGoblinState, GoblinForce) {
    match state {
        EnemyGoblinState::Idle => if senses.player_in_sight {
            (EnemyGoblinState::Lunging(senses.lunge_frames), GoblinForce::Lunge)
        } else {
            (EnemyGoblinState::Idle, GoblinForce::Coast)
        },
        EnemyGoblinState::Lunging(frames) => match spec_tick(frames) {
            Some(left) => (EnemyGoblinState::Lunging(left), GoblinForce::Coast),
            None => (EnemyGoblinState::Slowing(timing.slowing_frames), GoblinForce::Coast),
        },
        EnemyGoblinState::Slowing(frames) => if frames > 0 && senses.moving {
            (EnemyGoblinState::Slowing((frames - 1) as i32), GoblinForce::Brake)
        } else {
            (EnemyGoblinState::Recovering(timing.recovering_frames), GoblinForce::Coast)
        },
        EnemyGoblinState::Recovering(frames) => match spec_tick(frames) {
            Some(left) => (EnemyGoblinState::Recovering(left), GoblinForce::Coast),
            None => (EnemyGoblinState::Idle, GoblinForce::Coast),
        },
    }
}

impl EnemyGoblin {
    /// The goblin one frame later and the force it applies in this frame.
    pub fn behavior(self, senses: GoblinSenses, timing: GoblinTiming) -> (out: (
        EnemyGoblin,
        GoblinForce,
    ))
        ensures
            (out.0.state, out.1) == spec_goblin_step(self.state, senses, timing),
    {
        match self.state {
            EnemyGoblinState::Idle => if senses.player_in_sight {
                (
                    EnemyGoblin { state: EnemyGoblinState::Lunging(senses.lunge_frames) },
                    GoblinForce::Lunge,
                )
            } else {
                (EnemyGoblin { state: EnemyGoblinState::Idle }, GoblinForce::Coast)
            },
            EnemyGoblinState::Lunging(frames) => match tick(frames) {
                Some(left) => (
                    EnemyGoblin { state: EnemyGoblinState::Lunging(left) },
                    GoblinForce::Coast,
                ),
                None => (
                    EnemyGoblin { state: EnemyGoblinState::Slowing(timing.slowing_frames) },
                    GoblinForce::Coast,
                ),
            },
            EnemyGoblinState::Slowing(frames) => if frames > 0 && senses.moving {
                (EnemyGoblin { state: EnemyGoblinState::Slowing(frames - 1) }, GoblinForce::Brake)
            } else {
                (
                    EnemyGoblin { state: EnemyGoblinState::Recovering(timing.recovering_frames) },
                    GoblinForce::Coast,
                )
            },
            EnemyGoblinState::Recovering(frames) => match tick(frames) {
                Some(left) => (
                    EnemyGoblin { state: EnemyGoblinState::Recovering(left) },
                    GoblinForce::Coast,
                ),
                None => (EnemyGoblin { state: EnemyGoblinState::Idle }, GoblinForce::Coast),
            },
        }
    }
}


/// The phase of a goblin's cycle, numbered in the order the phases follow
/// one another.
pub open spec fn goblin_phase(state: EnemyGoblinState) -> int {
    match state {
        EnemyGoblinState::Idle => 0,
        EnemyGoblinState::Lunging(_) => 1,
        EnemyGoblinState::Slowing(_) => 2,
        EnemyGoblinState::Recovering(_) => 3,
    }
}

/// The frames left in a timed phase (none in the idle phase).
pub open spec fn goblin_frames(state: EnemyGoblinState) -> int {
    match state {
        EnemyGoblinState::Idle => 0,
        EnemyGoblinState::Lunging(f) => f as int,
        EnemyGoblinState::Slowing(f) => f as int,
        EnemyGoblinState::Recovering(f) => f as int,
    }
}

/// No frame count of the state is negative.
pub open spec fn goblin_counts_ok(state: EnemyGoblinState) -> bool {
    goblin_frames(state) >= 0
}

/// A goblin goes round its cycle in order: in each frame it either stays in
/// its phase or moves on to the next one (idle, lunging, slowing,
/// recovering, idle again); it never skips a phase or goes back.
pub proof fn law_goblin_cycle_in_order(
    state: EnemyGoblinState,
    senses: GoblinSenses,
    timing: GoblinTiming,
)
    ensures
        goblin_phase(spec_goblin_step(state, senses, timing).0) == goblin_phase(state)
            || goblin_phase(spec_goblin_step(state, senses, timing).0) == (goblin_phase(state)
            + 1) % 4,
{
}

/// A goblin stays in a timed phase only while it counts down: when it
/// keeps its phase, the count has dropped by exactly one frame.
pub proof fn law_goblin_counts_down(
    state: EnemyGoblinState,
    senses: GoblinSenses,
    timing: GoblinTiming,
)
    ensures
        goblin_frames(spec_goblin_step(state, senses, timing).0) == goblin_frames(state) - 1
            || goblin_phase(spec_goblin_step(state, senses, timing).0) != goblin_phase(state)
            || state == EnemyGoblinState::Idle,
{
}

/// With non-negative frame counts in the balancing data and a non-negative
/// lunge length, no frame count of a goblin ever becomes negative.
pub proof fn law_goblin_counts_stay_non_negative(
    state: EnemyGoblinState,
    senses: GoblinSenses,
    timing: GoblinTiming,
)
    requires
        goblin_counts_ok(state),
        senses.lunge_frames >= 0,
        timing.slowing_frames >= 0,
        timing.recovering_frames >= 0,
    ensures
        goblin_counts_ok(spec_goblin_step(state, senses, timing).0),
{
}


/// The goblin's state after `n` frames in which it senses `senses`.
pub open spec fn goblin_after(
    state: EnemyGoblinState,
    senses: GoblinSenses,
    timing: GoblinTiming,
    n: nat,
) -> EnemyGoblinState
    decreases n,
{
    if n == 0 {
        state
    } else {
        goblin_after(spec_goblin_step(state, senses, timing).0, senses, timing, (n - 1) as nat)
    }
}

/// Every timed phase of a goblin lasts its full count. A goblin lunging or
/// recovering with `n > 0` frames left coasts into the same phase with
/// `n - 1` left; braking with frames left goes on braking; only once the
/// count is spent does it move on: from lunging to slowing for the
/// balancing's slowing frames, from recovering back to idle. An idle goblin
/// that sees the player lunges for the frames the lunge needs; one that
/// does not stays idle.
pub proof fn law_goblin_phases_last_their_count(
    state: EnemyGoblinState,
    senses: GoblinSenses,
    timing: GoblinTiming,
)
    ensures
        ({
            let (next, force) = spec_goblin_step(state, senses, timing);
            match state {
                EnemyGoblinState::Recovering(n) => if n > 0 {
                    next == EnemyGoblinState::Recovering((n - 1) as i32) && force == GoblinForce::Coast
                } else {
                    next == EnemyGoblinState::Idle && force == GoblinForce::Coast
                },
                EnemyGoblinState::Lunging(n) => if n > 0 {
                    next == EnemyGoblinState::Lunging((n - 1) as i32) && force == GoblinForce::Coast
                } else {
                    next == EnemyGoblinState::Slowing(timing.slowing_frames) && force
                        == GoblinForce::Coast
                },
                EnemyGoblinState::Slowing(n) => if n > 0 && senses.moving {
                    next == EnemyGoblinState::Slowing((n - 1) as i32) && force == GoblinForce::Brake
                } else {
                    next == EnemyGoblinState::Recovering(timing.recovering_frames) && force
                        == GoblinForce::Coast
                },
                EnemyGoblinState::Idle => if senses.player_in_sight {
                    next == EnemyGoblinState::Lunging(senses.lunge_frames) && force == GoblinForce::Lunge
                } else {
                    next == EnemyGoblinState::Idle && force == GoblinForce::Coast
                },
            }
        }),
{
}

/// A recovering goblin with `n >= 0` frames left is still recovering, with
/// `n - k` left, after each of the next `k <= n` frames, and is idle again
/// exactly one frame later: it can lunge again only after its full recovery.
pub proof fn law_goblin_recovers_in_full(senses: GoblinSenses, timing: GoblinTiming, n: i32, k: nat)
    requires
        n >= 0,
    ensures
        k <= n ==> goblin_after(EnemyGoblinState::Recovering(n), senses, timing, k)
            == EnemyGoblinState::Recovering((n - k) as i32),
        k == n + 1 ==> goblin_after(EnemyGoblinState::Recovering(n), senses, timing, k)
            == EnemyGoblinState::Idle,
    decreases k,
{
    if k > 0 && k <= n + 1 {
        if n > 0 {
            law_goblin_recovers_in_full(senses, timing, (n - 1) as i32, (k - 1) as nat);
            assert(spec_goblin_step(EnemyGoblinState::Recovering(n), senses, timing).0
                == EnemyGoblinState::Recovering((n - 1) as i32));
        } else {
            assert(k == 1);
            assert(goblin_after(EnemyGoblinState::Idle, senses, timing, 0) == EnemyGoblinState::Idle);
        }
    }
}

// ------------------------------------------------------------------- imp

/// An imp hovers until it sees the player, fires a spread of three shots,
/// cools down, and then glides a fixed distance in a random direction.
/// `D` is the direction of the glide.
#[derive(Clone, Copy, Debug, PartialEq, Eq, Structural)]
pub enum EnemyImpState<D> {
    Idle,
    Shooting,
    ShootingCooldown(i32),
    Moving(i32, D),
}

impl<D> EnemyImpState<D> {
    /// The state an imp is placed in.
    pub fn initial() -> (state: Self)
        ensures
            state == EnemyImpState::<D>::Idle,
    {
        EnemyImpState::Idle
    }
}

#[derive(Clone, Copy, Debug, PartialEq, Eq, Structural)]
pub struct EnemyImp<D> {
    pub state: EnemyImpState<D>,
}

/// The imp's frame counts from the balancing data.
#[derive(Clone, Copy, Debug, PartialEq, Eq, Structural)]
pub struct ImpTiming {
    pub moving_initial_frames: i32,
    pub shooting_cooldown_initial_frames: i32,
}

/// What an imp does in a frame.
#[derive(Clone, Copy, Debug, PartialEq, Eq, Structural)]
pub enum ImpAction {
    /// Brake towards standing still.
    Hold,
    /// Fire the spread of three shots at the player, with no force.
    Fire,
    /// Push along the glide of the state the imp was in, eased by the
    /// frames that were left.
    Glide,
}

pub open spec fn spec_imp_step<D>(
    state: EnemyImpState<D>,
    player_in_sight: bool,
    new_direction: D,
    timing: ImpTiming,
) -> (EnemyImpState<D>, ImpAction) {
    match state {
        EnemyImpState::Idle => if player_in_sight {
            (EnemyImpState::Shooting, ImpAction::Hold)
        } else {
            (EnemyImpState::Idle, ImpAction::Hold)
        },
        EnemyImpState::Shooting => (
            EnemyImpState::ShootingCooldown(timing.shooting_cooldown_initial_frames),
            ImpAction::Fire,
        ),
        EnemyImpState::ShootingCooldown(frames) => match spec_tick(frames) {
            Some(left) => (EnemyImpState::ShootingCooldown(left), ImpAction::Hold),
            None => (
                EnemyImpState::Moving(timing.moving_initial_frames, new_direction),
                ImpAction::Hold,
            ),
        },
        EnemyImpState::Moving(frames, direction) => match spec_tick(frames) {
            Some(left) => (EnemyImpState::Moving(left, direction), ImpAction::Glide),
            None => (EnemyImpState::Idle, ImpAction::Hold),
        },
    }
}

impl<D> EnemyImp<D> {
    /// The imp one frame later and what it does in this frame.
    /// `new_direction` is the direction of the glide that starts if the
    /// cooldown ends in this frame (the physics side draws it at random).
    pub fn behavior(self, player_in_sight: bool, new_direction: D, timing: ImpTiming) -> (out: (
        EnemyImp<D>,
        ImpAction,
    ))
        ensures
            (out.0.state, out.1) == spec_imp_step(self.state, player_in_sight, new_direction, timing),
    {
        match self.state {
            EnemyImpState::Idle => if player_in_sight {
                (EnemyImp { state: EnemyImpState::Shooting }, ImpAction::Hold)
            } else {
                (EnemyImp { state: EnemyImpState::Idle }, ImpAction::Hold)
            },
            EnemyImpState::Shooting => (
                EnemyImp {
                    state: EnemyImpState::ShootingCooldown(timing.shooting_cooldown_initial_frames),
                },
                ImpAction::Fire,
            ),
            EnemyImpState::ShootingCooldown(frames) => match tick(frames) {
                Some(left) => (
                    EnemyImp { state: EnemyImpState::ShootingCooldown(left) },
                    ImpAction::Hold,
                ),
                None => (
                    EnemyImp {
                        state: EnemyImpState::Moving(timing.moving_initial_frames, new_direction),
                    },
                    ImpAction::Hold,
                ),
            },
            EnemyImpState::Moving(frames, direction) => match tick(frames) {
                Some(left) => (
                    EnemyImp { state: EnemyImpState::Moving(left, direction) },
                    ImpAction::Glide,
                ),
                None => (EnemyImp { state: EnemyImpState::Idle }, ImpAction::Hold),
            },
        }
    }
}

/// A glide keeps its direction until it ends: the only way an imp's glide
/// direction changes is by a new glide starting after a cooldown.
pub proof fn law_imp_glide_keeps_direction<D>(
    state: EnemyImpState<D>,
    player_in_sight: bool,
    new_direction: D,
    timing: ImpTiming,
)
    ensures
        state matches EnemyImpState::Moving(_, d) ==> match spec_imp_step(
            state,
            player_in_sight,
            new_direction,
            timing,
        ).0 {
            EnemyImpState::Moving(_, e) => e == d,
            _ => true,
        },
{
}

/// An imp fires exactly when it leaves the shooting state, and each volley
/// is followed by a full cooldown.
pub proof fn law_imp_fires_once_then_cools_down<D>(
    state: EnemyImpState<D>,
    player_in_sight: bool,
    new_direction: D,
    timing: ImpTiming,
)
    ensures
        (spec_imp_step(state, player_in_sight, new_direction, timing).1 == ImpAction::Fire) <==> (
        state == EnemyImpState::<D>::Shooting),
        state == EnemyImpState::<D>::Shooting ==> spec_imp_step(
            state,
            player_in_sight,
            new_direction,
            timing,
        ).0 == EnemyImpState::<D>::ShootingCooldown(timing.shooting_cooldown_initial_frames),
{
}


// ---------------------------------------------------------------- aranea

/// A handle of the physics engine's collider set.
#[verifier::external_type_specification]
#[verifier::external_body]
pub struct ExColliderHandle(rapier2d::prelude::ColliderHandle);

/// An aranea guards its egg: once the egg is touched or the aranea is hurt,
/// it launches itself at the egg, stops, and then fires at the player after
/// each cooldown.
#[derive(Clone, Copy, Debug, PartialEq, Eq, Structural)]
pub enum EnemyAraneaState {
    Idle,
    Launching(i32),
    Stopping(i32),
    Shooting,
    Cooldown(i32),
}

pub struct EnemyAranea {
    pub state: EnemyAraneaState,
    pub egg_handle: rapier2d::prelude::ColliderHandle,
}

/// The aranea's frame counts from the balancing data.
#[derive(Clone, Copy, Debug, PartialEq, Eq, Structural)]
pub struct AraneaTiming {
    pub stopping_frames: i32,
    pub cooldown_initial_frames: i32,
}

/// What an aranea perceives in a frame: whether anything touches its egg or
/// it has lost health, and how long a launch that starts now would last.
#[derive(Clone, Copy, Debug, PartialEq, Eq, Structural)]
pub struct AraneaSenses {
    pub provoked: bool,
    pub launch_frames: i32,
}

/// What an aranea does in a frame.
#[derive(Clone, Copy, Debug, PartialEq, Eq, Structural)]
pub enum AraneaAction {
    /// No force.
    Coast,
    /// Brake towards standing still.
    Hold,
    /// Push towards the egg with the launch force.
    Launch,
    /// Push against its own velocity with the stopping force.
    Brake,
    /// Fire one shot at the player, with no force.
    Fire,
}

pub open spec fn spec_aranea_step(
    state: EnemyAraneaState,
    senses: AraneaSenses,
    timing: AraneaTiming,
) -> (EnemyAraneaState, AraneaAction) {
    match state {
        EnemyAraneaState::Idle => if senses.provoked {
            (EnemyAraneaState::Launching(senses.launch_frames), AraneaAction::Launch)
        } else {
            (EnemyAraneaState::Idle, AraneaAction::Hold)
        },
        EnemyAraneaState::Launching(frames) => match spec_tick(frames) {
            Some(left) => (EnemyAraneaState::Launching(left), AraneaAction::Coast),
            None => (EnemyAraneaState::Stopping(timing.stopping_frames), AraneaAction::Coast),
        },
        EnemyAraneaState::Stopping(frames) => match spec_tick(frames) {
            Some(left) => (EnemyAraneaState::Stopping(left), AraneaAction::Brake),
            None => (
                EnemyAraneaState::Cooldown(timing.cooldown_initial_frames),
                AraneaAction::Brake,
            ),
        },
        EnemyAraneaState::Cooldown(frames) => match spec_tick(frames) {
            Some(left) => (EnemyAraneaState::Cooldown(left), AraneaAction::Hold),
            None => (EnemyAraneaState::Shooting, AraneaAction::Hold),
        },
        EnemyAraneaState::Shooting => (
            EnemyAraneaState::Cooldown(timing.cooldown_initial_frames),
            AraneaAction::Fire,
        ),
    }
}

impl EnemyAranea {
    /// An idle aranea guarding the egg with the given collider.
    pub fn new(egg_handle: rapier2d::prelude::ColliderHandle) -> (aranea: Self)
        ensures
            aranea.state == EnemyAraneaState::Idle,
            aranea.egg_handle == egg_handle,
    {
        EnemyAranea { state: EnemyAraneaState::Idle, egg_handle }
    }

    /// The aranea one frame later, guarding the same egg, and what it does
    /// in this frame.
    pub fn behavior(self, senses: AraneaSenses, timing: AraneaTiming) -> (out: (
        EnemyAranea,
        AraneaAction,
    ))
        ensures
            (out.0.state, out.1) == spec_aranea_step(self.state, senses, timing),
            out.0.egg_handle == self.egg_handle,
    {
        let (state, action) = match self.state {
            EnemyAraneaState::Idle => if senses.provoked {
                (EnemyAraneaState::Launching(senses.launch_frames), AraneaAction::Launch)
            } else {
                (EnemyAraneaState::Idle, AraneaAction::Hold)
            },
            EnemyAraneaState::Launching(frames) => match tick(frames) {
                Some(left) => (EnemyAraneaState::Launching(left), AraneaAction::Coast),
                None => (EnemyAraneaState::Stopping(timing.stopping_frames), AraneaAction::Coast),
            },
            EnemyAraneaState::Stopping(frames) => match tick(frames) {
                Some(left) => (EnemyAraneaState::Stopping(left), AraneaAction::Brake),
                None => (
                    EnemyAraneaState::Cooldown(timing.cooldown_initial_frames),
                    AraneaAction::Brake,
                ),
            },
            EnemyAraneaState::Cooldown(frames) => match tick(frames) {
                Some(left) => (EnemyAraneaState::Cooldown(left), AraneaAction::Hold),
                None => (EnemyAraneaState::Shooting, AraneaAction::Hold),
            },
            EnemyAraneaState::Shooting => (
                EnemyAraneaState::Cooldown(timing.cooldown_initial_frames),
                AraneaAction::Fire,
            ),
        };
        (EnemyAranea { state, egg_handle: self.egg_handle }, action)
    }
}

/// Once provoked, an aranea never goes back to guarding idly: no step leads
/// from any other state to the idle state.
pub proof fn law_aranea_stays_provoked(
    state: EnemyAraneaState,
    senses: AraneaSenses,
    timing: AraneaTiming,
)
    requires
        state != EnemyAraneaState::Idle,
    ensures
        spec_aranea_step(state, senses, timing).0 != EnemyAraneaState::Idle,
{
}

/// An aranea fires exactly when it leaves the shooting state, and only
/// after a cooldown has run out: the state before shooting is always the
/// end of a cooldown.
pub proof fn law_aranea_shoots_after_cooldown(
    state: EnemyAraneaState,
    senses: AraneaSenses,
    timing: AraneaTiming,
)
    ensures
        (spec_aranea_step(state, senses, timing).1 == AraneaAction::Fire) <==> (state
            == EnemyAraneaState::Shooting),
        spec_aranea_step(state, senses, timing).0 == EnemyAraneaState::Shooting
            ==> (state matches EnemyAraneaState::Cooldown(f) && f <= 0),
{
}


// -------------------------------------------------------------- defender

/// A defender holds its place; once it has seen the player it fires
/// four-way volleys whose angle sweeps round with a counter, waiting a
/// cooldown between volleys.
#[derive(Clone, Copy, Debug, PartialEq, Eq, Structural)]
pub enum EnemyDefenderState {
    Idle,
    Shooting(i32),
    Cooldown(i32, i32),
}

#[derive(Clone, Copy, Debug, PartialEq, Eq, Structural)]
pub struct EnemyDefender {
    pub state: EnemyDefenderState,
}

/// The defender's counts from the balancing data: the cooldown between
/// volleys and the number of volleys after which the sweep starts over.
#[derive(Clone, Copy, Debug, PartialEq, Eq, Structural)]
pub struct DefenderTiming {
    pub cooldown_initial_frames: i32,
    pub period: i32,
}

/// What a turret-like enemy does in a frame: it always brakes towards
/// standing still, and may fire as well.
#[derive(Clone, Copy, Debug, PartialEq, Eq, Structural)]
pub enum TurretAction {
    Hold,
    Fire,
}

pub open spec fn spec_defender_step(state: EnemyDefenderState, player_in_sight: bool, timing: DefenderTiming) -> (
    EnemyDefenderState,
    TurretAction,
) {
    match state {
        EnemyDefenderState::Idle => if player_in_sight {
            (EnemyDefenderState::Shooting(0), TurretAction::Hold)
        } else {
            (EnemyDefenderState::Idle, TurretAction::Hold)
        },
        EnemyDefenderState::Shooting(count) => (
            EnemyDefenderState::Cooldown(count, timing.cooldown_initial_frames),
            TurretAction::Fire,
        ),
        EnemyDefenderState::Cooldown(count, frames) => match spec_tick(frames) {
            Some(left) => (EnemyDefenderState::Cooldown(count, left), TurretAction::Hold),
            None => (
                EnemyDefenderState::Shooting(spec_truncated_rem(count + 1, timing.period as int) as i32),
                TurretAction::Hold,
            ),
        },
    }
}

impl EnemyDefender {
    /// An idle defender.
    pub fn new() -> (defender: EnemyDefender)
        ensures
            defender.state == EnemyDefenderState::Idle,
    {
        EnemyDefender { state: EnemyDefenderState::Idle }
    }

    /// The defender one frame later and what it does in this frame. A
    /// volley is fired at the angle of the counter in the shooting state.
    pub fn behavior(self, player_in_sight: bool, timing: DefenderTiming) -> (out: (
        EnemyDefender,
        TurretAction,
    ))
        requires
            timing.period != 0,
            self.state matches EnemyDefenderState::Cooldown(count, _) ==> count < i32::MAX,
        ensures
            (out.0.state, out.1) == spec_defender_step(self.state, player_in_sight, timing),
    {
        match self.state {
            EnemyDefenderState::Idle => if player_in_sight {
                (EnemyDefender { state: EnemyDefenderState::Shooting(0) }, TurretAction::Hold)
            } else {
                (EnemyDefender { state: EnemyDefenderState::Idle }, TurretAction::Hold)
            },
            EnemyDefenderState::Shooting(count) => (
                EnemyDefender {
                    state: EnemyDefenderState::Cooldown(count, timing.cooldown_initial_frames),
                },
                TurretAction::Fire,
            ),
            EnemyDefenderState::Cooldown(count, frames) => match tick(frames) {
                Some(left) => (
                    EnemyDefender { state: EnemyDefenderState::Cooldown(count, left) },
                    TurretAction::Hold,
                ),
                None => (
                    EnemyDefender {
                        state: EnemyDefenderState::Shooting((count + 1) % timing.period),
                    },
                    TurretAction::Hold,
                ),
            },
        }
    }
}

/// The volley counter of the state, if it has one.
pub open spec fn defender_count(state: EnemyDefenderState) -> Option<i32> {
    match state {
        EnemyDefenderState::Idle => None,
        EnemyDefenderState::Shooting(count) => Some(count),
        EnemyDefenderState::Cooldown(count, _) => Some(count),
    }
}

/// The sweep of a defender's volleys stays within one period: a counter
/// from zero up to the size of the period, left out, stays in that range.
pub proof fn law_defender_count_in_period(
    state: EnemyDefenderState,
    player_in_sight: bool,
    timing: DefenderTiming,
)
    requires
        timing.period != 0,
        defender_count(state) matches Some(c) ==> 0 <= c < (if timing.period > 0 {
            timing.period as int
        } else {
            -timing.period
        }),
    ensures
        defender_count(spec_defender_step(state, player_in_sight, timing).0) matches Some(c)
            ==> 0 <= c < (if timing.period > 0 {
            timing.period as int
        } else {
            -timing.period
        }),
{
    let p = timing.period as int;
    if let EnemyDefenderState::Cooldown(count, frames) = state {
        if frames <= 0 {
            let n = count + 1;
            assert(0 <= n % p < (if p > 0 { p } else { -p })) by (nonlinear_arith)
                requires
                    p != 0,
                    n >= 0,
            ;
        }
    }
}

// -------------------------------------------------------- seeker spawner

/// A seeker generator counts down without end and sends out a seeker at
/// every multiple of its spawn cooldown.
#[derive(Clone, Copy, Debug, PartialEq, Eq, Structural)]
pub struct EnemySeekerGenerator {
    pub cooldown: i32,
}

impl EnemySeekerGenerator {
    /// The generator one frame later, and whether it sends out a seeker in
    /// this frame.
    pub fn behavior(self, spawn_cooldown: i32) -> (out: (EnemySeekerGenerator, bool))
        requires
            spawn_cooldown != 0,
            self.cooldown > i32::MIN,
        ensures
            out.0.cooldown == self.cooldown - 1,
            out.1 <==> (self.cooldown as int) % (spawn_cooldown as int) == 0,
    {
        let should_spawn_enemy = self.cooldown % spawn_cooldown == 0;
        proof {
            let c = self.cooldown as int;
            let s = spawn_cooldown as int;
            if c < 0 {
                lemma_rem_negated(c, s);
            }
        }
        (EnemySeekerGenerator { cooldown: self.cooldown - 1 }, should_spawn_enemy)
    }
}

// ---------------------------------------------------------------- sniper

/// A sniper holds its place; once it has seen the player it fires a leading
/// shot after every cooldown.
#[derive(Clone, Copy, Debug, PartialEq, Eq, Structural)]
pub enum EnemySniperState {
    Idle,
    Shooting,
    Cooldown(i32),
}

#[derive(Clone, Copy, Debug, PartialEq, Eq, Structural)]
pub struct EnemySniper {
    pub state: EnemySniperState,
}

pub open spec fn spec_sniper_step(state: EnemySniperState, player_in_sight: bool, cooldown_initial_frames: i32) -> (
    EnemySniperState,
    TurretAction,
) {
    match state {
        EnemySniperState::Idle => if player_in_sight {
            (EnemySniperState::Cooldown(cooldown_initial_frames), TurretAction::Hold)
        } else {
            (EnemySniperState::Idle, TurretAction::Hold)
        },
        EnemySniperState::Shooting => (
            EnemySniperState::Cooldown(cooldown_initial_frames),
            TurretAction::Fire,
        ),
        EnemySniperState::Cooldown(frames) => match spec_tick(frames) {
            Some(left) => (EnemySniperState::Cooldown(left), TurretAction::Hold),
            None => (EnemySniperState::Shooting, TurretAction::Hold),
        },
    }
}

impl EnemySniper {
    /// An idle sniper.
    pub fn new() -> (sniper: EnemySniper)
        ensures
            sniper.state == EnemySniperState::Idle,
    {
        EnemySniper { state: EnemySniperState::Idle }
    }

    /// The sniper one frame later and what it does in this frame (a shot
    /// is only fired if the physics side finds a direction that leads the
    /// player).
    pub fn behavior(self, player_in_sight: bool, cooldown_initial_frames: i32) -> (out: (
        EnemySniper,
        TurretAction,
    ))
        ensures
            (out.0.state, out.1) == spec_sniper_step(
                self.state,
                player_in_sight,
                cooldown_initial_frames,
            ),
    {
        match self.state {
            EnemySniperState::Idle => if player_in_sight {
                (
                    EnemySniper { state: EnemySniperState::Cooldown(cooldown_initial_frames) },
                    TurretAction::Hold,
                )
            } else {
                (EnemySniper { state: EnemySniperState::Idle }, TurretAction::Hold)
            },
            EnemySniperState::Shooting => (
                EnemySniper { state: EnemySniperState::Cooldown(cooldown_initial_frames) },
                TurretAction::Fire,
            ),
            EnemySniperState::Cooldown(frames) => match tick(frames) {
                Some(left) => (
                    EnemySniper { state: EnemySniperState::Cooldown(left) },
                    TurretAction::Hold,
                ),
                None => (EnemySniper { state: EnemySniperState::Shooting }, TurretAction::Hold),
            },
        }
    }
}

/// The sniper after `frames` frames in which it sees the player throughout.
pub open spec fn sniper_after(state: EnemySniperState, cooldown_initial_frames: i32, frames: nat) -> EnemySniperState
    decreases frames,
{
    if frames == 0 {
        state
    } else {
        sniper_after(
            spec_sniper_step(state, true, cooldown_initial_frames).0,
            cooldown_initial_frames,
            (frames - 1) as nat,
        )
    }
}

/// A sniper in a cooldown with `n` frames left is ready to shoot after
/// exactly `n + 1` frames, whatever it sees meanwhile.
pub proof fn law_sniper_shoots_after_cooldown(n: i32, cooldown_initial_frames: i32)
    requires
        n >= 0,
    ensures
        sniper_after(EnemySniperState::Cooldown(n), cooldown_initial_frames, (n + 1) as nat)
            == EnemySniperState::Shooting,
        forall|k: nat|
            k <= n ==> #[trigger] sniper_after(EnemySniperState::Cooldown(n), cooldown_initial_frames, k)
                == EnemySniperState::Cooldown((n - k) as i32),
    decreases n,
{
    assert(sniper_after(EnemySniperState::Cooldown(n), cooldown_initial_frames, 0)
        == EnemySniperState::Cooldown(n));
    if n > 0 {
        law_sniper_shoots_after_cooldown((n - 1) as i32, cooldown_initial_frames);
        assert forall|k: nat| k <= n implies #[trigger] sniper_after(
            EnemySniperState::Cooldown(n),
            cooldown_initial_frames,
            k,
        ) == EnemySniperState::Cooldown((n - k) as i32) by {
            if k > 0 {
                assert(sniper_after(
                    EnemySniperState::Cooldown((n - 1) as i32),
                    cooldown_initial_frames,
                    (k - 1) as nat,
                ) == EnemySniperState::Cooldown(((n - 1) - (k - 1)) as i32));
            }
        }
    } else {
        assert(sniper_after(EnemySniperState::Shooting, cooldown_initial_frames, 0)
            == EnemySniperState::Shooting);
    }
}

// ------------------------------------------------------- sniper spawner

/// A sniper generator waits until it sees the player, then sends out
/// snipers at even intervals for a while, and cools down before it looks
/// again.
#[derive(Clone, Copy, Debug, PartialEq, Eq, Structural)]
pub enum EnemySniperGeneratorState {
    Idle,
    Generating(i32),
    Cooldown(i32),
}

#[derive(Clone, Copy, Debug, PartialEq, Eq, Structural)]
pub struct EnemySniperGenerator {
    pub state: EnemySniperGeneratorState,
}

/// The sniper generator's counts from the balancing data.
#[derive(Clone, Copy, Debug, PartialEq, Eq, Structural)]
pub struct SniperGeneratorTiming {
    pub generating_initial_frames: i32,
    pub num_snipers_generated: i32,
    pub cooldown_initial_frames: i32,
}

impl SniperGeneratorTiming {
    pub open spec fn generating_interval_spec(self) -> int {
        spec_truncated_div(self.generating_initial_frames as int, self.num_snipers_generated as int)
    }

    /// The number of frames between two snipers: the generating time
    /// shared out evenly among the snipers, rounded towards zero.
    pub fn generating_interval(&self) -> (interval: i32)
        requires
            self.num_snipers_generated != 0,
            !(self.generating_initial_frames == i32::MIN && self.num_snipers_generated == -1),
        ensures
            interval == self.generating_interval_spec(),
    {
        proof {
            let a = self.generating_initial_frames as int;
            let b = self.num_snipers_generated as int;
            let x = if a >= 0 { a } else { -a };
            let y = if b >= 0 { b } else { -b };
            lemma_quotient_bounded(x, y);
            assert(-a == a * -1 && -b == b * -1);
        }
        match self.generating_initial_frames.checked_div(self.num_snipers_generated) {
            Some(interval) => interval,
            None => 0,
        }
    }
}

pub open spec fn spec_sniper_generator_step(
    state: EnemySniperGeneratorState,
    player_in_sight: bool,
    timing: SniperGeneratorTiming,
) -> (EnemySniperGeneratorState, bool) {
    match state {
        EnemySniperGeneratorState::Idle => if player_in_sight {
            (EnemySniperGeneratorState::Generating(timing.generating_initial_frames), false)
        } else {
            (EnemySniperGeneratorState::Idle, false)
        },
        EnemySniperGeneratorState::Generating(frames) => match spec_tick(frames) {
            Some(left) => (
                EnemySniperGeneratorState::Generating(left),
                (frames as int) % timing.generating_interval_spec() == 0,
            ),
            None => (EnemySniperGeneratorState::Cooldown(timing.cooldown_initial_frames), false),
        },
        EnemySniperGeneratorState::Cooldown(frames) => match spec_tick(frames) {
            Some(left) => (EnemySniperGeneratorState::Cooldown(left), false),
            None => (EnemySniperGeneratorState::Idle, false),
        },
    }
}

impl EnemySniperGenerator {
    /// An idle sniper generator.
    pub fn new() -> (generator: EnemySniperGenerator)
        ensures
            generator.state == EnemySniperGeneratorState::Idle,
    {
        EnemySniperGenerator { state: EnemySniperGeneratorState::Idle }
    }

    /// The generator one frame later, and whether it sends out a sniper in
    /// this frame (it applies no force of its own).
    pub fn behavior(self, player_in_sight: bool, timing: SniperGeneratorTiming) -> (out: (
        EnemySniperGenerator,
        bool,
    ))
        requires
            timing.num_snipers_generated != 0,
            !(timing.generating_initial_frames == i32::MIN && timing.num_snipers_generated == -1),
            self.state matches EnemySniperGeneratorState::Generating(f) && f > 0
                ==> timing.generating_interval_spec() != 0,
        ensures
            (out.0.state, out.1) == spec_sniper_generator_step(self.state, player_in_sight, timing),
    {
        match self.state {
            EnemySniperGeneratorState::Idle => if player_in_sight {
                (
                    EnemySniperGenerator {
                        state: EnemySniperGeneratorState::Generating(
                            timing.generating_initial_frames,
                        ),
                    },
                    false,
                )
            } else {
                (EnemySniperGenerator { state: EnemySniperGeneratorState::Idle }, false)
            },
            EnemySniperGeneratorState::Generating(frames) => match tick(frames) {
                Some(left) => {
                    let interval = timing.generating_interval();
                    (
                        EnemySniperGenerator { state: EnemySniperGeneratorState::Generating(left) },
                        frames % interval == 0,
                    )
                },
                None => (
                    EnemySniperGenerator {
                        state: EnemySniperGeneratorState::Cooldown(timing.cooldown_initial_frames),
                    },
                    false,
                ),
            },
            EnemySniperGeneratorState::Cooldown(frames) => match tick(frames) {
                Some(left) => (
                    EnemySniperGenerator { state: EnemySniperGeneratorState::Cooldown(left) },
                    false,
                ),
                None => (EnemySniperGenerator { state: EnemySniperGeneratorState::Idle }, false),
            },
        }
    }
}

} // verus!
