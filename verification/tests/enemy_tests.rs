use longinus::enemy::{
    tick, AraneaAction, AraneaSenses, AraneaTiming, DefenderTiming, EnemyAranea, EnemyAraneaState,
    EnemyDefender, EnemyDefenderState, EnemyGoblin, EnemyGoblinState, EnemyImp, EnemyImpState,
    EnemySeekerGenerator, EnemySniper, EnemySniperGenerator, EnemySniperGeneratorState,
    EnemySniperState, GoblinForce, GoblinSenses, GoblinTiming, ImpAction, ImpTiming,
    SniperGeneratorTiming, TurretAction,
};

const GOBLIN_TIMING: GoblinTiming = GoblinTiming { slowing_frames: 10, recovering_frames: 20 };

fn sees(lunge_frames: i32) -> GoblinSenses {
    GoblinSenses { player_in_sight: true, lunge_frames, moving: true }
}

fn blind(moving: bool) -> GoblinSenses {
    GoblinSenses { player_in_sight: false, lunge_frames: 0, moving }
}

#[test]
fn tick_counts_down_to_none() {
    assert_eq!(tick(3), Some(2));
    assert_eq!(tick(1), Some(0));
    assert_eq!(tick(0), None);
    assert_eq!(tick(-5), None);
}

#[test]
fn goblin_starts_idle() {
    assert_eq!(EnemyGoblinState::initial(), EnemyGoblinState::Idle);
}

#[test]
fn goblin_idle_without_sight_stays() {
    let goblin = EnemyGoblin { state: EnemyGoblinState::Idle };
    let (next, force) = goblin.behavior(blind(false), GOBLIN_TIMING);
    assert_eq!(next.state, EnemyGoblinState::Idle);
    assert_eq!(force, GoblinForce::Coast);
}

#[test]
fn goblin_lunges_when_it_sees_the_player() {
    let goblin = EnemyGoblin { state: EnemyGoblinState::Idle };
    let (next, force) = goblin.behavior(sees(42), GOBLIN_TIMING);
    assert_eq!(next.state, EnemyGoblinState::Lunging(42));
    assert_eq!(force, GoblinForce::Lunge);
}

#[test]
fn goblin_goes_round_its_cycle() {
    let mut goblin = EnemyGoblin { state: EnemyGoblinState::Lunging(1) };
    let mut phases = vec![goblin.state];
    for _ in 0..5 {
        goblin = goblin.behavior(blind(true), GoblinTiming { slowing_frames: 1, recovering_frames: 0 }).0;
        phases.push(goblin.state);
    }
    assert_eq!(
        phases,
        vec![
            EnemyGoblinState::Lunging(1),
            EnemyGoblinState::Lunging(0),
            EnemyGoblinState::Slowing(1),
            EnemyGoblinState::Slowing(0),
            EnemyGoblinState::Recovering(0),
            EnemyGoblinState::Idle,
        ]
    );
}

#[test]
fn goblin_brakes_only_while_moving() {
    let goblin = EnemyGoblin { state: EnemyGoblinState::Slowing(5) };
    let (next, force) = goblin.behavior(blind(true), GOBLIN_TIMING);
    assert_eq!(next.state, EnemyGoblinState::Slowing(4));
    assert_eq!(force, GoblinForce::Brake);
    let (next, force) = goblin.behavior(blind(false), GOBLIN_TIMING);
    assert_eq!(next.state, EnemyGoblinState::Recovering(20));
    assert_eq!(force, GoblinForce::Coast);
}

const IMP_TIMING: ImpTiming = ImpTiming { moving_initial_frames: 30, shooting_cooldown_initial_frames: 15 };

#[test]
fn imp_shoots_then_cools_down_then_glides() {
    let imp: EnemyImp<(i32, i32)> = EnemyImp { state: EnemyImpState::initial() };
    let (imp, action) = imp.behavior(true, (1, 0), IMP_TIMING);
    assert_eq!(imp.state, EnemyImpState::Shooting);
    assert_eq!(action, ImpAction::Hold);
    let (imp, action) = imp.behavior(false, (1, 0), IMP_TIMING);
    assert_eq!(imp.state, EnemyImpState::ShootingCooldown(15));
    assert_eq!(action, ImpAction::Fire);
    let imp = EnemyImp { state: EnemyImpState::ShootingCooldown(0) };
    let (imp, action) = imp.behavior(false, (0, -1), IMP_TIMING);
    assert_eq!(imp.state, EnemyImpState::Moving(30, (0, -1)));
    assert_eq!(action, ImpAction::Hold);
    let (imp, action) = imp.behavior(false, (5, 5), IMP_TIMING);
    assert_eq!(imp.state, EnemyImpState::Moving(29, (0, -1)));
    assert_eq!(action, ImpAction::Glide);
    let imp = EnemyImp { state: EnemyImpState::Moving(0, (0, -1)) };
    let (imp, action) = imp.behavior(true, (5, 5), IMP_TIMING);
    assert_eq!(imp.state, EnemyImpState::Idle);
    assert_eq!(action, ImpAction::Hold);
}

const ARANEA_TIMING: AraneaTiming = AraneaTiming { stopping_frames: 3, cooldown_initial_frames: 7 };

fn aranea(state: EnemyAraneaState) -> EnemyAranea {
    EnemyAranea { state, egg_handle: rapier2d::prelude::ColliderHandle::from_raw_parts(4, 0) }
}

#[test]
fn aranea_launches_when_provoked() {
    let calm = AraneaSenses { provoked: false, launch_frames: 12 };
    let provoked = AraneaSenses { provoked: true, launch_frames: 12 };
    let (next, action) = EnemyAranea::new(rapier2d::prelude::ColliderHandle::from_raw_parts(4, 0))
        .behavior(calm, ARANEA_TIMING);
    assert_eq!(next.state, EnemyAraneaState::Idle);
    assert_eq!(action, AraneaAction::Hold);
    let (next, action) = aranea(EnemyAraneaState::Idle).behavior(provoked, ARANEA_TIMING);
    assert_eq!(next.state, EnemyAraneaState::Launching(12));
    assert_eq!(action, AraneaAction::Launch);
    assert_eq!(next.egg_handle, rapier2d::prelude::ColliderHandle::from_raw_parts(4, 0));
}

#[test]
fn aranea_stops_then_shoots_after_cooldown() {
    let senses = AraneaSenses { provoked: false, launch_frames: 0 };
    let (next, action) = aranea(EnemyAraneaState::Launching(0)).behavior(senses, ARANEA_TIMING);
    assert_eq!(next.state, EnemyAraneaState::Stopping(3));
    assert_eq!(action, AraneaAction::Coast);
    let (next, action) = aranea(EnemyAraneaState::Stopping(0)).behavior(senses, ARANEA_TIMING);
    assert_eq!(next.state, EnemyAraneaState::Cooldown(7));
    assert_eq!(action, AraneaAction::Brake);
    let (next, action) = aranea(EnemyAraneaState::Cooldown(0)).behavior(senses, ARANEA_TIMING);
    assert_eq!(next.state, EnemyAraneaState::Shooting);
    assert_eq!(action, AraneaAction::Hold);
    let (next, action) = aranea(EnemyAraneaState::Shooting).behavior(senses, ARANEA_TIMING);
    assert_eq!(next.state, EnemyAraneaState::Cooldown(7));
    assert_eq!(action, AraneaAction::Fire);
}

#[test]
fn aranea_never_returns_to_idle() {
    let senses = AraneaSenses { provoked: false, launch_frames: 0 };
    let mut a = aranea(EnemyAraneaState::Launching(2));
    for _ in 0..40 {
        a = a.behavior(senses, ARANEA_TIMING).0;
        assert_ne!(a.state, EnemyAraneaState::Idle);
    }
}

#[test]
fn defender_sweeps_round_its_period() {
    let timing = DefenderTiming { cooldown_initial_frames: 0, period: 3 };
    let (d, action) = EnemyDefender::new().behavior(true, timing);
    assert_eq!(d.state, EnemyDefenderState::Shooting(0));
    assert_eq!(action, TurretAction::Hold);
    let (d, action) = d.behavior(false, timing);
    assert_eq!(d.state, EnemyDefenderState::Cooldown(0, 0));
    assert_eq!(action, TurretAction::Fire);
    let mut d = d;
    let mut counts = vec![];
    for _ in 0..6 {
        d = d.behavior(false, timing).0;
        if let EnemyDefenderState::Shooting(c) = d.state {
            counts.push(c);
        }
    }
    assert_eq!(counts, vec![1, 2, 0]);
}

#[test]
fn defender_count_with_negative_period() {
    let timing = DefenderTiming { cooldown_initial_frames: 4, period: -2 };
    let d = EnemyDefender { state: EnemyDefenderState::Cooldown(1, 0) };
    assert_eq!(d.behavior(false, timing).0.state, EnemyDefenderState::Shooting(0));
    let d = EnemyDefender { state: EnemyDefenderState::Cooldown(1, 2) };
    assert_eq!(d.behavior(false, timing).0.state, EnemyDefenderState::Cooldown(1, 1));
}

#[test]
fn seeker_generator_spawns_at_multiples() {
    let mut generator = EnemySeekerGenerator { cooldown: 0 };
    let mut spawns = vec![];
    for _ in 0..7 {
        let (next, spawn) = generator.behavior(3);
        spawns.push(spawn);
        generator = next;
    }
    assert_eq!(spawns, vec![true, false, false, true, false, false, true]);
    assert_eq!(generator.cooldown, -7);
}

#[test]
fn sniper_holds_and_fires_after_cooldown() {
    let (s, action) = EnemySniper::new().behavior(true, 2);
    assert_eq!(s.state, EnemySniperState::Cooldown(2));
    assert_eq!(action, TurretAction::Hold);
    let mut s = s;
    let mut actions = vec![];
    for _ in 0..4 {
        let (next, action) = s.behavior(false, 2);
        actions.push(action);
        s = next;
    }
    assert_eq!(
        actions,
        vec![TurretAction::Hold, TurretAction::Hold, TurretAction::Hold, TurretAction::Fire]
    );
    assert_eq!(s.state, EnemySniperState::Cooldown(2));
}

#[test]
fn sniper_generating_interval_truncates() {
    let timing = SniperGeneratorTiming {
        generating_initial_frames: 100,
        num_snipers_generated: 3,
        cooldown_initial_frames: 50,
    };
    assert_eq!(timing.generating_interval(), 33);
    let negative = SniperGeneratorTiming {
        generating_initial_frames: -7,
        num_snipers_generated: 2,
        cooldown_initial_frames: 0,
    };
    assert_eq!(negative.generating_interval(), -3);
}

#[test]
fn sniper_generator_spawns_at_even_intervals() {
    let timing = SniperGeneratorTiming {
        generating_initial_frames: 6,
        num_snipers_generated: 2,
        cooldown_initial_frames: 1,
    };
    let (g, spawn) = EnemySniperGenerator::new().behavior(true, timing);
    assert_eq!(g.state, EnemySniperGeneratorState::Generating(6));
    assert!(!spawn);
    let mut g = g;
    let mut spawns = vec![];
    for _ in 0..9 {
        let (next, spawn) = g.behavior(false, timing);
        spawns.push(spawn);
        g = next;
    }
    assert_eq!(
        spawns,
        vec![true, false, false, true, false, false, false, false, false]
    );
    assert_eq!(g.state, EnemySniperGeneratorState::Idle);
}
