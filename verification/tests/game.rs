use gorillas::audio::SoundCue;
use gorillas::canvas::Canvas;
use gorillas::game::{
    draw_banana, probe_projectile_collision, prompt_col, throwing_arm_pose, BananaRotation,
    CollisionProbe, ExplosionKind, GorillaArms, ImpactKind, ParsedInput, Player, ProbeSample,
    SubmitOutcome, TurnPhase, TurnState, UpdateStep,
};
use gorillas::palette::{EXPLOSION_ATTR, OBJECT_ATTR, SUN_ATTR};
use gorillas::text::glyph_rows;

fn rendered_banana_pixels(rotation: BananaRotation) -> Vec<Vec<Option<u8>>> {
    let mut canvas = Canvas::new(10, 10);
    draw_banana(&mut canvas, 2, 2, rotation);
    (2..8)
        .map(|y| (2..8).map(|x| canvas.point(x, y)).collect())
        .collect()
}

fn assert_banana_extent(rotation: BananaRotation, width: usize, height: usize) {
    let pixels = rendered_banana_pixels(rotation);
    let lit: Vec<(usize, usize)> = pixels
        .iter()
        .enumerate()
        .flat_map(|(y, row)| {
            row.iter()
                .enumerate()
                .filter_map(move |(x, pixel)| pixel.map(|_| (x, y)))
        })
        .collect();

    let min_x = lit.iter().map(|(x, _)| *x).min().unwrap();
    let max_x = lit.iter().map(|(x, _)| *x).max().unwrap();
    let min_y = lit.iter().map(|(_, y)| *y).min().unwrap();
    let max_y = lit.iter().map(|(_, y)| *y).max().unwrap();

    assert_eq!(max_x - min_x + 1, width);
    assert_eq!(max_y - min_y + 1, height);
}

fn typing(state: &mut TurnState, text: &str) {
    for ch in text.chars() {
        state.handle_char(ch);
    }
}

fn no_number() -> ParsedInput {
    ParsedInput { above_full_turn: false, below_min_velocity: false }
}

#[test]
fn banana_rotation_frames_cycle_in_basic_order() {
    assert_eq!(BananaRotation::from_frame(0), BananaRotation::Left);
    assert_eq!(BananaRotation::from_frame(1), BananaRotation::Up);
    assert_eq!(BananaRotation::from_frame(2), BananaRotation::Down);
    assert_eq!(BananaRotation::from_frame(3), BananaRotation::Right);
    assert_eq!(BananaRotation::from_frame(4), BananaRotation::Left);
}

#[test]
fn banana_frames_render_expected_ega_extents() {
    assert_banana_extent(BananaRotation::Left, 6, 5);
    assert_banana_extent(BananaRotation::Right, 6, 5);
    assert_banana_extent(BananaRotation::Up, 5, 5);
    assert_banana_extent(BananaRotation::Down, 5, 5);
}

#[test]
fn up_and_down_banana_frames_are_distinct() {
    let up = rendered_banana_pixels(BananaRotation::Up);
    let down = rendered_banana_pixels(BananaRotation::Down);

    assert_ne!(up, down);
    assert_eq!(up[0][2], Some(OBJECT_ATTR));
    assert_eq!(down[4][2], Some(OBJECT_ATTR));
}

#[test]
fn banana_sprite_rows_are_five_high() {
    assert_eq!(BananaRotation::Left.sprite().len(), 5);
    assert_eq!(BananaRotation::Up.sprite()[3], "##.##");
    assert_eq!(BananaRotation::from_frame(255), BananaRotation::Right);
}

#[test]
fn player_one_throw_uses_left_arm() {
    assert_eq!(throwing_arm_pose(Player::One), GorillaArms::LeftUp);
}

#[test]
fn player_two_throw_uses_right_arm() {
    assert_eq!(throwing_arm_pose(Player::Two), GorillaArms::RightUp);
}

#[test]
fn players_index_and_alternate() {
    assert_eq!(Player::One.index(), 0);
    assert_eq!(Player::Two.index(), 1);
    assert_eq!(Player::One.other(), Player::Two);
    assert_eq!(Player::Two.other().other(), Player::Two);
}

#[test]
fn glyph_rows_covers_config_prompt_characters() {
    let required = "DFHMNUWdfhmunw()='/ ";
    for ch in required.chars() {
        assert!(glyph_rows(ch).is_some(), "missing glyph for '{ch}'");
    }
}

#[test]
fn glyph_rows_are_case_insensitive_and_reject_unknown_characters() {
    assert_eq!(glyph_rows('a'), glyph_rows('A'));
    assert_eq!(
        glyph_rows('A'),
        Some([0b01110, 0b10001, 0b10001, 0b11111, 0b10001, 0b10001, 0b10001])
    );
    assert_eq!(glyph_rows('!'), None);
    assert_eq!(glyph_rows('é'), None);
}

#[test]
fn game_update_returns_game_update_struct() {
    let state = TurnState::new();
    assert_eq!(state.update_step(), UpdateStep::Idle);
}

#[test]
fn game_signals_match_over_when_winner_reaches_target_score() {
    let mut game = TurnState::new();
    game.target_score = 1;
    game.explosion = Some(ExplosionKind::Gorilla { gorilla_index: 1, winner_index: 0 });

    assert_eq!(game.update_step(), UpdateStep::Explosion);
    let update = game.finish_explosion();

    assert_eq!(update.match_over, Some(0));
}

#[test]
fn game_does_not_signal_match_over_before_target_score() {
    let mut game = TurnState::new();
    game.target_score = 3;
    game.scores[0] = 1;
    game.explosion = Some(ExplosionKind::Gorilla { gorilla_index: 1, winner_index: 0 });

    let update = game.finish_explosion();

    assert_eq!(update.match_over, None);
    assert_eq!(game.scores, [2, 0]);
}

#[test]
fn game_update_restarts_demo_projectile_after_leaving_screen() {
    let mut game = TurnState::new();
    game.phase = TurnPhase::ProjectileFlying;
    game.projectile_active = true;

    game.advance_turn();

    assert!(!game.projectile_active);
    assert_eq!(game.current_player, Player::Two);
    assert_eq!(game.phase, TurnPhase::EnterAngle);
    assert!(game.input.is_empty());
}

#[test]
fn probe_detects_building_impact_from_visible_pixels() {
    let mut canvas = Canvas::new(640, 350);
    canvas.pixel(108, 120, EXPLOSION_ATTR);
    // Player one probes 8 pixels right and then 4 right, 6 down.
    let sample = ProbeSample {
        on_screen: true,
        above_top: false,
        points: [canvas.point(108, 120), canvas.point(104, 126)],
        in_sun_band: false,
        left_sun: true,
        left_half: true,
    };

    assert_eq!(
        probe_projectile_collision(sample, false),
        CollisionProbe::Impact { kind: ImpactKind::Building }
    );
}

#[test]
fn probe_marks_sun_hits_without_impact() {
    let mut canvas = Canvas::new(640, 350);
    canvas.pixel(320, 25, SUN_ATTR);
    let sample = ProbeSample {
        on_screen: true,
        above_top: false,
        points: [canvas.point(320, 25), canvas.point(316, 31)],
        in_sun_band: true,
        left_sun: false,
        left_half: true,
    };

    assert_eq!(
        probe_projectile_collision(sample, false),
        CollisionProbe::Sun { shot_in_sun: true }
    );
}

#[test]
fn probe_resolves_gorilla_hits_by_screen_half() {
    let mut canvas = Canvas::new(640, 350);
    canvas.pixel(112, 110, OBJECT_ATTR);
    // Player two probes the banana's own position first.
    let sample = ProbeSample {
        on_screen: true,
        above_top: false,
        points: [canvas.point(112, 110), canvas.point(116, 116)],
        in_sun_band: false,
        left_sun: true,
        left_half: true,
    };

    assert_eq!(
        probe_projectile_collision(sample, false),
        CollisionProbe::Impact { kind: ImpactKind::Gorilla(0) }
    );
}

#[test]
fn probe_clears_shot_in_sun_after_leaving_sun_region() {
    let sample = ProbeSample {
        on_screen: true,
        above_top: false,
        points: [None, None],
        in_sun_band: false,
        left_sun: true,
        left_half: true,
    };

    assert_eq!(
        probe_projectile_collision(sample, true),
        CollisionProbe::Clear { shot_in_sun: false }
    );
}

#[test]
fn probe_ignores_positions_off_screen_or_above_the_top() {
    let sample = ProbeSample {
        on_screen: true,
        above_top: true,
        points: [Some(OBJECT_ATTR), Some(OBJECT_ATTR)],
        in_sun_band: false,
        left_sun: true,
        left_half: false,
    };
    assert_eq!(probe_projectile_collision(sample, true), CollisionProbe::Clear { shot_in_sun: true });
    let right = ProbeSample { above_top: false, ..sample };
    assert_eq!(
        probe_projectile_collision(right, false),
        CollisionProbe::Impact { kind: ImpactKind::Gorilla(1) }
    );
}

#[test]
fn game_update_enters_explosion_state_after_impact() {
    let mut game = TurnState::new();
    game.projectile_active = true;

    let cues = game.apply_probe(CollisionProbe::Impact { kind: ImpactKind::Building }, Player::One);

    assert!(!game.projectile_active);
    assert_eq!(game.explosion, Some(ExplosionKind::Building));
    assert_eq!(cues, vec![SoundCue::BuildingExplosion]);
}

#[test]
fn explosion_completion_restarts_demo_projectile() {
    let mut game = TurnState::new();
    game.sun_shocked = true;
    game.explosion = Some(ExplosionKind::Building);

    let update = game.finish_explosion();

    assert!(!game.projectile_active);
    assert!(game.explosion.is_none());
    assert!(!game.sun_shocked);
    assert_eq!(game.current_player, Player::Two);
    assert!(update.cues.is_empty());
}

#[test]
fn game_update_uses_gorilla_explosion_for_object_hits() {
    let mut game = TurnState::new();
    game.phase = TurnPhase::ProjectileFlying;
    game.projectile_active = true;

    let cues = game.apply_probe(CollisionProbe::Impact { kind: ImpactKind::Gorilla(1) }, Player::One);

    assert_eq!(game.explosion, Some(ExplosionKind::Gorilla { gorilla_index: 1, winner_index: 0 }));
    assert_eq!(game.gorilla_pose(1), None);
    assert_eq!(cues, vec![SoundCue::GorillaExplosion]);
}

#[test]
fn sun_probe_shocks_the_sun_until_impact() {
    let mut game = TurnState::new();
    game.projectile_active = true;
    let cues = game.apply_probe(CollisionProbe::Sun { shot_in_sun: true }, Player::One);
    assert!(cues.is_empty());
    assert!(game.sun_shocked);
    let _ = game.apply_probe(CollisionProbe::Impact { kind: ImpactKind::Building }, Player::One);
    assert!(!game.sun_shocked);
}

#[test]
fn angle_above_360_re_prompts_without_transitioning() {
    let mut game = TurnState::new();
    typing(&mut game, "361");
    let submitted = game.handle_submit(ParsedInput { above_full_turn: true, below_min_velocity: false });
    assert_eq!(submitted.outcome, SubmitOutcome::AngleRejected);
    assert_eq!(game.phase, TurnPhase::EnterAngle);
    assert!(game.input.is_empty());
}

#[test]
fn submit_transitions_from_angle_to_velocity_to_projectile() {
    let mut game = TurnState::new();

    typing(&mut game, "45");
    assert_eq!(game.input, vec!['4', '5']);
    let submitted = game.handle_submit(no_number());
    assert_eq!(submitted.outcome, SubmitOutcome::AngleAccepted);
    assert_eq!(game.phase, TurnPhase::EnterVelocity);
    assert!(game.input.is_empty());

    typing(&mut game, "50");
    let submitted = game.handle_submit(no_number());
    assert_eq!(submitted.outcome, SubmitOutcome::Launched { player: Player::One });
    assert_eq!(game.phase, TurnPhase::ThrowingArm { player: Player::One });
    assert!(game.projectile_active);
}

#[test]
fn typed_numbers_take_digits_and_one_decimal_point() {
    let mut game = TurnState::new();
    typing(&mut game, "4a.5.-");
    assert_eq!(game.input, vec!['4', '.', '5']);
    game.handle_backspace();
    assert_eq!(game.input, vec!['4', '.']);
    game.projectile_active = true;
    game.handle_char('7');
    game.handle_backspace();
    assert_eq!(game.input, vec!['4', '.']);
}

#[test]
fn launching_shot_enters_throwing_arm_phase() {
    let mut game = TurnState::new();
    game.phase = TurnPhase::EnterVelocity;
    typing(&mut game, "50");

    let _ = game.handle_submit(no_number());

    assert!(
        matches!(game.phase, TurnPhase::ThrowingArm { player: Player::One }),
        "expected ThrowingArm for Player::One, got {:?}",
        game.phase
    );
}

#[test]
fn throwing_arm_timer_expires_and_transitions_to_projectile_flying() {
    let mut game = TurnState::new();
    game.phase = TurnPhase::EnterVelocity;
    typing(&mut game, "50");
    let _ = game.handle_submit(no_number());

    assert_eq!(game.update_step(), UpdateStep::Projectile);
    game.end_throwing_arm();

    assert_eq!(game.phase, TurnPhase::ProjectileFlying);
}

#[test]
fn slow_velocity_blows_up_the_thrower() {
    let mut game = TurnState::new();
    game.current_player = Player::Two;
    game.phase = TurnPhase::EnterVelocity;
    typing(&mut game, "1");
    let submitted = game.handle_submit(ParsedInput { above_full_turn: false, below_min_velocity: true });
    assert_eq!(submitted.outcome, SubmitOutcome::SlowShot);
    assert!(submitted.cues.is_empty());
    assert_eq!(game.explosion, Some(ExplosionKind::Gorilla { gorilla_index: 1, winner_index: 0 }));
    assert_eq!(game.phase, TurnPhase::ProjectileFlying);
    assert!(!game.projectile_active);
}

#[test]
fn gorilla_explosion_enters_victory_dance_phase() {
    let mut game = TurnState::new();
    game.explosion = Some(ExplosionKind::Gorilla { gorilla_index: 1, winner_index: 0 });

    let _ = game.finish_explosion();

    assert!(
        matches!(
            game.phase,
            TurnPhase::VictoryDance { winner_index: 0, loser_index: 1, cycle: 0 }
        ),
        "expected VictoryDance, got {:?}",
        game.phase
    );
}

#[test]
fn victory_dance_timer_cycles_through_arm_poses() {
    let mut game = TurnState::new();
    game.phase = TurnPhase::VictoryDance { winner_index: 0, loser_index: 1, cycle: 0 };
    assert_eq!(game.gorilla_pose(0), Some(GorillaArms::LeftUp));

    let done = game.advance_victory_dance(true);

    assert!(!done);
    assert!(
        matches!(game.phase, TurnPhase::VictoryDance { cycle: 1, .. }),
        "expected cycle 1, got {:?}",
        game.phase
    );
    assert_eq!(game.gorilla_pose(0), Some(GorillaArms::RightUp));
}

#[test]
fn victory_dance_completes_after_eight_cycles_and_resets_round() {
    let mut game = TurnState::new();
    game.phase = TurnPhase::VictoryDance { winner_index: 0, loser_index: 1, cycle: 7 };

    assert!(!game.advance_victory_dance(false));
    let done = game.advance_victory_dance(true);

    assert!(done);
    assert_eq!(game.phase, TurnPhase::EnterAngle);
}

#[test]
fn victory_dance_loser_gorilla_not_drawn() {
    let mut game = TurnState::new();
    game.phase = TurnPhase::VictoryDance { winner_index: 0, loser_index: 1, cycle: 0 };

    assert_eq!(game.gorilla_pose(1), None);
    assert_eq!(game.update_step(), UpdateStep::VictoryDance);
}

#[test]
fn update_emits_victory_dance_cue_when_gorilla_explosion_finishes() {
    let mut game = TurnState::new();
    game.explosion = Some(ExplosionKind::Gorilla { gorilla_index: 1, winner_index: 0 });
    let update = game.finish_explosion();
    assert!(
        update.cues.contains(&SoundCue::VictoryDance),
        "expected VictoryDance cue, got {:?}",
        update.cues
    );
}

#[test]
fn handle_submit_emits_throw_cue_for_valid_velocity() {
    let mut game = TurnState::new();
    game.phase = TurnPhase::EnterVelocity;
    typing(&mut game, "50");
    let cues = game.handle_submit(no_number()).cues;
    assert!(cues.contains(&SoundCue::Throw), "expected Throw cue, got {cues:?}");
}

#[test]
fn handle_submit_does_not_emit_throw_for_angle_entry() {
    let mut game = TurnState::new();
    typing(&mut game, "45");
    let cues = game.handle_submit(no_number()).cues;
    assert!(!cues.contains(&SoundCue::Throw));
}

#[test]
fn game_update_returns_vec_of_sound_cues() {
    let mut game = TurnState::new();
    let cues = game.apply_probe(CollisionProbe::Clear { shot_in_sun: false }, Player::One);
    assert!(cues.is_empty());
}

#[test]
fn game_handle_submit_returns_vec_of_sound_cues() {
    let mut game = TurnState::new();
    let submission = game.handle_submit(ParsedInput {
        above_full_turn: false,
        below_min_velocity: true,
    });
    let cues: Vec<SoundCue> = submission.cues;
    assert!(cues.is_empty());
    assert_eq!(submission.outcome, SubmitOutcome::AngleAccepted);
}

#[test]
fn input_is_ignored_while_an_explosion_runs() {
    let mut game = TurnState::new();
    game.explosion = Some(ExplosionKind::Building);
    let submitted = game.handle_submit(no_number());
    assert_eq!(submitted.outcome, SubmitOutcome::Ignored);
    assert_eq!(game.update_step(), UpdateStep::Explosion);
}

#[test]
fn thrower_raises_an_arm_while_the_other_keeps_them_down() {
    let mut game = TurnState::new();
    game.phase = TurnPhase::ThrowingArm { player: Player::Two };
    assert_eq!(game.gorilla_pose(1), Some(GorillaArms::RightUp));
    assert_eq!(game.gorilla_pose(0), Some(GorillaArms::Down));
}

#[test]
fn prompt_column_depends_on_player() {
    assert_eq!(prompt_col(Player::One), 1);
    assert_eq!(prompt_col(Player::Two), 66);
}

#[test]
fn hitting_your_own_gorilla_scores_for_the_opponent() {
    let mut game = TurnState::new();
    game.projectile_active = true;
    let cues = game.apply_probe(CollisionProbe::Impact { kind: ImpactKind::Gorilla(0) }, Player::One);
    assert_eq!(cues, vec![SoundCue::GorillaExplosion]);
    assert_eq!(game.explosion, Some(ExplosionKind::Gorilla { gorilla_index: 0, winner_index: 1 }));
    assert!(!game.projectile_active);
}

#[test]
fn velocity_above_360_is_asked_again() {
    let mut game = TurnState::new();
    game.phase = TurnPhase::EnterVelocity;
    typing(&mut game, "361");
    let submitted = game.handle_submit(ParsedInput { above_full_turn: true, below_min_velocity: false });
    assert_eq!(submitted.outcome, SubmitOutcome::VelocityRejected);
    assert!(submitted.cues.is_empty());
    assert_eq!(game.phase, TurnPhase::EnterVelocity);
    assert!(game.input.is_empty());
    assert!(!game.projectile_active);
    assert_eq!(game.explosion, None);
}

#[test]
fn keys_outside_the_prompts_are_ignored() {
    let mut game = TurnState::new();
    game.phase = TurnPhase::VictoryDance { winner_index: 0, loser_index: 1, cycle: 3 };
    game.handle_char('5');
    game.handle_char('.');
    game.handle_backspace();
    assert!(game.input.is_empty());
    assert_eq!(game.phase, TurnPhase::VictoryDance { winner_index: 0, loser_index: 1, cycle: 3 });
    game.phase = TurnPhase::ThrowingArm { player: Player::One };
    game.handle_char('7');
    assert!(game.input.is_empty());
}

#[test]
fn banana_leaving_the_screen_passes_the_turn() {
    let mut game = TurnState::new();
    game.phase = TurnPhase::ProjectileFlying;
    game.projectile_active = true;
    game.sun_shocked = true;
    assert!(game.track_flight(true));
    assert!(game.projectile_active);
    assert!(!game.track_flight(false));
    assert!(!game.projectile_active);
    assert!(!game.sun_shocked);
    assert_eq!(game.current_player, Player::Two);
    assert_eq!(game.phase, TurnPhase::EnterAngle);
}
