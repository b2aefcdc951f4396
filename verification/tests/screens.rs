use gorillas::canvas::Canvas;
use gorillas::game::{AppScreen, ConfigField, Player, TurnPhase, TurnState};
use gorillas::menu::{MatchOverState, MenuState};
use gorillas::palette::HUD_TEXT_ATTR;
use gorillas::screens::{decimal_text, match_over_items, TextItem};
use gorillas::text::{centered_col, TEXT_CELL_HEIGHT, TEXT_CELL_WIDTH};

fn char_vec(s: &str) -> Vec<char> {
    s.chars().collect()
}

fn text(item: &TextItem) -> String {
    item.text.iter().collect()
}

fn lit_count(canvas: &Canvas) -> usize {
    let mut n = 0;
    for y in 0..canvas.height() as i32 {
        for x in 0..canvas.width() as i32 {
            if canvas.point(x, y).is_some() {
                n += 1;
            }
        }
    }
    n
}

fn names() -> [Vec<char>; 2] {
    [char_vec("Player 1"), char_vec("Player 2")]
}

#[test]
fn hud_draws_score_line_near_row_23_center() {
    let mut turn = TurnState::new();
    turn.scores = [2, 1];
    let mut canvas = Canvas::new(640, 350);

    turn.draw_hud(&mut canvas, &names(), &Vec::new());

    let x = (centered_col("2>Score<1") as i32 - 1) * TEXT_CELL_WIDTH + 2;
    let y = (23 - 1) * TEXT_CELL_HEIGHT + 1;
    assert_eq!(canvas.point(x, y), Some(HUD_TEXT_ATTR));
}

#[test]
fn hud_moves_angle_prompt_to_right_for_player_two() {
    let mut turn = TurnState::new();
    turn.current_player = Player::Two;
    let mut canvas = Canvas::new(640, 350);

    turn.draw_hud(&mut canvas, &names(), &Vec::new());

    let left_prompt_x = 1;
    let right_prompt_x = 65 * TEXT_CELL_WIDTH + 1;
    let y = TEXT_CELL_HEIGHT + 1;
    assert_ne!(canvas.point(right_prompt_x, y), None);
    assert_eq!(canvas.point(left_prompt_x, y), None);
}

#[test]
fn hud_lists_names_score_and_angle_prompt() {
    let mut turn = TurnState::new();
    turn.scores = [12, 3];
    turn.input = char_vec("45");
    let items = turn.hud_items(&[char_vec("Alice"), char_vec("Bob")], &Vec::new());
    let found: Vec<(usize, usize, String)> =
        items.iter().map(|t| (t.row, t.col, text(t))).collect();
    assert_eq!(
        found,
        vec![
            (1, 1, "Alice".to_string()),
            (1, 76, "Bob".to_string()),
            (23, 35, "12>Score<3".to_string()),
            (2, 1, "Angle:".to_string()),
            (2, 8, "45".to_string()),
            (2, 10, "_".to_string()),
        ]
    );
}

#[test]
fn hud_shows_accepted_angle_while_velocity_is_typed() {
    let mut turn = TurnState::new();
    turn.current_player = Player::Two;
    turn.phase = TurnPhase::EnterVelocity;
    turn.input = char_vec("7");
    let items = turn.hud_items(&names(), &char_vec("45.5"));
    let found: Vec<(usize, usize, String)> =
        items.iter().skip(3).map(|t| (t.row, t.col, text(t))).collect();
    assert_eq!(
        found,
        vec![
            (2, 66, "Angle:".to_string()),
            (2, 73, "45.5".to_string()),
            (3, 66, "Velocity:".to_string()),
            (3, 76, "7".to_string()),
            (3, 77, "_".to_string()),
        ]
    );
}

#[test]
fn hud_shows_no_prompt_while_the_banana_flies() {
    let mut turn = TurnState::new();
    turn.phase = TurnPhase::ProjectileFlying;
    assert_eq!(turn.hud_items(&names(), &Vec::new()).len(), 3);
}

#[test]
fn long_second_name_is_not_pushed_left_of_column_one() {
    let turn = TurnState::new();
    let long: Vec<char> = std::iter::repeat('x').take(100).collect();
    let items = turn.hud_items(&[char_vec("A"), long], &Vec::new());
    assert_eq!(items[1].col, 1);
}

#[test]
fn config_screen_renders_player_one_prompt_on_canvas() {
    let mut state = MenuState::new();
    state.screen = AppScreen::ConfigMenu;
    state.active_field = ConfigField::PlayerOneName;
    let mut canvas = Canvas::new(640, 350);
    state.render_config_screen(&mut canvas);
    assert!(lit_count(&canvas) > 0, "config screen should produce render vertices");
}

#[test]
fn config_screen_shows_cursor_on_active_field_only() {
    let mut state = MenuState::new();
    state.screen = AppScreen::ConfigMenu;
    state.active_field = ConfigField::PlayerOneName;
    let mut field0 = Canvas::new(640, 350);
    state.render_config_screen(&mut field0);
    let _ = state.handle_submit(false);
    let mut field1 = Canvas::new(640, 350);
    state.render_config_screen(&mut field1);
    assert_ne!(
        field0.into_runs().len(),
        field1.into_runs().len(),
        "frames should differ as cursor and values change between fields"
    );
}

#[test]
fn config_screen_places_questions_answers_and_cursor() {
    let mut state = MenuState::new();
    state.active_field = ConfigField::TargetScore;
    state.player_names = [char_vec("Alice"), char_vec("Bob")];
    state.field_input = char_vec("7");
    let items = state.config_screen_items();
    let found: Vec<(usize, usize, String)> =
        items.iter().map(|t| (t.row, t.col, text(t))).collect();
    assert_eq!(
        found,
        vec![
            (8, 15, "Name of Player 1 (Default = 'Player 1'): ".to_string()),
            (8, 56, "Alice".to_string()),
            (10, 15, "Name of Player 2 (Default = 'Player 2'): ".to_string()),
            (10, 56, "Bob".to_string()),
            (12, 13, "Play to how many total points (Default = 3): ".to_string()),
            (12, 58, "7".to_string()),
            (12, 59, "_".to_string()),
            (14, 17, "Gravity in Meters/Sec (Earth = 9.8): ".to_string()),
        ]
    );
}

#[test]
fn config_screen_shows_target_score_once_answered() {
    let mut state = MenuState::new();
    state.active_field = ConfigField::Gravity;
    state.target_score = 21;
    let items = state.config_screen_items();
    assert_eq!((items[5].row, items[5].col, text(&items[5])), (12, 58, "21".to_string()));
    assert_eq!((items[7].row, items[7].col), (14, 54));
    assert_eq!((items[8].row, items[8].col, text(&items[8])), (14, 54, "_".to_string()));
}

#[test]
fn match_over_frame_has_vertices() {
    let mut state = MenuState::new();
    state.screen = AppScreen::MatchOver;
    state.match_over_state = Some(MatchOverState {
        scores: [3, 1],
        names: [char_vec("Alice"), char_vec("Bob")],
    });
    let items = state.screen_items();
    let mut canvas = Canvas::new(640, 350);
    gorillas::screens::draw_items(&mut canvas, &items, HUD_TEXT_ATTR);
    assert!(lit_count(&canvas) > 0, "MatchOver frame rendered no vertices");
}

#[test]
fn match_over_screen_lists_title_scores_and_prompt() {
    let mo = MatchOverState { scores: [3, 10], names: [char_vec("Alice"), char_vec("Bob")] };
    let items = match_over_items(&mo);
    let found: Vec<(usize, usize, String)> =
        items.iter().map(|t| (t.row, t.col, text(t))).collect();
    assert_eq!(
        found,
        vec![
            (8, 35, "GAME OVER!".to_string()),
            (10, 37, "Score:".to_string()),
            (11, 30, "Alice".to_string()),
            (11, 50, "3".to_string()),
            (12, 30, "Bob".to_string()),
            (12, 50, "10".to_string()),
            (24, 28, "Press any key to continue".to_string()),
        ]
    );
}

#[test]
fn playing_screen_has_no_menu_texts() {
    let mut state = MenuState::new();
    state.screen = AppScreen::Playing;
    assert!(state.screen_items().is_empty());
}

#[test]
fn decimal_text_matches_format() {
    for n in [0u32, 7, 10, 99, 100, 4096, u32::MAX] {
        assert_eq!(decimal_text(n).iter().collect::<String>(), format!("{}", n));
    }
}
