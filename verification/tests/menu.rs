use gorillas::audio::SoundCue;
use gorillas::game::{AppScreen, ConfigField};
use gorillas::menu::{parse_score, MenuAction, MenuState};

fn chars(s: &str) -> Vec<char> {
    s.chars().collect()
}

fn type_text(state: &mut MenuState, text: &str) {
    for ch in text.chars() {
        state.handle_char(ch);
    }
}

fn at_field(field: ConfigField) -> MenuState {
    let mut state = MenuState::new();
    state.active_field = field;
    state
}

fn match_over_state() -> MenuState {
    let mut state = MenuState::new();
    state.screen = AppScreen::Playing;
    state.enter_match_over([3, 1], [chars("Alice"), chars("Bob")]);
    state
}

#[test]
fn game_state_new_starts_in_config_menu() {
    let state = MenuState::new();
    assert!(matches!(state.screen, AppScreen::ConfigMenu));
}

#[test]
fn config_full_flow_through_defaults_enters_playing() {
    let mut state = MenuState::new();
    assert!(matches!(state.screen, AppScreen::ConfigMenu));

    let _ = state.handle_submit(false);
    assert_eq!(state.active_field, ConfigField::PlayerTwoName);

    let _ = state.handle_submit(false);
    assert_eq!(state.active_field, ConfigField::TargetScore);

    let _ = state.handle_submit(false);
    assert_eq!(state.active_field, ConfigField::Gravity);

    let submitted = state.handle_submit(false);

    assert_eq!(state.screen, AppScreen::Playing);
    assert_eq!(submitted.action, MenuAction::StartGame { gravity_from_input: false });
    assert_eq!(state.player_names[0], chars("Player 1"));
    assert_eq!(state.player_names[1], chars("Player 2"));
    assert_eq!(state.target_score, 3);
}

#[test]
fn config_name_field_accepts_alphanumeric() {
    let mut state = at_field(ConfigField::PlayerOneName);
    type_text(&mut state, "Ab3");
    assert_eq!(state.field_input, chars("Ab3"));
}

#[test]
fn config_name_field_rejects_non_alphanumeric() {
    let mut state = at_field(ConfigField::PlayerOneName);
    state.handle_char('\x01');
    state.handle_char('X');
    assert_eq!(state.field_input, chars("X"));
}

#[test]
fn config_player_name_accepts_spaces_and_punctuation() {
    let mut state = MenuState::new();

    state.handle_char('A');
    state.handle_char(' ');
    state.handle_char('1');
    state.handle_char('!');

    assert_eq!(state.field_input, chars("A 1!"));
}

#[test]
fn config_player_name_still_caps_at_10_chars() {
    let mut state = MenuState::new();

    for _ in 0..12 {
        state.handle_char('a');
    }

    assert_eq!(state.field_input.len(), 10);
}

#[test]
fn config_name_field_caps_at_ten_chars() {
    let mut state = at_field(ConfigField::PlayerOneName);
    type_text(&mut state, "ABCDEFGHIJK");
    assert_eq!(state.field_input.len(), 10);
}

#[test]
fn config_name_field_rejects_non_ascii_and_delete() {
    let mut state = at_field(ConfigField::PlayerTwoName);
    state.handle_char('é');
    state.handle_char('\x7f');
    state.handle_char('~');
    assert_eq!(state.field_input, chars("~"));
}

#[test]
fn config_score_field_rejects_letters() {
    let mut state = at_field(ConfigField::TargetScore);
    state.handle_char('a');
    state.handle_char('3');
    assert_eq!(state.field_input, chars("3"));
}

#[test]
fn config_score_field_caps_at_two_digits() {
    let mut state = at_field(ConfigField::TargetScore);
    type_text(&mut state, "123");
    assert_eq!(state.field_input, chars("12"));
}

#[test]
fn config_gravity_field_takes_one_decimal_point() {
    let mut state = at_field(ConfigField::Gravity);
    type_text(&mut state, "9.8.1x");
    assert_eq!(state.field_input, chars("9.81"));
}

#[test]
fn config_empty_name_submit_uses_default_and_advances() {
    let mut state = at_field(ConfigField::PlayerOneName);
    let _ = state.handle_submit(false);
    assert_eq!(state.player_names[0], chars("Player 1"));
    assert_eq!(state.active_field, ConfigField::PlayerTwoName);
    assert_eq!(state.field_input, chars(""));
}

#[test]
fn config_name_submit_stores_input_and_advances() {
    let mut state = at_field(ConfigField::PlayerOneName);
    type_text(&mut state, "Alice");
    let _ = state.handle_submit(false);
    assert_eq!(state.player_names[0], chars("Alice"));
    assert_eq!(state.active_field, ConfigField::PlayerTwoName);
}

#[test]
fn config_score_zero_stays_on_same_field() {
    let mut state = at_field(ConfigField::TargetScore);
    state.handle_char('0');
    let _ = state.handle_submit(false);
    assert_eq!(state.active_field, ConfigField::TargetScore);
    assert_eq!(state.field_input, chars(""));
}

#[test]
fn config_typed_score_becomes_the_target() {
    let mut state = at_field(ConfigField::TargetScore);
    type_text(&mut state, "07");
    let _ = state.handle_submit(false);
    assert_eq!(state.target_score, 7);
    assert_eq!(state.active_field, ConfigField::Gravity);
}

#[test]
fn config_empty_score_uses_default_and_advances() {
    let mut state = at_field(ConfigField::TargetScore);
    let _ = state.handle_submit(false);
    assert_eq!(state.target_score, 3);
    assert_eq!(state.active_field, ConfigField::Gravity);
}

#[test]
fn config_gravity_zero_stays_on_same_field() {
    let mut state = at_field(ConfigField::Gravity);
    state.handle_char('0');
    let submitted = state.handle_submit(false);
    assert_eq!(state.active_field, ConfigField::Gravity);
    assert_eq!(state.field_input, chars(""));
    assert_eq!(submitted.action, MenuAction::Nothing);
}

#[test]
fn config_empty_gravity_uses_default_and_enters_playing() {
    let mut state = at_field(ConfigField::Gravity);
    let submitted = state.handle_submit(false);
    assert_eq!(submitted.action, MenuAction::StartGame { gravity_from_input: false });
    assert_eq!(state.screen, AppScreen::Playing);
}

#[test]
fn config_apply_sets_gravity_on_game() {
    let mut state = at_field(ConfigField::Gravity);
    type_text(&mut state, "20");
    let submitted = state.handle_submit(true);
    assert_eq!(submitted.action, MenuAction::StartGame { gravity_from_input: true });
    assert_eq!(state.field_input, chars("20"));
}

#[test]
fn config_apply_sets_player_names_on_game() {
    let mut state = MenuState::new();
    state.player_names = [chars("Alice"), chars("Bob")];
    state.active_field = ConfigField::Gravity;
    let _ = state.handle_submit(false);
    assert_eq!(state.screen, AppScreen::Playing);
    assert_eq!(state.player_names[0], chars("Alice"));
    assert_eq!(state.player_names[1], chars("Bob"));
}

#[test]
fn config_backspace_pops_last_char() {
    let mut state = at_field(ConfigField::PlayerOneName);
    state.handle_char('A');
    state.handle_char('B');
    state.handle_backspace();
    assert_eq!(state.field_input, chars("A"));
}

#[test]
fn game_state_new_starts_in_config_menu_not_playing() {
    let state = MenuState::new();
    assert!(matches!(state.screen, AppScreen::ConfigMenu));
    assert!(matches!(state.active_field, ConfigField::PlayerOneName));
}

#[test]
fn game_state_default_config_has_correct_defaults() {
    let config = MenuState::new();
    assert_eq!(config.player_names[0], chars("Player 1"));
    assert_eq!(config.player_names[1], chars("Player 2"));
    assert_eq!(config.target_score, 3);
}

#[test]
fn game_state_handle_submit_emits_intro_cues_when_entering_playing() {
    let mut state = MenuState::new();
    let _ = state.handle_submit(false);
    let _ = state.handle_submit(false);
    let _ = state.handle_submit(false);
    let cues = state.handle_submit(false).cues;
    assert!(cues.contains(&SoundCue::Intro), "expected Intro cue on game start, got {cues:?}");
    assert!(
        cues.contains(&SoundCue::GorillaIntro),
        "expected GorillaIntro cue on game start, got {cues:?}"
    );
}

#[test]
fn game_state_transitions_to_match_over_when_game_signals_it() {
    let state = match_over_state();
    assert_eq!(state.screen, AppScreen::MatchOver);
    let mo = state.match_over_state.as_ref().unwrap();
    assert_eq!(mo.names[0], chars("Alice"));
    assert_eq!(mo.scores[0], 3);
}

#[test]
fn match_over_any_char_resets_to_config_menu() {
    let mut state = match_over_state();

    let action = state.handle_char('x');

    assert_eq!(action, MenuAction::ResetGame);
    assert_eq!(state.screen, AppScreen::ConfigMenu);
    assert!(state.match_over_state.is_none());
    assert_eq!(state.active_field, ConfigField::PlayerOneName);
    assert!(state.field_input.is_empty());
}

#[test]
fn match_over_enter_resets_to_config_menu() {
    let mut state = match_over_state();
    let _ = state.handle_submit(false);
    assert_eq!(state.screen, AppScreen::ConfigMenu);
}

#[test]
fn match_over_backspace_resets_to_config_menu() {
    let mut state = match_over_state();
    state.handle_backspace();
    assert_eq!(state.screen, AppScreen::ConfigMenu);
}

#[test]
fn keys_while_playing_belong_to_the_match() {
    let mut state = MenuState::new();
    state.screen = AppScreen::Playing;
    assert_eq!(state.handle_char('5'), MenuAction::ForwardToGame);
    assert_eq!(state.handle_backspace(), MenuAction::ForwardToGame);
    assert_eq!(state.handle_submit(false).action, MenuAction::ForwardToGame);
    assert_eq!(state.update_action(), MenuAction::ForwardToGame);
    state.screen = AppScreen::ConfigMenu;
    assert_eq!(state.update_action(), MenuAction::Nothing);
}

#[test]
fn score_parsing_follows_unsigned_decimal_syntax() {
    assert_eq!(parse_score(&chars("12")), Some(12));
    assert_eq!(parse_score(&chars("+7")), Some(7));
    assert_eq!(parse_score(&chars("")), None);
    assert_eq!(parse_score(&chars("+")), None);
    assert_eq!(parse_score(&chars("1a")), None);
    assert_eq!(parse_score(&chars("4294967295")), Some(u32::MAX));
    assert_eq!(parse_score(&chars("4294967296")), None);
}
