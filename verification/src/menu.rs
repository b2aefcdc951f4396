//! The application's screens around a match: the set-up menu that asks for
//! the player names, the target score and the gravity, and the game-over
//! screen that leads back to it.

use vstd::prelude::*;

use crate::audio::SoundCue;
use crate::game::{AppScreen, ConfigField};

verus! {

/// Longest player name, in characters.
pub const MAX_NAME_LEN: usize = 10;
/// Longest target score, in digits.
pub const MAX_SCORE_DIGITS: usize = 2;
/// Target score when none is typed.
pub const DEFAULT_TARGET_SCORE: u32 = 3;

/// A printable ASCII character: ASCII and not a control character.
pub open spec fn is_printable_ascii(c: char) -> bool {
    0x20 <= (c as u32) && (c as u32) <= 0x7E
}

/// A decimal digit.
pub open spec fn is_digit(c: char) -> bool {
    '0' <= c && c <= '9'
}

/// The default name of player `i` (0 or 1): "Player 1" or "Player 2".
pub open spec fn default_name(i: int) -> Seq<char> {
    seq!['P', 'l', 'a', 'y', 'e', 'r', ' ', if i == 0 { '1' } else { '2' }]
}

/// Value of a string of decimal digits.
pub open spec fn digits_value(s: Seq<char>) -> nat
    decreases s.len(),
{
    if s.len() == 0 {
        0
    } else {
        digits_value(s.drop_last()) * 10 + ((s.last() as u32) - ('0' as u32)) as nat
    }
}

/// The `u32` that `s` denotes as an unsigned decimal literal: an optional
/// `+` followed by at least one digit, with a value that fits in 32 bits;
/// `None` for any other text.
pub open spec fn parse_u32(s: Seq<char>) -> Option<u32> {
    let digits = unsigned_digits(s);
    if digits.len() > 0 && all_digits(digits) && digits_value(digits) <= u32::MAX {
        Some(digits_value(digits) as u32)
    } else {
        None
    }
}

/// The text after an optional leading `+`.
pub open spec fn unsigned_digits(s: Seq<char>) -> Seq<char> {
    if s.len() > 0 && s[0] == '+' {
        s.drop_first()
    } else {
        s
    }
}

/// Every character of `s` is a decimal digit.
pub open spec fn all_digits(s: Seq<char>) -> bool {
    forall|i: int| 0 <= i < s.len() ==> is_digit(#[trigger] s[i])
}

/// Scores and names of a finished match, shown on the game-over screen.
#[derive(Debug)]
pub struct MatchOverState {
    pub scores: [u32; 2],
    pub names: [Vec<char>; 2],
}

/// What the application has to do after a key reached the menu.
#[derive(Clone, Copy, Debug, PartialEq, Eq)]
pub enum MenuAction {
    /// Nothing more.
    Nothing,
    /// The key belongs to the running match.
    ForwardToGame,
    /// The menu started over; a fresh match has to be prepared.
    ResetGame,
    /// The set-up is complete and the match starts; with
    /// `gravity_from_input` the typed gravity replaces the current one.
    StartGame { gravity_from_input: bool },
}

/// A submission's effect on the application and the cues it plays.
#[derive(Debug)]
pub struct MenuSubmission {
    pub action: MenuAction,
    pub cues: Vec<SoundCue>,
}

/// The screen flow and the set-up menu state.
pub struct MenuState {
    pub screen: AppScreen,
    pub exit_requested: bool,
    pub player_names: [Vec<char>; 2],
    pub target_score: u32,
    pub active_field: ConfigField,
    pub field_input: Vec<char>,
    pub match_over_state: Option<MatchOverState>,
}

fn default_name_chars(i: usize) -> (name: Vec<char>)
    requires
        i < 2,
    ensures
        name@ == default_name(i as int),
{
    let last = if i == 0 { '1' } else { '2' };
    let name = vec!['P', 'l', 'a', 'y', 'e', 'r', ' ', last];
    assert(name@ =~= default_name(i as int));
    name
}

fn char_code(c: char) -> (code: u32)
    ensures
        code == c as u32,
{
    c as u32
}

fn contains_point(s: &Vec<char>) -> (b: bool)
    ensures
        b == s@.contains('.'),
{
    let mut i: usize = 0;
    while i < s.len()
        invariant
            i <= s@.len(),
            forall|j: int| 0 <= j < i ==> s@[j] != '.',
        decreases s@.len() - i,
    {
        if s[i] == '.' {
            return true;
        }
        i = i + 1;
    }
    false
}

pub(crate) fn copy_chars(s: &Vec<char>) -> (c: Vec<char>)
    ensures
        c@ == s@,
{
    let mut c: Vec<char> = Vec::new();
    let mut i: usize = 0;
    while i < s.len()
        invariant
            i <= s@.len(),
            c@ == s@.subrange(0, i as int),
        decreases s@.len() - i,
    {
        c.push(s[i]);
        i = i + 1;
    }
    assert(c@ =~= s@);
    c
}

proof fn lemma_digits_value_push(s: Seq<char>, c: char)
    ensures
        digits_value(s.push(c)) == digits_value(s) * 10 + ((c as u32) - ('0' as u32)) as nat,
{
    assert(s.push(c).drop_last() =~= s);
}

/// Parses `s` as an unsigned decimal `u32` literal.
pub fn parse_score(s: &Vec<char>) -> (v: Option<u32>)
    ensures
        v == parse_u32(s@),
{
    let start: usize = if s.len() > 0 && s[0] == '+' { 1 } else { 0 };
    let ghost digits = unsigned_digits(s@);
    assert(digits =~= s@.subrange(start as int, s@.len() as int));
    if start >= s.len() {
        return None;
    }
    let mut value: u64 = 0;
    let mut i: usize = start;
    while i < s.len()
        invariant
            start <= i <= s@.len(),
            digits =~= s@.subrange(start as int, s@.len() as int),
            digits == unsigned_digits(s@),
            forall|j: int| start <= j < i ==> is_digit(#[trigger] s@[j]),
            value == digits_value(s@.subrange(start as int, i as int)),
            value <= u32::MAX,
        decreases s@.len() - i,
    {
        let c = s[i];
        if !('0' <= c && c <= '9') {
            proof {
                assert(digits[i - start] == c);
                assert(!is_digit(digits[i - start]));
                assert(!(forall|j: int| 0 <= j < digits.len() ==> is_digit(#[trigger] digits[j])));
            }
            return None;
        }
        proof {
            lemma_digits_value_push(s@.subrange(start as int, i as int), c);
            assert(s@.subrange(start as int, i as int).push(c) =~= s@.subrange(
                start as int,
                i + 1,
            ));
        }
        value = value * 10 + (char_code(c) - 48) as u64;
        if value > 0xFFFF_FFFF {
            proof {
                let k = (i + 1 - start) as int;
                assert forall|j: int| 0 <= j < k implies is_digit(#[trigger] digits[j]) by {
                    assert(digits[j] == s@[start + j]);
                }
                assert(digits.subrange(0, k) =~= s@.subrange(start as int, i + 1));
                lemma_digits_value_grows(digits, k);
            }
            return None;
        }
        i = i + 1;
    }
    assert(s@.subrange(start as int, s@.len() as int) =~= digits);
    Some(value as u32)
}

proof fn lemma_digits_value_grows(s: Seq<char>, k: int)
    requires
        0 <= k <= s.len(),
        forall|i: int| 0 <= i < k ==> is_digit(#[trigger] s[i]),
    ensures
        all_digits(s) ==> digits_value(s)
            >= digits_value(s.subrange(0, k)),
    decreases s.len() - k,
{
    if k < s.len() && all_digits(s) {
        lemma_digits_value_grows(s, k + 1);
        lemma_digits_value_push(s.subrange(0, k), s[k]);
        assert(s.subrange(0, k).push(s[k]) =~= s.subrange(0, k + 1));
    }
    if k == s.len() {
        assert(s.subrange(0, k) =~= s);
    }
}

/// The typed character is taken by the set-up field: a name takes up to ten
/// printable ASCII characters, the target score up to two digits, and the
/// gravity digits with at most one decimal point.
pub open spec fn field_accepts(field: ConfigField, input: Seq<char>, ch: char) -> bool {
    match field {
        ConfigField::PlayerOneName | ConfigField::PlayerTwoName => is_printable_ascii(ch)
            && input.len() < MAX_NAME_LEN,
        ConfigField::TargetScore => is_digit(ch) && input.len() < MAX_SCORE_DIGITS,
        ConfigField::Gravity => is_digit(ch) || (ch == '.' && !input.contains('.')),
    }
}

impl MenuState {
    /// All fields agree (names and typed text by content).
    pub open spec fn same_as(self, other: MenuState) -> bool {
        &&& self.screen == other.screen
        &&& self.exit_requested == other.exit_requested
        &&& self.player_names[0]@ == other.player_names[0]@
        &&& self.player_names[1]@ == other.player_names[1]@
        &&& self.target_score == other.target_score
        &&& self.active_field == other.active_field
        &&& self.field_input@ == other.field_input@
        &&& self.match_over_state == other.match_over_state
    }

    /// The game-over data is present exactly on the game-over screen, and
    /// the play-again screen is never shown.
    pub open spec fn screens_consistent(self) -> bool {
        &&& (self.screen == AppScreen::MatchOver) == (self.match_over_state is Some)
        &&& self.screen != AppScreen::PlayAgain
    }

    /// The menu as it starts: the set-up menu at its first field, with the
    /// default names and target score and nothing typed.
    pub open spec fn is_fresh(self) -> bool {
        &&& self.screen == AppScreen::ConfigMenu
        &&& self.player_names[0]@ == default_name(0)
        &&& self.player_names[1]@ == default_name(1)
        &&& self.target_score == DEFAULT_TARGET_SCORE
        &&& self.active_field == ConfigField::PlayerOneName
        &&& self.field_input@.len() == 0
        &&& self.match_over_state is None
    }

    /// A fresh set-up menu.
    pub fn new() -> (m: MenuState)
        ensures
            m.is_fresh(),
            m.screens_consistent(),
            !m.exit_requested,
    {
        MenuState {
            screen: AppScreen::ConfigMenu,
            exit_requested: false,
            player_names: [default_name_chars(0), default_name_chars(1)],
            target_score: DEFAULT_TARGET_SCORE,
            active_field: ConfigField::PlayerOneName,
            field_input: Vec::new(),
            match_over_state: None,
        }
    }

    fn reset_to_config(&mut self)
        ensures
            final(self).is_fresh(),
            final(self).exit_requested == old(self).exit_requested,
    {
        self.screen = AppScreen::ConfigMenu;
        self.player_names = [default_name_chars(0), default_name_chars(1)];
        self.target_score = DEFAULT_TARGET_SCORE;
        self.active_field = ConfigField::PlayerOneName;
        self.field_input = Vec::new();
        self.match_over_state = None;
    }

    fn config_handle_char(&mut self, ch: char)
        ensures
            final(self).screen == old(self).screen,
            final(self).exit_requested == old(self).exit_requested,
            final(self).player_names[0]@ == old(self).player_names[0]@,
            final(self).player_names[1]@ == old(self).player_names[1]@,
            final(self).target_score == old(self).target_score,
            final(self).active_field == old(self).active_field,
            final(self).match_over_state == old(self).match_over_state,
            final(self).field_input@ == if field_accepts(
                old(self).active_field,
                old(self).field_input@,
                ch,
            ) {
                old(self).field_input@.push(ch)
            } else {
                old(self).field_input@
            },
    {
        let accept = match self.active_field {
            ConfigField::PlayerOneName | ConfigField::PlayerTwoName => {
                let code = char_code(ch);
                0x20 <= code && code <= 0x7E && self.field_input.len() < MAX_NAME_LEN
            },
            ConfigField::TargetScore => {
                '0' <= ch && ch <= '9' && self.field_input.len() < MAX_SCORE_DIGITS
            },
            ConfigField::Gravity => {
                ('0' <= ch && ch <= '9') || (ch == '.' && !contains_point(&self.field_input))
            },
        };
        if accept {
            self.field_input.push(ch);
        }
    }

    /// A typed character: in the set-up menu it goes to the active field;
    /// while playing it belongs to the match; on the game-over screen any
    /// key returns to a fresh set-up menu.
    pub fn handle_char(&mut self, ch: char) -> (action: MenuAction)
        ensures
            old(self).screen == AppScreen::ConfigMenu ==> final(self).match_over_state
                == old(self).match_over_state,
            old(self).screens_consistent() ==> final(self).screens_consistent(),
            old(self).screen == AppScreen::ConfigMenu ==> {
                &&& action == MenuAction::Nothing
                &&& final(self).screen == old(self).screen
                &&& final(self).active_field == old(self).active_field
                &&& final(self).target_score == old(self).target_score
                &&& final(self).player_names[0]@ == old(self).player_names[0]@
                &&& final(self).player_names[1]@ == old(self).player_names[1]@
                &&& final(self).field_input@ == if field_accepts(
                    old(self).active_field,
                    old(self).field_input@,
                    ch,
                ) {
                    old(self).field_input@.push(ch)
                } else {
                    old(self).field_input@
                }
            },
            old(self).screen == AppScreen::Playing ==> action == MenuAction::ForwardToGame
                && final(self).same_as(*old(self)),
            old(self).screen == AppScreen::MatchOver ==> action == MenuAction::ResetGame
                && final(self).is_fresh(),
            old(self).screen == AppScreen::PlayAgain ==> action == MenuAction::Nothing && final(self).same_as(*old(self)),
            final(self).exit_requested == old(self).exit_requested,
    {
        match self.screen {
            AppScreen::ConfigMenu => {
                self.config_handle_char(ch);
                MenuAction::Nothing
            },
            AppScreen::Playing => MenuAction::ForwardToGame,
            AppScreen::MatchOver => {
                self.reset_to_config();
                MenuAction::ResetGame
            },
            AppScreen::PlayAgain => MenuAction::Nothing,
        }
    }

    /// Backspace: in the set-up menu it deletes the last typed character;
    /// while playing it belongs to the match; on the game-over screen it
    /// returns to a fresh set-up menu.
    pub fn handle_backspace(&mut self) -> (action: MenuAction)
        ensures
            old(self).screen == AppScreen::ConfigMenu ==> final(self).match_over_state
                == old(self).match_over_state,
            old(self).screens_consistent() ==> final(self).screens_consistent(),
            old(self).screen == AppScreen::ConfigMenu ==> {
                &&& action == MenuAction::Nothing
                &&& final(self).screen == old(self).screen
                &&& final(self).active_field == old(self).active_field
                &&& final(self).target_score == old(self).target_score
                &&& final(self).player_names[0]@ == old(self).player_names[0]@
                &&& final(self).player_names[1]@ == old(self).player_names[1]@
                &&& final(self).field_input@ == if old(self).field_input@.len() > 0 {
                    old(self).field_input@.drop_last()
                } else {
                    old(self).field_input@
                }
            },
            old(self).screen == AppScreen::Playing ==> action == MenuAction::ForwardToGame
                && final(self).same_as(*old(self)),
            old(self).screen == AppScreen::MatchOver ==> action == MenuAction::ResetGame
                && final(self).is_fresh(),
            old(self).screen == AppScreen::PlayAgain ==> action == MenuAction::Nothing && final(self).same_as(*old(self)),
            final(self).exit_requested == old(self).exit_requested,
    {
        match self.screen {
            AppScreen::ConfigMenu => {
                self.field_input.pop();
                MenuAction::Nothing
            },
            AppScreen::Playing => MenuAction::ForwardToGame,
            AppScreen::MatchOver => {
                self.reset_to_config();
                MenuAction::ResetGame
            },
            AppScreen::PlayAgain => MenuAction::Nothing,
        }
    }
}

impl MenuState {
    fn start_game(&mut self, gravity_from_input: bool) -> (s: MenuSubmission)
        ensures
            final(self).screen == AppScreen::Playing,
            final(self).exit_requested == old(self).exit_requested,
            final(self).player_names[0]@ == old(self).player_names[0]@,
            final(self).player_names[1]@ == old(self).player_names[1]@,
            final(self).target_score == old(self).target_score,
            final(self).active_field == old(self).active_field,
            final(self).field_input@ == old(self).field_input@,
            final(self).match_over_state == old(self).match_over_state,
            s.action == (MenuAction::StartGame { gravity_from_input }),
            s.cues@ == seq![SoundCue::Intro, SoundCue::GorillaIntro],
    {
        self.screen = AppScreen::Playing;
        let mut cues: Vec<SoundCue> = Vec::new();
        cues.push(SoundCue::Intro);
        cues.push(SoundCue::GorillaIntro);
        MenuSubmission { action: MenuAction::StartGame { gravity_from_input }, cues }
    }

    /// Enter in the set-up menu confirms the active field: an empty name
    /// keeps the default name; an empty target score keeps the current one
    /// and a typed one must be at least 1 (otherwise it is cleared and asked
    /// again); an empty gravity keeps the current one and a typed one must be
    /// positive, which the caller reports in `gravity_positive` because it is
    /// a floating-point value. Confirming the gravity starts the match with
    /// the intro melodies. While playing, Enter belongs to the match; on the
    /// game-over screen it returns to a fresh set-up menu.
    pub fn handle_submit(&mut self, gravity_positive: bool) -> (s: MenuSubmission)
        ensures
            old(self).screen == AppScreen::ConfigMenu ==> final(self).match_over_state
                == old(self).match_over_state,
            old(self).screens_consistent() ==> final(self).screens_consistent(),
            final(self).exit_requested == old(self).exit_requested,
            old(self).screen == AppScreen::Playing ==> s.action == MenuAction::ForwardToGame
                && s.cues@.len() == 0 && final(self).same_as(*old(self)),
            old(self).screen == AppScreen::MatchOver ==> s.action == MenuAction::ResetGame
                && s.cues@.len() == 0 && final(self).is_fresh(),
            old(self).screen == AppScreen::PlayAgain ==> s.action == MenuAction::Nothing
                && s.cues@.len() == 0 && final(self).same_as(*old(self)),
            old(self).screen == AppScreen::ConfigMenu && old(self).active_field
                == ConfigField::PlayerOneName ==> {
                &&& s.action == MenuAction::Nothing && s.cues@.len() == 0
                &&& final(self).screen == AppScreen::ConfigMenu
                &&& final(self).player_names[0]@ == if old(self).field_input@.len() == 0 {
                    default_name(0)
                } else {
                    old(self).field_input@
                }
                &&& final(self).player_names[1]@ == old(self).player_names[1]@
                &&& final(self).target_score == old(self).target_score
                &&& final(self).field_input@.len() == 0
                &&& final(self).active_field == ConfigField::PlayerTwoName
            },
            old(self).screen == AppScreen::ConfigMenu && old(self).active_field
                == ConfigField::PlayerTwoName ==> {
                &&& s.action == MenuAction::Nothing && s.cues@.len() == 0
                &&& final(self).screen == AppScreen::ConfigMenu
                &&& final(self).player_names[0]@ == old(self).player_names[0]@
                &&& final(self).player_names[1]@ == if old(self).field_input@.len() == 0 {
                    default_name(1)
                } else {
                    old(self).field_input@
                }
                &&& final(self).target_score == old(self).target_score
                &&& final(self).field_input@.len() == 0
                &&& final(self).active_field == ConfigField::TargetScore
            },
            old(self).screen == AppScreen::ConfigMenu && old(self).active_field
                == ConfigField::TargetScore ==> {
                &&& s.action == MenuAction::Nothing && s.cues@.len() == 0
                &&& final(self).screen == AppScreen::ConfigMenu
                &&& final(self).player_names[0]@ == old(self).player_names[0]@
                &&& final(self).player_names[1]@ == old(self).player_names[1]@
                &&& final(self).field_input@.len() == 0
                &&& if old(self).field_input@.len() == 0 {
                    final(self).target_score == old(self).target_score && final(self).active_field
                        == ConfigField::Gravity
                } else if parse_u32(old(self).field_input@) is Some && parse_u32(
                    old(self).field_input@,
                )->0 >= 1 {
                    final(self).target_score == parse_u32(old(self).field_input@)->0 && final(self).active_field
                        == ConfigField::Gravity
                } else {
                    final(self).target_score == old(self).target_score && final(self).active_field
                        == ConfigField::TargetScore
                }
            },
            old(self).screen == AppScreen::ConfigMenu && old(self).active_field
                == ConfigField::Gravity ==> {
                &&& final(self).player_names[0]@ == old(self).player_names[0]@
                &&& final(self).player_names[1]@ == old(self).player_names[1]@
                &&& final(self).target_score == old(self).target_score
                &&& final(self).active_field == ConfigField::Gravity
                &&& if old(self).field_input@.len() == 0 || gravity_positive {
                    &&& final(self).screen == AppScreen::Playing
                    &&& final(self).field_input@ == old(self).field_input@
                    &&& s.action == (MenuAction::StartGame {
                        gravity_from_input: old(self).field_input@.len() != 0,
                    })
                    &&& s.cues@ == seq![SoundCue::Intro, SoundCue::GorillaIntro]
                } else {
                    &&& final(self).screen == AppScreen::ConfigMenu
                    &&& final(self).field_input@.len() == 0
                    &&& s.action == MenuAction::Nothing
                    &&& s.cues@.len() == 0
                }
            },
    {
        match self.screen {
            AppScreen::ConfigMenu => {},
            AppScreen::Playing => {
                return MenuSubmission { action: MenuAction::ForwardToGame, cues: Vec::new() };
            },
            AppScreen::MatchOver => {
                self.reset_to_config();
                return MenuSubmission { action: MenuAction::ResetGame, cues: Vec::new() };
            },
            AppScreen::PlayAgain => {
                return MenuSubmission { action: MenuAction::Nothing, cues: Vec::new() };
            },
        }
        match self.active_field {
            ConfigField::PlayerOneName => {
                let name = if self.field_input.len() == 0 {
                    default_name_chars(0)
                } else {
                    copy_chars(&self.field_input)
                };
                let other = copy_chars(&self.player_names[1]);
                self.player_names = [name, other];
                self.field_input = Vec::new();
                self.active_field = ConfigField::PlayerTwoName;
            },
            ConfigField::PlayerTwoName => {
                let name = if self.field_input.len() == 0 {
                    default_name_chars(1)
                } else {
                    copy_chars(&self.field_input)
                };
                let first = copy_chars(&self.player_names[0]);
                self.player_names = [first, name];
                self.field_input = Vec::new();
                self.active_field = ConfigField::TargetScore;
            },
            ConfigField::TargetScore => {
                if self.field_input.len() == 0 {
                    self.active_field = ConfigField::Gravity;
                } else {
                    let score = match parse_score(&self.field_input) {
                        Some(v) => v,
                        None => 0,
                    };
                    if score >= 1 {
                        self.target_score = score;
                        self.active_field = ConfigField::Gravity;
                    }
                    self.field_input = Vec::new();
                }
            },
            ConfigField::Gravity => {
                if self.field_input.len() == 0 {
                    return self.start_game(false);
                } else if gravity_positive {
                    return self.start_game(true);
                } else {
                    self.field_input = Vec::new();
                }
            },
        }
        MenuSubmission { action: MenuAction::Nothing, cues: Vec::new() }
    }

    /// What a clock tick means for the menu: only a running match advances.
    pub fn update_action(&self) -> (action: MenuAction)
        ensures
            action == if self.screen == AppScreen::Playing {
                MenuAction::ForwardToGame
            } else {
                MenuAction::Nothing
            },
    {
        match self.screen {
            AppScreen::Playing => MenuAction::ForwardToGame,
            _ => MenuAction::Nothing,
        }
    }

    /// The match has been decided: show the game-over screen with the final
    /// scores and the players' names.
    pub fn enter_match_over(&mut self, scores: [u32; 2], names: [Vec<char>; 2])
        ensures
            final(self).screen == AppScreen::MatchOver,
            final(self).screens_consistent(),
            final(self).match_over_state matches Some(mo) && mo.scores == scores && mo.names[0]@
                == names[0]@ && mo.names[1]@ == names[1]@,
            final(self).exit_requested == old(self).exit_requested,
            final(self).player_names[0]@ == old(self).player_names[0]@,
            final(self).player_names[1]@ == old(self).player_names[1]@,
            final(self).target_score == old(self).target_score,
            final(self).active_field == old(self).active_field,
            final(self).field_input@ == old(self).field_input@,
    {
        self.match_over_state = Some(MatchOverState { scores, names });
        self.screen = AppScreen::MatchOver;
    }
}

/// `s` holds at most one decimal point.
pub open spec fn at_most_one_point(s: Seq<char>) -> bool {
    forall|i: int, j: int| 0 <= i < j < s.len() ==> !(s[i] == '.' && s[j] == '.')
}

/// What a set-up field can hold: a name up to ten printable ASCII
/// characters, a target score up to two digits, a gravity of digits with at
/// most one decimal point.
pub open spec fn field_input_ok(field: ConfigField, input: Seq<char>) -> bool {
    match field {
        ConfigField::PlayerOneName | ConfigField::PlayerTwoName => input.len() <= MAX_NAME_LEN
            && forall|i: int| 0 <= i < input.len() ==> is_printable_ascii(#[trigger] input[i]),
        ConfigField::TargetScore => input.len() <= MAX_SCORE_DIGITS && all_digits(input),
        ConfigField::Gravity => at_most_one_point(input) && forall|i: int|
            0 <= i < input.len() ==> is_digit(#[trigger] input[i]) || input[i] == '.',
    }
}

/// Typing keeps a set-up field within what it can hold: whatever key is
/// pressed, a name never exceeds ten characters, a target score two digits,
/// and a gravity never gets a second decimal point.
pub proof fn lemma_typing_keeps_field_valid(field: ConfigField, input: Seq<char>, ch: char)
    requires
        field_input_ok(field, input),
    ensures
        field_input_ok(
            field,
            if field_accepts(field, input, ch) {
                input.push(ch)
            } else {
                input
            },
        ),
{
    if field_accepts(field, input, ch) {
        let t = input.push(ch);
        assert(forall|i: int| 0 <= i < input.len() ==> t[i] == input[i]);
        if field == ConfigField::Gravity && ch == '.' {
            assert forall|i: int, j: int| 0 <= i < j < t.len() implies !(t[i] == '.' && t[j] == '.') by {
                if j == input.len() && t[i] == '.' {
                    assert(input[i] == '.');
                    assert(input.contains('.'));
                }
            }
        }
    }
}

/// Deleting the last character keeps a set-up field within what it can hold.
pub proof fn lemma_backspace_keeps_field_valid(field: ConfigField, input: Seq<char>)
    requires
        field_input_ok(field, input),
    ensures
        field_input_ok(
            field,
            if input.len() > 0 {
                input.drop_last()
            } else {
                input
            },
        ),
{
    if input.len() > 0 {
        let t = input.drop_last();
        assert(forall|i: int| 0 <= i < t.len() ==> t[i] == input[i]);
    }
}

} // verus!
