//! The text screens: the set-up menu, the game-over screen and the in-game
//! heads-up display. Each screen is described as a list of texts placed at
//! text cells, and drawn in the HUD colour.

use vstd::prelude::*;

use crate::canvas::{shade, Canvas};
use crate::game::{AppScreen, Player, TurnPhase, TurnState};
use crate::menu::{copy_chars, MatchOverState, MenuState};
use crate::palette::HUD_TEXT_ATTR;
use crate::text::{
    centered_col, centered_col_for_len, draw_chars, spec_centered_col, str_chars, text_at,
    text_fits,
};
use vstd::string::*;

verus! {

/// The decimal digit character for `d` (below ten).
pub open spec fn digit_char(d: nat) -> char {
    (d + 48) as char
}

/// The decimal representation of `n`, without leading zeros.
pub open spec fn spec_decimal(n: nat) -> Seq<char>
    decreases n,
{
    if n < 10 {
        seq![digit_char(n)]
    } else {
        spec_decimal(n / 10).push(digit_char(n % 10))
    }
}

/// The decimal text of `n`, as `format!("{}", n)` writes it.
pub fn decimal_text(n: u32) -> (text: Vec<char>)
    ensures
        text@ == spec_decimal(n as nat),
    decreases n,
{
    let d: u8 = (n % 10) as u8;
    let c: char = (d + 48) as char;
    if n < 10 {
        let mut text: Vec<char> = Vec::new();
        text.push(c);
        assert(text@ =~= seq![digit_char(n as nat)]);
        text
    } else {
        let mut text = decimal_text(n / 10);
        text.push(c);
        text
    }
}

/// Ten to the power `k`.
pub open spec fn pow10(k: nat) -> nat
    decreases k,
{
    if k == 0 {
        1
    } else {
        10 * pow10((k - 1) as nat)
    }
}

/// A number below `10^k` has at most `k` digits.
pub proof fn lemma_decimal_len(n: nat, k: nat)
    requires
        k >= 1,
        n < pow10(k),
    ensures
        spec_decimal(n).len() <= k,
    decreases n,
{
    if n >= 10 {
        assert(k >= 2) by {
            if k == 1 {
                assert(pow10(1) == 10 * pow10(0));
            }
        }
        assert(pow10(k) == 10 * pow10((k - 1) as nat));
        lemma_decimal_len(n / 10, (k - 1) as nat);
    }
}

/// A `u32` has at most ten decimal digits.
pub proof fn lemma_u32_decimal_len(n: u32)
    ensures
        1 <= spec_decimal(n as nat).len() <= 10,
{
    reveal_with_fuel(pow10, 11);
    assert(pow10(10) == 10000000000);
    lemma_decimal_len(n as nat, 10);
}

/// A text placed at a text cell: 1-based row and column, and the characters.
#[derive(Debug)]
pub struct TextItem {
    pub row: usize,
    pub col: usize,
    pub text: Vec<char>,
}

/// The mathematical content of a placed text.
pub open spec fn item_view(t: TextItem) -> (int, int, Seq<char>) {
    (t.row as int, t.col as int, t.text@)
}

/// The mathematical content of a list of placed texts.
pub open spec fn items_view(items: Seq<TextItem>) -> Seq<(int, int, Seq<char>)> {
    items.map_values(|t: TextItem| item_view(t))
}

/// The placed text `t` lights the pixel `(px, py)`.
pub open spec fn item_lit(t: (int, int, Seq<char>), px: int, py: int) -> bool {
    text_at(t.2, t.0, t.1, px, py)
}

/// Some text of `items` lights the pixel `(px, py)`.
pub open spec fn layout_lit(items: Seq<(int, int, Seq<char>)>, px: int, py: int) -> bool {
    exists|i: int| 0 <= i < items.len() && #[trigger] item_lit(items[i], px, py)
}

/// Every text of `items` stays within the coordinates the drawing code uses.
pub open spec fn items_fit(items: Seq<(int, int, Seq<char>)>) -> bool {
    forall|i: int|
        0 <= i < items.len() ==> text_fits(
            #[trigger] items[i].0,
            items[i].1,
            items[i].2.len() as int,
        )
}

proof fn lemma_layout_step(items: Seq<(int, int, Seq<char>)>, n: int, px: int, py: int)
    requires
        0 <= n < items.len(),
    ensures
        layout_lit(items.subrange(0, n + 1), px, py) == (layout_lit(items.subrange(0, n), px, py)
            || item_lit(items[n], px, py)),
{
    let t1 = items.subrange(0, n + 1);
    let t0 = items.subrange(0, n);
    if item_lit(items[n], px, py) {
        assert(item_lit(t1[n], px, py));
    }
    if layout_lit(t1, px, py) && !item_lit(items[n], px, py) {
        let j = choose|j: int| 0 <= j < t1.len() && #[trigger] item_lit(t1[j], px, py);
        assert(t0[j] == t1[j]);
    }
    if layout_lit(t0, px, py) {
        let j = choose|j: int| 0 <= j < t0.len() && #[trigger] item_lit(t0[j], px, py);
        assert(t0[j] == t1[j]);
    }
}

/// Draws every text of `items` in the colour `attr`.
pub fn draw_items(canvas: &mut Canvas, items: &Vec<TextItem>, attr: u8)
    requires
        old(canvas).wf(),
        items_fit(items_view(items@)),
    ensures
        final(canvas).painted_over(
            *old(canvas),
            |px: int, py: int| layout_lit(items_view(items@), px, py),
            attr,
        ),
{
    let ghost start = *canvas;
    let ghost v = items_view(items@);
    let mut index: usize = 0;
    while index < items.len()
        invariant
            v == items_view(items@),
            items_fit(v),
            index <= items@.len(),
            canvas.painted_over(
                start,
                |px: int, py: int| layout_lit(v.subrange(0, index as int), px, py),
                attr,
            ),
        decreases items@.len() - index,
    {
        let item = &items[index];
        assert(v[index as int] == item_view(*item));
        assert(text_fits(v[index as int].0, v[index as int].1, v[index as int].2.len() as int));
        draw_chars(canvas, item.row, item.col, item.text.as_slice(), attr);
        proof {
            assert forall|px: int, py: int| #![trigger canvas.at(px, py)] canvas.in_bounds(px, py) implies canvas.at(px, py)
                == shade(layout_lit(v.subrange(0, index as int + 1), px, py), attr, start.at(px, py)) by {
                lemma_layout_step(v, index as int, px, py);
            }
        }
        index = index + 1;
    }
    proof {
        assert(v.subrange(0, items@.len() as int) =~= v);
    }
}

/// Appends the text `text` at (`row`, `col`).
fn push_item(items: &mut Vec<TextItem>, row: usize, col: usize, text: Vec<char>)
    ensures
        items_view(final(items)@) == items_view(old(items)@).push((row as int, col as int, text@)),
{
    let ghost t = (row as int, col as int, text@);
    items.push(TextItem { row, col, text });
    assert(items_view(items@) =~= items_view(old(items)@).push(t));
}

/// Appends the literal text `text` at (`row`, `col`).
fn push_str(items: &mut Vec<TextItem>, row: usize, col: usize, text: &str)
    ensures
        items_view(final(items)@) == items_view(old(items)@).push((row as int, col as int, text@)),
{
    push_item(items, row, col, str_chars(text));
}

/// `s` followed by a field's typed text at (`row`, `col`) and the cursor
/// right behind it.
pub open spec fn with_cursor(s: Seq<(int, int, Seq<char>)>, row: int, col: int, input: Seq<char>) -> Seq<
    (int, int, Seq<char>),
> {
    s.push((row, col, input)).push((row, col + input.len(), "_"@))
}

/// Appends a field's typed text at (`row`, `col`) and the cursor behind it.
fn push_with_cursor(items: &mut Vec<TextItem>, row: usize, col: usize, input: &Vec<char>)
    requires
        col + input@.len() <= usize::MAX,
    ensures
        items_view(final(items)@) == with_cursor(items_view(old(items)@), row as int, col as int, input@),
{
    proof {
        reveal_strlit("_");
    }
    push_item(items, row, col, copy_chars(input));
    push_str(items, row, col + input.len(), "_");
}

/// The set-up menu: the four questions at their fixed places; each answered
/// question shows its answer, the question being answered shows the typed
/// text and the cursor, and questions still to come show nothing.
pub open spec fn spec_config_items(m: MenuState) -> Seq<(int, int, Seq<char>)> {
    let a = m.active_field.spec_index();
    let input = m.field_input@;
    let s0 = seq![(8int, 15int, "Name of Player 1 (Default = 'Player 1'): "@)];
    let s1 = if a > 0 {
        s0.push((8, 56, m.player_names[0]@))
    } else {
        with_cursor(s0, 8, 56, input)
    };
    let s2 = s1.push((10, 15, "Name of Player 2 (Default = 'Player 2'): "@));
    let s3 = if a > 1 {
        s2.push((10, 56, m.player_names[1]@))
    } else if a == 1 {
        with_cursor(s2, 10, 56, input)
    } else {
        s2
    };
    let s4 = s3.push((12, 13, "Play to how many total points (Default = 3): "@));
    let s5 = if a > 2 {
        s4.push((12, 58, spec_decimal(m.target_score as nat)))
    } else if a == 2 {
        with_cursor(s4, 12, 58, input)
    } else {
        s4
    };
    let s6 = s5.push((14, 17, "Gravity in Meters/Sec (Earth = 9.8): "@));
    if a == 3 {
        with_cursor(s6, 14, 54, input)
    } else {
        s6
    }
}

/// The game-over screen: the title, the final score of each player under
/// its name, and the prompt to go on.
pub open spec fn spec_match_over_items(mo: MatchOverState) -> Seq<(int, int, Seq<char>)> {
    seq![
        (8int, spec_centered_col("GAME OVER!"@.len() as int), "GAME OVER!"@),
        (10, spec_centered_col("Score:"@.len() as int), "Score:"@),
        (11, 30, mo.names[0]@),
        (11, 50, spec_decimal(mo.scores[0] as nat)),
        (12, 30, mo.names[1]@),
        (12, 50, spec_decimal(mo.scores[1] as nat)),
        (
            24,
            spec_centered_col("Press any key to continue"@.len() as int),
            "Press any key to continue"@,
        ),
    ]
}

/// Column of the second player's name: right-aligned to column 79, but not
/// left of column 1.
pub open spec fn spec_right_col(len: int) -> int {
    if 79 - len >= 1 {
        79 - len
    } else {
        1
    }
}

/// The score line: player one's score, `>Score<`, player two's score.
pub open spec fn score_text(scores: [u32; 2]) -> Seq<char> {
    spec_decimal(scores[0] as nat) + ">Score<"@ + spec_decimal(scores[1] as nat)
}

/// The heads-up display: both names in the top row, the centred score line
/// in row 23, and the current player's prompts on its side of the screen:
/// the angle being typed, or the accepted angle (`angle_text`) and the
/// velocity being typed. No prompt shows once the banana is thrown.
pub open spec fn spec_hud_items(
    turn: TurnState,
    name_one: Seq<char>,
    name_two: Seq<char>,
    angle_text: Seq<char>,
) -> Seq<(int, int, Seq<char>)> {
    let score = score_text(turn.scores);
    let s0 = seq![
        (1int, 1int, name_one),
        (1, spec_right_col(name_two.len() as int), name_two),
        (23, spec_centered_col(score.len() as int), score),
    ];
    let lc: int = if turn.current_player == Player::One {
        1
    } else {
        66
    };
    if turn.phase == TurnPhase::EnterAngle {
        with_cursor(s0.push((2, lc, "Angle:"@)), 2, lc + 7, turn.input@)
    } else if turn.phase == TurnPhase::EnterVelocity {
        with_cursor(
            s0.push((2, lc, "Angle:"@)).push((2, lc + 7, angle_text)).push((3, lc, "Velocity:"@)),
            3,
            lc + 10,
            turn.input@,
        )
    } else {
        s0
    }
}

/// The heads-up display always starts with the first player's name at the
/// top left, the second player's name right-aligned in the top row and the
/// score line centred in row 23. A prompt shows only while a number is being
/// typed: with the angle being typed, "Angle:" at the current player's side
/// (column 1 for player one, 66 for player two), the typed text behind it and
/// the cursor right after the text; with the velocity being typed, also the
/// accepted angle and "Velocity:" one row lower, with the typed text and the
/// cursor. In every other phase the display holds just the three texts.
pub proof fn lemma_hud_layout(
    turn: TurnState,
    name_one: Seq<char>,
    name_two: Seq<char>,
    angle_text: Seq<char>,
)
    ensures
        ({
            let s = spec_hud_items(turn, name_one, name_two, angle_text);
            let score = score_text(turn.scores);
            let lc: int = if turn.current_player == Player::One {
                1
            } else {
                66
            };
            let input = turn.input@;
            &&& s.len() >= 3
            &&& s[0] == (1int, 1int, name_one)
            &&& s[1] == (1int, spec_right_col(name_two.len() as int), name_two)
            &&& s[2] == (23int, spec_centered_col(score.len() as int), score)
            &&& !turn.takes_input() ==> s.len() == 3
            &&& turn.phase is EnterAngle ==> s.len() == 6 && s[3] == (2int, lc, "Angle:"@) && s[4]
                == (2int, lc + 7, input) && s[5] == (2int, lc + 7 + input.len(), "_"@)
            &&& turn.phase is EnterVelocity ==> s.len() == 8 && s[3] == (2int, lc, "Angle:"@) && s[4]
                == (2int, lc + 7, angle_text) && s[5] == (3int, lc, "Velocity:"@) && s[6] == (
            3int,
            lc + 10,
            input,
            ) && s[7] == (3int, lc + 10 + input.len(), "_"@)
        }),
{
}

/// Question `q` of the set-up menu (0 to 3) with its place: the two names,
/// the points to play to, and the gravity, on rows 8, 10, 12 and 14.
pub open spec fn config_question(q: int) -> (int, int, Seq<char>) {
    if q == 0 {
        (8, 15, "Name of Player 1 (Default = 'Player 1'): "@)
    } else if q == 1 {
        (10, 15, "Name of Player 2 (Default = 'Player 2'): "@)
    } else if q == 2 {
        (12, 13, "Play to how many total points (Default = 3): "@)
    } else {
        (14, 17, "Gravity in Meters/Sec (Earth = 9.8): "@)
    }
}

/// Column at which the answer to question `q` is shown: right behind the
/// question text.
pub open spec fn config_answer_col(q: int) -> int {
    config_question(q).1 + config_question(q).2.len()
}

/// The accepted answer to question `q` (0 to 2) of the menu `m`.
pub open spec fn config_answer(m: MenuState, q: int) -> Seq<char> {
    if q == 0 {
        m.player_names[0]@
    } else if q == 1 {
        m.player_names[1]@
    } else {
        spec_decimal(m.target_score as nat)
    }
}

/// The set-up menu shows the questions up to the active one in order, each
/// answered question followed by its answer right behind it; the active
/// question is followed by the typed text and the cursor right after that
/// text; the questions still to come follow without an answer. Nothing else
/// is shown: one question and answer pair per answered question, so the
/// screen holds six texts plus one per answered question.
pub proof fn lemma_config_layout(m: MenuState)
    ensures
        ({
            let s = spec_config_items(m);
            let a = m.active_field.spec_index() as int;
            let input = m.field_input@;
            let row = config_question(a).0;
            &&& s.len() == 6 + a
            &&& forall|q: int| 0 <= q <= a ==> s[2 * q] == #[trigger] config_question(q)
            &&& forall|q: int|
                0 <= q < a ==> s[2 * q + 1] == (config_question(q).0, config_answer_col(q), #[trigger] config_answer(m, q))
            &&& s[2 * a + 1] == (row, config_answer_col(a), input)
            &&& s[2 * a + 2] == (row, config_answer_col(a) + input.len(), "_"@)
            &&& forall|q: int| a < q < 4 ==> s[q + a + 2] == #[trigger] config_question(q)
        }),
{
    reveal_strlit("Name of Player 1 (Default = 'Player 1'): ");
    reveal_strlit("Name of Player 2 (Default = 'Player 2'): ");
    reveal_strlit("Play to how many total points (Default = 3): ");
    reveal_strlit("Gravity in Meters/Sec (Earth = 9.8): ");
    let s = spec_config_items(m);
    let a = m.active_field.spec_index() as int;
    assert(config_answer_col(0) == 56 && config_answer_col(1) == 56);
    assert(config_answer_col(2) == 58 && config_answer_col(3) == 54);
    assert forall|q: int| 0 <= q <= a implies s[2 * q] == #[trigger] config_question(q) by {
        if q == 0 {} else if q == 1 {} else if q == 2 {} else {}
    }
    assert forall|q: int| 0 <= q < a implies s[2 * q + 1] == (
        config_question(q).0,
        config_answer_col(q),
        #[trigger] config_answer(m, q),
    ) by {
        if q == 0 {} else if q == 1 {} else {}
    }
    assert forall|q: int| a < q < 4 implies s[q + a + 2] == #[trigger] config_question(q) by {
        if q == 1 {} else if q == 2 {} else {}
    }
}

impl MenuState {
    /// The texts of the set-up menu.
    pub fn config_screen_items(&self) -> (items: Vec<TextItem>)
        requires
            self.field_input@.len() <= usize::MAX - 100,
        ensures
            items_view(items@) == spec_config_items(*self),
    {
        let active = self.active_field.index();
        let mut items: Vec<TextItem> = Vec::new();
        assert(items_view(items@) =~= Seq::<(int, int, Seq<char>)>::empty());
        push_str(&mut items, 8, 15, "Name of Player 1 (Default = 'Player 1'): ");
        if active > 0 {
            push_item(&mut items, 8, 56, copy_chars(&self.player_names[0]));
        } else {
            push_with_cursor(&mut items, 8, 56, &self.field_input);
        }
        push_str(&mut items, 10, 15, "Name of Player 2 (Default = 'Player 2'): ");
        if active > 1 {
            push_item(&mut items, 10, 56, copy_chars(&self.player_names[1]));
        } else if active == 1 {
            push_with_cursor(&mut items, 10, 56, &self.field_input);
        }
        push_str(&mut items, 12, 13, "Play to how many total points (Default = 3): ");
        if active > 2 {
            push_item(&mut items, 12, 58, decimal_text(self.target_score));
        } else if active == 2 {
            push_with_cursor(&mut items, 12, 58, &self.field_input);
        }
        push_str(&mut items, 14, 17, "Gravity in Meters/Sec (Earth = 9.8): ");
        if active == 3 {
            push_with_cursor(&mut items, 14, 54, &self.field_input);
        }
        items
    }

    /// Draws the set-up menu in the HUD colour.
    pub fn render_config_screen(&self, canvas: &mut Canvas)
        requires
            old(canvas).wf(),
            self.field_input@.len() <= usize::MAX - 100,
            items_fit(spec_config_items(*self)),
        ensures
            final(canvas).painted_over(
                *old(canvas),
                |px: int, py: int| layout_lit(spec_config_items(*self), px, py),
                HUD_TEXT_ATTR,
            ),
    {
        let items = self.config_screen_items();
        draw_items(canvas, &items, HUD_TEXT_ATTR);
    }

    /// The texts of the menu's own screens: the set-up questions in the
    /// set-up menu, the final scores on the game-over screen, and nothing
    /// otherwise (the running match draws its own picture).
    pub fn screen_items(&self) -> (items: Vec<TextItem>)
        requires
            self.field_input@.len() <= usize::MAX - 100,
            self.screen == AppScreen::MatchOver ==> self.match_over_state is Some,
        ensures
            items_view(items@) == match self.screen {
                AppScreen::ConfigMenu => spec_config_items(*self),
                AppScreen::MatchOver => spec_match_over_items(self.match_over_state->0),
                _ => Seq::<(int, int, Seq<char>)>::empty(),
            },
    {
        match self.screen {
            AppScreen::ConfigMenu => self.config_screen_items(),
            AppScreen::MatchOver => match &self.match_over_state {
                Some(mo) => match_over_items(mo),
                None => Vec::new(),
            },
            _ => {
                let items: Vec<TextItem> = Vec::new();
                assert(items_view(items@) =~= Seq::<(int, int, Seq<char>)>::empty());
                items
            },
        }
    }
}

/// The texts of the game-over screen.
pub fn match_over_items(mo: &MatchOverState) -> (items: Vec<TextItem>)
    ensures
        items_view(items@) == spec_match_over_items(*mo),
{
    proof {
        reveal_strlit("GAME OVER!");
        reveal_strlit("Score:");
        reveal_strlit("Press any key to continue");
    }
    let mut items: Vec<TextItem> = Vec::new();
    assert(items_view(items@) =~= Seq::<(int, int, Seq<char>)>::empty());
    push_str(&mut items, 8, centered_col("GAME OVER!"), "GAME OVER!");
    push_str(&mut items, 10, centered_col("Score:"), "Score:");
    push_item(&mut items, 11, 30, copy_chars(&mo.names[0]));
    push_item(&mut items, 11, 50, decimal_text(mo.scores[0]));
    push_item(&mut items, 12, 30, copy_chars(&mo.names[1]));
    push_item(&mut items, 12, 50, decimal_text(mo.scores[1]));
    push_str(&mut items, 24, centered_col("Press any key to continue"), "Press any key to continue");
    assert(items_view(items@) =~= spec_match_over_items(*mo));
    items
}

/// Appends the characters of `tail` to `text`.
fn append_chars(text: &mut Vec<char>, tail: &Vec<char>)
    ensures
        final(text)@ == old(text)@ + tail@,
{
    let mut i: usize = 0;
    while i < tail.len()
        invariant
            i <= tail@.len(),
            text@ == old(text)@ + tail@.subrange(0, i as int),
        decreases tail@.len() - i,
    {
        text.push(tail[i]);
        assert(tail@.subrange(0, i as int + 1) =~= tail@.subrange(0, i as int).push(tail@[i as int]));
        i = i + 1;
    }
    assert(tail@.subrange(0, tail@.len() as int) =~= tail@);
}

impl TurnState {
    /// The texts of the heads-up display; `angle_text` is the accepted
    /// angle as it is shown while the velocity is typed.
    pub fn hud_items(&self, names: &[Vec<char>; 2], angle_text: &Vec<char>) -> (items: Vec<
        TextItem,
    >)
        requires
            self.input@.len() <= usize::MAX - 100,
        ensures
            items_view(items@) == spec_hud_items(*self, names[0]@, names[1]@, angle_text@),
    {
        proof {
            reveal_strlit(">Score<");
            reveal_strlit("Angle:");
            reveal_strlit("Velocity:");
            lemma_u32_decimal_len(self.scores[0]);
            lemma_u32_decimal_len(self.scores[1]);
        }
        let mut items: Vec<TextItem> = Vec::new();
        assert(items_view(items@) =~= Seq::<(int, int, Seq<char>)>::empty());
        push_item(&mut items, 1, 1, copy_chars(&names[0]));
        let right_col: usize = if names[1].len() < 78 { 79 - names[1].len() } else { 1 };
        push_item(&mut items, 1, right_col, copy_chars(&names[1]));
        let mut score = decimal_text(self.scores[0]);
        append_chars(&mut score, &str_chars(">Score<"));
        append_chars(&mut score, &decimal_text(self.scores[1]));
        let score_col = centered_col_for_len(score.len());
        push_item(&mut items, 23, score_col, score);
        let locate_col: usize = match self.current_player {
            Player::One => 1,
            Player::Two => 66,
        };
        match self.phase {
            TurnPhase::EnterAngle => {
                push_str(&mut items, 2, locate_col, "Angle:");
                push_with_cursor(&mut items, 2, locate_col + 7, &self.input);
            },
            TurnPhase::EnterVelocity => {
                push_str(&mut items, 2, locate_col, "Angle:");
                push_item(&mut items, 2, locate_col + 7, copy_chars(angle_text));
                push_str(&mut items, 3, locate_col, "Velocity:");
                push_with_cursor(&mut items, 3, locate_col + 10, &self.input);
            },
            _ => {},
        }
        items
    }

    /// Draws the heads-up display in the HUD colour.
    pub fn draw_hud(&self, canvas: &mut Canvas, names: &[Vec<char>; 2], angle_text: &Vec<char>)
        requires
            old(canvas).wf(),
            self.input@.len() <= usize::MAX - 100,
            items_fit(spec_hud_items(*self, names[0]@, names[1]@, angle_text@)),
        ensures
            final(canvas).painted_over(
                *old(canvas),
                |px: int, py: int|
                    layout_lit(spec_hud_items(*self, names[0]@, names[1]@, angle_text@), px, py),
                HUD_TEXT_ATTR,
            ),
    {
        let items = self.hud_items(names, angle_text);
        draw_items(canvas, &items, HUD_TEXT_ATTR);
    }
}

} // verus!
