//! Players, gorilla poses, banana frames and the rules of a match: whose turn
//! it is, what typed input is accepted, and how hits are scored.

use vstd::prelude::*;

use crate::audio::SoundCue;
use crate::canvas::{shade, Canvas};
use crate::palette::{BACKGROUND_ATTR, OBJECT_ATTR, SUN_ATTR};
use vstd::string::*;

verus! {

/// Width of the logical screen in pixels.
pub const LOGICAL_WIDTH: u32 = 640;
/// Height of the logical screen in pixels.
pub const LOGICAL_HEIGHT: u32 = 350;

/// Arm pose of a gorilla sprite.
#[derive(Clone, Copy, Debug, PartialEq, Eq)]
pub enum GorillaArms {
    RightUp,
    LeftUp,
    Down,
}

/// One of the two players; player one's gorilla stands on the left.
#[derive(Clone, Copy, Debug, PartialEq, Eq)]
pub enum Player {
    One,
    Two,
}

impl Player {
    /// Position of the player in two-element arrays.
    pub open spec fn spec_index(self) -> usize {
        match self {
            Player::One => 0,
            Player::Two => 1,
        }
    }

    /// The opponent.
    pub open spec fn spec_other(self) -> Player {
        match self {
            Player::One => Player::Two,
            Player::Two => Player::One,
        }
    }

    /// Position of the player in two-element arrays (0 or 1).
    pub fn index(self) -> (i: usize)
        ensures
            i == self.spec_index(),
            i < 2,
    {
        match self {
            Player::One => 0,
            Player::Two => 1,
        }
    }

    /// The opponent.
    pub fn other(self) -> (p: Player)
        ensures
            p == self.spec_other(),
            p != self,
            p.spec_other() == self,
    {
        match self {
            Player::One => Player::Two,
            Player::Two => Player::One,
        }
    }
}

/// The pose of a gorilla throwing a banana: the left arm goes up for player
/// one, the right arm for player two.
pub open spec fn spec_throwing_arm_pose(player: Player) -> GorillaArms {
    match player {
        Player::One => GorillaArms::LeftUp,
        Player::Two => GorillaArms::RightUp,
    }
}

/// The arm pose of `player`'s gorilla while it throws.
pub fn throwing_arm_pose(player: Player) -> (arms: GorillaArms)
    ensures
        arms == spec_throwing_arm_pose(player),
{
    match player {
        Player::One => GorillaArms::LeftUp,
        Player::Two => GorillaArms::RightUp,
    }
}

/// One of the four banana sprites shown in turn while it flies.
#[derive(Clone, Copy, Debug, PartialEq, Eq)]
pub enum BananaRotation {
    Left,
    Up,
    Down,
    Right,
}

impl BananaRotation {
    /// The sprite of animation frame `frame`: the four sprites repeat in the
    /// order left, up, down, right.
    pub open spec fn spec_from_frame(frame: u8) -> BananaRotation {
        if frame % 4 == 0 {
            BananaRotation::Left
        } else if frame % 4 == 1 {
            BananaRotation::Up
        } else if frame % 4 == 2 {
            BananaRotation::Down
        } else {
            BananaRotation::Right
        }
    }

    /// The banana sprite of animation frame `frame`.
    pub fn from_frame(frame: u8) -> (r: BananaRotation)
        ensures
            r == Self::spec_from_frame(frame),
    {
        match frame % 4 {
            0 => BananaRotation::Left,
            1 => BananaRotation::Up,
            2 => BananaRotation::Down,
            _ => BananaRotation::Right,
        }
    }

    /// Rows of the sprite, `#` for a lit pixel and `.` for a transparent one.
    pub open spec fn spec_sprite(self) -> Seq<Seq<char>> {
        match self {
            BananaRotation::Left => seq![
                seq!['.', '.', '#', '#', '.', '.'],
                seq!['.', '#', '#', '#', '#', '.'],
                seq!['#', '#', '#', '#', '#', '#'],
                seq!['.', '#', '#', '#', '#', '.'],
                seq!['.', '.', '#', '#', '.', '.'],
            ],
            BananaRotation::Up => seq![
                seq!['.', '.', '#', '.', '.'],
                seq!['.', '#', '#', '#', '.'],
                seq!['.', '#', '#', '#', '.'],
                seq!['#', '#', '.', '#', '#'],
                seq!['#', '.', '.', '.', '#'],
            ],
            BananaRotation::Down => seq![
                seq!['#', '.', '.', '.', '#'],
                seq!['#', '#', '.', '#', '#'],
                seq!['.', '#', '#', '#', '.'],
                seq!['.', '#', '#', '#', '.'],
                seq!['.', '.', '#', '.', '.'],
            ],
            BananaRotation::Right => seq![
                seq!['.', '.', '#', '#', '.', '.'],
                seq!['.', '#', '#', '#', '#', '.'],
                seq!['#', '#', '#', '#', '#', '#'],
                seq!['.', '#', '#', '#', '#', '.'],
                seq!['.', '.', '#', '#', '.', '.'],
            ],
        }
    }

    /// The sprite rows of this banana frame.
    pub fn sprite(self) -> (rows: &'static [&'static str])
        ensures
            rows@.len() == self.spec_sprite().len(),
            forall|i: int| 0 <= i < rows@.len() ==> (#[trigger] rows@[i])@ == self.spec_sprite()[i],
    {
        proof {
            reveal_strlit("..##..");
            reveal_strlit(".####.");
            reveal_strlit("######");
            reveal_strlit("..#..");
            reveal_strlit(".###.");
            reveal_strlit("##.##");
            reveal_strlit("#...#");
        }
        match self {
            BananaRotation::Left => &["..##..", ".####.", "######", ".####.", "..##.."],
            BananaRotation::Up => &["..#..", ".###.", ".###.", "##.##", "#...#"],
            BananaRotation::Down => &["#...#", "##.##", ".###.", ".###.", "..#.."],
            BananaRotation::Right => &["..##..", ".####.", "######", ".####.", "..##.."],
        }
    }
}

/// The screens the application moves through.
#[derive(Clone, Copy, Debug, PartialEq, Eq)]
pub enum AppScreen {
    ConfigMenu,
    Playing,
    MatchOver,
    PlayAgain,
}

/// The fields of the set-up menu, in the order they are asked for.
#[derive(Clone, Copy, Debug, PartialEq, Eq)]
pub enum ConfigField {
    PlayerOneName,
    PlayerTwoName,
    TargetScore,
    Gravity,
}

impl ConfigField {
    /// Position of the field in the menu.
    pub open spec fn spec_index(self) -> usize {
        match self {
            ConfigField::PlayerOneName => 0,
            ConfigField::PlayerTwoName => 1,
            ConfigField::TargetScore => 2,
            ConfigField::Gravity => 3,
        }
    }

    /// Position of the field in the menu (0 to 3).
    pub fn index(self) -> (i: usize)
        ensures
            i == self.spec_index(),
            i < 4,
    {
        match self {
            ConfigField::PlayerOneName => 0,
            ConfigField::PlayerTwoName => 1,
            ConfigField::TargetScore => 2,
            ConfigField::Gravity => 3,
        }
    }
}

/// What one step of the game clock produced: sound cues to play, and the
/// winner's index once the match is decided.
#[derive(Debug)]
pub struct GameUpdate {
    pub cues: Vec<SoundCue>,
    pub match_over: Option<usize>,
}

/// Stage of the current turn.
#[derive(Clone, Copy, Debug, PartialEq, Eq)]
pub enum TurnPhase {
    /// Typing the throw angle.
    EnterAngle,
    /// Typing the throw velocity.
    EnterVelocity,
    /// The thrower's arm is raised for a moment after the throw.
    ThrowingArm { player: Player },
    /// The winner of the round dances; `cycle` counts arm changes.
    VictoryDance { winner_index: usize, loser_index: usize, cycle: u8 },
    /// The banana flies (or a self-hit explodes).
    ProjectileFlying,
}

/// What an explosion destroyed.
#[derive(Clone, Copy, Debug, PartialEq, Eq)]
pub enum ExplosionKind {
    /// A building was hit.
    Building,
    /// The gorilla `gorilla_index` was hit; `winner_index` scores.
    Gorilla { gorilla_index: usize, winner_index: usize },
}

/// What the banana ran into.
#[derive(Clone, Copy, Debug, PartialEq, Eq)]
pub enum ImpactKind {
    Building,
    Gorilla(usize),
}

/// Result of probing the pixels ahead of the banana.
#[derive(Clone, Copy, Debug, PartialEq, Eq)]
pub enum CollisionProbe {
    /// Nothing hit; whether the banana is still passing the sun.
    Clear { shot_in_sun: bool },
    /// The banana passes the sun.
    Sun { shot_in_sun: bool },
    /// The banana hit something.
    Impact { kind: ImpactKind },
}

/// The facts about the banana's current position that the collision probe
/// reads: whether it is on screen and below the top edge, the two pixels it
/// probes, whether it is in the sun's band, whether it has left the sun's
/// region, and which half of the screen it is in.
#[derive(Clone, Copy, Debug, PartialEq, Eq)]
pub struct ProbeSample {
    pub on_screen: bool,
    pub above_top: bool,
    pub points: [Option<u8>; 2],
    pub in_sun_band: bool,
    pub left_sun: bool,
    pub left_half: bool,
}

/// One probed pixel: `None` to go on (with the updated sun flags), or the
/// impact it reports.
pub open spec fn probe_step(p: Option<u8>, s: ProbeSample, shot_in_sun: bool, hit_sun: bool) -> (
    Option<ImpactKind>,
    bool,
    bool,
) {
    if p is None || p == Some(BACKGROUND_ATTR) {
        (None, if shot_in_sun && s.left_sun { false } else { shot_in_sun }, hit_sun)
    } else if p == Some(SUN_ATTR) && s.in_sun_band {
        (None, true, true)
    } else if p == Some(OBJECT_ATTR) {
        (Some(ImpactKind::Gorilla(if s.left_half { 0 } else { 1 })), shot_in_sun, hit_sun)
    } else {
        (Some(ImpactKind::Building), shot_in_sun, hit_sun)
    }
}

/// The collision verdict for a probe: the first probed pixel that is neither
/// sky nor sun decides the impact (a gorilla pixel hits the gorilla on that
/// half of the screen, anything else is a building); sun pixels in the sun's
/// band mark the shot as passing the sun.
pub open spec fn spec_probe(s: ProbeSample, shot_in_sun: bool) -> CollisionProbe {
    if !s.on_screen || s.above_top {
        CollisionProbe::Clear { shot_in_sun }
    } else {
        let (k0, sis0, hit0) = probe_step(s.points[0], s, shot_in_sun, false);
        match k0 {
            Some(kind) => CollisionProbe::Impact { kind },
            None => {
                let (k1, sis1, hit1) = probe_step(s.points[1], s, sis0, hit0);
                match k1 {
                    Some(kind) => CollisionProbe::Impact { kind },
                    None => if hit1 {
                        CollisionProbe::Sun { shot_in_sun: sis1 }
                    } else {
                        CollisionProbe::Clear { shot_in_sun: sis1 }
                    },
                }
            },
        }
    }
}

fn same_attr(p: Option<u8>, attr: u8) -> (r: bool)
    ensures
        r == (p == Some(attr)),
{
    match p {
        Some(a) => a == attr,
        None => false,
    }
}

fn probe_point(p: Option<u8>, s: ProbeSample, shot_in_sun: bool, hit_sun: bool) -> (r: (
    Option<ImpactKind>,
    bool,
    bool,
))
    ensures
        r == probe_step(p, s, shot_in_sun, hit_sun),
{
    if p.is_none() || same_attr(p, BACKGROUND_ATTR) {
        (None, if shot_in_sun && s.left_sun { false } else { shot_in_sun }, hit_sun)
    } else if same_attr(p, SUN_ATTR) && s.in_sun_band {
        (None, true, true)
    } else if same_attr(p, OBJECT_ATTR) {
        (Some(ImpactKind::Gorilla(if s.left_half { 0 } else { 1 })), shot_in_sun, hit_sun)
    } else {
        (Some(ImpactKind::Building), shot_in_sun, hit_sun)
    }
}

/// A probed pixel of the sky: nothing drawn there, or the background colour.
pub open spec fn is_sky_pixel(p: Option<u8>) -> bool {
    p is None || p == Some(BACKGROUND_ATTR)
}

/// A probed pixel the banana flies through: sky, or the sun while the banana
/// is in the sun's band.
pub open spec fn passable_pixel(p: Option<u8>, in_sun_band: bool) -> bool {
    is_sky_pixel(p) || (p == Some(SUN_ATTR) && in_sun_band)
}

/// What the banana hits at a pixel it cannot fly through: a gorilla pixel
/// hits the gorilla on that half of the screen (the left one is gorilla 0),
/// any other colour is a building.
pub open spec fn impact_at_pixel(p: Option<u8>, left_half: bool) -> ImpactKind {
    if p == Some(OBJECT_ATTR) {
        ImpactKind::Gorilla(if left_half { 0 } else { 1 })
    } else {
        ImpactKind::Building
    }
}

/// Whether a verdict counts the banana as passing the sun (an impact does not).
pub open spec fn probe_passes_sun(p: CollisionProbe) -> bool {
    match p {
        CollisionProbe::Clear { shot_in_sun } => shot_in_sun,
        CollisionProbe::Sun { shot_in_sun } => shot_in_sun,
        CollisionProbe::Impact { .. } => false,
    }
}

/// The first of the two probed pixels, in order, that the banana cannot fly
/// through decides the impact; a building or gorilla pixel at either point is
/// never passed as clear sky or sun. With both pixels passable the probe
/// reports the sun exactly when one of them is the sun in its band, and the
/// banana still counts as passing the sun when the second pixel is the sun,
/// or when it has not left the sun's region and either already counted or
/// touched the sun at the first pixel. Off screen or above the top edge
/// nothing is probed.
pub proof fn lemma_probe_first_solid_pixel_decides(s: ProbeSample, shot_in_sun: bool)
    ensures
        !s.on_screen || s.above_top ==> spec_probe(s, shot_in_sun) == (CollisionProbe::Clear {
            shot_in_sun,
        }),
        s.on_screen && !s.above_top && !passable_pixel(s.points[0], s.in_sun_band) ==> spec_probe(
            s,
            shot_in_sun,
        ) == (CollisionProbe::Impact { kind: impact_at_pixel(s.points[0], s.left_half) }),
        s.on_screen && !s.above_top && passable_pixel(s.points[0], s.in_sun_band)
            && !passable_pixel(s.points[1], s.in_sun_band) ==> spec_probe(s, shot_in_sun) == (
        CollisionProbe::Impact { kind: impact_at_pixel(s.points[1], s.left_half) }),
        s.on_screen && !s.above_top && passable_pixel(s.points[0], s.in_sun_band) && passable_pixel(
            s.points[1],
            s.in_sun_band,
        ) ==> (spec_probe(s, shot_in_sun) is Sun <==> (!is_sky_pixel(s.points[0]) || !is_sky_pixel(
            s.points[1],
        ))) && !(spec_probe(s, shot_in_sun) is Impact) && probe_passes_sun(spec_probe(s, shot_in_sun))
            == if !is_sky_pixel(s.points[1]) {
            true
        } else if s.left_sun {
            false
        } else {
            shot_in_sun || !is_sky_pixel(s.points[0])
        },
{
}

/// Classifies what the banana touches at the probed position: the probe
/// looks at its two pixels in order.
pub fn probe_projectile_collision(sample: ProbeSample, shot_in_sun: bool) -> (probe: CollisionProbe)
    ensures
        probe == spec_probe(sample, shot_in_sun),
        sample.on_screen && !sample.above_top && !passable_pixel(sample.points[0], sample.in_sun_band)
            ==> probe == (CollisionProbe::Impact {
            kind: impact_at_pixel(sample.points[0], sample.left_half),
        }),
        sample.on_screen && !sample.above_top && passable_pixel(sample.points[0], sample.in_sun_band)
            && !passable_pixel(sample.points[1], sample.in_sun_band) ==> probe == (
        CollisionProbe::Impact { kind: impact_at_pixel(sample.points[1], sample.left_half) }),
{
    proof {
        lemma_probe_first_solid_pixel_decides(sample, shot_in_sun);
    }
    if !sample.on_screen || sample.above_top {
        return CollisionProbe::Clear { shot_in_sun };
    }
    let (first, sis0, hit0) = probe_point(sample.points[0], sample, shot_in_sun, false);
    if let Some(kind) = first {
        return CollisionProbe::Impact { kind };
    }
    let (second, sis1, hit1) = probe_point(sample.points[1], sample, sis0, hit0);
    if let Some(kind) = second {
        return CollisionProbe::Impact { kind };
    }
    if hit1 {
        CollisionProbe::Sun { shot_in_sun: sis1 }
    } else {
        CollisionProbe::Clear { shot_in_sun: sis1 }
    }
}

/// A typed angle or velocity character: a digit or the decimal point.
pub open spec fn is_numeric_char(c: char) -> bool {
    ('0' <= c && c <= '9') || c == '.'
}

/// `s` is a typed number: digits and decimal points only, at most one point.
pub open spec fn numeric_text(s: Seq<char>) -> bool {
    &&& forall|i: int| 0 <= i < s.len() ==> is_numeric_char(#[trigger] s[i])
    &&& forall|i: int, j: int| 0 <= i < j < s.len() ==> !(s[i] == '.' && s[j] == '.')
}

/// The typed number after the key `ch`: a digit is appended, and so is a
/// decimal point unless the number already has one; other keys are ignored.
pub open spec fn typed_number(input: Seq<char>, ch: char) -> Seq<char> {
    if is_numeric_char(ch) && !(ch == '.' && input.contains('.')) {
        input.push(ch)
    } else {
        input
    }
}

/// Typing keeps the angle or velocity a well-formed number: whatever keys
/// are pressed, only digits and a single decimal point are ever held.
pub proof fn lemma_typing_keeps_number_numeric(input: Seq<char>, ch: char)
    requires
        numeric_text(input),
    ensures
        numeric_text(typed_number(input, ch)),
        numeric_text(if input.len() > 0 { input.drop_last() } else { input }),
{
    let t = typed_number(input, ch);
    if is_numeric_char(ch) && !(ch == '.' && input.contains('.')) {
        assert(forall|i: int| 0 <= i < input.len() ==> t[i] == input[i]);
        if ch == '.' {
            assert forall|i: int, j: int| 0 <= i < j < t.len() implies !(t[i] == '.' && t[j] == '.') by {
                if j == input.len() && t[i] == '.' {
                    assert(input[i] == '.');
                    assert(input.contains('.'));
                }
            }
        }
    }
    if input.len() > 0 {
        let d = input.drop_last();
        assert(forall|i: int| 0 <= i < d.len() ==> d[i] == input[i]);
    }
}

/// Who scores for a gorilla hit by a banana of `thrower`: the thrower, or
/// the opponent when the thrower hit its own gorilla.
pub open spec fn hit_winner(hit: usize, thrower: Player) -> usize {
    if hit == thrower.spec_index() {
        thrower.spec_other().spec_index()
    } else {
        thrower.spec_index()
    }
}

/// Facts about the typed number that decide a submission; they come from
/// the number's floating-point value: above a full turn (360 degrees), and
/// below the minimum throw velocity (2).
#[derive(Clone, Copy, Debug, PartialEq, Eq)]
pub struct ParsedInput {
    pub above_full_turn: bool,
    pub below_min_velocity: bool,
}

/// What a submission did.
#[derive(Clone, Copy, Debug, PartialEq, Eq)]
pub enum SubmitOutcome {
    /// Nothing happened: no number is being typed.
    Ignored,
    /// The angle was more than a full turn; it has to be typed again.
    AngleRejected,
    /// The angle was taken; the velocity is asked for next.
    AngleAccepted,
    /// The velocity was more than 360; it has to be typed again.
    VelocityRejected,
    /// The velocity was too small: the thrower's own gorilla explodes.
    SlowShot,
    /// The banana was thrown by `player`.
    Launched { player: Player },
}

/// A submission's outcome and the sound cues it triggers.
#[derive(Debug)]
pub struct Submission {
    pub outcome: SubmitOutcome,
    pub cues: Vec<SoundCue>,
}

/// Which part of the game clock advances in an update.
#[derive(Clone, Copy, Debug, PartialEq, Eq)]
pub enum UpdateStep {
    /// An explosion is running.
    Explosion,
    /// The winner dances.
    VictoryDance,
    /// Nothing moves.
    Idle,
    /// The banana flies.
    Projectile,
}

/// The rules state of a match: whose turn it is, the scores, the stage of
/// the turn, the number being typed, and whether a banana or an explosion is
/// on screen.
pub struct TurnState {
    pub current_player: Player,
    pub scores: [u32; 2],
    pub target_score: u32,
    pub phase: TurnPhase,
    pub input: Vec<char>,
    pub projectile_active: bool,
    pub explosion: Option<ExplosionKind>,
    pub sun_shocked: bool,
}

impl TurnState {
    /// No key is taken while a banana flies or an explosion runs.
    pub open spec fn input_blocked(self) -> bool {
        self.projectile_active || self.explosion is Some
    }

    /// The turn is waiting for a typed number.
    pub open spec fn takes_input(self) -> bool {
        self.phase is EnterAngle || self.phase is EnterVelocity
    }

    /// Everything but the typed input and the phase agrees.
    pub open spec fn same_outside_turn(self, other: TurnState) -> bool {
        &&& self.current_player == other.current_player
        &&& self.scores == other.scores
        &&& self.target_score == other.target_score
        &&& self.projectile_active == other.projectile_active
        &&& self.explosion == other.explosion
        &&& self.sun_shocked == other.sun_shocked
    }

    /// Every field agrees (the input by content).
    pub open spec fn same_as(self, other: TurnState) -> bool {
        &&& self.same_outside_turn(other)
        &&& self.phase == other.phase
        &&& self.input@ == other.input@
    }

    /// The state after the turn passes: the other player types an angle,
    /// the sun smiles again and no banana is in the air.
    pub open spec fn turn_passed(self, old: TurnState) -> bool {
        &&& self.current_player == old.current_player.spec_other()
        &&& self.scores == old.scores
        &&& self.target_score == old.target_score
        &&& !self.projectile_active
        &&& self.explosion == old.explosion
        &&& !self.sun_shocked
        &&& self.phase == TurnPhase::EnterAngle
        &&& self.input@.len() == 0
    }

    /// A fresh match: player one types an angle, nobody has scored, and the
    /// match is played to three points.
    pub fn new() -> (t: TurnState)
        ensures
            t.current_player == Player::One,
            t.scores == [0u32, 0u32],
            t.target_score == 3,
            t.phase == TurnPhase::EnterAngle,
            t.input@.len() == 0,
            !t.projectile_active,
            t.explosion is None,
            !t.sun_shocked,
    {
        TurnState {
            current_player: Player::One,
            scores: [0, 0],
            target_score: 3,
            phase: TurnPhase::EnterAngle,
            input: Vec::new(),
            projectile_active: false,
            explosion: None,
            sun_shocked: false,
        }
    }

    /// Whether the turn waits for a typed angle or velocity.
    pub fn is_taking_input(&self) -> (b: bool)
        ensures
            b == self.takes_input(),
    {
        match self.phase {
            TurnPhase::EnterAngle | TurnPhase::EnterVelocity => true,
            _ => false,
        }
    }

    /// Whether a banana is flying or an explosion is running.
    pub fn is_input_blocked(&self) -> (b: bool)
        ensures
            b == self.input_blocked(),
    {
        self.projectile_active || self.explosion.is_some()
    }

    fn input_has_point(&self) -> (b: bool)
        ensures
            b == self.input@.contains('.'),
    {
        let mut i: usize = 0;
        while i < self.input.len()
            invariant
                i <= self.input@.len(),
                forall|j: int| 0 <= j < i ==> self.input@[j] != '.',
            decreases self.input@.len() - i,
        {
            if self.input[i] == '.' {
                return true;
            }
            i = i + 1;
        }
        false
    }

    /// Types `ch` into the angle or velocity being entered: only digits and
    /// a single decimal point are taken; keys are ignored while a banana
    /// flies or an explosion runs, and whenever no number is being asked for.
    pub fn handle_char(&mut self, ch: char)
        ensures
            final(self).same_outside_turn(*old(self)),
            final(self).phase == old(self).phase,
            final(self).input@ == if !old(self).input_blocked() && old(self).takes_input() {
                typed_number(old(self).input@, ch)
            } else {
                old(self).input@
            },
    {
        if self.is_input_blocked() || !self.is_taking_input() {
            return;
        }
        if !(('0' <= ch && ch <= '9') || ch == '.') {
            return;
        }
        if ch == '.' && self.input_has_point() {
            return;
        }
        self.input.push(ch);
    }

    /// Deletes the last typed character; nothing happens while a banana
    /// flies or an explosion runs, or when no number is being asked for.
    pub fn handle_backspace(&mut self)
        ensures
            final(self).same_outside_turn(*old(self)),
            final(self).phase == old(self).phase,
            final(self).input@ == if !old(self).input_blocked() && old(self).takes_input()
                && old(self).input@.len() > 0 {
                old(self).input@.drop_last()
            } else {
                old(self).input@
            },
    {
        if self.is_input_blocked() || !self.is_taking_input() {
            return;
        }
        self.input.pop();
    }

    /// Submits the typed number. An angle beyond a full turn is asked for
    /// again; an accepted angle moves on to the velocity. A velocity below
    /// the minimum blows up the thrower's own gorilla; any other velocity
    /// throws the banana and plays the throw sound.
    pub fn handle_submit(&mut self, parsed: ParsedInput) -> (s: Submission)
        ensures
            old(self).input_blocked() || !old(self).takes_input() ==> final(self).same_as(*old(self))
                && s.outcome == SubmitOutcome::Ignored && s.cues@.len() == 0,
            !old(self).input_blocked() && old(self).phase == TurnPhase::EnterAngle ==> {
                &&& final(self).same_outside_turn(*old(self))
                &&& final(self).input@.len() == 0
                &&& s.cues@.len() == 0
                &&& if parsed.above_full_turn {
                    s.outcome == SubmitOutcome::AngleRejected && final(self).phase
                        == TurnPhase::EnterAngle
                } else {
                    s.outcome == SubmitOutcome::AngleAccepted && final(self).phase
                        == TurnPhase::EnterVelocity
                }
            },
            !old(self).input_blocked() && old(self).phase == TurnPhase::EnterVelocity
                && parsed.above_full_turn ==> {
                &&& final(self).same_outside_turn(*old(self))
                &&& final(self).phase == TurnPhase::EnterVelocity
                &&& final(self).input@.len() == 0
                &&& s.outcome == SubmitOutcome::VelocityRejected
                &&& s.cues@.len() == 0
            },
            !old(self).input_blocked() && old(self).phase == TurnPhase::EnterVelocity
                && !parsed.above_full_turn && parsed.below_min_velocity ==> {
                &&& s.outcome == SubmitOutcome::SlowShot
                &&& s.cues@.len() == 0
                &&& final(self).phase == TurnPhase::ProjectileFlying
                &&& final(self).explosion == Some(
                    ExplosionKind::Gorilla {
                        gorilla_index: old(self).current_player.spec_index(),
                        winner_index: old(self).current_player.spec_other().spec_index(),
                    },
                )
                &&& final(self).current_player == old(self).current_player
                &&& final(self).scores == old(self).scores
                &&& final(self).target_score == old(self).target_score
                &&& final(self).projectile_active == old(self).projectile_active
                &&& final(self).sun_shocked == old(self).sun_shocked
            },
            !old(self).input_blocked() && old(self).phase == TurnPhase::EnterVelocity
                && !parsed.above_full_turn && !parsed.below_min_velocity ==> {
                &&& s.outcome == SubmitOutcome::Launched { player: old(self).current_player }
                &&& s.cues@ == seq![SoundCue::Throw]
                &&& final(self).phase == TurnPhase::ThrowingArm {
                    player: old(self).current_player,
                }
                &&& final(self).projectile_active
                &&& final(self).current_player == old(self).current_player
                &&& final(self).scores == old(self).scores
                &&& final(self).target_score == old(self).target_score
                &&& final(self).explosion == old(self).explosion
                &&& final(self).sun_shocked == old(self).sun_shocked
            },
    {
        let mut cues: Vec<SoundCue> = Vec::new();
        if self.is_input_blocked() {
            return Submission { outcome: SubmitOutcome::Ignored, cues };
        }
        match self.phase {
            TurnPhase::EnterAngle => {
                self.input = Vec::new();
                if parsed.above_full_turn {
                    return Submission { outcome: SubmitOutcome::AngleRejected, cues };
                }
                self.phase = TurnPhase::EnterVelocity;
                Submission { outcome: SubmitOutcome::AngleAccepted, cues }
            },
            TurnPhase::EnterVelocity => {
                let player = self.current_player;
                if parsed.above_full_turn {
                    self.input = Vec::new();
                    return Submission { outcome: SubmitOutcome::VelocityRejected, cues };
                }
                if parsed.below_min_velocity {
                    self.explosion = Some(
                        ExplosionKind::Gorilla {
                            gorilla_index: player.index(),
                            winner_index: player.other().index(),
                        },
                    );
                    self.phase = TurnPhase::ProjectileFlying;
                    return Submission { outcome: SubmitOutcome::SlowShot, cues };
                }
                self.projectile_active = true;
                self.phase = TurnPhase::ThrowingArm { player };
                cues.push(SoundCue::Throw);
                Submission { outcome: SubmitOutcome::Launched { player }, cues }
            },
            _ => Submission { outcome: SubmitOutcome::Ignored, cues },
        }
    }

    /// Which part of the game clock runs: a running explosion first, then a
    /// victory dance, then the flying banana.
    pub fn update_step(&self) -> (step: UpdateStep)
        ensures
            step == if self.explosion is Some {
                UpdateStep::Explosion
            } else if self.phase is VictoryDance {
                UpdateStep::VictoryDance
            } else if !self.projectile_active {
                UpdateStep::Idle
            } else {
                UpdateStep::Projectile
            },
    {
        if self.explosion.is_some() {
            UpdateStep::Explosion
        } else if let TurnPhase::VictoryDance { .. } = self.phase {
            UpdateStep::VictoryDance
        } else if !self.projectile_active {
            UpdateStep::Idle
        } else {
            UpdateStep::Projectile
        }
    }

    /// Passes the turn to the other player, who types a new angle.
    pub fn advance_turn(&mut self)
        ensures
            final(self).turn_passed(*old(self)),
    {
        self.current_player = self.current_player.other();
        self.sun_shocked = false;
        self.projectile_active = false;
        self.phase = TurnPhase::EnterAngle;
        self.input = Vec::new();
    }

    /// Checks the flying banana's position: a banana that has left the
    /// screen ends the flight and passes the turn; returns whether the banana
    /// is still in flight.
    pub fn track_flight(&mut self, on_screen: bool) -> (flying: bool)
        ensures
            flying == on_screen,
            on_screen ==> final(self).same_as(*old(self)),
            !on_screen ==> final(self).turn_passed(*old(self)),
    {
        if !on_screen {
            self.advance_turn();
            return false;
        }
        true
    }

    /// Ends a finished explosion. A building explosion passes the turn. A
    /// gorilla explosion gives the winner a point; once the winner reaches
    /// the target score the match is over, otherwise the turn passes and the
    /// winner dances to the victory melody.
    pub fn finish_explosion(&mut self) -> (update: GameUpdate)
        requires
            old(self).explosion is Some,
            old(self).explosion matches Some(ExplosionKind::Gorilla { winner_index, .. }) ==> (
            winner_index < 2 && old(self).scores[winner_index as int] < u32::MAX),
        ensures
            final(self).explosion is None,
            !final(self).sun_shocked,
            final(self).target_score == old(self).target_score,
            old(self).explosion == Some(ExplosionKind::Building) ==> {
                &&& final(self).current_player == old(self).current_player.spec_other()
                &&& final(self).scores == old(self).scores
                &&& !final(self).projectile_active
                &&& final(self).phase == TurnPhase::EnterAngle
                &&& final(self).input@.len() == 0
                &&& update.cues@.len() == 0
                &&& update.match_over is None
            },
            old(self).explosion matches Some(
                ExplosionKind::Gorilla { gorilla_index, winner_index },
            ) ==> {
                &&& final(self).scores[winner_index as int] == old(self).scores[winner_index as int]
                    + 1
                &&& final(self).scores[1 - winner_index] == old(self).scores[1 - winner_index]
                &&& final(self).projectile_active == old(self).projectile_active
                &&& final(self).input@ == old(self).input@
                &&& if old(self).scores[winner_index as int] + 1 >= old(self).target_score {
                    &&& update.match_over == Some(winner_index)
                    &&& update.cues@.len() == 0
                    &&& final(self).current_player == old(self).current_player
                    &&& final(self).phase == old(self).phase
                } else {
                    &&& update.match_over is None
                    &&& update.cues@ == seq![SoundCue::VictoryDance]
                    &&& final(self).current_player == old(self).current_player.spec_other()
                    &&& final(self).phase == TurnPhase::VictoryDance {
                        winner_index,
                        loser_index: gorilla_index,
                        cycle: 0,
                    }
                }
            },
    {
        let mut cues: Vec<SoundCue> = Vec::new();
        let explosion = self.explosion.unwrap();
        self.explosion = None;
        self.sun_shocked = false;
        match explosion {
            ExplosionKind::Building => {
                self.advance_turn();
                GameUpdate { cues, match_over: None }
            },
            ExplosionKind::Gorilla { gorilla_index, winner_index } => {
                let s0 = self.scores[0];
                let s1 = self.scores[1];
                let won = if winner_index == 0 {
                    self.scores = [s0 + 1, s1];
                    s0 + 1
                } else {
                    self.scores = [s0, s1 + 1];
                    s1 + 1
                };
                if won >= self.target_score {
                    return GameUpdate { cues, match_over: Some(winner_index) };
                }
                self.current_player = self.current_player.other();
                self.phase = TurnPhase::VictoryDance {
                    winner_index,
                    loser_index: gorilla_index,
                    cycle: 0,
                };
                cues.push(SoundCue::VictoryDance);
                GameUpdate { cues, match_over: None }
            },
        }
    }

    /// Advances the victory dance by one arm change when its interval has
    /// elapsed. After eight changes the dance is over and a new round starts
    /// with an angle prompt; returns whether it is over.
    pub fn advance_victory_dance(&mut self, interval_elapsed: bool) -> (done: bool)
        requires
            old(self).phase is VictoryDance,
            interval_elapsed ==> old(self).phase->cycle < u8::MAX,
        ensures
            final(self).same_outside_turn(*old(self)),
            ({
                let cycle = old(self).phase->cycle + if interval_elapsed { 1int } else { 0 };
                &&& done == (cycle >= 8)
                &&& done ==> final(self).phase == TurnPhase::EnterAngle && final(self).input@.len() == 0
                &&& !done ==> final(self).input@ == old(self).input@ && final(self).phase
                    == TurnPhase::VictoryDance {
                    winner_index: old(self).phase->winner_index,
                    loser_index: old(self).phase->loser_index,
                    cycle: cycle as u8,
                }
            }),
    {
        if let TurnPhase::VictoryDance { winner_index, loser_index, cycle } = self.phase {
            let cycle = if interval_elapsed { cycle + 1 } else { cycle };
            if cycle >= 8 {
                self.phase = TurnPhase::EnterAngle;
                self.input = Vec::new();
                true
            } else {
                self.phase = TurnPhase::VictoryDance { winner_index, loser_index, cycle };
                false
            }
        } else {
            false
        }
    }

    /// Ends the throwing pose: the banana is now simply flying.
    pub fn end_throwing_arm(&mut self)
        ensures
            final(self).same_outside_turn(*old(self)),
            final(self).input@ == old(self).input@,
            final(self).phase == if old(self).phase is ThrowingArm {
                TurnPhase::ProjectileFlying
            } else {
                old(self).phase
            },
    {
        if let TurnPhase::ThrowingArm { .. } = self.phase {
            self.phase = TurnPhase::ProjectileFlying;
        }
    }

    /// Applies a collision verdict for a banana thrown by `thrower`: passing
    /// the sun shocks it; an impact ends the flight and starts a building or
    /// gorilla explosion with its sound. A hit on the thrower's own gorilla
    /// scores for the opponent.
    pub fn apply_probe(&mut self, probe: CollisionProbe, thrower: Player) -> (cues: Vec<SoundCue>)
        ensures
            final(self).current_player == old(self).current_player,
            final(self).scores == old(self).scores,
            final(self).target_score == old(self).target_score,
            final(self).phase == old(self).phase,
            final(self).input@ == old(self).input@,
            probe is Clear ==> final(self).same_as(*old(self)) && cues@.len() == 0,
            probe is Sun ==> {
                &&& final(self).sun_shocked
                &&& final(self).projectile_active == old(self).projectile_active
                &&& final(self).explosion == old(self).explosion
                &&& cues@.len() == 0
            },
            probe == (CollisionProbe::Impact { kind: ImpactKind::Building }) ==> {
                &&& !final(self).projectile_active
                &&& !final(self).sun_shocked
                &&& final(self).explosion == Some(ExplosionKind::Building)
                &&& cues@ == seq![SoundCue::BuildingExplosion]
            },
            probe matches CollisionProbe::Impact { kind: ImpactKind::Gorilla(hit) } ==> {
                &&& !final(self).projectile_active
                &&& !final(self).sun_shocked
                &&& final(self).explosion == Some(
                    ExplosionKind::Gorilla { gorilla_index: hit, winner_index: hit_winner(hit, thrower) },
                )
                &&& cues@ == seq![SoundCue::GorillaExplosion]
            },
    {
        let mut cues: Vec<SoundCue> = Vec::new();
        match probe {
            CollisionProbe::Clear { .. } => {},
            CollisionProbe::Sun { .. } => {
                self.sun_shocked = true;
            },
            CollisionProbe::Impact { kind } => {
                self.projectile_active = false;
                match kind {
                    ImpactKind::Building => {
                        cues.push(SoundCue::BuildingExplosion);
                        self.explosion = Some(ExplosionKind::Building);
                    },
                    ImpactKind::Gorilla(hit) => {
                        cues.push(SoundCue::GorillaExplosion);
                        let winner = if hit == thrower.index() {
                            thrower.other().index()
                        } else {
                            thrower.index()
                        };
                        self.explosion = Some(
                            ExplosionKind::Gorilla { gorilla_index: hit, winner_index: winner },
                        );
                    },
                }
                self.sun_shocked = false;
            },
        }
        cues
    }

    /// The pose in which gorilla `index` is drawn, or `None` when it is not
    /// drawn: blown up by the running explosion, or the loser of the round
    /// during the victory dance. The thrower raises its throwing arm, the
    /// dancing winner alternates arms, and everyone else keeps arms down.
    pub fn gorilla_pose(&self, index: usize) -> (arms: Option<GorillaArms>)
        ensures
            arms == if self.explosion matches Some(ExplosionKind::Gorilla { gorilla_index, .. })
                && gorilla_index == index {
                None
            } else if self.phase is VictoryDance && self.phase->loser_index == index {
                None
            } else if self.phase is ThrowingArm && self.phase->player.spec_index() == index {
                Some(spec_throwing_arm_pose(self.phase->player))
            } else if self.phase is VictoryDance && self.phase->winner_index == index {
                Some(
                    if self.phase->cycle % 2 == 0 {
                        GorillaArms::LeftUp
                    } else {
                        GorillaArms::RightUp
                    },
                )
            } else {
                Some(GorillaArms::Down)
            },
    {
        if let Some(ExplosionKind::Gorilla { gorilla_index, .. }) = self.explosion {
            if gorilla_index == index {
                return None;
            }
        }
        match self.phase {
            TurnPhase::VictoryDance { winner_index, loser_index, cycle } => {
                if loser_index == index {
                    None
                } else if winner_index == index {
                    Some(if cycle % 2 == 0 { GorillaArms::LeftUp } else { GorillaArms::RightUp })
                } else {
                    Some(GorillaArms::Down)
                }
            },
            TurnPhase::ThrowingArm { player } => {
                if player.index() == index {
                    Some(throwing_arm_pose(player))
                } else {
                    Some(GorillaArms::Down)
                }
            },
            _ => Some(GorillaArms::Down),
        }
    }
}

/// Text column of the angle and velocity prompts: the left edge for player
/// one, column 66 for player two.
pub fn prompt_col(player: Player) -> (col: usize)
    ensures
        col == (if player == Player::One { 1usize } else { 66usize }),
{
    match player {
        Player::One => 1,
        Player::Two => 66,
    }
}

/// The banana sprite `rotation` lights the pixel at offset `(dx, dy)` from
/// its top-left corner.
pub open spec fn banana_pixel(rotation: BananaRotation, dx: int, dy: int) -> bool {
    let rows = rotation.spec_sprite();
    &&& 0 <= dy < rows.len()
    &&& 0 <= dx < rows[dy].len()
    &&& rows[dy][dx] == '#'
}

/// Draws the banana sprite `rotation` in the gorilla colour with its top-left
/// corner at `(x, y)`.
pub fn draw_banana(canvas: &mut Canvas, x: i32, y: i32, rotation: BananaRotation)
    requires
        old(canvas).wf(),
        x <= i32::MAX - 6,
        y <= i32::MAX - 5,
    ensures
        final(canvas).painted_over(
            *old(canvas),
            |px: int, py: int| banana_pixel(rotation, px - x, py - y),
            OBJECT_ATTR,
        ),
{
    let rows = rotation.sprite();
    let ghost start = *canvas;
    let ghost sprite = rotation.spec_sprite();
    proof {
        assert(sprite.len() == 5);
        assert(forall|r: int| 0 <= r < 5 ==> (#[trigger] sprite[r]).len() <= 6);
    }
    let mut row: usize = 0;
    while row < rows.len()
        invariant
            row <= rows@.len(),
            rows@.len() == sprite.len(),
            sprite == rotation.spec_sprite(),
            sprite.len() == 5,
            forall|r: int| 0 <= r < 5 ==> (#[trigger] sprite[r]).len() <= 6,
            forall|i: int| 0 <= i < rows@.len() ==> (#[trigger] rows@[i])@ == sprite[i],
            x <= i32::MAX - 6,
            y <= i32::MAX - 5,
            canvas.painted_over(
                start,
                |px: int, py: int| banana_pixel(rotation, px - x, py - y) && py - y < row,
                OBJECT_ATTR,
            ),
        decreases rows@.len() - row,
    {
        let line = rows[row];
        let len = line.unicode_len();
        let mut col: usize = 0;
        while col < len
            invariant
                row < rows@.len(),
                col <= len,
                len == line@.len(),
                line@ == sprite[row as int],
                rows@.len() == sprite.len(),
                sprite == rotation.spec_sprite(),
                sprite.len() == 5,
                forall|r: int| 0 <= r < 5 ==> (#[trigger] sprite[r]).len() <= 6,
                x <= i32::MAX - 6,
                y <= i32::MAX - 5,
                canvas.painted_over(
                    start,
                    |px: int, py: int|
                        banana_pixel(rotation, px - x, py - y) && (py - y < row || (py - y == row
                            && px - x < col)),
                    OBJECT_ATTR,
                ),
            decreases len - col,
        {
            let ghost before = *canvas;
            if line.get_char(col) == '#' {
                canvas.pixel(x + col as i32, y + row as i32, OBJECT_ATTR);
            }
            proof {
                assert forall|px: int, py: int| #![trigger canvas.at(px, py)] canvas.in_bounds(px, py)
                    implies canvas.at(px, py) == shade(banana_pixel(rotation, px - x, py - y) && (py - y < row || (py - y == row && px - x < col + 1)), OBJECT_ATTR, start.at(px, py)) by {
                    assert(before.at(px, py) == shade(banana_pixel(rotation, px - x, py - y) && (py - y < row || (py - y == row && px - x < col)), OBJECT_ATTR, start.at(px, py)));
                }
            }
            col = col + 1;
        }
        proof {
            assert forall|px: int, py: int| #![trigger canvas.at(px, py)] canvas.in_bounds(px, py)
                implies canvas.at(px, py) == shade(banana_pixel(rotation, px - x, py - y) && py - y < row + 1, OBJECT_ATTR, start.at(px, py)) by {
                assert(canvas.at(px, py) == shade(banana_pixel(rotation, px - x, py - y) && (py - y < row || (py - y == row && px - x < len)), OBJECT_ATTR, start.at(px, py)));
            }
        }
        row = row + 1;
    }
}

} // verus!
