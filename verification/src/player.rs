//! The player: a pose, two intents and two speeds.

use vstd::prelude::*;
use crate::game::{lemma_extent_bounds, Game, GridView};
use crate::geometry::{normalize_angle, normalized, FULL_TURN, QUARTER_TURN};
use crate::trig::{cosine, scale, scaled, sine, TrigTable};
use crate::window::{MINIMAP_SCALING, SUBUNITS};

verus! {

/// Which way the player means to turn.
#[derive(Clone, Copy, Debug, PartialEq, Eq, Structural)]
pub enum TurnDirection {
    Neutral,
    Left,
    Right,
}

/// Which way the player means to walk.
#[derive(Clone, Copy, Debug, PartialEq, Eq, Structural)]
pub enum WalkDirection {
    Neutral,
    Forward,
    Backward,
}

/// The player's state. Positions and sizes are in sub-units, the angle in
/// millidegrees, the walking speed in world units per second and the turning
/// speed in millidegrees per second.
#[derive(Clone, Copy, Debug, PartialEq, Eq, Structural)]
pub struct Player {
    pub x: i64,
    pub y: i64,
    pub width: i64,
    pub height: i64,
    pub turn_direction: TurnDirection,
    pub walk_direction: WalkDirection,
    pub rotation_angle: i64,
    pub walk_speed: u32,
    pub turn_speed: u32,
    /// Scale at which the minimap shows the player, in thousandths.
    pub minimap_scale: u32,
}

/// The player at rest in the middle of the default window, facing down the screen.
pub open spec fn default_player() -> Player {
    Player {
        x: 393_216,
        y: 294_912,
        width: SUBUNITS,
        height: SUBUNITS,
        turn_direction: TurnDirection::Neutral,
        walk_direction: WalkDirection::Neutral,
        rotation_angle: QUARTER_TURN,
        walk_speed: 100,
        turn_speed: 45_000,
        minimap_scale: MINIMAP_SCALING,
    }
}

impl Default for Player {
    fn default() -> (player: Player)
        ensures
            player == default_player(),
    {
        Player {
            x: (crate::window::calculate_width() as i64 / 2) * SUBUNITS,
            y: (crate::window::calculate_height() as i64 / 2) * SUBUNITS,
            width: SUBUNITS,
            height: SUBUNITS,
            turn_direction: TurnDirection::Neutral,
            walk_direction: WalkDirection::Neutral,
            rotation_angle: QUARTER_TURN,
            walk_speed: 100,
            turn_speed: 45_000,
            minimap_scale: MINIMAP_SCALING,
        }
    }
}

/// What `str::to_lowercase` returns for a string of the given characters.
pub uninterp spec fn lowercase_of(s: Seq<char>) -> Seq<char>;

/// `str::to_lowercase`: the result is the lowercase form that the standard
/// library defines for the string's characters, and depends on nothing else.
pub assume_specification[ str::to_lowercase ](s: &str) -> (r: String)
    ensures
        r@ == lowercase_of(s@),
;

/// The walk intent that a lowercase word names, if it names one.
pub open spec fn walk_direction_named(word: Seq<char>) -> Option<WalkDirection> {
    if word == "neutral"@ {
        Some(WalkDirection::Neutral)
    } else if word == "forward"@ {
        Some(WalkDirection::Forward)
    } else if word == "backward"@ {
        Some(WalkDirection::Backward)
    } else {
        None
    }
}

/// The turn intent that a lowercase word names, if it names one.
pub open spec fn turn_direction_named(word: Seq<char>) -> Option<TurnDirection> {
    if word == "neutral"@ {
        Some(TurnDirection::Neutral)
    } else if word == "left"@ {
        Some(TurnDirection::Left)
    } else if word == "right"@ {
        Some(TurnDirection::Right)
    } else {
        None
    }
}

/// Whether two strings hold the same characters.
fn same_text(a: &str, b: &str) -> (same: bool)
    ensures
        same == (a@ == b@),
{
    let x = String::from_str(a);
    let y = String::from_str(b);
    x == y
}

/// Reads a walk intent from a word in lowercase.
pub fn parse_walk_direction(word: &str) -> (r: Option<WalkDirection>)
    ensures
        r == walk_direction_named(word@),
{
    if same_text(word, "neutral") {
        Some(WalkDirection::Neutral)
    } else if same_text(word, "forward") {
        Some(WalkDirection::Forward)
    } else if same_text(word, "backward") {
        Some(WalkDirection::Backward)
    } else {
        None
    }
}

/// Reads a turn intent from a word in lowercase.
pub fn parse_turn_direction(word: &str) -> (r: Option<TurnDirection>)
    ensures
        r == turn_direction_named(word@),
{
    if same_text(word, "neutral") {
        Some(TurnDirection::Neutral)
    } else if same_text(word, "left") {
        Some(TurnDirection::Left)
    } else if same_text(word, "right") {
        Some(TurnDirection::Right)
    } else {
        None
    }
}

/// The sign of a turn: left is against the angle, right is with it.
pub open spec fn turn_sign(direction: TurnDirection) -> int {
    match direction {
        TurnDirection::Neutral => 0,
        TurnDirection::Left => -1,
        TurnDirection::Right => 1,
    }
}

/// The sign of a walk along the facing direction.
pub open spec fn walk_sign(direction: WalkDirection) -> int {
    match direction {
        WalkDirection::Neutral => 0,
        WalkDirection::Forward => 1,
        WalkDirection::Backward => -1,
    }
}

/// Angle units turned in `delta_ms` milliseconds at `turn_speed` units a second.
pub open spec fn turn_amount(turn_speed: int, delta_ms: int) -> int {
    (turn_speed * delta_ms) / 1000
}

/// Sub-units walked in `delta_ms` milliseconds at `walk_speed` world units a second.
pub open spec fn stride(walk_speed: int, delta_ms: int) -> int {
    (walk_speed * delta_ms * SUBUNITS) / 1000
}

impl Player {
    /// The facing angle after `delta_ms` milliseconds of turning.
    pub open spec fn turned(self, delta_ms: int) -> int {
        normalized(
            self.rotation_angle + turn_sign(self.turn_direction) * turn_amount(
                self.turn_speed as int,
                delta_ms,
            ),
        )
    }

    /// Where `delta_ms` milliseconds of walking along the new facing angle
    /// would take the player.
    pub open spec fn candidate_x(self, s: Seq<u32>, delta_ms: int) -> int {
        self.x + scaled(
            walk_sign(self.walk_direction) * stride(self.walk_speed as int, delta_ms),
            cosine(s, self.turned(delta_ms)),
        )
    }

    pub open spec fn candidate_y(self, s: Seq<u32>, delta_ms: int) -> int {
        self.y + scaled(
            walk_sign(self.walk_direction) * stride(self.walk_speed as int, delta_ms),
            sine(s, self.turned(delta_ms)),
        )
    }

    /// The player after one step of `delta_ms` milliseconds on the map `g`:
    /// turned, and moved to the candidate position unless that point is solid.
    /// A step into a wall, or off the map, is dropped whole: no sliding and no
    /// partial move.
    pub open spec fn stepped(self, g: GridView, s: Seq<u32>, delta_ms: int) -> Player {
        let cx = self.candidate_x(s, delta_ms);
        let cy = self.candidate_y(s, delta_ms);
        if g.solid_at(cx, cy) {
            Player { rotation_angle: self.turned(delta_ms) as i64, ..self }
        } else {
            Player {
                rotation_angle: self.turned(delta_ms) as i64,
                x: cx as i64,
                y: cy as i64,
                ..self
            }
        }
    }

    /// Sets the walk intent by name, in any mix of upper and lower case. A
    /// word that names no intent is refused: the intent stays as it was and
    /// the error says which word it was.
    pub fn set_walk_direction(&mut self, direction: &str) -> (r: Result<(), String>)
        ensures
            match r {
                Ok(_) => {
                    &&& walk_direction_named(lowercase_of(direction@)) == Some(
                        final(self).walk_direction,
                    )
                    &&& *final(self) == Player {
                        walk_direction: final(self).walk_direction,
                        ..*old(self)
                    }
                },
                Err(message) => {
                    &&& walk_direction_named(lowercase_of(direction@)) is None
                    &&& *final(self) == *old(self)
                    &&& message@ == "Unknown walk direction "@ + direction@
                },
            },
    {
        let word: String = direction.to_lowercase();
        match parse_walk_direction(word.as_str()) {
            Some(intent) => {
                self.walk_direction = intent;
                Ok(())
            },
            None => Err(String::from_str("Unknown walk direction ").concat(direction)),
        }
    }

    /// Sets the turn intent by name, in any mix of upper and lower case. A
    /// word that names no intent is refused: the intent stays as it was and
    /// the error says which word it was.
    pub fn set_turn_direction(&mut self, direction: &str) -> (r: Result<(), String>)
        ensures
            match r {
                Ok(_) => {
                    &&& turn_direction_named(lowercase_of(direction@)) == Some(
                        final(self).turn_direction,
                    )
                    &&& *final(self) == Player {
                        turn_direction: final(self).turn_direction,
                        ..*old(self)
                    }
                },
                Err(message) => {
                    &&& turn_direction_named(lowercase_of(direction@)) is None
                    &&& *final(self) == *old(self)
                    &&& message@ == "Unknown turn direction "@ + direction@
                },
            },
    {
        let word: String = direction.to_lowercase();
        match parse_turn_direction(word.as_str()) {
            Some(intent) => {
                self.turn_direction = intent;
                Ok(())
            },
            None => Err(String::from_str("Unknown turn direction ").concat(direction)),
        }
    }

    /// One frame's step. The player turns as the turn intent says, then tries
    /// to walk as the walk intent says; the walk is dropped if it would end on
    /// a solid point.
    pub fn move_player(&mut self, delta_ms: u64, game: &Game, trig: &TrigTable)
        ensures
            *final(self) == old(self).stepped(game@, trig@, delta_ms as int),
            !game@.solid_at(old(self).x as int, old(self).y as int) ==> !game@.solid_at(
                final(self).x as int,
                final(self).y as int,
            ),
    {
        let mut angle: i64 = self.rotation_angle;
        normalize_angle(&mut angle);
        assert((self.turn_speed as int) * (delta_ms as int) <= 0xffff_ffff * 0xffff_ffff_ffff_ffff)
            by (nonlinear_arith)
            requires
                0 <= self.turn_speed <= 0xffff_ffff,
                0 <= delta_ms <= 0xffff_ffff_ffff_ffff,
        ;
        let amount: u128 = ((self.turn_speed as u128) * (delta_ms as u128)) / 1000;
        let whole: i64 = (amount % (FULL_TURN as u128)) as i64;
        match self.turn_direction {
            TurnDirection::Neutral => {},
            TurnDirection::Left => {
                angle = angle - whole;
            },
            TurnDirection::Right => {
                angle = angle + whole;
            },
        }
        normalize_angle(&mut angle);
        proof {
            let full = FULL_TURN as int;
            let start = self.rotation_angle as int;
            let turn = turn_amount(self.turn_speed as int, delta_ms as int);
            assert(amount == turn);
            assert(whole == turn % full);
            vstd::arithmetic::div_mod::lemma_add_mod_noop(start, turn, full);
            vstd::arithmetic::div_mod::lemma_sub_mod_noop(start, turn, full);
        }
        assert(angle == self.turned(delta_ms as int));

        assert((self.walk_speed as int) * (delta_ms as int) * 1024 <= 0xffff_ffff
            * 0xffff_ffff_ffff_ffff * 1024) by (nonlinear_arith)
            requires
                0 <= self.walk_speed <= 0xffff_ffff,
                0 <= delta_ms <= 0xffff_ffff_ffff_ffff,
        ;
        let length: i128 = (((self.walk_speed as u128) * (delta_ms as u128) * (SUBUNITS as u128))
            / 1000) as i128;
        let distance: i128 = match self.walk_direction {
            WalkDirection::Neutral => 0,
            WalkDirection::Forward => length,
            WalkDirection::Backward => -length,
        };
        assert(distance == walk_sign(self.walk_direction) * stride(
            self.walk_speed as int,
            delta_ms as int,
        ));

        let new_x: i128 = (self.x as i128) + scale(distance, trig.cos(angle));
        let new_y: i128 = (self.y as i128) + scale(distance, trig.sin(angle));
        let ghost before = *self;
        assert(new_x == before.candidate_x(trig@, delta_ms as int));
        assert(new_y == before.candidate_y(trig@, delta_ms as int));

        self.rotation_angle = angle;
        let w: i128 = game.game_map.map_width() as i128;
        let h: i128 = game.game_map.map_height() as i128;
        if 0 <= new_x && new_x < w && 0 <= new_y && new_y < h {
            if !game.is_coordinate_solid(new_x as i64, new_y as i64) {
                self.x = new_x as i64;
                self.y = new_y as i64;
            }
        }
    }
}

/// A step never ends on a solid point: a player in open space stays in open
/// space, whatever the intents, the speeds and the length of the frame.
pub proof fn step_stays_in_open_space(player: Player, g: GridView, s: Seq<u32>, delta_ms: int)
    requires
        g.wf(),
        !g.solid_at(player.x as int, player.y as int),
    ensures
        !g.solid_at(
            player.stepped(g, s, delta_ms).x as int,
            player.stepped(g, s, delta_ms).y as int,
        ),
{
    lemma_extent_bounds(g);
}

} // verus!
