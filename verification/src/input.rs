//! Input: what the window reports, and what it does to the engine.

use vstd::prelude::*;
use crate::app::App;
use crate::player::{Player, TurnDirection, WalkDirection};

verus! {

/// A key that the engine knows.
#[derive(Clone, Copy, Debug, PartialEq, Eq, Structural)]
pub enum Key {
    Escape,
    Up,
    Down,
    Left,
    Right,
    Other,
}

/// An event from the window, reduced to what the engine reads in it.
#[derive(Clone, Copy, Debug, PartialEq, Eq, Structural)]
pub enum InputEvent {
    Quit,
    KeyDown(Key),
    KeyUp(Key),
    Other,
}

/// The player and the running flag after one event: the arrow keys set the
/// intents while they are held, and Escape or a quit request stops the engine.
pub open spec fn after_event(state: (Player, bool), event: InputEvent) -> (Player, bool) {
    let (player, running) = state;
    match event {
        InputEvent::Quit => (player, false),
        InputEvent::KeyDown(Key::Escape) => (player, false),
        InputEvent::KeyDown(Key::Up) => (
            Player { walk_direction: WalkDirection::Forward, ..player },
            running,
        ),
        InputEvent::KeyDown(Key::Down) => (
            Player { walk_direction: WalkDirection::Backward, ..player },
            running,
        ),
        InputEvent::KeyDown(Key::Right) => (
            Player { turn_direction: TurnDirection::Right, ..player },
            running,
        ),
        InputEvent::KeyDown(Key::Left) => (
            Player { turn_direction: TurnDirection::Left, ..player },
            running,
        ),
        InputEvent::KeyUp(Key::Up) | InputEvent::KeyUp(Key::Down) => (
            Player { walk_direction: WalkDirection::Neutral, ..player },
            running,
        ),
        InputEvent::KeyUp(Key::Right) | InputEvent::KeyUp(Key::Left) => (
            Player { turn_direction: TurnDirection::Neutral, ..player },
            running,
        ),
        _ => (player, running),
    }
}

/// The player and the running flag after a run of events, first to last.
pub open spec fn after_events(state: (Player, bool), events: Seq<InputEvent>) -> (Player, bool)
    decreases events.len(),
{
    if events.len() == 0 {
        state
    } else {
        after_event(after_events(state, events.drop_last()), events.last())
    }
}

impl App {
    /// Applies the events that the caller has gathered since the last frame,
    /// first to last. Only the intents and the running flag can change.
    pub fn process_input(&mut self, events: &Vec<InputEvent>)
        ensures
            (final(self).player, final(self).is_running) == after_events(
                (old(self).player, old(self).is_running),
                events@,
            ),
            final(self).game == old(self).game,
            final(self).trig == old(self).trig,
            final(self).color_buffer == old(self).color_buffer,
            final(self).timekeeper == old(self).timekeeper,
            final(self).distance_proj_plane == old(self).distance_proj_plane,
    {
        let mut i: usize = 0;
        assert(events@.take(0) =~= Seq::<InputEvent>::empty());
        while i < events.len()
            invariant
                i <= events.len(),
                (self.player, self.is_running) == after_events(
                    (old(self).player, old(self).is_running),
                    events@.take(i as int),
                ),
                self.game == old(self).game,
                self.trig == old(self).trig,
                self.color_buffer == old(self).color_buffer,
                self.timekeeper == old(self).timekeeper,
                self.distance_proj_plane == old(self).distance_proj_plane,
            decreases events.len() - i,
        {
            proof {
                let next = events@.take(i as int + 1);
                assert(next.drop_last() =~= events@.take(i as int));
                assert(next.last() == events@[i as int]);
            }
            match events[i] {
                InputEvent::Quit => {
                    self.is_running = false;
                },
                InputEvent::KeyDown(key) => match key {
                    Key::Escape => {
                        self.is_running = false;
                    },
                    Key::Up => {
                        self.player.walk_direction = WalkDirection::Forward;
                    },
                    Key::Down => {
                        self.player.walk_direction = WalkDirection::Backward;
                    },
                    Key::Right => {
                        self.player.turn_direction = TurnDirection::Right;
                    },
                    Key::Left => {
                        self.player.turn_direction = TurnDirection::Left;
                    },
                    Key::Other => {},
                },
                InputEvent::KeyUp(key) => match key {
                    Key::Up | Key::Down => {
                        self.player.walk_direction = WalkDirection::Neutral;
                    },
                    Key::Right | Key::Left => {
                        self.player.turn_direction = TurnDirection::Neutral;
                    },
                    _ => {},
                },
                InputEvent::Other => {},
            }
            i = i + 1;
        }
        assert(events@.take(events@.len() as int) =~= events@);
    }
}

} // verus!
