use vstd::prelude::*;
use std::collections::VecDeque;
use crate::input::GameInput;

verus! {

/// Where the player stands, from the first start to a clear.
#[derive(Clone, Copy, Debug, PartialEq, Eq, Structural)]
pub enum PlayerState {
    Init,
    Idle,
    Shuffled,
    Solving,
    Clear,
    ModeSelectionPopup,
    StatisticsPopup,
    DateSelectionPopup,
    ResponseWaiting,
}

/// The undo and redo stacks of moves.
pub struct PlayLog {
    play_log: VecDeque<GameInput>,
    redo_buffer: VecDeque<GameInput>,
    pub undo_used: bool,
}

pub ghost struct PlayLogView {
    pub play_log: Seq<GameInput>,
    pub redo_buffer: Seq<GameInput>,
    pub undo_used: bool,
}

impl View for PlayLog {
    type V = PlayLogView;

    closed spec fn view(&self) -> PlayLogView {
        PlayLogView {
            play_log: self.play_log@,
            redo_buffer: self.redo_buffer@,
            undo_used: self.undo_used,
        }
    }
}

impl PlayLog {
    pub fn new() -> (r: PlayLog)
        ensures
            r@.play_log == Seq::<GameInput>::empty(),
            r@.redo_buffer == Seq::<GameInput>::empty(),
            !r@.undo_used,
    {
        PlayLog { play_log: VecDeque::new(), redo_buffer: VecDeque::new(), undo_used: false }
    }

    /// Records an accepted move on the undo stack.
    pub fn add_log(&mut self, input: GameInput)
        ensures
            final(self)@ == (PlayLogView { play_log: old(self)@.play_log.push(input), ..old(self)@ }),
    {
        self.play_log.push_back(input);
    }

    /// Puts a move on the redo stack.
    pub fn add_redo(&mut self, input: GameInput)
        ensures
            final(self)@ == (PlayLogView {
                redo_buffer: old(self)@.redo_buffer.push(input),
                ..old(self)@
            }),
    {
        self.redo_buffer.push_back(input);
    }

    /// Takes the latest move off the undo stack.
    pub fn undo(&mut self) -> (r: Option<GameInput>)
        ensures
            old(self)@.play_log.len() == 0 ==> r is None && final(self)@ == old(self)@,
            old(self)@.play_log.len() > 0 ==> r == Some(old(self)@.play_log.last()) && final(self)@
                == (PlayLogView { play_log: old(self)@.play_log.drop_last(), ..old(self)@ }),
    {
        self.play_log.pop_back()
    }

    /// Takes the latest move off the redo stack.
    pub fn redo(&mut self) -> (r: Option<GameInput>)
        ensures
            old(self)@.redo_buffer.len() == 0 ==> r is None && final(self)@ == old(self)@,
            old(self)@.redo_buffer.len() > 0 ==> r == Some(old(self)@.redo_buffer.last())
                && final(self)@ == (PlayLogView {
                redo_buffer: old(self)@.redo_buffer.drop_last(),
                ..old(self)@
            }),
    {
        self.redo_buffer.pop_back()
    }

    /// Empties both stacks.
    pub fn reset(&mut self)
        ensures
            final(self)@.play_log == Seq::<GameInput>::empty(),
            final(self)@.redo_buffer == Seq::<GameInput>::empty(),
            !final(self)@.undo_used,
    {
        self.play_log.clear();
        self.redo_buffer.clear();
        self.undo_used = false;
    }

    /// Empties the redo stack, as a new move starts a new branch of history.
    pub fn clear_redo_buf(&mut self)
        ensures
            final(self)@ == (PlayLogView { redo_buffer: Seq::<GameInput>::empty(), ..old(self)@ }),
    {
        self.redo_buffer.clear();
    }

    pub fn set_undo_used(&mut self, used: bool)
        ensures
            final(self)@ == (PlayLogView { undo_used: used, ..old(self)@ }),
    {
        self.undo_used = used;
    }
}

/// The move count and the play time of one game, in milliseconds.
pub struct PlayerInfo {
    play_time_ms: u64,
    running: bool,
    move_count: usize,
}

impl PlayerInfo {
    pub closed spec fn elapsed_spec(&self) -> u64 {
        self.play_time_ms
    }

    pub closed spec fn is_running(&self) -> bool {
        self.running
    }

    pub closed spec fn moves(&self) -> usize {
        self.move_count
    }

    /// A stopped clock at zero and no moves.
    pub fn new() -> (r: PlayerInfo)
        ensures
            r.elapsed_spec() == 0,
            !r.is_running(),
            r.moves() == 0,
    {
        PlayerInfo { play_time_ms: 0, running: false, move_count: 0 }
    }

    /// Counts one more move (saturating).
    pub fn add_move_count(&mut self)
        ensures
            final(self).moves() == (if old(self).moves() < usize::MAX {
                old(self).moves() + 1
            } else {
                old(self).moves() as int
            }),
            final(self).elapsed_spec() == old(self).elapsed_spec(),
            final(self).is_running() == old(self).is_running(),
    {
        if self.move_count < usize::MAX {
            self.move_count = self.move_count + 1;
        }
    }

    pub fn start_timer(&mut self)
        ensures
            final(self).is_running(),
            final(self).elapsed_spec() == old(self).elapsed_spec(),
            final(self).moves() == old(self).moves(),
    {
        self.running = true;
    }

    pub fn stop_timer(&mut self)
        ensures
            !final(self).is_running(),
            final(self).elapsed_spec() == old(self).elapsed_spec(),
            final(self).moves() == old(self).moves(),
    {
        self.running = false;
    }

    /// Advances the clock by `delta_ms` while it runs (saturating).
    pub fn tick(&mut self, delta_ms: u64)
        ensures
            final(self).elapsed_spec() == (if old(self).is_running() {
                if old(self).elapsed_spec() + delta_ms <= u64::MAX {
                    (old(self).elapsed_spec() + delta_ms) as u64
                } else {
                    u64::MAX
                }
            } else {
                old(self).elapsed_spec()
            }),
            final(self).is_running() == old(self).is_running(),
            final(self).moves() == old(self).moves(),
    {
        if self.running {
            self.play_time_ms = self.play_time_ms.saturating_add(delta_ms);
        }
    }

    /// Stops the clock and sets it and the move count to zero.
    pub fn reset(&mut self)
        ensures
            final(self).elapsed_spec() == 0,
            !final(self).is_running(),
            final(self).moves() == 0,
    {
        self.running = false;
        self.play_time_ms = 0;
        self.move_count = 0;
    }

    /// The play time in milliseconds and the move count.
    pub fn get_player_info(&self) -> (r: (u64, usize))
        ensures
            r == (self.elapsed_spec(), self.moves()),
    {
        (self.play_time_ms, self.move_count)
    }
}

} // verus!
