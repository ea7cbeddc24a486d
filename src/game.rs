use vstd::prelude::*;
use crate::animator::{Motion, TileAnimator, MOVE_DURATION_MS};
use crate::codec::{
    BoardString, DecodeError, board_to_string, string_to_board, encoded, positions_of,
    orientations_of, orientations_valid,
};
use crate::grid::{
    Grid, GridView, MoveRejected, TileId, MAX_SIZE, lemma_move_wf, lemma_move_back,
    lemma_size_bounds, lemma_cell_coords, is_layout, goal_list,
};
use crate::input::{
    GameError, GameInput, InputBuffer, InputBufferView, InputHandler, enqueue_result, inverse_of,
};
use crate::orientation::is_unit_delta;
use crate::player::{PlayLog, PlayLogView, PlayerInfo, PlayerState};
use crate::shuffle::{random_draws, random_offset, shuffle_from, shuffled};

verus! {

/// One game: the board, the move animation, the input queue, the play log, the
/// player's counters and state.
pub struct Game {
    grid: Grid,
    animator: TileAnimator,
    input_buffer: InputBuffer,
    play_log: PlayLog,
    player_info: PlayerInfo,
    state: PlayerState,
    is_shuffled: bool,
}

/// The input's slide is a unit step.
pub open spec fn is_step(c: GameInput) -> bool {
    is_unit_delta(c.dx_spec() as int, c.dy_spec() as int)
}

/// The board after the slides of `cmds`, in order.
pub open spec fn replay(g: GridView, cmds: Seq<GameInput>) -> GridView
    decreases cmds.len(),
{
    if cmds.len() == 0 {
        g
    } else {
        let c = cmds.last();
        replay(g, cmds.drop_last()).moved(c.dx_spec() as int, c.dy_spec() as int)
    }
}

/// Every slide of `cmds` is a unit step that the board accepts when it comes.
pub open spec fn all_accepted(g: GridView, cmds: Seq<GameInput>) -> bool
    decreases cmds.len(),
{
    if cmds.len() == 0 {
        true
    } else {
        let c = cmds.last();
        &&& all_accepted(g, cmds.drop_last())
        &&& is_step(c)
        &&& replay(g, cmds.drop_last()).can_move(c.dx_spec() as int, c.dy_spec() as int)
    }
}

proof fn lemma_replay_wf(g: GridView, cmds: Seq<GameInput>)
    requires
        g.wf(),
        all_accepted(g, cmds),
    ensures
        replay(g, cmds).wf(),
    decreases cmds.len(),
{
    if cmds.len() > 0 {
        let c = cmds.last();
        lemma_replay_wf(g, cmds.drop_last());
        lemma_move_wf(replay(g, cmds.drop_last()), c.dx_spec() as int, c.dy_spec() as int);
    }
}

/// Undo and redo: after accepted moves `cmds`, the input that undo queues (the
/// opposite of the last move) is accepted and gives the board of all moves but
/// the last; the input that redo then queues (the last move itself) is accepted
/// and gives the board after all of `cmds` again.
pub proof fn lemma_undo_redo(g: GridView, cmds: Seq<GameInput>)
    requires
        g.wf(),
        cmds.len() > 0,
        all_accepted(g, cmds),
    ensures
        ({
            let last = cmds.last();
            let u = inverse_of(last)->0;
            let now = replay(g, cmds);
            let before = replay(g, cmds.drop_last());
            &&& inverse_of(last) is Some
            &&& now.can_move(u.dx_spec() as int, u.dy_spec() as int)
            &&& now.moved(u.dx_spec() as int, u.dy_spec() as int) == before
            &&& before.can_move(last.dx_spec() as int, last.dy_spec() as int)
            &&& before.moved(last.dx_spec() as int, last.dy_spec() as int) == now
        }),
{
    let last = cmds.last();
    let dx = last.dx_spec() as int;
    let dz = last.dy_spec() as int;
    let before = replay(g, cmds.drop_last());
    lemma_replay_wf(g, cmds.drop_last());
    lemma_move_back(before, dx, dz);
}

/// The slide that the animator shows when the tile beside the blank at
/// `(dx, dz)` slides in: from the tile's cell to the blank's, rolling.
pub open spec fn slide_motion(g: GridView, dx: int, dz: int) -> Motion {
    let k = g.mover(dx, dz);
    Motion {
        tile: k as TileId,
        from: g.target(dx, dz) as usize,
        to: g.blank() as usize,
        start: g.orientation_of[k],
        end: g.orientation_of[k].rolled_spec(dx, dz),
    }
}

/// The move count, the play time and whether the clock runs.
pub open spec fn counters(i: PlayerInfo) -> (int, int, bool) {
    (i.moves() as int, i.elapsed_spec() as int, i.is_running())
}

/// The counters after `delta_ms` passes (the time saturating).
pub open spec fn ticked(c: (int, int, bool), delta_ms: int) -> (int, int, bool) {
    (
        c.0,
        if c.2 {
            if c.1 + delta_ms <= u64::MAX {
                c.1 + delta_ms
            } else {
                u64::MAX as int
            }
        } else {
            c.1
        },
        c.2,
    )
}

/// The counters after a move is played in state `st`: counted while solving
/// (the clock starting on the first move after a shuffle), set to zero after a clear.
pub open spec fn counted(st: PlayerState, c: (int, int, bool)) -> (int, int, bool) {
    let more = if c.0 < usize::MAX {
        c.0 + 1
    } else {
        c.0
    };
    match st {
        PlayerState::Shuffled => (more, c.1, true),
        PlayerState::Solving => (more, c.1, c.2),
        PlayerState::Clear => (0, 0, false),
        _ => c,
    }
}

/// The player's state after one more input is taken.
pub open spec fn next_state(s: PlayerState) -> PlayerState {
    match s {
        PlayerState::Shuffled => PlayerState::Solving,
        PlayerState::Clear => PlayerState::Idle,
        _ => s,
    }
}

impl Game {
    /// After `delta_ms` no slide is in flight and an input waits: one is taken.
    pub open spec fn takes_input(&self, delta_ms: u64) -> bool {
        let a = self.animator_spec();
        &&& (!a.is_moving_spec() || a.elapsed_spec() + delta_ms >= MOVE_DURATION_MS)
        &&& self.buffer_view().buffer.len() > 0
    }

    pub closed spec fn grid_view(&self) -> GridView {
        self.grid@
    }

    pub closed spec fn animator_spec(&self) -> TileAnimator {
        self.animator
    }

    pub closed spec fn buffer_view(&self) -> InputBufferView {
        self.input_buffer@
    }

    pub closed spec fn log_view(&self) -> PlayLogView {
        self.play_log@
    }

    pub closed spec fn state_spec(&self) -> PlayerState {
        self.state
    }

    pub closed spec fn is_shuffled_spec(&self) -> bool {
        self.is_shuffled
    }

    pub closed spec fn info_spec(&self) -> PlayerInfo {
        self.player_info
    }

    pub open spec fn is_moving_spec(&self) -> bool {
        self.animator_spec().is_moving_spec()
    }

    pub open spec fn wf(&self) -> bool {
        self.grid_view().wf()
    }

    /// After a new board: the animator and the queue as they were, both stacks
    /// empty, the counters at zero and stopped, the player at `state`.
    pub open spec fn restarted(&self, before: &Game, state: PlayerState, shuffled: bool) -> bool {
        &&& self.animator_spec() == before.animator_spec()
        &&& self.buffer_view() == before.buffer_view()
        &&& self.log_view().play_log.len() == 0
        &&& self.log_view().redo_buffer.len() == 0
        &&& !self.log_view().undo_used
        &&& self.info_spec().moves() == 0
        &&& self.info_spec().elapsed_spec() == 0
        &&& !self.info_spec().is_running()
        &&& self.state_spec() == state
        &&& self.is_shuffled_spec() == shuffled
    }

    /// A solved board of side `size`, nothing queued, the player idle.
    pub fn new(size: usize) -> (r: Game)
        requires
            1 <= size <= MAX_SIZE,
        ensures
            r.wf(),
            r.grid_view() == GridView::solved(size as nat),
            !r.is_moving_spec(),
            r.buffer_view().buffer.len() == 0,
            r.log_view().play_log.len() == 0,
            r.state_spec() == PlayerState::Idle,
            !r.is_shuffled_spec(),
    {
        Game {
            grid: Grid::new(size),
            animator: TileAnimator::new(),
            input_buffer: InputBuffer::new(),
            play_log: PlayLog::new(),
            player_info: PlayerInfo::new(),
            state: PlayerState::Idle,
            is_shuffled: false,
        }
    }

    pub fn grid(&self) -> (r: &Grid)
        ensures
            r@ == self.grid_view(),
    {
        &self.grid
    }

    pub fn animator(&self) -> (r: &TileAnimator)
        ensures
            *r == self.animator_spec(),
    {
        &self.animator
    }

    pub fn input_buffer(&self) -> (r: &InputBuffer)
        ensures
            r@ == self.buffer_view(),
    {
        &self.input_buffer
    }

    pub fn play_log(&self) -> (r: &PlayLog)
        ensures
            r@ == self.log_view(),
    {
        &self.play_log
    }

    pub fn player_info(&self) -> (r: &PlayerInfo)
        ensures
            *r == self.info_spec(),
    {
        &self.player_info
    }

    pub fn state(&self) -> (r: PlayerState)
        ensures
            r == self.state_spec(),
    {
        self.state
    }

    pub fn set_state(&mut self, state: PlayerState)
        ensures
            final(self).state_spec() == state,
            final(self).grid_view() == old(self).grid_view(),
            final(self).animator_spec() == old(self).animator_spec(),
            final(self).buffer_view() == old(self).buffer_view(),
            final(self).log_view() == old(self).log_view(),
            final(self).is_shuffled_spec() == old(self).is_shuffled_spec(),
    {
        self.state = state;
    }

    /// Queues a player's direction (see `InputHandler::direction`).
    pub fn direction(&mut self, dx: i32, dz: i32, inverse: bool) -> (r: Result<(), GameError>)
        ensures
            ({
                let (e, b) = enqueue_result(dx as int, dz as int, inverse, true, old(self).buffer_view());
                &&& r == e
                &&& final(self).buffer_view() == b
                &&& final(self).log_view() == (if e is Ok {
                    PlayLogView { redo_buffer: Seq::<GameInput>::empty(), ..old(self).log_view() }
                } else {
                    old(self).log_view()
                })
            }),
            final(self).grid_view() == old(self).grid_view(),
            final(self).animator_spec() == old(self).animator_spec(),
            final(self).state_spec() == old(self).state_spec(),
            final(self).info_spec() == old(self).info_spec(),
            final(self).is_shuffled_spec() == old(self).is_shuffled_spec(),
    {
        InputHandler::direction(dx, dz, inverse, &mut self.input_buffer, &mut self.play_log)
    }

    /// Queues the slide of a click on cell `(x, z)`: the step from the blank to
    /// the clicked cell, through the same path as a key (not inverted).
    pub fn click(&mut self, x: usize, z: usize) -> (r: Result<(), GameError>)
        requires
            old(self).wf(),
            x < old(self).grid_view().size,
            z < old(self).grid_view().size,
        ensures
            ({
                let (e, b) = enqueue_result(
                    x - old(self).grid_view().blank_x(),
                    z - old(self).grid_view().blank_z(),
                    false,
                    true,
                    old(self).buffer_view(),
                );
                &&& r == e
                &&& final(self).buffer_view() == b
                &&& final(self).log_view() == (if e is Ok {
                    PlayLogView { redo_buffer: Seq::<GameInput>::empty(), ..old(self).log_view() }
                } else {
                    old(self).log_view()
                })
            }),
            final(self).grid_view() == old(self).grid_view(),
            final(self).animator_spec() == old(self).animator_spec(),
            final(self).state_spec() == old(self).state_spec(),
            final(self).info_spec() == old(self).info_spec(),
            final(self).is_shuffled_spec() == old(self).is_shuffled_spec(),
    {
        let (bx, bz) = self.grid.blank();
        let dx = x as i32 - bx as i32;
        let dz = z as i32 - bz as i32;
        self.direction(dx, dz, false)
    }

    /// Queues the opposite of the latest recorded move (see `InputHandler::undo`).
    pub fn undo(&mut self)
        ensures
            final(self).grid_view() == old(self).grid_view(),
            final(self).animator_spec() == old(self).animator_spec(),
            final(self).state_spec() == old(self).state_spec(),
            final(self).info_spec() == old(self).info_spec(),
            final(self).is_shuffled_spec() == old(self).is_shuffled_spec(),
            old(self).log_view().play_log.len() > 0 ==> ({
                let c = old(self).log_view().play_log.last();
                let (e, b) = enqueue_result(
                    c.dx_spec() as int,
                    c.dy_spec() as int,
                    true,
                    false,
                    old(self).buffer_view(),
                );
                &&& final(self).buffer_view() == b
                &&& e is Ok ==> final(self).log_view() == (PlayLogView {
                    play_log: old(self).log_view().play_log.drop_last(),
                    redo_buffer: old(self).log_view().redo_buffer.push(c),
                    undo_used: true,
                })
                &&& e is Err ==> final(self).log_view() == old(self).log_view()
            }),
            old(self).log_view().play_log.len() == 0 ==> final(self).buffer_view() == old(
                self,
            ).buffer_view() && final(self).log_view() == old(self).log_view(),
    {
        InputHandler::undo(&mut self.input_buffer, &mut self.play_log)
    }

    /// Queues again the latest undone move (see `InputHandler::redo`).
    pub fn redo(&mut self)
        ensures
            final(self).grid_view() == old(self).grid_view(),
            final(self).animator_spec() == old(self).animator_spec(),
            final(self).state_spec() == old(self).state_spec(),
            final(self).info_spec() == old(self).info_spec(),
            final(self).is_shuffled_spec() == old(self).is_shuffled_spec(),
            old(self).log_view().redo_buffer.len() > 0 ==> ({
                let c = old(self).log_view().redo_buffer.last();
                let (e, b) = enqueue_result(
                    c.dx_spec() as int,
                    c.dy_spec() as int,
                    false,
                    true,
                    old(self).buffer_view(),
                );
                &&& final(self).buffer_view() == b
                &&& e is Ok ==> final(self).log_view() == (PlayLogView {
                    redo_buffer: old(self).log_view().redo_buffer.drop_last(),
                    ..old(self).log_view()
                })
                &&& e is Err ==> final(self).log_view() == old(self).log_view()
            }),
            old(self).log_view().redo_buffer.len() == 0 ==> final(self).buffer_view() == old(
                self,
            ).buffer_view() && final(self).log_view() == old(self).log_view(),
    {
        InputHandler::redo(&mut self.input_buffer, &mut self.play_log)
    }

    /// Empties both stacks, as when the input inversion changes.
    pub fn clear_log(&mut self)
        ensures
            final(self).grid_view() == old(self).grid_view(),
            final(self).animator_spec() == old(self).animator_spec(),
            final(self).state_spec() == old(self).state_spec(),
            final(self).info_spec() == old(self).info_spec(),
            final(self).is_shuffled_spec() == old(self).is_shuffled_spec(),
            final(self).buffer_view() == old(self).buffer_view(),
            final(self).log_view().play_log.len() == 0,
            final(self).log_view().redo_buffer.len() == 0,
            !final(self).log_view().undo_used,
    {
        self.play_log.reset();
    }

    /// Slides the tile beside the blank at `(dx, dz)` into it. Unless `immediate`,
    /// the slide is handed to the animator.
    pub fn move_block(&mut self, dx: i32, dz: i32, immediate: bool) -> (r: Result<TileId, MoveRejected>)
        requires
            old(self).wf(),
            !old(self).is_moving_spec(),
            is_unit_delta(dx as int, dz as int),
        ensures
            final(self).wf(),
            old(self).grid_view().can_move(dx as int, dz as int) ==> r == Ok::<TileId, MoveRejected>(
                old(self).grid_view().mover(dx as int, dz as int) as TileId,
            ) && final(self).grid_view() == old(self).grid_view().moved(dx as int, dz as int),
            old(self).grid_view().can_move(dx as int, dz as int) && !immediate
                ==> final(self).animator_spec().motion_spec() == Some(
                slide_motion(old(self).grid_view(), dx as int, dz as int),
            ) && final(self).animator_spec().elapsed_spec() == 0,
            !(old(self).grid_view().can_move(dx as int, dz as int) && !immediate)
                ==> final(self).animator_spec() == old(self).animator_spec(),
            !old(self).grid_view().can_move(dx as int, dz as int) ==> r == Err::<
                TileId,
                MoveRejected,
            >(MoveRejected::OutOfBounds) && final(self).grid_view() == old(self).grid_view(),
            final(self).buffer_view() == old(self).buffer_view(),
            final(self).log_view() == old(self).log_view(),
            final(self).state_spec() == old(self).state_spec(),
            final(self).info_spec() == old(self).info_spec(),
            final(self).is_shuffled_spec() == old(self).is_shuffled_spec(),
    {
        let (bx, bz) = self.grid.blank();
        let r = self.grid.apply_move(dx, dz);
        match r {
            Ok(k) => {
                if !immediate {
                    proof {
                        lemma_move_wf(old(self).grid_view(), dx as int, dz as int);
                    }
                    let (tx, tz) = self.grid.blank();
                    let size = self.grid.size();
                    let end = self.grid.orientation(k as usize);
                    proof {
                        assert(1 <= k < self.grid_view().n());
                        assert(self.grid_view().orientation_of[k as int].wf());
                    }
                    // The roll back of the end pose is the pose before the slide.
                    let start = end.rolled(-dx, -dz);
                    proof {
                        let g = old(self).grid_view();
                        let kk = g.mover(dx as int, dz as int);
                        crate::orientation::lemma_roll_back(g.orientation_of[kk], dx as int, dz as int);
                        assert(g.position_of[kk] == g.target(dx as int, dz as int));
                        assert(0 <= g.position_of[0] < g.n());
                        crate::grid::lemma_coords_of_cell(g.size as int, g.blank());
                        assert(k as int == kk);
                        lemma_size_bounds(size as int);
                        lemma_cell_coords(size as int, tx as int, tz as int);
                        lemma_cell_coords(size as int, bx as int, bz as int);
                    }
                    let m = Motion { tile: k, from: tz * size + tx, to: bz * size + bx, start, end };
                    proof {
                        let g = old(self).grid_view();
                        assert(m.from as int == g.target(dx as int, dz as int));
                        assert(m.to as int == g.blank());
                        assert(m.start == g.orientation_of[k as int]);
                        assert(m.end == g.orientation_of[k as int].rolled_spec(dx as int, dz as int));
                        assert(m == slide_motion(g, dx as int, dz as int));
                    }
                    self.animator.begin(m);
                }
            },
            Err(_) => {},
        }
        r
    }

    /// One frame: `delta_ms` passes on the timers; when no slide is in flight,
    /// the oldest queued input is taken and, if it is a unit step that the board
    /// accepts, played. Only a played input counts as a move, moves the player
    /// on, and (when marked so) goes on the play log.
    pub fn update(&mut self, delta_ms: u64, immediate: bool)
        requires
            old(self).wf(),
        ensures
            final(self).wf(),
            final(self).is_shuffled_spec() == old(self).is_shuffled_spec(),
            old(self).takes_input(delta_ms) ==> ({
                let q = old(self).buffer_view().buffer[0];
                let c = q.input;
                let g = old(self).grid_view();
                let played = is_step(c) && g.can_move(c.dx_spec() as int, c.dy_spec() as int);
                &&& final(self).buffer_view().buffer == old(self).buffer_view().buffer.drop_first()
                &&& played ==> final(self).grid_view() == g.moved(c.dx_spec() as int, c.dy_spec() as int)
                    && final(self).is_moving_spec() == !immediate
                    && final(self).state_spec() == next_state(old(self).state_spec())
                    && counters(final(self).info_spec()) == counted(
                    old(self).state_spec(),
                    ticked(counters(old(self).info_spec()), delta_ms as int),
                ) && final(self).log_view() == (if q.record {
                    PlayLogView { play_log: old(self).log_view().play_log.push(c), ..old(self).log_view() }
                } else {
                    old(self).log_view()
                })
                &&& !played ==> final(self).grid_view() == g && !final(self).is_moving_spec()
                    && final(self).state_spec() == old(self).state_spec()
                    && counters(final(self).info_spec()) == ticked(
                    counters(old(self).info_spec()),
                    delta_ms as int,
                ) && final(self).log_view() == old(self).log_view()
            }),
            !old(self).takes_input(delta_ms) ==> final(self).grid_view() == old(self).grid_view()
                && final(self).buffer_view().buffer == old(self).buffer_view().buffer
                && final(self).state_spec() == old(self).state_spec()
                && final(self).log_view() == old(self).log_view()
                && counters(final(self).info_spec()) == ticked(
                counters(old(self).info_spec()),
                delta_ms as int,
            ),
    {
        let _ = self.animator.tick(delta_ms);
        self.input_buffer.tick(delta_ms);
        self.player_info.tick(delta_ms);
        if !self.animator.is_moving() {
            if let Some(q) = self.input_buffer.pop() {
                let dx = q.input.dx();
                let dz = q.input.dy();
                if (dx == 0 && (dz == 1 || dz == -1)) || (dz == 0 && (dx == 1 || dx == -1)) {
                    let r = self.move_block(dx, dz, immediate);
                    if r.is_ok() {
                        if q.record {
                            self.play_log.add_log(q.input);
                        }
                        match self.state {
                            PlayerState::Shuffled => {
                                self.player_info.add_move_count();
                                self.player_info.start_timer();
                                self.state = PlayerState::Solving;
                            },
                            PlayerState::Solving => {
                                self.player_info.add_move_count();
                            },
                            PlayerState::Clear => {
                                self.player_info.reset();
                                self.state = PlayerState::Idle;
                            },
                            _ => {},
                        }
                    }
                }
            }
        }
    }

    /// Every tile at its goal, face up, and nothing in flight.
    pub fn is_board_clear(&self) -> (r: bool)
        requires
            self.wf(),
        ensures
            r == (!self.is_moving_spec() && self.grid_view().is_clear()),
    {
        !self.animator.is_moving() && self.grid.is_solved()
    }

    /// While solving a shuffled board, a clear board ends the game: the state
    /// becomes `Clear` and the clock stops.
    pub fn check_clear(&mut self)
        requires
            old(self).wf(),
        ensures
            final(self).wf(),
            final(self).grid_view() == old(self).grid_view(),
            final(self).state_spec() == (if old(self).is_shuffled_spec() && old(self).state_spec()
                == PlayerState::Solving && !old(self).is_moving_spec()
                && old(self).grid_view().is_clear() {
                PlayerState::Clear
            } else {
                old(self).state_spec()
            }),
            final(self).animator_spec() == old(self).animator_spec(),
            final(self).buffer_view() == old(self).buffer_view(),
            final(self).log_view() == old(self).log_view(),
            final(self).is_shuffled_spec() == old(self).is_shuffled_spec(),
    {
        if self.is_shuffled && self.state == PlayerState::Solving && self.is_board_clear() {
            self.state = PlayerState::Clear;
            self.player_info.stop_timer();
        }
    }

    /// Starts over on the shuffled board of `draws` and the offsets (see
    /// `shuffle_from`): logs and counters cleared, the player at `Shuffled`.
    pub fn shuffle_with(&mut self, draws: &Vec<u32>, offset_x: usize, offset_z: usize)
        requires
            old(self).wf(),
            !old(self).is_moving_spec(),
            draws@.len() >= old(self).grid_view().n() - 1,
            offset_x < old(self).grid_view().size,
            offset_z < old(self).grid_view().size,
        ensures
            final(self).wf(),
            final(self).grid_view() == shuffled(
                old(self).grid_view().size,
                draws@,
                offset_x as nat,
                offset_z as nat,
            ),
            final(self).restarted(old(self), PlayerState::Shuffled, true),
    {
        let size = self.grid.size();
        self.grid = shuffle_from(size, draws, offset_x, offset_z);
        self.is_shuffled = true;
        self.state = PlayerState::Shuffled;
        self.play_log.reset();
        self.player_info.reset();
    }

    /// Starts over on a random solvable board (see `shuffle_with`). When the
    /// system's generator fails, nothing changes and the result is false.
    pub fn shuffle(&mut self) -> (r: bool)
        requires
            old(self).wf(),
            !old(self).is_moving_spec(),
        ensures
            final(self).wf(),
            !r ==> *final(self) == *old(self),
            r ==> exists|d: Seq<u32>, ox: nat, oz: nat|
                ox < old(self).grid_view().size && oz < old(self).grid_view().size
                    && final(self).grid_view() == #[trigger] shuffled(
                    old(self).grid_view().size,
                    d,
                    ox,
                    oz,
                ),
            r ==> final(self).restarted(old(self), PlayerState::Shuffled, true),
    {
        let size = self.grid.size();
        proof {
            lemma_size_bounds(size as int);
        }
        let draws = match random_draws(size * size - 1) {
            Some(d) => d,
            None => {
                return false;
            },
        };
        let ox = match random_offset(size) {
            Some(o) => o,
            None => {
                return false;
            },
        };
        let oz = match random_offset(size) {
            Some(o) => o,
            None => {
                return false;
            },
        };
        self.shuffle_with(&draws, ox, oz);
        true
    }

    /// Puts every tile back at its goal, face up (see `Grid::reset`, whose list
    /// of tiles and goal cells is returned); logs and counters cleared.
    pub fn reset(&mut self) -> (r: Vec<(TileId, usize)>)
        requires
            old(self).wf(),
            !old(self).is_moving_spec(),
        ensures
            final(self).wf(),
            final(self).grid_view() == GridView::solved(old(self).grid_view().size),
            final(self).restarted(old(self), PlayerState::Idle, false),
            r@ == goal_list(old(self).grid_view().n()),
    {
        let r = self.grid.reset();
        self.is_shuffled = false;
        self.state = PlayerState::Idle;
        self.play_log.reset();
        self.player_info.reset();
        r
    }

    /// The board's string, or none while a slide is in flight.
    pub fn snapshot(&self) -> (r: Option<BoardString>)
        requires
            self.wf(),
        ensures
            self.is_moving_spec() ==> r is None,
            !self.is_moving_spec() ==> r is Some && r->0@ == encoded(self.grid_view()),
    {
        if self.animator.is_moving() {
            None
        } else {
            Some(board_to_string(&self.grid))
        }
    }

    /// Loads a board from its string (see `string_to_board`); a loaded board
    /// counts as shuffled.
    pub fn load(&mut self, board_string: &BoardString) -> (r: Result<(), DecodeError>)
        requires
            old(self).wf(),
            !old(self).is_moving_spec(),
        ensures
            final(self).wf(),
            r is Ok <==> board_string@.len() == old(self).grid_view().n() && is_layout(
                old(self).grid_view().size,
                positions_of(board_string@),
            ) && orientations_valid(board_string@),
            r is Err ==> final(self).grid_view() == old(self).grid_view()
                && final(self).is_shuffled_spec() == old(self).is_shuffled_spec(),
            final(self).animator_spec() == old(self).animator_spec(),
            final(self).buffer_view() == old(self).buffer_view(),
            final(self).log_view() == old(self).log_view(),
            final(self).state_spec() == old(self).state_spec(),
            final(self).info_spec() == old(self).info_spec(),
            r is Ok ==> final(self).is_shuffled_spec() && final(self).grid_view().size == old(
                self,
            ).grid_view().size && final(self).grid_view().position_of == positions_of(board_string@)
                && final(self).grid_view().orientation_of == orientations_of(board_string@),
    {
        let r = string_to_board(board_string, &mut self.grid);
        if r.is_ok() {
            self.is_shuffled = true;
        }
        r
    }
}

} // verus!
