use vstd::prelude::*;
use std::collections::VecDeque;
use crate::player::{PlayLog, PlayLogView};

verus! {

/// A decoded direction with its slide `(dx, dz)`.
#[derive(Clone, Copy, Debug, PartialEq, Eq, Structural)]
pub enum GameInput {
    Up(i32, i32),
    Down(i32, i32),
    Left(i32, i32),
    Right(i32, i32),
}

/// Why an input was not queued.
#[derive(Clone, Copy, Debug, PartialEq, Eq, Structural)]
pub enum GameError {
    /// The queue already holds its capacity.
    BufFull,
    /// The same direction came again before the debounce time passed.
    AbnormalInput,
    /// The slide is not one of the four unit steps.
    InvalidInput,
}

/// Capacity of the input queue.
pub const BUFFER_MAX: usize = 3;

/// Time, in milliseconds, before the same direction is taken again.
pub const DEBOUNCE_MS: u64 = 30;

impl GameInput {
    pub open spec fn dx_spec(self) -> i32 {
        match self {
            GameInput::Up(dx, _) => dx,
            GameInput::Down(dx, _) => dx,
            GameInput::Left(dx, _) => dx,
            GameInput::Right(dx, _) => dx,
        }
    }

    pub open spec fn dy_spec(self) -> i32 {
        match self {
            GameInput::Up(_, dy) => dy,
            GameInput::Down(_, dy) => dy,
            GameInput::Left(_, dy) => dy,
            GameInput::Right(_, dy) => dy,
        }
    }

    pub fn dx(&self) -> (r: i32)
        ensures
            r == self.dx_spec(),
    {
        match self {
            GameInput::Up(dx, _) => *dx,
            GameInput::Down(dx, _) => *dx,
            GameInput::Left(dx, _) => *dx,
            GameInput::Right(dx, _) => *dx,
        }
    }

    pub fn dy(&self) -> (r: i32)
        ensures
            r == self.dy_spec(),
    {
        match self {
            GameInput::Up(_, dy) => *dy,
            GameInput::Down(_, dy) => *dy,
            GameInput::Left(_, dy) => *dy,
            GameInput::Right(_, dy) => *dy,
        }
    }
}

/// The input that a slide `(dx, dz)` gives, with the directions swapped when
/// `inverse` holds; none for a slide that is not a unit step.
pub open spec fn input_for(dx: int, dz: int, inverse: bool) -> Option<GameInput> {
    if dx == 0 && dz == 1 {
        Some(if inverse { GameInput::Down(0, -1i32) } else { GameInput::Up(0, 1) })
    } else if dx == 0 && dz == -1 {
        Some(if inverse { GameInput::Up(0, 1) } else { GameInput::Down(0, -1i32) })
    } else if dx == 1 && dz == 0 {
        Some(if inverse { GameInput::Right(-1i32, 0) } else { GameInput::Left(1, 0) })
    } else if dx == -1 && dz == 0 {
        Some(if inverse { GameInput::Left(1, 0) } else { GameInput::Right(-1i32, 0) })
    } else {
        None
    }
}

/// A queued input, and whether the board's play log records it once it is
/// played (a new move or a redo does; the opposite move of an undo does not).
#[derive(Clone, Copy, Debug, PartialEq, Eq, Structural)]
pub struct QueuedInput {
    pub input: GameInput,
    pub record: bool,
}

/// The bounded queue of inputs waiting for the board, with the last input taken
/// and the time since then.
pub struct InputBuffer {
    buffer: VecDeque<QueuedInput>,
    last_input: Option<GameInput>,
    since_last_ms: u64,
}

pub ghost struct InputBufferView {
    pub buffer: Seq<QueuedInput>,
    pub last_input: Option<GameInput>,
    pub since_last_ms: u64,
}

impl View for InputBuffer {
    type V = InputBufferView;

    closed spec fn view(&self) -> InputBufferView {
        InputBufferView {
            buffer: self.buffer@,
            last_input: self.last_input,
            since_last_ms: self.since_last_ms,
        }
    }
}

impl InputBufferView {
    /// `value` repeats the last input before the debounce time passed.
    pub open spec fn is_bounce(self, value: GameInput) -> bool {
        self.last_input == Some(value) && self.since_last_ms < DEBOUNCE_MS
    }

    /// The queue after `value` is taken: appended, remembered, and the timer restarted.
    pub open spec fn pushed(self, value: GameInput, record: bool) -> InputBufferView {
        InputBufferView {
            buffer: self.buffer.push(QueuedInput { input: value, record }),
            last_input: Some(value),
            since_last_ms: 0,
        }
    }
}

/// What `enqueue_input` does: the error, if any, and the queue after it.
pub open spec fn enqueue_result(
    dx: int,
    dz: int,
    inverse: bool,
    record: bool,
    b: InputBufferView,
) -> (Result<(), GameError>, InputBufferView) {
    if b.buffer.len() >= BUFFER_MAX {
        (Err(GameError::BufFull), b)
    } else {
        match input_for(dx, dz, inverse) {
            None => (Err(GameError::InvalidInput), b),
            Some(value) => if b.is_bounce(value) {
                (Err(GameError::AbnormalInput), b)
            } else {
                (Ok(()), b.pushed(value, record))
            },
        }
    }
}

impl InputBuffer {
    pub fn new() -> (r: InputBuffer)
        ensures
            r@.buffer == Seq::<QueuedInput>::empty(),
            r@.last_input is None,
            r@.since_last_ms == 0,
    {
        InputBuffer { buffer: VecDeque::new(), last_input: None, since_last_ms: 0 }
    }

    /// The number of queued inputs.
    pub fn len(&self) -> (r: usize)
        ensures
            r == self@.buffer.len(),
    {
        self.buffer.len()
    }

    fn push(&mut self, value: GameInput, record: bool)
        ensures
            final(self)@ == old(self)@.pushed(value, record),
    {
        self.buffer.push_back(QueuedInput { input: value, record });
        self.last_input = Some(value);
        self.since_last_ms = 0;
    }

    /// Takes the oldest queued input.
    pub fn pop(&mut self) -> (r: Option<QueuedInput>)
        ensures
            old(self)@.buffer.len() == 0 ==> r is None && final(self)@ == old(self)@,
            old(self)@.buffer.len() > 0 ==> r == Some(old(self)@.buffer[0]) && final(self)@ == (
            InputBufferView { buffer: old(self)@.buffer.drop_first(), ..old(self)@ }),
    {
        self.buffer.pop_front()
    }

    /// Lets `delta_ms` milliseconds pass on the debounce timer (saturating).
    pub fn tick(&mut self, delta_ms: u64)
        ensures
            final(self)@.buffer == old(self)@.buffer,
            final(self)@.last_input == old(self)@.last_input,
            final(self)@.since_last_ms == (if old(self)@.since_last_ms + delta_ms <= u64::MAX {
                (old(self)@.since_last_ms + delta_ms) as u64
            } else {
                u64::MAX
            }),
    {
        self.since_last_ms = self.since_last_ms.saturating_add(delta_ms);
    }

    /// Queues `value` unless it repeats the last input within the debounce time.
    pub fn try_push(&mut self, value: GameInput, record: bool) -> (r: Result<(), GameError>)
        ensures
            old(self)@.is_bounce(value) ==> r == Err::<(), GameError>(GameError::AbnormalInput)
                && final(self)@ == old(self)@,
            !old(self)@.is_bounce(value) ==> r == Ok::<(), GameError>(()) && final(self)@ == old(
                self,
            )@.pushed(value, record),
    {
        let repeated = match self.last_input {
            Some(last) => last == value,
            None => false,
        };
        if repeated && self.since_last_ms < DEBOUNCE_MS {
            Err(GameError::AbnormalInput)
        } else {
            self.push(value, record);
            Ok(())
        }
    }
}

/// Queues the input of slide `(dx, dz)`, with the directions swapped when
/// `inverse` holds; `record` says whether the play log takes it once played.
/// Fails when the queue is full, when the slide is no unit step, or when the
/// same input repeats within the debounce time.
pub fn enqueue_input(
    dx: i32,
    dz: i32,
    inverse: bool,
    record: bool,
    input_buffer: &mut InputBuffer,
) -> (r: Result<(), GameError>)
    ensures
        (r, final(input_buffer)@) == enqueue_result(
            dx as int,
            dz as int,
            inverse,
            record,
            old(input_buffer)@,
        ),
{
    if input_buffer.len() < BUFFER_MAX {
        if dx == 0 && dz == 1 {
            if inverse {
                input_buffer.try_push(GameInput::Down(0, -1), record)
            } else {
                input_buffer.try_push(GameInput::Up(0, 1), record)
            }
        } else if dx == 0 && dz == -1 {
            if inverse {
                input_buffer.try_push(GameInput::Up(0, 1), record)
            } else {
                input_buffer.try_push(GameInput::Down(0, -1), record)
            }
        } else if dx == 1 && dz == 0 {
            if inverse {
                input_buffer.try_push(GameInput::Right(-1, 0), record)
            } else {
                input_buffer.try_push(GameInput::Left(1, 0), record)
            }
        } else if dx == -1 && dz == 0 {
            if inverse {
                input_buffer.try_push(GameInput::Left(1, 0), record)
            } else {
                input_buffer.try_push(GameInput::Right(-1, 0), record)
            }
        } else {
            Err(GameError::InvalidInput)
        }
    } else {
        Err(GameError::BufFull)
    }
}

/// The queue never holds more than its capacity: an input is queued only while
/// fewer than `BUFFER_MAX` wait, and with `BUFFER_MAX` waiting the next one is
/// refused as `BufFull`.
pub proof fn lemma_enqueue_bounded(
    dx: int,
    dz: int,
    inverse: bool,
    record: bool,
    b: InputBufferView,
)
    requires
        b.buffer.len() <= BUFFER_MAX,
    ensures
        enqueue_result(dx, dz, inverse, record, b).1.buffer.len() <= BUFFER_MAX,
        b.buffer.len() == BUFFER_MAX ==> enqueue_result(dx, dz, inverse, record, b).0 == Err::<
            (),
            GameError,
        >(GameError::BufFull),
{
}

/// The player's entry points: a new direction, undo and redo.
pub struct InputHandler;

/// The input that takes back `c`: the opposite direction.
pub open spec fn inverse_of(c: GameInput) -> Option<GameInput> {
    input_for(c.dx_spec() as int, c.dy_spec() as int, true)
}

impl InputHandler {
    /// Queues a new direction, to be recorded once played; when it is queued,
    /// the redo stack is emptied.
    pub fn direction(
        dx: i32,
        dz: i32,
        inverse: bool,
        input_buffer: &mut InputBuffer,
        play_log: &mut PlayLog,
    ) -> (r: Result<(), GameError>)
        ensures
            ({
                let (e, b) = enqueue_result(dx as int, dz as int, inverse, true, old(input_buffer)@);
                &&& r == e
                &&& final(input_buffer)@ == b
                &&& final(play_log)@ == (if e is Ok {
                    PlayLogView { redo_buffer: Seq::<GameInput>::empty(), ..old(play_log)@ }
                } else {
                    old(play_log)@
                })
            }),
    {
        let r = enqueue_input(dx, dz, inverse, true, input_buffer);
        match r {
            Ok(_) => play_log.clear_redo_buf(),
            Err(_) => {},
        }
        r
    }

    /// Takes back the latest recorded move: queues its opposite direction (not
    /// to be recorded) and moves the move onto the redo stack. When the queue
    /// refuses it, nothing changes.
    pub fn undo(input_buffer: &mut InputBuffer, play_log: &mut PlayLog)
        ensures
            old(play_log)@.play_log.len() == 0 ==> final(input_buffer)@ == old(input_buffer)@
                && final(play_log)@ == old(play_log)@,
            old(play_log)@.play_log.len() > 0 ==> ({
                let c = old(play_log)@.play_log.last();
                let (e, b) = enqueue_result(
                    c.dx_spec() as int,
                    c.dy_spec() as int,
                    true,
                    false,
                    old(input_buffer)@,
                );
                &&& final(input_buffer)@ == b
                &&& e is Ok ==> final(play_log)@ == (PlayLogView {
                    play_log: old(play_log)@.play_log.drop_last(),
                    redo_buffer: old(play_log)@.redo_buffer.push(c),
                    undo_used: true,
                })
                &&& e is Err ==> final(play_log)@ == old(play_log)@
            }),
    {
        let log = play_log.undo();
        if let Some(input) = log {
            match enqueue_input(input.dx(), input.dy(), true, false, input_buffer) {
                Ok(_) => {
                    play_log.add_redo(input);
                    play_log.set_undo_used(true);
                },
                Err(_) => {
                    play_log.add_log(input);
                    proof {
                        assert(play_log@.play_log =~= old(play_log)@.play_log);
                    }
                },
            }
        }
    }

    /// Plays again the latest undone move: queues it, to be recorded once
    /// played. When the queue refuses it, nothing changes.
    pub fn redo(input_buffer: &mut InputBuffer, play_log: &mut PlayLog)
        ensures
            old(play_log)@.redo_buffer.len() == 0 ==> final(input_buffer)@ == old(input_buffer)@
                && final(play_log)@ == old(play_log)@,
            old(play_log)@.redo_buffer.len() > 0 ==> ({
                let c = old(play_log)@.redo_buffer.last();
                let (e, b) = enqueue_result(
                    c.dx_spec() as int,
                    c.dy_spec() as int,
                    false,
                    true,
                    old(input_buffer)@,
                );
                &&& final(input_buffer)@ == b
                &&& e is Ok ==> final(play_log)@ == (PlayLogView {
                    redo_buffer: old(play_log)@.redo_buffer.drop_last(),
                    ..old(play_log)@
                })
                &&& e is Err ==> final(play_log)@ == old(play_log)@
            }),
    {
        let log = play_log.redo();
        if let Some(input) = log {
            match enqueue_input(input.dx(), input.dy(), false, true, input_buffer) {
                Ok(_) => {},
                Err(_) => {
                    play_log.add_redo(input);
                    proof {
                        assert(play_log@.redo_buffer =~= old(play_log)@.redo_buffer);
                    }
                },
            }
        }
    }
}

} // verus!
