use dice_puzzle::duration::{clock_string, duration_to_string};
use dice_puzzle::game::Game;
use dice_puzzle::input::{
    enqueue_input, GameError, GameInput, InputBuffer, InputHandler, QueuedInput, BUFFER_MAX, DEBOUNCE_MS,
};
use dice_puzzle::network::NetworkError;
use dice_puzzle::player::{PlayLog, PlayerState};
use dice_puzzle::ui::{
    button_hover_system, ButtonInfoBundle, HoverTimer, InfoText, Interaction, InteractionHistory,
    PopupStatisticsTextType, HOVER_DELAY_MS,
};
use std::time::Duration;

#[test]
fn queue_never_exceeds_capacity() {
    let mut b = InputBuffer::new();
    assert_eq!(enqueue_input(0, 1, false, true, &mut b), Ok(()));
    assert_eq!(enqueue_input(1, 0, false, true, &mut b), Ok(()));
    assert_eq!(enqueue_input(0, -1, false, true, &mut b), Ok(()));
    assert_eq!(b.len(), BUFFER_MAX);
    assert_eq!(enqueue_input(-1, 0, false, true, &mut b), Err(GameError::BufFull));
    assert_eq!(b.len(), BUFFER_MAX);
    assert_eq!(b.pop(), Some(QueuedInput { input: GameInput::Up(0, 1), record: true }));
    assert_eq!(b.pop().map(|q| q.input), Some(GameInput::Left(1, 0)));
    assert_eq!(b.pop().map(|q| q.input), Some(GameInput::Down(0, -1)));
    assert_eq!(b.pop(), None);
}

#[test]
fn invalid_and_bouncing_inputs_are_refused() {
    let mut b = InputBuffer::new();
    assert_eq!(enqueue_input(2, 0, false, true, &mut b), Err(GameError::InvalidInput));
    assert_eq!(enqueue_input(1, 1, false, true, &mut b), Err(GameError::InvalidInput));
    assert_eq!(enqueue_input(0, 1, false, true, &mut b), Ok(()));
    assert_eq!(enqueue_input(0, 1, false, true, &mut b), Err(GameError::AbnormalInput));
    b.tick(DEBOUNCE_MS - 1);
    assert_eq!(enqueue_input(0, 1, false, true, &mut b), Err(GameError::AbnormalInput));
    b.tick(1);
    assert_eq!(enqueue_input(0, 1, false, true, &mut b), Ok(()));
    assert_eq!(b.len(), 2);
}

#[test]
fn inversion_swaps_directions() {
    let mut b = InputBuffer::new();
    assert_eq!(enqueue_input(0, 1, true, true, &mut b), Ok(()));
    assert_eq!(enqueue_input(-1, 0, true, true, &mut b), Ok(()));
    assert_eq!(b.pop().map(|q| q.input), Some(GameInput::Down(0, -1)));
    assert_eq!(b.pop().map(|q| q.input), Some(GameInput::Left(1, 0)));
    let input = GameInput::Right(-1, 0);
    assert_eq!((input.dx(), input.dy()), (-1, 0));
}

fn settle(game: &mut Game) {
    for _ in 0..4 {
        game.update(0, true);
        game.update(DEBOUNCE_MS, true);
    }
}

#[test]
fn undo_and_redo_restore_the_board() {
    let mut game = Game::new(4);
    let draws: Vec<u32> = (0..15).map(|i| i * 11 + 5).collect();
    game.shuffle_with(&draws, 1, 1);
    let start = game.snapshot().unwrap().0;
    assert_eq!(game.direction(0, 1, false), Ok(()));
    settle(&mut game);
    let after_one = game.snapshot().unwrap().0;
    assert_ne!(after_one, start);
    assert_eq!(game.direction(-1, 0, false), Ok(()));
    settle(&mut game);
    let after_two = game.snapshot().unwrap().0;
    assert_ne!(after_two, after_one);

    game.undo();
    settle(&mut game);
    assert_eq!(game.snapshot().unwrap().0, after_one);
    game.undo();
    settle(&mut game);
    assert_eq!(game.snapshot().unwrap().0, start);
    game.redo();
    settle(&mut game);
    assert_eq!(game.snapshot().unwrap().0, after_one);
    game.redo();
    settle(&mut game);
    assert_eq!(game.snapshot().unwrap().0, after_two);
}

#[test]
fn only_played_moves_are_logged_and_counted() {
    let mut game = Game::new(3);
    game.shuffle_with(&vec![0u32; 8], 0, 0);
    assert_eq!(game.state(), PlayerState::Shuffled);
    // (1, 0) points off the board from the last cell: taken, refused, not logged.
    assert_eq!(game.direction(1, 0, false), Ok(()));
    settle(&mut game);
    assert_eq!(game.input_buffer().len(), 0);
    assert_eq!(game.state(), PlayerState::Shuffled);
    assert_eq!(game.player_info().get_player_info().1, 0);
    game.undo();
    assert_eq!(game.input_buffer().len(), 0);
    // A played move is logged and counted.
    assert_eq!(game.direction(-1, 0, false), Ok(()));
    settle(&mut game);
    assert_eq!(game.state(), PlayerState::Solving);
    assert_eq!(game.player_info().get_player_info().1, 1);
    game.undo();
    assert_eq!(game.input_buffer().len(), 1);
    settle(&mut game);
    assert!(game.grid().is_solved());
    // The undo's opposite move is counted but not logged: nothing more to undo.
    assert_eq!(game.player_info().get_player_info().1, 2);
    game.undo();
    assert_eq!(game.input_buffer().len(), 0);
    game.clear_log();
    game.redo();
    game.undo();
    assert_eq!(game.input_buffer().len(), 0);
}

#[test]
fn refused_undo_keeps_the_log() {
    let mut b = InputBuffer::new();
    let mut log = PlayLog::new();
    log.add_log(GameInput::Up(0, 1));
    log.add_log(GameInput::Left(1, 0));
    for (dx, dz) in [(0, 1), (1, 0), (0, -1)] {
        assert_eq!(InputHandler::direction(dx, dz, false, &mut b, &mut log), Ok(()));
    }
    // The queue is full: the undo is refused and the move stays logged.
    InputHandler::undo(&mut b, &mut log);
    assert_eq!(b.len(), 3);
    assert_eq!(log.undo(), Some(GameInput::Left(1, 0)));
    log.add_log(GameInput::Left(1, 0));
    let _ = b.pop();
    InputHandler::undo(&mut b, &mut log);
    assert_eq!(b.len(), 3);
    assert!(log.undo_used);
    // The opposite of Left is queued, not to be recorded; Left waits for a redo.
    let _ = b.pop();
    let _ = b.pop();
    assert_eq!(b.pop(), Some(QueuedInput { input: GameInput::Right(-1, 0), record: false }));
    assert_eq!(log.redo(), Some(GameInput::Left(1, 0)));
    log.add_redo(GameInput::Left(1, 0));
    InputHandler::redo(&mut b, &mut log);
    assert_eq!(b.pop(), Some(QueuedInput { input: GameInput::Left(1, 0), record: true }));
    assert_eq!(log.redo(), None);
    // A new direction empties the redo stack.
    log.add_redo(GameInput::Up(0, 1));
    b.tick(DEBOUNCE_MS);
    assert_eq!(InputHandler::direction(0, 1, false, &mut b, &mut log), Ok(()));
    assert_eq!(log.redo(), None);
    log.reset();
    assert_eq!(log.undo(), None);
    assert!(!log.undo_used);
}

#[test]
fn clock_text_of_durations() {
    assert_eq!(duration_to_string(Duration::from_millis(83_456)), "01:23.45");
    assert_eq!(duration_to_string(Duration::from_millis(0)), "00:00.00");
    assert_eq!(duration_to_string(Duration::from_secs(6000)), "100:00.00");
    assert_eq!(clock_string(59, 999), "00:59.99");
    assert_eq!(clock_string(61, 5), "01:01.00");
}

#[test]
fn info_text_lines() {
    let t = InfoText::new();
    assert_eq!(t.text, vec!["R: Shuffle", "V: Solved", "Esc: Quit"]);
}

#[test]
fn hover_shows_description_after_delay() {
    let bundle = ButtonInfoBundle::new();
    let mut h = bundle.interaction_history;
    let mut t = bundle.hover_timer;
    let v = button_hover_system(Interaction::Hovered, true, &mut h, &mut t, 100, true);
    assert!(!v);
    assert_eq!(h, InteractionHistory { prev: Interaction::Outside, curr: Interaction::Hovered });
    assert_eq!(t, HoverTimer { elapsed_ms: 100 });
    let v = button_hover_system(Interaction::Hovered, false, &mut h, &mut t, 500, v);
    assert!(!v);
    let v = button_hover_system(Interaction::Hovered, false, &mut h, &mut t, 100, v);
    assert!(v);
    assert_eq!(t.elapsed_ms, HOVER_DELAY_MS);
    let v = button_hover_system(Interaction::Hovered, false, &mut h, &mut t, 100, v);
    assert!(v);
    let v = button_hover_system(Interaction::Clicked, true, &mut h, &mut t, 100, v);
    assert!(!v);
    assert_eq!(h, InteractionHistory { prev: Interaction::Hovered, curr: Interaction::Clicked });
}

#[test]
fn plain_kinds() {
    assert_ne!(NetworkError::KeyAlreadyExist, NetworkError::NoEntry);
    assert_ne!(PopupStatisticsTextType::Best, PopupStatisticsTextType::Worst);
}

