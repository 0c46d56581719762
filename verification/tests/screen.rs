use hecs::Entity;
use spaceship::components::{CellPosition, Colour, Counter};
use spaceship::controller::{
    after_frame, after_prompt, prompt_decision, Decision, Game, Input, Phase,
};
use spaceship::render::{cell_pixel_size, game_over_lines, render};
use spaceship::round::{create_new_world, RoundState};
use spaceship::text::score_text;

fn keys(right: bool, left: bool, space: bool, enter: bool) -> Input {
    Input { right, left, space, enter }
}

#[test]
fn score_text_is_the_decimal_score() {
    assert_eq!(score_text(0), "Score: 0");
    assert_eq!(score_text(7), "Score: 7");
    assert_eq!(score_text(10), "Score: 10");
    assert_eq!(score_text(1234567890), "Score: 1234567890");
    assert_eq!(score_text(u64::MAX), "Score: 18446744073709551615");
}

#[test]
fn cell_size_is_rounded_down() {
    assert_eq!(cell_pixel_size(800, 20), 40);
    assert_eq!(cell_pixel_size(805, 20), 40);
    assert_eq!(cell_pixel_size(819, 20), 40);
    assert_eq!(cell_pixel_size(820, 20), 41);
    assert_eq!(cell_pixel_size(10, 20), 0);
}

#[test]
fn render_of_a_new_round() {
    let mut round = create_new_world((20, 20));
    let frame = render(&mut round.world, (40, 30));
    assert_eq!(frame.background, Colour::Black);
    assert_eq!(frame.rectangles.len(), 1);
    let ship = frame.rectangles[0];
    assert_eq!(ship.entity, round.handles.ship);
    assert_eq!((ship.x, ship.y, ship.width, ship.height), (400, 540, 40, 30));
    assert_eq!(ship.colour, Colour::Red);
    assert_eq!(frame.labels.len(), 1);
    let label = &frame.labels[0];
    assert_eq!(label.entity, round.handles.score_counter);
    assert_eq!(label.text, "Score: 0");
    assert_eq!((label.x, label.y), (10, 30));
    assert_eq!(label.font_size, 30);
    assert_eq!(label.colour, Colour::White);
}

#[test]
fn render_draws_every_enemy_once() {
    let mut round = create_new_world((20, 20));
    let spawned = round.factory_tick_with(4);
    let frame = render(&mut round.world, (10, 10));
    assert_eq!(frame.rectangles.len(), 21);
    for handle in spawned.iter() {
        let drawn: Vec<_> = frame.rectangles.iter().filter(|r| r.entity == *handle).collect();
        assert_eq!(drawn.len(), 1);
        assert_eq!(drawn[0].colour, Colour::Blue);
        assert_eq!(drawn[0].y, 0);
        assert_eq!((drawn[0].width, drawn[0].height), (10, 10));
        assert_ne!(drawn[0].x, 40);
    }
    assert_eq!(round.world.len(), 24);
}

#[test]
fn render_with_the_largest_values_does_not_overflow() {
    let mut round = create_new_world((u16::MAX, u16::MAX));
    let frame = render(&mut round.world, (u32::MAX, u32::MAX));
    assert_eq!(frame.rectangles[0].x, 32767 * 4294967295);
    assert_eq!(frame.rectangles[0].y, 65533 * 4294967295);
}

#[test]
fn game_over_screen_has_three_lines() {
    let lines = game_over_lines(12);
    assert_eq!(lines.len(), 3);
    assert_eq!(lines[0], "Game Over!");
    assert_eq!(lines[1], "Press [SPACE] to continue | [ENTER] to quit...");
    assert_eq!(lines[2], "Score: 12");
}

#[test]
fn prompt_knows_two_keys() {
    assert_eq!(prompt_decision(true, false), Some(Decision::Restart));
    assert_eq!(prompt_decision(false, true), Some(Decision::Quit));
    assert_eq!(prompt_decision(false, false), None);
    assert_eq!(prompt_decision(true, true), Some(Decision::Restart));
}

#[test]
fn phases_follow_the_round_and_the_prompt() {
    assert_eq!(after_frame(RoundState::Running, 3), Phase::Round(3));
    assert_eq!(after_frame(RoundState::Ended, 3), Phase::GameOverPrompt(3));
    assert_eq!(after_prompt(3, true, false), Phase::Round(0));
    assert_eq!(after_prompt(3, false, true), Phase::Quit);
    assert_eq!(after_prompt(3, false, false), Phase::GameOverPrompt(3));
}

#[test]
fn restart_gives_a_fresh_round() {
    let over = Game::Over { score: 5, grid: (20, 20) };
    match over.advance(keys(false, false, true, false)) {
        Game::Playing(mut round) => {
            assert_eq!(round.grid, (20, 20));
            assert_eq!(round.world.len(), 4);
            assert_eq!(round.current_score(), 0);
            let ship = Entity::from_bits(round.handles.ship).unwrap();
            let at = round.world.query_one_mut::<&CellPosition>(ship).unwrap();
            assert_eq!((at.0, at.1), (10, 18));
        }
        _ => panic!("space at the prompt starts a round"),
    }
}

#[test]
fn enter_at_the_prompt_quits() {
    let over = Game::Over { score: 5, grid: (20, 20) };
    assert!(matches!(over.advance(keys(false, false, false, true)), Game::Quit));
    assert!(matches!(Game::Quit.advance(keys(true, true, true, true)), Game::Quit));
}

#[test]
fn other_keys_leave_the_prompt_waiting() {
    let over = Game::Over { score: 5, grid: (20, 20) };
    match over.advance(keys(true, true, false, false)) {
        Game::Over { score, grid } => {
            assert_eq!(score, 5);
            assert_eq!(grid, (20, 20));
        }
        _ => panic!("the prompt waits"),
    }
}

#[test]
fn a_game_runs_into_the_prompt_and_starts_again() {
    let mut game = Game::new((20, 20));
    let mut frames = 0;
    let idle = keys(false, false, false, false);
    while let Game::Playing(_) = game {
        game = game.advance(idle);
        frames += 1;
        assert!(frames < 5000);
    }
    match game {
        Game::Over { score, grid } => {
            assert_eq!(grid, (20, 20));
            assert!(score <= 1 + frames / 120);
        }
        _ => panic!("a round ends at the prompt"),
    }
    match game.advance(keys(false, false, true, false)) {
        Game::Playing(mut round) => {
            let score = Entity::from_bits(round.handles.score_counter).unwrap();
            assert_eq!(round.world.query_one_mut::<&Counter>(score).unwrap().0, 0);
        }
        _ => panic!("space at the prompt starts a round"),
    }
}
