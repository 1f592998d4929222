use rogue_core::components::{Color, Health, Position, Renderable};
use rogue_core::game::{Game, Intents, MAP_HEIGHT, MAP_WIDTH, TILE_SIZE};

fn no_intents() -> Intents {
    Intents::none()
}

#[test]
fn new_game_initial_state() {
    let game = Game::new();
    assert_eq!(game.map_width(), MAP_WIDTH);
    assert_eq!(game.map_height(), MAP_HEIGHT);
    assert_eq!(game.tile_size(), TILE_SIZE);
    assert_eq!(game.map().len(), (MAP_WIDTH * MAP_HEIGHT) as usize);
    assert!(!game.inventory_swapped());

    let player = game.player();
    assert!(game.world().is_alive(player));
    assert_eq!(game.world().position(player), Some(Position { x: 5, y: 3 }));
    assert_eq!(
        game.world().renderable(player),
        Some(Renderable { glyph: '@', color: Color::Blue })
    );
    assert_eq!(game.world().health(player), Some(Health { max: 5, current: 3 }));
    // The four hostile and decorative entities plus the player hold both
    // Position and Renderable.
    assert_eq!(game.world().join_position_renderable().len(), 5);
}

#[test]
fn move_left_one_frame_moves_one_cell() {
    let mut game = Game::new();
    let player = game.player();
    assert_eq!(game.world().position(player), Some(Position { x: 5, y: 3 }));
    let quit = game.update(Intents { move_left: true, ..no_intents() });
    assert!(!quit);
    assert_eq!(game.world().position(player), Some(Position { x: 4, y: 3 }));
}

#[test]
fn opposite_intents_cancel() {
    let mut game = Game::new();
    let player = game.player();
    game.update(Intents { move_left: true, move_right: true, ..no_intents() });
    assert_eq!(game.world().position(player), Some(Position { x: 5, y: 3 }));
    game.update(Intents { move_up: true, move_down: true, ..no_intents() });
    assert_eq!(game.world().position(player), Some(Position { x: 5, y: 3 }));
}

#[test]
fn each_axis_is_independent() {
    let mut game = Game::new();
    let player = game.player();
    game.update(Intents { move_right: true, move_down: true, ..no_intents() });
    assert_eq!(game.world().position(player), Some(Position { x: 6, y: 4 }));
    game.update(Intents { move_up: true, ..no_intents() });
    assert_eq!(game.world().position(player), Some(Position { x: 6, y: 3 }));
}

#[test]
fn nothing_clamps_movement_to_the_grid() {
    let mut game = Game::new();
    let player = game.player();
    for _ in 0..10 {
        game.update(Intents { move_left: true, ..no_intents() });
    }
    assert_eq!(game.world().position(player), Some(Position { x: -5, y: 3 }));
}

#[test]
fn quit_is_a_signal_to_the_caller() {
    let mut game = Game::new();
    assert!(!game.update(no_intents()));
    assert!(game.update(Intents { quit: true, ..no_intents() }));
    // The game is still usable; quitting is the driver's decision.
    assert!(game.world().is_alive(game.player()));
}

#[test]
fn inventory_swap_is_one_shot() {
    let mut game = Game::new();
    assert!(!game.inventory_swapped());
    game.update(Intents { swap_inventory: true, ..no_intents() });
    assert!(game.inventory_swapped());
    game.update(no_intents());
    assert!(game.inventory_swapped());
}

#[test]
fn health_invariant_holds_before_and_after_frames() {
    let mut game = Game::new();
    let check = |game: &Game| {
        for (id, _, _) in game.world().join_position_renderable() {
            if let Some(h) = game.world().health(id) {
                assert!(0 <= h.current && h.current <= h.max);
            }
        }
    };
    check(&game);
    game.update(Intents { move_left: true, ..no_intents() });
    check(&game);
    game.update(Intents { move_down: true, swap_inventory: true, ..no_intents() });
    check(&game);
}

#[test]
fn frames_leave_other_entities_in_place() {
    let mut game = Game::new();
    let before: Vec<_> = game
        .world()
        .join_position_renderable()
        .into_iter()
        .filter(|t| t.0 != game.player())
        .collect();
    game.update(Intents { move_right: true, ..no_intents() });
    let after: Vec<_> = game
        .world()
        .join_position_renderable()
        .into_iter()
        .filter(|t| t.0 != game.player())
        .collect();
    assert_eq!(before, after);
}

#[test]
fn destroyed_entity_is_gone_after_the_frame() {
    let mut game = Game::new();
    let victim = game
        .world()
        .join_position_renderable()
        .into_iter()
        .find(|t| t.0 != game.player())
        .unwrap()
        .0;
    game.world_mut().destroy(victim);
    game.update(no_intents());
    assert!(!game.world().is_alive(victim));
    assert!(game.world().position(victim).is_none());
    assert!(game.world().renderable(victim).is_none());
    assert!(game.world().health(victim).is_none());
    assert_eq!(game.world().join_position_renderable().len(), 4);
}
