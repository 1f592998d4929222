use rogue_core::components::{Color, Health, Position, Renderable};
use rogue_core::game::Game;
use rogue_core::render::{
    compose, health_bar_current_width, Dim, DrawCommand, GlyphTable, TextDims, TextImage,
    FULL_HEALTH_BAR_WIDTH, MAP_OFFSET_X, MAP_OFFSET_Y,
};

fn text_dims() -> TextDims {
    TextDims {
        title: Dim { w: 400, h: 80 },
        mononoki_info: Dim { w: 300, h: 20 },
        square_info: Dim { w: 280, h: 20 },
        inventory: Dim { w: 150, h: 90 },
    }
}

fn screen() -> Dim {
    Dim { w: 800, h: 600 }
}

fn count_glyph_blits(cmds: &[DrawCommand]) -> usize {
    cmds.iter().filter(|c| matches!(c, DrawCommand::BlitGlyph { .. })).count()
}

fn count_fills(cmds: &[DrawCommand]) -> usize {
    cmds.iter().filter(|c| matches!(c, DrawCommand::Fill { .. })).count()
}

fn count_text_blits(cmds: &[DrawCommand]) -> usize {
    cmds.iter().filter(|c| matches!(c, DrawCommand::Blit { .. })).count()
}

#[test]
fn full_frame_has_every_layer_in_order() {
    let game = Game::new();
    let glyphs = GlyphTable::standard();
    let cmds = compose(&game, Some(text_dims()), Some(&glyphs), screen());
    // 1 title + 2 credits + 300 tiles + 5 entities + 2 health fills + 1 inventory.
    assert_eq!(cmds.len(), 311);
    assert!(matches!(cmds[0], DrawCommand::Blit { image: TextImage::Title, .. }));
    assert!(matches!(cmds[1], DrawCommand::Blit { image: TextImage::MononokiCredit, .. }));
    assert!(matches!(cmds[2], DrawCommand::Blit { image: TextImage::SquareCredit, .. }));
    for k in 3..303 {
        assert!(matches!(cmds[k], DrawCommand::BlitGlyph { .. }));
    }
    for k in 303..308 {
        assert!(matches!(cmds[k], DrawCommand::BlitGlyph { .. }));
    }
    assert!(matches!(cmds[308], DrawCommand::Fill { translucent: true, .. }));
    assert!(matches!(cmds[309], DrawCommand::Fill { translucent: false, .. }));
    assert!(matches!(cmds[310], DrawCommand::Blit { image: TextImage::Inventory, .. }));
}

#[test]
fn title_is_centered_and_credits_sit_at_the_bottom() {
    let game = Game::new();
    let glyphs = GlyphTable::standard();
    let cmds = compose(&game, Some(text_dims()), Some(&glyphs), screen());
    match cmds[0] {
        DrawCommand::Blit { rect, .. } => {
            assert_eq!(rect.x, 800 / 2 - 400 / 2);
            assert_eq!(rect.y, 40 - 80 / 2);
            assert_eq!((rect.w, rect.h), (400, 80));
        },
        _ => panic!("expected the title blit first"),
    }
    match cmds[1] {
        DrawCommand::Blit { rect, .. } => assert_eq!((rect.x, rect.y), (2, 540)),
        _ => panic!("expected a credit blit"),
    }
    match cmds[2] {
        DrawCommand::Blit { rect, .. } => assert_eq!((rect.x, rect.y), (2, 570)),
        _ => panic!("expected a credit blit"),
    }
}

#[test]
fn entities_are_drawn_at_offset_plus_position_times_tile_size() {
    let game = Game::new();
    let glyphs = GlyphTable::standard();
    let cmds = compose(&game, Some(text_dims()), Some(&glyphs), screen());
    // The player is created last, so it is the last entity command.
    match cmds[307] {
        DrawCommand::BlitGlyph { glyph, color, rect } => {
            assert_eq!(glyph, '@');
            assert_eq!(color, Color::Blue);
            assert_eq!(rect.x, (MAP_OFFSET_X as i64) + 5 * 24);
            assert_eq!(rect.y, (MAP_OFFSET_Y as i64) + 3 * 24);
            assert_eq!((rect.w, rect.h), (24, 24));
        },
        _ => panic!("expected the player's glyph blit"),
    }
}

#[test]
fn health_bar_shows_backing_and_current_width() {
    let game = Game::new();
    let glyphs = GlyphTable::standard();
    let cmds = compose(&game, Some(text_dims()), Some(&glyphs), screen());
    let bar_x = (MAP_OFFSET_X as i64) + 20 * 24;
    match cmds[308] {
        DrawCommand::Fill { color, translucent, rect } => {
            assert_eq!(color, Color::Red);
            assert!(translucent);
            assert_eq!((rect.x, rect.y), (bar_x, MAP_OFFSET_Y as i64));
            assert_eq!(rect.w, FULL_HEALTH_BAR_WIDTH as i64);
        },
        _ => panic!("expected the backing fill"),
    }
    match cmds[309] {
        DrawCommand::Fill { translucent, rect, .. } => {
            assert!(!translucent);
            // Health 3 of 5 over a 100-pixel bar.
            assert_eq!(rect.w, 60);
        },
        _ => panic!("expected the current fill"),
    }
}

#[test]
fn missing_font_skips_exactly_the_text_layers() {
    let game = Game::new();
    let glyphs = GlyphTable::standard();
    let cmds = compose(&game, None, Some(&glyphs), screen());
    assert_eq!(cmds.len(), 307);
    assert_eq!(count_text_blits(&cmds), 0);
    assert_eq!(count_glyph_blits(&cmds), 305);
    assert_eq!(count_fills(&cmds), 2);
}

#[test]
fn missing_tileset_skips_map_and_entities() {
    let game = Game::new();
    let cmds = compose(&game, Some(text_dims()), None, screen());
    assert_eq!(cmds.len(), 6);
    assert_eq!(count_glyph_blits(&cmds), 0);
    assert_eq!(count_text_blits(&cmds), 4);
    assert_eq!(count_fills(&cmds), 2);
}

#[test]
fn no_assets_yield_no_commands_and_no_error_but_health() {
    let game = Game::new();
    let cmds = compose(&game, None, None, screen());
    assert_eq!(cmds.len(), 2);
    assert_eq!(count_fills(&cmds), 2);
}

#[test]
fn unresolved_glyph_skips_that_entity_silently() {
    let mut game = Game::new();
    let stranger = game.world_mut().create_entity();
    game.world_mut().insert_position(stranger, Position { x: 8, y: 8 });
    game.world_mut().insert_renderable(stranger, Renderable { glyph: 'z', color: Color::White });
    let glyphs = GlyphTable::standard();
    let cmds = compose(&game, Some(text_dims()), Some(&glyphs), screen());
    // Six entities hold both components, but 'z' does not resolve: the
    // stranger contributes zero commands and nothing fails.
    assert_eq!(game.world().join_position_renderable().len(), 6);
    assert_eq!(cmds.len(), 311);
    assert!(cmds.iter().all(|c| !matches!(c, DrawCommand::BlitGlyph { glyph: 'z', .. })));
}

#[test]
fn zero_max_health_skips_the_bar_layer() {
    let mut game = Game::new();
    let player = game.player();
    game.world_mut().insert_health(player, Health { max: 0, current: 0 });
    let glyphs = GlyphTable::standard();
    let cmds = compose(&game, Some(text_dims()), Some(&glyphs), screen());
    assert_eq!(count_fills(&cmds), 0);
    assert_eq!(cmds.len(), 309);
}

#[test]
fn absent_player_health_skips_the_bar_layer() {
    let mut game = Game::new();
    let player = game.player();
    game.world_mut().remove_health(player);
    let glyphs = GlyphTable::standard();
    let cmds = compose(&game, Some(text_dims()), Some(&glyphs), screen());
    assert_eq!(count_fills(&cmds), 0);
}

#[test]
fn current_width_of_three_fifths_of_100_is_60() {
    let w = health_bar_current_width(3, 5, 100);
    assert_eq!(w, 60);
    assert_eq!(w as f32, 60.0f32);
    assert_eq!(w as f64, 60.0f64);
}

#[test]
fn current_width_is_monotone_zero_at_zero_full_at_max() {
    let max = 7;
    let full = 100;
    assert_eq!(health_bar_current_width(0, max, full), 0);
    assert_eq!(health_bar_current_width(max, max, full), full);
    let mut last = 0;
    for c in 0..=max {
        let w = health_bar_current_width(c, max, full);
        assert!(w >= last);
        assert!(w <= full);
        last = w;
    }
}

#[test]
fn glyph_table_answers_membership() {
    let glyphs = GlyphTable::standard();
    assert!(glyphs.has('#'));
    assert!(glyphs.has('@'));
    assert!(glyphs.has('g'));
    assert!(glyphs.has('.'));
    assert!(glyphs.has('%'));
    assert!(!glyphs.has('z'));
    let mut table = GlyphTable::empty();
    assert!(!table.has('a'));
    table.add('a');
    assert!(table.has('a'));
}
