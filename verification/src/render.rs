//! The render composer: turn the grid, the joined (Position, Renderable)
//! stream and the player's Health into an ordered sequence of draw commands.
//!
//! The layering is fixed, back to front: title text, two credit lines, map
//! tiles, entities, the health bar, the inventory text. A layer whose source
//! asset is not ready yet is skipped for this frame — a valid transient
//! state, never an error — and a glyph missing from the glyph table silently
//! skips that single draw. All geometry is in whole pixels; a cell or entity
//! at grid coordinate `c` is drawn at `offset + c * tile_size`.

use vstd::prelude::*;
use vstd::arithmetic::div_mod::{lemma_div_is_ordered, lemma_div_multiples_vanish};
use vstd::arithmetic::mul::lemma_mul_inequality;
use crate::components::{Color, Health, Position, Renderable};
use crate::entity::EntityId;
use crate::game::Game;
use crate::grid::{lemma_cell_coords_in_range, Tile};
use crate::join::joined_of;
use crate::world::World;

verus! {

/// Horizontal pixel offset of the map's top-left corner.
pub const MAP_OFFSET_X: i32 = 50;

/// Vertical pixel offset of the map's top-left corner.
pub const MAP_OFFSET_Y: i32 = 120;

/// Vertical center of the title text, in pixels from the top.
pub const TITLE_CENTER_Y: i32 = 40;

/// Left margin of the credit lines, in pixels.
pub const CREDIT_X: i32 = 2;

/// Distance of the first credit line from the bottom of the screen.
pub const CREDIT_FIRST_BOTTOM_OFFSET: i32 = 60;

/// Distance of the second credit line from the bottom of the screen.
pub const CREDIT_SECOND_BOTTOM_OFFSET: i32 = 30;

/// Width of the full health-bar backing rectangle, in pixels.
pub const FULL_HEALTH_BAR_WIDTH: u32 = 100;

/// A width and height in pixels, as the asset collaborator measures a
/// rendered text image.
#[derive(Clone, Copy, Debug, PartialEq, Eq, Structural)]
pub struct Dim {
    pub w: u32,
    pub h: u32,
}

/// Pixel dimensions of the four rendered text images. Present only once the
/// font asset has loaded; absent while it is still loading.
#[derive(Clone, Copy, Debug, PartialEq, Eq, Structural)]
pub struct TextDims {
    pub title: Dim,
    pub mononoki_info: Dim,
    pub square_info: Dim,
    pub inventory: Dim,
}

/// Which pre-rendered text image a blit refers to.
#[derive(Clone, Copy, Debug, PartialEq, Eq, Structural)]
pub enum TextImage {
    Title,
    MononokiCredit,
    SquareCredit,
    Inventory,
}

/// An axis-aligned pixel rectangle.
#[derive(Clone, Copy, Debug, PartialEq, Eq, Structural)]
pub struct Rect {
    pub x: i64,
    pub y: i64,
    pub w: i64,
    pub h: i64,
}

/// One draw command for the renderer collaborator, back-to-front ordered.
#[derive(Clone, Copy, Debug, PartialEq, Eq, Structural)]
pub enum DrawCommand {
    /// Blit a whole pre-rendered text image at a rectangle.
    Blit { image: TextImage, rect: Rect },
    /// Blit a glyph's tile image at a rectangle, tinted by a color.
    BlitGlyph { glyph: char, color: Color, rect: Rect },
    /// Fill a rectangle with a color, opaquely or translucently.
    Fill { color: Color, translucent: bool, rect: Rect },
}

/// The set of glyphs the loaded tileset can draw. An entity or tile whose
/// glyph is not here is silently skipped.
pub struct GlyphTable {
    glyphs: Vec<char>,
}

impl GlyphTable {
    /// The set of resolvable glyphs.
    pub closed spec fn spec_set(self) -> Set<char> {
        Set::new(|c: char| self.glyphs@.contains(c))
    }

    /// An empty glyph table.
    pub fn empty() -> (r: GlyphTable)
        ensures
            r.spec_set() == Set::<char>::empty(),
    {
        let r = GlyphTable { glyphs: Vec::new() };
        proof {
            assert(r.spec_set() =~= Set::<char>::empty());
        }
        r
    }

    /// Make one more glyph resolvable.
    pub fn add(&mut self, c: char)
        ensures
            final(self).spec_set() == old(self).spec_set().insert(c),
    {
        let ghost before = self.glyphs@;
        self.glyphs.push(c);
        proof {
            assert forall|x: char| #[trigger] self.glyphs@.contains(x) implies (before.contains(x)
                || x == c) by {
                let w = choose|w: int| 0 <= w < self.glyphs@.len() && self.glyphs@[w] == x;
                if w < before.len() {
                    assert(before[w] == x);
                }
            }
            assert forall|x: char| before.contains(x) implies self.glyphs@.contains(x) by {
                let w = choose|w: int| 0 <= w < before.len() && before[w] == x;
                assert(self.glyphs@[w] == x);
            }
            assert(self.glyphs@[self.glyphs@.len() - 1] == c);
            assert(final(self).spec_set() =~= old(self).spec_set().insert(c));
        }
    }

    /// The standard tileset of this game: wall, player, goblin, floor, food.
    pub fn standard() -> (r: GlyphTable)
        ensures
            r.spec_set() == Set::<char>::empty().insert('#').insert('@').insert('g').insert(
                '.',
            ).insert('%'),
    {
        let mut r = GlyphTable::empty();
        r.add('#');
        r.add('@');
        r.add('g');
        r.add('.');
        r.add('%');
        r
    }

    /// Whether the tileset can draw `c`.
    pub fn has(&self, c: char) -> (r: bool)
        ensures
            r == self.spec_set().contains(c),
    {
        let n: usize = self.glyphs.len();
        let mut i: usize = 0;
        while i < n
            invariant
                n == self.glyphs@.len(),
                i <= n,
                forall|m: int| 0 <= m < i ==> self.glyphs@[m] != c,
            decreases n - i,
        {
            if self.glyphs[i] == c {
                return true;
            }
            i = i + 1;
        }
        false
    }
}

/// Pixel coordinate of grid coordinate `c`: `offset + c * tile_size`.
pub open spec fn cell_px(c: int, offset: int, tile_size: int) -> int {
    offset + c * tile_size
}

/// A product of a bounded factor and a bounded nonnegative factor is
/// bounded: the pixel coordinates computed below all fit in 64 bits.
proof fn lemma_mul_range(a: int, b: int, am: int, bm: int)
    requires
        -am <= a <= am,
        0 <= b <= bm,
        0 <= am,
    ensures
        -(am * bm) <= a * b <= am * bm,
{
    assert(-(am * bm) <= a * b <= am * bm) by (nonlinear_arith)
        requires
            -am <= a <= am,
            0 <= b <= bm,
            0 <= am,
    ;
}

/// The title layer: the title image horizontally centered, vertically
/// centered on the fixed title line — or nothing while the font loads.
pub open spec fn title_layer(text: Option<TextDims>, screen: Dim) -> Seq<DrawCommand> {
    match text {
        None => Seq::empty(),
        Some(t) => seq![
            DrawCommand::Blit {
                image: TextImage::Title,
                rect: Rect {
                    x: (screen.w / 2 - t.title.w / 2) as i64,
                    y: (TITLE_CENTER_Y - t.title.h / 2) as i64,
                    w: t.title.w as i64,
                    h: t.title.h as i64,
                },
            },
        ],
    }
}

/// The credits layer: two attribution lines anchored to the bottom-left —
/// or nothing while the font loads.
pub open spec fn credits_layer(text: Option<TextDims>, screen: Dim) -> Seq<DrawCommand> {
    match text {
        None => Seq::empty(),
        Some(t) => seq![
            DrawCommand::Blit {
                image: TextImage::MononokiCredit,
                rect: Rect {
                    x: CREDIT_X as i64,
                    y: (screen.h - CREDIT_FIRST_BOTTOM_OFFSET) as i64,
                    w: t.mononoki_info.w as i64,
                    h: t.mononoki_info.h as i64,
                },
            },
            DrawCommand::Blit {
                image: TextImage::SquareCredit,
                rect: Rect {
                    x: CREDIT_X as i64,
                    y: (screen.h - CREDIT_SECOND_BOTTOM_OFFSET) as i64,
                    w: t.square_info.w as i64,
                    h: t.square_info.h as i64,
                },
            },
        ],
    }
}

/// The draw command for one map tile.
pub open spec fn tile_command(t: Tile, tile_size: int) -> DrawCommand {
    DrawCommand::BlitGlyph {
        glyph: t.glyph,
        color: t.color,
        rect: Rect {
            x: cell_px(t.grid_x as int, MAP_OFFSET_X as int, tile_size) as i64,
            y: cell_px(t.grid_y as int, MAP_OFFSET_Y as int, tile_size) as i64,
            w: tile_size as i64,
            h: tile_size as i64,
        },
    }
}

/// The map layer: one tinted blit per tile whose glyph resolves, in map
/// order — or nothing while the tileset loads.
pub open spec fn map_layer(tiles: Seq<Tile>, glyphs: Set<char>, tile_size: int) -> Seq<DrawCommand>
    decreases tiles.len(),
{
    if tiles.len() == 0 {
        Seq::empty()
    } else {
        map_layer(tiles.drop_last(), glyphs, tile_size) + (if glyphs.contains(tiles.last().glyph) {
            seq![tile_command(tiles.last(), tile_size)]
        } else {
            Seq::empty()
        })
    }
}

/// The draw command for one joined (Position, Renderable) entity.
pub open spec fn entity_command(pos: Position, rend: Renderable, tile_size: int) -> DrawCommand {
    DrawCommand::BlitGlyph {
        glyph: rend.glyph,
        color: rend.color,
        rect: Rect {
            x: cell_px(pos.x as int, MAP_OFFSET_X as int, tile_size) as i64,
            y: cell_px(pos.y as int, MAP_OFFSET_Y as int, tile_size) as i64,
            w: tile_size as i64,
            h: tile_size as i64,
        },
    }
}

/// The entity layer: one tinted blit per joined entity whose glyph resolves,
/// in join order — or nothing while the tileset loads.
pub open spec fn entity_layer(
    joined: Seq<(EntityId, Position, Renderable)>,
    glyphs: Set<char>,
    tile_size: int,
) -> Seq<DrawCommand>
    decreases joined.len(),
{
    if joined.len() == 0 {
        Seq::empty()
    } else {
        entity_layer(joined.drop_last(), glyphs, tile_size) + (if glyphs.contains(
            joined.last().2.glyph,
        ) {
            seq![entity_command(joined.last().1, joined.last().2, tile_size)]
        } else {
            Seq::empty()
        })
    }
}

/// An entity whose glyph the tileset cannot draw produces no draw command at
/// all, and no error: when no joined entity's glyph resolves, the entity
/// layer is empty; in general every command of the layer stems from a joined
/// entity whose glyph resolves.
pub proof fn lemma_entity_layer_only_resolved(
    joined: Seq<(EntityId, Position, Renderable)>,
    glyphs: Set<char>,
    tile_size: int,
)
    ensures
        forall|m: int|
            #![trigger entity_layer(joined, glyphs, tile_size)[m]]
            0 <= m < entity_layer(joined, glyphs, tile_size).len() ==> exists|k: int|
                0 <= k < joined.len() && glyphs.contains(#[trigger] joined[k].2.glyph)
                    && entity_layer(joined, glyphs, tile_size)[m] == entity_command(
                    joined[k].1,
                    joined[k].2,
                    tile_size,
                ),
        (forall|k: int| 0 <= k < joined.len() ==> !glyphs.contains(#[trigger] joined[k].2.glyph))
            ==> entity_layer(joined, glyphs, tile_size) == Seq::<DrawCommand>::empty(),
    decreases joined.len(),
{
    if joined.len() > 0 {
        lemma_entity_layer_only_resolved(joined.drop_last(), glyphs, tile_size);
        let prev = entity_layer(joined.drop_last(), glyphs, tile_size);
        let cur = entity_layer(joined, glyphs, tile_size);
        assert forall|m: int| #![trigger cur[m]] 0 <= m < cur.len() implies exists|k: int|
            0 <= k < joined.len() && glyphs.contains(#[trigger] joined[k].2.glyph) && cur[m]
                == entity_command(joined[k].1, joined[k].2, tile_size) by {
            if m < prev.len() {
                assert(cur[m] == prev[m]);
                let k = choose|k: int|
                    0 <= k < joined.drop_last().len() && glyphs.contains(
                        #[trigger] joined.drop_last()[k].2.glyph,
                    ) && prev[m] == entity_command(
                        joined.drop_last()[k].1,
                        joined.drop_last()[k].2,
                        tile_size,
                    );
                assert(joined[k] == joined.drop_last()[k]);
                assert(glyphs.contains(joined[k].2.glyph) && cur[m] == entity_command(
                    joined[k].1,
                    joined[k].2,
                    tile_size,
                ));
            } else {
                let k = joined.len() - 1;
                assert(joined[k] == joined.last());
                assert(glyphs.contains(joined[k].2.glyph) && cur[m] == entity_command(
                    joined[k].1,
                    joined[k].2,
                    tile_size,
                ));
            }
        }
        if forall|k: int| 0 <= k < joined.len() ==> !glyphs.contains(
            #[trigger] joined[k].2.glyph,
        ) {
            assert(joined[joined.len() - 1] == joined.last());
            assert(forall|k: int|
                0 <= k < joined.drop_last().len() ==> joined.drop_last()[k] == joined[k]);
            assert(cur =~= Seq::<DrawCommand>::empty());
        }
    }
}

/// The width in pixels of the "current" health rectangle:
/// `full * current / max`, in whole pixels.
pub open spec fn spec_bar_width(current: int, max: int, full: int) -> int {
    full * current / max
}

/// Compute the "current" health-bar width. Zero at zero health, the full
/// width at full health, monotone in between; the caller skips the whole
/// layer when `max` is zero, so no division by zero can reach this.
pub fn health_bar_current_width(current: i32, max: i32, full: u32) -> (r: u32)
    requires
        0 <= current <= max,
        0 < max,
    ensures
        r == spec_bar_width(current as int, max as int, full as int),
        r <= full,
{
    proof {
        lemma_mul_range(full as int, current as int, u32::MAX as int, i32::MAX as int);
    }
    let num: u64 = (full as u64) * (current as u64);
    let den: u64 = max as u64;
    let q: u64 = num / den;
    proof {
        lemma_mul_inequality(current as int, max as int, full as int);
        assert(full as int * current as int == current as int * full as int) by (nonlinear_arith);
        assert(full as int * max as int == max as int * full as int) by (nonlinear_arith);
        lemma_div_is_ordered(full as int * current as int, full as int * max as int, max as int);
        lemma_div_multiples_vanish(full as int, max as int);
        assert(q <= full);
    }
    q as u32
}

/// The health-bar width is monotone in `current` for a fixed `max`.
pub proof fn lemma_bar_width_monotonic(c1: int, c2: int, max: int, full: int)
    requires
        0 <= c1 <= c2 <= max,
        0 < max,
        0 <= full,
    ensures
        spec_bar_width(c1, max, full) <= spec_bar_width(c2, max, full),
{
    lemma_mul_inequality(c1, c2, full);
    lemma_div_is_ordered(full * c1, full * c2, max);
    assert(c1 * full == full * c1 && c2 * full == full * c2);
}

/// The health-bar width is zero at zero health and the full width at full
/// health.
pub proof fn lemma_bar_width_bounds(max: int, full: int)
    requires
        0 < max,
        0 <= full,
    ensures
        spec_bar_width(0, max, full) == 0,
        spec_bar_width(max, max, full) == full,
{
    lemma_div_multiples_vanish(full, max);
    assert(full * max == max * full) by (nonlinear_arith);
    assert(full * 0 == 0) by (nonlinear_arith);
    assert(spec_bar_width(0, max, full) == 0);
}

/// The health-bar layer: a translucent full-width backing rectangle, then
/// the opaque "current" rectangle — or nothing when the player carries no
/// Health or its `max` is zero, so no division by zero ever reaches the
/// renderer.
pub open spec fn health_layer(health: Option<Health>, map_width: int, tile_size: int) -> Seq<
    DrawCommand,
> {
    match health {
        None => Seq::empty(),
        Some(h) => {
            if h.max <= 0 {
                Seq::empty()
            } else {
                let bar_x = (MAP_OFFSET_X + map_width * tile_size) as i64;
                seq![
                    DrawCommand::Fill {
                        color: Color::Red,
                        translucent: true,
                        rect: Rect {
                            x: bar_x,
                            y: MAP_OFFSET_Y as i64,
                            w: FULL_HEALTH_BAR_WIDTH as i64,
                            h: tile_size as i64,
                        },
                    },
                    DrawCommand::Fill {
                        color: Color::Red,
                        translucent: false,
                        rect: Rect {
                            x: bar_x,
                            y: MAP_OFFSET_Y as i64,
                            w: spec_bar_width(
                                h.current as int,
                                h.max as int,
                                FULL_HEALTH_BAR_WIDTH as int,
                            ) as i64,
                            h: tile_size as i64,
                        },
                    },
                ]
            }
        },
    }
}

/// The inventory layer: the inventory text block anchored just below the
/// health bar — or nothing while the font loads.
pub open spec fn inventory_layer(text: Option<TextDims>, map_width: int, tile_size: int) -> Seq<
    DrawCommand,
> {
    match text {
        None => Seq::empty(),
        Some(t) => seq![
            DrawCommand::Blit {
                image: TextImage::Inventory,
                rect: Rect {
                    x: (MAP_OFFSET_X + map_width * tile_size) as i64,
                    y: (MAP_OFFSET_Y + tile_size) as i64,
                    w: t.inventory.w as i64,
                    h: t.inventory.h as i64,
                },
            },
        ],
    }
}

/// The player's health, if the player carries any.
pub open spec fn spec_player_health(w: World) -> Option<Health> {
    if w.spec_player() matches Some(p) && w.spec_healths().contains_key(p) {
        Some(w.spec_healths()[w.spec_player()->0])
    } else {
        None
    }
}

/// The whole composed frame, strictly layered back to front.
pub open spec fn spec_compose(
    tiles: Seq<Tile>,
    joined: Seq<(EntityId, Position, Renderable)>,
    health: Option<Health>,
    map_width: int,
    tile_size: int,
    text: Option<TextDims>,
    glyphs: Option<Set<char>>,
    screen: Dim,
) -> Seq<DrawCommand> {
    title_layer(text, screen) + credits_layer(text, screen) + (match glyphs {
        None => Seq::empty(),
        Some(gs) => map_layer(tiles, gs, tile_size),
    }) + (match glyphs {
        None => Seq::empty(),
        Some(gs) => entity_layer(joined, gs, tile_size),
    }) + health_layer(health, map_width, tile_size) + inventory_layer(text, map_width, tile_size)
}

/// Compose one frame: the ordered draw commands for the current game state,
/// given whichever assets are ready. A `None` asset skips exactly the layers
/// depending on it; a glyph miss skips that single draw.
#[verifier::loop_isolation(false)]
pub fn compose(
    game: &Game,
    text: Option<TextDims>,
    glyphs: Option<&GlyphTable>,
    screen: Dim,
) -> (r: Vec<DrawCommand>)
    requires
        game.wf(),
    ensures
        r@ == spec_compose(
            game.spec_map(),
            joined_of(
                game.spec_world().spec_position_ids(),
                game.spec_world().spec_positions(),
                game.spec_world().spec_renderables(),
            ),
            spec_player_health(game.spec_world()),
            game.spec_map_width() as int,
            game.spec_tile_size() as int,
            text,
            match glyphs {
                None => None::<Set<char>>,
                Some(g) => Some(g.spec_set()),
            },
            screen,
        ),
{
    proof {
        game.lemma_wf_parts();
        game.spec_world().lemma_player_alive();
        game.spec_world().lemma_healths_valid();
    }
    let ts: u16 = game.tile_size();
    let mut cmds: Vec<DrawCommand> = Vec::new();

    // Layer 1: title, horizontally centered.
    match &text {
        Some(t) => {
            let x: i64 = (screen.w as i64) / 2 - (t.title.w as i64) / 2;
            let y: i64 = (TITLE_CENTER_Y as i64) - (t.title.h as i64) / 2;
            cmds.push(
                DrawCommand::Blit {
                    image: TextImage::Title,
                    rect: Rect { x, y, w: t.title.w as i64, h: t.title.h as i64 },
                },
            );
        },
        None => {},
    }

    // Layer 2: the two credit lines, bottom-left.
    match &text {
        Some(t) => {
            cmds.push(
                DrawCommand::Blit {
                    image: TextImage::MononokiCredit,
                    rect: Rect {
                        x: CREDIT_X as i64,
                        y: (screen.h as i64) - (CREDIT_FIRST_BOTTOM_OFFSET as i64),
                        w: t.mononoki_info.w as i64,
                        h: t.mononoki_info.h as i64,
                    },
                },
            );
            cmds.push(
                DrawCommand::Blit {
                    image: TextImage::SquareCredit,
                    rect: Rect {
                        x: CREDIT_X as i64,
                        y: (screen.h as i64) - (CREDIT_SECOND_BOTTOM_OFFSET as i64),
                        w: t.square_info.w as i64,
                        h: t.square_info.h as i64,
                    },
                },
            );
        },
        None => {},
    }
    let ghost pre_map = cmds@;

    // Layer 3: the map tiles whose glyphs resolve.
    match glyphs {
        Some(gt) => {
            let tiles = game.map();
            let n: usize = tiles.len();
            let mut i: usize = 0;
            while i < n
                invariant
                    game.wf(),
                    ts == game.spec_tile_size(),
                    n == tiles@.len(),
                    tiles@ == game.spec_map(),
                    i <= n,
                    cmds@ == pre_map + map_layer(tiles@.take(i as int), gt.spec_set(), ts as int),
                decreases n - i,
            {
                let t = &tiles[i];
                proof {
                    lemma_cell_coords_in_range(
                        game.spec_map_width() as int,
                        game.spec_map_height() as int,
                        i as int,
                    );
                }
                if gt.has(t.glyph) {
                    proof {
                        lemma_mul_range(
                            t.grid_x as int,
                            ts as int,
                            u32::MAX as int,
                            u16::MAX as int,
                        );
                        lemma_mul_range(
                            t.grid_y as int,
                            ts as int,
                            u32::MAX as int,
                            u16::MAX as int,
                        );
                    }
                    let x: i64 = (MAP_OFFSET_X as i64) + t.grid_x * (ts as i64);
                    let y: i64 = (MAP_OFFSET_Y as i64) + t.grid_y * (ts as i64);
                    cmds.push(
                        DrawCommand::BlitGlyph {
                            glyph: t.glyph,
                            color: t.color,
                            rect: Rect { x, y, w: ts as i64, h: ts as i64 },
                        },
                    );
                }
                proof {
                    assert(tiles@.take(i + 1).drop_last() =~= tiles@.take(i as int));
                    assert(tiles@.take(i + 1).last() == tiles@[i as int]);
                }
                i = i + 1;
            }
            proof {
                assert(tiles@.take(n as int) =~= tiles@);
            }
        },
        None => {},
    }
    let ghost pre_entities = cmds@;

    // Layer 4: the joined entities whose glyphs resolve.
    let joined = game.world().join_position_renderable();
    match glyphs {
        Some(gt) => {
            let n: usize = joined.len();
            let mut i: usize = 0;
            while i < n
                invariant
                    ts == game.spec_tile_size(),
                    n == joined@.len(),
                    joined@ == joined_of(
                        game.spec_world().spec_position_ids(),
                        game.spec_world().spec_positions(),
                        game.spec_world().spec_renderables(),
                    ),
                    i <= n,
                    cmds@ == pre_entities + entity_layer(
                        joined@.take(i as int),
                        gt.spec_set(),
                        ts as int,
                    ),
                decreases n - i,
            {
                let (id, pos, rend) = joined[i];
                if gt.has(rend.glyph) {
                    proof {
                        lemma_mul_range(
                            pos.x as int,
                            ts as int,
                            0x8000_0000,
                            u16::MAX as int,
                        );
                        lemma_mul_range(
                            pos.y as int,
                            ts as int,
                            0x8000_0000,
                            u16::MAX as int,
                        );
                    }
                    let x: i64 = (MAP_OFFSET_X as i64) + (pos.x as i64) * (ts as i64);
                    let y: i64 = (MAP_OFFSET_Y as i64) + (pos.y as i64) * (ts as i64);
                    cmds.push(
                        DrawCommand::BlitGlyph {
                            glyph: rend.glyph,
                            color: rend.color,
                            rect: Rect { x, y, w: ts as i64, h: ts as i64 },
                        },
                    );
                }
                proof {
                    assert(joined@.take(i + 1).drop_last() =~= joined@.take(i as int));
                    assert(joined@.take(i + 1).last() == joined@[i as int]);
                }
                i = i + 1;
            }
            proof {
                assert(joined@.take(n as int) =~= joined@);
            }
        },
        None => {},
    }

    let ghost pre_health = cmds@;

    // Layer 5: the player's health bar, skipped entirely when the player
    // carries no Health or its maximum is zero.
    proof {
        lemma_mul_range(
            game.spec_map_width() as int,
            ts as int,
            u32::MAX as int,
            u16::MAX as int,
        );
    }
    let bar_x: i64 = (MAP_OFFSET_X as i64) + (game.map_width() as i64) * (ts as i64);
    match game.world().health(game.player()) {
        Some(h) => {
            if h.max > 0 {
                cmds.push(
                    DrawCommand::Fill {
                        color: Color::Red,
                        translucent: true,
                        rect: Rect {
                            x: bar_x,
                            y: MAP_OFFSET_Y as i64,
                            w: FULL_HEALTH_BAR_WIDTH as i64,
                            h: ts as i64,
                        },
                    },
                );
                let cw: u32 = health_bar_current_width(h.current, h.max, FULL_HEALTH_BAR_WIDTH);
                cmds.push(
                    DrawCommand::Fill {
                        color: Color::Red,
                        translucent: false,
                        rect: Rect {
                            x: bar_x,
                            y: MAP_OFFSET_Y as i64,
                            w: cw as i64,
                            h: ts as i64,
                        },
                    },
                );
            }
        },
        None => {},
    }

    let ghost pre_inventory = cmds@;

    // Layer 6: the inventory text block, below the health bar.
    match &text {
        Some(t) => {
            cmds.push(
                DrawCommand::Blit {
                    image: TextImage::Inventory,
                    rect: Rect {
                        x: bar_x,
                        y: (MAP_OFFSET_Y as i64) + (ts as i64),
                        w: t.inventory.w as i64,
                        h: t.inventory.h as i64,
                    },
                },
            );
        },
        None => {},
    }

    proof {
        let gset = match glyphs {
            None => None::<Set<char>>,
            Some(g) => Some(g.spec_set()),
        };
        let jo = joined_of(
            game.spec_world().spec_position_ids(),
            game.spec_world().spec_positions(),
            game.spec_world().spec_renderables(),
        );
        let map_part = match gset {
            None => Seq::<DrawCommand>::empty(),
            Some(gs) => map_layer(game.spec_map(), gs, ts as int),
        };
        let ent_part = match gset {
            None => Seq::<DrawCommand>::empty(),
            Some(gs) => entity_layer(jo, gs, ts as int),
        };
        assert(pre_map =~= title_layer(text, screen) + credits_layer(text, screen));
        assert(pre_entities =~= pre_map + map_part);
        assert(pre_health =~= pre_entities + ent_part);
        assert(pre_inventory =~= pre_health + health_layer(
            spec_player_health(game.spec_world()),
            game.spec_map_width() as int,
            ts as int,
        ));
        assert(cmds@ =~= pre_inventory + inventory_layer(
            text,
            game.spec_map_width() as int,
            ts as int,
        ));
        assert(cmds@ =~= spec_compose(
            game.spec_map(),
            jo,
            spec_player_health(game.spec_world()),
            game.spec_map_width() as int,
            game.spec_tile_size() as int,
            text,
            gset,
            screen,
        ));
    }
    cmds
}

} // verus!
