//! The game: the owning context built at initialization (map, world,
//! entities, player) and the deterministic per-frame update pass.
//!
//! Each frame the external driver collects the pressed input intents, calls
//! [`Game::update`] once, then composes and draws. `update` applies at most a
//! one-unit translation per axis to the player's position — each pressed
//! directional intent adjusts its axis by exactly one grid unit, evaluated
//! independently, so opposite intents in one frame cancel — and ends with the
//! world's `maintain` sync point. Quitting is a signal returned to the
//! caller, never handled here.

use vstd::prelude::*;
use crate::components::{Color, Health, Position, Renderable};
use crate::entity::EntityId;
use crate::grid::{grid_spec, generate_map, Tile};
use crate::world::World;

verus! {

/// Width of the generated map, in cells.
pub const MAP_WIDTH: u32 = 20;

/// Height of the generated map, in cells.
pub const MAP_HEIGHT: u32 = 15;

/// Side of one square tile, in pixels.
pub const TILE_SIZE: u16 = 24;

/// The discrete input intents collected for one frame.
#[derive(Clone, Copy, Debug, PartialEq, Eq, Structural)]
pub struct Intents {
    pub move_left: bool,
    pub move_right: bool,
    pub move_up: bool,
    pub move_down: bool,
    pub quit: bool,
    pub swap_inventory: bool,
}

impl Intents {
    /// A frame with no intent pressed.
    pub fn none() -> (r: Intents)
        ensures
            r == (Intents {
                move_left: false,
                move_right: false,
                move_up: false,
                move_down: false,
                quit: false,
                swap_inventory: false,
            }),
    {
        Intents {
            move_left: false,
            move_right: false,
            move_up: false,
            move_down: false,
            quit: false,
            swap_inventory: false,
        }
    }
}

/// Net horizontal movement of one frame: each pressed directional intent
/// counts one unit, evaluated independently, so left and right cancel.
pub open spec fn intent_dx(i: Intents) -> int {
    (if i.move_right {
        1int
    } else {
        0int
    }) - (if i.move_left {
        1int
    } else {
        0int
    })
}

/// Net vertical movement of one frame; up is negative, down positive.
pub open spec fn intent_dy(i: Intents) -> int {
    (if i.move_down {
        1int
    } else {
        0int
    }) - (if i.move_up {
        1int
    } else {
        0int
    })
}

/// The exact contents of a freshly initialised world: two goblins and two
/// food items at their fixed cells, and the player at its starting cell with
/// the full component set — and nothing else in any table.
pub open spec fn initial_world_shape(
    w: World,
    goblin_a: EntityId,
    goblin_b: EntityId,
    food_a: EntityId,
    food_b: EntityId,
) -> bool {
    let player = w.spec_player()->0;
    &&& goblin_a != goblin_b && goblin_a != food_a && goblin_a != food_b && goblin_a != player
    &&& goblin_b != food_a && goblin_b != food_b && goblin_b != player
    &&& food_a != food_b && food_a != player
    &&& food_b != player
    &&& w.spec_positions() == Map::<EntityId, Position>::empty().insert(
        goblin_a,
        Position { x: 9, y: 6 },
    ).insert(goblin_b, Position { x: 2, y: 4 }).insert(food_a, Position { x: 7, y: 5 }).insert(
        food_b,
        Position { x: 4, y: 8 },
    ).insert(player, Position { x: 5, y: 3 })
    &&& w.spec_renderables() == Map::<EntityId, Renderable>::empty().insert(
        goblin_a,
        Renderable { glyph: 'g', color: Color::Red },
    ).insert(goblin_b, Renderable { glyph: 'g', color: Color::Red }).insert(
        food_a,
        Renderable { glyph: '%', color: Color::Purple },
    ).insert(food_b, Renderable { glyph: '%', color: Color::Purple }).insert(
        player,
        Renderable { glyph: '@', color: Color::Blue },
    )
    &&& w.spec_healths() == Map::<EntityId, Health>::empty().insert(
        goblin_a,
        Health { max: 1, current: 1 },
    ).insert(goblin_b, Health { max: 1, current: 1 }).insert(
        player,
        Health { max: 5, current: 3 },
    )
}

/// The whole game state: the immutable generated map, the world, and the
/// per-run flags.
pub struct Game {
    map_width: u32,
    map_height: u32,
    map: Vec<Tile>,
    world: World,
    tile_size: u16,
    inventory_swapped: bool,
}

impl Game {
    /// The world this game owns.
    pub closed spec fn spec_world(self) -> World {
        self.world
    }

    /// The generated map, as a sequence of tiles.
    pub closed spec fn spec_map(self) -> Seq<Tile> {
        self.map@
    }

    /// Map width in cells.
    pub closed spec fn spec_map_width(self) -> u32 {
        self.map_width
    }

    /// Map height in cells.
    pub closed spec fn spec_map_height(self) -> u32 {
        self.map_height
    }

    /// Tile side in pixels.
    pub closed spec fn spec_tile_size(self) -> u16 {
        self.tile_size
    }

    /// Whether the one-shot inventory swap has been taken.
    pub closed spec fn spec_inventory_swapped(self) -> bool {
        self.inventory_swapped
    }

    /// The designated player.
    pub closed spec fn spec_player(self) -> EntityId {
        self.world.spec_player()->0
    }

    /// Well-formedness: the world is consistent and has a player, the map is
    /// exactly the generated grid, and the sizes are positive.
    pub closed spec fn wf(self) -> bool {
        &&& self.world.wf()
        &&& self.world.spec_player() is Some
        &&& self.map@ == grid_spec(self.map_width as int, self.map_height as int)
        &&& 1 <= self.map_width
        &&& 1 <= self.map_height
        &&& 1 <= self.tile_size
    }

    /// What well-formedness guarantees, spelled out for callers: the world
    /// is consistent with a designated player, the map is exactly the
    /// generated grid for the stored sizes, and the sizes are positive.
    pub proof fn lemma_wf_parts(self)
        requires
            self.wf(),
        ensures
            self.spec_world().wf(),
            self.spec_world().spec_player() is Some,
            self.spec_world().spec_player() == Some(self.spec_player()),
            self.spec_map() == grid_spec(
                self.spec_map_width() as int,
                self.spec_map_height() as int,
            ),
            1 <= self.spec_map_width(),
            1 <= self.spec_map_height(),
            1 <= self.spec_tile_size(),
    {
    }

    /// The world, for queries and composition.
    pub fn world(&self) -> (r: &World)
        ensures
            *r == self.spec_world(),
    {
        &self.world
    }

    /// Mutable access to the world, for scenario setup and for drivers that
    /// spawn or destroy entities between frames. Every public world operation
    /// keeps the world consistent and the player designated, so the game
    /// stays well-formed under them.
    pub fn world_mut(&mut self) -> (r: &mut World)
        ensures
            *r == old(self).spec_world(),
            final(self).spec_world() == *final(r),
            final(self).spec_map() == old(self).spec_map(),
            final(self).spec_map_width() == old(self).spec_map_width(),
            final(self).spec_map_height() == old(self).spec_map_height(),
            final(self).spec_tile_size() == old(self).spec_tile_size(),
            final(self).spec_inventory_swapped() == old(self).spec_inventory_swapped(),
    {
        &mut self.world
    }

    /// The generated map tiles.
    pub fn map(&self) -> (r: &Vec<Tile>)
        ensures
            r@ == self.spec_map(),
    {
        &self.map
    }

    /// Map width in cells.
    pub fn map_width(&self) -> (r: u32)
        ensures
            r == self.spec_map_width(),
    {
        self.map_width
    }

    /// Map height in cells.
    pub fn map_height(&self) -> (r: u32)
        ensures
            r == self.spec_map_height(),
    {
        self.map_height
    }

    /// Tile side in pixels.
    pub fn tile_size(&self) -> (r: u16)
        ensures
            r == self.spec_tile_size(),
    {
        self.tile_size
    }

    /// Whether the one-shot inventory swap has been taken.
    pub fn inventory_swapped(&self) -> (r: bool)
        ensures
            r == self.spec_inventory_swapped(),
    {
        self.inventory_swapped
    }

    /// The designated player.
    pub fn player(&self) -> (r: EntityId)
        requires
            self.wf(),
        ensures
            r == self.spec_player(),
    {
        match self.world.player() {
            Some(p) => p,
            None => EntityId { index: 0, generation: 0 },
        }
    }

    /// Initialise the game: generate the map, create the decorative and
    /// hostile entities, and create the player at its starting cell with the
    /// full component set.
    pub fn new() -> (g: Game)
        ensures
            g.wf(),
            g.spec_map_width() == MAP_WIDTH,
            g.spec_map_height() == MAP_HEIGHT,
            g.spec_tile_size() == TILE_SIZE,
            g.spec_map() == grid_spec(MAP_WIDTH as int, MAP_HEIGHT as int),
            !g.spec_inventory_swapped(),
            g.spec_world().spec_is_alive(g.spec_player()),
            g.spec_world().spec_positions().contains_key(g.spec_player()),
            g.spec_world().spec_positions()[g.spec_player()] == (Position { x: 5, y: 3 }),
            g.spec_world().spec_renderables().contains_key(g.spec_player()),
            g.spec_world().spec_renderables()[g.spec_player()] == (Renderable {
                glyph: '@',
                color: Color::Blue,
            }),
            g.spec_world().spec_healths().contains_key(g.spec_player()),
            g.spec_world().spec_healths()[g.spec_player()] == (Health { max: 5, current: 3 }),
            exists|goblin_a: EntityId, goblin_b: EntityId, food_a: EntityId, food_b: EntityId|
                #[trigger] initial_world_shape(g.spec_world(), goblin_a, goblin_b, food_a, food_b),
    {
        let map = generate_map(MAP_WIDTH, MAP_HEIGHT);
        let mut world = World::new();

        let goblin_a = world.create_entity();
        world.insert_position(goblin_a, Position { x: 9, y: 6 });
        world.insert_health(goblin_a, Health::new(1));
        world.insert_renderable(goblin_a, Renderable { glyph: 'g', color: Color::Red });

        let goblin_b = world.create_entity();
        world.insert_position(goblin_b, Position { x: 2, y: 4 });
        world.insert_health(goblin_b, Health::new(1));
        world.insert_renderable(goblin_b, Renderable { glyph: 'g', color: Color::Red });

        let food_a = world.create_entity();
        world.insert_position(food_a, Position { x: 7, y: 5 });
        world.insert_renderable(food_a, Renderable { glyph: '%', color: Color::Purple });

        let food_b = world.create_entity();
        world.insert_position(food_b, Position { x: 4, y: 8 });
        world.insert_renderable(food_b, Renderable { glyph: '%', color: Color::Purple });

        world.spawn_player(
            Position { x: 5, y: 3 },
            Renderable { glyph: '@', color: Color::Blue },
            Health { max: 5, current: 3 },
        );
        proof {
            assert(initial_world_shape(world, goblin_a, goblin_b, food_a, food_b));
        }

        Game {
            map_width: MAP_WIDTH,
            map_height: MAP_HEIGHT,
            map,
            world,
            tile_size: TILE_SIZE,
            inventory_swapped: false,
        }
    }

    /// One frame of the update pass. Each pressed directional intent moves
    /// the player's position by exactly one grid unit on its axis,
    /// independently of the others; a player without a Position moves
    /// nothing. A pressed `swap_inventory` takes the one-shot inventory swap.
    /// Afterwards the world's `maintain` sync point runs, so every entity
    /// destroyed this frame loses its stored components. Returns whether the
    /// caller should quit; nothing terminates here.
    pub fn update(&mut self, intents: Intents) -> (quit: bool)
        requires
            old(self).wf(),
            old(self).spec_world().spec_positions().contains_key(old(self).spec_player()) ==> {
                let p = old(self).spec_world().spec_positions()[old(self).spec_player()];
                &&& i32::MIN < p.x < i32::MAX
                &&& i32::MIN < p.y < i32::MAX
            },
        ensures
            final(self).wf(),
            quit == intents.quit,
            final(self).spec_inventory_swapped() == (old(self).spec_inventory_swapped()
                || intents.swap_inventory),
            final(self).spec_map() == old(self).spec_map(),
            final(self).spec_map_width() == old(self).spec_map_width(),
            final(self).spec_map_height() == old(self).spec_map_height(),
            final(self).spec_tile_size() == old(self).spec_tile_size(),
            final(self).spec_player() == old(self).spec_player(),
            forall|id: EntityId|
                final(self).spec_world().spec_is_alive(id) == old(self).spec_world().spec_is_alive(id),
            // The player's movement: exactly the pressed intents, one unit
            // per axis, opposite intents cancelling.
            old(self).spec_world().spec_positions().contains_key(old(self).spec_player()) ==> {
                let p0 = old(self).spec_world().spec_positions()[old(self).spec_player()];
                let p1 = final(self).spec_world().spec_positions()[old(self).spec_player()];
                &&& final(self).spec_world().spec_positions().contains_key(old(self).spec_player())
                &&& p1.x == p0.x + intent_dx(intents)
                &&& p1.y == p0.y + intent_dy(intents)
            },
            !old(self).spec_world().spec_positions().contains_key(old(self).spec_player())
                ==> !final(self).spec_world().spec_positions().contains_key(
                old(self).spec_player(),
            ),
            // Everything else keeps its components if alive; destroyed
            // entities have lost theirs at the maintain sync point.
            forall|id: EntityId|
                old(self).spec_world().spec_is_alive(id) && id != old(self).spec_player() ==> {
                    &&& final(self).spec_world().spec_positions().contains_key(id) == old(self).spec_world().spec_positions().contains_key(id)
                    &&& old(self).spec_world().spec_positions().contains_key(id) ==> final(self).spec_world().spec_positions()[id] == old(self).spec_world().spec_positions()[id]
                },
            forall|id: EntityId|
                old(self).spec_world().spec_is_alive(id) ==> {
                    &&& final(self).spec_world().spec_renderables().contains_key(id) == old(self).spec_world().spec_renderables().contains_key(id)
                    &&& old(self).spec_world().spec_renderables().contains_key(id) ==> final(self).spec_world().spec_renderables()[id] == old(self).spec_world().spec_renderables()[id]
                    &&& final(self).spec_world().spec_healths().contains_key(id) == old(self).spec_world().spec_healths().contains_key(id)
                    &&& old(self).spec_world().spec_healths().contains_key(id) ==> final(self).spec_world().spec_healths()[id] == old(self).spec_world().spec_healths()[id]
                },
            forall|id: EntityId|
                !old(self).spec_world().spec_is_alive(id) ==> {
                    &&& !final(self).spec_world().spec_positions().contains_key(id)
                    &&& !final(self).spec_world().spec_renderables().contains_key(id)
                    &&& !final(self).spec_world().spec_healths().contains_key(id)
                },
            // Every stored health value is still valid after the frame.
            forall|id: EntityId|
                #[trigger] final(self).spec_world().spec_healths().contains_key(id) ==> final(self).spec_world().spec_healths()[id].wf(),
    {
        let popt = self.world.player();
        proof {
            assert(popt is Some);
            self.world.lemma_player_alive();
        }
        let player = match popt {
            Some(p) => p,
            None => EntityId { index: 0, generation: 0 },
        };
        match self.world.position(player) {
            Some(pos) => {
                let mut x: i32 = pos.x;
                let mut y: i32 = pos.y;
                if intents.move_left {
                    x = x - 1;
                }
                if intents.move_right {
                    x = x + 1;
                }
                if intents.move_up {
                    y = y - 1;
                }
                if intents.move_down {
                    y = y + 1;
                }
                self.world.insert_position(player, Position { x, y });
            },
            None => {},
        }
        if intents.swap_inventory {
            self.inventory_swapped = true;
        }
        self.world.maintain();
        proof {
            self.world.lemma_healths_valid();
        }
        intents.quit
    }
}

} // verus!
