//! The whole game as one value, and the work of one frame.

use vstd::prelude::*;
use crate::game::components::{Entity, Role};
use crate::game::config::{CHUNK_SIZE, N_CHUNKS_X, N_CHUNKS_Y, WALL_THRESHOLD};
use crate::game::enemy::{
    decided,
    enemy,
    lemma_all_enemies_placed,
    ENEMY_END_ROW,
    ENEMY_FIRST_ROW,
};
use crate::game::movement::{board, fits, names, pass, take_action};
use crate::game::noise_field::NoiseField;
use crate::game::player::{decide_action, last_intent, player, with_intent, Key};
use crate::game::registry::{all_decided, all_resolved, EntityRegistry};
use crate::game::setup::setup;
use crate::game::states::{
    end_action_state,
    end_enemy_turn,
    end_player_turn,
    end_update_tilemap_state,
    GameState,
};
use crate::game::tilemap::{noisy_cells, overlay, TilemapGrid};

verus! {

/// The state of a game: the grid, the entities, and the phase of the turn.
pub struct Simulation {
    pub grid: TilemapGrid,
    pub registry: EntityRegistry,
    pub state: GameState,
}

/// The entities at the start of a game: the controlled entity first, then
/// the autonomous entities from the first row up.
pub open spec fn initial_roster() -> Seq<Entity> {
    seq![player(0)] + Seq::new(
        (ENEMY_END_ROW - ENEMY_FIRST_ROW) as nat,
        |i: int| enemy(1 + i, ENEMY_FIRST_ROW + i),
    )
}

impl Simulation {
    /// Grid and registry are well formed and of one size.
    pub open spec fn wf(&self) -> bool {
        &&& self.grid.wf()
        &&& self.registry.wf()
        &&& fits(&self.registry, &self.grid)
    }

    /// A new game on the configured map: the walls are taken from
    /// `noise_field`, the controlled and the autonomous entities stand on
    /// their starting cells, no object tile is drawn yet, and the player's
    /// turn begins.
    pub fn new(noise_field: &NoiseField) -> (game: Simulation)
        requires
            noise_field.wf(),
        ensures
            game.wf(),
            game.state == GameState::PlayerTurn,
            game.grid.spec_chunk_size() == CHUNK_SIZE,
            game.grid.spec_width() == CHUNK_SIZE * N_CHUNKS_X,
            game.grid.spec_height() == CHUNK_SIZE * N_CHUNKS_Y,
            game.grid.walls() == noisy_cells(
                noise_field,
                WALL_THRESHOLD as int,
                (CHUNK_SIZE * N_CHUNKS_X) as int,
                (CHUNK_SIZE * N_CHUNKS_Y) as int,
            ),
            game.grid.occupants() == Map::<(int, int), u16>::empty(),
            game.registry@ == initial_roster(),
            game.registry.issued() == initial_roster().len(),
    {
        let mut registry = EntityRegistry::new(CHUNK_SIZE * N_CHUNKS_X, CHUNK_SIZE * N_CHUNKS_Y);
        let _ = crate::game::player::add(&mut registry);
        proof {
            let one = registry@;
            lemma_all_enemies_placed(
                one,
                registry.spec_width(),
                registry.spec_height(),
                1,
                ENEMY_FIRST_ROW as int,
            );
        }
        crate::game::enemy::add(&mut registry);
        let grid = setup(noise_field);
        Simulation { grid, registry, state: GameState::PlayerTurn }
    }

    /// A game in its player's turn on `grid` with the entities of
    /// `registry`; `None` where the registry was made for a grid of another
    /// size.
    pub fn assemble(grid: TilemapGrid, registry: EntityRegistry) -> (game: Option<Simulation>)
        requires
            grid.wf(),
            registry.wf(),
        ensures
            game is Some <==> fits(&registry, &grid),
            game matches Some(game) ==> game.wf() && game.grid == grid && game.registry == registry
                && game.state == GameState::PlayerTurn,
    {
        if registry.width() == grid.width() && registry.height() == grid.height() {
            Some(Simulation { grid, registry, state: GameState::PlayerTurn })
        } else {
            None
        }
    }

    /// Does the work of one frame, which is that of the running phase alone,
    /// and moves on to the next phase where the running one is done.
    ///
    /// In the player's turn the released `keys` become the decision of the
    /// controlled entities, and the turn ends once they have all decided. In
    /// the enemies' turn every autonomous entity decides, which ends that
    /// turn. In resolution every decision is resolved in registration order,
    /// which ends resolution. In the update the object tiles are drawn anew,
    /// which ends the update and begins the next player's turn. Outside the
    /// player's turn `keys` are not looked at.
    pub fn tick(&mut self, keys: &Vec<Key>)
        requires
            old(self).wf(),
        ensures
            final(self).wf(),
            final(self).grid.same_shape(&old(self).grid),
            final(self).registry.same_frame(&old(self).registry),
            match old(self).state {
                GameState::PlayerTurn => {
                    &&& final(self).grid == old(self).grid
                    &&& final(self).registry@ == with_intent(
                        old(self).registry@,
                        last_intent(keys@),
                    )
                    &&& final(self).state == if all_decided(
                        final(self).registry@,
                        Some(Role::Controlled),
                    ) {
                        GameState::EnemyTurn
                    } else {
                        GameState::PlayerTurn
                    }
                },
                GameState::EnemyTurn => {
                    &&& final(self).grid == old(self).grid
                    &&& final(self).registry@.len() == old(self).registry@.len()
                    &&& forall|i: int|
                        0 <= i < old(self).registry@.len() ==> decided(
                            board(&old(self).registry, &old(self).grid),
                            old(self).registry@[i],
                            #[trigger] final(self).registry@[i],
                        )
                    &&& all_decided(final(self).registry@, Some(Role::Autonomous))
                    &&& final(self).state == GameState::TakeAction
                },
                GameState::TakeAction => {
                    &&& final(self).grid.occupants() == old(self).grid.occupants()
                    &&& board(&final(self).registry, &final(self).grid) == pass(
                        board(&old(self).registry, &old(self).grid),
                        names(old(self).registry@),
                    )
                    &&& all_resolved(final(self).registry@)
                    &&& final(self).state == GameState::UpdateTilemap
                },
                GameState::UpdateTilemap => {
                    &&& final(self).registry@ == old(self).registry@
                    &&& final(self).grid.walls() == old(self).grid.walls()
                    &&& final(self).grid.occupants() == overlay(
                        old(self).registry@,
                        old(self).grid.spec_width(),
                        old(self).grid.spec_height(),
                    )
                    &&& final(self).state == GameState::PlayerTurn
                },
            },
    {
        match self.state {
            GameState::PlayerTurn => {
                decide_action(keys, &mut self.registry);
                end_player_turn(&self.registry, &mut self.state);
            },
            GameState::EnemyTurn => {
                crate::game::enemy::movement(&mut self.registry, &self.grid);
                end_enemy_turn(&self.registry, &mut self.state);
            },
            GameState::TakeAction => {
                take_action(&mut self.registry, &mut self.grid);
                end_action_state(&self.registry, &mut self.state);
            },
            GameState::UpdateTilemap => {
                self.grid.rebuild_overlay(&self.registry);
                end_update_tilemap_state(true, &mut self.state);
            },
        }
    }
}

} // verus!
