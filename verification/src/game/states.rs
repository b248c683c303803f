//! The phases of a turn and the conditions under which one follows another.

use vstd::prelude::*;
use crate::game::components::{Entity, Role};
use crate::game::registry::{all_decided, all_resolved, EntityRegistry};

verus! {

/// The phase that a turn is in. A turn goes through the four phases in the
/// order in which they stand here, and the next turn starts over.
#[derive(Debug, Clone, Copy, Eq, PartialEq, Hash, Structural)]
pub enum GameState {
    /// Waiting for the controlled entity to decide.
    PlayerTurn,
    /// The autonomous entities decide.
    EnemyTurn,
    /// The decisions of all entities are resolved.
    TakeAction,
    /// The object tiles are drawn anew from the entities.
    UpdateTilemap,
}

/// The phase that follows `state` once the frame's work is done on
/// `entities`. `have_updated_tilemap` says whether the object tiles were
/// drawn anew in this frame.
///
/// The player's turn ends when every controlled entity has decided; the
/// enemies' turn ends when every autonomous entity has decided; resolution
/// ends when no entity has a decision left; the update ends when the tiles
/// were drawn.
pub open spec fn next_state(state: GameState, entities: Seq<Entity>, have_updated_tilemap: bool)
    -> GameState {
    match state {
        GameState::PlayerTurn => if all_decided(entities, Some(Role::Controlled)) {
            GameState::EnemyTurn
        } else {
            GameState::PlayerTurn
        },
        GameState::EnemyTurn => if all_decided(entities, Some(Role::Autonomous)) {
            GameState::TakeAction
        } else {
            GameState::EnemyTurn
        },
        GameState::TakeAction => if all_resolved(entities) {
            GameState::UpdateTilemap
        } else {
            GameState::TakeAction
        },
        GameState::UpdateTilemap => if have_updated_tilemap {
            GameState::PlayerTurn
        } else {
            GameState::UpdateTilemap
        },
    }
}

/// The enemies' turn never gives way to resolution while an autonomous
/// entity has not decided, and resolution never gives way to the update
/// while any entity has a decision left. No phase is skipped.
pub proof fn lemma_turn_gating(state: GameState, entities: Seq<Entity>, have_updated_tilemap: bool)
    ensures
        state == GameState::EnemyTurn && next_state(state, entities, have_updated_tilemap)
            == GameState::TakeAction ==> forall|i: int|
            0 <= i < entities.len() && (#[trigger] entities[i]).role == Role::Autonomous
                ==> entities[i].action is Some,
        state == GameState::TakeAction && next_state(state, entities, have_updated_tilemap)
            == GameState::UpdateTilemap ==> forall|i: int|
            0 <= i < entities.len() ==> (#[trigger] entities[i]).action is None,
        next_state(state, entities, have_updated_tilemap) == state || next_state(
            state,
            entities,
            have_updated_tilemap,
        ) == match state {
            GameState::PlayerTurn => GameState::EnemyTurn,
            GameState::EnemyTurn => GameState::TakeAction,
            GameState::TakeAction => GameState::UpdateTilemap,
            GameState::UpdateTilemap => GameState::PlayerTurn,
        },
{
}

/// Ends the player's turn once every controlled entity has decided. In any
/// other phase, and while a controlled entity has not decided, nothing
/// changes.
pub fn end_player_turn(registry: &EntityRegistry, game_state: &mut GameState)
    ensures
        *final(game_state) == if *old(game_state) == GameState::PlayerTurn {
            next_state(GameState::PlayerTurn, registry@, false)
        } else {
            *old(game_state)
        },
{
    if *game_state == GameState::PlayerTurn {
        let has_player_decided = registry.all_decided(Some(Role::Controlled));
        if has_player_decided {
            *game_state = GameState::EnemyTurn;
        }
    }
}

/// Ends the enemies' turn once every autonomous entity has decided. In any
/// other phase, and while an autonomous entity has not decided, nothing
/// changes.
pub fn end_enemy_turn(registry: &EntityRegistry, game_state: &mut GameState)
    ensures
        *final(game_state) == if *old(game_state) == GameState::EnemyTurn {
            next_state(GameState::EnemyTurn, registry@, false)
        } else {
            *old(game_state)
        },
{
    if *game_state == GameState::EnemyTurn {
        let have_all_entities_decided = registry.all_decided(Some(Role::Autonomous));
        if have_all_entities_decided {
            *game_state = GameState::TakeAction;
        }
    }
}

/// Ends resolution once no entity has a decision left. In any other phase,
/// and while an entity has a decision left, nothing changes.
pub fn end_action_state(registry: &EntityRegistry, game_state: &mut GameState)
    ensures
        *final(game_state) == if *old(game_state) == GameState::TakeAction {
            next_state(GameState::TakeAction, registry@, false)
        } else {
            *old(game_state)
        },
{
    if *game_state == GameState::TakeAction {
        let have_all_entities_moved = registry.all_resolved();
        if have_all_entities_moved {
            *game_state = GameState::UpdateTilemap;
        }
    }
}

/// Ends the update once the object tiles were drawn anew, which
/// `have_updated_tilemap` reports. In any other phase, and before the tiles
/// were drawn, nothing changes.
pub fn end_update_tilemap_state(have_updated_tilemap: bool, game_state: &mut GameState)
    ensures
        *final(game_state) == if *old(game_state) == GameState::UpdateTilemap {
            next_state(GameState::UpdateTilemap, Seq::<Entity>::empty(), have_updated_tilemap)
        } else {
            *old(game_state)
        },
{
    if *game_state == GameState::UpdateTilemap {
        if have_updated_tilemap {
            *game_state = GameState::PlayerTurn;
        }
    }
}

} // verus!
