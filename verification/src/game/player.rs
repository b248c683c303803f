//! The controlled entity: how it enters the game and how input becomes its
//! decision.

use vstd::prelude::*;
use crate::game::components::{Action, Drawable, Entity, EntityId, GameError, Position, Role};
use crate::game::config::PLAYER_TEXTURE_INDEX;
use crate::game::registry::{lemma_index_of, occupied, EntityRegistry};

verus! {

/// A key that was released since the last frame.
#[derive(Clone, Copy, Debug, PartialEq, Eq, Structural)]
pub enum Key {
    Left,
    Right,
    Up,
    Down,
    /// Any key that gives no direction.
    Other,
}

/// Column in which the controlled entity enters the game.
pub const PLAYER_COLUMN: u32 = 10;

/// Row in which the controlled entity enters the game.
pub const PLAYER_ROW: u32 = 10;

/// The direction that a key asks for, if it asks for one.
pub open spec fn key_action(key: Key) -> Option<Action> {
    match key {
        Key::Left => Some(Action::West),
        Key::Right => Some(Action::East),
        Key::Up => Some(Action::North),
        Key::Down => Some(Action::South),
        Key::Other => None,
    }
}

/// The direction asked for by the last of `keys` that asks for one.
pub open spec fn last_intent(keys: Seq<Key>) -> Option<Action>
    decreases keys.len(),
{
    if keys.len() == 0 {
        None
    } else if key_action(keys.last()) is Some {
        key_action(keys.last())
    } else {
        last_intent(keys.drop_last())
    }
}

/// The roster after `intent` was taken down: a direction becomes the decision
/// of every controlled entity, in place of an earlier one; no direction
/// changes nothing.
pub open spec fn with_intent(entities: Seq<Entity>, intent: Option<Action>) -> Seq<Entity> {
    match intent {
        None => entities,
        Some(action) => Seq::new(
            entities.len(),
            |i: int|
                if entities[i].role == Role::Controlled {
                    Entity { action: Some(action), ..entities[i] }
                } else {
                    entities[i]
                },
        ),
    }
}

/// The controlled entity as it enters the game under the name `name`.
pub open spec fn player(name: int) -> Entity {
    Entity {
        id: EntityId(name as u64),
        position: Position { x: PLAYER_COLUMN, y: PLAYER_ROW },
        role: Role::Controlled,
        drawable: Drawable { texture_index: PLAYER_TEXTURE_INDEX },
        action: None,
    }
}

/// Places the controlled entity on the cell (`PLAYER_COLUMN`, `PLAYER_ROW`),
/// without a decision.
///
/// `OutOfBounds` where that is no cell of the grid; otherwise
/// `PositionOccupied` where a live entity stands there. Nothing changes on an
/// error.
pub fn add(registry: &mut EntityRegistry) -> (spawned: Result<EntityId, GameError>)
    requires
        old(registry).wf(),
        old(registry).issued() < u64::MAX,
    ensures
        final(registry).wf(),
        final(registry).spec_width() == old(registry).spec_width(),
        final(registry).spec_height() == old(registry).spec_height(),
        spawned == if !(PLAYER_COLUMN < old(registry).spec_width() && PLAYER_ROW < old(
            registry,
        ).spec_height()) {
            Err::<EntityId, GameError>(GameError::OutOfBounds)
        } else if occupied(old(registry)@, (PLAYER_COLUMN as int, PLAYER_ROW as int)) {
            Err::<EntityId, GameError>(GameError::PositionOccupied)
        } else {
            Ok::<EntityId, GameError>(EntityId(old(registry).issued() as u64))
        },
        spawned is Ok ==> {
            &&& final(registry)@ == old(registry)@.push(player(old(registry).issued()))
            &&& final(registry).issued() == old(registry).issued() + 1
        },
        spawned is Err ==> final(registry)@ == old(registry)@ && final(registry).issued() == old(
            registry,
        ).issued(),
{
    registry.spawn(
        Position { x: PLAYER_COLUMN, y: PLAYER_ROW },
        Role::Controlled,
        Drawable { texture_index: PLAYER_TEXTURE_INDEX },
    )
}

/// The direction that a key asks for, if it asks for one.
pub fn action_of(key: Key) -> (action: Option<Action>)
    ensures
        action == key_action(key),
{
    match key {
        Key::Left => Some(Action::West),
        Key::Right => Some(Action::East),
        Key::Up => Some(Action::North),
        Key::Down => Some(Action::South),
        Key::Other => None,
    }
}

/// Takes the released keys as the input of one frame: the last key that
/// asks for a direction decides for every controlled entity, in place of an
/// earlier decision. Keys that ask for no direction change nothing.
pub fn decide_action(keys: &Vec<Key>, registry: &mut EntityRegistry)
    requires
        old(registry).wf(),
    ensures
        final(registry).wf(),
        final(registry).same_frame(old(registry)),
        final(registry)@ == with_intent(old(registry)@, last_intent(keys@)),
{
    let mut intent: Option<Action> = None;
    let mut k: usize = 0;
    while k < keys.len()
        invariant
            k <= keys@.len(),
            intent == last_intent(keys@.take(k as int)),
        decreases keys@.len() - k,
    {
        proof {
            assert(keys@.take(k as int + 1).drop_last() =~= keys@.take(k as int));
        }
        let chosen_action = action_of(keys[k]);
        if chosen_action.is_some() {
            intent = chosen_action;
        }
        k += 1;
    }
    proof {
        assert(keys@.take(keys@.len() as int) =~= keys@);
    }
    let action = match intent {
        None => {
            return ;
        },
        Some(action) => action,
    };
    let ghost s0 = registry@;
    let snapshot = registry.entities();
    let n = snapshot.len();
    let mut i: usize = 0;
    while i < n
        invariant
            i <= n,
            snapshot@ == s0,
            n == s0.len(),
            registry@.len() == n,
            registry.wf(),
            registry.same_frame(old(registry)),
            forall|m: int|
                0 <= m < i ==> #[trigger] registry@[m] == with_intent(s0, Some(action))[m],
            forall|m: int| i <= m < n ==> #[trigger] registry@[m] == s0[m],
        decreases n - i,
    {
        let entity = snapshot[i];
        if entity.role == Role::Controlled {
            proof {
                lemma_index_of(registry@, registry.spec_width(), registry.spec_height(), i as int);
            }
            let _ = registry.set_action(entity.id, action);
        }
        i += 1;
    }
}

} // verus!
