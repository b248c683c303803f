use roguelike::game::components::{
    Action, Drawable, Entity, EntityId, GameError, Position, Role, Tile,
};
use roguelike::game::config::{ENEMY_TEXTURE_INDEX, PLAYER_TEXTURE_INDEX};
use roguelike::game::registry::EntityRegistry;
use roguelike::game::tilemap::{move_tile, TilemapGrid};

fn at(x: u32, y: u32) -> Position {
    Position { x, y }
}

fn look(texture_index: u16) -> Drawable {
    Drawable { texture_index }
}

#[test]
fn new_registry_is_empty() {
    let registry = EntityRegistry::new(10, 7);
    assert_eq!(registry.len(), 0);
    assert_eq!((registry.width(), registry.height()), (10, 7));
    assert!(registry.entities().is_empty());
    assert!(registry.positions_and_actions().is_empty());
    assert!(registry.all_decided(None));
    assert!(registry.all_resolved());
}

#[test]
fn spawn_names_entities_in_order_from_zero() {
    let mut registry = EntityRegistry::new(10, 10);
    assert_eq!(registry.spawn(at(2, 4), Role::Controlled, look(1)), Ok(EntityId(0)));
    assert_eq!(registry.spawn(at(3, 4), Role::Autonomous, look(2)), Ok(EntityId(1)));
    assert_eq!(registry.spawn(at(9, 9), Role::Autonomous, look(2)), Ok(EntityId(2)));
    assert_eq!(
        registry.entities(),
        vec![
            Entity {
                id: EntityId(0),
                position: at(2, 4),
                role: Role::Controlled,
                drawable: look(1),
                action: None
            },
            Entity {
                id: EntityId(1),
                position: at(3, 4),
                role: Role::Autonomous,
                drawable: look(2),
                action: None
            },
            Entity {
                id: EntityId(2),
                position: at(9, 9),
                role: Role::Autonomous,
                drawable: look(2),
                action: None
            },
        ]
    );
}

#[test]
fn spawn_fails_on_an_occupied_cell() {
    let mut registry = EntityRegistry::new(10, 10);
    registry.spawn(at(2, 4), Role::Controlled, look(1)).unwrap();
    assert_eq!(
        registry.spawn(at(2, 4), Role::Autonomous, look(2)),
        Err(GameError::PositionOccupied)
    );
    assert_eq!(
        registry.spawn(at(2, 4), Role::Controlled, look(1)),
        Err(GameError::PositionOccupied)
    );
    assert_eq!(registry.len(), 1);
    assert_eq!(registry.spawn(at(2, 5), Role::Autonomous, look(2)), Ok(EntityId(1)));
}

#[test]
fn spawn_fails_outside_the_grid() {
    let mut registry = EntityRegistry::new(10, 6);
    assert_eq!(registry.spawn(at(10, 0), Role::Controlled, look(1)), Err(GameError::OutOfBounds));
    assert_eq!(registry.spawn(at(0, 6), Role::Controlled, look(1)), Err(GameError::OutOfBounds));
    assert_eq!(
        registry.spawn(at(u32::MAX, u32::MAX), Role::Controlled, look(1)),
        Err(GameError::OutOfBounds)
    );
    assert_eq!(registry.len(), 0);
    assert_eq!(registry.spawn(at(9, 5), Role::Controlled, look(1)), Ok(EntityId(0)));
}

#[test]
fn despawn_removes_the_entity_and_keeps_the_order() {
    let mut registry = EntityRegistry::new(10, 10);
    let a = registry.spawn(at(1, 1), Role::Controlled, look(1)).unwrap();
    let b = registry.spawn(at(2, 2), Role::Autonomous, look(2)).unwrap();
    let c = registry.spawn(at(3, 3), Role::Autonomous, look(2)).unwrap();
    assert_eq!(registry.despawn(b), Ok(()));
    let left: Vec<EntityId> = registry.entities().iter().map(|e| e.id).collect();
    assert_eq!(left, vec![a, c]);
    assert!(!registry.contains(b));
    assert!(registry.contains(a));
    assert!(registry.contains(c));
}

#[test]
fn despawn_twice_fails() {
    let mut registry = EntityRegistry::new(10, 10);
    let a = registry.spawn(at(1, 1), Role::Controlled, look(1)).unwrap();
    assert_eq!(registry.despawn(a), Ok(()));
    assert_eq!(registry.despawn(a), Err(GameError::UnknownEntity));
    assert_eq!(registry.despawn(EntityId(77)), Err(GameError::UnknownEntity));
}

#[test]
fn a_name_is_never_issued_again() {
    let mut registry = EntityRegistry::new(10, 10);
    let a = registry.spawn(at(1, 1), Role::Controlled, look(1)).unwrap();
    let b = registry.spawn(at(2, 2), Role::Autonomous, look(2)).unwrap();
    registry.despawn(b).unwrap();
    registry.despawn(a).unwrap();
    let c = registry.spawn(at(1, 1), Role::Autonomous, look(2)).unwrap();
    assert_eq!(c, EntityId(2));
    assert_eq!(registry.get(a), Err(GameError::UnknownEntity));
    assert_eq!(registry.get(b), Err(GameError::UnknownEntity));
}

#[test]
fn operations_on_an_unknown_name_fail() {
    let mut registry = EntityRegistry::new(10, 10);
    registry.spawn(at(1, 1), Role::Controlled, look(1)).unwrap();
    let nobody = EntityId(5);
    assert_eq!(registry.get(nobody), Err(GameError::UnknownEntity));
    assert_eq!(registry.set_action(nobody, Action::East), Err(GameError::UnknownEntity));
    assert_eq!(registry.clear_action(nobody), Err(GameError::UnknownEntity));
    assert_eq!(registry.relocate(nobody, at(4, 4)), Err(GameError::UnknownEntity));
    assert_eq!(registry.despawn(nobody), Err(GameError::UnknownEntity));
    assert!(!registry.contains(nobody));
    assert_eq!(registry.len(), 1);
}

#[test]
fn set_action_and_clear_action_write_the_decision() {
    let mut registry = EntityRegistry::new(10, 10);
    let a = registry.spawn(at(1, 1), Role::Controlled, look(1)).unwrap();
    let b = registry.spawn(at(2, 2), Role::Autonomous, look(2)).unwrap();
    assert_eq!(registry.set_action(a, Action::North), Ok(()));
    assert_eq!(registry.get(a).unwrap().action, Some(Action::North));
    assert_eq!(registry.get(b).unwrap().action, None);
    assert_eq!(registry.set_action(a, Action::West), Ok(()));
    assert_eq!(registry.get(a).unwrap().action, Some(Action::West));
    assert_eq!(registry.clear_action(a), Ok(()));
    assert_eq!(registry.get(a).unwrap().action, None);
    assert_eq!(registry.clear_action(a), Ok(()));
    assert_eq!(registry.get(a).unwrap().position, at(1, 1));
}

#[test]
fn all_decided_looks_at_the_roles_that_pass_the_filter() {
    let mut registry = EntityRegistry::new(10, 10);
    let a = registry.spawn(at(1, 1), Role::Controlled, look(1)).unwrap();
    let b = registry.spawn(at(2, 2), Role::Autonomous, look(2)).unwrap();
    let c = registry.spawn(at(3, 3), Role::Autonomous, look(2)).unwrap();
    assert!(!registry.all_decided(None));
    assert!(!registry.all_decided(Some(Role::Controlled)));
    assert!(!registry.all_decided(Some(Role::Autonomous)));
    assert!(registry.all_resolved());
    registry.set_action(a, Action::Stay).unwrap();
    assert!(registry.all_decided(Some(Role::Controlled)));
    assert!(!registry.all_decided(Some(Role::Autonomous)));
    assert!(!registry.all_decided(None));
    assert!(!registry.all_resolved());
    registry.set_action(b, Action::East).unwrap();
    assert!(!registry.all_decided(Some(Role::Autonomous)));
    registry.set_action(c, Action::South).unwrap();
    assert!(registry.all_decided(Some(Role::Autonomous)));
    assert!(registry.all_decided(None));
}

#[test]
fn all_decided_holds_where_no_entity_passes_the_filter() {
    let mut registry = EntityRegistry::new(10, 10);
    registry.spawn(at(2, 2), Role::Autonomous, look(2)).unwrap();
    assert!(registry.all_decided(Some(Role::Controlled)));
    assert!(!registry.all_decided(Some(Role::Autonomous)));
}

#[test]
fn positions_and_actions_is_a_snapshot_in_registration_order() {
    let mut registry = EntityRegistry::new(10, 10);
    let a = registry.spawn(at(1, 1), Role::Controlled, look(1)).unwrap();
    let b = registry.spawn(at(2, 2), Role::Autonomous, look(2)).unwrap();
    registry.set_action(b, Action::South).unwrap();
    let snapshot = registry.positions_and_actions();
    assert_eq!(snapshot, vec![(a, at(1, 1), None), (b, at(2, 2), Some(Action::South))]);
    registry.despawn(a).unwrap();
    assert_eq!(snapshot.len(), 2);
    assert_eq!(registry.positions_and_actions(), vec![(b, at(2, 2), Some(Action::South))]);
}

#[test]
fn relocate_moves_one_entity() {
    let mut registry = EntityRegistry::new(10, 10);
    let a = registry.spawn(at(1, 1), Role::Controlled, look(1)).unwrap();
    let b = registry.spawn(at(2, 2), Role::Autonomous, look(2)).unwrap();
    registry.set_action(a, Action::East).unwrap();
    assert_eq!(registry.relocate(a, at(5, 6)), Ok(()));
    let moved = registry.get(a).unwrap();
    assert_eq!(moved.position, at(5, 6));
    assert_eq!(moved.action, Some(Action::East));
    assert_eq!(registry.get(b).unwrap().position, at(2, 2));
    assert_eq!(registry.relocate(a, at(5, 6)), Ok(()));
}

#[test]
fn relocate_fails_on_a_taken_cell_and_outside_the_grid() {
    let mut registry = EntityRegistry::new(10, 10);
    let a = registry.spawn(at(1, 1), Role::Controlled, look(1)).unwrap();
    registry.spawn(at(2, 2), Role::Autonomous, look(2)).unwrap();
    assert_eq!(registry.relocate(a, at(2, 2)), Err(GameError::PositionOccupied));
    assert_eq!(registry.relocate(a, at(10, 2)), Err(GameError::OutOfBounds));
    assert_eq!(registry.relocate(a, at(2, 10)), Err(GameError::OutOfBounds));
    assert_eq!(registry.get(a).unwrap().position, at(1, 1));
}

#[test]
fn occupant_at_finds_who_stands_on_a_cell() {
    let mut registry = EntityRegistry::new(10, 10);
    let a = registry.spawn(at(1, 1), Role::Controlled, look(1)).unwrap();
    assert_eq!(registry.occupant_at(at(1, 1)).map(|e| e.id), Some(a));
    assert_eq!(registry.occupant_at(at(1, 2)), None);
}

#[test]
fn rebuild_overlay_shows_every_entity_and_nothing_else() {
    let mut grid = TilemapGrid::new(5, 2, 2).unwrap();
    let mut registry = EntityRegistry::new(10, 10);
    grid.set_wall(6, 5).unwrap();
    grid.set_wall(0, 0).unwrap();
    registry.spawn(at(2, 4), Role::Controlled, look(PLAYER_TEXTURE_INDEX)).unwrap();
    registry.spawn(at(9, 9), Role::Autonomous, look(ENEMY_TEXTURE_INDEX)).unwrap();
    registry.spawn(at(0, 0), Role::Autonomous, look(7)).unwrap();
    grid.rebuild_overlay(&registry);
    for y in 0..10 {
        for x in 0..10 {
            let expected = match (x, y) {
                (2, 4) => Tile::Occupant(PLAYER_TEXTURE_INDEX),
                (9, 9) => Tile::Occupant(ENEMY_TEXTURE_INDEX),
                (0, 0) => Tile::Occupant(7),
                (6, 5) => Tile::Wall,
                _ => Tile::Empty,
            };
            assert_eq!(grid.tile_at(x, y), Ok(expected), "({}, {})", x, y);
        }
    }
    assert!(grid.is_wall(0, 0));
}

#[test]
fn rebuild_overlay_forgets_the_picture_before() {
    let mut grid = TilemapGrid::new(5, 2, 2).unwrap();
    let mut registry = EntityRegistry::new(10, 10);
    let a = registry.spawn(at(2, 4), Role::Controlled, look(1)).unwrap();
    let b = registry.spawn(at(3, 3), Role::Autonomous, look(2)).unwrap();
    grid.rebuild_overlay(&registry);
    registry.relocate(a, at(3, 4)).unwrap();
    registry.despawn(b).unwrap();
    assert_eq!(grid.tile_at(2, 4), Ok(Tile::Occupant(1)));
    grid.rebuild_overlay(&registry);
    assert_eq!(grid.tile_at(2, 4), Ok(Tile::Empty));
    assert_eq!(grid.tile_at(3, 4), Ok(Tile::Occupant(1)));
    assert_eq!(grid.tile_at(3, 3), Ok(Tile::Empty));
}

#[test]
fn rebuild_overlay_leaves_out_entities_beyond_the_grid() {
    let mut grid = TilemapGrid::new(2, 2, 2).unwrap();
    let mut registry = EntityRegistry::new(10, 10);
    registry.spawn(at(1, 1), Role::Controlled, look(1)).unwrap();
    registry.spawn(at(8, 8), Role::Autonomous, look(2)).unwrap();
    grid.rebuild_overlay(&registry);
    for y in 0..4 {
        for x in 0..4 {
            let expected = if (x, y) == (1, 1) { Tile::Occupant(1) } else { Tile::Empty };
            assert_eq!(grid.tile_at(x, y), Ok(expected));
        }
    }
}

#[test]
fn move_tile_moves_an_object_tile() {
    let mut grid = TilemapGrid::new(5, 2, 2).unwrap();
    let mut registry = EntityRegistry::new(10, 10);
    registry.spawn(at(2, 4), Role::Controlled, look(1)).unwrap();
    grid.rebuild_overlay(&registry);
    grid.set_wall(8, 8).unwrap();
    assert_eq!(move_tile(&at(2, 4), &at(3, 4), &mut grid, 9), Ok(()));
    assert_eq!(grid.tile_at(2, 4), Ok(Tile::Empty));
    assert_eq!(grid.tile_at(3, 4), Ok(Tile::Occupant(9)));
    assert_eq!(grid.tile_at(8, 8), Ok(Tile::Wall));
    assert_eq!(move_tile(&at(3, 4), &at(3, 4), &mut grid, 4), Ok(()));
    assert_eq!(grid.tile_at(3, 4), Ok(Tile::Occupant(4)));
}

#[test]
fn move_tile_fails_without_a_tile_and_outside_the_grid() {
    let mut grid = TilemapGrid::new(5, 2, 2).unwrap();
    let mut registry = EntityRegistry::new(10, 10);
    registry.spawn(at(2, 4), Role::Controlled, look(1)).unwrap();
    grid.rebuild_overlay(&registry);
    assert_eq!(move_tile(&at(5, 5), &at(3, 4), &mut grid, 1), Err(GameError::UnknownEntity));
    assert_eq!(move_tile(&at(2, 4), &at(10, 4), &mut grid, 1), Err(GameError::OutOfBounds));
    assert_eq!(move_tile(&at(2, 10), &at(3, 4), &mut grid, 1), Err(GameError::OutOfBounds));
    assert_eq!(grid.tile_at(2, 4), Ok(Tile::Occupant(1)));
    assert_eq!(grid.tile_at(3, 4), Ok(Tile::Empty));
}
