use roguelike::game::components::{Action, Drawable, Entity, EntityId, Position, Role};
use roguelike::game::config::{ENEMY_TEXTURE_INDEX, PLAYER_TEXTURE_INDEX};
use roguelike::game::enemy::{
    choose_action, decision, legal_directions, movement, ENEMY_COLUMN, ENEMY_END_ROW,
    ENEMY_FIRST_ROW,
};
use roguelike::game::movement::{resolve, Outcome};
use roguelike::game::player::{action_of, decide_action, Key, PLAYER_COLUMN, PLAYER_ROW};
use roguelike::game::registry::EntityRegistry;
use roguelike::game::tilemap::TilemapGrid;

fn spot(x: u32, y: u32) -> Position {
    Position { x, y }
}

fn enemy_at(registry: &mut EntityRegistry, x: u32, y: u32) -> EntityId {
    registry.spawn(spot(x, y), Role::Autonomous, Drawable { texture_index: 2 }).unwrap()
}

fn player_at(registry: &mut EntityRegistry, x: u32, y: u32) -> EntityId {
    registry.spawn(spot(x, y), Role::Controlled, Drawable { texture_index: 1 }).unwrap()
}

#[test]
fn legal_directions_on_open_ground_are_all_four_in_order() {
    let grid = TilemapGrid::new(5, 2, 2).unwrap();
    let registry = EntityRegistry::new(10, 10);
    assert_eq!(
        legal_directions(&registry, &grid, spot(4, 4)),
        vec![Action::North, Action::South, Action::West, Action::East]
    );
}

#[test]
fn legal_directions_leave_out_walls_entities_and_the_outside() {
    let mut grid = TilemapGrid::new(5, 2, 2).unwrap();
    let mut registry = EntityRegistry::new(10, 10);
    grid.set_wall(0, 5).unwrap();
    assert_eq!(legal_directions(&registry, &grid, spot(0, 4)), vec![Action::South, Action::East]);
    enemy_at(&mut registry, 1, 4);
    assert_eq!(legal_directions(&registry, &grid, spot(0, 4)), vec![Action::South]);
    player_at(&mut registry, 0, 3);
    assert_eq!(legal_directions(&registry, &grid, spot(0, 4)), vec![]);
    assert_eq!(legal_directions(&registry, &grid, spot(9, 9)), vec![Action::South, Action::West]);
}

#[test]
fn decision_of_a_draw() {
    assert_eq!(decision(None), Action::Stay);
    assert_eq!(decision(Some(Action::North)), Action::North);
    assert_eq!(decision(Some(Action::South)), Action::South);
    assert_eq!(decision(Some(Action::West)), Action::West);
    assert_eq!(decision(Some(Action::East)), Action::East);
    assert_eq!(decision(Some(Action::Stay)), Action::Stay);
}

#[test]
fn choose_action_without_candidates_stays() {
    for _ in 0..20 {
        assert_eq!(choose_action(&vec![]), Action::Stay);
    }
}

#[test]
fn choose_action_with_one_candidate_takes_it() {
    for action in [Action::North, Action::South, Action::West, Action::East] {
        for _ in 0..20 {
            assert_eq!(choose_action(&vec![action]), action);
        }
    }
}

#[test]
fn choose_action_takes_one_of_the_candidates() {
    let candidates = vec![Action::South, Action::East];
    let mut seen_south = false;
    let mut seen_east = false;
    for _ in 0..400 {
        match choose_action(&candidates) {
            Action::South => seen_south = true,
            Action::East => seen_east = true,
            other => panic!("{:?} is no candidate", other),
        }
    }
    assert!(seen_south && seen_east);
}

#[test]
fn movement_decides_for_autonomous_entities_only() {
    let grid = TilemapGrid::new(5, 2, 2).unwrap();
    let mut registry = EntityRegistry::new(10, 10);
    let player = player_at(&mut registry, 5, 5);
    let e1 = enemy_at(&mut registry, 1, 1);
    let e2 = enemy_at(&mut registry, 8, 8);
    movement(&mut registry, &grid);
    assert_eq!(registry.get(player).unwrap().action, None);
    for id in [e1, e2] {
        let action = registry.get(id).unwrap().action.expect("decided");
        assert!(action != Action::Stay);
    }
    assert_eq!(registry.get(e1).unwrap().position, spot(1, 1));
    assert_eq!(registry.get(e2).unwrap().position, spot(8, 8));
    assert!(registry.all_decided(Some(Role::Autonomous)));
    assert!(!registry.all_decided(None));
}

#[test]
fn movement_takes_the_only_free_neighbour() {
    for _ in 0..20 {
        let mut grid = TilemapGrid::new(5, 2, 2).unwrap();
        let mut registry = EntityRegistry::new(10, 10);
        let enemy = enemy_at(&mut registry, 0, 0);
        grid.set_wall(0, 1).unwrap();
        movement(&mut registry, &grid);
        assert_eq!(registry.get(enemy).unwrap().action, Some(Action::East));
    }
}

#[test]
fn movement_never_picks_a_wall_an_entity_or_the_outside() {
    for _ in 0..50 {
        let mut grid = TilemapGrid::new(5, 2, 2).unwrap();
        let mut registry = EntityRegistry::new(10, 10);
        let enemy = enemy_at(&mut registry, 4, 0);
        player_at(&mut registry, 3, 0);
        grid.set_wall(5, 0).unwrap();
        movement(&mut registry, &grid);
        assert_eq!(registry.get(enemy).unwrap().action, Some(Action::North));
        assert_eq!(resolve(&mut registry, &mut grid, enemy), Ok(Outcome::Moved));
        assert!(grid.is_wall(5, 0));
    }
}

#[test]
fn movement_keeps_a_decision_already_made() {
    let grid = TilemapGrid::new(5, 2, 2).unwrap();
    let mut registry = EntityRegistry::new(10, 10);
    let enemy = enemy_at(&mut registry, 0, 0);
    registry.set_action(enemy, Action::West).unwrap();
    movement(&mut registry, &grid);
    assert_eq!(registry.get(enemy).unwrap().action, Some(Action::West));
}

#[test]
fn movement_of_a_walled_in_entity_is_to_stay() {
    let mut grid = TilemapGrid::new(5, 2, 2).unwrap();
    let mut registry = EntityRegistry::new(10, 10);
    let enemy = enemy_at(&mut registry, 4, 4);
    for (x, y) in [(4, 5), (4, 3), (3, 4), (5, 4)] {
        grid.set_wall(x, y).unwrap();
    }
    movement(&mut registry, &grid);
    assert_eq!(registry.get(enemy).unwrap().action, Some(Action::Stay));
}

#[test]
fn enemies_enter_in_one_column() {
    let mut registry = EntityRegistry::new(24, 24);
    roguelike::game::enemy::add(&mut registry);
    assert_eq!((ENEMY_COLUMN, ENEMY_FIRST_ROW, ENEMY_END_ROW), (4, 2, 10));
    let entities = registry.entities();
    assert_eq!(entities.len(), 8);
    for (i, entity) in entities.iter().enumerate() {
        assert_eq!(
            *entity,
            Entity {
                id: EntityId(i as u64),
                position: spot(4, 2 + i as u32),
                role: Role::Autonomous,
                drawable: Drawable { texture_index: ENEMY_TEXTURE_INDEX },
                action: None,
            }
        );
    }
}

#[test]
fn enemies_skip_rows_that_are_taken_or_outside() {
    let mut registry = EntityRegistry::new(8, 6);
    let player = player_at(&mut registry, 4, 3);
    roguelike::game::enemy::add(&mut registry);
    let seen: Vec<(u64, u32, u32)> =
        registry.entities().iter().map(|e| (e.id.0, e.position.x, e.position.y)).collect();
    assert_eq!(seen, vec![(player.0, 4, 3), (1, 4, 2), (2, 4, 4), (3, 4, 5)]);
    let mut narrow = EntityRegistry::new(4, 24);
    roguelike::game::enemy::add(&mut narrow);
    assert_eq!(narrow.len(), 0);
}

#[test]
fn the_player_enters_on_its_cell() {
    let mut registry = EntityRegistry::new(24, 24);
    assert_eq!(roguelike::game::player::add(&mut registry), Ok(EntityId(0)));
    assert_eq!((PLAYER_COLUMN, PLAYER_ROW), (10, 10));
    assert_eq!(
        registry.entities(),
        vec![Entity {
            id: EntityId(0),
            position: spot(10, 10),
            role: Role::Controlled,
            drawable: Drawable { texture_index: PLAYER_TEXTURE_INDEX },
            action: None,
        }]
    );
    assert_eq!(
        roguelike::game::player::add(&mut registry),
        Err(roguelike::game::components::GameError::PositionOccupied)
    );
    let mut small = EntityRegistry::new(10, 11);
    assert_eq!(
        roguelike::game::player::add(&mut small),
        Err(roguelike::game::components::GameError::OutOfBounds)
    );
}

#[test]
fn keys_ask_for_directions() {
    assert_eq!(action_of(Key::Left), Some(Action::West));
    assert_eq!(action_of(Key::Right), Some(Action::East));
    assert_eq!(action_of(Key::Up), Some(Action::North));
    assert_eq!(action_of(Key::Down), Some(Action::South));
    assert_eq!(action_of(Key::Other), None);
}

#[test]
fn decide_action_takes_the_last_key_that_asks_for_a_direction() {
    let mut registry = EntityRegistry::new(10, 10);
    let player = player_at(&mut registry, 5, 5);
    let enemy = enemy_at(&mut registry, 1, 1);
    decide_action(&vec![Key::Left, Key::Other, Key::Up, Key::Other], &mut registry);
    assert_eq!(registry.get(player).unwrap().action, Some(Action::North));
    assert_eq!(registry.get(enemy).unwrap().action, None);
    decide_action(&vec![Key::Down], &mut registry);
    assert_eq!(registry.get(player).unwrap().action, Some(Action::South));
}

#[test]
fn decide_action_without_a_direction_changes_nothing() {
    let mut registry = EntityRegistry::new(10, 10);
    let player = player_at(&mut registry, 5, 5);
    decide_action(&vec![], &mut registry);
    assert_eq!(registry.get(player).unwrap().action, None);
    decide_action(&vec![Key::Other, Key::Other], &mut registry);
    assert_eq!(registry.get(player).unwrap().action, None);
    registry.set_action(player, Action::East).unwrap();
    decide_action(&vec![Key::Other], &mut registry);
    assert_eq!(registry.get(player).unwrap().action, Some(Action::East));
}
