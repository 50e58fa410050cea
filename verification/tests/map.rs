use dungeon_core::GameMap;
use dungeon_core::Rect;
use dungeon_core::TileType;

fn open_map(width: i32, height: i32) -> GameMap {
    let mut map = GameMap::new(width, height);
    for i in 0..map.tiles.len() {
        map.tiles[i] = TileType::Floor;
    }
    map.populate_blocked();
    map
}

#[test]
fn xy_idx_is_row_major() {
    let map = GameMap::new(10, 8);
    assert_eq!(map.xy_idx(0, 0), 0);
    assert_eq!(map.xy_idx(3, 2), 23);
    assert_eq!(map.xy_idx(9, 7), 79);
}

#[test]
fn new_map_is_walled_and_blocked() {
    let map = GameMap::new(5, 4);
    assert_eq!(map.tiles.len(), 20);
    assert!(map.tiles.iter().all(|t| *t == TileType::Wall));
    assert!(map.blocked.iter().all(|b| *b));
    assert!(map.revealed_tiles.iter().all(|r| !*r));
    assert!(map.visible_tiles.iter().all(|v| !*v));
    assert!(map.tile_content.iter().all(|c| c.is_empty()));
    assert!(map.rooms.is_empty());
}

#[test]
fn populate_blocked_follows_terrain() {
    let mut map = GameMap::new(4, 4);
    let idx = map.xy_idx(2, 1);
    map.tiles[idx] = TileType::Floor;
    map.populate_blocked();
    for i in 0..map.tiles.len() {
        assert_eq!(map.blocked[i], map.tiles[i] == TileType::Wall);
    }
}

#[test]
fn clear_content_index_empties_every_cell() {
    let mut map = GameMap::new(3, 3);
    map.tile_content[4].push(7);
    map.tile_content[0].push(1);
    map.clear_content_index();
    assert!(map.tile_content.iter().all(|c| c.is_empty()));
}

#[test]
fn is_opaque_only_on_walls() {
    let mut map = GameMap::new(3, 3);
    let idx = map.xy_idx(1, 1);
    map.tiles[idx] = TileType::Floor;
    assert!(!map.is_opaque(idx));
    assert!(map.is_opaque(0));
}

#[test]
fn exits_of_an_interior_cell() {
    let map = open_map(5, 5);
    let center = map.xy_idx(2, 2);
    let exits = map.get_available_exits(center);
    // all eight neighbors are open; cardinal cost 100, diagonal 145
    assert_eq!(exits.len(), 8);
    assert!(exits.contains(&(map.xy_idx(1, 2), 100)));
    assert!(exits.contains(&(map.xy_idx(3, 2), 100)));
    assert!(exits.contains(&(map.xy_idx(2, 1), 100)));
    assert!(exits.contains(&(map.xy_idx(2, 3), 100)));
    assert!(exits.contains(&(map.xy_idx(1, 1), 145)));
    assert!(exits.contains(&(map.xy_idx(3, 3), 145)));
    assert!(exits.contains(&(map.xy_idx(1, 3), 145)));
    assert!(exits.contains(&(map.xy_idx(3, 1), 145)));
}

#[test]
fn exits_avoid_blocked_and_left_edge() {
    let mut map = open_map(5, 5);
    let blocked_cell = map.xy_idx(3, 2);
    map.blocked[blocked_cell] = true;
    let center = map.xy_idx(2, 2);
    let exits = map.get_available_exits(center);
    assert_eq!(exits.len(), 7);
    assert!(!exits.iter().any(|(i, _)| *i == blocked_cell));
    // a cell in the leftmost passable column: column 0 is never a valid exit
    let edge = map.xy_idx(1, 2);
    let edge_exits = map.get_available_exits(edge);
    assert!(!edge_exits.iter().any(|(i, _)| *i == map.xy_idx(0, 1)));
    assert!(!edge_exits.iter().any(|(i, _)| *i == map.xy_idx(0, 2)));
    assert!(!edge_exits.iter().any(|(i, _)| *i == map.xy_idx(0, 3)));
}

#[test]
fn draw_room_carves_interior_only() {
    let mut map = GameMap::new(8, 8);
    let room = Rect { x1: 1, y1: 1, x2: 4, y2: 4 };
    map.draw_room(&room);
    for y in 0..8 {
        for x in 0..8 {
            let idx = map.xy_idx(x, y);
            let inside = x > 1 && x <= 4 && y > 1 && y <= 4;
            if inside {
                assert_eq!(map.tiles[idx], TileType::Floor);
            } else {
                assert_eq!(map.tiles[idx], TileType::Wall);
            }
        }
    }
}

#[test]
fn rect_center_and_intersect() {
    let r = Rect::new(2, 3, 4, 6);
    assert_eq!(r.x2, 6);
    assert_eq!(r.y2, 9);
    assert_eq!(r.center(), (4, 6));
    let other = Rect::new(6, 9, 2, 2);
    assert!(r.intersect(&other));
    let far = Rect::new(20, 20, 2, 2);
    assert!(!r.intersect(&far));
}

#[test]
fn room_population_rejects_overlaps_and_carves() {
    let mut map = GameMap::new(20, 20);
    let a = Rect { x1: 1, y1: 1, x2: 6, y2: 6 };
    let overlapping = Rect { x1: 4, y1: 4, x2: 9, y2: 9 };
    let b = Rect { x1: 10, y1: 10, x2: 15, y2: 15 };
    let candidates = vec![a, overlapping, b];
    let flips = vec![true, false, true];
    map.populate_with_random_rooms(&candidates, &flips);
    assert_eq!(map.rooms.len(), 2);
    assert_eq!(map.rooms[0], a);
    assert_eq!(map.rooms[1], b);
    // both accepted interiors are floor
    for room in [a, b] {
        for y in (room.y1 + 1)..=room.y2 {
            for x in (room.x1 + 1)..=room.x2 {
                assert_eq!(map.tiles[map.xy_idx(x, y)], TileType::Floor);
            }
        }
    }
    // a tunnel links the two room centers: some floor outside both interiors
    let outside_floor = (0..map.tiles.len()).any(|i| {
        let x = (i as i32) % 20;
        let y = (i as i32) / 20;
        let in_a = x > a.x1 && x <= a.x2 && y > a.y1 && y <= a.y2;
        let in_b = x > b.x1 && x <= b.x2 && y > b.y1 && y <= b.y2;
        map.tiles[i] == TileType::Floor && !in_a && !in_b
    });
    assert!(outside_floor);
}

#[test]
fn room_candidates_out_of_bounds_are_skipped() {
    let mut map = GameMap::new(10, 10);
    let too_big = Rect { x1: 2, y1: 2, x2: 9, y2: 9 };
    map.populate_with_random_rooms(&vec![too_big], &vec![true]);
    assert!(map.rooms.is_empty());
    assert!(map.tiles.iter().all(|t| *t == TileType::Wall));
}
