use coc_attack_bot::coordinate_mapper::{
    mapping_keys, Coord, CoordMap, CoordinateMapper, MappingExit, MappingSession,
};

fn map(items: &[(&str, i32, i32)]) -> CoordMap {
    let mut m = CoordMap::new();
    for (n, x, y) in items {
        m.insert(n.to_string(), Coord { x: *x, y: *y });
    }
    m
}

#[test]
fn insert_then_get() {
    let mut m = map(&[("attack", 10, 20)]);
    assert_eq!(m.get("attack"), Some(Coord { x: 10, y: 20 }));
    assert_eq!(m.get("next_button"), None);
    m.insert("attack".to_string(), Coord { x: 1, y: 2 });
    assert_eq!(m.get("attack"), Some(Coord { x: 1, y: 2 }));
    assert_eq!(m.len(), 1);
    assert!(m.contains_key("attack"));
    assert!(!m.is_empty());
}

#[test]
fn import_merges_or_replaces() {
    let mut mapper = CoordinateMapper::new("coords.json".to_string(), map(&[("a", 1, 1), ("b", 2, 2)]));
    mapper.import(map(&[("b", 3, 3), ("c", 4, 4)]), true);
    assert_eq!(mapper.get("a"), Some(Coord { x: 1, y: 1 }));
    assert_eq!(mapper.get("b"), Some(Coord { x: 3, y: 3 }));
    assert_eq!(mapper.get("c"), Some(Coord { x: 4, y: 4 }));
    mapper.import(map(&[("z", 9, 9)]), false);
    assert_eq!(mapper.get("a"), None);
    assert_eq!(mapper.get("z"), Some(Coord { x: 9, y: 9 }));
    assert_eq!(mapper.coordinates.len(), 1);
    assert_eq!(mapper.coords_file, "coords.json");
}

#[test]
fn mapping_session_records_trimmed_names_and_commits() {
    let mut session = MappingSession::new();
    assert!(session.record("  attack \n", Coord { x: 5, y: 6 }));
    assert!(!session.record("   ", Coord { x: 0, y: 0 }));
    let mut saved = map(&[("attack", 1, 1), ("home", 2, 2)]);
    assert_eq!(session.commit(&mut saved), 1);
    assert!(session.pending.is_empty());
    assert_eq!(saved.get("attack"), Some(Coord { x: 5, y: 6 }));
    assert_eq!(saved.get("home"), Some(Coord { x: 2, y: 2 }));
    assert_eq!(session.commit(&mut saved), 0);
}

#[test]
fn mapping_hotkeys() {
    assert_eq!(mapping_keys(true, true, true, true).exit, Some(MappingExit::Cancelled));
    assert_eq!(mapping_keys(false, true, true, false).exit, Some(MappingExit::Finished));
    let k = mapping_keys(false, false, true, true);
    assert_eq!(k.exit, None);
    assert!(k.record && k.save);
}

#[test]
fn importing_the_current_map_changes_nothing() {
    let items = [("attack", 10, 20), ("next_button", 30, 40)];
    for merge in [true, false] {
        let mut mapper = CoordinateMapper::new("coords.json".to_string(), map(&items));
        mapper.import(map(&items), merge);
        assert_eq!(mapper.coordinates.len(), 2);
        assert_eq!(mapper.get("attack"), Some(Coord { x: 10, y: 20 }));
        assert_eq!(mapper.get("next_button"), Some(Coord { x: 30, y: 40 }));
    }
}
