use facto::bp::builder::{BlueprintBuilder, Coord, Payload};

#[test]
fn entity_ids_are_contiguous() {
    let mut b = BlueprintBuilder::new("ids", "ids of every add operation");
    let id1 = b.add("stone-wall".to_owned(), Coord::from_int(0), Coord::from_int(0));
    let id2 = b.add_with_items(
        "locomotive".to_owned(),
        Coord::from_int(1),
        Coord::from_int(0),
        vec![("nuclear-fuel".to_owned(), 3)],
    );
    let id3 = b.add_with_inventory(
        "cargo-wagon".to_owned(),
        Coord::from_int(2),
        Coord::from_int(0),
        "iron-plate",
    );
    let id4 = b.add_combinator(
        Coord::from_int(3),
        Coord::from_int(0),
        vec![("iron-plate".to_owned(), 7)],
    );
    assert_eq!(id1, 1);
    assert_eq!(id2, 2);
    assert_eq!(id3, 3);
    assert_eq!(id4, 4);
    for (i, e) in b.entities.iter().enumerate() {
        assert_eq!(e.entity_number, i + 1);
    }
}

#[test]
fn icon_indices_are_contiguous() {
    let mut b = BlueprintBuilder::new("icons", "icon slots");
    b.add_icon("stone-wall".to_owned());
    b.add_icon("locomotive".to_owned());
    b.add_icon("iron-plate".to_owned());
    assert_eq!(b.icons.len(), 3);
    for (i, ic) in b.icons.iter().enumerate() {
        assert_eq!(ic.index, i + 1);
    }
    assert_eq!(b.icons[0].name, "stone-wall");
    assert_eq!(b.icons[2].name, "iron-plate");
}

#[test]
fn inventory_filter_fills_forty_slots() {
    let mut b = BlueprintBuilder::new("inv", "inventory filters");
    let id = b.add_with_inventory(
        "cargo-wagon".to_owned(),
        Coord::from_int(0),
        Coord::from_int(0),
        "iron-plate",
    );
    assert_eq!(id, 1);
    match &b.entities[0].payload {
        Payload::Inventory { slots } => {
            assert_eq!(slots.len(), 40);
            for (i, f) in slots.iter().enumerate() {
                assert_eq!(f.index, i + 1);
                assert_eq!(f.name, "iron-plate");
            }
        },
        _ => panic!("expected an inventory payload"),
    }
}

#[test]
fn combinator_signals_are_indexed_in_order() {
    let mut b = BlueprintBuilder::new("sig", "signal filters");
    let id = b.add_combinator(
        Coord::from_halves(3),
        Coord::from_halves(-1),
        vec![("iron-plate".to_owned(), 7), ("copper-plate".to_owned(), -2)],
    );
    assert_eq!(id, 1);
    let e = &b.entities[0];
    assert_eq!(e.name, "constant-combinator");
    assert_eq!(e.position.x.halves, 3);
    assert_eq!(e.position.y.halves, -1);
    match &e.payload {
        Payload::Signals { filters } => {
            assert_eq!(filters.len(), 2);
            assert_eq!(filters[0].name, "iron-plate");
            assert_eq!(filters[0].count, 7);
            assert_eq!(filters[0].index, 1);
            assert_eq!(filters[1].name, "copper-plate");
            assert_eq!(filters[1].count, -2);
            assert_eq!(filters[1].index, 2);
        },
        _ => panic!("expected a signal payload"),
    }
}

#[test]
fn items_mapping_overwrites_duplicate_keys() {
    let mut b = BlueprintBuilder::new("items", "item counts");
    b.add_with_items(
        "chest".to_owned(),
        Coord::from_int(0),
        Coord::from_int(0),
        vec![
            ("iron-plate".to_owned(), 1),
            ("copper-plate".to_owned(), 2),
            ("iron-plate".to_owned(), 5),
        ],
    );
    match &b.entities[0].payload {
        Payload::Items { entries } => {
            assert_eq!(entries.len(), 2);
            assert_eq!(entries[0].name, "iron-plate");
            assert_eq!(entries[0].count, 5);
            assert_eq!(entries[1].name, "copper-plate");
            assert_eq!(entries[1].count, 2);
        },
        _ => panic!("expected an items payload"),
    }
}

#[test]
fn grid_placement_covers_cartesian_product() {
    let mut b = BlueprintBuilder::new("grid", "a 3x3 grid of markers");
    let grid = vec![vec![true, true, true], vec![true, true, true], vec![true, true, true]];
    b.add_grid(Coord::from_int(0), Coord::from_int(0), &grid);
    assert_eq!(b.entities.len(), 9);
    let mut positions = Vec::new();
    for (i, e) in b.entities.iter().enumerate() {
        assert_eq!(e.entity_number, i + 1);
        assert_eq!(e.name, "stone-wall");
        positions.push((e.position.x.halves, e.position.y.halves));
    }
    let mut expected = Vec::new();
    for ix in 0..3 {
        for iy in 0..3 {
            expected.push((2 * ix, 2 * iy));
        }
    }
    assert_eq!(positions, expected);
}

#[test]
fn grid_placement_skips_false_cells() {
    let mut b = BlueprintBuilder::new("grid", "a sparse grid");
    let grid = vec![vec![false, true], vec![true, false]];
    b.add_grid(Coord::from_int(10), Coord::from_int(-3), &grid);
    assert_eq!(b.entities.len(), 2);
    assert_eq!(b.entities[0].entity_number, 1);
    assert_eq!((b.entities[0].position.x.halves, b.entities[0].position.y.halves), (20, -4));
    assert_eq!(b.entities[1].entity_number, 2);
    assert_eq!((b.entities[1].position.x.halves, b.entities[1].position.y.halves), (22, -6));
}

#[test]
fn train_blueprint_shape() {
    let bp = facto::trains::bp_for_item("iron-plate".to_owned());
    assert_eq!(bp.label, "[item=iron-plate] train");
    assert_eq!(
        bp.description,
        "Load and unload train that holds [item=iron-plate] with filtered carriages"
    );
    assert_eq!(bp.icons.len(), 2);
    assert_eq!(bp.icons[0].name, "locomotive");
    assert_eq!(bp.icons[1].name, "iron-plate");
    assert_eq!(bp.entities.len(), 50);
    for i in 0..39 {
        assert_eq!(bp.entities[i].name, "straight-rail");
        assert_eq!(bp.entities[i].position.x.halves, 2);
        assert_eq!(bp.entities[i].position.y.halves, 2 + 4 * i as i32);
    }
    for i in 39..42 {
        assert_eq!(bp.entities[i].name, "locomotive");
    }
    for i in 42..50 {
        assert_eq!(bp.entities[i].name, "cargo-wagon");
    }
    assert_eq!(bp.schedules.len(), 1);
    assert_eq!(bp.schedules[0].locomotives, vec![42]);
    assert_eq!(bp.schedules[0].schedule.len(), 2);
    assert_eq!(bp.schedules[0].schedule[0].station, "[L] [item=iron-plate]");
    assert_eq!(bp.schedules[0].schedule[1].station, "[U] [item=iron-plate]");
}

#[test]
fn qr_generation_rejects_oversized_text() {
    let huge = "a".repeat(5000);
    let out = facto::qr::qr_output(&vec![huge]);
    assert_eq!(out, Err(facto::qr::QrError::Generation));
}

#[test]
fn qr_code_rejects_an_offset_near_the_coordinate_edge() {
    let mut b = BlueprintBuilder::new("qr", "an offset with no room for a grid");
    let r = b.add_qr_code(
        Coord::from_halves(i32::MAX),
        Coord::from_halves(0),
        "https://example.com",
    );
    assert_eq!(r, Err(facto::qr::QrError::OutOfRange));
    assert!(b.entities.is_empty());
}

#[test]
fn qr_code_places_markers() {
    let mut b = BlueprintBuilder::new("qr", "a QR code");
    let r = b.add_qr_code(Coord::from_int(0), Coord::from_int(0), "https://example.com");
    assert!(r.is_ok());
    // The smallest Model 2 symbol is 21x21; a real matrix yields many
    // markers, all named and numbered in order.
    assert!(b.entities.len() > 100);
    for (i, e) in b.entities.iter().enumerate() {
        assert_eq!(e.entity_number, i + 1);
        assert_eq!(e.name, "stone-wall");
    }
}
