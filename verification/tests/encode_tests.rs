use std::io::Read;

use base64::Engine;
use facto::bp::builder::{BlueprintBuilder, BookBuilder, Coord, ScheduleCondition, Stop};
use facto::codec::Render;

/// Reverses the encoding pipeline: checks the format-version marker, then
/// base64-decodes, inflates and parses the canonical JSON.
fn decode(out: &str) -> serde_json::Value {
    let bytes = out.as_bytes();
    assert_eq!(bytes[0], b'0');
    let compressed = base64::engine::general_purpose::STANDARD
        .decode(&bytes[1..])
        .expect("the output after the marker is valid base64");
    let mut inflater = flate2::read::ZlibDecoder::new(&compressed[..]);
    let mut json = String::new();
    inflater.read_to_string(&mut json).expect("the compressed payload is a zlib stream");
    serde_json::from_str(&json).expect("the inflated payload is JSON")
}

#[test]
fn single_wall_scenario_matches_exact_shape() {
    let mut b = BlueprintBuilder::new("A", "B");
    b.add_icon("stone-wall".to_owned());
    b.add("stone-wall".to_owned(), Coord::from_int(0), Coord::from_int(0));
    let out = b.render();
    let got = decode(&out);
    let expected: serde_json::Value = serde_json::from_str(
        "{\"blueprint\":{\"icons\":[{\"signal\":{\"type\":\"item\",\"name\":\"stone-wall\"},\
         \"index\":1}],\"entities\":[{\"entity_number\":1,\"name\":\"stone-wall\",\
         \"position\":{\"x\":0.0,\"y\":0.0}}],\"schedules\":[],\"item\":\"blueprint\",\
         \"label\":\"A\",\"description\":\"B\"}}",
    )
    .unwrap();
    assert_eq!(got, expected);
}

#[test]
fn rendering_twice_is_byte_identical() {
    let mut b = BlueprintBuilder::new("twice", "rendered twice");
    b.add_icon("stone-wall".to_owned());
    b.add("stone-wall".to_owned(), Coord::from_halves(3), Coord::from_halves(-1));
    let first = b.render();
    let second = b.render();
    assert_eq!(first, second);
}

#[test]
fn plain_entity_omits_payload_keys() {
    let mut b = BlueprintBuilder::new("plain", "one bare entity");
    b.add("stone-wall".to_owned(), Coord::from_int(1), Coord::from_int(2));
    let got = decode(&b.render());
    let entity = &got["blueprint"]["entities"][0];
    let obj = entity.as_object().unwrap();
    assert!(!obj.contains_key("control_behavior"));
    assert!(!obj.contains_key("items"));
    assert!(!obj.contains_key("inventory"));
    assert_eq!(obj.len(), 3);
    assert_eq!(entity["entity_number"], serde_json::Value::from(1));
    assert_eq!(entity["name"], serde_json::Value::from("stone-wall"));
}

#[test]
fn round_trip_covers_every_payload_kind() {
    let mut b = BlueprintBuilder::new("full", "every record kind");
    b.add_icon("locomotive".to_owned());
    b.add("stone-wall".to_owned(), Coord::from_int(0), Coord::from_int(0));
    b.add_with_items(
        "locomotive".to_owned(),
        Coord::from_int(1),
        Coord::from_int(1),
        vec![("nuclear-fuel".to_owned(), 3)],
    );
    b.add_with_inventory(
        "cargo-wagon".to_owned(),
        Coord::from_int(2),
        Coord::from_int(2),
        "iron-plate",
    );
    b.add_combinator(
        Coord::from_halves(3),
        Coord::from_halves(-1),
        vec![("iron-plate".to_owned(), -4)],
    );
    b.add_schedule(
        vec![2],
        vec![Stop::new("X".to_owned(), vec![ScheduleCondition::or("full".to_owned())])],
    );
    let got = decode(&b.render());
    let bp = &got["blueprint"];
    assert_eq!(bp["item"], serde_json::Value::from("blueprint"));
    assert_eq!(bp["label"], serde_json::Value::from("full"));
    assert_eq!(bp["icons"].as_array().unwrap().len(), 1);
    let entities = bp["entities"].as_array().unwrap();
    assert_eq!(entities.len(), 4);
    assert_eq!(entities[1]["items"]["nuclear-fuel"], serde_json::Value::from(3));
    let inv = entities[2]["inventory"]["filters"].as_array().unwrap();
    assert_eq!(inv.len(), 40);
    assert_eq!(inv[0]["index"], serde_json::Value::from(1));
    assert_eq!(inv[39]["index"], serde_json::Value::from(40));
    assert_eq!(inv[7]["name"], serde_json::Value::from("iron-plate"));
    let filters = entities[3]["control_behavior"]["filters"].as_array().unwrap();
    assert_eq!(filters.len(), 1);
    assert_eq!(filters[0]["count"], serde_json::Value::from(-4));
    assert_eq!(filters[0]["index"], serde_json::Value::from(1));
    assert_eq!(filters[0]["signal"]["type"], serde_json::Value::from("item"));
    assert_eq!(entities[3]["position"]["x"], serde_json::Value::from(1.5));
    assert_eq!(entities[3]["position"]["y"], serde_json::Value::from(-0.5));
    let schedules = bp["schedules"].as_array().unwrap();
    assert_eq!(schedules.len(), 1);
    assert_eq!(schedules[0]["locomotives"], serde_json::Value::from(vec![2]));
}

#[test]
fn string_escaping_survives_the_round_trip() {
    let label = "a\"b\\c\nd\te\u{1}f";
    let mut b = BlueprintBuilder::new(label, "ctrl \u{8}\u{c}\r chars");
    b.add("stone-wall".to_owned(), Coord::from_int(0), Coord::from_int(0));
    let got = decode(&b.render());
    assert_eq!(got["blueprint"]["label"], serde_json::Value::from(label));
    assert_eq!(
        got["blueprint"]["description"],
        serde_json::Value::from("ctrl \u{8}\u{c}\r chars")
    );
}

#[test]
fn nested_wrapping_of_a_book() {
    let mut l1 = BlueprintBuilder::new("first", "layout one");
    l1.add("stone-wall".to_owned(), Coord::from_int(0), Coord::from_int(0));
    let mut l2 = BlueprintBuilder::new("second", "layout two");
    l2.add_icon("stone-wall".to_owned());
    let mut book = BookBuilder::new("the book", "two layouts");
    book.add_icon("stone-wall".to_owned());
    book.add_blueprint(l1);
    book.add_blueprint(l2);
    let got = decode(&book.render());
    let bk = &got["blueprint_book"];
    assert_eq!(bk["item"], serde_json::Value::from("blueprint-book"));
    let bps = bk["blueprints"].as_array().unwrap();
    assert_eq!(bps.len(), 2);
    for entry in bps {
        let obj = entry.as_object().unwrap();
        assert_eq!(obj.len(), 1);
        assert!(obj.contains_key("blueprint"));
    }
    assert_eq!(bps[0]["blueprint"]["label"], serde_json::Value::from("first"));
    assert_eq!(bps[1]["blueprint"]["label"], serde_json::Value::from("second"));
}

#[test]
fn schedule_scenario_serializes_stops() {
    let mut b = BlueprintBuilder::new("sched", "two stops");
    b.add_schedule(
        vec![3],
        vec![
            Stop::new("X".to_owned(), vec![ScheduleCondition::or("full".to_owned())]),
            Stop::new("Y".to_owned(), vec![ScheduleCondition::or("empty".to_owned())]),
        ],
    );
    let got = decode(&b.render());
    let schedules = got["blueprint"]["schedules"].as_array().unwrap();
    assert_eq!(schedules.len(), 1);
    assert_eq!(schedules[0]["locomotives"], serde_json::Value::from(vec![3]));
    let stops = schedules[0]["schedule"].as_array().unwrap();
    assert_eq!(stops.len(), 2);
    assert_eq!(stops[0]["station"], serde_json::Value::from("X"));
    assert_eq!(
        stops[0]["wait_conditions"][0]["compare_type"],
        serde_json::Value::from("or")
    );
    assert_eq!(stops[0]["wait_conditions"][0]["type"], serde_json::Value::from("full"));
    assert_eq!(stops[1]["station"], serde_json::Value::from("Y"));
    assert_eq!(
        stops[1]["wait_conditions"][0]["compare_type"],
        serde_json::Value::from("or")
    );
    assert_eq!(stops[1]["wait_conditions"][0]["type"], serde_json::Value::from("empty"));
}

#[test]
fn and_condition_serializes_lowercase() {
    let mut b = BlueprintBuilder::new("and", "an AND wait-condition");
    b.add_schedule(
        vec![1],
        vec![Stop::new("Z".to_owned(), vec![ScheduleCondition::and("full".to_owned())])],
    );
    let got = decode(&b.render());
    assert_eq!(
        got["blueprint"]["schedules"][0]["schedule"][0]["wait_conditions"][0]["compare_type"],
        serde_json::Value::from("and")
    );
}

#[test]
fn train_output_single_and_book() {
    let single = facto::trains::train_output(&vec!["iron-plate".to_owned()]);
    let got = decode(&single);
    assert_eq!(got["blueprint"]["label"], serde_json::Value::from("[item=iron-plate] train"));
    assert_eq!(
        got["blueprint"]["schedules"][0]["locomotives"],
        serde_json::Value::from(vec![42])
    );

    let book = facto::trains::train_output(&vec![
        "iron-plate".to_owned(),
        "copper-plate".to_owned(),
    ]);
    let got = decode(&book);
    let bk = &got["blueprint_book"];
    assert_eq!(bk["label"], serde_json::Value::from("Book of trains"));
    assert_eq!(
        bk["description"],
        serde_json::Value::from(
            "Book that contains many trains: \n\n - iron-plate\n - copper-plate\n"
        )
    );
    let bps = bk["blueprints"].as_array().unwrap();
    assert_eq!(bps.len(), 2);
    assert_eq!(
        bps[1]["blueprint"]["label"],
        serde_json::Value::from("[item=copper-plate] train")
    );
}

#[test]
fn qr_output_single_and_book() {
    let single = facto::qr::qr_output(&vec!["https://example.com".to_owned()]).unwrap();
    let got = decode(&single);
    let bp = &got["blueprint"];
    assert_eq!(bp["label"], serde_json::Value::from("https://example.com"));
    assert_eq!(
        bp["description"],
        serde_json::Value::from(
            "QR code made from [item=stone-wall] that links to https://example.com"
        )
    );
    assert_eq!(bp["icons"].as_array().unwrap().len(), 4);
    assert!(bp["entities"].as_array().unwrap().len() > 100);

    let book = facto::qr::qr_output(&vec!["https://a.example".to_owned(), "https://b.example".to_owned()])
        .unwrap();
    let got = decode(&book);
    let bk = &got["blueprint_book"];
    assert_eq!(bk["label"], serde_json::Value::from("QR codes book"));
    assert_eq!(bk["icons"].as_array().unwrap().len(), 4);
    assert_eq!(bk["blueprints"].as_array().unwrap().len(), 2);
    assert_eq!(
        bk["blueprints"][0]["blueprint"]["label"],
        serde_json::Value::from("https://a.example")
    );
}
