use actor_kernel::planner::api::{decode_terrain, terrain_mask, RoomObjectData, Terrain};
use actor_kernel::planner::blueprint::{
    blueprint_of, terrain_tiles, EncodedBlueprintXY,
};
use actor_kernel::planner::link::{link_for, link_of, screepers_planner_link};
use actor_kernel::planner::room_data::landmarks;

fn object(kind: &str, x: u8, y: u8) -> RoomObjectData {
    RoomObjectData { x, y, kind: kind.to_string(), mineral_type: None }
}

fn mineral(x: u8, y: u8, made_of: &str) -> RoomObjectData {
    RoomObjectData { x, y, kind: "mineral".to_string(), mineral_type: Some(made_of.to_string()) }
}

fn xy(x: u8, y: u8) -> EncodedBlueprintXY {
    EncodedBlueprintXY { x, y }
}

#[test]
fn terrain_codes_are_read_one_by_one() {
    assert_eq!(Terrain::from_code(b'0'), Some(Terrain::Plain));
    assert_eq!(Terrain::from_code(b'1'), Some(Terrain::Wall));
    assert_eq!(Terrain::from_code(b'2'), Some(Terrain::Swamp));
    assert_eq!(Terrain::from_code(b'3'), None);
    assert_eq!(Terrain::from_code(b'/'), None);
    assert_eq!(Terrain::from_code(0), None);
    assert_eq!(Terrain::from_code(255), None);
}

#[test]
fn terrain_bits_follow_the_mask() {
    assert_eq!(Terrain::Plain.bits(), 0);
    assert_eq!(Terrain::Wall.bits(), 1);
    assert_eq!(Terrain::Swamp.bits(), 2);
}

#[test]
fn terrain_text_is_decoded_in_order() {
    assert_eq!(
        decode_terrain(b"0120"),
        Some(vec![Terrain::Plain, Terrain::Wall, Terrain::Swamp, Terrain::Plain])
    );
    assert_eq!(decode_terrain(b""), Some(vec![]));
}

#[test]
fn terrain_text_with_another_byte_is_refused() {
    assert_eq!(decode_terrain(b"0123"), None);
    assert_eq!(decode_terrain(b"x"), None);
    assert_eq!(decode_terrain(b"01 2"), None);
    assert_eq!(decode_terrain("01\u{e9}".as_bytes()), None);
}

#[test]
fn terrain_mask_covers_the_room() {
    let mask = terrain_mask(&[Terrain::Wall, Terrain::Plain, Terrain::Swamp]).unwrap();
    assert_eq!(mask.len(), 2500);
    assert_eq!(&mask[..4], &[1, 0, 2, 0]);
    assert!(mask[4..].iter().all(|bits| *bits == 0));

    let full = vec![Terrain::Swamp; 2500];
    let mask = terrain_mask(&full).unwrap();
    assert_eq!(mask.len(), 2500);
    assert!(mask.iter().all(|bits| *bits == 2));

    assert_eq!(terrain_mask(&[]).unwrap(), vec![0u8; 2500]);
}

#[test]
fn terrain_mask_refuses_more_than_a_room() {
    let long = vec![Terrain::Plain; 2501];
    assert_eq!(terrain_mask(&long), None);
}

#[test]
fn terrain_tiles_list_walls_and_swamps() {
    let mut terrain = vec![Terrain::Plain; 120];
    terrain[0] = Terrain::Wall;
    terrain[49] = Terrain::Swamp;
    terrain[50] = Terrain::Wall;
    terrain[119] = Terrain::Swamp;
    let tiles = terrain_tiles(&terrain);
    assert_eq!(tiles.wall, Some(vec![xy(0, 0), xy(0, 1)]));
    assert_eq!(tiles.swamp, Some(vec![xy(49, 0), xy(19, 2)]));

    let none = terrain_tiles(&[]);
    assert_eq!(none.wall, Some(vec![]));
    assert_eq!(none.swamp, Some(vec![]));
}

#[test]
fn blueprint_sorts_the_objects_of_a_room() {
    let objects = vec![
        object("source", 4, 5),
        object("spawn", 10, 10),
        object("creep", 11, 11),
        object("controller", 1, 2),
        object("extension", 20, 21),
        mineral(30, 31, "H"),
        object("spawn", 12, 10),
        object("source", 6, 7),
        object("controller", 3, 4),
        mineral(32, 33, "O"),
        object("road", 40, 41),
        object("extension", 22, 21),
    ];
    let blueprint = blueprint_of(&[Terrain::Plain, Terrain::Wall], &objects).unwrap();
    assert_eq!(blueprint.controller, Some(xy(3, 4)));
    assert_eq!(blueprint.sources, Some(vec![xy(4, 5), xy(6, 7)]));
    let found = blueprint.mineral.unwrap();
    assert_eq!((found.x, found.y, found.mineral_type.as_str()), (32, 33, "O"));
    let terrain = blueprint.terrain.unwrap();
    assert_eq!(terrain.wall, Some(vec![xy(1, 0)]));
    assert_eq!(terrain.swamp, Some(vec![]));

    let mut buildings: Vec<(String, Vec<EncodedBlueprintXY>)> =
        blueprint.buildings.into_iter().map(|building| (building.kind, building.tiles)).collect();
    buildings.sort_by(|a, b| a.0.cmp(&b.0));
    assert_eq!(
        buildings,
        vec![
            ("extension".to_string(), vec![xy(20, 21), xy(22, 21)]),
            ("road".to_string(), vec![xy(40, 41)]),
            ("spawn".to_string(), vec![xy(10, 10), xy(12, 10)]),
        ]
    );
}

#[test]
fn blueprint_of_an_empty_room_is_empty() {
    let blueprint = blueprint_of(&[], &[]).unwrap();
    assert!(blueprint.buildings.is_empty());
    assert_eq!(blueprint.controller, None);
    assert_eq!(blueprint.sources, Some(vec![]));
    assert!(blueprint.mineral.is_none());
}

#[test]
fn blueprint_needs_to_know_what_a_mineral_is_made_of() {
    let objects = vec![object("source", 1, 1), object("mineral", 2, 2)];
    assert!(blueprint_of(&[], &objects).is_none());
    let objects = vec![mineral(2, 2, "K"), object("mineral", 3, 3), mineral(4, 4, "L")];
    assert!(blueprint_of(&[], &objects).is_none());
}

#[test]
fn landmarks_are_the_controller_the_sources_and_the_mineral() {
    let objects = vec![
        object("source", 4, 5),
        object("spawn", 60, 60),
        object("controller", 1, 2),
        object("mineral", 30, 31),
        object("source", 49, 0),
        object("creep", 200, 200),
    ];
    let marks = landmarks(&objects).unwrap();
    assert_eq!(marks.controller, Some(xy(1, 2)));
    assert_eq!(marks.sources, vec![xy(4, 5), xy(49, 0)]);
    assert_eq!(marks.mineral, Some(xy(30, 31)));

    let marks = landmarks(&[]).unwrap();
    assert_eq!(marks.controller, None);
    assert!(marks.sources.is_empty());
    assert_eq!(marks.mineral, None);
}

#[test]
fn landmarks_keep_the_last_controller_and_mineral() {
    let objects = vec![
        object("controller", 1, 1),
        object("mineral", 2, 2),
        object("controller", 3, 3),
        object("mineral", 4, 4),
    ];
    let marks = landmarks(&objects).unwrap();
    assert_eq!(marks.controller, Some(xy(3, 3)));
    assert_eq!(marks.mineral, Some(xy(4, 4)));
}

#[test]
fn landmarks_outside_the_room_are_refused() {
    assert!(landmarks(&[object("source", 50, 0)]).is_none());
    assert!(landmarks(&[object("controller", 0, 50)]).is_none());
    assert!(landmarks(&[object("source", 1, 1), object("mineral", 255, 3)]).is_none());
    assert!(landmarks(&[object("tower", 50, 50)]).is_some());
}

#[test]
fn link_wraps_the_data() {
    assert_eq!(
        link_for("abc"),
        "https://screepers.github.io/screeps-tools/?share=abc#/building-planner"
    );
    assert_eq!(
        link_for(""),
        "https://screepers.github.io/screeps-tools/?share=#/building-planner"
    );
}

#[test]
fn link_holds_the_compressed_blueprint() {
    let serialized = "{\"buildings\":{\"spawn\":[{\"x\":10,\"y\":10}]},\"controller\":null}";
    let link = screepers_planner_link(serialized).unwrap();
    assert_eq!(link, link_of(serialized));
    let data = link
        .strip_prefix("https://screepers.github.io/screeps-tools/?share=")
        .unwrap()
        .strip_suffix("#/building-planner")
        .unwrap();
    assert_ne!(data, serialized);
    assert!(data.chars().all(|c| c.is_ascii_alphanumeric() || c == '+' || c == '-' || c == '$'));
    let restored = lz_str::decompress_from_encoded_uri_component(data).unwrap();
    assert_eq!(String::from_utf16(&restored).unwrap(), serialized);
}

#[test]
fn link_of_empty_text_is_the_compressed_empty_text() {
    let link = screepers_planner_link("").unwrap();
    assert_eq!(link, "https://screepers.github.io/screeps-tools/?share=Q#/building-planner");
}
