//! Blueprints as the building planner reads them, and the link that opens
//! one in it.

use crate::planner::api::{RoomObjectData, Terrain};
use vstd::prelude::*;

verus! {

/// The number of tiles along one side of a room.
pub const ROOM_SIZE: usize = 50;

/// A tile of a room.
#[derive(Clone, Copy, Debug, PartialEq, Eq, Structural)]
pub struct EncodedBlueprintXY {
    pub x: u8,
    pub y: u8,
}

/// The tile at `index` of a room's terrain.
pub open spec fn xy_of_index(index: int) -> EncodedBlueprintXY {
    EncodedBlueprintXY { x: (index % 50) as u8, y: ((index / 50) % 256) as u8 }
}

/// The tile at `index` of a room's terrain, which lists the tiles row by
/// row.
pub fn room_index_to_xy(index: usize) -> (xy: EncodedBlueprintXY)
    ensures
        xy == xy_of_index(index as int),
        xy.x == index % 50,
        xy.y == (index / 50) % 256,
{
    EncodedBlueprintXY { x: (index % ROOM_SIZE) as u8, y: ((index / ROOM_SIZE) % 256) as u8 }
}

/// The walls and swamps of a room.
#[derive(Debug)]
pub struct EncodedBlueprintTerrain {
    pub wall: Option<Vec<EncodedBlueprintXY>>,
    pub swamp: Option<Vec<EncodedBlueprintXY>>,
}

/// The mineral of a room.
#[derive(Debug)]
pub struct EncodedBlueprintMineral {
    pub x: u8,
    pub y: u8,
    pub mineral_type: String,
}

/// The tiles on which one kind of structure stands.
#[derive(Debug)]
pub struct Building {
    pub kind: String,
    pub tiles: Vec<EncodedBlueprintXY>,
}

/// A room as the building planner shows it.
#[derive(Debug)]
pub struct EncodedBlueprint {
    /// The structures of the room. No kind occurs twice.
    pub buildings: Vec<Building>,
    pub terrain: Option<EncodedBlueprintTerrain>,
    pub controller: Option<EncodedBlueprintXY>,
    pub sources: Option<Vec<EncodedBlueprintXY>>,
    pub mineral: Option<EncodedBlueprintMineral>,
}

/// The tiles of `terrain` that are made of `kind`, in the order of the
/// terrain.
pub open spec fn tiles_made_of(terrain: Seq<Terrain>, kind: Terrain) -> Seq<EncodedBlueprintXY>
    decreases terrain.len(),
{
    if terrain.len() == 0 {
        Seq::empty()
    } else if terrain.last() == kind {
        tiles_made_of(terrain.drop_last(), kind).push(xy_of_index(terrain.len() - 1))
    } else {
        tiles_made_of(terrain.drop_last(), kind)
    }
}

/// The walls and the swamps of `terrain`.
pub fn terrain_tiles(terrain: &[Terrain]) -> (tiles: EncodedBlueprintTerrain)
    ensures
        tiles.wall matches Some(wall) && wall@ == tiles_made_of(terrain@, Terrain::Wall),
        tiles.swamp matches Some(swamp) && swamp@ == tiles_made_of(terrain@, Terrain::Swamp),
{
    let mut wall: Vec<EncodedBlueprintXY> = Vec::new();
    let mut swamp: Vec<EncodedBlueprintXY> = Vec::new();
    let mut i: usize = 0;
    while i < terrain.len()
        invariant
            i <= terrain.len(),
            wall@ == tiles_made_of(terrain@.subrange(0, i as int), Terrain::Wall),
            swamp@ == tiles_made_of(terrain@.subrange(0, i as int), Terrain::Swamp),
        decreases terrain.len() - i,
    {
        assert(terrain@.subrange(0, i + 1).drop_last() =~= terrain@.subrange(0, i as int));
        match terrain[i] {
            Terrain::Wall => {
                wall.push(room_index_to_xy(i));
            },
            Terrain::Swamp => {
                swamp.push(room_index_to_xy(i));
            },
            Terrain::Plain => {},
        }
        i = i + 1;
    }
    assert(terrain@.subrange(0, i as int) =~= terrain@);
    EncodedBlueprintTerrain { wall: Some(wall), swamp: Some(swamp) }
}

/// The tile on which `object` stands.
pub open spec fn tile_of(object: RoomObjectData) -> EncodedBlueprintXY {
    EncodedBlueprintXY { x: object.x, y: object.y }
}

/// The objects of `objects` that are of `kind`, in the same order.
pub open spec fn of_kind(objects: Seq<RoomObjectData>, kind: Seq<char>) -> Seq<RoomObjectData> {
    objects.filter(|object: RoomObjectData| object.kind@ == kind)
}

/// The tiles of the objects of `objects` that are of `kind`, in the same
/// order.
pub open spec fn tiles_of_kind(objects: Seq<RoomObjectData>, kind: Seq<char>) -> Seq<
    EncodedBlueprintXY,
> {
    of_kind(objects, kind).map_values(|object: RoomObjectData| tile_of(object))
}

/// Whether objects of `kind` are structures: everything is, but for
/// controllers, sources, minerals and creeps.
pub open spec fn is_structure(kind: Seq<char>) -> bool {
    kind != "controller"@ && kind != "source"@ && kind != "mineral"@ && kind != "creep"@
}

/// The tile of the last object of `objects` that is of `kind`.
pub open spec fn last_of_kind(objects: Seq<RoomObjectData>, kind: Seq<char>) -> Option<
    RoomObjectData,
> {
    if of_kind(objects, kind).len() > 0 {
        Some(of_kind(objects, kind).last())
    } else {
        None
    }
}

/// Whether `buildings` are the structures among `objects`, one entry for
/// each kind, each with the tiles of that kind in the order of `objects`.
pub open spec fn groups(buildings: Seq<Building>, objects: Seq<RoomObjectData>) -> bool {
    &&& forall|i: int|
        0 <= i < buildings.len() ==> is_structure((#[trigger] buildings[i]).kind@)
            && buildings[i].tiles@.len() > 0 && buildings[i].tiles@ == tiles_of_kind(
            objects,
            buildings[i].kind@,
        )
    &&& forall|i: int, j: int|
        0 <= i < j < buildings.len() ==> (#[trigger] buildings[i]).kind@ != (
        #[trigger] buildings[j]).kind@
    &&& forall|k: int|
        0 <= k < objects.len() && is_structure((#[trigger] objects[k]).kind@) ==> exists|i: int|
            0 <= i < buildings.len() && (#[trigger] buildings[i]).kind@ == objects[k].kind@
}

/// Whether every mineral among `objects` says what it is made of.
pub open spec fn minerals_are_named(objects: Seq<RoomObjectData>) -> bool {
    forall|k: int|
        0 <= k < objects.len() && (#[trigger] objects[k]).kind@ == "mineral"@
            ==> objects[k].mineral_type is Some
}

/// Whether `mineral` is the mineral `object`, with what it is made of.
pub open spec fn shows_mineral(
    mineral: Option<EncodedBlueprintMineral>,
    object: RoomObjectData,
) -> bool {
    match (mineral, object.mineral_type) {
        (Some(found), Some(name)) => found.x == object.x && found.y == object.y
            && found.mineral_type@ == name@,
        _ => false,
    }
}

/// Whether `blueprint` shows a room with `terrain` and `objects`.
pub open spec fn shows(
    blueprint: EncodedBlueprint,
    terrain: Seq<Terrain>,
    objects: Seq<RoomObjectData>,
) -> bool {
    &&& blueprint.terrain matches Some(tiles) && {
        &&& tiles.wall matches Some(wall) && wall@ == tiles_made_of(terrain, Terrain::Wall)
        &&& tiles.swamp matches Some(swamp) && swamp@ == tiles_made_of(terrain, Terrain::Swamp)
    }
    &&& match last_of_kind(objects, "controller"@) {
        Some(object) => blueprint.controller == Some(tile_of(object)),
        None => blueprint.controller is None,
    }
    &&& blueprint.sources matches Some(sources) && sources@ == tiles_of_kind(objects, "source"@)
    &&& match last_of_kind(objects, "mineral"@) {
        Some(object) => shows_mineral(blueprint.mineral, object),
        None => blueprint.mineral is None,
    }
    &&& groups(blueprint.buildings@, objects)
}

/// What one more object adds to the objects of a kind.
pub proof fn lemma_of_kind_push(objects: Seq<RoomObjectData>, object: RoomObjectData, kind: Seq<char>)
    ensures
        object.kind@ == kind ==> of_kind(objects.push(object), kind) == of_kind(
            objects,
            kind,
        ).push(object) && tiles_of_kind(objects.push(object), kind) == tiles_of_kind(
            objects,
            kind,
        ).push(tile_of(object)),
        object.kind@ != kind ==> of_kind(objects.push(object), kind) == of_kind(objects, kind)
            && tiles_of_kind(objects.push(object), kind) == tiles_of_kind(objects, kind),
{
    reveal(Seq::filter);
    assert(objects.push(object).drop_last() =~= objects);
    if object.kind@ == kind {
        assert(tiles_of_kind(objects.push(object), kind) =~= tiles_of_kind(objects, kind).push(
            tile_of(object),
        ));
    }
}

proof fn lemma_of_kind_none(objects: Seq<RoomObjectData>, kind: Seq<char>)
    requires
        forall|k: int| 0 <= k < objects.len() ==> (#[trigger] objects[k]).kind@ != kind,
    ensures
        of_kind(objects, kind).len() == 0,
        tiles_of_kind(objects, kind).len() == 0,
    decreases objects.len(),
{
    reveal(Seq::filter);
    if objects.len() > 0 {
        lemma_of_kind_none(objects.drop_last(), kind);
    }
}

/// Whether `kind` spells `name`.
pub(crate) fn is_kind(kind: &String, name: &str) -> (same: bool)
    ensures
        same == (kind@ == name@),
{
    *kind == name.to_owned()
}

/// The place of the entry for `kind` among `buildings`.
fn find_building(buildings: &Vec<Building>, kind: &String) -> (found: Option<usize>)
    ensures
        match found {
            Some(i) => i < buildings@.len() && buildings@[i as int].kind@ == kind@,
            None => forall|i: int|
                0 <= i < buildings@.len() ==> (#[trigger] buildings@[i]).kind@ != kind@,
        },
{
    let mut i: usize = 0;
    while i < buildings.len()
        invariant
            i <= buildings@.len(),
            forall|k: int| 0 <= k < i ==> (#[trigger] buildings@[k]).kind@ != kind@,
        decreases buildings@.len() - i,
    {
        if buildings[i].kind == *kind {
            return Some(i);
        }
        i = i + 1;
    }
    None
}

/// Adds the structure `object` to `buildings`.
fn add_structure(
    buildings: &mut Vec<Building>,
    object: &RoomObjectData,
    Ghost(seen): Ghost<Seq<RoomObjectData>>,
)
    requires
        groups(old(buildings)@, seen),
        is_structure(object.kind@),
    ensures
        groups(final(buildings)@, seen.push(*object)),
{
    let tile = EncodedBlueprintXY { x: object.x, y: object.y };
    let ghost before = buildings@;
    let ghost after = seen.push(*object);
    proof {
        assert forall|i: int| 0 <= i < before.len() implies tiles_of_kind(
            after,
            (#[trigger] before[i]).kind@,
        ) == if before[i].kind@ == object.kind@ {
            before[i].tiles@.push(tile)
        } else {
            before[i].tiles@
        } by {
            lemma_of_kind_push(seen, *object, before[i].kind@);
        }
    }
    match find_building(buildings, &object.kind) {
        Some(i) => {
            let mut entry = buildings.remove(i);
            entry.tiles.push(tile);
            buildings.insert(i, entry);
            proof {
                assert forall|k: int| 0 <= k < buildings@.len() implies (#[trigger] buildings@[k]).kind
                    == before[k].kind by {}
                assert forall|k: int|
                    0 <= k < after.len() && is_structure(
                        (#[trigger] after[k]).kind@,
                    ) implies exists|j: int|
                    0 <= j < buildings@.len() && (#[trigger] buildings@[j]).kind@
                        == after[k].kind@ by {
                    if k < seen.len() {
                        let j = choose|j: int|
                            0 <= j < before.len() && (#[trigger] before[j]).kind@ == seen[k].kind@;
                        assert(buildings@[j].kind@ == after[k].kind@);
                    } else {
                        assert(buildings@[i as int].kind@ == after[k].kind@);
                    }
                }
            }
        },
        None => {
            proof {
                assert forall|k: int| 0 <= k < seen.len() implies (#[trigger] seen[k]).kind@
                    != object.kind@ by {
                    if seen[k].kind@ == object.kind@ {
                        let j = choose|j: int|
                            0 <= j < before.len() && (#[trigger] before[j]).kind@ == seen[k].kind@;
                        assert(before[j].kind@ != object.kind@);
                    }
                }
                lemma_of_kind_none(seen, object.kind@);
                lemma_of_kind_push(seen, *object, object.kind@);
                assert(tiles_of_kind(after, object.kind@) =~= seq![tile]);
            }
            let mut tiles: Vec<EncodedBlueprintXY> = Vec::new();
            tiles.push(tile);
            buildings.push(Building { kind: object.kind.clone(), tiles });
            proof {
                assert forall|k: int|
                    0 <= k < after.len() && is_structure(
                        (#[trigger] after[k]).kind@,
                    ) implies exists|j: int|
                    0 <= j < buildings@.len() && (#[trigger] buildings@[j]).kind@
                        == after[k].kind@ by {
                    if k < seen.len() {
                        let j = choose|j: int|
                            0 <= j < before.len() && (#[trigger] before[j]).kind@ == seen[k].kind@;
                        assert(buildings@[j].kind@ == after[k].kind@);
                    } else {
                        assert(buildings@[before.len() as int].kind@ == after[k].kind@);
                    }
                }
            }
        },
    }
}

/// The blueprint of a room with `terrain` and `objects`.
///
/// The controller and the mineral are the last that `objects` lists;
/// creeps are left out. There is no blueprint where a mineral does not say
/// what it is made of.
pub fn blueprint_of(terrain: &[Terrain], objects: &[RoomObjectData]) -> (blueprint: Option<
    EncodedBlueprint,
>)
    ensures
        blueprint is Some <==> minerals_are_named(objects@),
        blueprint matches Some(shown) ==> shows(shown, terrain@, objects@),
{
    let mut buildings: Vec<Building> = Vec::new();
    let mut controller: Option<EncodedBlueprintXY> = None;
    let mut sources: Vec<EncodedBlueprintXY> = Vec::new();
    let mut mineral: Option<EncodedBlueprintMineral> = None;
    let mut i: usize = 0;
    proof {
        reveal(Seq::filter);
        assert(objects@.subrange(0, 0) =~= Seq::<RoomObjectData>::empty());
        assert(tiles_of_kind(objects@.subrange(0, 0), "source"@) =~= Seq::empty());
    }
    while i < objects.len()
        invariant
            i <= objects.len(),
            minerals_are_named(objects@.subrange(0, i as int)),
            groups(buildings@, objects@.subrange(0, i as int)),
            sources@ == tiles_of_kind(objects@.subrange(0, i as int), "source"@),
            match last_of_kind(objects@.subrange(0, i as int), "controller"@) {
                Some(object) => controller == Some(tile_of(object)),
                None => controller is None,
            },
            match last_of_kind(objects@.subrange(0, i as int), "mineral"@) {
                Some(object) => shows_mineral(mineral, object),
                None => mineral is None,
            },
        decreases objects.len() - i,
    {
        let object = &objects[i];
        let ghost seen = objects@.subrange(0, i as int);
        proof {
            lemma_kinds_differ();
            assert(objects@.subrange(0, i + 1) =~= seen.push(*object));
            lemma_of_kind_push(seen, *object, "controller"@);
            lemma_of_kind_push(seen, *object, "source"@);
            lemma_of_kind_push(seen, *object, "mineral"@);
        }
        let tile = EncodedBlueprintXY { x: object.x, y: object.y };
        if is_kind(&object.kind, "controller") {
            controller = Some(tile);
            proof {
                lemma_groups_skip(buildings@, seen, *object);
            }
        } else if is_kind(&object.kind, "source") {
            sources.push(tile);
            proof {
                lemma_groups_skip(buildings@, seen, *object);
            }
        } else if is_kind(&object.kind, "mineral") {
            match &object.mineral_type {
                None => {
                    return None;
                },
                Some(name) => {
                    mineral =
                    Some(
                        EncodedBlueprintMineral {
                            x: object.x,
                            y: object.y,
                            mineral_type: name.clone(),
                        },
                    );
                },
            }
            proof {
                lemma_groups_skip(buildings@, seen, *object);
            }
        } else if is_kind(&object.kind, "creep") {
            proof {
                lemma_groups_skip(buildings@, seen, *object);
            }
        } else {
            add_structure(&mut buildings, object, Ghost(seen));
        }
        proof {
            let after = seen.push(*object);
            assert forall|k: int|
                0 <= k < after.len() && (#[trigger] after[k]).kind@
                    == "mineral"@ implies after[k].mineral_type is Some by {
                if k < seen.len() {
                    assert(seen[k] == after[k]);
                }
            }
        }
        i = i + 1;
    }
    assert(objects@.subrange(0, i as int) =~= objects@);
    Some(
        EncodedBlueprint {
            buildings,
            terrain: Some(terrain_tiles(terrain)),
            controller,
            sources: Some(sources),
            mineral,
        },
    )
}

/// The four kinds that are no structures are spelled differently.
pub proof fn lemma_kinds_differ()
    ensures
        "controller"@ != "source"@,
        "controller"@ != "mineral"@,
        "controller"@ != "creep"@,
        "source"@ != "mineral"@,
        "source"@ != "creep"@,
        "mineral"@ != "creep"@,
{
    reveal_strlit("controller");
    reveal_strlit("source");
    reveal_strlit("mineral");
    reveal_strlit("creep");
    assert("controller"@.len() == 10);
    assert("source"@.len() == 6);
    assert("mineral"@.len() == 7);
    assert("creep"@.len() == 5);
}

/// An object that is no structure leaves the structures as they are.
proof fn lemma_groups_skip(
    buildings: Seq<Building>,
    seen: Seq<RoomObjectData>,
    object: RoomObjectData,
)
    requires
        groups(buildings, seen),
        !is_structure(object.kind@),
    ensures
        groups(buildings, seen.push(object)),
{
    let after = seen.push(object);
    assert forall|i: int| 0 <= i < buildings.len() implies tiles_of_kind(
        after,
        (#[trigger] buildings[i]).kind@,
    ) == buildings[i].tiles@ by {
        lemma_of_kind_push(seen, object, buildings[i].kind@);
    }
    assert forall|k: int|
        0 <= k < after.len() && is_structure((#[trigger] after[k]).kind@) implies exists|i: int|
        0 <= i < buildings.len() && (#[trigger] buildings[i]).kind@ == after[k].kind@ by {
        assert(k < seen.len());
        assert(seen[k] == after[k]);
    }
}

} // verus!
