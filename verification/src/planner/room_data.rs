//! What a plan of a room starts from.

use crate::planner::api::RoomObjectData;
use crate::planner::blueprint::{
    is_kind, last_of_kind, lemma_kinds_differ, lemma_of_kind_push, tile_of, tiles_of_kind,
    EncodedBlueprintXY,
};
use vstd::prelude::*;

verus! {

/// The places of a room that a plan is built around.
#[derive(Debug)]
pub struct Landmarks {
    pub controller: Option<EncodedBlueprintXY>,
    pub sources: Vec<EncodedBlueprintXY>,
    pub mineral: Option<EncodedBlueprintXY>,
}

/// Whether objects of `kind` are landmarks: controllers, sources and
/// minerals are.
pub open spec fn is_landmark(kind: Seq<char>) -> bool {
    kind == "controller"@ || kind == "source"@ || kind == "mineral"@
}

/// Whether `object` stands on a tile of the room.
pub open spec fn in_room(object: RoomObjectData) -> bool {
    object.x < 50 && object.y < 50
}

/// Whether every landmark among `objects` stands on a tile of the room.
pub open spec fn landmarks_in_room(objects: Seq<RoomObjectData>) -> bool {
    forall|k: int|
        0 <= k < objects.len() && is_landmark((#[trigger] objects[k]).kind@) ==> in_room(
            objects[k],
        )
}

/// The tile of `object`, if there is such an object.
pub open spec fn tile_of_found(object: Option<RoomObjectData>) -> Option<EncodedBlueprintXY> {
    match object {
        Some(object) => Some(tile_of(object)),
        None => None,
    }
}

/// The landmarks among `objects`: the last controller, every source in the
/// order of `objects`, and the last mineral. There are none where a
/// landmark stands outside the room.
pub fn landmarks(objects: &[RoomObjectData]) -> (found: Option<Landmarks>)
    ensures
        found is Some <==> landmarks_in_room(objects@),
        found matches Some(marks) ==> {
            &&& marks.controller == tile_of_found(last_of_kind(objects@, "controller"@))
            &&& marks.sources@ == tiles_of_kind(objects@, "source"@)
            &&& marks.mineral == tile_of_found(last_of_kind(objects@, "mineral"@))
        },
{
    let mut controller: Option<EncodedBlueprintXY> = None;
    let mut sources: Vec<EncodedBlueprintXY> = Vec::new();
    let mut mineral: Option<EncodedBlueprintXY> = None;
    let mut i: usize = 0;
    proof {
        reveal(Seq::filter);
        assert(objects@.subrange(0, 0) =~= Seq::<RoomObjectData>::empty());
        assert(tiles_of_kind(objects@.subrange(0, 0), "source"@) =~= Seq::empty());
    }
    while i < objects.len()
        invariant
            i <= objects.len(),
            landmarks_in_room(objects@.subrange(0, i as int)),
            controller == tile_of_found(last_of_kind(objects@.subrange(0, i as int), "controller"@)),
            sources@ == tiles_of_kind(objects@.subrange(0, i as int), "source"@),
            mineral == tile_of_found(last_of_kind(objects@.subrange(0, i as int), "mineral"@)),
        decreases objects.len() - i,
    {
        let object = &objects[i];
        let ghost seen = objects@.subrange(0, i as int);
        proof {
            lemma_kinds_differ();
            assert(objects@.subrange(0, i + 1) =~= seen.push(*object));
            lemma_of_kind_push(seen, *object, "controller"@);
            lemma_of_kind_push(seen, *object, "source"@);
            lemma_of_kind_push(seen, *object, "mineral"@);
        }
        let is_controller = is_kind(&object.kind, "controller");
        let is_source = is_kind(&object.kind, "source");
        let is_mineral = is_kind(&object.kind, "mineral");
        if is_controller || is_source || is_mineral {
            if object.x >= 50 || object.y >= 50 {
                return None;
            }
            let tile = EncodedBlueprintXY { x: object.x, y: object.y };
            if is_controller {
                controller = Some(tile);
            } else if is_source {
                sources.push(tile);
            } else {
                mineral = Some(tile);
            }
        }
        proof {
            let after = seen.push(*object);
            assert forall|k: int|
                0 <= k < after.len() && is_landmark((#[trigger] after[k]).kind@) implies in_room(
                after[k],
            ) by {
                if k < seen.len() {
                    assert(seen[k] == after[k]);
                }
            }
        }
        i = i + 1;
    }
    assert(objects@.subrange(0, i as int) =~= objects@);
    Some(Landmarks { controller, sources, mineral })
}

} // verus!
