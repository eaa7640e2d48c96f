//! What the room API reports, and how its terrain text is read.

use vstd::prelude::*;

verus! {

/// One object of a room, as the room API reports it.
#[derive(Debug)]
pub struct RoomObjectData {
    pub x: u8,
    pub y: u8,
    /// What the object is: `"controller"`, `"source"`, `"mineral"`, the
    /// name of a structure, and so on.
    pub kind: String,
    pub mineral_type: Option<String>,
}

/// The number of tiles of a room.
pub const ROOM_AREA: usize = 2500;

/// What a tile is made of.
#[derive(Clone, Copy, Debug, PartialEq, Eq, Structural)]
pub enum Terrain {
    Plain,
    Wall,
    Swamp,
}

impl Terrain {
    /// The terrain that the byte `code` of a terrain text stands for: the
    /// digits `0`, `1` and `2` stand for plain, wall and swamp.
    pub open spec fn of_code(code: u8) -> Option<Terrain> {
        if code == 48 {
            Some(Terrain::Plain)
        } else if code == 49 {
            Some(Terrain::Wall)
        } else if code == 50 {
            Some(Terrain::Swamp)
        } else {
            None
        }
    }

    /// The number that stands for the terrain in a terrain mask.
    pub open spec fn mask(self) -> u8 {
        match self {
            Terrain::Plain => 0,
            Terrain::Wall => 1,
            Terrain::Swamp => 2,
        }
    }

    /// Reads one byte of a terrain text.
    pub fn from_code(code: u8) -> (terrain: Option<Terrain>)
        ensures
            terrain == Terrain::of_code(code),
    {
        if code == 48 {
            Some(Terrain::Plain)
        } else if code == 49 {
            Some(Terrain::Wall)
        } else if code == 50 {
            Some(Terrain::Swamp)
        } else {
            None
        }
    }

    /// The number that stands for the terrain in a terrain mask.
    pub fn bits(self) -> (bits: u8)
        ensures
            bits == self.mask(),
    {
        match self {
            Terrain::Plain => 0,
            Terrain::Wall => 1,
            Terrain::Swamp => 2,
        }
    }
}

/// Whether every byte of `encoded` stands for a terrain.
pub open spec fn is_terrain_text(encoded: Seq<u8>) -> bool {
    forall|i: int| 0 <= i < encoded.len() ==> Terrain::of_code(#[trigger] encoded[i]) is Some
}

/// The terrain that a terrain text spells, tile by tile.
pub open spec fn terrain_of_text(encoded: Seq<u8>) -> Seq<Terrain> {
    Seq::new(encoded.len(), |i: int| Terrain::of_code(encoded[i]).unwrap())
}

/// Reads a terrain text. There is no terrain where a byte of the text is
/// not one of the digits `0`, `1` and `2`.
pub fn decode_terrain(encoded: &[u8]) -> (terrain: Option<Vec<Terrain>>)
    ensures
        terrain is Some <==> is_terrain_text(encoded@),
        terrain matches Some(tiles) ==> tiles@ == terrain_of_text(encoded@),
{
    let mut tiles: Vec<Terrain> = Vec::new();
    let mut i: usize = 0;
    while i < encoded.len()
        invariant
            i <= encoded.len(),
            tiles@ == terrain_of_text(encoded@.subrange(0, i as int)),
            is_terrain_text(encoded@.subrange(0, i as int)),
        decreases encoded.len() - i,
    {
        match Terrain::from_code(encoded[i]) {
            None => {
                return None;
            },
            Some(tile) => {
                tiles.push(tile);
                proof {
                    let before = encoded@.subrange(0, i as int);
                    let after = encoded@.subrange(0, i + 1);
                    assert(after =~= before.push(encoded@[i as int]));
                    assert(tiles@ =~= terrain_of_text(after));
                    assert forall|k: int| 0 <= k < after.len() implies Terrain::of_code(
                        #[trigger] after[k],
                    ) is Some by {
                        if k < i {
                            assert(before[k] == after[k]);
                        }
                    }
                }
            },
        }
        i = i + 1;
    }
    assert(encoded@.subrange(0, i as int) =~= encoded@);
    Some(tiles)
}

/// The terrain mask of a room whose first tiles are `terrain` and whose
/// other tiles are plain.
pub open spec fn mask_of(terrain: Seq<Terrain>) -> Seq<u8> {
    Seq::new(
        ROOM_AREA as nat,
        |i: int|
            if i < terrain.len() {
                terrain[i].mask()
            } else {
                0u8
            },
    )
}

/// The terrain mask of a room: one number for each of its tiles. There is
/// no mask for more terrain than a room has tiles.
pub fn terrain_mask(terrain: &[Terrain]) -> (mask: Option<Vec<u8>>)
    ensures
        mask is Some <==> terrain@.len() <= ROOM_AREA,
        mask matches Some(bits) ==> bits@ == mask_of(terrain@),
{
    if terrain.len() > ROOM_AREA {
        return None;
    }
    let mut bits: Vec<u8> = Vec::new();
    let mut i: usize = 0;
    while i < ROOM_AREA
        invariant
            i <= ROOM_AREA,
            bits@.len() == i,
            forall|k: int| 0 <= k < i ==> #[trigger] bits@[k] == mask_of(terrain@)[k],
        decreases ROOM_AREA - i,
    {
        let tile: u8 = if i < terrain.len() {
            terrain[i].bits()
        } else {
            0
        };
        bits.push(tile);
        i = i + 1;
    }
    assert(bits@ =~= mask_of(terrain@));
    Some(bits)
}

} // verus!
