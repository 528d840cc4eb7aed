//! The kinds of tile a map is made of.
use vstd::prelude::*;

verus! {

pub type TileIndex = usize;

pub type RectIndex = usize;

pub type RoomIndex = usize;

/// Tiles that only exist while a map is being built.
#[derive(Clone, Copy, Debug, PartialEq, Eq, Hash, Structural)]
pub enum DebugMapTile {
    Construction(usize),
    RectCenter,
}

/// One tile of the map.
#[derive(Clone, Copy, Debug, PartialEq, Eq, Hash, Structural)]
pub enum MapTile {
    Debug(DebugMapTile),
    Obscured,
    Floor(usize),
    Stairs,
    Corridor,
    Door,
}

impl Default for MapTile {
    fn default() -> (r: MapTile)
        ensures
            r == MapTile::Obscured,
    {
        MapTile::Obscured
    }
}

impl MapTile {
    /// A tile that nothing can walk onto: construction and centre marks, rock
    /// and closed doors.
    pub open spec fn spec_is_blocking(&self) -> bool {
        *self is Debug || *self is Obscured || *self is Door
    }

    /// Whether nothing can walk onto the tile.
    #[verifier::when_used_as_spec(spec_is_blocking)]
    pub fn is_blocking(&self) -> (r: bool)
        ensures
            r == self.spec_is_blocking(),
    {
        match self {
            MapTile::Debug(_) => true,
            MapTile::Obscured => true,
            MapTile::Door => true,
            _ => false,
        }
    }

    /// Whether the tile is solid rock.
    pub fn is_obscured(&self) -> (r: bool)
        ensures
            r == (*self is Obscured),
    {
        match self {
            MapTile::Obscured => true,
            _ => false,
        }
    }
}

} // verus!
