//! Entity identities and the plain components attached to them.
use vstd::prelude::*;
use std::collections::HashSet;

verus! {

/// Identity of an entity. Components and relations refer to each other by id.
#[derive(Clone, Copy, Debug, PartialEq, Eq, Hash, Structural)]
pub struct EntityId(pub u64);

impl EntityId {
    /// The id that never names a living entity.
    pub open spec fn spec_dead() -> EntityId {
        EntityId(0xffff_ffff_ffff_ffff)
    }

    /// The id that never names a living entity.
    #[verifier::when_used_as_spec(spec_dead)]
    pub fn dead() -> (r: EntityId)
        ensures
            r == Self::spec_dead(),
    {
        EntityId(0xffff_ffff_ffff_ffff)
    }
}

impl View for EntityId {
    type V = EntityId;

    open spec fn view(&self) -> EntityId {
        *self
    }
}

/// A position on the tile grid.
#[derive(Clone, Copy, Debug, PartialEq, Eq, Hash, Structural)]
pub struct Point {
    pub x: i32,
    pub y: i32,
}

impl Point {
    pub fn new(x: i32, y: i32) -> (r: Point)
        ensures
            r == (Point { x, y }),
    {
        Point { x, y }
    }
}

impl View for Point {
    type V = Point;

    open spec fn view(&self) -> Point {
        *self
    }
}

/// A colour as red, green and blue.
#[derive(Clone, Copy, Debug, PartialEq, Eq, Hash, Structural)]
pub struct Rgb {
    pub r: u8,
    pub g: u8,
    pub b: u8,
}

impl Rgb {
    pub open spec fn spec_white() -> Rgb {
        Rgb { r: 255, g: 255, b: 255 }
    }

    #[verifier::when_used_as_spec(spec_white)]
    pub fn white() -> (c: Rgb)
        ensures
            c == Self::spec_white(),
    {
        Rgb { r: 255, g: 255, b: 255 }
    }

    pub open spec fn spec_black() -> Rgb {
        Rgb { r: 0, g: 0, b: 0 }
    }

    #[verifier::when_used_as_spec(spec_black)]
    pub fn black() -> (c: Rgb)
        ensures
            c == Self::spec_black(),
    {
        Rgb { r: 0, g: 0, b: 0 }
    }

    pub open spec fn spec_dark_gray() -> Rgb {
        Rgb { r: 169, g: 169, b: 169 }
    }

    #[verifier::when_used_as_spec(spec_dark_gray)]
    pub fn dark_gray() -> (c: Rgb)
        ensures
            c == Self::spec_dark_gray(),
    {
        Rgb { r: 169, g: 169, b: 169 }
    }
}

/// How an entity is drawn: a character with foreground and background colour.
#[derive(Clone, Copy, Debug, PartialEq, Eq, Hash, Structural)]
pub struct Glyph {
    pub ch: char,
    pub fg: Rgb,
    pub bg: Rgb,
}

impl Glyph {
    /// A white character on black.
    pub fn new(ch: char) -> (r: Glyph)
        ensures
            r == (Glyph { ch, fg: Rgb::white(), bg: Rgb::black() }),
    {
        Glyph { ch, fg: Rgb::white(), bg: Rgb::black() }
    }
}

impl View for Glyph {
    type V = Glyph;

    open spec fn view(&self) -> Glyph {
        *self
    }
}

/// Where an entity stands.
#[derive(Clone, Copy, Debug, PartialEq, Eq, Structural)]
pub struct HasPosition(pub Point);

impl HasPosition {
    /// The position, to be changed in place.
    pub fn get_mut(&mut self) -> (r: &mut Point)
        ensures
            *r == old(self).0,
            final(self).0 == *final(r),
    {
        &mut self.0
    }
}

impl View for HasPosition {
    type V = Point;

    open spec fn view(&self) -> Point {
        self.0
    }
}

/// How an entity is drawn.
#[derive(Clone, Copy, Debug, PartialEq, Eq, Structural)]
pub struct HasGlyph(pub Glyph);

impl View for HasGlyph {
    type V = Glyph;

    open spec fn view(&self) -> Glyph {
        self.0
    }
}

/// A sign attached to an entity.
#[derive(Clone, Debug)]
pub struct HasSign(pub String);

/// How far an entity sees, and the points it sees at the moment.
pub struct HasSight {
    pub sight_distance: u8,
    pub field_of_view: HashSet<Point>,
}

/// The player's entity, once there is one, and where it was last seen.
#[derive(Clone, Copy, Debug)]
pub struct Player {
    pub entity: Option<EntityId>,
    pub cached_position: Point,
}

/// Time left until an actor is ready, and after how long a stalled turn is
/// skipped.
#[derive(Clone, Copy, Debug, PartialEq, Eq, Structural)]
pub struct HasCooldown {
    pub duration: u16,
    pub skip_after: Option<u16>,
}

impl HasCooldown {
    /// An actor that is ready at once and whose stalled turn is skipped after
    /// `t` frames.
    pub fn with_skip(t: u16) -> (r: HasCooldown)
        ensures
            r == (HasCooldown { duration: 0, skip_after: Some(t) }),
    {
        HasCooldown { duration: 0, skip_after: Some(t) }
    }
}

impl Default for HasCooldown {
    fn default() -> (r: HasCooldown)
        ensures
            r == (HasCooldown { duration: 0, skip_after: None }),
    {
        HasCooldown { duration: 0, skip_after: None }
    }
}

impl View for HasCooldown {
    type V = HasCooldown;

    open spec fn view(&self) -> HasCooldown {
        *self
    }
}

/// Set when visible state changed and has to be drawn again.
#[derive(Clone, Copy, Debug, PartialEq, Eq, Structural)]
pub struct IsDirty(pub bool);

/// Marks an entity the player has seen.
#[derive(Clone, Copy, Debug)]
pub struct IsKnown;

/// Marks an entity that acts.
#[derive(Clone, Copy, Debug)]
pub struct IsCharacter;

/// A door: its sign, whether it is closed, and the key that locks it, if any.
#[derive(Clone, Debug)]
pub struct IsDoor {
    pub sign: String,
    pub is_closed: bool,
    pub is_locked: Option<EntityId>,
}

/// What contracts say of a door.
pub struct DoorView {
    pub sign: Seq<char>,
    pub is_closed: bool,
    pub is_locked: Option<EntityId>,
}

impl View for IsDoor {
    type V = DoorView;

    open spec fn view(&self) -> DoorView {
        DoorView { sign: self.sign@, is_closed: self.is_closed, is_locked: self.is_locked }
    }
}

} // verus!
