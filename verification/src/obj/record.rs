//! The typed records that a mesh description is made of.

use vstd::prelude::*;

verus! {

/// One corner of a face, with its indices as they are written: positive
/// indices count from one, negative indices count back from the end of the
/// stream they refer to.
#[derive(Clone, Copy, PartialEq, Eq, Structural, Debug)]
pub struct Corner {
    pub pos: isize,
    pub tex: Option<isize>,
    pub norm: Option<isize>,
}

/// One record of a mesh description, with scalars of type `S`.
#[derive(PartialEq, Eq, Debug)]
pub enum Record<S> {
    Position2 { x: S, y: S },
    Position3 { x: S, y: S, z: S },
    Normal { x: S, y: S, z: S },
    TexCoord1 { u: S },
    TexCoord2 { u: S, v: S },
    TexCoord3 { u: S, v: S, w: S },
    Face3 { v1: Corner, v2: Corner, v3: Corner },
    Face4 { v1: Corner, v2: Corner, v3: Corner, v4: Corner },
    Blank,
    Malformed,
}

impl<S> Record<S> {
    /// The components of a position record.
    pub open spec fn position(self) -> Option<Seq<S>> {
        match self {
            Record::Position2 { x, y } => Some(seq![x, y]),
            Record::Position3 { x, y, z } => Some(seq![x, y, z]),
            _ => None,
        }
    }

    /// The components of a normal record.
    pub open spec fn normal(self) -> Option<Seq<S>> {
        match self {
            Record::Normal { x, y, z } => Some(seq![x, y, z]),
            _ => None,
        }
    }

    /// The components of a texture-coordinate record.
    pub open spec fn texcoord(self) -> Option<Seq<S>> {
        match self {
            Record::TexCoord1 { u } => Some(seq![u]),
            Record::TexCoord2 { u, v } => Some(seq![u, v]),
            Record::TexCoord3 { u, v, w } => Some(seq![u, v, w]),
            _ => None,
        }
    }

    /// The corners that a face record contributes, three per triangle. A face
    /// of four corners is cut along the diagonal from its first corner to its
    /// third.
    pub open spec fn triangle_corners(self) -> Seq<Corner> {
        match self {
            Record::Face3 { v1, v2, v3 } => seq![v1, v2, v3],
            Record::Face4 { v1, v2, v3, v4 } => seq![v1, v2, v3, v3, v4, v1],
            _ => Seq::empty(),
        }
    }
}

} // verus!
