//! The raw stream accumulator: one pass over the records of a mesh
//! description that fills the position, texture-coordinate and normal streams
//! and lists the corners of every triangle.
//!
//! A negative index in a face is resolved when the face is read, against the
//! length that its stream has at that moment. A positive index counts from
//! one and is turned into an index from zero. Whether a resolved index lies
//! inside its stream is decided once all records are read.

use vstd::prelude::*;
use crate::obj::dedup::{Vertex, VertexId};
use crate::obj::record::{Corner, Record};
use crate::obj::store::{Dimension, VertexAttribs};

verus! {

/// Which streams a caller wants, and with how many components each.
#[derive(Clone, Copy, PartialEq, Eq, Structural, Debug)]
pub struct Layout {
    pub pos: Dimension,
    pub tex: Option<Dimension>,
    pub norm: Option<Dimension>,
}

/// Where one reference of a corner points.
#[derive(Clone, Copy, PartialEq, Eq, Structural, Debug)]
pub enum Slot {
    /// The corner carries no such reference, or its stream is not wanted.
    Absent,
    /// The element at this index, counted from zero.
    At(usize),
    /// The reference names no element: it is zero, or it counts back past
    /// the start of its stream.
    Dangling,
}

/// One corner of a triangle with its references resolved.
#[derive(Clone, Copy, PartialEq, Eq, Structural, Debug)]
pub struct CornerRef {
    pub pos: Slot,
    pub tex: Slot,
    pub norm: Slot,
}

/// Why a record was left out of the streams.
#[derive(Clone, Copy, PartialEq, Eq, Structural, Debug)]
pub enum WarningKind {
    /// The line could not be read as a record of any kind.
    Malformed,
    /// The record has another number of components than its stream.
    ArityMismatch,
}

/// A record that was left out, by its place in the input, counted from zero.
#[derive(Clone, Copy, PartialEq, Eq, Structural, Debug)]
pub struct Warning {
    pub line: usize,
    pub kind: WarningKind,
}

/// What has been accumulated: the elements of each stream in input order and
/// the corners of all triangles in input order.
pub struct Streams {
    pub pos: Seq<Seq<u32>>,
    pub tex: Seq<Seq<u32>>,
    pub norm: Seq<Seq<u32>>,
    pub corners: Seq<CornerRef>,
}

/// The element that the index `raw` names in a stream of `len` elements.
pub open spec fn resolve(raw: isize, len: nat) -> Slot {
    if raw > 0 {
        Slot::At((raw - 1) as usize)
    } else if raw < 0 && len + raw >= 0 {
        Slot::At((len + raw) as usize)
    } else {
        Slot::Dangling
    }
}

/// A reference into a stream that may be unwanted, and may be missing from
/// the corner.
pub open spec fn resolve_optional(want: Option<Dimension>, raw: Option<isize>, len: nat) -> Slot {
    match (want, raw) {
        (Some(_), Some(i)) => resolve(i, len),
        _ => Slot::Absent,
    }
}

/// The corner `c`, resolved against the streams `s`.
pub open spec fn resolve_corner(layout: Layout, s: Streams, c: Corner) -> CornerRef {
    CornerRef {
        pos: resolve(c.pos, s.pos.len()),
        tex: resolve_optional(layout.tex, c.tex, s.tex.len()),
        norm: resolve_optional(layout.norm, c.norm, s.norm.len()),
    }
}

/// A stream of dimension `want` takes the components `value`.
pub open spec fn kept(want: Option<Dimension>, value: Option<Seq<u32>>) -> bool {
    want matches Some(d) && value matches Some(v) && v.len() == d.arity()
}

/// A stream after one record.
pub open spec fn extended(stream: Seq<Seq<u32>>, want: Option<Dimension>, value: Option<Seq<u32>>) -> Seq<
    Seq<u32>,
> {
    if kept(want, value) {
        stream.push(value.unwrap())
    } else {
        stream
    }
}

/// The streams after one more record.
pub open spec fn step(layout: Layout, s: Streams, r: Record<u32>) -> Streams {
    Streams {
        pos: extended(s.pos, Some(layout.pos), r.position()),
        tex: extended(s.tex, layout.tex, r.texcoord()),
        norm: extended(s.norm, layout.norm, r.normal()),
        corners: s.corners + r.triangle_corners().map_values(
            |c: Corner| resolve_corner(layout, s, c),
        ),
    }
}

/// The streams before any record.
pub open spec fn no_streams() -> Streams {
    Streams { pos: Seq::empty(), tex: Seq::empty(), norm: Seq::empty(), corners: Seq::empty() }
}

/// The streams after all of `records`, read in order.
pub open spec fn accumulate(layout: Layout, records: Seq<Record<u32>>) -> Streams
    decreases records.len(),
{
    if records.len() == 0 {
        no_streams()
    } else {
        step(layout, accumulate(layout, records.drop_last()), records.last())
    }
}

/// Why a record is left out of the streams, if it is. A record for a stream
/// that the caller does not want is passed over without a warning.
pub open spec fn warning_of(layout: Layout, r: Record<u32>) -> Option<WarningKind> {
    if r is Malformed {
        Some(WarningKind::Malformed)
    } else if r.position() is Some && !kept(Some(layout.pos), r.position()) {
        Some(WarningKind::ArityMismatch)
    } else if r.texcoord() is Some && layout.tex is Some && !kept(layout.tex, r.texcoord()) {
        Some(WarningKind::ArityMismatch)
    } else if r.normal() is Some && layout.norm is Some && !kept(layout.norm, r.normal()) {
        Some(WarningKind::ArityMismatch)
    } else {
        None
    }
}

/// The warnings for all of `records`, in input order.
pub open spec fn warnings(layout: Layout, records: Seq<Record<u32>>) -> Seq<Warning>
    decreases records.len(),
{
    if records.len() == 0 {
        Seq::empty()
    } else {
        let before = warnings(layout, records.drop_last());
        match warning_of(layout, records.last()) {
            Some(kind) => before.push(Warning { line: (records.len() - 1) as usize, kind }),
            None => before,
        }
    }
}

/// The reference `slot` names an element of a stream of `len` elements, or
/// none at all.
pub open spec fn in_range(slot: Slot, len: nat) -> bool {
    match slot {
        Slot::Absent => true,
        Slot::At(i) => i < len,
        Slot::Dangling => false,
    }
}

/// Every reference of the corner `c` names an element of its stream, and
/// the corner has a position.
pub open spec fn corner_in_range(s: Streams, c: CornerRef) -> bool {
    &&& c.pos is At
    &&& in_range(c.pos, s.pos.len())
    &&& in_range(c.tex, s.tex.len())
    &&& in_range(c.norm, s.norm.len())
}

/// Every corner is in range.
pub open spec fn all_in_range(s: Streams) -> bool {
    forall|k: int| 0 <= k < s.corners.len() ==> corner_in_range(s, #[trigger] s.corners[k])
}

/// The element that `slot` names.
pub open spec fn fetch(stream: Seq<Seq<u32>>, slot: Slot) -> Option<Seq<u32>> {
    match slot {
        Slot::At(i) => Some(stream[i as int]),
        _ => None,
    }
}

/// The identity of the vertex at corner `c`.
pub open spec fn identity(s: Streams, c: CornerRef) -> VertexId {
    VertexId {
        pos: match fetch(s.pos, c.pos) {
            Some(p) => p,
            None => Seq::empty(),
        },
        tex: fetch(s.tex, c.tex),
        norm: fetch(s.norm, c.norm),
    }
}

/// The identities of the vertices at all corners, in corner order.
pub open spec fn identities(s: Streams) -> Seq<VertexId> {
    Seq::new(s.corners.len(), |k: int| identity(s, s.corners[k]))
}

/// An attribute has as many scalars as its stream has components.
pub open spec fn attribute_fits(want: Option<Dimension>, value: Option<Seq<u32>>) -> bool {
    value matches Some(v) ==> want matches Some(d) && v.len() == d.arity()
}

/// Each attribute of the vertex has as many scalars as its stream has
/// components.
pub open spec fn vertex_fits(layout: Layout, v: VertexId) -> bool {
    &&& v.pos.len() == layout.pos.arity()
    &&& attribute_fits(layout.tex, v.tex)
    &&& attribute_fits(layout.norm, v.norm)
}

/// The element that the index `raw` names in a stream of `len` elements.
pub fn resolve_index(raw: isize, len: usize) -> (slot: Slot)
    ensures
        slot == resolve(raw, len as nat),
{
    if raw > 0 {
        Slot::At((raw - 1) as usize)
    } else if raw < 0 {
        let at: i128 = len as i128 + raw as i128;
        if at >= 0 {
            Slot::At(at as usize)
        } else {
            Slot::Dangling
        }
    } else {
        Slot::Dangling
    }
}

/// Why a record is left out of the streams, if it is.
pub fn check_record(layout: &Layout, record: &Record<u32>) -> (warning: Option<WarningKind>)
    ensures
        warning == warning_of(*layout, *record),
{
    let mismatch = Some(WarningKind::ArityMismatch);
    match record {
        Record::Malformed => Some(WarningKind::Malformed),
        Record::Position2 { .. } => if layout.pos == Dimension::TwoDim {
            None
        } else {
            mismatch
        },
        Record::Position3 { .. } => if layout.pos == Dimension::ThreeDim {
            None
        } else {
            mismatch
        },
        Record::Normal { .. } => match layout.norm {
            Some(d) => if d == Dimension::ThreeDim {
                None
            } else {
                mismatch
            },
            None => None,
        },
        Record::TexCoord1 { .. } => match layout.tex {
            Some(d) => if d == Dimension::OneDim {
                None
            } else {
                mismatch
            },
            None => None,
        },
        Record::TexCoord2 { .. } => match layout.tex {
            Some(d) => if d == Dimension::TwoDim {
                None
            } else {
                mismatch
            },
            None => None,
        },
        Record::TexCoord3 { .. } => match layout.tex {
            Some(d) => if d == Dimension::ThreeDim {
                None
            } else {
                mismatch
            },
            None => None,
        },
        _ => None,
    }
}

/// The streams of one mesh description while it is being read.
pub struct Accumulator {
    pos: VertexAttribs<u32>,
    tex: Option<VertexAttribs<u32>>,
    norm: Option<VertexAttribs<u32>>,
    corners: Vec<CornerRef>,
}

/// The elements of a stream that may be unwanted.
pub open spec fn optional_elements(store: Option<VertexAttribs<u32>>) -> Seq<Seq<u32>> {
    match store {
        Some(s) => s.elements(),
        None => Seq::empty(),
    }
}

/// The dimension of a stream that may be unwanted.
pub open spec fn optional_dim(store: Option<VertexAttribs<u32>>) -> Option<Dimension> {
    match store {
        Some(s) => Some(s.dim()),
        None => None,
    }
}

/// A stream that may be unwanted holds whole elements only.
pub open spec fn optional_wf(store: Option<VertexAttribs<u32>>) -> bool {
    match store {
        Some(s) => s.wf(),
        None => true,
    }
}

impl View for Accumulator {
    type V = Streams;

    closed spec fn view(&self) -> Streams {
        Streams {
            pos: self.pos.elements(),
            tex: optional_elements(self.tex),
            norm: optional_elements(self.norm),
            corners: self.corners@,
        }
    }
}

impl Accumulator {
    /// The streams that are kept.
    pub closed spec fn layout(&self) -> Layout {
        Layout { pos: self.pos.dim(), tex: optional_dim(self.tex), norm: optional_dim(self.norm) }
    }

    /// Every stream holds whole elements only.
    pub closed spec fn wf(&self) -> bool {
        &&& self.pos.wf()
        &&& optional_wf(self.tex)
        &&& optional_wf(self.norm)
    }

    /// An accumulator that has read nothing.
    pub fn new(layout: Layout) -> (acc: Self)
        ensures
            acc.wf(),
            acc.layout() == layout,
            acc@ == no_streams(),
    {
        let tex = match layout.tex {
            Some(d) => Some(VertexAttribs::new(d)),
            None => None,
        };
        let norm = match layout.norm {
            Some(d) => Some(VertexAttribs::new(d)),
            None => None,
        };
        Accumulator { pos: VertexAttribs::new(layout.pos), tex, norm, corners: Vec::new() }
    }

    /// The corner `c`, resolved against the streams as they are now.
    pub fn resolve(&self, c: Corner) -> (r: CornerRef)
        ensures
            r == resolve_corner(self.layout(), self@, c),
    {
        let pos = resolve_index(c.pos, self.pos.len());
        let tex = match (&self.tex, c.tex) {
            (Some(t), Some(i)) => resolve_index(i, t.len()),
            _ => Slot::Absent,
        };
        let norm = match (&self.norm, c.norm) {
            (Some(n), Some(i)) => resolve_index(i, n.len()),
            _ => Slot::Absent,
        };
        CornerRef { pos, tex, norm }
    }

    /// Reads one more record.
    pub fn push(&mut self, record: &Record<u32>)
        requires
            old(self).wf(),
        ensures
            final(self).wf(),
            final(self).layout() == old(self).layout(),
            final(self)@ == step(old(self).layout(), old(self)@, *record),
    {
        let ghost layout = self.layout();
        let ghost before = self@;
        match *record {
            Record::Position2 { x, y } => {
                if self.pos.get_elem_per_vert() == Dimension::TwoDim {
                    self.pos.push2d((x, y));
                }
            },
            Record::Position3 { x, y, z } => {
                if self.pos.get_elem_per_vert() == Dimension::ThreeDim {
                    self.pos.push3d((x, y, z));
                }
            },
            Record::Normal { x, y, z } => {
                if let Some(n) = &mut self.norm {
                    if n.get_elem_per_vert() == Dimension::ThreeDim {
                        n.push3d((x, y, z));
                    }
                }
            },
            Record::TexCoord3 { u, v, w } => {
                if let Some(t) = &mut self.tex {
                    if t.get_elem_per_vert() == Dimension::ThreeDim {
                        t.push3d((u, v, w));
                    }
                }
            },
            Record::TexCoord2 { u, v } => {
                if let Some(t) = &mut self.tex {
                    if t.get_elem_per_vert() == Dimension::TwoDim {
                        t.push2d((u, v));
                    }
                }
            },
            Record::TexCoord1 { u } => {
                if let Some(t) = &mut self.tex {
                    if t.get_elem_per_vert() == Dimension::OneDim {
                        t.push1d(u);
                    }
                }
            },
            Record::Face3 { v1, v2, v3 } => {
                let a = self.resolve(v1);
                let b = self.resolve(v2);
                let c = self.resolve(v3);
                self.corners.push(a);
                self.corners.push(b);
                self.corners.push(c);
            },
            Record::Face4 { v1, v2, v3, v4 } => {
                let a = self.resolve(v1);
                let b = self.resolve(v2);
                let c = self.resolve(v3);
                let d = self.resolve(v4);
                self.corners.push(a);
                self.corners.push(b);
                self.corners.push(c);
                self.corners.push(c);
                self.corners.push(d);
                self.corners.push(a);
            },
            Record::Blank => {},
            Record::Malformed => {},
        }
        proof {
            assert(self@.corners =~= step(layout, before, *record).corners);
        }
    }

    /// The vertex at corner `k`, if all its references are in range.
    pub fn vertex(&self, k: usize) -> (v: Option<Vertex>)
        requires
            self.wf(),
            k < self@.corners.len(),
        ensures
            match v {
                Some(x) => {
                    &&& corner_in_range(self@, self@.corners[k as int])
                    &&& x@ == identity(self@, self@.corners[k as int])
                    &&& vertex_fits(self.layout(), x@)
                },
                None => !corner_in_range(self@, self@.corners[k as int]),
            },
    {
        let c = self.corners[k];
        let pos = match c.pos {
            Slot::At(i) => if i < self.pos.len() {
                self.pos.get(i)
            } else {
                return None;
            },
            _ => {
                return None;
            },
        };
        let tex = match c.tex {
            Slot::Absent => None,
            Slot::At(i) => match &self.tex {
                Some(t) => if i < t.len() {
                    Some(t.get(i))
                } else {
                    return None;
                },
                None => {
                    return None;
                },
            },
            Slot::Dangling => {
                return None;
            },
        };
        let norm = match c.norm {
            Slot::Absent => None,
            Slot::At(i) => match &self.norm {
                Some(n) => if i < n.len() {
                    Some(n.get(i))
                } else {
                    return None;
                },
                None => {
                    return None;
                },
            },
            Slot::Dangling => {
                return None;
            },
        };
        Some(Vertex { pos, tex, norm })
    }

    /// Corner `k`, as it was resolved.
    pub fn corner(&self, k: usize) -> (c: CornerRef)
        requires
            k < self@.corners.len(),
        ensures
            c == self@.corners[k as int],
    {
        self.corners[k]
    }

    /// The number of position elements read so far.
    pub fn positions(&self) -> (n: usize)
        ensures
            n == self@.pos.len(),
    {
        self.pos.len()
    }

    /// The number of corners listed so far.
    pub fn corner_count(&self) -> (n: usize)
        ensures
            n == self@.corners.len(),
    {
        self.corners.len()
    }
}

/// Reads all of `records`, in order, and reports each record that was left
/// out.
pub fn accumulate_records(layout: Layout, records: &Vec<Record<u32>>) -> (out: (
    Accumulator,
    Vec<Warning>,
))
    ensures
        out.0.wf(),
        out.0.layout() == layout,
        out.0@ == accumulate(layout, records@),
        out.1@ == warnings(layout, records@),
{
    let mut acc = Accumulator::new(layout);
    let mut found: Vec<Warning> = Vec::new();
    let mut i: usize = 0;
    while i < records.len()
        invariant
            i <= records.len(),
            acc.wf(),
            acc.layout() == layout,
            acc@ == accumulate(layout, records@.take(i as int)),
            found@ == warnings(layout, records@.take(i as int)),
        decreases records.len() - i,
    {
        proof {
            assert(records@.take(i + 1).drop_last() =~= records@.take(i as int));
        }
        acc.push(&records[i]);
        if let Some(kind) = check_record(&layout, &records[i]) {
            found.push(Warning { line: i, kind });
        }
        i += 1;
    }
    proof {
        assert(records@.take(i as int) =~= records@);
    }
    (acc, found)
}

} // verus!
