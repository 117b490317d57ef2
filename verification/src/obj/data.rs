//! Loaded mesh data: compacted attribute stores and one index per corner.

use vstd::prelude::*;
use std::str::FromStr;
use crate::obj::compact::{
    attribute_store,
    compact,
    compacted,
    index_values,
    position_store,
    Attribute,
    Mesh,
};
use crate::obj::parse::tokenize;
use crate::obj::record::Record;
use crate::obj::store::{Dimension, VertexAttribs};
use crate::obj::stream::{
    accumulate,
    accumulate_records,
    all_in_range,
    optional_dim,
    optional_elements,
    optional_wf,
    warnings,
    Layout,
    Warning,
};

verus! {

/// An integer type for the indices of a mesh. Its width sets the largest
/// number that an index can be.
pub trait IndexWidth: Sized {
    /// The largest number the type can hold.
    spec fn ceiling() -> nat;

    /// The number that an index stands for.
    spec fn value(self) -> nat;

    /// `n` as an index, if the type can hold it.
    fn narrow(n: usize) -> (index: Option<Self>)
        ensures
            n <= Self::ceiling() ==> (index matches Some(i) && i.value() == n),
            n > Self::ceiling() ==> index is None,
    ;
}

impl IndexWidth for u8 {
    open spec fn ceiling() -> nat {
        u8::MAX as nat
    }

    open spec fn value(self) -> nat {
        self as nat
    }

    fn narrow(n: usize) -> (index: Option<u8>) {
        if n <= u8::MAX as usize {
            Some(n as u8)
        } else {
            None
        }
    }
}

impl IndexWidth for u16 {
    open spec fn ceiling() -> nat {
        u16::MAX as nat
    }

    open spec fn value(self) -> nat {
        self as nat
    }

    fn narrow(n: usize) -> (index: Option<u16>) {
        if n <= u16::MAX as usize {
            Some(n as u16)
        } else {
            None
        }
    }
}

impl IndexWidth for u32 {
    open spec fn ceiling() -> nat {
        u32::MAX as nat
    }

    open spec fn value(self) -> nat {
        self as nat
    }

    fn narrow(n: usize) -> (index: Option<u32>) {
        if n <= u32::MAX as usize {
            Some(n as u32)
        } else {
            None
        }
    }
}

impl IndexWidth for u64 {
    open spec fn ceiling() -> nat {
        u64::MAX as nat
    }

    open spec fn value(self) -> nat {
        self as nat
    }

    fn narrow(n: usize) -> (index: Option<u64>) {
        Some(n as u64)
    }
}

impl IndexWidth for usize {
    open spec fn ceiling() -> nat {
        usize::MAX as nat
    }

    open spec fn value(self) -> nat {
        self as nat
    }

    fn narrow(n: usize) -> (index: Option<usize>) {
        Some(n)
    }
}

/// Why a mesh could not be loaded.
#[derive(Clone, Copy, PartialEq, Eq, Structural, Debug)]
pub enum LoadError {
    /// An index of a compact vertex, or the number of compact vertices, is
    /// more than the index type can hold.
    IndexOverflow,
    /// A corner refers to an element that its stream does not have.
    OutOfRangeReference,
}

/// Every index of the mesh, and the number of its vertices, is a number
/// that the index type can hold.
pub open spec fn fits<I: IndexWidth>(mesh: Mesh) -> bool {
    &&& mesh.pos.len() <= I::ceiling()
    &&& forall|k: int| 0 <= k < mesh.indices.len() ==> #[trigger] mesh.indices[k] <= I::ceiling()
}

/// The numbers that a sequence of indices stands for.
pub open spec fn values_of<I: IndexWidth>(indices: Seq<I>) -> Seq<int> {
    Seq::new(indices.len(), |k: int| indices[k].value() as int)
}

/// The indices as values of the index type, if the type can hold them all.
fn narrow_all<I: IndexWidth>(indices: &Vec<usize>) -> (out: Option<Vec<I>>)
    ensures
        match out {
            Some(narrow) => {
                &&& values_of(narrow@) == index_values(indices@)
                &&& forall|k: int| 0 <= k < indices@.len() ==> #[trigger] indices@[k] <= I::ceiling()
            },
            None => exists|k: int| 0 <= k < indices@.len() && #[trigger] indices@[k] > I::ceiling(),
        },
{
    let mut narrow: Vec<I> = Vec::new();
    let mut k: usize = 0;
    while k < indices.len()
        invariant
            k <= indices.len(),
            narrow@.len() == k,
            forall|j: int| 0 <= j < k ==> (#[trigger] narrow@[j]).value() == indices@[j],
            forall|j: int| 0 <= j < k ==> #[trigger] indices@[j] <= I::ceiling(),
        decreases indices.len() - k,
    {
        match I::narrow(indices[k]) {
            Some(index) => {
                narrow.push(index);
            },
            None => {
                return None;
            },
        }
        k += 1;
    }
    Some(narrow)
}

/// The data of one mesh: a position store, a texture-coordinate store and a
/// normal store where they are wanted, and the index of each corner of each
/// triangle.
pub struct ObjData<I> {
    pub pos_data: VertexAttribs<u32>,
    pub tex_data: Option<VertexAttribs<u32>>,
    pub norm_data: Option<VertexAttribs<u32>>,
    pub indicies: Vec<I>,
}

/// What a load leaves behind and hands back.
///
/// The records are accumulated and compacted for the streams that the data
/// object was made for. A corner out of range fails the load; so does an
/// index, or a number of vertices, that the index type cannot hold. A failed
/// load leaves the data object as it was. A load that succeeds leaves
/// exactly the compacted mesh, and hands back the warnings for the records
/// that were left out.
pub open spec fn load_outcome<I: IndexWidth>(
    before: ObjData<I>,
    records: Seq<Record<u32>>,
    result: Result<Vec<Warning>, LoadError>,
    after: ObjData<I>,
) -> bool {
    let layout = before.layout();
    let streams = accumulate(layout, records);
    let mesh = compacted(layout, streams);
    match result {
        Ok(found) => {
            &&& all_in_range(streams)
            &&& fits::<I>(mesh)
            &&& after.layout() == layout
            &&& after.holds(mesh)
            &&& found@ == warnings(layout, records)
        },
        Err(LoadError::OutOfRangeReference) => !all_in_range(streams) && after == before,
        Err(LoadError::IndexOverflow) => all_in_range(streams) && !fits::<I>(mesh) && after == before,
    }
}

impl<I: IndexWidth> ObjData<I> {
    /// The streams that the data object keeps.
    pub open spec fn layout(&self) -> Layout {
        Layout {
            pos: self.pos_data.dim(),
            tex: optional_dim(self.tex_data),
            norm: optional_dim(self.norm_data),
        }
    }

    /// Every store holds whole elements only.
    pub open spec fn wf(&self) -> bool {
        &&& self.pos_data.wf()
        &&& optional_wf(self.tex_data)
        &&& optional_wf(self.norm_data)
    }

    /// The data object holds exactly the mesh `mesh`.
    pub open spec fn holds(&self, mesh: Mesh) -> bool {
        &&& self.wf()
        &&& self.pos_data.elements() == mesh.pos
        &&& (self.tex_data is Some) == (mesh.tex is Some)
        &&& mesh.tex matches Some(tex) ==> optional_elements(self.tex_data) == tex
        &&& (self.norm_data is Some) == (mesh.norm is Some)
        &&& mesh.norm matches Some(norm) ==> optional_elements(self.norm_data) == norm
        &&& values_of(self.indicies@) == mesh.indices
    }

    /// An empty data object for positions of `pos_data_dim` components, and
    /// for texture coordinates and normals where a dimension is given.
    pub fn new(
        pos_data_dim: Dimension,
        tex_data_dim: Option<Dimension>,
        norm_data_dim: Option<Dimension>,
    ) -> (data: Self)
        ensures
            data.layout() == (Layout { pos: pos_data_dim, tex: tex_data_dim, norm: norm_data_dim }),
            data.wf(),
            data.pos_data@ == Seq::<u32>::empty(),
            optional_elements(data.tex_data) == Seq::<Seq<u32>>::empty(),
            optional_elements(data.norm_data) == Seq::<Seq<u32>>::empty(),
            data.indicies@ == Seq::<I>::empty(),
    {
        Self {
            pos_data: VertexAttribs::new(pos_data_dim),
            tex_data: if let Some(d) = tex_data_dim {
                Some(VertexAttribs::new(d))
            } else {
                None
            },
            norm_data: if let Some(d) = norm_data_dim {
                Some(VertexAttribs::new(d))
            } else {
                None
            },
            indicies: Vec::new(),
        }
    }

    /// The streams that the data object keeps.
    pub fn streams(&self) -> (layout: Layout)
        ensures
            layout == self.layout(),
    {
        Layout {
            pos: self.pos_data.get_elem_per_vert(),
            tex: match &self.tex_data {
                Some(t) => Some(t.get_elem_per_vert()),
                None => None,
            },
            norm: match &self.norm_data {
                Some(n) => Some(n.get_elem_per_vert()),
                None => None,
            },
        }
    }

    /// Loads the mesh that `records` describe.
    pub fn load_records(&mut self, records: &Vec<Record<u32>>) -> (result: Result<
        Vec<Warning>,
        LoadError,
    >)
        ensures
            load_outcome(*old(self), records@, result, *final(self)),
    {
        let layout = self.streams();
        let (acc, found) = accumulate_records(layout, records);
        let (vertices, indices) = match compact(&acc) {
            Some(out) => out,
            None => {
                return Err(LoadError::OutOfRangeReference);
            },
        };
        let ghost mesh = compacted(layout, acc@);
        let narrow = match narrow_all::<I>(&indices) {
            Some(narrow) => narrow,
            None => {
                proof {
                    let k = choose|k: int| 0 <= k < indices@.len() && #[trigger] indices@[k] > I::ceiling();
                    assert(mesh.indices[k] == index_values(indices@)[k]);
                }
                return Err(LoadError::IndexOverflow);
            },
        };
        if I::narrow(vertices.len()).is_none() {
            return Err(LoadError::IndexOverflow);
        }
        proof {
            assert forall|k: int| 0 <= k < mesh.indices.len() implies #[trigger] mesh.indices[k]
                <= I::ceiling() by {
                assert(mesh.indices[k] == index_values(indices@)[k]);
            }
        }
        let pos = position_store(layout.pos, &vertices);
        let tex = match layout.tex {
            Some(d) => Some(attribute_store(d, &vertices, Attribute::TexCoord)),
            None => None,
        };
        let norm = match layout.norm {
            Some(d) => Some(attribute_store(d, &vertices, Attribute::Normal)),
            None => None,
        };
        self.pos_data = pos;
        self.tex_data = tex;
        self.norm_data = norm;
        self.indicies = narrow;
        Ok(found)
    }

    /// Loads the mesh that `text` describes, with scalars read as values of
    /// `S`. The outcome is that of loading the records that the text is
    /// read as.
    pub fn load<S>(&mut self, text: &str) -> (result: Result<Vec<Warning>, LoadError>) where
        S: FromStr + Send,
        u32: From<S>,

        ensures
            exists|records: Seq<Record<u32>>| #[trigger]
                load_outcome(*old(self), records, result, *final(self)),
    {
        let records = tokenize::<S>(text);
        self.load_records(&records)
    }
}

} // verus!
