//! The deduplication engine: from the accumulated streams and corners to one
//! compact vertex for each distinct vertex identity, and one index for each
//! corner.
//!
//! Compact vertices stand in the order in which their identities are first
//! seen among the corners. The output stores are filled in that order.

use vstd::prelude::*;
use crate::obj::dedup::{
    compact_index,
    distinct,
    identities_of,
    lemma_compact_index_settled,
    lemma_distinct,
    lemma_index_of_unique,
    IndexMap,
    Vertex,
    VertexId,
};
use crate::obj::store::{Dimension, VertexAttribs};
use crate::obj::stream::{
    all_in_range,
    corner_in_range,
    identities,
    vertex_fits,
    Accumulator,
    Layout,
    Streams,
};

verus! {

/// One of the two attributes that a vertex may lack.
#[derive(Clone, Copy, PartialEq, Eq, Structural, Debug)]
pub enum Attribute {
    TexCoord,
    Normal,
}

/// A compacted mesh: the elements of each output stream and the index of
/// each corner.
pub struct Mesh {
    pub pos: Seq<Seq<u32>>,
    pub tex: Option<Seq<Seq<u32>>>,
    pub norm: Option<Seq<Seq<u32>>>,
    pub indices: Seq<int>,
}

/// The scalars of an attribute in an output stream: those of the vertex, or
/// zeros where the vertex has none.
pub open spec fn filled(dim: Dimension, value: Option<Seq<u32>>) -> Seq<u32> {
    match value {
        Some(v) => v,
        None => Seq::new(dim.arity(), |i: int| 0u32),
    }
}

/// The attribute `which` of a vertex.
pub open spec fn attribute(v: VertexId, which: Attribute) -> Option<Seq<u32>> {
    match which {
        Attribute::TexCoord => v.tex,
        Attribute::Normal => v.norm,
    }
}

/// The positions of the vertices, in order.
pub open spec fn positions(vertices: Seq<VertexId>) -> Seq<Seq<u32>> {
    Seq::new(vertices.len(), |i: int| vertices[i].pos)
}

/// The output stream of an attribute, if it is wanted.
pub open spec fn attributes(want: Option<Dimension>, vertices: Seq<VertexId>, which: Attribute) -> Option<
    Seq<Seq<u32>>,
> {
    match want {
        Some(dim) => Some(Seq::new(vertices.len(), |i: int| filled(dim, attribute(vertices[i], which)))),
        None => None,
    }
}

/// The compact indices of all items of `s`, in order.
pub open spec fn compact_indices<A>(s: Seq<A>) -> Seq<int> {
    Seq::new(s.len(), |k: int| compact_index(s, k))
}

/// The mesh that the streams `s` compact to.
pub open spec fn compacted(layout: Layout, s: Streams) -> Mesh {
    let vertices = distinct(identities(s));
    Mesh {
        pos: positions(vertices),
        tex: attributes(layout.tex, vertices, Attribute::TexCoord),
        norm: attributes(layout.norm, vertices, Attribute::Normal),
        indices: compact_indices(identities(s)),
    }
}

/// The index of each corner, as a sequence of numbers.
pub open spec fn index_values(indices: Seq<usize>) -> Seq<int> {
    Seq::new(indices.len(), |k: int| indices[k] as int)
}

/// Gives every corner its compact index and lists the distinct vertices in
/// the order in which they are first seen. Gives nothing if a corner is out
/// of range.
pub fn compact(acc: &Accumulator) -> (out: Option<(Vec<Vertex>, Vec<usize>)>)
    requires
        acc.wf(),
    ensures
        match out {
            Some((vertices, indices)) => {
                &&& all_in_range(acc@)
                &&& identities_of(vertices@) == distinct(identities(acc@))
                &&& index_values(indices@) == compact_indices(identities(acc@))
                &&& forall|i: int|
                    0 <= i < vertices@.len() ==> vertex_fits(acc.layout(), #[trigger] vertices@[i]@)
            },
            None => !all_in_range(acc@),
        },
{
    let ghost ids = identities(acc@);
    let mut map = IndexMap::new();
    let mut indices: Vec<usize> = Vec::new();
    let n = acc.corner_count();
    let mut k: usize = 0;
    while k < n
        invariant
            acc.wf(),
            ids == identities(acc@),
            n == acc@.corners.len(),
            k <= n,
            map.wf(),
            map@ == distinct(ids.take(k as int)),
            indices@.len() == k,
            forall|j: int| 0 <= j < k ==> #[trigger] indices@[j] == compact_index(ids, j),
            forall|j: int| 0 <= j < k ==> corner_in_range(acc@, #[trigger] acc@.corners[j]),
            forall|i: int| 0 <= i < map@.len() ==> vertex_fits(acc.layout(), #[trigger] map@[i]),
        decreases n - k,
    {
        let v = match acc.vertex(k) {
            Some(v) => v,
            None => {
                return None;
            },
        };
        proof {
            assert(ids.take(k + 1).drop_last() =~= ids.take(k as int));
        }
        let index = map.intern(v);
        proof {
            lemma_compact_index_settled(ids, k as int);
            lemma_distinct(ids.take(k + 1));
            lemma_index_of_unique(map@, index as int);
        }
        indices.push(index);
        k += 1;
    }
    proof {
        assert(ids.take(k as int) =~= ids);
    }
    let vertices = map.into_vertices();
    proof {
        assert forall|i: int| 0 <= i < vertices@.len() implies vertex_fits(
            acc.layout(),
            #[trigger] vertices@[i]@,
        ) by {
            assert(identities_of(vertices@)[i] == vertices@[i]@);
        }
    }
    Some((vertices, indices))
}

/// The position store of the compacted mesh.
pub fn position_store(dim: Dimension, vertices: &Vec<Vertex>) -> (store: VertexAttribs<u32>)
    requires
        forall|i: int| 0 <= i < vertices@.len() ==> (#[trigger] vertices@[i]@).pos.len() == dim.arity(),
    ensures
        store.wf(),
        store.dim() == dim,
        store.elements() == positions(identities_of(vertices@)),
{
    let mut store = VertexAttribs::new(dim);
    let mut i: usize = 0;
    while i < vertices.len()
        invariant
            i <= vertices.len(),
            store.wf(),
            store.dim() == dim,
            store.elements() == positions(identities_of(vertices@)).take(i as int),
            forall|i: int|
                0 <= i < vertices@.len() ==> (#[trigger] vertices@[i]@).pos.len() == dim.arity(),
        decreases vertices.len() - i,
    {
        assert(vertices@[i as int]@.pos == vertices@[i as int].pos@);
        store.push(&vertices[i].pos);
        i += 1;
    }
    store
}

/// An element of zeros.
fn zeros(dim: Dimension) -> (element: Vec<u32>)
    ensures
        element@ == filled(dim, None),
{
    match dim {
        Dimension::OneDim => vec![0u32],
        Dimension::TwoDim => vec![0u32, 0u32],
        Dimension::ThreeDim => vec![0u32, 0u32, 0u32],
    }
}

/// The store of the attribute `which` of the compacted mesh. A vertex that
/// lacks the attribute gets zeros.
pub fn attribute_store(dim: Dimension, vertices: &Vec<Vertex>, which: Attribute) -> (store:
    VertexAttribs<u32>)
    requires
        forall|i: int|
            0 <= i < vertices@.len() ==> (attribute(#[trigger] vertices@[i]@, which) matches Some(v)
                ==> v.len() == dim.arity()),
    ensures
        store.wf(),
        store.dim() == dim,
        Some(store.elements()) == attributes(Some(dim), identities_of(vertices@), which),
{
    let ghost want = attributes(Some(dim), identities_of(vertices@), which).unwrap();
    let blank = zeros(dim);
    let mut store = VertexAttribs::new(dim);
    let mut i: usize = 0;
    while i < vertices.len()
        invariant
            i <= vertices.len(),
            store.wf(),
            store.dim() == dim,
            blank@ == filled(dim, None),
            want == attributes(Some(dim), identities_of(vertices@), which).unwrap(),
            store.elements() == want.take(i as int),
            forall|i: int|
                0 <= i < vertices@.len() ==> (attribute(#[trigger] vertices@[i]@, which) matches Some(
                    v,
                ) ==> v.len() == dim.arity()),
        decreases vertices.len() - i,
    {
        let held = match which {
            Attribute::TexCoord => &vertices[i].tex,
            Attribute::Normal => &vertices[i].norm,
        };
        match held {
            Some(v) => {
                store.push(v);
            },
            None => {
                assert(attribute(vertices@[i as int]@, which) is None);
                store.push(&blank);
            },
        }
        i += 1;
    }
    store
}

} // verus!
