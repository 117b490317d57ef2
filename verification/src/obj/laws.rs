//! Laws of accumulation and compaction, stated over the same functions as
//! the contracts of loading.

use vstd::prelude::*;
use crate::obj::compact::{attribute, compacted, filled, Attribute};
use crate::obj::data::{fits, load_outcome, values_of, IndexWidth, ObjData};
use crate::obj::dedup::{
    compact_index,
    distinct,
    lemma_compact_index_settled,
    lemma_distinct,
    lemma_distinct_prefix,
    lemma_index_of_unique,
};
use crate::obj::record::{Corner, Record};
use crate::obj::stream::{
    accumulate,
    optional_elements,
    identities,
    identity,
    resolve,
    resolve_corner,
    step,
    Layout,
    Slot,
    Warning,
};

verus! {

/// Reading one more record is one step from what was read before.
pub proof fn lemma_accumulate_push(layout: Layout, records: Seq<Record<u32>>, r: Record<u32>)
    ensures
        accumulate(layout, records.push(r)) == step(layout, accumulate(layout, records), r),
{
    assert(records.push(r).drop_last() =~= records);
}

/// What has been read stays: each stream, and the list of corners, after
/// more records begins with what it was before them.
pub proof fn lemma_accumulate_grows(
    layout: Layout,
    before: Seq<Record<u32>>,
    after: Seq<Record<u32>>,
)
    ensures
        accumulate(layout, before).pos.is_prefix_of(accumulate(layout, before + after).pos),
        accumulate(layout, before).tex.is_prefix_of(accumulate(layout, before + after).tex),
        accumulate(layout, before).norm.is_prefix_of(accumulate(layout, before + after).norm),
        accumulate(layout, before).corners.is_prefix_of(accumulate(layout, before + after).corners),
    decreases after.len(),
{
    if after.len() == 0 {
        assert(before + after =~= before);
    } else {
        lemma_accumulate_grows(layout, before, after.drop_last());
        assert((before + after).drop_last() =~= before + after.drop_last());
        assert((before + after).last() == after.last());
    }
}

/// The corners come in threes: every triangle has three.
pub proof fn law_whole_triangles(layout: Layout, records: Seq<Record<u32>>)
    ensures
        accumulate(layout, records).corners.len() % 3 == 0,
    decreases records.len(),
{
    if records.len() > 0 {
        law_whole_triangles(layout, records.drop_last());
    }
}

/// A face of four corners `v1`, `v2`, `v3`, `v4` gives exactly two
/// triangles, `v1`, `v2`, `v3` and then `v3`, `v4`, `v1`, each corner
/// resolved against the streams as they are when the face is read.
pub proof fn law_quad_split(
    layout: Layout,
    records: Seq<Record<u32>>,
    v1: Corner,
    v2: Corner,
    v3: Corner,
    v4: Corner,
)
    ensures
        ({
            let read = accumulate(layout, records);
            let face = Record::<u32>::Face4 { v1, v2, v3, v4 };
            accumulate(layout, records.push(face)).corners == read.corners + seq![
                resolve_corner(layout, read, v1),
                resolve_corner(layout, read, v2),
                resolve_corner(layout, read, v3),
                resolve_corner(layout, read, v3),
                resolve_corner(layout, read, v4),
                resolve_corner(layout, read, v1),
            ]
        }),
{
    let read = accumulate(layout, records);
    let face = Record::<u32>::Face4 { v1, v2, v3, v4 };
    lemma_accumulate_push(layout, records, face);
    assert(face.triangle_corners().map_values(|c: Corner| resolve_corner(layout, read, c)) =~= seq![
        resolve_corner(layout, read, v1),
        resolve_corner(layout, read, v2),
        resolve_corner(layout, read, v3),
        resolve_corner(layout, read, v3),
        resolve_corner(layout, read, v4),
        resolve_corner(layout, read, v1),
    ]);
}

/// A position index of -1 names the position that was read last before the
/// face, whatever is read after the face.
pub proof fn law_relative_index(
    layout: Layout,
    before: Seq<Record<u32>>,
    face: Record<u32>,
    after: Seq<Record<u32>>,
    j: int,
)
    requires
        0 <= j < face.triangle_corners().len(),
        face.triangle_corners()[j].pos == -1,
        0 < accumulate(layout, before).pos.len() <= usize::MAX,
    ensures
        ({
            let read = accumulate(layout, before);
            let all = accumulate(layout, before.push(face) + after);
            let corner = all.corners[read.corners.len() + j];
            &&& read.corners.len() + j < all.corners.len()
            &&& corner.pos == Slot::At((read.pos.len() - 1) as usize)
            &&& identity(all, corner).pos == read.pos.last()
        }),
{
    let read = accumulate(layout, before);
    let with_face = accumulate(layout, before.push(face));
    let all = accumulate(layout, before.push(face) + after);
    lemma_accumulate_push(layout, before, face);
    lemma_accumulate_grows(layout, before.push(face), after);
    let added = face.triangle_corners().map_values(|c: Corner| resolve_corner(layout, read, c));
    assert(with_face.corners[read.corners.len() + j] == added[j]);
    assert(all.corners[read.corners.len() + j] == with_face.corners[read.corners.len() + j]);
    assert(added[j].pos == resolve(face.triangle_corners()[j].pos, read.pos.len()));
    assert(face.position() is None);
    assert(with_face.pos == read.pos);
    assert(all.pos[read.pos.len() - 1] == with_face.pos[read.pos.len() - 1]);
}

/// Where no two corners have the same identity, there are as many compact
/// vertices as corners, and the index of each corner is its own number.
pub proof fn law_no_sharing(layout: Layout, records: Seq<Record<u32>>)
    requires
        identities(accumulate(layout, records)).no_duplicates(),
    ensures
        ({
            let streams = accumulate(layout, records);
            let mesh = compacted(layout, streams);
            &&& mesh.pos.len() == streams.corners.len()
            &&& mesh.indices.len() == streams.corners.len()
            &&& forall|k: int| 0 <= k < mesh.indices.len() ==> #[trigger] mesh.indices[k] == k
        }),
{
    let ids = identities(accumulate(layout, records));
    lemma_distinct_of_distinct(ids);
    assert forall|k: int| 0 <= k < ids.len() implies compact_index(ids, k) == k by {
        lemma_index_of_unique(ids, k);
    }
}

/// A sequence without duplicates is the sequence of its distinct items.
pub proof fn lemma_distinct_of_distinct<A>(s: Seq<A>)
    requires
        s.no_duplicates(),
    ensures
        distinct(s) == s,
    decreases s.len(),
{
    if s.len() > 0 {
        lemma_distinct_of_distinct(s.drop_last());
        lemma_distinct(s.drop_last());
        if s.drop_last().contains(s.last()) {
            let i = choose|i: int| 0 <= i < s.drop_last().len() && s.drop_last()[i] == s.last();
            assert(s[i] == s[s.len() - 1]);
        }
        assert(distinct(s) =~= s);
    } else {
        assert(distinct(s) =~= s);
    }
}

/// Two corners have the same index exactly when they have the same
/// identity.
pub proof fn law_dedup(layout: Layout, records: Seq<Record<u32>>, a: int, b: int)
    requires
        0 <= a < accumulate(layout, records).corners.len(),
        0 <= b < accumulate(layout, records).corners.len(),
    ensures
        ({
            let streams = accumulate(layout, records);
            let mesh = compacted(layout, streams);
            (mesh.indices[a] == mesh.indices[b]) == (identity(streams, streams.corners[a])
                == identity(streams, streams.corners[b]))
        }),
{
    let ids = identities(accumulate(layout, records));
    lemma_compact_index_settled(ids, a);
    lemma_compact_index_settled(ids, b);
}

/// The indices are dense: each is below the number of compact vertices, and
/// each compact vertex is the index of some corner.
pub proof fn law_dense_indices(layout: Layout, records: Seq<Record<u32>>)
    ensures
        ({
            let streams = accumulate(layout, records);
            let mesh = compacted(layout, streams);
            &&& mesh.indices.len() == streams.corners.len()
            &&& mesh.pos.len() <= streams.corners.len()
            &&& forall|k: int|
                0 <= k < mesh.indices.len() ==> 0 <= #[trigger] mesh.indices[k] < mesh.pos.len()
            &&& forall|i: int| 0 <= i < mesh.pos.len() ==> #[trigger] mesh.indices.contains(i)
        }),
{
    let streams = accumulate(layout, records);
    let ids = identities(streams);
    let mesh = compacted(layout, streams);
    lemma_distinct(ids);
    assert forall|k: int| 0 <= k < mesh.indices.len() implies 0 <= #[trigger] mesh.indices[k]
        < mesh.pos.len() by {
        lemma_compact_index_settled(ids, k);
    }
    assert forall|i: int| 0 <= i < mesh.pos.len() implies #[trigger] mesh.indices.contains(i) by {
        let v = distinct(ids)[i];
        assert(distinct(ids).contains(v));
        assert(ids.contains(v));
        let k = choose|k: int| 0 <= k < ids.len() && ids[k] == v;
        lemma_compact_index_settled(ids, k);
        lemma_index_of_unique(distinct(ids), i);
        assert(mesh.indices[k] == i);
    }
}

/// The index of a corner names the compact vertex with the corner's own
/// attributes: its position, and its texture coordinate and normal where
/// those streams are wanted, with zeros where the corner has none.
pub proof fn law_index_names_vertex(layout: Layout, records: Seq<Record<u32>>, k: int)
    requires
        0 <= k < accumulate(layout, records).corners.len(),
    ensures
        ({
            let streams = accumulate(layout, records);
            let mesh = compacted(layout, streams);
            let id = identity(streams, streams.corners[k]);
            let i = mesh.indices[k];
            &&& 0 <= i < mesh.pos.len()
            &&& mesh.pos[i] == id.pos
            &&& layout.tex matches Some(d) ==> mesh.tex.unwrap()[i] == filled(d, id.tex)
            &&& layout.norm matches Some(d) ==> mesh.norm.unwrap()[i] == filled(d, id.norm)
        }),
{
    let ids = identities(accumulate(layout, records));
    lemma_compact_index_settled(ids, k);
    let i = compact_index(ids, k);
    assert(attribute(distinct(ids)[i], Attribute::TexCoord) == ids[k].tex);
    assert(attribute(distinct(ids)[i], Attribute::Normal) == ids[k].norm);
}

/// Compact vertices stand in the order in which their identities are first
/// seen: of two corners with different indices, the one whose identity is
/// seen first has the smaller index.
pub proof fn law_first_seen_order(layout: Layout, records: Seq<Record<u32>>, a: int, b: int)
    requires
        0 <= a < b < accumulate(layout, records).corners.len(),
        forall|j: int|
            0 <= j < b ==> #[trigger] identities(accumulate(layout, records))[j] != identities(
                accumulate(layout, records),
            )[b],
    ensures
        ({
            let mesh = compacted(layout, accumulate(layout, records));
            mesh.indices[a] < mesh.indices[b]
        }),
{
    let ids = identities(accumulate(layout, records));
    lemma_compact_index_settled(ids, a);
    lemma_compact_index_settled(ids, b);
    // The identity of corner `b` is new at `b`, so it is the last of the
    // distinct identities among the first `b + 1`.
    assert(ids.take(b + 1).drop_last() =~= ids.take(b));
    lemma_distinct(ids.take(b));
    lemma_distinct(ids.take(b + 1));
    lemma_distinct_prefix(ids, b);
    lemma_distinct_prefix(ids, b + 1);
    lemma_distinct_prefix(ids.take(b), a + 1);
    assert(ids.take(b).take(a + 1) =~= ids.take(a + 1));
    if distinct(ids.take(b)).contains(ids[b]) {
        assert(ids.take(b).contains(ids[b]));
        let j = choose|j: int| 0 <= j < ids.take(b).len() && ids.take(b)[j] == ids[b];
        assert(ids[j] == ids[b]);
    }
    let seen = distinct(ids.take(b));
    assert(distinct(ids.take(b + 1)) == seen.push(ids[b]));
    assert(distinct(ids.take(b + 1))[seen.len() as int] == ids[b]);
    lemma_index_of_unique(distinct(ids.take(b + 1)), seen.len() as int);
    assert(compact_index(ids, b) == seen.len());
    assert(compact_index(ids, a) < distinct(ids.take(a + 1)).len());
    assert(distinct(ids.take(a + 1)).len() <= seen.len());
}

/// The indices fit an index type exactly when the number of compact
/// vertices does: the largest index is one less than that number.
pub proof fn law_fits_by_count<I: IndexWidth>(layout: Layout, records: Seq<Record<u32>>)
    ensures
        ({
            let mesh = compacted(layout, accumulate(layout, records));
            fits::<I>(mesh) == (mesh.pos.len() <= I::ceiling())
        }),
{
    law_dense_indices(layout, records);
}

/// After a load that succeeds, the indices come in threes, every index
/// names a vertex of the position store, and the stores that are kept hold
/// one element for each vertex.
pub proof fn law_loaded_shape<I: IndexWidth>(
    before: ObjData<I>,
    records: Seq<Record<u32>>,
    found: Vec<Warning>,
    after: ObjData<I>,
)
    requires
        load_outcome(before, records, Ok(found), after),
    ensures
        after.indicies@.len() % 3 == 0,
        after.pos_data.count() <= after.indicies@.len(),
        forall|k: int|
            0 <= k < after.indicies@.len() ==> (#[trigger] after.indicies@[k]).value()
                < after.pos_data.count(),
        after.tex_data is Some ==> optional_elements(after.tex_data).len() == after.pos_data.count(),
        after.norm_data is Some ==> optional_elements(after.norm_data).len()
            == after.pos_data.count(),
{
    let layout = before.layout();
    let mesh = compacted(layout, accumulate(layout, records));
    law_whole_triangles(layout, records);
    law_dense_indices(layout, records);
    assert forall|k: int| 0 <= k < after.indicies@.len() implies (#[trigger] after.indicies@[k]).value()
        < after.pos_data.count() by {
        assert(values_of(after.indicies@)[k] == mesh.indices[k]);
    }
}

/// After a load that succeeds, the index of each corner names the element
/// of the position store that the corner's position reference named in the
/// input.
pub proof fn law_loaded_position<I: IndexWidth>(
    before: ObjData<I>,
    records: Seq<Record<u32>>,
    found: Vec<Warning>,
    after: ObjData<I>,
    k: int,
)
    requires
        load_outcome(before, records, Ok(found), after),
        0 <= k < after.indicies@.len(),
    ensures
        ({
            let streams = accumulate(before.layout(), records);
            after.pos_data.elements()[after.indicies@[k].value() as int] == identity(
                streams,
                streams.corners[k],
            ).pos
        }),
{
    let layout = before.layout();
    let mesh = compacted(layout, accumulate(layout, records));
    assert(values_of(after.indicies@)[k] == mesh.indices[k]);
    law_index_names_vertex(layout, records, k);
}

} // verus!
