//! Vertex identities and the compact index map.
//!
//! Two corners are the same vertex exactly when their identities are equal,
//! component by component. The compact index map numbers the identities it is
//! shown in the order in which it first sees them, starting at zero.

use vstd::prelude::*;
use std::collections::HashMap;

verus! {

broadcast use vstd::std_specs::hash::group_hash_axioms;

/// The identity of a vertex: the scalars of its position, and those of its
/// texture coordinate and of its normal where it has them.
#[verifier::ext_equal]
pub struct VertexId {
    pub pos: Seq<u32>,
    pub tex: Option<Seq<u32>>,
    pub norm: Option<Seq<u32>>,
}

/// A vertex as it is held in memory.
#[derive(PartialEq, Eq, Debug)]
pub struct Vertex {
    pub pos: Vec<u32>,
    pub tex: Option<Vec<u32>>,
    pub norm: Option<Vec<u32>>,
}

/// The scalars of an attribute that a vertex may lack.
pub open spec fn optional_scalars(v: Option<Vec<u32>>) -> Option<Seq<u32>> {
    match v {
        Some(w) => Some(w@),
        None => None,
    }
}

impl View for Vertex {
    type V = VertexId;

    open spec fn view(&self) -> VertexId {
        VertexId {
            pos: self.pos@,
            tex: optional_scalars(self.tex),
            norm: optional_scalars(self.norm),
        }
    }
}

/// The identities of a sequence of vertices.
pub open spec fn identities_of(vertices: Seq<Vertex>) -> Seq<VertexId> {
    Seq::new(vertices.len(), |i: int| vertices[i]@)
}

/// The items of `s` in the order of their first occurrence, each once.
pub open spec fn distinct<A>(s: Seq<A>) -> Seq<A>
    decreases s.len(),
{
    if s.len() == 0 {
        Seq::empty()
    } else {
        let before = distinct(s.drop_last());
        if before.contains(s.last()) {
            before
        } else {
            before.push(s.last())
        }
    }
}

/// The compact index of item `k` of `s`: the place of `s[k]` among the
/// distinct items of `s`.
pub open spec fn compact_index<A>(s: Seq<A>, k: int) -> int {
    distinct(s).index_of(s[k])
}

/// The distinct items of a sequence are its items, each once.
pub proof fn lemma_distinct<A>(s: Seq<A>)
    ensures
        distinct(s).no_duplicates(),
        distinct(s).len() <= s.len(),
        forall|x: A| distinct(s).contains(x) <==> s.contains(x),
    decreases s.len(),
{
    if s.len() > 0 {
        let before = distinct(s.drop_last());
        lemma_distinct(s.drop_last());
        assert forall|x: A| distinct(s).contains(x) <==> s.contains(x) by {
            if s.contains(x) {
                let i = choose|i: int| 0 <= i < s.len() && s[i] == x;
                if i < s.len() - 1 {
                    assert(s.drop_last()[i] == x);
                    assert(s.drop_last().contains(x));
                    assert(before.contains(x));
                    let j = choose|j: int| 0 <= j < before.len() && before[j] == x;
                    assert(distinct(s)[j] == x);
                } else {
                    if !before.contains(x) {
                        assert(distinct(s)[before.len() as int] == x);
                    } else {
                        let j = choose|j: int| 0 <= j < before.len() && before[j] == x;
                        assert(distinct(s)[j] == x);
                    }
                }
            }
            if distinct(s).contains(x) {
                let j = choose|j: int| 0 <= j < distinct(s).len() && distinct(s)[j] == x;
                if j < before.len() {
                    assert(before[j] == x);
                    assert(before.contains(x));
                    assert(s.drop_last().contains(x));
                    let i = choose|i: int| 0 <= i < s.drop_last().len() && s.drop_last()[i] == x;
                    assert(s[i] == x);
                } else {
                    assert(s[s.len() - 1] == x);
                }
            }
        }
    }
}

/// The distinct items of a prefix are a prefix of the distinct items.
pub proof fn lemma_distinct_prefix<A>(s: Seq<A>, k: int)
    requires
        0 <= k <= s.len(),
    ensures
        distinct(s.take(k)).len() <= distinct(s).len(),
        distinct(s).take(distinct(s.take(k)).len() as int) == distinct(s.take(k)),
    decreases s.len() - k,
{
    if k == s.len() {
        assert(s.take(k) =~= s);
    } else {
        lemma_distinct_prefix(s, k + 1);
        assert(s.take(k + 1).drop_last() =~= s.take(k));
        let short = distinct(s.take(k));
        let long = distinct(s.take(k + 1));
        assert(long.take(short.len() as int) =~= short);
        assert(distinct(s).take(short.len() as int) =~= distinct(s).take(long.len() as int).take(
            short.len() as int,
        ));
    }
}

/// In a sequence without duplicates an item has one place only.
pub proof fn lemma_index_of_unique<A>(s: Seq<A>, i: int)
    requires
        s.no_duplicates(),
        0 <= i < s.len(),
    ensures
        s.index_of(s[i]) == i,
{
    let j = s.index_of(s[i]);
    assert(0 <= j < s.len() && s[j] == s[i]);
}

/// The compact index of an item is settled as soon as the item has been
/// seen: later items do not change it.
pub proof fn lemma_compact_index_settled<A>(s: Seq<A>, k: int)
    requires
        0 <= k < s.len(),
    ensures
        0 <= compact_index(s, k) < distinct(s).len(),
        distinct(s)[compact_index(s, k)] == s[k],
        compact_index(s, k) == distinct(s.take(k + 1)).index_of(s[k]),
        compact_index(s, k) < distinct(s.take(k + 1)).len(),
{
    let seen = distinct(s.take(k + 1));
    lemma_distinct(s);
    lemma_distinct(s.take(k + 1));
    lemma_distinct_prefix(s, k + 1);
    assert(s.take(k + 1)[k] == s[k]);
    assert(s.take(k + 1).contains(s[k]));
    assert(seen.contains(s[k]));
    let j = seen.index_of(s[k]);
    assert(0 <= j < seen.len() && seen[j] == s[k]);
    assert(distinct(s).take(seen.len() as int)[j] == s[k]);
    assert(distinct(s)[j] == s[k]);
    lemma_index_of_unique(distinct(s), j);
}

/// The multiplier of the hash.
pub const HASH_PRIME: u64 = 0x0000_0100_0000_01b3;

/// The value the hash starts from.
pub const HASH_OFFSET: u64 = 0xcbf2_9ce4_8422_2325;

/// The hash `h` after one more word.
pub open spec fn mix(h: u64, word: u32) -> u64 {
    (h ^ (word as u64)).wrapping_mul(HASH_PRIME)
}

/// The hash `h` after all of `words`.
pub open spec fn hash_words(h: u64, words: Seq<u32>) -> u64
    decreases words.len(),
{
    if words.len() == 0 {
        h
    } else {
        mix(hash_words(h, words.drop_last()), words.last())
    }
}

/// The hash `h` after an attribute that a vertex may lack.
pub open spec fn hash_optional(h: u64, words: Option<Seq<u32>>) -> u64 {
    match words {
        Some(w) => hash_words(mix(h, 1), w),
        None => mix(h, 0),
    }
}

/// The hash of a vertex identity.
pub open spec fn vertex_hash(v: VertexId) -> u64 {
    hash_optional(hash_optional(hash_words(HASH_OFFSET, v.pos), v.tex), v.norm)
}

fn hash_slice(h: u64, words: &Vec<u32>) -> (out: u64)
    ensures
        out == hash_words(h, words@),
{
    let mut out = h;
    let mut i: usize = 0;
    while i < words.len()
        invariant
            i <= words.len(),
            out == hash_words(h, words@.take(i as int)),
        decreases words.len() - i,
    {
        proof {
            assert(words@.take(i + 1).drop_last() =~= words@.take(i as int));
        }
        out = (out ^ (words[i] as u64)).wrapping_mul(HASH_PRIME);
        i += 1;
    }
    proof {
        assert(words@.take(i as int) =~= words@);
    }
    out
}

fn hash_attribute(h: u64, words: &Option<Vec<u32>>) -> (out: u64)
    ensures
        out == hash_optional(h, optional_scalars(*words)),
{
    match words {
        Some(w) => hash_slice((h ^ 1u64).wrapping_mul(HASH_PRIME), w),
        None => (h ^ 0u64).wrapping_mul(HASH_PRIME),
    }
}

/// The hash of a vertex.
pub fn hash_vertex(v: &Vertex) -> (h: u64)
    ensures
        h == vertex_hash(v@),
{
    let h = hash_slice(HASH_OFFSET, &v.pos);
    let h = hash_attribute(h, &v.tex);
    hash_attribute(h, &v.norm)
}

fn same_scalars(a: &Vec<u32>, b: &Vec<u32>) -> (same: bool)
    ensures
        same == (a@ == b@),
{
    if a.len() != b.len() {
        return false;
    }
    let mut i: usize = 0;
    while i < a.len()
        invariant
            i <= a.len(),
            a.len() == b.len(),
            forall|j: int| 0 <= j < i ==> a@[j] == b@[j],
        decreases a.len() - i,
    {
        if a[i] != b[i] {
            return false;
        }
        i += 1;
    }
    proof {
        assert(a@ =~= b@);
    }
    true
}

fn same_attribute(a: &Option<Vec<u32>>, b: &Option<Vec<u32>>) -> (same: bool)
    ensures
        same == (optional_scalars(*a) == optional_scalars(*b)),
{
    match (a, b) {
        (Some(x), Some(y)) => same_scalars(x, y),
        (None, None) => true,
        _ => false,
    }
}

/// Whether two vertices have the same identity.
pub fn same_vertex(a: &Vertex, b: &Vertex) -> (same: bool)
    ensures
        same == (a@ == b@),
{
    same_scalars(&a.pos, &b.pos) && same_attribute(&a.tex, &b.tex) && same_attribute(
        &a.norm,
        &b.norm,
    )
}

/// The link of a vertex that is the oldest with its hash.
pub const NO_LINK: usize = usize::MAX;

/// The compact index map: the distinct vertices seen so far, in the order in
/// which they were first seen. The index of a vertex is its place in that
/// order.
///
/// Vertices with the same hash form a chain from the newest to the oldest,
/// so a lookup compares a vertex with those of its own hash only.
pub struct IndexMap {
    order: Vec<Vertex>,
    heads: HashMap<u64, usize>,
    links: Vec<usize>,
}

impl View for IndexMap {
    type V = Seq<VertexId>;

    closed spec fn view(&self) -> Seq<VertexId> {
        identities_of(self.order@)
    }
}

impl IndexMap {
    /// The hash of the vertex at index `i`.
    spec fn hash_at(&self, i: int) -> u64 {
        vertex_hash(self.order@[i]@)
    }

    /// The index that the link of vertex `i` names, or -1.
    spec fn older(&self, i: int) -> int {
        if self.links@[i] == NO_LINK {
            -1
        } else {
            self.links@[i] as int
        }
    }

    /// No vertex newer than the head of its hash has the hash of vertex `j`.
    spec fn head_covers(&self, j: int) -> bool {
        &&& self.heads@.contains_key(self.hash_at(j))
        &&& j <= self.heads@[self.hash_at(j)]
    }

    /// The head of each hash is the newest vertex with that hash.
    spec fn heads_wf(&self) -> bool {
        &&& forall|h: u64| #[trigger]
            self.heads@.contains_key(h) ==> {
                &&& self.heads@[h] < self.order@.len()
                &&& self.hash_at(self.heads@[h] as int) == h
            }
        &&& forall|j: int| 0 <= j < self.order@.len() ==> #[trigger] self.head_covers(j)
    }

    /// The link of vertex `j` names the next older vertex with its hash.
    spec fn link_ok(&self, j: int) -> bool {
        &&& -1 <= self.older(j) < j
        &&& self.older(j) >= 0 ==> self.hash_at(self.older(j)) == self.hash_at(j)
        &&& forall|i: int| self.older(j) < i < j ==> #[trigger] self.hash_at(i) != self.hash_at(j)
    }

    /// Every link names the next older vertex with the same hash.
    spec fn links_wf(&self) -> bool {
        &&& self.links@.len() == self.order@.len()
        &&& forall|j: int| 0 <= j < self.order@.len() ==> #[trigger] self.link_ok(j)
    }

    /// No vertex is held twice, and the chains are in order.
    pub closed spec fn wf(&self) -> bool {
        &&& self@.no_duplicates()
        &&& self.heads_wf()
        &&& self.links_wf()
    }

    /// A map that has seen no vertex.
    pub fn new() -> (map: Self)
        ensures
            map.wf(),
            map@ == Seq::<VertexId>::empty(),
    {
        IndexMap { order: Vec::new(), heads: HashMap::new(), links: Vec::new() }
    }

    /// The number of distinct vertices seen so far.
    pub fn len(&self) -> (n: usize)
        ensures
            n == self@.len(),
    {
        self.order.len()
    }

    /// The newest vertex with hash `h`, if there is one.
    fn head_of(&self, h: u64) -> (head: usize)
        requires
            self.wf(),
        ensures
            head == NO_LINK || (head < self.order@.len() && self.hash_at(head as int) == h),
            forall|i: int|
                0 <= i < self.order@.len() && self.hash_at(i) == h ==> head != NO_LINK && i <= head,
    {
        let head: usize = match self.heads.get(&h) {
            Some(p) => *p,
            None => NO_LINK,
        };
        proof {
            assert(self.order@.len() == self.order.len());
            assert forall|i: int| 0 <= i < self.order@.len() && self.hash_at(i) == h implies head
                != NO_LINK && i <= head by {
                assert(self.head_covers(i));
            }
        }
        head
    }

    /// The index of `v`, if the map has seen it.
    fn find(&self, v: &Vertex, h: u64) -> (found: Option<usize>)
        requires
            self.wf(),
            h == vertex_hash(v@),
        ensures
            match found {
                Some(i) => i < self@.len() && self@[i as int] == v@,
                None => !self@.contains(v@),
            },
    {
        let mut cur = self.head_of(h);
        while cur != NO_LINK
            invariant
                self.wf(),
                h == vertex_hash(v@),
                cur == NO_LINK || (cur < self.order@.len() && self.hash_at(cur as int) == h),
                forall|i: int|
                    (if cur == NO_LINK {
                        -1
                    } else {
                        cur as int
                    }) < i < self.order@.len() && self.hash_at(i) == h ==> self.order@[i]@ != v@,
            decreases
                    (if cur == NO_LINK {
                        0
                    } else {
                        cur + 1
                    }),
        {
            if same_vertex(&self.order[cur], v) {
                return Some(cur);
            }
            proof {
                assert(self.link_ok(cur as int));
            }
            cur = self.links[cur];
        }
        proof {
            assert forall|i: int| 0 <= i < self@.len() implies self@[i] != v@ by {
                if self.order@[i]@ == v@ {
                    assert(self.hash_at(i) == h);
                }
            }
        }
        None
    }

    /// Gives a vertex that the map has not seen the next free index.
    fn append(&mut self, v: Vertex, h: u64) -> (index: usize)
        requires
            old(self).wf(),
            h == vertex_hash(v@),
            !old(self)@.contains(v@),
        ensures
            final(self).wf(),
            final(self)@ == old(self)@.push(v@),
            index == old(self)@.len(),
    {
        let head = self.head_of(h);
        let index = self.order.len();
        self.heads.insert(h, index);
        self.links.push(head);
        self.order.push(v);
        proof {
            assert(self@ =~= old(self)@.push(v@));
            assert forall|j: int| 0 <= j < index implies self.hash_at(j) == old(self).hash_at(j)
                && self.older(j) == old(self).older(j) by {}
            assert forall|j: int| 0 <= j < self.order@.len() implies #[trigger] self.link_ok(
                j,
            ) by {
                if j < index {
                    assert(old(self).link_ok(j));
                }
            }
            assert forall|k: u64| #[trigger] self.heads@.contains_key(k) implies {
                &&& self.heads@[k] < self.order@.len()
                &&& self.hash_at(self.heads@[k] as int) == k
            } by {
                if k != h {
                }
            }
            assert forall|j: int| 0 <= j < self.order@.len() implies #[trigger] self.head_covers(
                j,
            ) by {
                if j < index {
                    assert(old(self).head_covers(j));
                }
            }
        }
        index
    }

    /// The index of `v`: the one it has, if the map has seen it; else the
    /// next free one, which it is given.
    pub fn intern(&mut self, v: Vertex) -> (index: usize)
        requires
            old(self).wf(),
        ensures
            final(self).wf(),
            old(self)@.contains(v@) ==> final(self)@ == old(self)@,
            !old(self)@.contains(v@) ==> final(self)@ == old(self)@.push(v@),
            index < final(self)@.len(),
            final(self)@[index as int] == v@,
    {
        let h = hash_vertex(&v);
        match self.find(&v, h) {
            Some(index) => index,
            None => self.append(v, h),
        }
    }

    /// The distinct vertices, in the order in which they were first seen.
    pub fn into_vertices(self) -> (vertices: Vec<Vertex>)
        ensures
            identities_of(vertices@) == self@,
    {
        self.order
    }
}

} // verus!
