//! The chunk registry: which chunks are materialized, which entities
//! each of them owns, and the pass that brings the loaded set in line
//! with the player's position.

use crate::chunks::{diff, lemma_push_contains, required_chunks, required_set, ChunkSet};
use crate::hex::{ChunkIndex, TileCoordinate};
use vstd::prelude::*;

verus! {

/// A materialized chunk with the handles of the entities that show it.
#[derive(Debug, PartialEq, Eq)]
pub struct LoadedChunk {
    pub index: ChunkIndex,
    pub entities: Vec<u64>,
}

/// The loaded chunks, each with the entities it owns. No chunk is held
/// twice, and every entity on record belongs to a loaded chunk.
#[derive(Debug)]
pub struct ChunkRegistry {
    chunks: Vec<LoadedChunk>,
}

/// What the host has to carry out after a registry pass.
#[derive(Debug, PartialEq, Eq)]
pub struct ChunkActions {
    /// Chunks that left the view, with the entities to destroy.
    pub unload: Vec<LoadedChunk>,
    /// Chunks that entered the view, to be materialized.
    pub load: Vec<ChunkIndex>,
}

spec fn has_index(s: Seq<LoadedChunk>, c: ChunkIndex) -> bool {
    exists|i: int| 0 <= i < s.len() && (#[trigger] s[i]).index == c
}

spec fn position(s: Seq<LoadedChunk>, c: ChunkIndex) -> int {
    choose|i: int| 0 <= i < s.len() && (#[trigger] s[i]).index == c
}

spec fn distinct_indices(s: Seq<LoadedChunk>) -> bool {
    forall|i: int, j: int|
        0 <= i < j < s.len() ==> (#[trigger] s[i]).index != (#[trigger] s[j]).index
}

spec fn as_map(s: Seq<LoadedChunk>) -> Map<ChunkIndex, Seq<u64>> {
    Map::new(|c: ChunkIndex| has_index(s, c), |c: ChunkIndex| s[position(s, c)].entities@)
}

proof fn lemma_position(s: Seq<LoadedChunk>, k: int)
    requires
        distinct_indices(s),
        0 <= k < s.len(),
    ensures
        has_index(s, s[k].index),
        position(s, s[k].index) == k,
        as_map(s)[s[k].index] == s[k].entities@,
{
    let c = s[k].index;
    let p = position(s, c);
    assert(0 <= p < s.len() && s[p].index == c);
    if p < k {
        assert(s[p].index != s[k].index);
    } else if k < p {
        assert(s[k].index != s[p].index);
    }
}

proof fn lemma_push(s: Seq<LoadedChunk>, x: LoadedChunk)
    requires
        distinct_indices(s),
        !has_index(s, x.index),
    ensures
        distinct_indices(s.push(x)),
        as_map(s.push(x)) == as_map(s).insert(x.index, x.entities@),
{
    let t = s.push(x);
    assert forall|i: int, j: int| 0 <= i < j < t.len() implies (#[trigger] t[i]).index != (
    #[trigger] t[j]).index by {
        if j < s.len() {
            assert(s[i].index != s[j].index);
        } else {
            assert(s[i].index != x.index);
        }
    }
    assert forall|c: ChunkIndex| has_index(t, c) <==> has_index(s, c) || c == x.index by {
        if has_index(t, c) {
            let i = choose|i: int| 0 <= i < t.len() && (#[trigger] t[i]).index == c;
            if i < s.len() {
                assert(s[i].index == c);
            }
        }
        if has_index(s, c) {
            let i = choose|i: int| 0 <= i < s.len() && (#[trigger] s[i]).index == c;
            assert(t[i].index == c);
        }
        if c == x.index {
            assert(t[s.len() as int].index == c);
        }
    }
    assert forall|c: ChunkIndex| has_index(t, c) implies #[trigger] as_map(t)[c] == as_map(
        s,
    ).insert(x.index, x.entities@)[c] by {
        let p = position(t, c);
        assert(0 <= p < t.len() && t[p].index == c);
        lemma_position(t, p);
        if p < s.len() {
            lemma_position(s, p);
        }
    }
    assert(as_map(t) =~= as_map(s).insert(x.index, x.entities@));
}

proof fn lemma_remove(s: Seq<LoadedChunk>, k: int)
    requires
        distinct_indices(s),
        0 <= k < s.len(),
    ensures
        distinct_indices(s.remove(k)),
        !has_index(s.remove(k), s[k].index),
        as_map(s.remove(k)) == as_map(s).remove(s[k].index),
{
    let t = s.remove(k);
    let gone = s[k].index;
    assert forall|i: int| 0 <= i < t.len() implies (#[trigger] t[i]) == s[if i < k {
        i
    } else {
        i + 1
    }] by {}
    assert forall|i: int, j: int| 0 <= i < j < t.len() implies (#[trigger] t[i]).index != (
    #[trigger] t[j]).index by {
        let a = if i < k {
            i
        } else {
            i + 1
        };
        let b = if j < k {
            j
        } else {
            j + 1
        };
        assert(s[a].index != s[b].index);
    }
    assert forall|c: ChunkIndex| has_index(t, c) <==> has_index(s, c) && c != gone by {
        if has_index(t, c) {
            let i = choose|i: int| 0 <= i < t.len() && (#[trigger] t[i]).index == c;
            let a = if i < k {
                i
            } else {
                i + 1
            };
            assert(s[a].index == c);
            if a < k {
                assert(s[a].index != s[k].index);
            } else {
                assert(s[k].index != s[a].index);
            }
        }
        if has_index(s, c) && c != gone {
            let i = choose|i: int| 0 <= i < s.len() && (#[trigger] s[i]).index == c;
            if i < k {
                assert(t[i].index == c);
            } else {
                assert(t[i - 1].index == c);
            }
        }
    }
    assert forall|c: ChunkIndex| has_index(t, c) implies #[trigger] as_map(t)[c] == as_map(
        s,
    ).remove(gone)[c] by {
        let p = position(t, c);
        assert(0 <= p < t.len() && t[p].index == c);
        lemma_position(t, p);
        let a = if p < k {
            p
        } else {
            p + 1
        };
        lemma_position(s, a);
    }
    assert(as_map(t) =~= as_map(s).remove(gone));
}

impl View for ChunkRegistry {
    type V = Map<ChunkIndex, Seq<u64>>;

    /// The entities owned by each loaded chunk.
    closed spec fn view(&self) -> Map<ChunkIndex, Seq<u64>> {
        as_map(self.chunks@)
    }
}

impl ChunkRegistry {
    #[verifier::type_invariant]
    spec fn well_formed(&self) -> bool {
        distinct_indices(self.chunks@)
    }

    /// The set of loaded chunks.
    pub open spec fn loaded(&self) -> Set<ChunkIndex> {
        self@.dom()
    }

    /// A registry with nothing loaded.
    pub fn new() -> (registry: ChunkRegistry)
        ensures
            registry@ == Map::<ChunkIndex, Seq<u64>>::empty(),
    {
        let registry = ChunkRegistry { chunks: Vec::new() };
        assert(registry@ =~= Map::<ChunkIndex, Seq<u64>>::empty());
        registry
    }

    fn find(&self, c: ChunkIndex) -> (found: Option<usize>)
        ensures
            found is Some <==> has_index(self.chunks@, c),
            found matches Some(k) ==> k < self.chunks.len() && self.chunks@[k as int].index == c,
    {
        let n: usize = self.chunks.len();
        let mut i: usize = 0;
        while i < n
            invariant
                n == self.chunks.len(),
                i <= n,
                forall|j: int| 0 <= j < i ==> (#[trigger] self.chunks@[j]).index != c,
            decreases n - i,
        {
            if self.chunks[i].index == c {
                return Some(i);
            }
            i += 1;
        }
        None
    }

    /// Number of loaded chunks.
    pub fn len(&self) -> (n: usize)
        ensures
            n == self.loaded().len(),
            self.loaded().finite(),
    {
        proof {
            use_type_invariant(self);
            let indices = self.chunks@.map_values(|chunk: LoadedChunk| chunk.index);
            assert forall|i: int, j: int|
                0 <= i < indices.len() && 0 <= j < indices.len() && i != j implies indices[i]
                != indices[j] by {
                if i < j {
                    assert(self.chunks@[i].index != self.chunks@[j].index);
                } else {
                    assert(self.chunks@[j].index != self.chunks@[i].index);
                }
            }
            assert forall|c: ChunkIndex| indices.to_set().contains(c) <==> self.loaded().contains(
                c,
            ) by {
                if indices.contains(c) {
                    let i = choose|i: int| 0 <= i < indices.len() && indices[i] == c;
                    assert(self.chunks@[i].index == c);
                }
                if has_index(self.chunks@, c) {
                    let i = choose|i: int|
                        0 <= i < self.chunks@.len() && (#[trigger] self.chunks@[i]).index == c;
                    assert(indices[i] == c);
                }
            }
            assert(indices.to_set() =~= self.loaded());
            indices.unique_seq_to_set();
            vstd::seq_lib::seq_to_set_is_finite(indices);
        }
        self.chunks.len()
    }

    /// Whether chunk `c` is loaded.
    pub fn is_loaded(&self, c: ChunkIndex) -> (b: bool)
        ensures
            b == self.loaded().contains(c),
    {
        self.find(c).is_some()
    }

    /// The set of loaded chunks.
    pub fn loaded_set(&self) -> (set: ChunkSet)
        ensures
            set@ == self.loaded(),
    {
        proof {
            use_type_invariant(self);
        }
        let n: usize = self.chunks.len();
        let mut set = ChunkSet::new();
        let mut i: usize = 0;
        while i < n
            invariant
                n == self.chunks.len(),
                i <= n,
                forall|c: ChunkIndex|
                    set@.contains(c) <==> exists|j: int|
                        0 <= j < i && (#[trigger] self.chunks@[j]).index == c,
            decreases n - i,
        {
            set.insert(self.chunks[i].index);
            i += 1;
        }
        assert(set@ =~= self.loaded());
        set
    }

    /// The entities on record for chunk `c`, if it is loaded.
    pub fn entities_of(&self, c: ChunkIndex) -> (entities: Option<Vec<u64>>)
        ensures
            entities is Some <==> self.loaded().contains(c),
            entities matches Some(list) ==> list@ == self@[c],
    {
        proof {
            use_type_invariant(self);
        }
        match self.find(c) {
            Some(k) => {
                proof {
                    lemma_position(self.chunks@, k as int);
                }
                let source = &self.chunks[k].entities;
                let n: usize = source.len();
                let mut list: Vec<u64> = Vec::new();
                let mut i: usize = 0;
                while i < n
                    invariant
                        n == source.len(),
                        i <= n,
                        list@ == source@.take(i as int),
                    decreases n - i,
                {
                    list.push(source[i]);
                    i += 1;
                }
                Some(list)
            },
            None => None,
        }
    }

    /// Marks chunk `c` as loaded, with no entity yet; tells whether it
    /// was new. A chunk that is already loaded keeps its entities.
    pub fn insert_chunk(&mut self, c: ChunkIndex) -> (added: bool)
        ensures
            added == !old(self).loaded().contains(c),
            added ==> final(self)@ == old(self)@.insert(c, Seq::<u64>::empty()),
            !added ==> final(self)@ == old(self)@,
    {
        proof {
            use_type_invariant(&*self);
        }
        if self.find(c).is_some() {
            false
        } else {
            let chunk = LoadedChunk { index: c, entities: Vec::new() };
            proof {
                lemma_push(self.chunks@, chunk);
            }
            let mut chunks: Vec<LoadedChunk> = Vec::new();
            std::mem::swap(&mut chunks, &mut self.chunks);
            chunks.push(chunk);
            self.chunks = chunks;
            true
        }
    }

    /// Takes chunk `c` out of the loaded set and hands back the entities
    /// it owned, which are to be destroyed.
    pub fn remove_chunk(&mut self, c: ChunkIndex) -> (entities: Option<Vec<u64>>)
        ensures
            entities is Some <==> old(self).loaded().contains(c),
            entities matches Some(list) ==> list@ == old(self)@[c],
            final(self)@ == old(self)@.remove(c),
    {
        proof {
            use_type_invariant(&*self);
        }
        match self.find(c) {
            Some(k) => {
                proof {
                    lemma_position(self.chunks@, k as int);
                    lemma_remove(self.chunks@, k as int);
                }
                let mut chunks: Vec<LoadedChunk> = Vec::new();
                std::mem::swap(&mut chunks, &mut self.chunks);
                let chunk = chunks.remove(k);
                self.chunks = chunks;
                Some(chunk.entities)
            },
            None => None,
        }
    }

    /// Puts the entities that were spawned for chunk `c` on record,
    /// after those already there. A chunk that is not loaded takes no
    /// entity: the registry stays as it is and the answer is `false`.
    pub fn attach_entities(&mut self, c: ChunkIndex, entities: Vec<u64>) -> (attached: bool)
        ensures
            attached == old(self).loaded().contains(c),
            attached ==> final(self)@ == old(self)@.insert(c, old(self)@[c] + entities@),
            !attached ==> final(self)@ == old(self)@,
    {
        proof {
            use_type_invariant(&*self);
        }
        match self.find(c) {
            Some(k) => {
                proof {
                    lemma_position(self.chunks@, k as int);
                    lemma_remove(self.chunks@, k as int);
                }
                let mut chunks: Vec<LoadedChunk> = Vec::new();
                std::mem::swap(&mut chunks, &mut self.chunks);
                let mut chunk = chunks.remove(k);
                let mut more = entities;
                chunk.entities.append(&mut more);
                proof {
                    lemma_push(chunks@, chunk);
                }
                chunks.push(chunk);
                self.chunks = chunks;
                true
            },
            None => false,
        }
    }

    /// One registry pass. The loaded set becomes the hex-shaped region
    /// of radius `view_distance` around the chunk in which `player`
    /// stands. Chunks that stay keep their entities; chunks that enter
    /// start with none and are listed in `load`; chunks that leave are
    /// listed in `unload` with the entities they owned.
    pub fn manage_chunks(&mut self, player: TileCoordinate, view_distance: u32) -> (actions:
        ChunkActions)
        ensures
            final(self)@ == after_pass(
                old(self)@,
                required_chunks(player.chunk_index(), view_distance as nat),
            ),
            final(self).loaded() == required_chunks(player.chunk_index(), view_distance as nat),
            loads_exactly(
                actions.load@,
                required_chunks(player.chunk_index(), view_distance as nat).difference(
                    old(self).loaded(),
                ),
            ),
            unloads_exactly(
                actions.unload@,
                old(self)@,
                old(self).loaded().difference(
                    required_chunks(player.chunk_index(), view_distance as nat),
                ),
            ),
            old(self).loaded() == required_chunks(player.chunk_index(), view_distance as nat)
                ==> final(self)@ == old(self)@ && actions.load@.len() == 0 && actions.unload@.len()
                == 0,
    {
        let center = player.chunk();
        let required = required_set(center, view_distance);
        let loaded = self.loaded_set();
        let changes = diff(&loaded, &required);
        let ghost before = self@;
        let ghost leaving = changes.to_unload.order();
        let ghost entering = changes.to_load.order();
        proof {
            changes.to_unload.lemma_order();
            changes.to_load.lemma_order();
        }

        let mut unload: Vec<LoadedChunk> = Vec::new();
        let n: usize = changes.to_unload.len();
        let mut i: usize = 0;
        while i < n
            invariant
                n == leaving.len(),
                i <= n,
                leaving == changes.to_unload.order(),
                leaving.no_duplicates(),
                leaving.to_set() == before.dom().difference(required@),
                unload@.len() == i,
                forall|j: int|
                    0 <= j < i ==> (#[trigger] unload@[j]).index == leaving[j]
                        && unload@[j].entities@ == before[leaving[j]],
                self@.dom() == before.dom().difference(leaving.take(i as int).to_set()),
                forall|c: ChunkIndex| self@.dom().contains(c) ==> #[trigger] self@[c] == before[c],
            decreases n - i,
        {
            let c = changes.to_unload.at(i);
            proof {
                assert(leaving.to_set().contains(c));
                assert(leaving.take(i + 1) =~= leaving.take(i as int).push(c));
                lemma_push_contains(leaving.take(i as int), c);
            }
            let entities = match self.remove_chunk(c) {
                Some(list) => list,
                None => Vec::new(),
            };
            unload.push(LoadedChunk { index: c, entities });
            i += 1;
        }
        proof {
            assert(leaving.take(n as int) =~= leaving);
        }
        let ghost kept = self@;

        let mut load: Vec<ChunkIndex> = Vec::new();
        let m: usize = changes.to_load.len();
        let mut k: usize = 0;
        while k < m
            invariant
                m == entering.len(),
                k <= m,
                entering == changes.to_load.order(),
                entering.no_duplicates(),
                entering.to_set() == required@.difference(before.dom()),
                kept.dom() == before.dom().intersect(required@),
                load@ == entering.take(k as int),
                self@.dom() == kept.dom().union(entering.take(k as int).to_set()),
                forall|c: ChunkIndex|
                    self@.dom().contains(c) ==> #[trigger] self@[c] == (if kept.dom().contains(c) {
                        kept[c]
                    } else {
                        Seq::<u64>::empty()
                    }),
            decreases m - k,
        {
            let c = changes.to_load.at(k);
            proof {
                assert(entering.to_set().contains(c));
                assert(entering.take(k + 1) =~= entering.take(k as int).push(c));
                lemma_push_contains(entering.take(k as int), c);
            }
            self.insert_chunk(c);
            load.push(c);
            k += 1;
        }
        proof {
            assert(entering.take(m as int) =~= entering);
            assert forall|c: ChunkIndex|
                before.dom().difference(required@).contains(c) implies exists|j: int|
                0 <= j < unload@.len() && (#[trigger] unload@[j]).index == c by {
                let j = choose|j: int| 0 <= j < leaving.len() && leaving[j] == c;
                assert(unload@[j].index == c);
            }
            if before.dom() == required@ {
                if leaving.len() > 0 {
                    assert(leaving.to_set().contains(leaving[0]));
                }
                if entering.len() > 0 {
                    assert(entering.to_set().contains(entering[0]));
                }
            }
        }
        ChunkActions { unload, load }
    }

    /// The registry at start-up: the region around the origin chunk is
    /// loaded, no entity is on record yet, and every loaded chunk is
    /// listed for materialization.
    pub fn load_initial_chunks(view_distance: u32) -> (start: (ChunkRegistry, Vec<ChunkIndex>))
        ensures
            start.0@ == after_pass(
                Map::empty(),
                required_chunks(ChunkIndex { cq: 0, cr: 0 }, view_distance as nat),
            ),
            start.0.loaded() == required_chunks(ChunkIndex { cq: 0, cr: 0 }, view_distance as nat),
            loads_exactly(
                start.1@,
                required_chunks(ChunkIndex { cq: 0, cr: 0 }, view_distance as nat),
            ),
    {
        let mut registry = ChunkRegistry::new();
        let actions = registry.manage_chunks(TileCoordinate { q: 0, r: 0 }, view_distance);
        proof {
            let required = required_chunks(ChunkIndex { cq: 0, cr: 0 }, view_distance as nat);
            assert(required.difference(Set::<ChunkIndex>::empty()) =~= required);
        }
        (registry, actions.load)
    }
}

/// The registry after a pass that has to leave `required` loaded: every
/// required chunk is on record, with the entities it had if it was
/// loaded before and with none if it was not; no other chunk is.
pub open spec fn after_pass(
    before: Map<ChunkIndex, Seq<u64>>,
    required: Set<ChunkIndex>,
) -> Map<ChunkIndex, Seq<u64>> {
    Map::new(
        |c: ChunkIndex| required.contains(c),
        |c: ChunkIndex|
            if before.dom().contains(c) {
                before[c]
            } else {
                Seq::<u64>::empty()
            },
    )
}

/// A pass leaves exactly the required chunks loaded, whatever was
/// loaded before; a second pass for the same region changes nothing.
pub proof fn lemma_pass_converges(before: Map<ChunkIndex, Seq<u64>>, required: Set<ChunkIndex>)
    ensures
        after_pass(before, required).dom() == required,
        after_pass(after_pass(before, required), required) == after_pass(before, required),
        before.dom() == required ==> after_pass(before, required) == before,
{
}

/// `load` lists each chunk of `chunks` once, and nothing else.
pub open spec fn loads_exactly(load: Seq<ChunkIndex>, chunks: Set<ChunkIndex>) -> bool {
    load.no_duplicates() && load.to_set() == chunks
}

/// `unload` lists each chunk of `chunks` once, and nothing else, each
/// with the entities that `before` had on record for it.
pub open spec fn unloads_exactly(
    unload: Seq<LoadedChunk>,
    before: Map<ChunkIndex, Seq<u64>>,
    chunks: Set<ChunkIndex>,
) -> bool {
    &&& forall|i: int, j: int|
        0 <= i < j < unload.len() ==> (#[trigger] unload[i]).index != (#[trigger] unload[j]).index
    &&& forall|i: int|
        0 <= i < unload.len() ==> chunks.contains((#[trigger] unload[i]).index)
            && unload[i].entities@ == before[unload[i].index]
    &&& forall|c: ChunkIndex|
        chunks.contains(c) ==> exists|i: int|
            0 <= i < unload.len() && (#[trigger] unload[i]).index == c
}

} // verus!
