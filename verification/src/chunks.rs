//! Sets of chunks: the hex-shaped region required around a player, and
//! the difference between what is loaded and what is required.

use crate::hex::{abs, hex_norm, ChunkIndex};
use vstd::prelude::*;

verus! {

/// Whether chunk `c` is within `distance` of `center`, by the hex
/// distance in chunk space: each of the three cube differences is at
/// most `distance` in size.
pub open spec fn in_view(center: ChunkIndex, distance: int, c: ChunkIndex) -> bool {
    &&& abs(c.cq - center.cq) <= distance
    &&& abs(c.cr - center.cr) <= distance
    &&& abs((c.cq - center.cq) + (c.cr - center.cr)) <= distance
}

/// The chunks that must be loaded when the player stands in `center`.
pub open spec fn required_chunks(center: ChunkIndex, distance: nat) -> Set<ChunkIndex> {
    Set::new(|c: ChunkIndex| in_view(center, distance as int, c))
}

/// Whether `a` comes before `b` when chunks are listed column by
/// column: by `cq`, and by `cr` within one `cq`.
pub open spec fn precedes(a: ChunkIndex, b: ChunkIndex) -> bool {
    a.cq < b.cq || (a.cq == b.cq && a.cr < b.cr)
}

/// The test that a chunk is not in `other`.
pub open spec fn outside(other: Set<ChunkIndex>) -> spec_fn(ChunkIndex) -> bool {
    |c: ChunkIndex| !other.contains(c)
}

/// A finite set of chunks. No chunk is held twice.
#[derive(Debug)]
pub struct ChunkSet {
    items: Vec<ChunkIndex>,
}

impl View for ChunkSet {
    type V = Set<ChunkIndex>;

    closed spec fn view(&self) -> Set<ChunkIndex> {
        self.items@.to_set()
    }
}

/// What has to change for the loaded set to become the required one.
#[derive(Debug)]
pub struct ChunkDiff {
    /// Required and not loaded.
    pub to_load: ChunkSet,
    /// Loaded and no longer required.
    pub to_unload: ChunkSet,
}

pub(crate) proof fn lemma_push_contains(s: Seq<ChunkIndex>, x: ChunkIndex)
    ensures
        forall|c: ChunkIndex| #[trigger] s.push(x).contains(c) <==> s.contains(c) || c == x,
        s.no_duplicates() && !s.contains(x) ==> s.push(x).no_duplicates(),
        s.push(x).to_set() == s.to_set().insert(x),
{
    let t = s.push(x);
    assert forall|c: ChunkIndex| #[trigger] t.contains(c) <==> s.contains(c) || c == x by {
        if s.contains(c) {
            let i = choose|i: int| 0 <= i < s.len() && s[i] == c;
            assert(t[i] == c);
        }
        if c == x {
            assert(t[s.len() as int] == c);
        }
    }
}

proof fn lemma_remove_contains(s: Seq<ChunkIndex>, k: int)
    requires
        s.no_duplicates(),
        0 <= k < s.len(),
    ensures
        s.remove(k).no_duplicates(),
        forall|c: ChunkIndex| #[trigger] s.remove(k).contains(c) <==> s.contains(c) && c != s[k],
        s.remove(k).to_set() == s.to_set().remove(s[k]),
{
    let t = s.remove(k);
    assert forall|c: ChunkIndex| #[trigger] t.contains(c) <==> s.contains(c) && c != s[k] by {
        if s.contains(c) && c != s[k] {
            let i = choose|i: int| 0 <= i < s.len() && s[i] == c;
            if i < k {
                assert(t[i] == c);
            } else {
                assert(t[i - 1] == c);
            }
        }
    }
}

impl ChunkSet {
    #[verifier::type_invariant]
    spec fn distinct(&self) -> bool {
        self.items@.no_duplicates()
    }

    /// The chunks in the order in which they were inserted.
    pub closed spec fn order(&self) -> Seq<ChunkIndex> {
        self.items@
    }

    /// The order lists each chunk of the set once.
    pub proof fn lemma_order(&self)
        ensures
            self.order().to_set() == self@,
            self@.finite(),
    {
        vstd::seq_lib::seq_to_set_is_finite(self.items@);
    }

    /// The empty set.
    pub fn new() -> (s: ChunkSet)
        ensures
            s@ == Set::<ChunkIndex>::empty(),
            s.order() == Seq::<ChunkIndex>::empty(),
    {
        let s = ChunkSet { items: Vec::new() };
        s
    }

    /// Number of chunks in the set, which is the length of its order:
    /// no chunk stands twice in it.
    pub fn len(&self) -> (n: usize)
        ensures
            n == self@.len(),
            n == self.order().len(),
            self.order().no_duplicates(),
    {
        proof {
            use_type_invariant(self);
            self.items@.unique_seq_to_set();
        }
        self.items.len()
    }

    /// Whether the set holds no chunk.
    pub fn is_empty(&self) -> (b: bool)
        ensures
            b == (self@ == Set::<ChunkIndex>::empty()),
    {
        let n: usize = self.items.len();
        proof {
            if n == 0 {
                assert(self.items@.to_set() =~= Set::<ChunkIndex>::empty());
            } else {
                assert(self.items@.to_set().contains(self.items@[0]));
            }
        }
        n == 0
    }

    /// The chunk at place `i` of the order, if the order is that long.
    pub fn get(&self, i: usize) -> (c: Option<ChunkIndex>)
        ensures
            c == (if i < self.order().len() {
                Some(self.order()[i as int])
            } else {
                None
            }),
    {
        if i < self.items.len() {
            Some(self.items[i])
        } else {
            None
        }
    }

    /// The chunk at place `i` of the order, which must exist.
    pub(crate) fn at(&self, i: usize) -> (c: ChunkIndex)
        requires
            i < self.order().len(),
        ensures
            c == self.order()[i as int],
            self@.contains(c),
    {
        self.items[i]
    }

    /// The chunks of the set, in their order.
    pub fn to_vec(&self) -> (list: Vec<ChunkIndex>)
        ensures
            list@ == self.order(),
            list@.no_duplicates(),
            list@.to_set() == self@,
    {
        proof {
            use_type_invariant(self);
        }
        let n: usize = self.items.len();
        let mut list: Vec<ChunkIndex> = Vec::new();
        let mut i: usize = 0;
        while i < n
            invariant
                n == self.items.len(),
                i <= n,
                list@ == self.items@.take(i as int),
            decreases n - i,
        {
            list.push(self.items[i]);
            i += 1;
        }
        assert(self.items@.take(n as int) =~= self.items@);
        list
    }

    /// Whether `c` is in the set.
    pub fn contains(&self, c: ChunkIndex) -> (b: bool)
        ensures
            b == self@.contains(c),
    {
        let n: usize = self.items.len();
        let mut i: usize = 0;
        while i < n
            invariant
                n == self.items.len(),
                i <= n,
                forall|j: int| 0 <= j < i ==> self.items@[j] != c,
            decreases n - i,
        {
            if self.items[i] == c {
                return true;
            }
            i += 1;
        }
        false
    }

    /// Adds `c`; tells whether it was new.
    pub fn insert(&mut self, c: ChunkIndex) -> (added: bool)
        ensures
            final(self)@ == old(self)@.insert(c),
            added == !old(self)@.contains(c),
            added ==> final(self).order() == old(self).order().push(c),
            !added ==> final(self).order() == old(self).order(),
    {
        proof {
            use_type_invariant(&*self);
            lemma_push_contains(self.items@, c);
        }
        if self.contains(c) {
            false
        } else {
            let mut items: Vec<ChunkIndex> = Vec::new();
            std::mem::swap(&mut items, &mut self.items);
            items.push(c);
            self.items = items;
            true
        }
    }

    /// Takes `c` out; tells whether it was there.
    pub fn remove(&mut self, c: ChunkIndex) -> (removed: bool)
        ensures
            final(self)@ == old(self)@.remove(c),
            removed == old(self)@.contains(c),
            removed ==> exists|k: int|
                0 <= k < old(self).order().len() && old(self).order()[k] == c
                    && final(self).order() == old(self).order().remove(k),
            !removed ==> final(self).order() == old(self).order(),
    {
        proof {
            use_type_invariant(&*self);
        }
        let n: usize = self.items.len();
        let mut i: usize = 0;
        while i < n
            invariant
                n == self.items.len(),
                i <= n,
                self.items@ == old(self).items@,
                self.items@.no_duplicates(),
                forall|j: int| 0 <= j < i ==> self.items@[j] != c,
            decreases n - i,
        {
            if self.items[i] == c {
                proof {
                    lemma_remove_contains(self.items@, i as int);
                }
                let mut items: Vec<ChunkIndex> = Vec::new();
                std::mem::swap(&mut items, &mut self.items);
                items.remove(i);
                self.items = items;
                assert(old(self).order()[i as int] == c && self.order() == old(
                    self,
                ).order().remove(i as int));
                return true;
            }
            i += 1;
        }
        false
    }

    /// The chunks of this set that are not in `other`, in this set's
    /// order.
    pub fn without(&self, other: &ChunkSet) -> (rest: ChunkSet)
        ensures
            rest@ == self@.difference(other@),
            rest.order() == self.order().filter(outside(other@)),
    {
        proof {
            use_type_invariant(self);
        }
        let ghost keep = outside(other@);
        let n: usize = self.items.len();
        let mut items: Vec<ChunkIndex> = Vec::new();
        let mut i: usize = 0;
        proof {
            reveal(Seq::filter);
        }
        while i < n
            invariant
                n == self.items.len(),
                i <= n,
                keep == outside(other@),
                self.items@.no_duplicates(),
                items@.no_duplicates(),
                items@ == self.items@.take(i as int).filter(keep),
                forall|c: ChunkIndex|
                    items@.contains(c) <==> !other@.contains(c) && exists|j: int|
                        0 <= j < i && self.items@[j] == c,
            decreases n - i,
        {
            let c = self.items[i];
            proof {
                assert(self.items@.take(i + 1) =~= self.items@.take(i as int).push(c));
                self.items@.take(i as int).lemma_filter_push(c, keep);
            }
            if !other.contains(c) {
                proof {
                    lemma_push_contains(items@, c);
                }
                items.push(c);
            }
            i += 1;
        }
        assert(self.items@.take(n as int) =~= self.items@);
        let rest = ChunkSet { items };
        rest
    }

    /// Whether both sets hold the same chunks.
    pub fn same_as(&self, other: &ChunkSet) -> (b: bool)
        ensures
            b == (self@ == other@),
    {
        if self.len() != other.len() {
            return false;
        }
        let n: usize = self.items.len();
        let mut i: usize = 0;
        while i < n
            invariant
                n == self.items.len(),
                i <= n,
                forall|j: int| 0 <= j < i ==> other@.contains(self.items@[j]),
            decreases n - i,
        {
            if !other.contains(self.items[i]) {
                return false;
            }
            i += 1;
        }
        proof {
            use_type_invariant(self);
            use_type_invariant(other);
            self.lemma_order();
            other.lemma_order();
            vstd::set_lib::lemma_subset_equality(self@, other@);
        }
        true
    }
}

/// The chunks that must be loaded around `center`: those within
/// `view_distance` of it by the hex distance in chunk space.
pub fn required_set(center: ChunkIndex, view_distance: u32) -> (required: ChunkSet)
    ensures
        required@ == required_chunks(center, view_distance as nat),
        required@.contains(center),
        required.order().len() <= (2 * view_distance + 1) * (2 * view_distance + 1),
        forall|i: int, j: int|
            0 <= i < j < required.order().len() ==> precedes(
                #[trigger] required.order()[i],
                #[trigger] required.order()[j],
            ),
{
    let d: i64 = view_distance as i64;
    let pcq: i64 = center.cq as i64;
    let pcr: i64 = center.cr as i64;
    let lo_q: i64 = if pcq - d < i32::MIN as i64 { i32::MIN as i64 } else { pcq - d };
    let hi_q: i64 = if pcq + d > i32::MAX as i64 { i32::MAX as i64 } else { pcq + d };
    let lo_r: i64 = if pcr - d < i32::MIN as i64 { i32::MIN as i64 } else { pcr - d };
    let hi_r: i64 = if pcr + d > i32::MAX as i64 { i32::MAX as i64 } else { pcr + d };
    let ghost width = hi_r - lo_r + 1;
    let mut items: Vec<ChunkIndex> = Vec::new();
    let mut q: i64 = lo_q;
    assert((q - lo_q) * width == 0) by (nonlinear_arith)
        requires
            q == lo_q,
    ;
    while q <= hi_q
        invariant
            width == hi_r - lo_r + 1,
            items@.len() <= (q - lo_q) * width,
            d == view_distance,
            pcq == center.cq,
            pcr == center.cr,
            lo_q == (if pcq - d < i32::MIN { i32::MIN as int } else { pcq - d }),
            hi_q == (if pcq + d > i32::MAX { i32::MAX as int } else { pcq + d }),
            lo_r == (if pcr - d < i32::MIN { i32::MIN as int } else { pcr - d }),
            hi_r == (if pcr + d > i32::MAX { i32::MAX as int } else { pcr + d }),
            lo_q <= q <= hi_q + 1,
            items@.no_duplicates(),
            forall|c: ChunkIndex|
                items@.contains(c) <==> in_view(center, d as int, c) && c.cq < q,
            forall|i: int, j: int|
                0 <= i < j < items@.len() ==> precedes(#[trigger] items@[i], #[trigger] items@[j]),
        decreases hi_q + 1 - q,
    {
        assert((q + 1 - lo_q) * width == (q - lo_q) * width + width) by (nonlinear_arith);
        let mut r: i64 = lo_r;
        while r <= hi_r
            invariant
                width == hi_r - lo_r + 1,
                items@.len() <= (q - lo_q) * width + (r - lo_r),
                (q + 1 - lo_q) * width == (q - lo_q) * width + width,
                d == view_distance,
                pcq == center.cq,
                pcr == center.cr,
                lo_r == (if pcr - d < i32::MIN { i32::MIN as int } else { pcr - d }),
                hi_r == (if pcr + d > i32::MAX { i32::MAX as int } else { pcr + d }),
                i32::MIN <= q <= i32::MAX,
                lo_r <= r <= hi_r + 1,
                items@.no_duplicates(),
                forall|c: ChunkIndex|
                    items@.contains(c) <==> in_view(center, d as int, c) && (c.cq < q || (c.cq == q
                        && c.cr < r)),
                forall|i: int, j: int|
                    0 <= i < j < items@.len() ==> precedes(
                        #[trigger] items@[i],
                        #[trigger] items@[j],
                    ),
            decreases hi_r + 1 - r,
        {
            let dq: i64 = q - pcq;
            let dr: i64 = r - pcr;
            let ds: i64 = dq + dr;
            if -d <= dq && dq <= d && -d <= dr && dr <= d && -d <= ds && ds <= d {
                let c = ChunkIndex { cq: q as i32, cr: r as i32 };
                proof {
                    lemma_push_contains(items@, c);
                    assert forall|i: int| 0 <= i < items@.len() implies precedes(
                        #[trigger] items@[i],
                        c,
                    ) by {
                        assert(items@.contains(items@[i]));
                    }
                }
                items.push(c);
            }
            r += 1;
        }
        q += 1;
    }
    proof {
        let side = 2 * d + 1;
        assert((q - lo_q) * width <= side * side) by (nonlinear_arith)
            requires
                0 <= q - lo_q <= side,
                0 <= width <= side,
        ;
    }
    let required = ChunkSet { items };
    required
}

/// The two set differences between what is loaded and what is
/// required: `to_load` is required and not loaded, `to_unload` is
/// loaded and not required.
pub fn diff(loaded: &ChunkSet, required: &ChunkSet) -> (d: ChunkDiff)
    ensures
        d.to_load@ == required@.difference(loaded@),
        d.to_unload@ == loaded@.difference(required@),
        d.to_load.order() == required.order().filter(outside(loaded@)),
        d.to_unload.order() == loaded.order().filter(outside(required@)),
        loaded@.difference(d.to_unload@).union(d.to_load@) == required@,
        d.to_load@.intersect(loaded@) == Set::<ChunkIndex>::empty(),
        d.to_unload@.intersect(required@) == Set::<ChunkIndex>::empty(),
{
    proof {
        lemma_diff_reconciles(loaded@, required@);
    }
    ChunkDiff { to_load: required.without(loaded), to_unload: loaded.without(required) }
}

/// Unloading `to_unload` and loading `to_load` turns the loaded set
/// into the required one; nothing loaded is loaded again, and nothing
/// required is unloaded.
pub proof fn lemma_diff_reconciles(loaded: Set<ChunkIndex>, required: Set<ChunkIndex>)
    ensures
        ({
            let to_load = required.difference(loaded);
            let to_unload = loaded.difference(required);
            &&& loaded.difference(to_unload).union(to_load) == required
            &&& to_load.intersect(loaded) == Set::<ChunkIndex>::empty()
            &&& to_unload.intersect(required) == Set::<ChunkIndex>::empty()
        }),
{
}

/// The required chunks are those whose hex distance from the centre
/// is at most the view distance.
pub proof fn lemma_in_view_is_hex_ball(center: ChunkIndex, distance: int, c: ChunkIndex)
    ensures
        in_view(center, distance, c) <==> hex_norm(c.cq - center.cq, c.cr - center.cr) <= distance,
{
}

/// The player's own chunk is always required.
pub proof fn lemma_required_contains_center(center: ChunkIndex, distance: nat)
    ensures
        required_chunks(center, distance).contains(center),
{
}

/// While the loaded set is the required one, nothing is left to load or
/// to unload.
pub proof fn lemma_diff_of_equal_is_empty(loaded: Set<ChunkIndex>)
    ensures
        loaded.difference(loaded) == Set::<ChunkIndex>::empty(),
{
}

} // verus!
