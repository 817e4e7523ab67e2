//! The world graph: a coordinate-addressed chunk collection and named,
//! index-ordered map sets, each keyed uniquely.

use vstd::multiset::Multiset;
use vstd::prelude::*;

use crate::error::CompileError;
use crate::map::Coordinate;
use crate::map::WorldMap;

verus! {

/// One seamless piece of the open-world grid.
pub struct WorldChunk {
    pub index: u16,
    pub coords: Coordinate,
    pub connections: Vec<u16>,
    pub map: WorldMap,
}

/// A named, order-indexed group of maps reached by warps; members are
/// addressed by their position.
pub struct WorldMapSet {
    pub id: String,
    pub maps: Vec<WorldMap>,
}

impl WorldMapSet {
    /// Groups the member maps, in the given order, under the set
    /// identifier. A set with zero members is a fatal configuration
    /// error, never an empty set.
    pub fn new(id: String, maps: Vec<WorldMap>) -> (r: Result<WorldMapSet, CompileError>)
        ensures
            r is Ok <==> maps@.len() > 0,
            r matches Ok(s) ==> s.id == id && s.maps == maps,
            r is Err ==> r == Err::<WorldMapSet, CompileError>(CompileError::NoMaps),
    {
        if maps.len() == 0 {
            Err(CompileError::NoMaps)
        } else {
            Ok(WorldMapSet { id, maps })
        }
    }
}

/// No two chunks share a chunk index.
pub open spec fn chunk_keys_unique(s: Seq<WorldChunk>) -> bool {
    forall|a: int, b: int| 0 <= a < b < s.len() ==> (#[trigger] s[a]).index != (#[trigger] s[b]).index
}

/// No two map sets share an identifier.
pub open spec fn set_ids_unique(s: Seq<WorldMapSet>) -> bool {
    forall|a: int, b: int| 0 <= a < b < s.len() ==> (#[trigger] s[a]).id@ != (#[trigger] s[b]).id@
}

/// The assembled world: every chunk and every map set, uniquely keyed.
pub struct WorldGraph {
    pub chunks: Vec<WorldChunk>,
    pub map_sets: Vec<WorldMapSet>,
}

impl WorldGraph {
    /// Well-formedness: chunk indices and map-set identifiers are unique.
    pub open spec fn wf(self) -> bool {
        &&& chunk_keys_unique(self.chunks@)
        &&& set_ids_unique(self.map_sets@)
    }

    /// Whether some chunk carries this index.
    pub open spec fn spec_has_chunk(self, index: u16) -> bool {
        exists|i: int| 0 <= i < self.chunks@.len() && (#[trigger] self.chunks@[i]).index == index
    }

    /// Whether some map set carries this identifier.
    pub open spec fn spec_has_set(self, id: Seq<char>) -> bool {
        exists|i: int| 0 <= i < self.map_sets@.len() && (#[trigger] self.map_sets@[i]).id@ == id
    }

    pub fn new() -> (r: WorldGraph)
        ensures
            r.wf(),
            r.chunks@.len() == 0,
            r.map_sets@.len() == 0,
    {
        WorldGraph { chunks: Vec::new(), map_sets: Vec::new() }
    }

    pub fn contains_chunk(&self, index: u16) -> (r: bool)
        ensures
            r == self.spec_has_chunk(index),
    {
        let n = self.chunks.len();
        let mut i: usize = 0;
        while i < n
            invariant
                n == self.chunks@.len(),
                i <= n,
                forall|k: int| 0 <= k < i ==> (#[trigger] self.chunks@[k]).index != index,
            decreases n - i,
        {
            if self.chunks[i].index == index {
                return true;
            }
            i = i + 1;
        }
        false
    }

    /// The map set carrying this identifier, if one exists.
    pub fn get_map_set(&self, id: &String) -> (r: Option<&WorldMapSet>)
        ensures
            r is Some <==> self.spec_has_set(id@),
            r matches Some(s) ==> {
                &&& s.id@ == id@
                &&& exists|i: int|
                    0 <= i < self.map_sets@.len() && (#[trigger] self.map_sets@[i]) == *s
            },
    {
        let n = self.map_sets.len();
        let mut i: usize = 0;
        while i < n
            invariant
                n == self.map_sets@.len(),
                i <= n,
                forall|k: int| 0 <= k < i ==> (#[trigger] self.map_sets@[k]).id@ != id@,
            decreases n - i,
        {
            if self.map_sets[i].id == *id {
                return Some(&self.map_sets[i]);
            }
            i = i + 1;
        }
        None
    }

    /// Inserts a chunk keyed by its index: a chunk with the same index is
    /// replaced, any other is kept.
    pub fn insert_chunk(&mut self, chunk: WorldChunk)
        requires
            old(self).wf(),
        ensures
            final(self).wf(),
            final(self).map_sets == old(self).map_sets,
            (exists|k: int|
                0 <= k < old(self).chunks@.len() && (#[trigger] old(self).chunks@[k]).index
                    == chunk.index) ==> final(self).chunks@ == old(self).chunks@.update(
                choose|k: int|
                    0 <= k < old(self).chunks@.len() && (#[trigger] old(self).chunks@[k]).index
                        == chunk.index,
                chunk,
            ),
            (forall|k: int|
                0 <= k < old(self).chunks@.len() ==> (#[trigger] old(self).chunks@[k]).index
                    != chunk.index) ==> final(self).chunks@ == old(self).chunks@.push(chunk),
    {
        let n = self.chunks.len();
        let mut j: usize = 0;
        while j < n
            invariant
                n == self.chunks@.len(),
                j <= n,
                *self == *old(self),
                old(self).wf(),
                forall|k: int| 0 <= k < j ==> (#[trigger] self.chunks@[k]).index != chunk.index,
            decreases n - j,
        {
            if self.chunks[j].index == chunk.index {
                proof {
                    let k = choose|k: int|
                        0 <= k < old(self).chunks@.len() && (#[trigger] old(
                            self,
                        ).chunks@[k]).index == chunk.index;
                    assert(old(self).chunks@[j as int].index == chunk.index);
                    if k < j as int {
                        assert(old(self).chunks@[k].index != old(self).chunks@[j as int].index);
                    } else if k > j as int {
                        assert(old(self).chunks@[j as int].index != old(self).chunks@[k].index);
                    }
                }
                self.chunks.set(j, chunk);
                return ;
            }
            j = j + 1;
        }
        self.chunks.push(chunk);
    }

    /// Inserts a map set keyed by its identifier: a set with the same
    /// identifier is replaced, any other is kept.
    pub fn insert_map_set(&mut self, set: WorldMapSet)
        requires
            old(self).wf(),
        ensures
            final(self).wf(),
            final(self).chunks == old(self).chunks,
            (exists|k: int|
                0 <= k < old(self).map_sets@.len() && (#[trigger] old(self).map_sets@[k]).id@
                    == set.id@) ==> final(self).map_sets@ == old(self).map_sets@.update(
                choose|k: int|
                    0 <= k < old(self).map_sets@.len() && (#[trigger] old(self).map_sets@[k]).id@
                        == set.id@,
                set,
            ),
            (forall|k: int|
                0 <= k < old(self).map_sets@.len() ==> (#[trigger] old(self).map_sets@[k]).id@
                    != set.id@) ==> final(self).map_sets@ == old(self).map_sets@.push(set),
    {
        let n = self.map_sets.len();
        let mut j: usize = 0;
        while j < n
            invariant
                n == self.map_sets@.len(),
                j <= n,
                *self == *old(self),
                old(self).wf(),
                forall|k: int| 0 <= k < j ==> (#[trigger] self.map_sets@[k]).id@ != set.id@,
            decreases n - j,
        {
            if self.map_sets[j].id == set.id {
                proof {
                    let k = choose|k: int|
                        0 <= k < old(self).map_sets@.len() && (#[trigger] old(
                            self,
                        ).map_sets@[k]).id@ == set.id@;
                    assert(old(self).map_sets@[j as int].id@ == set.id@);
                    if k < j as int {
                        assert(old(self).map_sets@[k].id@ != old(self).map_sets@[j as int].id@);
                    } else if k > j as int {
                        assert(old(self).map_sets@[j as int].id@ != old(self).map_sets@[k].id@);
                    }
                }
                self.map_sets.set(j, set);
                return ;
            }
            j = j + 1;
        }
        self.map_sets.push(set);
    }
}


/// Lexicographic order on character sequences, by code point.
pub open spec fn lex_le(a: Seq<char>, b: Seq<char>) -> bool
    decreases a.len(),
{
    if a.len() == 0 {
        true
    } else if b.len() == 0 {
        false
    } else if (a[0] as u32) < (b[0] as u32) {
        true
    } else if (a[0] as u32) > (b[0] as u32) {
        false
    } else {
        lex_le(a.drop_first(), b.drop_first())
    }
}

/// The order is total.
pub proof fn lemma_lex_total(a: Seq<char>, b: Seq<char>)
    ensures
        lex_le(a, b) || lex_le(b, a),
    decreases a.len(),
{
    if a.len() > 0 && b.len() > 0 && (a[0] as u32) == (b[0] as u32) {
        lemma_lex_total(a.drop_first(), b.drop_first());
    }
}

/// The order is transitive.
pub proof fn lemma_lex_trans(a: Seq<char>, b: Seq<char>, c: Seq<char>)
    requires
        lex_le(a, b),
        lex_le(b, c),
    ensures
        lex_le(a, c),
    decreases a.len(),
{
    if a.len() > 0 && b.len() > 0 && c.len() > 0 && (a[0] as u32) == (b[0] as u32) && (b[0] as u32)
        == (c[0] as u32) {
        lemma_lex_trans(a.drop_first(), b.drop_first(), c.drop_first());
    }
}

/// Dropping an equal prefix does not change the order.
proof fn lemma_lex_skip(a: Seq<char>, b: Seq<char>, i: int)
    requires
        0 <= i <= a.len(),
        i <= b.len(),
        forall|k: int| 0 <= k < i ==> a[k] == b[k],
    ensures
        lex_le(a, b) == lex_le(a.skip(i), b.skip(i)),
    decreases i,
{
    if i > 0 {
        assert(a[0] == b[0]);
        assert forall|k: int| 0 <= k < i - 1 implies a.drop_first()[k] == b.drop_first()[k] by {
            assert(a.drop_first()[k] == a[k + 1]);
            assert(b.drop_first()[k] == b[k + 1]);
        }
        lemma_lex_skip(a.drop_first(), b.drop_first(), i - 1);
        assert(a.drop_first().skip(i - 1) =~= a.skip(i));
        assert(b.drop_first().skip(i - 1) =~= b.skip(i));
    } else {
        assert(a.skip(0) =~= a);
        assert(b.skip(0) =~= b);
    }
}

/// Lexicographic comparison of two names.
pub fn name_le(a: &String, b: &String) -> (r: bool)
    ensures
        r == lex_le(a@, b@),
{
    let la = a.as_str().unicode_len();
    let lb = b.as_str().unicode_len();
    let mut i: usize = 0;
    while i < la && i < lb
        invariant
            la == a@.len(),
            lb == b@.len(),
            i <= la,
            i <= lb,
            forall|k: int| 0 <= k < i ==> a@[k] == b@[k],
        decreases la - i,
    {
        let ca = a.as_str().get_char(i);
        let cb = b.as_str().get_char(i);
        if (ca as u32) < (cb as u32) {
            proof {
                lemma_lex_skip(a@, b@, i as int);
                assert(a@.skip(i as int)[0] == a@[i as int]);
                assert(b@.skip(i as int)[0] == b@[i as int]);
            }
            return true;
        }
        if (ca as u32) > (cb as u32) {
            proof {
                lemma_lex_skip(a@, b@, i as int);
                assert(a@.skip(i as int)[0] == a@[i as int]);
                assert(b@.skip(i as int)[0] == b@[i as int]);
            }
            return false;
        }
        i = i + 1;
    }
    proof {
        lemma_lex_skip(a@, b@, i as int);
        if la <= lb {
            assert(a@.skip(i as int).len() == 0);
        } else {
            assert(b@.skip(i as int).len() == 0);
            assert(a@.skip(i as int).len() > 0);
        }
    }
    la <= lb
}

/// Names in ascending lexicographic order.
pub open spec fn names_sorted(s: Seq<String>) -> bool {
    forall|i: int, j: int| 0 <= i < j < s.len() ==> lex_le((#[trigger] s[i])@, (#[trigger] s[j])@)
}

/// Sorts file or directory names into the stable, deterministic order
/// that fixes map-set member indices: ascending lexicographic order, a
/// permutation of the input.
pub fn sort_names(names: Vec<String>) -> (r: Vec<String>)
    ensures
        names_sorted(r@),
        r@.to_multiset() == names@.to_multiset(),
{
    broadcast use vstd::multiset::group_multiset_axioms;

    let ghost original = names@;
    let mut rest = names;
    let mut out: Vec<String> = Vec::new();
    proof {
        out@.to_multiset_ensures();
        assert(out@.to_multiset() =~= Multiset::<String>::empty());
        assert(out@.to_multiset().add(rest@.to_multiset()) =~= rest@.to_multiset());
    }
    while rest.len() > 0
        invariant
            names_sorted(out@),
            forall|i: int, k: int|
                0 <= i < out@.len() && 0 <= k < rest@.len() ==> lex_le(
                    (#[trigger] out@[i])@,
                    (#[trigger] rest@[k])@,
                ),
            out@.to_multiset().add(rest@.to_multiset()) =~= original.to_multiset(),
        decreases rest@.len(),
    {
        let n = rest.len();
        let mut best: usize = 0;
        let mut cur: usize = 1;
        proof {
            lemma_lex_total(rest@[0]@, rest@[0]@);
        }
        while cur < n
            invariant
                n == rest@.len(),
                0 < n,
                best < n,
                cur <= n,
                forall|k: int|
                    0 <= k < cur ==> lex_le((rest@[best as int])@, (#[trigger] rest@[k])@),
            decreases n - cur,
        {
            if !name_le(&rest[best], &rest[cur]) {
                proof {
                    lemma_lex_total(rest@[best as int]@, rest@[cur as int]@);
                    assert forall|k: int| 0 <= k < cur + 1 implies lex_le(
                        (rest@[cur as int])@,
                        (#[trigger] rest@[k])@,
                    ) by {
                        if k < cur {
                            lemma_lex_trans(rest@[cur as int]@, rest@[best as int]@, rest@[k]@);
                        } else {
                            lemma_lex_total(rest@[cur as int]@, rest@[cur as int]@);
                        }
                    }
                }
                best = cur;
            }
            cur = cur + 1;
        }
        let ghost before = rest@;
        let ghost done = out@;
        let picked = rest.remove(best);
        proof {
            before.to_multiset_ensures();
            done.to_multiset_ensures();
            assert(before.contains(before[best as int]));
            assert(before.to_multiset().count(picked) > 0);
            assert(rest@.to_multiset() =~= before.to_multiset().remove(picked));
            assert(done.push(picked).to_multiset() =~= done.to_multiset().insert(picked));
            assert(done.push(picked).to_multiset().add(rest@.to_multiset()) =~= original
                .to_multiset());
            // every element still waiting came from the pre-removal sequence
            assert forall|k: int| 0 <= k < rest@.len() implies exists|k0: int|
                0 <= k0 < before.len() && before[k0] == #[trigger] rest@[k] by {
                if k < best {
                    assert(before[k] == rest@[k]);
                } else {
                    assert(before[k + 1] == rest@[k]);
                }
            }
            // the picked minimum stays below everything still waiting
            assert forall|k: int| 0 <= k < rest@.len() implies lex_le(
                picked@,
                (#[trigger] rest@[k])@,
            ) by {
                if k < best {
                    assert(rest@[k] == before[k]);
                } else {
                    assert(rest@[k] == before[k + 1]);
                }
            }
            // the grown prefix stays sorted and below everything waiting
            assert forall|i: int, k: int|
                0 <= i < done.push(picked).len() && 0 <= k < rest@.len() implies lex_le(
                    (#[trigger] done.push(picked)[i])@,
                    (#[trigger] rest@[k])@,
                ) by {
                if i < done.len() {
                    if k < best {
                        assert(rest@[k] == before[k]);
                        assert(lex_le(done[i]@, before[k]@));
                    } else {
                        assert(rest@[k] == before[k + 1]);
                        assert(lex_le(done[i]@, before[k + 1]@));
                    }
                } else {
                    assert(done.push(picked)[i] == picked);
                }
            }
            assert forall|i: int, j: int|
                0 <= i < j < done.push(picked).len() implies lex_le(
                    (#[trigger] done.push(picked)[i])@,
                    (#[trigger] done.push(picked)[j])@,
                ) by {
                if j < done.len() {
                    assert(lex_le(done[i]@, done[j]@));
                } else {
                    assert(done.push(picked)[j] == picked);
                    assert(lex_le(done[i]@, before[best as int]@));
                }
            }
        }
        out.push(picked);
    }
    proof {
        rest@.to_multiset_ensures();
        assert(rest@.to_multiset() =~= Multiset::<String>::empty());
        assert(out@.to_multiset().add(rest@.to_multiset()) =~= out@.to_multiset());
    }
    out
}

} // verus!
