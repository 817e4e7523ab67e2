//! Whole-graph referential validation: after the world is built, every
//! chunk-to-chunk connection and every warp destination must resolve to an
//! existing chunk or map-set member. This is a post-pass because forward
//! references are legal while the graph is still loading.

use vstd::prelude::*;

use crate::error::ValidationError;
use crate::map::WarpEntry;
use crate::map::WarpTarget;
use crate::map::WorldMap;
use crate::world::WorldGraph;

verus! {

/// A warp destination resolves: the named chunk exists, or the named map
/// set exists and is long enough for the member index.
pub open spec fn warp_resolves(g: WorldGraph, w: WarpEntry) -> bool {
    match w.destination {
        WarpTarget::Chunk { index } => g.spec_has_chunk(index),
        WarpTarget::MapSet { id, index } => exists|i: int|
            0 <= i < g.map_sets@.len() && (#[trigger] g.map_sets@[i]).id@ == id@ && (index as int)
                < g.map_sets@[i].maps@.len(),
    }
}

/// Every warp of the map resolves.
pub open spec fn map_warps_resolve(g: WorldGraph, m: WorldMap) -> bool {
    forall|k: int| 0 <= k < m.warps@.len() ==> warp_resolves(g, #[trigger] m.warps@[k])
}

/// Every connection of the chunk names an existing chunk.
pub open spec fn chunk_connections_resolve(g: WorldGraph, c: crate::world::WorldChunk) -> bool {
    forall|k: int| 0 <= k < c.connections@.len() ==> g.spec_has_chunk(#[trigger] c.connections@[k])
}

/// The global invariant checked before emission.
pub open spec fn graph_valid(g: WorldGraph) -> bool {
    &&& forall|i: int|
        0 <= i < g.chunks@.len() ==> chunk_connections_resolve(g, #[trigger] g.chunks@[i])
    &&& forall|i: int|
        0 <= i < g.chunks@.len() ==> map_warps_resolve(g, (#[trigger] g.chunks@[i]).map)
    &&& forall|i: int, j: int|
        0 <= i < g.map_sets@.len() && 0 <= j < g.map_sets@[i].maps@.len() ==> map_warps_resolve(
            g,
            #[trigger] g.map_sets@[i].maps@[j],
        )
}

/// The map stands somewhere in the graph: as a chunk's map or as a map-set
/// member.
pub open spec fn map_in_graph(g: WorldGraph, m: WorldMap) -> bool {
    ||| exists|i: int| 0 <= i < g.chunks@.len() && (#[trigger] g.chunks@[i]).map == m
    ||| exists|i: int, j: int|
        0 <= i < g.map_sets@.len() && 0 <= j < g.map_sets@[i].maps@.len()
            && #[trigger] g.map_sets@[i].maps@[j] == m
}

/// A reported violation is real: the offending map stands in the graph
/// under the reported name and its reported target does not resolve.
pub open spec fn violation_witnessed(g: WorldGraph, e: ValidationError) -> bool {
    match e {
        ValidationError::MissingConnection { map, index } => exists|i: int|
            0 <= i < g.chunks@.len() && (#[trigger] g.chunks@[i]).map.name@ == map@
                && g.chunks@[i].connections@.contains(index) && !g.spec_has_chunk(index),
        ValidationError::MissingWarpChunk { map, index } => exists|m: WorldMap, k: int|
            map_in_graph(g, m) && m.name@ == map@ && 0 <= k < m.warps@.len()
                && (#[trigger] m.warps@[k]).destination == (WarpTarget::Chunk { index })
                && !g.spec_has_chunk(index),
        ValidationError::MissingMapSet { map, id } => exists|m: WorldMap, k: int|
            map_in_graph(g, m) && m.name@ == map@ && 0 <= k < m.warps@.len() && ((#[trigger] m
                .warps@[k]).destination matches WarpTarget::MapSet { id: wid, index: _ }
                && wid@ == id@) && !g.spec_has_set(id@),
        ValidationError::WarpIndexOutOfRange { map, id, index } => exists|m: WorldMap, k: int|
            map_in_graph(g, m) && m.name@ == map@ && 0 <= k < m.warps@.len() && ((#[trigger] m
                .warps@[k]).destination matches WarpTarget::MapSet { id: wid, index: widx }
                && wid@ == id@ && widx == index) && g.spec_has_set(id@) && (forall|i: int|
                0 <= i < g.map_sets@.len() && (#[trigger] g.map_sets@[i]).id@ == id@
                    ==> g.map_sets@[i].maps@.len() <= index as int),
    }
}

/// What an error out of one warp check says: the reported map name is the
/// checked map's, the reported target is the warp's own destination, and
/// that destination does not resolve.
pub open spec fn warp_error_describes(
    g: WorldGraph,
    w: WarpEntry,
    map_name: Seq<char>,
    e: ValidationError,
) -> bool {
    match e {
        ValidationError::MissingConnection { .. } => false,
        ValidationError::MissingWarpChunk { map, index } => map@ == map_name && w.destination
            == (WarpTarget::Chunk { index }) && !g.spec_has_chunk(index),
        ValidationError::MissingMapSet { map, id } => map@ == map_name && (w.destination matches
        WarpTarget::MapSet { id: wid, index: _ } && wid@ == id@) && !g.spec_has_set(id@),
        ValidationError::WarpIndexOutOfRange { map, id, index } => map@ == map_name && (w
            .destination matches WarpTarget::MapSet { id: wid, index: widx } && wid@ == id@ && widx
            == index) && g.spec_has_set(id@) && (forall|i: int|
            0 <= i < g.map_sets@.len() && (#[trigger] g.map_sets@[i]).id@ == id@
                ==> g.map_sets@[i].maps@.len() <= index as int),
    }
}

/// An error described for a warp of a map that stands in the graph is a
/// real violation, and that warp does not resolve.
pub proof fn lemma_warp_error_witnessed(g: WorldGraph, m: WorldMap, k: int, e: ValidationError)
    requires
        map_in_graph(g, m),
        0 <= k < m.warps@.len(),
        warp_error_describes(g, m.warps@[k], m.name@, e),
    ensures
        violation_witnessed(g, e),
        !warp_resolves(g, m.warps@[k]),
{
    match e {
        ValidationError::MissingConnection { .. } => {
            assert(false);
        },
        ValidationError::MissingWarpChunk { map, index } => {
            assert(map_in_graph(g, m) && m.name@ == map@ && 0 <= k < m.warps@.len()
                && m.warps@[k].destination == (WarpTarget::Chunk { index })
                && !g.spec_has_chunk(index));
        },
        ValidationError::MissingMapSet { map, id } => {
            assert(map_in_graph(g, m) && m.name@ == map@ && 0 <= k < m.warps@.len() && (m
                .warps@[k].destination matches WarpTarget::MapSet { id: wid, index: _ } && wid@
                == id@) && !g.spec_has_set(id@));
        },
        ValidationError::WarpIndexOutOfRange { map, id, index } => {
            assert(map_in_graph(g, m) && m.name@ == map@ && 0 <= k < m.warps@.len() && (m
                .warps@[k].destination matches WarpTarget::MapSet { id: wid, index: widx } && wid@
                == id@ && widx == index) && g.spec_has_set(id@));
            let destination = m.warps@[k].destination;
            match destination {
                WarpTarget::MapSet { id: wid, index: widx } => {
                    assert forall|i: int|
                        !(0 <= i < g.map_sets@.len() && (#[trigger] g.map_sets@[i]).id@ == wid@
                            && (widx as int) < g.map_sets@[i].maps@.len()) by {
                        if 0 <= i < g.map_sets@.len() && g.map_sets@[i].id@ == wid@ {
                            assert(g.map_sets@[i].maps@.len() <= index as int);
                        }
                    }
                },
                WarpTarget::Chunk { .. } => {
                    assert(false);
                },
            }
        },
    }
}

/// A chunk whose connection set names an index absent from the chunk
/// collection makes the whole graph invalid, so validation must fail on
/// it.
pub proof fn lemma_dangling_connection_invalidates(g: WorldGraph, i: int, k: int)
    requires
        0 <= i < g.chunks@.len(),
        0 <= k < g.chunks@[i].connections@.len(),
        !g.spec_has_chunk(g.chunks@[i].connections@[k]),
    ensures
        !graph_valid(g),
{
    assert(!chunk_connections_resolve(g, g.chunks@[i]));
}

/// A warp of any map in the graph whose destination does not resolve — a
/// missing chunk, a missing map-set identifier, or an out-of-range member
/// index — makes the whole graph invalid, so validation must fail on it.
pub proof fn lemma_dangling_warp_invalidates(g: WorldGraph, m: WorldMap, k: int)
    requires
        map_in_graph(g, m),
        0 <= k < m.warps@.len(),
        !warp_resolves(g, m.warps@[k]),
    ensures
        !graph_valid(g),
{
    assert(!map_warps_resolve(g, m));
    if exists|i: int| 0 <= i < g.chunks@.len() && (#[trigger] g.chunks@[i]).map == m {
        let i = choose|i: int| 0 <= i < g.chunks@.len() && (#[trigger] g.chunks@[i]).map == m;
        assert(g.chunks@[i].map == m);
    } else {
        let (i, j) = choose|i: int, j: int|
            0 <= i < g.map_sets@.len() && 0 <= j < g.map_sets@[i].maps@.len()
                && #[trigger] g.map_sets@[i].maps@[j] == m;
        assert(g.map_sets@[i].maps@[j] == m);
    }
}

/// Checks one warp against the graph; an error names the offending map
/// and the unresolved target exactly.
pub fn verify_warp(warp: &WarpEntry, map_name: &String, manager: &WorldGraph) -> (r: Result<
    (),
    ValidationError,
>)
    requires
        manager.wf(),
    ensures
        r is Ok <==> warp_resolves(*manager, *warp),
        r matches Err(e) ==> warp_error_describes(*manager, *warp, map_name@, e),
{
    match &warp.destination {
        WarpTarget::Chunk { index } => {
            if manager.contains_chunk(*index) {
                Ok(())
            } else {
                Err(ValidationError::MissingWarpChunk { map: map_name.clone(), index: *index })
            }
        },
        WarpTarget::MapSet { id, index } => {
            match manager.get_map_set(id) {
                None => Err(
                    ValidationError::MissingMapSet { map: map_name.clone(), id: id.clone() },
                ),
                Some(set) => {
                    if set.maps.len() <= *index as usize {
                        proof {
                            let s0 = choose|i: int|
                                0 <= i < manager.map_sets@.len() && (#[trigger] manager
                                    .map_sets@[i]) == *set;
                            assert forall|i: int|
                                0 <= i < manager.map_sets@.len() && (#[trigger] manager
                                    .map_sets@[i]).id@ == id@ implies manager.map_sets@[i]
                                .maps@.len() <= index as int by {
                                if i < s0 {
                                    assert(manager.map_sets@[i].id@ != manager.map_sets@[s0].id@);
                                } else if i > s0 {
                                    assert(manager.map_sets@[s0].id@ != manager.map_sets@[i].id@);
                                }
                            }
                        }
                        Err(
                            ValidationError::WarpIndexOutOfRange {
                                map: map_name.clone(),
                                id: id.clone(),
                                index: *index,
                            },
                        )
                    } else {
                        proof {
                            let s0 = choose|i: int|
                                0 <= i < manager.map_sets@.len() && (#[trigger] manager
                                    .map_sets@[i]) == *set;
                            assert(manager.map_sets@[s0].id@ == id@ && (index as int) < manager
                                .map_sets@[s0].maps@.len());
                        }
                        Ok(())
                    }
                },
            }
        },
    }
}

/// Validates the whole graph: every chunk connection and every warp, over
/// chunks and map sets alike. Succeeds exactly when the graph is valid;
/// an error reports a real violation with the offending map's name and
/// the unresolved target.
pub fn verify_world(manager: &WorldGraph) -> (r: Result<(), ValidationError>)
    requires
        manager.wf(),
    ensures
        r is Ok <==> graph_valid(*manager),
        r matches Err(e) ==> violation_witnessed(*manager, e),
{
    let nc = manager.chunks.len();
    let mut i: usize = 0;
    while i < nc
        invariant
            manager.wf(),
            nc == manager.chunks@.len(),
            i <= nc,
            forall|i2: int|
                0 <= i2 < i ==> chunk_connections_resolve(*manager, #[trigger] manager.chunks@[i2]),
            forall|i2: int| 0 <= i2 < i ==> map_warps_resolve(*manager, (#[trigger] manager.chunks@[i2]).map),
        decreases nc - i,
    {
        let chunk = &manager.chunks[i];
        let ncon = chunk.connections.len();
        let mut k: usize = 0;
        while k < ncon
            invariant
                manager.wf(),
                0 <= i < manager.chunks@.len(),
                chunk == &manager.chunks@[i as int],
                ncon == chunk.connections@.len(),
                k <= ncon,
                forall|k2: int| 0 <= k2 < k ==> manager.spec_has_chunk(#[trigger] chunk.connections@[k2]),
            decreases ncon - k,
        {
            let target = chunk.connections[k];
            if !manager.contains_chunk(target) {
                let err = ValidationError::MissingConnection {
                    map: chunk.map.name.clone(),
                    index: target,
                };
                proof {
                    assert(manager.chunks@[i as int].connections@[k as int] == target);
                    assert(manager.chunks@[i as int].connections@.contains(target));
                    assert(!chunk_connections_resolve(*manager, manager.chunks@[i as int]));
                    assert(!graph_valid(*manager));
                    assert(violation_witnessed(*manager, err));
                }
                return Err(err);
            }
            k = k + 1;
        }
        let nw = chunk.map.warps.len();
        let mut k: usize = 0;
        while k < nw
            invariant
                manager.wf(),
                0 <= i < manager.chunks@.len(),
                chunk == &manager.chunks@[i as int],
                nw == chunk.map.warps@.len(),
                k <= nw,
                forall|k2: int| 0 <= k2 < k ==> warp_resolves(*manager, #[trigger] chunk.map.warps@[k2]),
            decreases nw - k,
        {
            match verify_warp(&chunk.map.warps[k], &chunk.map.name, manager) {
                Ok(_) => {},
                Err(e) => {
                    proof {
                        let m = manager.chunks@[i as int].map;
                        assert(manager.chunks@[i as int].map == m);
                        lemma_warp_error_witnessed(*manager, m, k as int, e);
                        assert(!map_warps_resolve(*manager, m));
                    }
                    return Err(e);
                },
            }
            k = k + 1;
        }
        i = i + 1;
    }
    let ns = manager.map_sets.len();
    let mut i: usize = 0;
    while i < ns
        invariant
            manager.wf(),
            ns == manager.map_sets@.len(),
            i <= ns,
            forall|i2: int|
                0 <= i2 < manager.chunks@.len() ==> chunk_connections_resolve(
                    *manager,
                    #[trigger] manager.chunks@[i2],
                ),
            forall|i2: int|
                0 <= i2 < manager.chunks@.len() ==> map_warps_resolve(*manager, (#[trigger] manager.chunks@[i2]).map),
            forall|i2: int, j2: int|
                0 <= i2 < i && 0 <= j2 < manager.map_sets@[i2].maps@.len() ==> map_warps_resolve(
                    *manager,
                    #[trigger] manager.map_sets@[i2].maps@[j2],
                ),
        decreases ns - i,
    {
        let set = &manager.map_sets[i];
        let nm = set.maps.len();
        let mut j: usize = 0;
        while j < nm
            invariant
                manager.wf(),
                0 <= i < manager.map_sets@.len(),
                set == &manager.map_sets@[i as int],
                nm == set.maps@.len(),
                j <= nm,
                forall|j2: int|
                    0 <= j2 < j ==> map_warps_resolve(*manager, #[trigger] set.maps@[j2]),
            decreases nm - j,
        {
            let map = &set.maps[j];
            let nw = map.warps.len();
            let mut k: usize = 0;
            while k < nw
                invariant
                    manager.wf(),
                    0 <= i < manager.map_sets@.len(),
                    set == &manager.map_sets@[i as int],
                    0 <= j < set.maps@.len(),
                    map == &set.maps@[j as int],
                    nw == map.warps@.len(),
                    k <= nw,
                    forall|k2: int| 0 <= k2 < k ==> warp_resolves(*manager, #[trigger] map.warps@[k2]),
                decreases nw - k,
            {
                match verify_warp(&map.warps[k], &map.name, manager) {
                    Ok(_) => {},
                    Err(e) => {
                        proof {
                            let m = manager.map_sets@[i as int].maps@[j as int];
                            assert(manager.map_sets@[i as int].maps@[j as int] == m);
                            lemma_warp_error_witnessed(*manager, m, k as int, e);
                            assert(!map_warps_resolve(*manager, m));
                        }
                        return Err(e);
                    },
                }
                k = k + 1;
            }
            j = j + 1;
        }
        i = i + 1;
    }
    Ok(())
}

} // verus!
