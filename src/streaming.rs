//! Distance-based chunk streaming: which chunk coordinates exist, and the
//! lifecycle of each materialised chunk.
//!
//! Chunks live in an arena (`ChunkStore`) and are named by their position in
//! it, a stable handle. The streaming index (`Data`) maps each loaded chunk
//! coordinate to such a handle, in a hash map keyed by the packed coordinate. A chunk goes `Empty -> Generated ->
//! MarkedForUnload -> Destroyed`; an `Empty` chunk may also be marked directly.

use std::collections::HashMap;
use vstd::prelude::*;
use vstd::arithmetic::div_mod::{lemma_fundamental_div_mod, lemma_fundamental_div_mod_converse};
use vstd::relations::injective_on;
use vstd::set_lib::lemma_map_size;
use crate::grid::ChunkCoord;

verus! {

broadcast use vstd::std_specs::hash::group_hash_axioms;

/// How far, in chunks, the load window reaches from the viewer's chunk.
pub const LOAD_DISTANCE: i32 = 1;

/// Lifecycle state of a materialised chunk.
#[derive(Clone, Copy, PartialEq, Eq, Structural, Debug)]
pub enum ChunkState {
    /// Created, no heightmap yet.
    Empty,
    /// Heightmap, mesh and texture present, handed to the renderer.
    Generated,
    /// Out of range; removed from the index, waiting for the sweep.
    MarkedForUnload,
    /// Swept: its visual object and the entity itself are gone.
    Destroyed,
}

/// A materialised chunk: its coordinate (which seeds its generation, and
/// times the chunk spacing gives its world transform), its lifecycle state and
/// the handle of its visual object once the renderer has one.
#[derive(Clone, Copy, PartialEq, Eq, Structural, Debug)]
pub struct ChunkMap {
    pub seed: ChunkCoord,
    pub state: ChunkState,
    pub render: Option<u64>,
}

/// A chunk that is neither marked for unload nor destroyed.
pub open spec fn is_live(s: ChunkState) -> bool {
    s == ChunkState::Empty || s == ChunkState::Generated
}

/// One lifecycle step or none: `Empty -> Generated`, a live chunk to
/// `MarkedForUnload`, `MarkedForUnload -> Destroyed`. `Destroyed` is final.
pub open spec fn advances(a: ChunkState, b: ChunkState) -> bool {
    ||| a == b
    ||| a == ChunkState::Empty && b == ChunkState::Generated
    ||| is_live(a) && b == ChunkState::MarkedForUnload
    ||| a == ChunkState::MarkedForUnload && b == ChunkState::Destroyed
}

/// From arena `before` to arena `after`, chunks are only added, each existing
/// chunk keeps its coordinate, and its state takes at most one lifecycle step.
pub open spec fn lifecycle_advances(before: Seq<ChunkMap>, after: Seq<ChunkMap>) -> bool {
    &&& before.len() <= after.len()
    &&& forall|h: int|
        0 <= h < before.len() ==> (#[trigger] after[h]).seed == before[h].seed && advances(
            before[h].state,
            after[h].state,
        )
}

impl ChunkMap {
    /// A fresh chunk at `seed`: not generated and without a visual object.
    pub fn new_with_transform(seed: ChunkCoord) -> (r: ChunkMap)
        ensures
            r == (ChunkMap { seed, state: ChunkState::Empty, render: None }),
    {
        ChunkMap { seed, state: ChunkState::Empty, render: None }
    }
}

/// The arena that owns every chunk ever created; a handle is a position in it.
pub struct ChunkStore {
    chunks: Vec<ChunkMap>,
}

impl View for ChunkStore {
    type V = Seq<ChunkMap>;

    closed spec fn view(&self) -> Seq<ChunkMap> {
        self.chunks@
    }
}

/// Key of chunk `c` in the streaming index's hash map: both coordinates
/// shifted to be non-negative and packed into one `u64`.
pub open spec fn key_of(c: ChunkCoord) -> u64 {
    ((c.x + 0x8000_0000) * 0x1_0000_0000 + (c.y + 0x8000_0000)) as u64
}

/// The chunk whose key is `k`.
pub open spec fn coord_of(k: u64) -> ChunkCoord {
    ChunkCoord { x: (k / 0x1_0000_0000 - 0x8000_0000) as i32, y: (k % 0x1_0000_0000 - 0x8000_0000) as i32 }
}

/// Keys and chunks correspond one to one: every `u64` is the key of exactly
/// one chunk coordinate.
pub proof fn lemma_key_bijection()
    ensures
        forall|c: ChunkCoord| #[trigger] coord_of(key_of(c)) == c,
        forall|k: u64| #[trigger] key_of(coord_of(k)) == k,
{
    assert forall|c: ChunkCoord| #[trigger] coord_of(key_of(c)) == c by {
        let a = c.x + 0x8000_0000;
        let b = c.y + 0x8000_0000;
        assert(0 <= a * 0x1_0000_0000 + b <= 0xffff_ffff_ffff_ffff) by (nonlinear_arith)
            requires
                0 <= a <= 0xffff_ffff,
                0 <= b <= 0xffff_ffff,
        ;
        lemma_fundamental_div_mod_converse(a * 0x1_0000_0000 + b, 0x1_0000_0000, a, b);
    }
    assert forall|k: u64| #[trigger] key_of(coord_of(k)) == k by {
        let q = k / 0x1_0000_0000;
        let r = k % 0x1_0000_0000;
        lemma_fundamental_div_mod(k as int, 0x1_0000_0000);
        assert(q <= 0xffff_ffff) by (nonlinear_arith)
            requires
                k == 0x1_0000_0000 * q + r,
                0 <= r,
                k <= 0xffff_ffff_ffff_ffff,
        ;
    }
}

/// `key_of(c)`.
fn key(c: ChunkCoord) -> (k: u64)
    ensures
        k == key_of(c),
{
    let a: u64 = (c.x as i64 + 0x8000_0000) as u64;
    let b: u64 = (c.y as i64 + 0x8000_0000) as u64;
    proof {
        assert(a * 0x1_0000_0000 + b <= 0xffff_ffff_ffff_ffff) by (nonlinear_arith)
            requires
                a <= 0xffff_ffff,
                b <= 0xffff_ffff,
        ;
    }
    a * 0x1_0000_0000 + b
}

/// The streaming index, from loaded chunk coordinates to chunk handles, and
/// the viewer's chunk at the last load pass. Each coordinate is held under its
/// `key_of`, so it has at most one entry.
pub struct Data {
    loader: HashMap<u64, usize>,
    viewer: Option<ChunkCoord>,
}

impl View for Data {
    type V = Map<ChunkCoord, usize>;

    closed spec fn view(&self) -> Map<ChunkCoord, usize> {
        Map::new(|c: ChunkCoord| self.loader@.contains_key(key_of(c)), |c: ChunkCoord| self.loader@[key_of(c)])
    }
}

impl Data {
    /// The viewer's chunk at the last load pass, if any.
    pub closed spec fn last_viewer(&self) -> Option<ChunkCoord> {
        self.viewer
    }

    /// The handle indexed under `c`, if any.
    pub fn get(&self, c: ChunkCoord) -> (r: Option<usize>)
        ensures
            r == (if self@.contains_key(c) { Some(self@[c]) } else { None::<usize> }),
    {
        let k = key(c);
        match self.loader.get(&k) {
            Some(h) => Some(*h),
            None => None,
        }
    }

    /// Indexes a coordinate that is not indexed yet.
    fn insert_new(&mut self, c: ChunkCoord, h: usize)
        requires
            !old(self)@.contains_key(c),
        ensures
            final(self)@ == old(self)@.insert(c, h),
            final(self).last_viewer() == old(self).last_viewer(),
    {
        let k = key(c);
        self.loader.insert(k, h);
        proof {
            lemma_key_bijection();
            assert(self@ =~= old(self)@.insert(c, h));
        }
    }

    /// Drops coordinate `c` from the index.
    fn remove(&mut self, c: ChunkCoord)
        ensures
            final(self)@ == old(self)@.remove(c),
            final(self).last_viewer() == old(self).last_viewer(),
    {
        let k = key(c);
        self.loader.remove(&k);
        proof {
            lemma_key_bijection();
            assert(self@ =~= old(self)@.remove(c));
        }
    }
}

/// Every indexed coordinate names a live chunk of the store that carries that
/// coordinate, and every live chunk of the store is indexed under its own
/// coordinate. So no coordinate is indexed twice, no indexed chunk is marked
/// or destroyed, and no live chunk is out of the index.
pub open spec fn consistent(index: Map<ChunkCoord, usize>, store: Seq<ChunkMap>) -> bool {
    &&& forall|c: ChunkCoord|
        #[trigger] index.contains_key(c) ==> index[c] < store.len() && store[index[c] as int].seed == c
            && is_live(store[index[c] as int].state)
    &&& forall|h: int|
        0 <= h < store.len() && is_live(#[trigger] store[h].state) ==> index.contains_key(store[h].seed)
            && index[store[h].seed] == h
}

/// What consistency gives: no indexed coordinate names a chunk that is marked
/// for unload or destroyed, and no two coordinates name the same chunk.
pub proof fn lemma_index_consistency(index: Map<ChunkCoord, usize>, store: Seq<ChunkMap>)
    requires
        consistent(index, store),
    ensures
        forall|c: ChunkCoord|
            #[trigger] index.contains_key(c) ==> store[index[c] as int].state != ChunkState::Destroyed
                && store[index[c] as int].state != ChunkState::MarkedForUnload,
        forall|c1: ChunkCoord, c2: ChunkCoord|
            #[trigger] index.contains_key(c1) && #[trigger] index.contains_key(c2) && c1 != c2 ==> index[c1]
                != index[c2],
{
}

/// An empty index.
pub fn init() -> (r: Data)
    ensures
        r@ == Map::<ChunkCoord, usize>::empty(),
        r.last_viewer() == None::<ChunkCoord>,
{
    let r = Data { loader: HashMap::new(), viewer: None };
    assert(r@ =~= Map::<ChunkCoord, usize>::empty());
    r
}

impl ChunkStore {
    /// An empty arena.
    pub fn new() -> (r: ChunkStore)
        ensures
            r@ == Seq::<ChunkMap>::empty(),
    {
        ChunkStore { chunks: Vec::new() }
    }
}

/// `|a - b|`.
pub open spec fn abs_diff(a: int, b: int) -> int {
    if a >= b {
        a - b
    } else {
        b - a
    }
}

/// Chebyshev distance between two chunk coordinates.
pub open spec fn chebyshev(a: ChunkCoord, b: ChunkCoord) -> int {
    let dx = abs_diff(a.x as int, b.x as int);
    let dy = abs_diff(a.y as int, b.y as int);
    if dx >= dy {
        dx
    } else {
        dy
    }
}

/// The load window around viewer chunk `v`: the square
/// `[v.x - D, v.x + D] x [v.y - D, v.y + D]` with `D = LOAD_DISTANCE`, that is
/// every chunk at Chebyshev distance at most `D`.
pub open spec fn in_window(v: ChunkCoord, c: ChunkCoord) -> bool {
    &&& v.x - LOAD_DISTANCE <= c.x <= v.x + LOAD_DISTANCE
    &&& v.y - LOAD_DISTANCE <= c.y <= v.y + LOAD_DISTANCE
}

/// Past the hysteresis band: more than `D + 1` chunks away on some axis.
pub open spec fn out_of_range(v: ChunkCoord, c: ChunkCoord) -> bool {
    chebyshev(v, c) > LOAD_DISTANCE + 1
}

/// A viewer chunk whose whole load window has coordinates that fit in `i32`.
pub open spec fn viewer_in_range(v: ChunkCoord) -> bool {
    &&& i32::MIN + LOAD_DISTANCE <= v.x && v.x <= i32::MAX - LOAD_DISTANCE
    &&& i32::MIN + LOAD_DISTANCE <= v.y && v.y <= i32::MAX - LOAD_DISTANCE
}

/// The load window's coordinates visited before `(cx, cy)` in column-major order.
spec fn window_before(v: ChunkCoord, cx: int, cy: int, c: ChunkCoord) -> bool {
    in_window(v, c) && (c.x < cx || (c.x == cx && c.y < cy))
}

impl ChunkStore {
    /// Adds a chunk to the arena and returns its handle.
    fn push(&mut self, m: ChunkMap) -> (h: usize)
        ensures
            final(self)@ == old(self)@.push(m),
            h == old(self)@.len(),
    {
        let h = self.chunks.len();
        self.chunks.push(m);
        h
    }
}

/// `m` tagged for unload.
pub open spec fn marked(m: ChunkMap) -> ChunkMap {
    ChunkMap { seed: m.seed, state: ChunkState::MarkedForUnload, render: m.render }
}

impl ChunkStore {
    /// Tags chunk `h` for unload.
    fn mark(&mut self, h: usize)
        requires
            h < old(self)@.len(),
        ensures
            final(self)@ == old(self)@.update(h as int, marked(old(self)@[h as int])),
    {
        let m = self.chunks[h];
        self.chunks.set(h, ChunkMap { seed: m.seed, state: ChunkState::MarkedForUnload, render: m.render });
    }
}

/// Whether `c` is out of range of viewer chunk `v`.
fn is_out_of_range(v: ChunkCoord, c: ChunkCoord) -> (r: bool)
    ensures
        r == out_of_range(v, c),
{
    let dx: i64 = v.x as i64 - c.x as i64;
    let dy: i64 = v.y as i64 - c.y as i64;
    let far: i64 = LOAD_DISTANCE as i64 + 1;
    dx > far || dx < -far || dy > far || dy < -far
}

/// Unload-selection pass: every indexed chunk out of range of `viewer` (more
/// than `LOAD_DISTANCE + 1` chunks away on some axis) is tagged for unload and
/// leaves the index at once.
pub fn mark_out_of_range(store: &mut ChunkStore, data: &mut Data, viewer: ChunkCoord)
    requires
        consistent(old(data)@, old(store)@),
    ensures
        consistent(final(data)@, final(store)@),
        final(data).last_viewer() == old(data).last_viewer(),
        forall|c: ChunkCoord|
            #[trigger] final(data)@.contains_key(c) <==> old(data)@.contains_key(c) && !out_of_range(viewer, c),
        forall|c: ChunkCoord| #[trigger] final(data)@.contains_key(c) ==> final(data)@[c] == old(data)@[c],
        final(store)@.len() == old(store)@.len(),
        forall|h: int|
            0 <= h < old(store)@.len() ==> #[trigger] final(store)@[h] == (if is_live(old(store)@[h].state)
                && out_of_range(viewer, old(store)@[h].seed) {
                marked(old(store)@[h])
            } else {
                old(store)@[h]
            }),
{
    let ghost st0 = store@;
    let ghost idx0 = data@;
    let mut h: usize = 0;
    while h < store.chunks.len()
        invariant
            consistent(idx0, st0),
            store@.len() == st0.len(),
            h <= st0.len(),
            data.last_viewer() == old(data).last_viewer(),
            forall|g: int|
                0 <= g < h ==> #[trigger] store@[g] == (if is_live(st0[g].state) && out_of_range(
                    viewer,
                    st0[g].seed,
                ) {
                    marked(st0[g])
                } else {
                    st0[g]
                }),
            forall|g: int| h <= g < st0.len() ==> #[trigger] store@[g] == st0[g],
            forall|c: ChunkCoord|
                #[trigger] data@.contains_key(c) <==> idx0.contains_key(c) && !(out_of_range(viewer, c)
                    && idx0[c] < h),
            forall|c: ChunkCoord| #[trigger] data@.contains_key(c) ==> data@[c] == idx0[c],
        decreases st0.len() - h,
    {
        let m = store.chunks[h];
        if (m.state == ChunkState::Empty || m.state == ChunkState::Generated) && is_out_of_range(viewer, m.seed) {
            store.mark(h);
            data.remove(m.seed);
            proof {
                assert(idx0.contains_key(m.seed) && idx0[m.seed] == h);
                assert forall|c: ChunkCoord|
                    #[trigger] data@.contains_key(c) <==> idx0.contains_key(c) && !(out_of_range(viewer, c)
                        && idx0[c] < h + 1) by {
                    if idx0.contains_key(c) && idx0[c] == h {
                        assert(st0[h as int].seed == c);
                    }
                }
            }
        } else {
            proof {
                assert forall|c: ChunkCoord|
                    #[trigger] data@.contains_key(c) <==> idx0.contains_key(c) && !(out_of_range(viewer, c)
                        && idx0[c] < h + 1) by {
                    if idx0.contains_key(c) && idx0[c] == h {
                        assert(st0[h as int].seed == c && is_live(st0[h as int].state));
                    }
                }
            }
        }
        h = h + 1;
    }
    proof {
        assert forall|c: ChunkCoord| #[trigger] data@.contains_key(c) implies data@[c] < store@.len()
            && store@[data@[c] as int].seed == c && is_live(store@[data@[c] as int].state) by {
            assert(idx0.contains_key(c));
            assert(store@[idx0[c] as int] == st0[idx0[c] as int]);
        }
        assert forall|g: int|
            0 <= g < store@.len() && is_live(#[trigger] store@[g].state) implies data@.contains_key(store@[g].seed)
            && data@[store@[g].seed] == g by {
            if is_live(st0[g].state) && out_of_range(viewer, st0[g].seed) {
                assert(store@[g] == marked(st0[g]));
            }
            assert(store@[g] == st0[g]);
            assert(!out_of_range(viewer, st0[g].seed));
            assert(idx0.contains_key(st0[g].seed) && idx0[st0[g].seed] == g);
            assert(data@.contains_key(st0[g].seed));
        }
    }
}

/// Load pass: creates an empty chunk for every coordinate of the load window
/// around `viewer` that is not indexed yet, and indexes it.
pub fn load_window(store: &mut ChunkStore, data: &mut Data, viewer: ChunkCoord)
    requires
        consistent(old(data)@, old(store)@),
        viewer_in_range(viewer),
    ensures
        consistent(final(data)@, final(store)@),
        final(data).last_viewer() == old(data).last_viewer(),
        forall|c: ChunkCoord|
            #[trigger] final(data)@.contains_key(c) <==> old(data)@.contains_key(c) || in_window(viewer, c),
        forall|c: ChunkCoord|
            #[trigger] old(data)@.contains_key(c) ==> final(data)@[c] == old(data)@[c],
        old(store)@.len() <= final(store)@.len(),
        forall|h: int| 0 <= h < old(store)@.len() ==> #[trigger] final(store)@[h] == old(store)@[h],
        forall|h: int|
            old(store)@.len() <= h < final(store)@.len() ==> (#[trigger] final(store)@[h]).state
                == ChunkState::Empty && final(store)@[h].render == None::<u64>
                && in_window(viewer, final(store)@[h].seed)
                && !old(data)@.contains_key(final(store)@[h].seed),
{
    let lo_x: i64 = viewer.x as i64 - LOAD_DISTANCE as i64;
    let hi_x: i64 = viewer.x as i64 + LOAD_DISTANCE as i64 + 1;
    let lo_y: i64 = viewer.y as i64 - LOAD_DISTANCE as i64;
    let hi_y: i64 = viewer.y as i64 + LOAD_DISTANCE as i64 + 1;
    let mut cx: i64 = lo_x;
    while cx < hi_x
        invariant
            lo_x == viewer.x - LOAD_DISTANCE,
            hi_x == viewer.x + LOAD_DISTANCE + 1,
            lo_y == viewer.y - LOAD_DISTANCE,
            hi_y == viewer.y + LOAD_DISTANCE + 1,
            viewer_in_range(viewer),
            lo_x <= cx <= hi_x,
            consistent(data@, store@),
            data.last_viewer() == old(data).last_viewer(),
            forall|c: ChunkCoord|
                #[trigger] data@.contains_key(c) <==> old(data)@.contains_key(c)
                    || window_before(viewer, cx as int, lo_y as int, c),
            forall|c: ChunkCoord| #[trigger] old(data)@.contains_key(c) ==> data@[c] == old(data)@[c],
            old(store)@.len() <= store@.len(),
            forall|h: int| 0 <= h < old(store)@.len() ==> #[trigger] store@[h] == old(store)@[h],
            forall|h: int|
                old(store)@.len() <= h < store@.len() ==> (#[trigger] store@[h]).state == ChunkState::Empty
                    && store@[h].render == None::<u64> && in_window(viewer, store@[h].seed)
                    && !old(data)@.contains_key(store@[h].seed),
        decreases hi_x - cx,
    {
        let mut cy: i64 = lo_y;
        while cy < hi_y
            invariant
                lo_x == viewer.x - LOAD_DISTANCE,
                hi_x == viewer.x + LOAD_DISTANCE + 1,
                lo_y == viewer.y - LOAD_DISTANCE,
                hi_y == viewer.y + LOAD_DISTANCE + 1,
                viewer_in_range(viewer),
                lo_x <= cx < hi_x,
                lo_y <= cy <= hi_y,
                consistent(data@, store@),
                data.last_viewer() == old(data).last_viewer(),
                forall|c: ChunkCoord|
                    #[trigger] data@.contains_key(c) <==> old(data)@.contains_key(c)
                        || window_before(viewer, cx as int, cy as int, c),
                forall|c: ChunkCoord| #[trigger] old(data)@.contains_key(c) ==> data@[c] == old(data)@[c],
                old(store)@.len() <= store@.len(),
                forall|h: int| 0 <= h < old(store)@.len() ==> #[trigger] store@[h] == old(store)@[h],
                forall|h: int|
                    old(store)@.len() <= h < store@.len() ==> (#[trigger] store@[h]).state == ChunkState::Empty
                        && store@[h].render == None::<u64> && in_window(viewer, store@[h].seed)
                        && !old(data)@.contains_key(store@[h].seed),
            decreases hi_y - cy,
        {
            let c = ChunkCoord { x: cx as i32, y: cy as i32 };
            if data.get(c).is_none() {
                let ghost idx0 = data@;
                let ghost st0 = store@;
                let h = store.push(ChunkMap::new_with_transform(c));
                data.insert_new(c, h);
                proof {
                    assert forall|c2: ChunkCoord| #[trigger] data@.contains_key(c2) implies data@[c2]
                        < store@.len() && store@[data@[c2] as int].seed == c2 && is_live(
                        store@[data@[c2] as int].state,
                    ) by {
                        if c2 != c {
                            assert(idx0.contains_key(c2));
                            assert(store@[idx0[c2] as int] == st0[idx0[c2] as int]);
                        }
                    }
                    assert forall|h2: int|
                        0 <= h2 < store@.len() && is_live(#[trigger] store@[h2].state) implies data@.contains_key(
                        store@[h2].seed,
                    ) && data@[store@[h2].seed] == h2 by {
                        if h2 < st0.len() {
                            assert(store@[h2] == st0[h2]);
                            assert(idx0.contains_key(st0[h2].seed));
                        }
                    }
                }
            }
            cy = cy + 1;
        }
        cx = cx + 1;
    }
}

/// One tick of the streaming manager for the viewer's chunk `viewer`: the load
/// pass, then the unload-selection pass.
///
/// Afterwards every coordinate within `LOAD_DISTANCE` of the viewer (the load
/// window) is indexed, every coordinate more than `LOAD_DISTANCE + 1` away is
/// not (its chunk is tagged for unload), and a coordinate at distance exactly
/// `LOAD_DISTANCE + 1` keeps its previous state: the band between the two
/// neither loads nor unloads.
pub fn load(store: &mut ChunkStore, data: &mut Data, viewer: ChunkCoord)
    requires
        consistent(old(data)@, old(store)@),
        viewer_in_range(viewer),
    ensures
        consistent(final(data)@, final(store)@),
        final(data).last_viewer() == Some(viewer),
        lifecycle_advances(old(store)@, final(store)@),
        forall|c: ChunkCoord| in_window(viewer, c) ==> #[trigger] final(data)@.contains_key(c),
        forall|c: ChunkCoord| out_of_range(viewer, c) ==> !#[trigger] final(data)@.contains_key(c),
        forall|c: ChunkCoord|
            !in_window(viewer, c) && !out_of_range(viewer, c) ==> (#[trigger] final(data)@.contains_key(c)
                <==> old(data)@.contains_key(c)),
        forall|c: ChunkCoord|
            old(data)@.contains_key(c) && #[trigger] final(data)@.contains_key(c) ==> final(data)@[c]
                == old(data)@[c],
        old(store)@.len() <= final(store)@.len(),
        forall|h: int|
            0 <= h < old(store)@.len() ==> #[trigger] final(store)@[h] == (if is_live(old(store)@[h].state)
                && out_of_range(viewer, old(store)@[h].seed) {
                marked(old(store)@[h])
            } else {
                old(store)@[h]
            }),
        forall|h: int|
            old(store)@.len() <= h < final(store)@.len() ==> (#[trigger] final(store)@[h]).state
                == ChunkState::Empty && final(store)@[h].render == None::<u64>
                && in_window(viewer, final(store)@[h].seed)
                && !old(data)@.contains_key(final(store)@[h].seed),
{
    load_window(store, data, viewer);
    let ghost st1 = store@;
    mark_out_of_range(store, data, viewer);
    let ghost d1 = *data;
    data.viewer = Some(viewer);
    proof {
        // Only the viewer changed: the index is that of `d1`.
        assert(data@ =~= d1@);
        assert forall|h: int|
            old(store)@.len() <= h < store@.len() implies (#[trigger] store@[h]).state == ChunkState::Empty
            && store@[h].render == None::<u64> && in_window(viewer, store@[h].seed)
            && !old(data)@.contains_key(store@[h].seed) by {
            assert(st1[h].state == ChunkState::Empty);
        }
    }
}

/// Hysteresis: a chunk in the load window of viewer chunk `v` is not out of
/// range of any viewer chunk `w` one step from `v`. So a viewer that moves by
/// one chunk and back never unloads what it had loaded.
pub proof fn lemma_no_thrash(v: ChunkCoord, w: ChunkCoord, c: ChunkCoord)
    requires
        chebyshev(v, w) <= 1,
        in_window(v, c),
    ensures
        !out_of_range(w, c),
{
}

/// What the sweep hands to the renderer for one destroyed chunk: the chunk's
/// handle and its visual object, if it had one.
#[derive(Clone, Copy, PartialEq, Eq, Structural, Debug)]
pub struct Despawn {
    pub chunk: usize,
    pub render: Option<u64>,
}

/// `m` once swept: destroyed, its visual object gone.
pub open spec fn destroyed(m: ChunkMap) -> ChunkMap {
    ChunkMap { seed: m.seed, state: ChunkState::Destroyed, render: None }
}

/// Unload sweep: every chunk tagged for unload is destroyed together with its
/// visual object. Returns one `Despawn` per such chunk, in handle order.
#[verifier::rlimit(40)]
pub fn unload(store: &mut ChunkStore) -> (r: Vec<Despawn>)
    ensures
        final(store)@.len() == old(store)@.len(),
        lifecycle_advances(old(store)@, final(store)@),
        forall|h: int|
            0 <= h < old(store)@.len() ==> #[trigger] final(store)@[h] == (if old(store)@[h].state
                == ChunkState::MarkedForUnload {
                destroyed(old(store)@[h])
            } else {
                old(store)@[h]
            }),
        forall|i: int|
            0 <= i < r@.len() ==> (#[trigger] r@[i]).chunk < old(store)@.len()
                && old(store)@[r@[i].chunk as int].state == ChunkState::MarkedForUnload
                && r@[i].render == old(store)@[r@[i].chunk as int].render,
        forall|h: int|
            0 <= h < old(store)@.len() && (#[trigger] old(store)@[h]).state == ChunkState::MarkedForUnload
                ==> exists|i: int| 0 <= i < r@.len() && #[trigger] r@[i].chunk == h,
        forall|i: int, j: int| 0 <= i < j < r@.len() ==> (#[trigger] r@[i]).chunk < (#[trigger] r@[j]).chunk,
        forall|m: Map<ChunkCoord, usize>| #[trigger] consistent(m, old(store)@) ==> consistent(m, final(store)@),
{
    let ghost st0 = store@;
    let mut r: Vec<Despawn> = Vec::new();
    let mut h: usize = 0;
    while h < store.chunks.len()
        invariant
            store@.len() == st0.len(),
            h <= st0.len(),
            forall|g: int|
                0 <= g < h ==> #[trigger] store@[g] == (if st0[g].state == ChunkState::MarkedForUnload {
                    destroyed(st0[g])
                } else {
                    st0[g]
                }),
            forall|g: int| h <= g < st0.len() ==> #[trigger] store@[g] == st0[g],
            forall|i: int|
                0 <= i < r@.len() ==> (#[trigger] r@[i]).chunk < h && st0[r@[i].chunk as int].state
                    == ChunkState::MarkedForUnload && r@[i].render == st0[r@[i].chunk as int].render,
            forall|g: int|
                0 <= g < h && (#[trigger] st0[g]).state == ChunkState::MarkedForUnload ==> exists|i: int|
                    0 <= i < r@.len() && #[trigger] r@[i].chunk == g,
            forall|i: int, j: int| 0 <= i < j < r@.len() ==> (#[trigger] r@[i]).chunk < (#[trigger] r@[j]).chunk,
        decreases st0.len() - h,
    {
        let m = store.chunks[h];
        if m.state == ChunkState::MarkedForUnload {
            let ghost r0 = r@;
            r.push(Despawn { chunk: h, render: m.render });
            store.chunks.set(h, ChunkMap { seed: m.seed, state: ChunkState::Destroyed, render: None });
            proof {
                assert forall|g: int|
                    0 <= g < h + 1 && (#[trigger] st0[g]).state == ChunkState::MarkedForUnload implies exists|i: int|
                    0 <= i < r@.len() && #[trigger] r@[i].chunk == g by {
                    if g < h {
                        let i = choose|i: int| 0 <= i < r0.len() && #[trigger] r0[i].chunk == g;
                        assert(r@[i].chunk == g);
                    } else {
                        assert(r@[r0.len() as int].chunk == g);
                    }
                }
            }
        }
        h = h + 1;
    }
    proof {
        assert forall|m: Map<ChunkCoord, usize>| #[trigger] consistent(m, st0) implies consistent(m, store@) by {
            assert forall|c: ChunkCoord| #[trigger] m.contains_key(c) implies m[c] < store@.len()
                && store@[m[c] as int].seed == c && is_live(store@[m[c] as int].state) by {
                assert(store@[m[c] as int] == st0[m[c] as int]);
            }
            assert forall|g: int|
                0 <= g < store@.len() && is_live(#[trigger] store@[g].state) implies m.contains_key(store@[g].seed)
                && m[store@[g].seed] == g by {
                assert(store@[g] == st0[g]);
            }
        }
    }
    r
}

impl ChunkStore {
    /// The chunk under handle `h`, if there is one.
    pub fn get(&self, h: usize) -> (r: Option<ChunkMap>)
        ensures
            r == (if h < self@.len() { Some(self@[h as int]) } else { None::<ChunkMap> }),
    {
        if h < self.chunks.len() {
            Some(self.chunks[h])
        } else {
            None
        }
    }

    /// Number of chunks ever created.
    pub fn len(&self) -> (r: usize)
        ensures
            r == self@.len(),
    {
        self.chunks.len()
    }

    /// The chunks that still need generating, in handle order: exactly those
    /// that are `Empty`. Chunks tagged for unload are never among them.
    pub fn pending(&self) -> (r: Vec<usize>)
        ensures
            forall|i: int|
                0 <= i < r@.len() ==> #[trigger] r@[i] < self@.len() && self@[r@[i] as int].state
                    == ChunkState::Empty,
            forall|h: int|
                0 <= h < self@.len() && (#[trigger] self@[h]).state == ChunkState::Empty ==> exists|i: int|
                    0 <= i < r@.len() && #[trigger] r@[i] == h,
            forall|i: int, j: int| 0 <= i < j < r@.len() ==> #[trigger] r@[i] < #[trigger] r@[j],
    {
        let mut r: Vec<usize> = Vec::new();
        let mut h: usize = 0;
        while h < self.chunks.len()
            invariant
                h <= self@.len(),
                forall|i: int|
                    0 <= i < r@.len() ==> #[trigger] r@[i] < h && self@[r@[i] as int].state == ChunkState::Empty,
                forall|g: int|
                    0 <= g < h && (#[trigger] self@[g]).state == ChunkState::Empty ==> exists|i: int|
                        0 <= i < r@.len() && #[trigger] r@[i] == g,
                forall|i: int, j: int| 0 <= i < j < r@.len() ==> #[trigger] r@[i] < #[trigger] r@[j],
            decreases self@.len() - h,
        {
            if self.chunks[h].state == ChunkState::Empty {
                let ghost r0 = r@;
                r.push(h);
                proof {
                    assert forall|g: int|
                        0 <= g < h + 1 && (#[trigger] self@[g]).state == ChunkState::Empty implies exists|i: int|
                        0 <= i < r@.len() && #[trigger] r@[i] == g by {
                        if g < h {
                            let i = choose|i: int| 0 <= i < r0.len() && #[trigger] r0[i] == g;
                            assert(r@[i] == g);
                        } else {
                            assert(r@[r0.len() as int] == g);
                        }
                    }
                }
            }
            h = h + 1;
        }
        r
    }

    /// Records that chunk `h` has been generated and handed to the renderer as
    /// visual object `render`. Generation happens once: only an `Empty` chunk
    /// changes, and the result says whether it did.
    pub fn set_generated(&mut self, h: usize, render: u64) -> (r: bool)
        ensures
            r == (h < old(self)@.len() && old(self)@[h as int].state == ChunkState::Empty),
            r ==> final(self)@ == old(self)@.update(
                h as int,
                ChunkMap { seed: old(self)@[h as int].seed, state: ChunkState::Generated, render: Some(render) },
            ),
            !r ==> final(self)@ == old(self)@,
            lifecycle_advances(old(self)@, final(self)@),
            forall|m: Map<ChunkCoord, usize>| #[trigger] consistent(m, old(self)@) ==> consistent(m, final(self)@),
    {
        if h < self.chunks.len() && self.chunks[h].state == ChunkState::Empty {
            let ghost st0 = self@;
            let seed = self.chunks[h].seed;
            self.chunks.set(h, ChunkMap { seed, state: ChunkState::Generated, render: Some(render) });
            proof {
                assert forall|m: Map<ChunkCoord, usize>| #[trigger] consistent(m, st0) implies consistent(
                    m,
                    self@,
                ) by {
                    assert forall|g: int|
                        0 <= g < self@.len() && is_live(#[trigger] self@[g].state) implies m.contains_key(
                        self@[g].seed,
                    ) && m[self@[g].seed] == g by {
                        assert(is_live(st0[g].state));
                    }
                }
            }
            true
        } else {
            false
        }
    }
}

impl Data {
    /// Number of indexed coordinates.
    pub fn len(&self) -> (r: usize)
        ensures
            r == self@.dom().len(),
    {
        proof {
            lemma_key_bijection();
            let keys = self.loader@.dom();
            let f = |k: u64| coord_of(k);
            assert(keys.map(f) =~= self@.dom()) by {
                assert forall|c: ChunkCoord| #[trigger] self@.dom().contains(c) implies keys.map(f).contains(c) by {
                    assert(keys.contains(key_of(c)) && f(key_of(c)) == c);
                }
                assert forall|c: ChunkCoord| #[trigger] keys.map(f).contains(c) implies self@.dom().contains(c) by {
                    let k = choose|k: u64| keys.contains(k) && f(k) == c;
                    assert(key_of(c) == k);
                }
            }
            assert(injective_on(f, keys)) by {
                assert forall|k1: u64, k2: u64|
                    keys.contains(k1) && keys.contains(k2) && #[trigger] f(k1) == #[trigger] f(k2) implies k1 == k2 by {
                    assert(key_of(coord_of(k1)) == k1 && key_of(coord_of(k2)) == k2);
                }
            }
            lemma_map_size(keys, self@.dom(), f);
        }
        self.loader.len()
    }

    /// The viewer's chunk at the last load pass, if any.
    pub fn viewer(&self) -> (r: Option<ChunkCoord>)
        ensures
            r == self.last_viewer(),
    {
        self.viewer
    }
}

} // verus!
