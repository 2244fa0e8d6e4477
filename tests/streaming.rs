use terrain::grid::ChunkCoord;
use terrain::streaming::{init, load, unload, ChunkState, ChunkStore, Data, LOAD_DISTANCE};

fn at(x: i32, y: i32) -> ChunkCoord {
    ChunkCoord { x, y }
}

fn indexed(data: &Data, lo: i32, hi: i32) -> Vec<(i32, i32)> {
    let mut out = Vec::new();
    for x in lo..hi {
        for y in lo..hi {
            if data.get(at(x, y)).is_some() {
                out.push((x, y));
            }
        }
    }
    out
}

fn block(cx: i32, cy: i32) -> Vec<(i32, i32)> {
    let mut out = Vec::new();
    for x in cx - 1..=cx + 1 {
        for y in cy - 1..=cy + 1 {
            out.push((x, y));
        }
    }
    out
}

#[test]
fn load_fills_the_window_around_the_origin() {
    assert_eq!(LOAD_DISTANCE, 1);
    let mut store = ChunkStore::new();
    let mut data = init();
    load(&mut store, &mut data, at(0, 0));
    assert_eq!(indexed(&data, -10, 10), block(0, 0));
    assert_eq!(store.len(), 9);
    assert_eq!(data.len(), 9);
    assert_eq!(data.viewer(), Some(at(0, 0)));
    for h in 0..9 {
        let m = store.get(h).unwrap();
        assert_eq!(m.state, ChunkState::Empty);
        assert_eq!(m.render, None);
        assert_eq!(data.get(m.seed), Some(h));
    }
}

#[test]
fn load_window_is_centred_on_a_negative_viewer() {
    let mut store = ChunkStore::new();
    let mut data = init();
    load(&mut store, &mut data, at(-1, -1));
    assert_eq!(indexed(&data, -10, 10), block(-1, -1));
    assert!(data.get(at(0, 0)).is_some());
}

#[test]
fn moving_far_away_marks_sweeps_and_reloads() {
    let mut store = ChunkStore::new();
    let mut data = init();
    load(&mut store, &mut data, at(0, 0));
    let first: Vec<usize> = (0..9).collect();
    load(&mut store, &mut data, at(5, 5));
    for &h in &first {
        assert_eq!(store.get(h).unwrap().state, ChunkState::MarkedForUnload);
    }
    assert_eq!(indexed(&data, -10, 10), block(5, 5));
    assert_eq!(data.len(), 9);
    let swept = unload(&mut store);
    let swept_handles: Vec<usize> = swept.iter().map(|d| d.chunk).collect();
    assert_eq!(swept_handles, first);
    for &h in &first {
        assert_eq!(store.get(h).unwrap().state, ChunkState::Destroyed);
    }
    for h in 9..18 {
        assert_eq!(store.get(h).unwrap().state, ChunkState::Empty);
    }
    assert!(unload(&mut store).is_empty());
}

#[test]
fn hysteresis_band_keeps_previous_state() {
    let mut store = ChunkStore::new();
    let mut data = init();
    assert_eq!(data.len(), 0);
    assert_eq!(data.viewer(), None);
    load(&mut store, &mut data, at(0, 0));
    let h1 = data.get(at(1, 0)).unwrap();
    let h0 = data.get(at(0, 0)).unwrap();
    // Viewer three chunks along x: (0, 0) is at distance 3 = D + 2, (1, 0) at
    // distance 2 = D + 1.
    load(&mut store, &mut data, at(3, 0));
    assert_eq!(data.get(at(0, 0)), None);
    assert_eq!(store.get(h0).unwrap().state, ChunkState::MarkedForUnload);
    assert_eq!(data.get(at(1, 0)), Some(h1));
    assert_eq!(store.get(h1).unwrap().state, ChunkState::Empty);
    // (5, 0) is at distance D + 1 and was never loaded: it stays out.
    assert_eq!(data.get(at(5, 0)), None);
    // The window around (3, 0) is loaded, the chunks at distance D included.
    assert!(data.get(at(2, 0)).is_some());
    assert!(data.get(at(4, 1)).is_some());
    assert!(data.get(at(4, -1)).is_some());
}

#[test]
fn stepping_one_chunk_and_back_unloads_nothing() {
    let mut store = ChunkStore::new();
    let mut data = init();
    load(&mut store, &mut data, at(0, 0));
    let before: Vec<Option<usize>> = block(0, 0).iter().map(|&(x, y)| data.get(at(x, y))).collect();
    load(&mut store, &mut data, at(1, 0));
    let created = store.len();
    let loaded = data.len();
    load(&mut store, &mut data, at(0, 0));
    assert_eq!(store.len(), created);
    assert_eq!(data.len(), loaded);
    let after: Vec<Option<usize>> = block(0, 0).iter().map(|&(x, y)| data.get(at(x, y))).collect();
    assert_eq!(before, after);
    assert!(unload(&mut store).is_empty());
    for h in 0..store.len() {
        assert_ne!(store.get(h).unwrap().state, ChunkState::MarkedForUnload);
    }
}

#[test]
fn generation_happens_once_and_skips_marked_chunks() {
    let mut store = ChunkStore::new();
    let mut data = init();
    load(&mut store, &mut data, at(0, 0));
    assert_eq!(store.pending(), (0..9).collect::<Vec<usize>>());
    assert!(store.set_generated(1, 77));
    assert!(!store.set_generated(1, 78));
    assert!(!store.set_generated(99, 1));
    let m = store.get(1).unwrap();
    assert_eq!(m.state, ChunkState::Generated);
    assert_eq!(m.render, Some(77));
    assert_eq!(store.pending(), vec![0, 2, 3, 4, 5, 6, 7, 8]);
    load(&mut store, &mut data, at(10, 10));
    // The old chunks are marked: none of them is pending any more.
    assert_eq!(store.pending(), (9..18).collect::<Vec<usize>>());
    assert!(!store.set_generated(0, 5));
    let swept = unload(&mut store);
    assert_eq!(swept.len(), 9);
    assert_eq!(swept[1].chunk, 1);
    assert_eq!(swept[1].render, Some(77));
    assert_eq!(swept[0].render, None);
    assert_eq!(store.get(1).unwrap().render, None);
}

#[test]
fn index_stays_consistent_over_a_walk() {
    let mut store = ChunkStore::new();
    let mut data = init();
    let path = [(0, 0), (1, 0), (2, 1), (3, 3), (-4, 2), (-4, 3), (0, 0), (7, -7)];
    for &(x, y) in &path {
        load(&mut store, &mut data, at(x, y));
        unload(&mut store);
        let mut seen = Vec::new();
        for cx in -20..20 {
            for cy in -20..20 {
                if let Some(h) = data.get(at(cx, cy)) {
                    let m = store.get(h).unwrap();
                    assert_eq!(m.seed, at(cx, cy));
                    assert!(m.state == ChunkState::Empty || m.state == ChunkState::Generated);
                    assert!(!seen.contains(&h));
                    seen.push(h);
                }
            }
        }
        let live = (0..store.len())
            .filter(|&h| {
                let s = store.get(h).unwrap().state;
                s == ChunkState::Empty || s == ChunkState::Generated
            })
            .count();
        assert_eq!(live, seen.len());
        assert_eq!(data.len(), seen.len());
    }
}

#[test]
fn load_near_the_edge_of_the_coordinate_range() {
    let mut store = ChunkStore::new();
    let mut data = init();
    load(&mut store, &mut data, at(i32::MAX - 1, i32::MIN + 1));
    assert!(data.get(at(i32::MAX - 2, i32::MIN)).is_some());
    assert!(data.get(at(i32::MAX, i32::MIN)).is_some());
    assert!(data.get(at(i32::MAX, i32::MIN + 2)).is_some());
    assert_eq!(store.len(), 9);
}

#[test]
fn new_chunk_is_empty() {
    let m = terrain::streaming::ChunkMap::new_with_transform(at(3, -2));
    assert_eq!(m.seed, at(3, -2));
    assert_eq!(m.state, ChunkState::Empty);
    assert_eq!(m.render, None);
}
