use phoxels::chunk::utils::BlockIter as ChunkBlockIter;
use phoxels::utils::{BlockIter, DynBlockIter};

#[test]
fn chunk_iter_scan_order() {
    let mut it: ChunkBlockIter<2> = ChunkBlockIter::new();
    let mut seen = Vec::new();
    while let Some(p) = it.next() {
        seen.push(p);
    }
    assert_eq!(
        seen,
        vec![
            (0, 0, 0),
            (1, 0, 0),
            (0, 0, 1),
            (1, 0, 1),
            (0, 1, 0),
            (1, 1, 0),
            (0, 1, 1),
            (1, 1, 1),
        ]
    );
    // exhausted for good
    assert_eq!(it.next(), None);
}

#[test]
fn chunk_iter_covers_whole_volume() {
    let mut it: ChunkBlockIter<8> = ChunkBlockIter::new();
    let mut count = 0;
    while it.next().is_some() {
        count += 1;
    }
    assert_eq!(count, 8 * 8 * 8);
}

#[test]
fn boxed_iter_scan_order() {
    let mut it: BlockIter<3, 1, 2> = BlockIter::new();
    let mut seen = Vec::new();
    while let Some(p) = it.next() {
        seen.push(p);
    }
    assert_eq!(
        seen,
        vec![(0, 0, 0), (1, 0, 0), (2, 0, 0), (0, 0, 1), (1, 0, 1), (2, 0, 1)]
    );
}

#[test]
fn dyn_iter_matches_sizes() {
    let mut it = DynBlockIter::new(2, 3, 2);
    let mut count = 0;
    let mut last = (0, 0, 0);
    while let Some(p) = it.next() {
        count += 1;
        last = p;
    }
    assert_eq!(count, 2 * 3 * 2);
    assert_eq!(last, (1, 2, 1));
}

#[test]
fn dyn_iter_default_walks_one_chunk() {
    let mut it = DynBlockIter::default();
    let mut count = 0;
    while it.next().is_some() {
        count += 1;
    }
    assert_eq!(count, 16 * 16 * 16);
}
