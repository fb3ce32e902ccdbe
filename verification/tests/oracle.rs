use burp::graph::oracle::{
    child_block_pairs, decide_block_pair, keep_child_pair, BlockPair, Oracle, OracleBuild, PairDecision,
};
use geo::{Coord, Intersects, Rect};

/// The positions of the block pairs one of whose blocks contains `c`, as a
/// spatial index over both blocks of every pair reports them.
fn hits(oracle: &Oracle<Rect<f64>>, c: Coord<f64>) -> Vec<usize> {
    let mut found = vec![];
    for i in 0..oracle.len() {
        let pair = oracle.block_pair(i);
        if pair.s_block.intersects(&c) {
            found.push(i);
        }
        if pair.t_block.intersects(&c) {
            found.push(i);
        }
    }
    found
}

#[test]
fn add_block_pair_test() {
    let mut oracle = Oracle::new();

    let rect_0 = Rect::new((0.5, 0.5), (1.0, 1.0));
    let rect_1 = Rect::new((10., 9.), (11., 12.));

    oracle.add_block_pair(rect_0, rect_1, 0);
}

#[test]
fn get_block_pairs_test() {
    let mut oracle = Oracle::new();

    let rect_0 = Rect::new((0.5, 0.5), (1.0, 1.0));
    let rect_1 = Rect::new((10., 9.), (11., 12.));

    let expected = oracle.add_block_pair(rect_0, rect_1, 0);

    let s = Coord { x: 0.6, y: 0.8 };
    let t = Coord { x: 10.5, y: 10. };
    let block_pairs = oracle.get_block_pairs(&hits(&oracle, s), &hits(&oracle, t));

    assert_eq!(block_pairs, vec![expected]);
    assert_eq!(
        oracle.block_pair(block_pairs[0]),
        &BlockPair { s_block: rect_0, t_block: rect_1, poi_id: 0 }
    );
}

#[test]
fn queries_are_symmetric_and_miss_outside_points() {
    let mut oracle = Oracle::new();
    oracle.add_block_pair(Rect::new((0., 0.), (1., 1.)), Rect::new((5., 5.), (6., 6.)), 7);
    oracle.add_block_pair(Rect::new((0., 0.), (2., 2.)), Rect::new((8., 8.), (9., 9.)), 8);
    oracle.add_block_pair(Rect::new((5., 5.), (6., 6.)), Rect::new((0., 0.), (1., 1.)), 9);
    let a = Coord { x: 0.5, y: 0.5 };
    let b = Coord { x: 5.5, y: 5.5 };
    let far = Coord { x: 50., y: 50. };
    let ab = oracle.get_block_pairs(&hits(&oracle, a), &hits(&oracle, b));
    let ba = oracle.get_block_pairs(&hits(&oracle, b), &hits(&oracle, a));
    assert_eq!(ab, vec![0, 2]);
    assert_eq!(ab, ba);
    let pois = oracle.get_pois(&hits(&oracle, a), &hits(&oracle, b));
    assert_eq!(pois.len(), 2);
    assert!(pois.contains(&7) && pois.contains(&9));
    assert!(oracle.get_block_pairs(&hits(&oracle, a), &hits(&oracle, far)).is_empty());
    assert!(oracle.get_pois(&hits(&oracle, far), &hits(&oracle, a)).is_empty());
    assert_eq!(oracle.get_blocks_at(&hits(&oracle, a)), vec![0, 1, 2]);
    assert_eq!(oracle.get_blocks_at(&[2, 3, 0]), vec![2, 0]);
}

#[test]
fn block_pair_decisions() {
    assert_eq!(decide_block_pair(true, false, None), PairDecision::Split);
    assert_eq!(decide_block_pair(false, false, Some((true, false))), PairDecision::Discard);
    assert_eq!(decide_block_pair(false, true, None), PairDecision::Discard);
    assert_eq!(decide_block_pair(false, true, Some((true, true))), PairDecision::Add);
    assert_eq!(decide_block_pair(false, true, Some((false, true))), PairDecision::Discard);
    assert_eq!(decide_block_pair(false, true, Some((false, false))), PairDecision::Split);
}

#[test]
fn child_pairs_are_the_product() {
    let pairs = child_block_pairs(&[1, 2], &[10, 11, 12]);
    assert_eq!(pairs, vec![(1, 10), (1, 11), (1, 12), (2, 10), (2, 11), (2, 12)]);
    assert!(child_block_pairs::<u8>(&[], &[1]).is_empty());
    assert!(!keep_child_pair(&[4], &[4]));
    assert!(keep_child_pair(&[4], &[5]));
    assert!(keep_child_pair(&[4, 5], &[4, 5]));
    assert!(keep_child_pair(&[], &[]));
}

#[test]
fn a_build_adds_only_good_pairs_for_its_poi() {
    let mut oracle: Oracle<u8> = Oracle::new();
    let mut build = OracleBuild::new(0u8, 7);

    // The root pairs a block with itself and is always split.
    let root = build.next_pair().unwrap();
    assert_eq!(root, (0, 0));
    assert_eq!(build.examine(&mut oracle, root, true, true, None), PairDecision::Split);
    assert_eq!(oracle.len(), 0);
    // Quarters 1 and 2 of the first block, 3 of the second; the pair (2, 3)
    // is dropped.
    build.split(&[1, 2], &[3], &[true, false]);

    let child = build.next_pair().unwrap();
    assert_eq!(child, (1, 3));
    assert!(build.next_pair().is_none());

    // In-path wins: the pair is added for the build's point of interest.
    assert_eq!(build.examine(&mut oracle, child, false, true, Some((true, true))), PairDecision::Add);
    assert_eq!(oracle.len(), 1);
    assert_eq!(*oracle.block_pair(0), BlockPair { s_block: 1, t_block: 3, poi_id: 7 });

    // Not in path, an empty block, or missing distances drop the pair.
    assert_eq!(build.examine(&mut oracle, (2, 3), false, true, Some((false, true))), PairDecision::Discard);
    assert_eq!(build.examine(&mut oracle, (2, 3), false, false, Some((true, false))), PairDecision::Discard);
    assert_eq!(build.examine(&mut oracle, (2, 3), false, true, None), PairDecision::Discard);
    assert_eq!(oracle.len(), 1);
}
