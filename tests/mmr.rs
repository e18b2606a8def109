use albatross::mmr::PeaksMerkleMountainRange;

fn blake2b(data: &[u8]) -> [u8; 32] {
    let digest = blake2b_simd::Params::new().hash_length(32).hash(data);
    let mut out = [0u8; 32];
    out.copy_from_slice(digest.as_bytes());
    out
}

fn tagged(tag: u8, parts: &[&[u8]]) -> [u8; 32] {
    let mut data = vec![tag];
    for p in parts {
        data.extend_from_slice(p);
    }
    blake2b(&data)
}

#[test]
fn an_empty_range_has_the_zero_root() {
    let mmr = PeaksMerkleMountainRange::new();
    assert_eq!(mmr.get_root().0, [0u8; 32]);
    assert_eq!(mmr.len(), 0);
    assert_eq!(mmr.num_leaves(), 0);
}

#[test]
fn node_counts_follow_the_peaks() {
    let mut mmr = PeaksMerkleMountainRange::new();
    let expected = [1u64, 3, 4, 7, 8, 10, 11, 15];
    for (i, want) in expected.iter().enumerate() {
        assert_eq!(mmr.push(&[i as u8]), i as u64);
        assert_eq!(mmr.len(), *want);
    }
    assert_eq!(mmr.num_leaves(), 8);
}

#[test]
fn roots_match_an_independent_computation() {
    let mut mmr = PeaksMerkleMountainRange::new();
    mmr.push(b"a");
    let la = tagged(0, &[b"a"]);
    assert_eq!(mmr.get_root().0, la);

    mmr.push(b"b");
    let lb = tagged(0, &[b"b"]);
    let ab = tagged(1, &[&la, &lb]);
    assert_eq!(mmr.get_root().0, ab);

    mmr.push(b"c");
    let lc = tagged(0, &[b"c"]);
    assert_eq!(mmr.get_root().0, tagged(2, &[&ab, &lc]));

    mmr.push(b"d");
    let ld = tagged(0, &[b"d"]);
    let cd = tagged(1, &[&lc, &ld]);
    let abcd = tagged(1, &[&ab, &cd]);
    assert_eq!(mmr.get_root().0, abcd);

    mmr.push(b"e");
    mmr.push(b"f");
    mmr.push(b"g");
    let le = tagged(0, &[b"e"]);
    let lf = tagged(0, &[b"f"]);
    let lg = tagged(0, &[b"g"]);
    let ef = tagged(1, &[&le, &lf]);
    let bagged = tagged(2, &[&abcd, &tagged(2, &[&ef, &lg])]);
    assert_eq!(mmr.get_root().0, bagged);
}

#[test]
fn a_snapshot_keeps_the_root() {
    let mut mmr = PeaksMerkleMountainRange::new();
    mmr.push(b"x");
    let copy = mmr.snapshot();
    mmr.push(b"y");
    assert_ne!(copy.get_root().0, mmr.get_root().0);
    assert_eq!(copy.num_leaves(), 1);
}
