use cadsd::fingerprint::geo_hash;
use cadsd::fingerprint::FINGERPRINT_MULTIPLIER;

fn bits_of(points: &[[f64; 2]]) -> Vec<u64> {
    points.iter().flat_map(|p| [p[0].to_bits(), p[1].to_bits()]).collect()
}

#[test]
fn empty_geometry_hashes_to_zero() {
    assert_eq!(geo_hash(&Vec::new()), 0);
}

#[test]
fn hash_folds_multiply_then_add() {
    assert_eq!(geo_hash(&vec![1]), 1);
    assert_eq!(geo_hash(&vec![1, 2]), 0x517cc1b727265a97);
    assert_eq!(
        geo_hash(&vec![1, 2, 3]),
        0x517cc1b727265a97u64.wrapping_mul(FINGERPRINT_MULTIPLIER).wrapping_add(3)
    );
}

#[test]
fn hash_of_a_point_reads_both_coordinates() {
    let bits = bits_of(&[[0.0, 32.0]]);
    assert_eq!(bits, vec![0, 0x4040000000000000]);
    assert_eq!(geo_hash(&bits), 0x4040000000000000);
    let moved = bits_of(&[[0.0, 33.0]]);
    assert_ne!(geo_hash(&bits), geo_hash(&moved));
}
