use merkle_tree::combiner::{combine, preimage};
use merkle_tree::order::is_greater;
use merkle_tree::tree::next_level;

fn hex(text: &str) -> Vec<u8> {
    text.as_bytes().to_vec()
}

#[test]
fn greater_is_decided_at_the_first_difference() {
    assert!(is_greater(&[1, 2, 3], &[0, 1, 2]));
    assert!(!is_greater(&[0, 1, 2], &[1, 2, 3]));
    assert!(is_greater(&[1, 2, 4], &[1, 2, 3]));
    assert!(!is_greater(&[1, 2, 3], &[1, 2, 4]));
    assert!(is_greater(&[2], &[1, 255, 255]));
    assert!(!is_greater(&[1, 255, 255], &[2]));
}

#[test]
fn greater_counts_bytes_as_unsigned() {
    assert!(is_greater(&[128], &[127]));
    assert!(is_greater(&[255], &[0]));
    assert!(!is_greater(&[0], &[255]));
}

#[test]
fn a_proper_prefix_is_the_lesser() {
    assert!(is_greater(&[1, 2, 3], &[1, 2]));
    assert!(!is_greater(&[1, 2], &[1, 2, 3]));
    assert!(is_greater(&[0], &[]));
    assert!(!is_greater(&[], &[0]));
}

#[test]
fn equal_byte_strings_are_not_greater() {
    assert!(!is_greater(&[], &[]));
    assert!(!is_greater(&[7, 7, 7], &[7, 7, 7]));
}

#[test]
fn greater_agrees_with_the_order_of_vectors() {
    let samples: Vec<Vec<u8>> = vec![
        vec![],
        vec![0],
        vec![0, 0],
        vec![0, 1],
        vec![1],
        vec![1, 0],
        vec![1, 2, 3],
        vec![1, 2, 3, 0],
        vec![200],
        vec![200, 1],
        vec![255, 255],
    ];
    for a in &samples {
        for b in &samples {
            assert_eq!(is_greater(a, b), a > b);
        }
    }
}

#[test]
fn exactly_one_of_greater_lesser_equal_holds() {
    let samples: Vec<Vec<u8>> = vec![vec![], vec![3], vec![3, 0], vec![3, 1], vec![4], vec![2, 9]];
    for a in &samples {
        for b in &samples {
            let holds = [is_greater(a, b), is_greater(b, a), a == b];
            assert_eq!(holds.iter().filter(|h| **h).count(), 1);
        }
    }
}

#[test]
fn preimage_puts_the_greater_first() {
    assert_eq!(preimage(&[1, 2, 3], &[0, 1, 2]), vec![1, 2, 3, 0, 1, 2]);
    assert_eq!(preimage(&[0, 1, 2], &[1, 2, 3]), vec![1, 2, 3, 0, 1, 2]);
    assert_eq!(preimage(&[9], &[9, 0]), vec![9, 0, 9]);
    assert_eq!(preimage(&[9, 0], &[9]), vec![9, 0, 9]);
}

#[test]
fn preimage_of_a_node_with_itself_repeats_it() {
    assert_eq!(preimage(&[5, 6], &[5, 6]), vec![5, 6, 5, 6]);
    assert_eq!(preimage(&[], &[]), Vec::<u8>::new());
}

#[test]
fn combine_is_the_hex_digest_of_the_preimage() {
    assert_eq!(
        combine(b"hello", b""),
        hex("2cf24dba5fb0a30e26e83b2ac5b9e29e1b161e5c1fa7425e73043362938b9824")
    );
    assert_eq!(
        combine(b"a", b"b"),
        hex("970f519c2cadbcefb1e81694f904bc6229dd2a8300e98c6d0d4fc4bfca584140")
    );
    assert_eq!(
        combine(b"a", b"a"),
        hex("961b6dd3ede3cb8ecbaacbd68de040cd78eb2ed5889130cceb4c49268ea4d506")
    );
}

#[test]
fn combine_does_not_hand_its_input_back() {
    let out = combine(b"hello", b"");
    assert_eq!(out.len(), 64);
    assert_ne!(out, b"hello".to_vec());
    assert!(out.iter().all(|b| b.is_ascii_hexdigit() && !b.is_ascii_uppercase()));
}

#[test]
fn combine_is_commutative() {
    let samples: Vec<Vec<u8>> = vec![
        vec![],
        vec![0],
        vec![0, 1, 2],
        vec![1, 2, 3],
        vec![1, 2],
        vec![255],
        hex("3ba35ee83f218013f8b83f08ae2c06c9d8e05a198d271c57c9e9a1771b44a211"),
    ];
    for a in &samples {
        for b in &samples {
            assert_eq!(combine(a, b), combine(b, a));
            assert_eq!(preimage(a, b), preimage(b, a));
        }
    }
}

#[test]
fn next_level_combines_adjacent_pairs() {
    let level: Vec<Vec<u8>> = vec![vec![0, 1, 2], vec![0, 1, 2], vec![1, 2, 3], vec![1, 2, 3]];
    let above = next_level(&level, true);
    assert_eq!(
        above,
        vec![
            hex("ddbadcc1c88a1cb459ec8b5784a498abcc01c0e3199e0c7bf2f32d20b03692e9"),
            hex("3ba35ee83f218013f8b83f08ae2c06c9d8e05a198d271c57c9e9a1771b44a211"),
        ]
    );
    assert_eq!(next_level(&level, false), above);
}

#[test]
fn next_level_pairs_a_lone_leaf_with_itself() {
    let level: Vec<Vec<u8>> = vec![b"a".to_vec(), b"b".to_vec(), b"c".to_vec()];
    let above = next_level(&level, true);
    assert_eq!(above.len(), 2);
    assert_eq!(above[0], combine(b"a", b"b"));
    assert_eq!(above[1], combine(b"c", b"c"));
    assert_eq!(
        above[1],
        hex("355b1bbfc96725cdce8f4a2708fda310a80e6d13315aec4e5eed2a75fe8032ce")
    );
}

#[test]
fn next_level_carries_a_lone_node_above_the_leaves() {
    let level: Vec<Vec<u8>> = vec![b"a".to_vec(), b"b".to_vec(), b"c".to_vec()];
    let above = next_level(&level, false);
    assert_eq!(above.len(), 2);
    assert_eq!(above[0], combine(b"a", b"b"));
    assert_eq!(above[1], b"c".to_vec());
}

#[test]
fn next_level_of_short_levels() {
    let none: Vec<Vec<u8>> = Vec::new();
    assert!(next_level(&none, true).is_empty());
    assert!(next_level(&none, false).is_empty());
    let one: Vec<Vec<u8>> = vec![vec![4, 2]];
    assert_eq!(next_level(&one, false), vec![vec![4u8, 2]]);
    assert_eq!(next_level(&one, true), vec![combine(&[4, 2], &[4, 2])]);
}

#[test]
fn pairs_with_the_same_arrangement_combine_alike() {
    assert_eq!(preimage(b"b", b"ab"), b"bab".to_vec());
    assert_eq!(preimage(b"b", b"ba"), b"bab".to_vec());
    assert_eq!(combine(b"b", b"ab"), combine(b"b", b"ba"));
}
