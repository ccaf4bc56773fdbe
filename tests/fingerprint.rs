use which_dex::fingerprint::{
    extract_eip1167_impl, is_eip1167_proxy, normalize_push_data, strip_metadata,
};
use which_dex::{Fingerprint, FingerprintError, Similarity};

const PROXY_HEX: &str =
    "363d3d373d3d3d363d7395885af5492195f0754be71ad1545fe81364e5315af43d82803e903d91602b57fd5bf3";

fn sample_code(len: usize) -> Vec<u8> {
    let mut v = Vec::new();
    let mut x: u32 = 12345;
    while v.len() < len {
        x = x.wrapping_mul(1103515245).wrapping_add(12345);
        let b = (x >> 16) as u8;
        // keep clear of push opcodes and metadata markers
        v.push(if (0x60..=0x7f).contains(&b) || b == 0xa2 || b == 0xa1 { b ^ 0x80 } else { b });
    }
    v
}

#[test]
fn test_strip_metadata() {
    let bytecode = vec![0x60, 0x80, 0x60, 0x40, 0xa2, 0x64, 0x69, 0x70];
    let stripped = strip_metadata(&bytecode);
    assert_eq!(stripped, &[0x60, 0x80, 0x60, 0x40]);
}

#[test]
fn test_normalize_push_data() {
    let bytecode = vec![0x60, 0x80, 0x60, 0x40];
    let normalized = normalize_push_data(&bytecode);
    assert_eq!(normalized, vec![0x60, 0x00, 0x60, 0x00]);
}

#[test]
fn test_is_eip1167_proxy() {
    let proxy = hex::decode(PROXY_HEX).unwrap();
    assert!(is_eip1167_proxy(&proxy));

    let not_proxy = vec![0x60, 0x80, 0x60, 0x40];
    assert!(!is_eip1167_proxy(&not_proxy));
}

#[test]
fn test_extract_eip1167_impl() {
    let proxy = hex::decode(PROXY_HEX).unwrap();
    let impl_addr = extract_eip1167_impl(&proxy).unwrap();
    assert_eq!(hex::encode(impl_addr), "95885af5492195f0754be71ad1545fe81364e531");
}

#[test]
fn test_similarity_from_diff() {
    assert_eq!(Similarity::from_diff(0), Similarity::Identical);
    assert_eq!(Similarity::from_diff(15), Similarity::SameContract);
    assert_eq!(Similarity::from_diff(50), Similarity::SameFamily);
    assert_eq!(Similarity::from_diff(120), Similarity::PossiblyRelated);
    assert_eq!(Similarity::from_diff(200), Similarity::Different);
}

#[test]
fn similarity_tier_boundaries() {
    assert_eq!(Similarity::from_diff(1), Similarity::SameContract);
    assert_eq!(Similarity::from_diff(30), Similarity::SameContract);
    assert_eq!(Similarity::from_diff(31), Similarity::SameFamily);
    assert_eq!(Similarity::from_diff(100), Similarity::SameFamily);
    assert_eq!(Similarity::from_diff(101), Similarity::PossiblyRelated);
    assert_eq!(Similarity::from_diff(150), Similarity::PossiblyRelated);
    assert_eq!(Similarity::from_diff(151), Similarity::Different);
    assert!(Similarity::SameFamily.is_same_family());
    assert!(!Similarity::PossiblyRelated.is_same_family());
}

#[test]
fn strip_cuts_at_rightmost_marker_of_either_kind() {
    let code = vec![0x01, 0xa1, 0x65, 0x02, 0xa2, 0x64, 0x03, 0xa2, 0x64, 0x04, 0xa1, 0x65];
    assert_eq!(
        strip_metadata(&code),
        &[0x01, 0xa1, 0x65, 0x02, 0xa2, 0x64, 0x03, 0xa2, 0x64, 0x04]
    );
    let mixed = vec![0xa2, 0x64, 0x00, 0xa1, 0x65, 0x00];
    assert_eq!(strip_metadata(&mixed), &[0xa2, 0x64, 0x00]);
    let new_last = vec![0xa1, 0x65, 0x00, 0xa2, 0x64, 0x00];
    assert_eq!(strip_metadata(&new_last), &[0xa1, 0x65, 0x00]);
    let old_only = vec![0x01, 0xa1, 0x65, 0x02, 0xa1, 0x65, 0x03];
    assert_eq!(strip_metadata(&old_only), &[0x01, 0xa1, 0x65, 0x02]);
    let none = vec![0x01, 0x02, 0xa2, 0x65];
    assert_eq!(strip_metadata(&none), &[0x01, 0x02, 0xa2, 0x65]);
    assert_eq!(strip_metadata(&[]), &[] as &[u8]);
}

#[test]
fn strip_twice_when_no_marker_is_left() {
    let code = vec![0x10, 0x20, 0xa2, 0x64, 0x99];
    let once = strip_metadata(&code).to_vec();
    let twice = strip_metadata(&once).to_vec();
    assert_eq!(once, twice);
}

#[test]
fn normalize_truncated_push_and_push32() {
    // PUSH3 with only two operand bytes left
    assert_eq!(normalize_push_data(&[0x01, 0x62, 0xaa, 0xbb]), vec![0x01, 0x62, 0x00, 0x00]);
    // PUSH32 followed by a STOP
    let mut code = vec![0x7f];
    code.extend(std::iter::repeat(0xffu8).take(32));
    code.push(0x00);
    let mut expected = vec![0x7f];
    expected.extend(std::iter::repeat(0u8).take(32));
    expected.push(0x00);
    assert_eq!(normalize_push_data(&code), expected);
    assert_eq!(normalize_push_data(&[]), Vec::<u8>::new());
}

#[test]
fn normalize_is_idempotent() {
    let code = vec![0x60, 0x12, 0x61, 0x34, 0x56, 0x01, 0x7f, 0x01, 0x02];
    let once = normalize_push_data(&code);
    assert_eq!(normalize_push_data(&once), once);
}

#[test]
fn proxies_with_different_targets_normalize_alike() {
    let a = hex::decode(PROXY_HEX).unwrap();
    let mut b = a.clone();
    for byte in b.iter_mut().skip(10).take(20) {
        *byte = 0x11;
    }
    assert_ne!(a, b);
    assert_eq!(normalize_push_data(&a), normalize_push_data(&b));
}

#[test]
fn proxy_needs_exact_length() {
    let mut proxy = hex::decode(PROXY_HEX).unwrap();
    proxy.push(0x00);
    assert!(!is_eip1167_proxy(&proxy));
    assert_eq!(extract_eip1167_impl(&proxy), None);
    proxy.truncate(44);
    assert!(!is_eip1167_proxy(&proxy));
}

#[test]
fn fingerprint_too_small_below_fifty_bytes() {
    for len in [0usize, 1, 49] {
        let code = sample_code(len);
        assert_eq!(
            Fingerprint::from_bytecode(&code).err(),
            Some(FingerprintError::BytecodeTooSmall(len))
        );
    }
    assert_eq!(
        FingerprintError::BytecodeTooSmall(49).message(),
        "bytecode too small for TLSH (need at least 50 bytes, got 49)"
    );
    assert_eq!(FingerprintError::InvalidBytecode.message(), "invalid bytecode");
    assert!(FingerprintError::BytecodeTooSmall(0).message().ends_with("got 0)"));
    assert!(FingerprintError::BytecodeTooSmall(10).message().ends_with("got 10)"));
    assert!(FingerprintError::BytecodeTooSmall(1203).message().ends_with("got 1203)"));
}

#[test]
fn fingerprint_of_degenerate_input_fails() {
    let code = vec![0u8; 200];
    assert_eq!(
        Fingerprint::from_bytecode(&code).err(),
        Some(FingerprintError::InvalidBytecode)
    );
}

#[test]
fn fingerprint_deterministic_and_symmetric() {
    let code = sample_code(600);
    let f1 = Fingerprint::from_bytecode(&code).unwrap();
    let f2 = Fingerprint::from_bytecode(&code).unwrap();
    assert_eq!(f1.hash(), f2.hash());
    assert_eq!(f1.diff(&f2), 0);
    assert_eq!(f1.similarity(&f2), Similarity::Identical);
    assert_eq!(f1.original_size(), 600);
    assert_eq!(f1.normalized_size(), 600);
    assert_eq!(&f1.hash()[..2], b"T1");
    assert_eq!(f1.hash_hex(), hex::encode(f1.hash()));

    let other = sample_code(900);
    let g = Fingerprint::from_bytecode(&other[300..]).unwrap();
    assert_eq!(f1.diff(&g), g.diff(&f1));
    assert!(f1.diff(&g) > 0);
}

#[test]
fn fingerprint_ignores_push_operands() {
    let mut a = sample_code(400);
    let mut b = a.clone();
    a[100] = 0x73; // PUSH20
    b[100] = 0x73;
    for k in 101..121 {
        a[k] = 0x11;
        b[k] = 0x22;
    }
    let fa = Fingerprint::from_bytecode(&a).unwrap();
    let fb = Fingerprint::from_bytecode(&b).unwrap();
    assert_eq!(fa.diff(&fb), 0);
}

#[test]
fn fingerprint_sizes_after_stripping() {
    let mut code = sample_code(300);
    code.extend_from_slice(&[0xa2, 0x64, 0x69, 0x70, 0x66, 0x73]);
    let f = Fingerprint::from_bytecode(&code).unwrap();
    assert_eq!(f.original_size(), 306);
    assert_eq!(f.normalized_size(), 300);
}
