use liquid_core::hash::HashFamily;
use liquid_core::selector::{build_signature, compute_selector, tuple_type_name};

fn args(names: &[&str]) -> Vec<String> {
    names.iter().map(|n| n.to_string()).collect()
}

#[test]
fn signature_is_name_and_joined_types() {
    let sig = build_signature("transfer", &args(&["address", "uint256"]));
    assert_eq!(sig, "transfer(address,uint256)");
    let sig_empty = build_signature("get", &args(&[]));
    assert_eq!(sig_empty, "get()");
}

#[test]
fn composite_type_names_are_recursive() {
    let inner = tuple_type_name(&args(&["u8", "bool"]));
    assert_eq!(inner, "(u8,bool)");
    let outer = tuple_type_name(&vec![inner.clone(), "address".to_string()]);
    assert_eq!(outer, "((u8,bool),address)");
}

#[test]
fn selector_recomputation_is_deterministic() {
    let a1 = compute_selector(HashFamily::Keccak256, "transfer", &args(&["address"]));
    let a2 = compute_selector(HashFamily::Keccak256, "transfer", &args(&["address"]));
    assert_eq!(a1, a2);
    let b1 = compute_selector(HashFamily::Sm3, "transfer", &args(&["address"]));
    let b2 = compute_selector(HashFamily::Sm3, "transfer", &args(&["address"]));
    assert_eq!(b1, b2);
}

#[test]
fn keccak_selector_matches_known_vector() {
    // keccak256("transfer(address,uint256)") begins a9 05 9c bb.
    let sel = compute_selector(HashFamily::Keccak256, "transfer", &args(&["address", "uint256"]));
    assert_eq!(sel, 0xa9059cbb);
}

#[test]
fn hash_families_are_independent() {
    let keccak = compute_selector(HashFamily::Keccak256, "transfer", &args(&["address"]));
    let sm3 = compute_selector(HashFamily::Sm3, "transfer", &args(&["address"]));
    assert_ne!(keccak, sm3);
    // Neither selector is the first four signature bytes handed back:
    // "tran" big-endian.
    let prefix = u32::from_be_bytes([b't', b'r', b'a', b'n']);
    assert_ne!(keccak, prefix);
    assert_ne!(sm3, prefix);
}

#[test]
fn different_signatures_give_different_selectors() {
    let one = compute_selector(HashFamily::Keccak256, "transfer", &args(&["address"]));
    let two = compute_selector(HashFamily::Keccak256, "transfer", &args(&["address", "uint256"]));
    assert_ne!(one, two);
}
