use nft_marketplace::custody::{bytes_eq, custody_seed, derive_custody_authority};

fn program_id() -> Vec<u8> {
    let mut v = Vec::new();
    for i in 0..32u8 {
        v.push(i.wrapping_mul(7).wrapping_add(3));
    }
    v
}

#[test]
fn derivation_succeeds_for_ordinary_program_id() {
    let ca = derive_custody_authority(&program_id()).expect("derivation should succeed");
    assert_eq!(ca.address.len(), 32);
}

#[test]
fn derivation_is_deterministic() {
    let a = derive_custody_authority(&program_id()).expect("derivation should succeed");
    let b = derive_custody_authority(&program_id()).expect("derivation should succeed");
    assert_eq!(a.address, b.address);
    assert_eq!(a.bump, b.bump);
}

#[test]
fn derivation_actually_derives() {
    // The derived custody address is neither the program id nor the seed:
    // a wrapper that handed an argument back unchanged would fail here.
    let pid = program_id();
    let ca = derive_custody_authority(&pid).expect("derivation should succeed");
    assert_ne!(ca.address, pid);
    assert_ne!(ca.address, custody_seed());
}

#[test]
fn different_program_ids_give_different_authorities() {
    let first = derive_custody_authority(&program_id()).expect("derivation should succeed");
    let other_pid = vec![0u8; 32];
    let second = derive_custody_authority(&other_pid).expect("derivation should succeed");
    assert_ne!(first.address, second.address);
}

#[test]
fn derivation_matches_the_chain_sdk() {
    let pid_bytes = program_id();
    let arr: [u8; 32] = pid_bytes.as_slice().try_into().unwrap();
    let pid = solana_pubkey::Pubkey::from(arr);
    let (addr, bump) = solana_pubkey::Pubkey::find_program_address(&[b"nft_marketplace"], &pid);
    let ca = derive_custody_authority(&pid_bytes).expect("derivation should succeed");
    assert_eq!(ca.address, addr.to_bytes().to_vec());
    assert_eq!(ca.bump, bump);
}

#[test]
fn bytes_eq_compares_contents() {
    assert!(bytes_eq(&vec![1, 2, 3], &vec![1, 2, 3]));
    assert!(!bytes_eq(&vec![1, 2, 3], &vec![1, 2, 4]));
    assert!(!bytes_eq(&vec![1, 2, 3], &vec![1, 2]));
    assert!(bytes_eq(&Vec::new(), &Vec::new()));
}

#[test]
fn custody_seed_is_the_marketplace_namespace() {
    assert_eq!(custody_seed(), b"nft_marketplace".to_vec());
}
