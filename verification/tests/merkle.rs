use ncn_core::merkle::{
    hash_eq, hash_intermediate, hash_le, hash_leaf, hash_parent, verify_helper, BorshHash,
    MetaMerkleLeaf, MetaMerkleLeafBundle, MetaMerkleSnapshot, StakeMerkleLeaf,
};
use ncn_core::{Hash32, NCNProgramError, Pubkey};
use solana_sdk::hash::hashv;

fn key(seed: u8) -> Pubkey {
    let mut bytes = [0u8; 32];
    for (i, b) in bytes.iter_mut().enumerate() {
        *b = seed.wrapping_mul(31).wrapping_add(i as u8);
    }
    Pubkey(bytes)
}

fn digest(seed: u8) -> Hash32 {
    let mut bytes = [0u8; 32];
    for (i, b) in bytes.iter_mut().enumerate() {
        *b = seed.wrapping_mul(17).wrapping_add((i as u8).wrapping_mul(3));
    }
    Hash32(bytes)
}

/// The parent of two nodes, computed with solana's own hash and ordering.
fn reference_parent(a: [u8; 32], b: [u8; 32]) -> [u8; 32] {
    let ha = solana_sdk::hash::Hash::new_from_array(a);
    let hb = solana_sdk::hash::Hash::new_from_array(b);
    if ha <= hb {
        hashv(&[&[1u8], ha.as_ref(), hb.as_ref()]).to_bytes()
    } else {
        hashv(&[&[1u8], hb.as_ref(), ha.as_ref()]).to_bytes()
    }
}

fn reference_leaf(content: &[u8]) -> [u8; 32] {
    hashv(&[&[0u8], content]).to_bytes()
}

/// Builds a complete tree over `leaves` (a power of two of them) and
/// returns its root and the proof of each leaf.
fn build_tree(leaves: &[Vec<u8>]) -> ([u8; 32], Vec<Vec<[u8; 32]>>) {
    let mut level: Vec<[u8; 32]> = leaves.iter().map(|c| reference_leaf(c)).collect();
    let mut positions: Vec<usize> = (0..leaves.len()).collect();
    let mut proofs: Vec<Vec<[u8; 32]>> = vec![Vec::new(); leaves.len()];
    while level.len() > 1 {
        for (leaf, pos) in positions.iter_mut().enumerate() {
            proofs[leaf].push(level[*pos ^ 1]);
            *pos /= 2;
        }
        level = level.chunks(2).map(|pair| reference_parent(pair[0], pair[1])).collect();
    }
    (level[0], proofs)
}

fn meta_leaf(seed: u8) -> MetaMerkleLeaf {
    MetaMerkleLeaf {
        voting_wallet: key(seed),
        vote_account: key(seed.wrapping_add(100)),
        stake_merkle_root: BorshHash(digest(seed)),
        active_stake: 1_000_000_000u64 * (seed as u64 + 1),
    }
}

fn snapshot(count: u8) -> MetaMerkleSnapshot {
    let leaves: Vec<MetaMerkleLeaf> = (0..count).map(meta_leaf).collect();
    let contents: Vec<Vec<u8>> = leaves.iter().map(|l| l.hash().0.to_vec()).collect();
    let (root, proofs) = build_tree(&contents);
    let leaf_bundles = leaves
        .into_iter()
        .zip(proofs)
        .map(|(leaf, proof)| MetaMerkleLeafBundle {
            meta_merkle_leaf: leaf,
            stake_merkle_leaves: vec![StakeMerkleLeaf {
                voting_wallet: leaf.voting_wallet,
                stake_account: key(7),
                active_stake: leaf.active_stake,
            }],
            proof: Some(proof),
        })
        .collect();
    MetaMerkleSnapshot { root: BorshHash(Hash32(root)), leaf_bundles, slot: 42 }
}

#[test]
fn verify_merkle() {
    let snapshot = snapshot(128);
    let winning_merkle = snapshot.root;

    // Verify for some vote accounts.
    for i in 0..10 {
        let bundle = snapshot.leaf_bundles[i * 10].clone();
        let proof = bundle.proof.unwrap();
        let leaf = bundle.meta_merkle_leaf;
        let content = leaf.hash().to_bytes();
        assert_eq!(verify_helper(&content, proof, winning_merkle.0), Ok(()));
    }

    // Expect failure for wrong proofs.
    for i in 0..10 {
        let bundle1 = snapshot.leaf_bundles[i + 5].clone();
        let bundle2 = snapshot.leaf_bundles[i + 3].clone();
        let proof = bundle1.proof.unwrap();
        let content = bundle2.meta_merkle_leaf.hash().to_bytes();
        assert_eq!(
            verify_helper(&content, proof, winning_merkle.0),
            Err(NCNProgramError::InvalidProof)
        );
    }
}

#[test]
fn every_leaf_of_a_tree_verifies() {
    let contents: Vec<Vec<u8>> = (0..8u8).map(|i| vec![i; (i as usize) + 1]).collect();
    let (root, proofs) = build_tree(&contents);
    for (content, proof) in contents.iter().zip(proofs.iter()) {
        assert_eq!(verify_helper(content, proof.clone(), Hash32(root)), Ok(()));
    }
}

#[test]
fn wrong_root_is_refused() {
    let contents: Vec<Vec<u8>> = (0..4u8).map(|i| vec![i, i]).collect();
    let (mut root, proofs) = build_tree(&contents);
    root[31] ^= 1;
    assert_eq!(
        verify_helper(&contents[0], proofs[0].clone(), Hash32(root)),
        Err(NCNProgramError::InvalidProof)
    );
}

#[test]
fn tampered_proof_is_refused() {
    let contents: Vec<Vec<u8>> = (0..4u8).map(|i| vec![i, 9]).collect();
    let (root, proofs) = build_tree(&contents);
    let mut proof = proofs[2].clone();
    proof[1][0] ^= 0x80;
    assert_eq!(
        verify_helper(&contents[2], proof, Hash32(root)),
        Err(NCNProgramError::InvalidProof)
    );
    let mut short = proofs[2].clone();
    short.pop();
    assert_eq!(
        verify_helper(&contents[2], short, Hash32(root)),
        Err(NCNProgramError::InvalidProof)
    );
}

#[test]
fn empty_proof_checks_the_leaf_hash() {
    let content = b"single leaf".to_vec();
    let root = reference_leaf(&content);
    assert_eq!(verify_helper(&content, Vec::new(), Hash32(root)), Ok(()));
    assert_eq!(
        verify_helper(b"other leaf", Vec::new(), Hash32(root)),
        Err(NCNProgramError::InvalidProof)
    );
}

#[test]
fn intermediate_node_is_not_a_leaf() {
    // The parent of two leaves, offered as the content of a leaf with an
    // empty proof, does not verify against the tree's root.
    let contents: Vec<Vec<u8>> = vec![vec![1], vec![2]];
    let (root, _) = build_tree(&contents);
    let left = reference_leaf(&contents[0]);
    let right = reference_leaf(&contents[1]);
    let mut concatenated = left.to_vec();
    concatenated.extend_from_slice(&right);
    assert_eq!(
        verify_helper(&concatenated, Vec::new(), Hash32(root)),
        Err(NCNProgramError::InvalidProof)
    );
}

#[test]
fn leaf_hash_uses_the_leaf_prefix() {
    let content = [5u8, 6, 7];
    assert_eq!(hash_leaf(&content).to_bytes(), reference_leaf(&content));
    assert_ne!(hash_leaf(&content).to_bytes(), hashv(&[&content]).to_bytes());
}

#[test]
fn intermediate_hash_uses_the_intermediate_prefix() {
    let a = digest(1);
    let b = digest(2);
    let expected = hashv(&[&[1u8], &a.0, &b.0]).to_bytes();
    assert_eq!(hash_intermediate(&a, &b).to_bytes(), expected);
    assert_ne!(hash_intermediate(&b, &a).to_bytes(), expected);
}

#[test]
fn parent_puts_the_smaller_first() {
    let a = Hash32([0u8; 32]);
    let mut bytes = [0u8; 32];
    bytes[31] = 1;
    let b = Hash32(bytes);
    let expected = hashv(&[&[1u8], &a.0, &b.0]).to_bytes();
    assert_eq!(hash_parent(&a, &b).to_bytes(), expected);
    assert_eq!(hash_parent(&b, &a).to_bytes(), expected);
}

#[test]
fn parent_is_symmetric() {
    for i in 0..20u8 {
        let a = digest(i);
        let b = digest(i.wrapping_mul(7).wrapping_add(3));
        assert_eq!(hash_parent(&a, &b), hash_parent(&b, &a));
    }
    let same = digest(4);
    assert_eq!(hash_parent(&same, &same).to_bytes(), hashv(&[&[1u8], &same.0, &same.0]).to_bytes());
}

#[test]
fn sibling_proofs_agree() {
    let x = b"left".to_vec();
    let y = b"right".to_vec();
    let upper = vec![digest(9).0, digest(10).0];
    let mut proof_x = vec![reference_leaf(&y)];
    proof_x.extend_from_slice(&upper);
    let mut proof_y = vec![reference_leaf(&x)];
    proof_y.extend_from_slice(&upper);
    let root = reference_parent(
        reference_parent(reference_parent(reference_leaf(&x), reference_leaf(&y)), upper[0]),
        upper[1],
    );
    assert_eq!(verify_helper(&x, proof_x, Hash32(root)), Ok(()));
    assert_eq!(verify_helper(&y, proof_y, Hash32(root)), Ok(()));
}

#[test]
fn byte_order_of_digests() {
    let zero = Hash32([0u8; 32]);
    let mut first = [0u8; 32];
    first[0] = 1;
    let mut last = [0xffu8; 32];
    last[0] = 0;
    assert!(hash_le(&zero, &zero));
    assert!(hash_le(&zero, &Hash32(first)));
    assert!(!hash_le(&Hash32(first), &zero));
    // The first byte decides, whatever follows it.
    assert!(hash_le(&Hash32(last), &Hash32(first)));
    assert!(!hash_le(&Hash32(first), &Hash32(last)));
    for i in 0..30u8 {
        let a = digest(i);
        let b = digest(i + 1);
        let sa = solana_sdk::hash::Hash::new_from_array(a.0);
        let sb = solana_sdk::hash::Hash::new_from_array(b.0);
        assert_eq!(hash_le(&a, &b), sa <= sb);
        assert_eq!(hash_le(&b, &a), sb <= sa);
    }
}

#[test]
fn digest_equality() {
    let a = digest(3);
    let mut bytes = a.0;
    assert!(hash_eq(&a, &Hash32(bytes)));
    bytes[17] ^= 4;
    assert!(!hash_eq(&a, &Hash32(bytes)));
}

#[test]
fn stake_leaf_hash() {
    let leaf = StakeMerkleLeaf { voting_wallet: key(1), stake_account: key(2), active_stake: 0x0102_0304_0506_0708 };
    let expected = hashv(&[
        &key(1).0,
        &key(2).0,
        &[8u8, 7, 6, 5, 4, 3, 2, 1],
    ])
    .to_bytes();
    assert_eq!(leaf.hash().to_bytes(), expected);
}

#[test]
fn meta_leaf_hash() {
    let leaf = meta_leaf(3);
    let expected = hashv(&[
        &leaf.voting_wallet.to_bytes(),
        &leaf.vote_account.to_bytes(),
        &leaf.stake_merkle_root.0.to_bytes(),
        &leaf.active_stake.to_le_bytes(),
    ])
    .to_bytes();
    assert_eq!(leaf.hash().to_bytes(), expected);
    let mut other = leaf;
    other.active_stake += 1;
    assert_ne!(other.hash(), leaf.hash());
}
