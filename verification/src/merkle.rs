//! Snapshot leaves, their hashes, and the check of a Merkle proof against a
//! root.

use vstd::prelude::*;

use crate::error::NCNProgramError;
use crate::hashing::{hashv, hashv_digest, Hash32, Pubkey};
use vstd::bytes::{
    lemma_auto_spec_u64_to_from_le_bytes, spec_u64_from_le_bytes, spec_u64_to_le_bytes,
    u64_to_le_bytes,
};

verus! {

/// A digest as it is stored in a snapshot: its 32 bytes, with no length
/// prefix.
#[derive(Clone, Copy, Debug, PartialEq, Eq)]
pub struct BorshHash(pub Hash32);

impl View for BorshHash {
    type V = Seq<u8>;

    open spec fn view(&self) -> Seq<u8> {
        self.0@
    }
}

/// A snapshot of the meta-level Merkle tree.
#[derive(Clone, Debug)]
pub struct MetaMerkleSnapshot {
    /// Hash of MetaMerkleTree
    pub root: BorshHash,
    /// Each bundle contains the meta-level leaf, its stake-level leaves, and proof.
    pub leaf_bundles: Vec<MetaMerkleLeafBundle>,
    /// Slot where the tree was generated.
    pub slot: u64,
}

/// One vote account's entry in a snapshot.
#[derive(Clone, Debug)]
pub struct MetaMerkleLeafBundle {
    /// MetaMerkleLeaf constructed from the StakeMerkleTree.
    pub meta_merkle_leaf: MetaMerkleLeaf,
    /// Leaf nodes of the StakeMerkleTree.
    pub stake_merkle_leaves: Vec<StakeMerkleLeaf>,
    /// Proof to verify MetaMerkleLeaf existence in MetaMerkleTree.
    pub proof: Option<Vec<[u8; 32]>>,
}

/// A leaf of the stake-level tree: one stake account.
#[derive(Clone, Copy, Debug)]
pub struct StakeMerkleLeaf {
    /// Wallet designated for governance voting for the stake account.
    pub voting_wallet: Pubkey,
    /// The stake account address.
    pub stake_account: Pubkey,
    /// Active delegated stake amount.
    pub active_stake: u64,
}

impl StakeMerkleLeaf {
    /// The byte strings that the leaf's hash covers, in order.
    pub open spec fn hashed_parts(self) -> Seq<Seq<u8>> {
        seq![self.voting_wallet@, self.stake_account@, spec_u64_to_le_bytes(self.active_stake)]
    }

    /// The digest of the voting wallet, the stake account and the stake
    /// (little-endian).
    pub fn hash(&self) -> (h: Hash32)
        ensures
            h@ == hashv_digest(self.hashed_parts()),
    {
        let wallet = self.voting_wallet.to_bytes();
        let account = self.stake_account.to_bytes();
        let stake = u64_to_le_bytes(self.active_stake);
        let parts: [&[u8]; 3] = [wallet.as_slice(), account.as_slice(), stake.as_slice()];
        let h = hashv(parts.as_slice());
        assert(parts@.map_values(|v: &[u8]| v@) =~= self.hashed_parts());
        h
    }
}

/// A leaf of the meta-level tree: one vote account with the root of its
/// stake-level tree.
#[derive(Clone, Copy, Debug)]
pub struct MetaMerkleLeaf {
    /// Wallet designated for governance voting for the vote account.
    pub voting_wallet: Pubkey,
    /// Validator's vote account.
    pub vote_account: Pubkey,
    /// Root hash of the StakeMerkleTree, representing all active stake accounts
    /// delegated to the current vote account.
    pub stake_merkle_root: BorshHash,
    /// Total active delegated stake under this vote account.
    pub active_stake: u64,
}

impl MetaMerkleLeaf {
    /// The byte strings that the leaf's hash covers, in order.
    pub open spec fn hashed_parts(self) -> Seq<Seq<u8>> {
        seq![
            self.voting_wallet@,
            self.vote_account@,
            self.stake_merkle_root@,
            spec_u64_to_le_bytes(self.active_stake),
        ]
    }

    /// The digest of the voting wallet, the vote account, the stake-level
    /// root and the stake (little-endian).
    pub fn hash(&self) -> (h: Hash32)
        ensures
            h@ == hashv_digest(self.hashed_parts()),
    {
        let wallet = self.voting_wallet.to_bytes();
        let account = self.vote_account.to_bytes();
        let root = self.stake_merkle_root.0.to_bytes();
        let stake = u64_to_le_bytes(self.active_stake);
        let parts: [&[u8]; 4] = [
            wallet.as_slice(),
            account.as_slice(),
            root.as_slice(),
            stake.as_slice(),
        ];
        let h = hashv(parts.as_slice());
        assert(parts@.map_values(|v: &[u8]| v@) =~= self.hashed_parts());
        h
    }
}

/// First byte hashed into a leaf node. Leaves and intermediate nodes hash
/// under different prefixes, so that an intermediate node can never be
/// passed off as a leaf (a second pre-image of the tree).
pub const LEAF_PREFIX: u8 = 0;

/// First byte hashed into an intermediate node.
pub const INTERMEDIATE_PREFIX: u8 = 1;

/// The hash of a leaf node whose content is `content`.
pub open spec fn spec_hash_leaf(content: Seq<u8>) -> Seq<u8> {
    hashv_digest(seq![seq![LEAF_PREFIX], content])
}

/// The hash of an intermediate node with children `left` and `right`.
pub open spec fn spec_hash_intermediate(left: Seq<u8>, right: Seq<u8>) -> Seq<u8> {
    hashv_digest(seq![seq![INTERMEDIATE_PREFIX], left, right])
}

/// Hashes a leaf node: the leaf prefix followed by `content`.
pub fn hash_leaf(content: &[u8]) -> (h: Hash32)
    ensures
        h@ == spec_hash_leaf(content@),
        h@ == hashv_digest(seq![seq![0u8], content@]),
{
    let prefix: [u8; 1] = [LEAF_PREFIX];
    let parts: [&[u8]; 2] = [prefix.as_slice(), content];
    let h = hashv(parts.as_slice());
    assert(prefix@ =~= seq![LEAF_PREFIX]);
    assert(parts@.map_values(|v: &[u8]| v@) =~= seq![seq![LEAF_PREFIX], content@]);
    h
}

/// Hashes an intermediate node: the intermediate prefix, then `left`, then
/// `right`.
pub fn hash_intermediate(left: &Hash32, right: &Hash32) -> (h: Hash32)
    ensures
        h@ == spec_hash_intermediate(left@, right@),
        h@ == hashv_digest(seq![seq![1u8], left@, right@]),
{
    let prefix: [u8; 1] = [INTERMEDIATE_PREFIX];
    let parts: [&[u8]; 3] = [prefix.as_slice(), left.0.as_slice(), right.0.as_slice()];
    let h = hashv(parts.as_slice());
    assert(prefix@ =~= seq![INTERMEDIATE_PREFIX]);
    assert(parts@.map_values(|v: &[u8]| v@) =~= seq![seq![INTERMEDIATE_PREFIX], left@, right@]);
    h
}

/// `a` comes no later than `b` in lexicographic byte order, the order in
/// which 32-byte digests compare: either they are equal, or at the first
/// index where they differ `a` holds the smaller byte.
pub open spec fn bytes_le(a: Seq<u8>, b: Seq<u8>) -> bool {
    ||| a == b
    ||| exists|k: int|
        0 <= k < a.len() && k < b.len() && a[k] < b[k] && (forall|i: int|
            0 <= i < k ==> a[i] == b[i])
}

/// Whether `a <= b` in the byte order of digests.
pub fn hash_le(a: &Hash32, b: &Hash32) -> (r: bool)
    ensures
        r == bytes_le(a@, b@),
{
    let mut i: usize = 0;
    while i < 32
        invariant
            0 <= i <= 32,
            a@.len() == 32,
            b@.len() == 32,
            forall|j: int| 0 <= j < i ==> a@[j] == b@[j],
        decreases 32 - i,
    {
        let x = a.0[i];
        let y = b.0[i];
        if x != y {
            if x < y {
                return true;
            } else {
                assert(!(a@ == b@)) by {
                    assert(a@[i as int] != b@[i as int]);
                }
                assert forall|k: int|
                    0 <= k < a@.len() && k < b@.len() && a@[k] < b@[k] implies !(forall|j: int|
                    0 <= j < k ==> a@[j] == b@[j]) by {
                    if k < i {
                    } else if k == i {
                    } else {
                        assert(!(a@[i as int] == b@[i as int]));
                    }
                }
                return false;
            }
        }
        i = i + 1;
    }
    assert(a@ =~= b@);
    true
}

/// The parent of `node` and its `sibling`: the smaller of the two, in byte
/// order, is hashed as the left child.
pub open spec fn spec_parent(node: Seq<u8>, sibling: Seq<u8>) -> Seq<u8> {
    if bytes_le(node, sibling) {
        spec_hash_intermediate(node, sibling)
    } else {
        spec_hash_intermediate(sibling, node)
    }
}

/// Hashes `node` with its `sibling` into their parent, the smaller of the
/// two in byte order as the left child.
pub fn hash_parent(node: &Hash32, sibling: &Hash32) -> (h: Hash32)
    ensures
        h@ == spec_parent(node@, sibling@),
        bytes_le(node@, sibling@) ==> h@ == hashv_digest(seq![seq![1u8], node@, sibling@]),
        !bytes_le(node@, sibling@) ==> h@ == hashv_digest(seq![seq![1u8], sibling@, node@]),
{
    if hash_le(node, sibling) {
        hash_intermediate(node, sibling)
    } else {
        hash_intermediate(sibling, node)
    }
}

/// The root that a proof reconstructs: the hash of the leaf, combined in
/// turn with each sibling hash of `proof`, from the leaf upwards.
pub open spec fn merkle_root(leaf_content: Seq<u8>, proof: Seq<Seq<u8>>) -> Seq<u8>
    decreases proof.len(),
{
    if proof.len() == 0 {
        spec_hash_leaf(leaf_content)
    } else {
        spec_parent(merkle_root(leaf_content, proof.drop_last()), proof.last())
    }
}

/// The sibling hashes of a proof, as byte sequences.
pub open spec fn proof_view(proof: Seq<[u8; 32]>) -> Seq<Seq<u8>> {
    proof.map_values(|p: [u8; 32]| p@)
}

/// Verifies a Merkle proof from a leaf's content and its sibling hashes.
///
/// Hashes the leaf with its prefix, then hashes in turn with each sibling,
/// the smaller of the two first, to reconstruct the root. Succeeds exactly
/// when that root is `root`; otherwise reports `InvalidProof`.
pub fn verify_helper(leaf_content: &[u8], proof_vec: Vec<[u8; 32]>, root: Hash32) -> (r: Result<
    (),
    NCNProgramError,
>)
    ensures
        r is Ok <==> root@ == merkle_root(leaf_content@, proof_view(proof_vec@)),
        r is Ok <==> root@ == climb(
            hashv_digest(seq![seq![0u8], leaf_content@]),
            proof_view(proof_vec@),
        ),
        r is Err ==> r == Err::<(), NCNProgramError>(NCNProgramError::InvalidProof),
{
    let ghost proof = proof_view(proof_vec@);
    let mut node = hash_leaf(leaf_content);
    let n = proof_vec.len();
    let mut i: usize = 0;
    assert(proof.take(0) =~= Seq::<Seq<u8>>::empty());
    while i < n
        invariant
            0 <= i <= n,
            n == proof_vec@.len(),
            proof == proof_view(proof_vec@),
            node@ == merkle_root(leaf_content@, proof.take(i as int)),
        decreases n - i,
    {
        let sibling = Hash32(proof_vec[i]);
        assert(proof.take(i + 1).drop_last() =~= proof.take(i as int));
        assert(proof.take(i + 1).last() == sibling@);
        node = hash_parent(&node, &sibling);
        i = i + 1;
    }
    assert(proof.take(n as int) =~= proof);
    proof {
        lemma_root_from_prefixed_leaf(leaf_content@, proof);
    }
    if !hash_eq(&root, &node) {
        return Err(NCNProgramError::InvalidProof);
    }
    Ok(())
}

/// Whether two digests hold the same bytes.
pub fn hash_eq(a: &Hash32, b: &Hash32) -> (r: bool)
    ensures
        r == (a@ == b@),
{
    let mut i: usize = 0;
    while i < 32
        invariant
            0 <= i <= 32,
            a@.len() == 32,
            b@.len() == 32,
            forall|j: int| 0 <= j < i ==> a@[j] == b@[j],
        decreases 32 - i,
    {
        if a.0[i] != b.0[i] {
            return false;
        }
        i = i + 1;
    }
    assert(a@ =~= b@);
    true
}

} // verus!

verus! {

/// The node reached from `node` by combining it in turn with each sibling
/// hash of `path`, from the first upwards.
pub open spec fn climb(node: Seq<u8>, path: Seq<Seq<u8>>) -> Seq<u8>
    decreases path.len(),
{
    if path.len() == 0 {
        node
    } else {
        spec_parent(climb(node, path.drop_last()), path.last())
    }
}

/// The byte order of digests is antisymmetric: two digests that each come
/// no later than the other are equal.
pub proof fn lemma_bytes_le_antisymmetric(a: Seq<u8>, b: Seq<u8>)
    requires
        bytes_le(a, b),
        bytes_le(b, a),
    ensures
        a == b,
{
    if a != b {
        let k = choose|k: int|
            0 <= k < a.len() && k < b.len() && a[k] < b[k] && (forall|i: int|
                0 <= i < k ==> a[i] == b[i]);
        let m = choose|m: int|
            0 <= m < b.len() && m < a.len() && b[m] < a[m] && (forall|i: int|
                0 <= i < m ==> b[i] == a[i]);
        if k < m {
            assert(b[k] == a[k]);
        } else if m < k {
            assert(a[m] == b[m]);
        }
    }
}

/// The byte order of digests is total: of two byte strings of one length,
/// one comes no later than the other.
pub proof fn lemma_bytes_le_total(a: Seq<u8>, b: Seq<u8>)
    requires
        a.len() == b.len(),
    ensures
        bytes_le(a, b) || bytes_le(b, a),
{
    if a != b {
        assert(exists|k: int| 0 <= k < a.len() && a[k] != b[k]) by {
            if !(exists|k: int| 0 <= k < a.len() && a[k] != b[k]) {
                assert(a =~= b);
            }
        }
        let k = choose|k: int| 0 <= k < a.len() && a[k] != b[k];
        lemma_first_difference(a, b, k);
    }
}

proof fn lemma_first_difference(a: Seq<u8>, b: Seq<u8>, k: int)
    requires
        a.len() == b.len(),
        0 <= k < a.len(),
        a[k] != b[k],
    ensures
        bytes_le(a, b) || bytes_le(b, a),
    decreases k,
{
    if exists|j: int| 0 <= j < k && a[j] != b[j] {
        let j = choose|j: int| 0 <= j < k && a[j] != b[j];
        lemma_first_difference(a, b, j);
    } else if a[k] < b[k] {
        assert(forall|i: int| 0 <= i < k ==> a[i] == b[i]);
    } else {
        assert(forall|i: int| 0 <= i < k ==> b[i] == a[i]);
        assert(b[k] < a[k]);
    }
}

/// Combining two sibling digests gives the same parent whichever of the
/// two is the node and whichever the sibling: the smaller always goes
/// first.
pub proof fn lemma_parent_symmetric(a: Hash32, b: Hash32)
    ensures
        spec_parent(a@, b@) == spec_parent(b@, a@),
{
    lemma_bytes_le_total(a@, b@);
    if bytes_le(a@, b@) && bytes_le(b@, a@) {
        lemma_bytes_le_antisymmetric(a@, b@);
    }
}

/// The root that a proof reconstructs is the leaf's hash climbed along the
/// whole proof.
pub proof fn lemma_root_is_climb(leaf_content: Seq<u8>, proof: Seq<Seq<u8>>)
    ensures
        merkle_root(leaf_content, proof) == climb(spec_hash_leaf(leaf_content), proof),
    decreases proof.len(),
{
    if proof.len() > 0 {
        lemma_root_is_climb(leaf_content, proof.drop_last());
    }
}

/// Climbing past a first sibling and then along the rest of a path is
/// climbing from their parent along the rest.
pub proof fn lemma_climb_first_step(node: Seq<u8>, sibling: Seq<u8>, rest: Seq<Seq<u8>>)
    ensures
        climb(node, seq![sibling] + rest) == climb(spec_parent(node, sibling), rest),
    decreases rest.len(),
{
    let path = seq![sibling] + rest;
    if rest.len() == 0 {
        assert(path.drop_last() =~= Seq::<Seq<u8>>::empty());
        assert(path.last() == sibling);
        assert(climb(node, path.drop_last()) == node);
        assert(climb(node, path) == spec_parent(node, sibling));
    } else {
        assert(path.last() == rest.last());
        assert(path.drop_last() =~= seq![sibling] + rest.drop_last());
        lemma_climb_first_step(node, sibling, rest.drop_last());
        assert(climb(node, path) == spec_parent(climb(node, path.drop_last()), path.last()));
    }
}

/// A proof that ends one sibling further up reconstructs the parent of what
/// the shorter proof reconstructs and that sibling.
pub proof fn lemma_root_extends(leaf_content: Seq<u8>, proof: Seq<Seq<u8>>, sibling: Seq<u8>)
    ensures
        merkle_root(leaf_content, proof.push(sibling)) == spec_parent(
            merkle_root(leaf_content, proof),
            sibling,
        ),
{
    assert(proof.push(sibling).drop_last() =~= proof);
}

/// Two leaves that are siblings in a tree share every proof step above
/// their parent: the proof of each, made of the other's leaf hash and then
/// the same path, reconstructs one root.
pub proof fn lemma_sibling_proofs_agree(
    x: Seq<u8>,
    y: Seq<u8>,
    hx: Hash32,
    hy: Hash32,
    upper: Seq<Seq<u8>>,
)
    requires
        hx@ == spec_hash_leaf(x),
        hy@ == spec_hash_leaf(y),
    ensures
        merkle_root(x, seq![hy@] + upper) == merkle_root(y, seq![hx@] + upper),
{
    lemma_root_is_climb(x, seq![hy@] + upper);
    lemma_root_is_climb(y, seq![hx@] + upper);
    lemma_climb_first_step(hx@, hy@, upper);
    lemma_climb_first_step(hy@, hx@, upper);
    lemma_parent_symmetric(hx, hy);
}

} // verus!

verus! {

/// A leaf's hash is the digest of the byte 0 followed by the leaf's
/// content, for every content.
pub proof fn lemma_leaf_hash_prefixed(content: Seq<u8>)
    ensures
        spec_hash_leaf(content) == hashv_digest(seq![seq![0u8], content]),
{
}

/// An intermediate node's hash is the digest of the byte 1 followed by its
/// two children, left first.
pub proof fn lemma_intermediate_hash_prefixed(left: Seq<u8>, right: Seq<u8>)
    ensures
        spec_hash_intermediate(left, right) == hashv_digest(seq![seq![1u8], left, right]),
{
}

/// The parent of two digests of one length is the digest of the byte 1, the
/// smaller of the two in byte order, then the other.
pub proof fn lemma_parent_smaller_first(a: Seq<u8>, b: Seq<u8>)
    requires
        a.len() == b.len(),
    ensures
        (bytes_le(a, b) && spec_parent(a, b) == hashv_digest(seq![seq![1u8], a, b])) || (bytes_le(
            b,
            a,
        ) && spec_parent(a, b) == hashv_digest(seq![seq![1u8], b, a])),
{
    lemma_bytes_le_total(a, b);
}

/// For every content and every proof, the root that the proof reconstructs
/// is the digest of the byte 0 and the content, climbed along the proof:
/// no content is hashed otherwise.
pub proof fn lemma_root_from_prefixed_leaf(content: Seq<u8>, proof: Seq<Seq<u8>>)
    ensures
        merkle_root(content, proof) == climb(hashv_digest(seq![seq![0u8], content]), proof),
{
    lemma_root_is_climb(content, proof);
}

/// A stake leaf's hash covers exactly three byte strings: the 32 bytes of
/// the voting wallet, the 32 bytes of the stake account, and 8 bytes from
/// which the whole stake reads back, little-endian.
pub proof fn lemma_stake_leaf_parts(leaf: StakeMerkleLeaf)
    ensures
        leaf.hashed_parts().len() == 3,
        leaf.hashed_parts()[0] == leaf.voting_wallet.0@,
        leaf.hashed_parts()[1] == leaf.stake_account.0@,
        leaf.hashed_parts()[2].len() == 8,
        spec_u64_from_le_bytes(leaf.hashed_parts()[2]) == leaf.active_stake,
{
    lemma_auto_spec_u64_to_from_le_bytes();
}

/// Two stake leaves whose hashes cover the same byte strings are the same
/// leaf: in particular, leaves that differ only in their stake are hashed
/// over different bytes.
pub proof fn lemma_stake_leaf_parts_injective(a: StakeMerkleLeaf, b: StakeMerkleLeaf)
    requires
        a.hashed_parts() == b.hashed_parts(),
    ensures
        a.voting_wallet == b.voting_wallet,
        a.stake_account == b.stake_account,
        a.active_stake == b.active_stake,
{
    lemma_stake_leaf_parts(a);
    lemma_stake_leaf_parts(b);
    assert(a.voting_wallet.0@ =~= b.voting_wallet.0@);
    assert(a.voting_wallet.0 =~= b.voting_wallet.0);
    assert(a.stake_account.0@ =~= b.stake_account.0@);
    assert(a.stake_account.0 =~= b.stake_account.0);
}

/// A vote-account leaf's hash covers exactly four byte strings: the 32
/// bytes of the voting wallet, of the vote account and of the stake-level
/// root, and 8 bytes from which the whole stake reads back, little-endian.
pub proof fn lemma_meta_leaf_parts(leaf: MetaMerkleLeaf)
    ensures
        leaf.hashed_parts().len() == 4,
        leaf.hashed_parts()[0] == leaf.voting_wallet.0@,
        leaf.hashed_parts()[1] == leaf.vote_account.0@,
        leaf.hashed_parts()[2] == leaf.stake_merkle_root.0.0@,
        leaf.hashed_parts()[3].len() == 8,
        spec_u64_from_le_bytes(leaf.hashed_parts()[3]) == leaf.active_stake,
{
    lemma_auto_spec_u64_to_from_le_bytes();
}

/// Two vote-account leaves whose hashes cover the same byte strings are the
/// same leaf: in particular, leaves that differ only in their stake are
/// hashed over different bytes.
pub proof fn lemma_meta_leaf_parts_injective(a: MetaMerkleLeaf, b: MetaMerkleLeaf)
    requires
        a.hashed_parts() == b.hashed_parts(),
    ensures
        a.voting_wallet == b.voting_wallet,
        a.vote_account == b.vote_account,
        a.stake_merkle_root == b.stake_merkle_root,
        a.active_stake == b.active_stake,
{
    lemma_meta_leaf_parts(a);
    lemma_meta_leaf_parts(b);
    assert(a.voting_wallet.0@ =~= b.voting_wallet.0@);
    assert(a.voting_wallet.0 =~= b.voting_wallet.0);
    assert(a.vote_account.0@ =~= b.vote_account.0@);
    assert(a.vote_account.0 =~= b.vote_account.0);
    assert(a.stake_merkle_root.0.0@ =~= b.stake_merkle_root.0.0@);
    assert(a.stake_merkle_root.0.0 =~= b.stake_merkle_root.0.0);
}

} // verus!

verus! {

/// The byte order of digests is lexicographic, first byte first: a smaller
/// first byte comes first, a larger one comes after, and on an equal first
/// byte the rest decides. Every digest comes no later than itself.
pub proof fn lemma_bytes_le_first_byte(a: Seq<u8>, b: Seq<u8>)
    requires
        a.len() == b.len(),
        a.len() > 0,
    ensures
        bytes_le(a, a),
        a[0] < b[0] ==> bytes_le(a, b),
        a[0] > b[0] ==> !bytes_le(a, b),
        a[0] == b[0] ==> (bytes_le(a, b) <==> bytes_le(a.drop_first(), b.drop_first())),
{
    let a1 = a.drop_first();
    let b1 = b.drop_first();
    if a[0] < b[0] {
        assert(forall|i: int| 0 <= i < 0 ==> a[i] == b[i]);
        assert(0 < a.len() && 0 < b.len() && a[0] < b[0]);
    }
    if a[0] > b[0] {
        assert(a != b) by {
            assert(a[0] != b[0]);
        }
        if exists|k: int|
            0 <= k < a.len() && k < b.len() && a[k] < b[k] && (forall|i: int|
                0 <= i < k ==> a[i] == b[i]) {
            let k = choose|k: int|
                0 <= k < a.len() && k < b.len() && a[k] < b[k] && (forall|i: int|
                    0 <= i < k ==> a[i] == b[i]);
            if k > 0 {
                assert(a[0] == b[0]);
            }
        }
    }
    if a[0] == b[0] {
        assert(a == b <==> a1 == b1) by {
            if a1 == b1 {
                assert(a =~= b) by {
                    assert forall|i: int| 0 <= i < a.len() implies a[i] == b[i] by {
                        if i > 0 {
                            assert(a[i] == a1[i - 1]);
                            assert(b[i] == b1[i - 1]);
                        }
                    }
                }
            }
            if a == b {
                assert(a1 =~= b1);
            }
        }
        if bytes_le(a, b) && a != b {
            let k = choose|k: int|
                0 <= k < a.len() && k < b.len() && a[k] < b[k] && (forall|i: int|
                    0 <= i < k ==> a[i] == b[i]);
            assert(k > 0);
            assert(a1[k - 1] < b1[k - 1]);
            assert forall|i: int| 0 <= i < k - 1 implies a1[i] == b1[i] by {
                assert(a[i + 1] == b[i + 1]);
            }
        }
        if bytes_le(a1, b1) && a1 != b1 {
            let k = choose|k: int|
                0 <= k < a1.len() && k < b1.len() && a1[k] < b1[k] && (forall|i: int|
                    0 <= i < k ==> a1[i] == b1[i]);
            assert(a[k + 1] < b[k + 1]);
            assert forall|i: int| 0 <= i < k + 1 implies a[i] == b[i] by {
                if i > 0 {
                    assert(a1[i - 1] == b1[i - 1]);
                }
            }
        }
    }
}

/// Climbing an empty path stays at the node; climbing one sibling further
/// goes to the parent of where the shorter path leads and that sibling.
pub proof fn lemma_climb_steps(node: Seq<u8>, path: Seq<Seq<u8>>, sibling: Seq<u8>)
    ensures
        climb(node, Seq::<Seq<u8>>::empty()) == node,
        climb(node, path.push(sibling)) == spec_parent(climb(node, path), sibling),
{
    assert(path.push(sibling).drop_last() =~= path);
}

} // verus!
