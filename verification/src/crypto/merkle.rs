//! Merkle tree over 32-byte hashes, for content verification and delta sync.

use vstd::prelude::*;
use crate::bytes::{append_bytes, id_eq};
use crate::crypto::hash::{blake3_digest, hash};
use crate::types::MerkleProof;

verus! {

/// The all-zero hash that pads a level and stands for the root of no leaves.
pub open spec fn zero_hash() -> Seq<u8> {
    Seq::new(32, |i: int| 0u8)
}

/// The hash of an inner node: the digest of its two children, left then right.
pub open spec fn node_hash(left: Seq<u8>, right: Seq<u8>) -> Seq<u8> {
    blake3_digest(left + right)
}

/// The views of a run of hashes.
pub open spec fn hashes(nodes: Seq<[u8; 32]>) -> Seq<Seq<u8>> {
    nodes.map_values(|h: [u8; 32]| h@)
}

/// Whether `n` is a power of two.
pub open spec fn is_pow2(n: nat) -> bool
    decreases n,
{
    n == 1 || (n > 1 && n % 2 == 0 && is_pow2(n / 2))
}

/// Doubles `p` until it reaches `n`.
pub open spec fn grow_pow2(p: nat, n: nat) -> nat
    decreases 2 * n - p,
{
    if p >= n || p == 0 {
        p
    } else {
        grow_pow2(2 * p, n)
    }
}

/// The least power of two that is at least `n`.
pub open spec fn next_pow2(n: nat) -> nat {
    grow_pow2(1, n)
}

/// The leaves, padded with zero hashes to the next power of two.
pub open spec fn padded(leaves: Seq<Seq<u8>>) -> Seq<Seq<u8>> {
    Seq::new(next_pow2(leaves.len()), |i: int| if i < leaves.len() { leaves[i] } else { zero_hash() })
}

/// The level above `level`: each node hashes a pair of neighbours.
pub open spec fn level_up(level: Seq<Seq<u8>>) -> Seq<Seq<u8>> {
    Seq::new(level.len() / 2, |i: int| node_hash(level[2 * i], level[2 * i + 1]))
}

/// The single hash that pairwise hashing reduces `level` to.
pub open spec fn merkle_fold(level: Seq<Seq<u8>>) -> Seq<u8>
    decreases level.len(),
{
    if level.len() == 0 {
        zero_hash()
    } else if level.len() == 1 {
        level[0]
    } else {
        merkle_fold(level_up(level))
    }
}

/// The Merkle root of a list of leaf hashes; the zero hash for no leaves.
pub open spec fn merkle_root(leaves: Seq<Seq<u8>>) -> Seq<u8> {
    if leaves.len() == 0 {
        zero_hash()
    } else {
        merkle_fold(padded(leaves))
    }
}

/// Every level of the tree over `level`, bottom level first, root last.
pub open spec fn all_levels(level: Seq<Seq<u8>>) -> Seq<Seq<u8>>
    decreases level.len(),
{
    if level.len() <= 1 {
        level
    } else {
        level + all_levels(level_up(level))
    }
}

/// The position next to `index` under the same parent.
pub open spec fn sibling_of(index: nat) -> nat {
    if index % 2 == 0 {
        index + 1
    } else {
        (index - 1) as nat
    }
}

/// The siblings met on the way from position `index` of `level` up to the root.
pub open spec fn proof_path(level: Seq<Seq<u8>>, index: nat) -> Seq<Seq<u8>>
    decreases level.len(),
{
    if level.len() <= 1 {
        Seq::empty()
    } else {
        seq![level[sibling_of(index) as int]] + proof_path(level_up(level), index / 2)
    }
}

/// Folds a proof: at each step the running hash is the left child where the
/// running index is even, the right child where it is odd.
pub open spec fn proof_fold(current: Seq<u8>, index: nat, siblings: Seq<Seq<u8>>) -> Seq<u8>
    decreases siblings.len(),
{
    if siblings.len() == 0 {
        current
    } else {
        let next = if index % 2 == 0 {
            node_hash(current, siblings[0])
        } else {
            node_hash(siblings[0], current)
        };
        proof_fold(next, index / 2, siblings.drop_first())
    }
}

/// What `verify_proof` decides of a proof.
pub open spec fn proof_valid(proof: MerkleProof) -> bool {
    proof_fold(proof.leaf_hash@, proof.leaf_index as nat, hashes(proof.siblings@)) == proof.root@
}

/// Where two leaf lists differ: a position within the longer list at which
/// the shorter has no leaf or the two leaves differ.
pub open spec fn leaf_differs(a: Seq<Seq<u8>>, b: Seq<Seq<u8>>, i: int) -> bool {
    &&& 0 <= i
    &&& (i < a.len() || i < b.len())
    &&& (i >= a.len() || i >= b.len() || a[i] != b[i])
}

/// Doubling a power of two below `2 * n` until it reaches `n` gives a power
/// of two from `n` up to, not including, `2 * n`.
pub proof fn lemma_grow_pow2(p: nat, n: nat)
    requires
        is_pow2(p),
        n >= 1,
        p < 2 * n,
    ensures
        is_pow2(grow_pow2(p, n)),
        grow_pow2(p, n) >= n,
        grow_pow2(p, n) >= p,
        grow_pow2(p, n) < 2 * n,
    decreases 2 * n - p,
{
    if p < n {
        assert(is_pow2(2 * p));
        lemma_grow_pow2(2 * p, n);
    }
}

/// The views of a list of hashes with one hash more.
pub proof fn lemma_hashes_push(nodes: Seq<[u8; 32]>, node: [u8; 32])
    ensures
        hashes(nodes.push(node)) == hashes(nodes).push(node@),
{
}

/// The next power of two of `n` is a power of two from `n` up to, not
/// including, `2 * n`.
pub proof fn lemma_next_pow2(n: nat)
    requires
        n >= 1,
    ensures
        is_pow2(next_pow2(n)),
        n <= next_pow2(n) < 2 * n,
{
    lemma_grow_pow2(1, n);
}

proof fn lemma_all_levels_len(level: Seq<Seq<u8>>)
    requires
        is_pow2(level.len()),
    ensures
        all_levels(level).len() == 2 * level.len() - 1,
        all_levels(level).last() == merkle_fold(level),
    decreases level.len(),
{
    if level.len() > 1 {
        let up = level_up(level);
        lemma_all_levels_len(up);
    }
}

/// Folding the proof of any leaf gives the root of the tree.
proof fn lemma_path_folds_to_root(level: Seq<Seq<u8>>, index: nat)
    requires
        is_pow2(level.len()),
        index < level.len(),
    ensures
        proof_fold(level[index as int], index, proof_path(level, index)) == merkle_fold(level),
    decreases level.len(),
{
    if level.len() > 1 {
        let up = level_up(level);
        let path = proof_path(level, index);
        assert(path.drop_first() == proof_path(up, index / 2));
        lemma_path_folds_to_root(up, index / 2);
    }
}

/// For every list of leaves and every valid index, folding the siblings on
/// the leaf's path, starting from the leaf, gives the Merkle root.
pub proof fn law_proof_verifies(leaves: Seq<Seq<u8>>, index: nat)
    requires
        index < leaves.len(),
    ensures
        proof_fold(leaves[index as int], index, proof_path(padded(leaves), index)) == merkle_root(leaves),
{
    lemma_next_pow2(leaves.len());
    lemma_path_folds_to_root(padded(leaves), index);
}

/// Hash two nodes together.
pub fn hash_pair(left: &[u8; 32], right: &[u8; 32]) -> (parent: [u8; 32])
    ensures
        parent@ == node_hash(left@, right@),
{
    let mut combined: Vec<u8> = Vec::new();
    append_bytes(&mut combined, left.as_slice());
    append_bytes(&mut combined, right.as_slice());
    hash(combined.as_slice())
}

/// The least power of two that is at least `n`.
fn next_power_of_two(n: usize) -> (p: usize)
    requires
        n >= 1,
        2 * n <= usize::MAX,
    ensures
        p == next_pow2(n as nat),
{
    let mut p: usize = 1;
    while p < n
        invariant
            n >= 1,
            2 * n <= usize::MAX,
            p >= 1,
            p < 2 * n,
            is_pow2(p as nat),
            grow_pow2(p as nat, n as nat) == next_pow2(n as nat),
        decreases 2 * n - p,
    {
        proof {
            assert(is_pow2((2 * p) as nat));
        }
        p = 2 * p;
    }
    p
}

/// A Merkle tree for content verification.
pub struct MerkleTree {
    leaves: Vec<[u8; 32]>,
    nodes: Vec<[u8; 32]>,
}

impl MerkleTree {
    /// The leaf hashes the tree was built from.
    pub closed spec fn leaf_hashes(&self) -> Seq<Seq<u8>> {
        hashes(self.leaves@)
    }

    /// The stored nodes are every level over the padded leaves, bottom first.
    pub closed spec fn wf(&self) -> bool {
        if self.leaves@.len() == 0 {
            hashes(self.nodes@) == seq![zero_hash()]
        } else {
            &&& hashes(self.nodes@) == all_levels(padded(hashes(self.leaves@)))
            &&& 4 * self.leaves@.len() <= usize::MAX
        }
    }

    /// Build a Merkle tree from leaf hashes.
    pub fn new(leaves: Vec<[u8; 32]>) -> (tree: Self)
        requires
            4 * leaves@.len() <= usize::MAX,
        ensures
            tree.wf(),
            tree.leaf_hashes() == hashes(leaves@),
    {
        if leaves.len() == 0 {
            let mut nodes: Vec<[u8; 32]> = Vec::new();
            nodes.push([0u8; 32]);
            assert(hashes(nodes@) =~= seq![zero_hash()]) by {
                assert(nodes@[0]@ =~= zero_hash());
            }
            return Self { leaves, nodes };
        }
        let n: usize = leaves.len();
        let p: usize = next_power_of_two(n);
        let ghost bottom = padded(hashes(leaves@));
        proof {
            lemma_next_pow2(n as nat);
        }
        let mut nodes: Vec<[u8; 32]> = Vec::new();
        let mut i: usize = 0;
        while i < p
            invariant
                i <= p,
                n == leaves@.len(),
                p == next_pow2(n as nat),
                bottom == padded(hashes(leaves@)),
                hashes(nodes@) == bottom.subrange(0, i as int),
            decreases p - i,
        {
            let leaf = if i < n { leaves[i] } else { [0u8; 32] };
            proof {
                lemma_hashes_push(nodes@, leaf);
                assert(leaf@ =~= bottom[i as int]);
            }
            nodes.push(leaf);
            i += 1;
        }
        let mut level_size: usize = p;
        let mut level_start: usize = 0;
        let ghost mut level = bottom;
        while level_size > 1
            invariant
                level_size >= 1,
                is_pow2(level_size as nat),
                4 * n <= usize::MAX,
                p < 2 * n,
                level_start + 2 * level_size == 2 * p,
                nodes@.len() == level_start + level_size,
                level.len() == level_size,
                hashes(nodes@).subrange(level_start as int, nodes@.len() as int) == level,
                hashes(nodes@).subrange(0, level_start as int) + all_levels(level) == all_levels(bottom),
            decreases level_size,
        {
            let ghost before = hashes(nodes@);
            let ghost up = level_up(level);
            let mut j: usize = 0;
            while j < level_size / 2
                invariant
                    j <= level_size / 2,
                    level_size > 1,
                    level_size % 2 == 0,
                    level_start + 2 * level_size == 2 * p,
                    4 * n <= usize::MAX,
                    p < 2 * n,
                    before.len() == level_start + level_size,
                    level.len() == level_size,
                    before.subrange(level_start as int, before.len() as int) == level,
                    up == level_up(level),
                    hashes(nodes@) == before + up.subrange(0, j as int),
                decreases level_size / 2 - j,
            {
                proof {
                    assert(hashes(nodes@).len() == nodes@.len());
                    assert(hashes(nodes@)[level_start + 2 * j] == nodes@[level_start + 2 * j]@);
                    assert(hashes(nodes@)[level_start + 2 * j + 1] == nodes@[level_start + 2 * j + 1]@);
                }
                let parent = hash_pair(&nodes[level_start + 2 * j], &nodes[level_start + 2 * j + 1]);
                proof {
                    lemma_hashes_push(nodes@, parent);
                }
                nodes.push(parent);
                j += 1;
            }
            proof {
                level = up;
            }
            level_start = level_start + level_size;
            level_size = level_size / 2;
        }
        proof {
            assert(hashes(nodes@) =~= hashes(nodes@).subrange(0, level_start as int) + level);
        }
        Self { leaves, nodes }
    }

    /// Build a Merkle tree from raw data chunks: each leaf is the digest of a chunk.
    pub fn from_chunks(chunks: &[&[u8]]) -> (tree: Self)
        requires
            4 * chunks@.len() <= usize::MAX,
        ensures
            tree.wf(),
            tree.leaf_hashes() == chunks@.map_values(|c: &[u8]| blake3_digest(c@)),
    {
        let mut leaves: Vec<[u8; 32]> = Vec::new();
        let mut i: usize = 0;
        while i < chunks.len()
            invariant
                i <= chunks@.len(),
                hashes(leaves@) == chunks@.map_values(|c: &[u8]| blake3_digest(c@)).subrange(0, i as int),
            decreases chunks@.len() - i,
        {
            let leaf = hash(chunks[i]);
            proof {
                lemma_hashes_push(leaves@, leaf);
            }
            leaves.push(leaf);
            i += 1;
        }
        Self::new(leaves)
    }

    /// Get the root hash.
    pub fn root(&self) -> (root: [u8; 32])
        requires
            self.wf(),
        ensures
            root@ == merkle_root(self.leaf_hashes()),
    {
        proof {
            assert(hashes(self.nodes@).len() == self.nodes@.len());
            if self.leaves@.len() > 0 {
                lemma_next_pow2(self.leaves@.len());
                lemma_all_levels_len(padded(hashes(self.leaves@)));
            }
        }
        let last: usize = self.nodes.len() - 1;
        assert(hashes(self.nodes@)[last as int] == self.nodes@[last as int]@);
        self.nodes[last]
    }

    /// Get a proof for a leaf at the given index; `None` where there is no such leaf.
    pub fn get_proof(&self, index: usize) -> (found: Option<MerkleProof>)
        requires
            self.wf(),
        ensures
            found is Some <==> index < self.leaf_hashes().len(),
            found matches Some(proof) ==> {
                &&& proof.leaf_index == index
                &&& proof.leaf_hash@ == self.leaf_hashes()[index as int]
                &&& hashes(proof.siblings@) == proof_path(padded(self.leaf_hashes()), index as nat)
                &&& proof.root@ == merkle_root(self.leaf_hashes())
                &&& proof_valid(proof)
            },
    {
        if index >= self.leaves.len() {
            return None;
        }
        let n: usize = self.leaves.len();
        let padded_size: usize = next_power_of_two(n);
        let ghost bottom = padded(hashes(self.leaves@));
        proof {
            lemma_next_pow2(n as nat);
            lemma_all_levels_len(bottom);
        }
        let mut siblings: Vec<[u8; 32]> = Vec::new();
        let mut current_index: usize = index;
        let mut level_start: usize = 0;
        let mut level_size: usize = padded_size;
        let ghost mut level = bottom;
        while level_size > 1
            invariant
                level_size >= 1,
                is_pow2(level_size as nat),
                4 * n <= usize::MAX,
                padded_size < 2 * n,
                current_index < level_size,
                level_start + 2 * level_size == 2 * padded_size,
                level.len() == level_size,
                hashes(self.nodes@).len() == 2 * padded_size - 1,
                hashes(self.nodes@).subrange(level_start as int, level_start + level_size) == level,
                hashes(self.nodes@).subrange(level_start as int, hashes(self.nodes@).len() as int)
                    == all_levels(level),
                hashes(siblings@) + proof_path(level, current_index as nat) == proof_path(
                    bottom,
                    index as nat,
                ),
            decreases level_size,
        {
            let sibling_index: usize = if current_index % 2 == 0 {
                current_index + 1
            } else {
                current_index - 1
            };
            let ghost up = level_up(level);
            let ghost all = hashes(self.nodes@);
            let node = self.nodes[level_start + sibling_index];
            proof {
                lemma_all_levels_len(up);
                assert(all.subrange(level_start + level_size, all.len() as int) =~= all_levels(up)) by {
                    assert forall|k: int| 0 <= k < all_levels(up).len() implies all[level_start
                        + level_size + k] == all_levels(up)[k] by {
                        assert(all.subrange(level_start as int, all.len() as int)[level_size + k]
                            == (level + all_levels(up))[level_size + k]);
                    }
                }
                assert(all.subrange(level_start + level_size, level_start + level_size + level_size / 2)
                    =~= up) by {
                    assert forall|k: int| 0 <= k < up.len() implies all[level_start + level_size + k]
                        == up[k] by {
                        assert(all.subrange(level_start + level_size, all.len() as int)[k]
                            == all_levels(up)[k]);
                    }
                }
            }
            siblings.push(node);
            proof {
                level = up;
            }
            current_index = current_index / 2;
            level_start = level_start + level_size;
            level_size = level_size / 2;
        }
        let root = self.root();
        let leaf_hash = self.leaves[index];
        proof {
            law_proof_verifies(hashes(self.leaves@), index as nat);
        }
        Some(MerkleProof { leaf_index: index, leaf_hash, siblings, root })
    }

    /// Verify a proof: fold the siblings from the leaf and compare with the root.
    pub fn verify_proof(proof: &MerkleProof) -> (ok: bool)
        ensures
            ok == proof_valid(*proof),
    {
        let mut current: [u8; 32] = proof.leaf_hash;
        let mut index: usize = proof.leaf_index;
        let ghost all = hashes(proof.siblings@);
        let mut i: usize = 0;
        assert(all.skip(0) =~= all);
        while i < proof.siblings.len()
            invariant
                i <= proof.siblings@.len(),
                all == hashes(proof.siblings@),
                proof_fold(current@, index as nat, all.skip(i as int)) == proof_fold(
                    proof.leaf_hash@,
                    proof.leaf_index as nat,
                    all,
                ),
            decreases proof.siblings@.len() - i,
        {
            let sibling: &[u8; 32] = &proof.siblings[i];
            proof {
                assert(all.skip(i as int).drop_first() =~= all.skip(i + 1));
            }
            current = if index % 2 == 0 {
                hash_pair(&current, sibling)
            } else {
                hash_pair(sibling, &current)
            };
            index = index / 2;
            i += 1;
        }
        id_eq(&current, &proof.root)
    }

    /// Get leaves that differ between two trees: the positions, in rising
    /// order, where the leaf hashes differ or only the longer tree has a leaf.
    pub fn diff(&self, other: &MerkleTree) -> (different: Vec<usize>)
        ensures
            forall|k: int, l: int| 0 <= k < l < different@.len() ==> different@[k] < different@[l],
            forall|i: int|
                different@.contains(i as usize) && 0 <= i <= usize::MAX <==> leaf_differs(
                    self.leaf_hashes(),
                    other.leaf_hashes(),
                    i,
                ),
    {
        let mut different: Vec<usize> = Vec::new();
        let n: usize = self.leaves.len();
        let m: usize = other.leaves.len();
        let longest: usize = if n < m { m } else { n };
        let ghost a = hashes(self.leaves@);
        let ghost b = hashes(other.leaves@);
        let mut i: usize = 0;
        while i < longest
            invariant
                i <= longest,
                n == self.leaves@.len(),
                m == other.leaves@.len(),
                longest == if n < m { m } else { n },
                a == hashes(self.leaves@),
                b == hashes(other.leaves@),
                forall|k: int, l: int| 0 <= k < l < different@.len() ==> different@[k] < different@[l],
                forall|k: int| 0 <= k < different@.len() ==> different@[k] < i,
                forall|x: int|
                    different@.contains(x as usize) && 0 <= x <= usize::MAX <==> x < i && leaf_differs(
                        a,
                        b,
                        x,
                    ),
            decreases longest - i,
        {
            let differs = if i >= n || i >= m {
                true
            } else {
                !id_eq(&self.leaves[i], &other.leaves[i])
            };
            let ghost before = different@;
            if differs {
                different.push(i);
                proof {
                    assert(different@[before.len() as int] == i);
                    assert forall|x: int|
                        different@.contains(x as usize) && 0 <= x <= usize::MAX <==> x < i + 1
                            && leaf_differs(a, b, x) by {
                        if x < i && leaf_differs(a, b, x) {
                            let k = choose|k: int| 0 <= k < before.len() && before[k] == x as usize;
                            assert(different@[k] == x as usize);
                        }
                    }
                }
            }
            i += 1;
        }
        different
    }

    /// Get number of leaves.
    pub fn len(&self) -> (n: usize)
        ensures
            n == self.leaf_hashes().len(),
    {
        self.leaves.len()
    }

    /// Check if tree is empty.
    pub fn is_empty(&self) -> (empty: bool)
        ensures
            empty == (self.leaf_hashes().len() == 0),
    {
        self.leaves.len() == 0
    }
}

/// Compute the content hash for a set of chunks: the Merkle root of their identifiers.
pub fn compute_content_hash(chunks: &[[u8; 32]]) -> (root: [u8; 32])
    requires
        4 * chunks@.len() <= usize::MAX,
    ensures
        root@ == merkle_root(hashes(chunks@)),
{
    let mut leaves: Vec<[u8; 32]> = Vec::new();
    let mut i: usize = 0;
    while i < chunks.len()
        invariant
            i <= chunks@.len(),
            leaves@ == chunks@.subrange(0, i as int),
        decreases chunks@.len() - i,
    {
        leaves.push(chunks[i]);
        i += 1;
    }
    assert(leaves@ =~= chunks@);
    let tree = MerkleTree::new(leaves);
    tree.root()
}

} // verus!
