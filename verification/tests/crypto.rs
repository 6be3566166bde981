use grabnet::crypto::hash::{chunk_id, decode_base58, encode_base58, hash, hash_multi, SiteIdExt};
use grabnet::crypto::merkle::{compute_content_hash, hash_pair, MerkleTree};
use grabnet::crypto::signing::{
    generate_keypair, public_key_of, sign, sign_bundle, verify, verify_bundle,
};
use grabnet::types::{MerkleProof, SiteId};

fn unhex(text: &str) -> Vec<u8> {
    let digits: Vec<u8> = text
        .bytes()
        .map(|b| match b {
            b'0'..=b'9' => b - b'0',
            _ => b - b'a' + 10,
        })
        .collect();
    digits.chunks(2).map(|pair| pair[0] * 16 + pair[1]).collect()
}

#[test]
fn test_hash() {
    let data = b"hello world";
    let h = hash(data);
    assert_eq!(h.len(), 32);

    // Same input = same output
    assert_eq!(h, hash(data));

    // Different input = different output
    assert_ne!(h, hash(b"hello world!"));
}

#[test]
fn test_site_id() {
    let publisher = [1u8; 32];
    let name = "my-site";

    let id = SiteId::generate(&publisher, name);

    // Stable: same inputs = same ID
    assert_eq!(id, SiteId::generate(&publisher, name));

    // Different name = different ID
    assert_ne!(id, SiteId::generate(&publisher, "other-site"));

    // Different publisher = different ID
    let other_publisher = [2u8; 32];
    assert_ne!(id, SiteId::generate(&other_publisher, name));
}

#[test]
fn test_base58_roundtrip() {
    let data = [42u8; 32];
    let encoded = data.to_base58();
    let decoded = SiteId::from_base58(&encoded).unwrap();
    assert_eq!(data, decoded);
}

#[test]
fn hash_of_nothing_is_the_known_digest() {
    let expected = unhex("af1349b9f5f9a1a6a0404dea36dcc9499bcb25c9adc112b7cc9a93cae41f3262");
    assert_eq!(hash(b"").to_vec(), expected);
    assert_eq!(chunk_id(b"").to_vec(), expected);
}

#[test]
fn hash_multi_hashes_the_concatenation() {
    let parts: [&[u8]; 3] = [b"ab", b"", b"cde"];
    assert_eq!(hash_multi(&parts), hash(b"abcde"));
    let none: [&[u8]; 0] = [];
    assert_eq!(hash_multi(&none), hash(b""));
}

#[test]
fn site_id_is_digest_of_key_then_name() {
    let publisher = [9u8; 32];
    let mut message = publisher.to_vec();
    message.extend_from_slice("blog".as_bytes());
    assert_eq!(SiteId::generate(&publisher, "blog"), hash(&message));
}

#[test]
fn base58_known_text() {
    let input = [0x04u8, 0x30, 0x5e, 0x2b, 0x24, 0x73, 0xf0, 0x58];
    assert_eq!(encode_base58(&input), "he11owor1d");
    assert_eq!(decode_base58("he11owor1d"), Some(input.to_vec()));
    assert_eq!(decode_base58("0OIl"), None);
}

#[test]
fn from_base58_rejects_other_lengths() {
    let short = encode_base58(&[1u8; 31]);
    let long = encode_base58(&[1u8; 33]);
    assert_eq!(<SiteId as SiteIdExt>::from_base58(&short), None);
    assert_eq!(<SiteId as SiteIdExt>::from_base58(&long), None);
    assert_eq!(<SiteId as SiteIdExt>::from_base58("not base58!"), None);
}

#[test]
fn test_merkle_tree() {
    let leaves = vec![hash(b"chunk1"), hash(b"chunk2"), hash(b"chunk3"), hash(b"chunk4")];

    let tree = MerkleTree::new(leaves.clone());
    assert_eq!(tree.len(), 4);

    // Root should be deterministic
    let tree2 = MerkleTree::new(leaves);
    assert_eq!(tree.root(), tree2.root());
}

#[test]
fn test_merkle_proof() {
    let leaves = vec![hash(b"a"), hash(b"b"), hash(b"c"), hash(b"d")];

    let tree = MerkleTree::new(leaves);

    for i in 0..4 {
        let proof = tree.get_proof(i).unwrap();
        assert!(MerkleTree::verify_proof(&proof));
    }
}

#[test]
fn test_merkle_diff() {
    let leaves1 = vec![hash(b"a"), hash(b"b"), hash(b"c")];
    let leaves2 = vec![hash(b"a"), hash(b"X"), hash(b"c")];

    let tree1 = MerkleTree::new(leaves1);
    let tree2 = MerkleTree::new(leaves2);

    let diff = tree1.diff(&tree2);
    assert_eq!(diff, vec![1]); // Only index 1 differs
}

#[test]
fn merkle_root_of_no_leaves_is_zero() {
    let tree = MerkleTree::new(vec![]);
    assert!(tree.is_empty());
    assert_eq!(tree.len(), 0);
    assert_eq!(tree.root(), [0u8; 32]);
    assert!(tree.get_proof(0).is_none());
    assert_eq!(compute_content_hash(&[]), [0u8; 32]);
}

#[test]
fn merkle_root_small_trees() {
    let a = hash(b"a");
    let b = hash(b"b");
    let c = hash(b"c");
    assert_eq!(MerkleTree::new(vec![a]).root(), a);
    assert_eq!(MerkleTree::new(vec![a, b]).root(), hash_pair(&a, &b));
    let padded = hash_pair(&hash_pair(&a, &b), &hash_pair(&c, &[0u8; 32]));
    assert_eq!(MerkleTree::new(vec![a, b, c]).root(), padded);
    assert_eq!(compute_content_hash(&[a, b, c]), padded);
}

#[test]
fn hash_pair_hashes_left_then_right() {
    let left = [1u8; 32];
    let right = [2u8; 32];
    let mut both = left.to_vec();
    both.extend_from_slice(&right);
    assert_eq!(hash_pair(&left, &right), hash(&both));
    assert_ne!(hash_pair(&left, &right), hash_pair(&right, &left));
}

#[test]
fn merkle_from_chunks_hashes_each_chunk() {
    let chunks: [&[u8]; 3] = [b"one", b"two", b"three"];
    let tree = MerkleTree::from_chunks(&chunks);
    let direct = MerkleTree::new(vec![hash(b"one"), hash(b"two"), hash(b"three")]);
    assert_eq!(tree.len(), 3);
    assert_eq!(tree.root(), direct.root());
}

#[test]
fn merkle_proofs_verify_for_every_leaf_of_odd_trees() {
    for count in 1..10usize {
        let leaves: Vec<[u8; 32]> = (0..count).map(|i| hash(&[i as u8])).collect();
        let tree = MerkleTree::new(leaves.clone());
        for i in 0..count {
            let proof = tree.get_proof(i).unwrap();
            assert_eq!(proof.leaf_index, i);
            assert_eq!(proof.leaf_hash, leaves[i]);
            assert_eq!(proof.root, tree.root());
            assert!(MerkleTree::verify_proof(&proof));
        }
        assert!(tree.get_proof(count).is_none());
    }
}

#[test]
fn merkle_proof_siblings_and_tampering() {
    let a = hash(b"a");
    let b = hash(b"b");
    let c = hash(b"c");
    let d = hash(b"d");
    let tree = MerkleTree::new(vec![a, b, c, d]);
    let proof = tree.get_proof(2).unwrap();
    assert_eq!(proof.siblings, vec![d, hash_pair(&a, &b)]);
    let mut wrong_leaf = MerkleProof {
        leaf_index: proof.leaf_index,
        leaf_hash: a,
        siblings: proof.siblings.clone(),
        root: proof.root,
    };
    assert!(!MerkleTree::verify_proof(&wrong_leaf));
    wrong_leaf.leaf_hash = c;
    wrong_leaf.leaf_index = 3;
    assert!(!MerkleTree::verify_proof(&wrong_leaf));
}

#[test]
fn merkle_diff_counts_what_only_the_longer_tree_has() {
    let short = MerkleTree::new(vec![hash(b"a"), hash(b"b")]);
    let long = MerkleTree::new(vec![hash(b"a"), hash(b"x"), hash(b"c"), hash(b"d")]);
    assert_eq!(short.diff(&long), vec![1, 2, 3]);
    assert_eq!(long.diff(&short), vec![1, 2, 3]);
    assert_eq!(short.diff(&short), Vec::<usize>::new());
}

#[test]
fn test_keypair_generation() {
    let (public, private) = generate_keypair();
    assert_eq!(public.len(), 32);
    assert_eq!(private.len(), 32);

    // Different each time
    let (public2, _) = generate_keypair();
    assert_ne!(public, public2);
}

#[test]
fn test_sign_verify() {
    let (public, private) = generate_keypair();
    let message = b"hello grabnet";

    let signature = sign(message, &private);
    assert!(verify(message, &signature, &public));

    // Wrong message fails
    assert!(!verify(b"wrong message", &signature, &public));

    // Wrong key fails
    let (other_public, _) = generate_keypair();
    assert!(!verify(message, &signature, &other_public));
}

#[test]
fn test_bundle_signature() {
    let (public, private) = generate_keypair();
    let site_id = [1u8; 32];
    let revision = 42u64;
    let root_hash = [2u8; 32];

    let signature = sign_bundle(&site_id, revision, &root_hash, &private);
    assert!(verify_bundle(&site_id, revision, &root_hash, &signature, &public));

    // Wrong revision fails
    assert!(!verify_bundle(&site_id, 43, &root_hash, &signature, &public));
}

#[test]
fn ed25519_known_vector() {
    let seed: [u8; 32] =
        unhex("9d61b19deffd5a60ba844af492ec2cc44449c5697b326919703bac031cae7f60").try_into().unwrap();
    let public = unhex("d75a980182b10ab7d54bfed3c964073a0ee172f3daa62325af021a68f707511a");
    assert_eq!(public_key_of(&seed).to_vec(), public);
    let signature = sign(b"", &seed);
    assert_eq!(signature.len(), 64);
    assert_eq!(signature, sign(b"", &seed));
    assert!(verify(b"", &signature, &public_key_of(&seed)));
}

#[test]
fn generated_pair_belongs_together() {
    let (public, private) = generate_keypair();
    assert_eq!(public_key_of(&private), public);
}

#[test]
fn verify_rejects_wrong_lengths_and_bad_keys() {
    let (public, private) = generate_keypair();
    let mut signature = sign(b"msg", &private);
    signature.push(0);
    assert!(!verify(b"msg", &signature, &public));
    signature.truncate(63);
    assert!(!verify(b"msg", &signature, &public));
    assert!(!verify(b"msg", &Vec::new(), &public));
    let good = sign(b"msg", &private);
    // Not every 32 bytes are a point on the curve.
    let mut rejected = 0;
    for first in 0..=255u8 {
        let mut key = [0u8; 32];
        key[0] = first;
        key[31] = 0x7f;
        if !verify(b"msg", &good, &key) {
            rejected += 1;
        }
    }
    assert_eq!(rejected, 256);
}

#[test]
fn bundle_signature_covers_seventy_two_bytes() {
    let (public, private) = generate_keypair();
    let site_id = [3u8; 32];
    let root_hash = [4u8; 32];
    let revision = 0x0102030405060708u64;
    let mut message = site_id.to_vec();
    message.extend_from_slice(&[8, 7, 6, 5, 4, 3, 2, 1]);
    message.extend_from_slice(&root_hash);
    assert_eq!(message.len(), 72);
    let signature = sign_bundle(&site_id, revision, &root_hash, &private);
    assert!(verify(&message, &signature, &public));
    assert_eq!(signature, sign(&message, &private));
    assert!(!verify_bundle(&[5u8; 32], revision, &root_hash, &signature, &public));
    assert!(!verify_bundle(&site_id, revision, &[5u8; 32], &signature, &public));
}
