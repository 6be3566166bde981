//! Named Ed25519 keypairs with get-or-create semantics.

use vstd::prelude::*;
use vstd::utf8::{decode_utf8, encode_utf8, valid_utf8};
use crate::bytes::array32_at;
use crate::crypto::hash::{base58_text, encode_base58};
use crate::crypto::signing::{ed25519_public_key, generate_keypair, public_key_of};
use crate::storage::kv::{db_flush, flush_outcome, entry_at, is_listing, open_db, open_tree, pair_views};
use crate::storage::kv::{storage_error, tree_entries, tree_get, tree_insert, tree_list, tree_remove};
use crate::storage::kv::StoreError;
use crate::types::{text_views, PublicKey};

verus! {

/// The text that `String::from_utf8_lossy` makes of bytes.
pub uninterp spec fn lossy_text(bytes: Seq<u8>) -> Seq<char>;

/// Calls `String::from_utf8_lossy`. Trusted: the text depends on the
/// bytes alone, and valid UTF-8 gives the text it encodes.
#[verifier::external_body]
fn text_from_utf8_lossy(bytes: &[u8]) -> (text: String)
    ensures
        text@ == lossy_text(bytes@),
        valid_utf8(bytes@) ==> text@ == decode_utf8(bytes@),
{
    String::from_utf8_lossy(bytes).to_string()
}

/// The names of listed keys: for each entry the text of its key.
pub open spec fn key_names(list: Seq<(Seq<u8>, Seq<u8>)>) -> Seq<Seq<char>> {
    list.map_values(|entry: (Seq<u8>, Seq<u8>)| lossy_text(entry.0))
}

/// The names of the keys that the database listed, in their order.
pub fn names_of(list: &Vec<(Vec<u8>, Vec<u8>)>) -> (names: Vec<String>)
    ensures
        text_views(names@) == key_names(pair_views(list@)),
{
    let ghost listed = pair_views(list@);
    let mut names: Vec<String> = Vec::new();
    let mut i: usize = 0;
    while i < list.len()
        invariant
            i <= list@.len(),
            listed == pair_views(list@),
            text_views(names@) == key_names(listed.take(i as int)),
        decreases list@.len() - i,
    {
        let name = text_from_utf8_lossy(list[i].0.as_slice());
        proof {
            assert(key_names(listed.take(i + 1)) =~= key_names(listed.take(i as int)).push(
                lossy_text(listed[i as int].0),
            ));
            assert(text_views(names@.push(name)) =~= text_views(names@).push(name@));
        }
        names.push(name);
        i += 1;
    }
    proof {
        assert(listed.take(list@.len() as int) =~= listed);
    }
    names
}

/// The key under which a name's halves are stored.
pub open spec fn name_key(name: Seq<char>) -> Seq<u8> {
    encode_utf8(name)
}

/// Every private key has its public key stored beside it.
pub open spec fn keys_consistent(private: Map<Seq<u8>, Seq<u8>>, public: Map<Seq<u8>, Seq<u8>>) -> bool {
    forall|key: Seq<u8>| #[trigger]
        private.contains_key(key) ==> {
            &&& private[key].len() == 32
            &&& public.contains_key(key)
            &&& public[key] == ed25519_public_key(private[key])
        }
}

/// Key store for Ed25519 keypairs.
pub struct KeyStore {
    db: sled::Db,
    /// Private keys, by name.
    private_keys: sled::Tree,
    /// Public keys, by name.
    public_keys: sled::Tree,
}

impl KeyStore {
    /// The private keys, by name key.
    pub closed spec fn private(&self) -> Map<Seq<u8>, Seq<u8>> {
        tree_entries(self.private_keys)
    }

    /// The public keys, by name key.
    pub closed spec fn public(&self) -> Map<Seq<u8>, Seq<u8>> {
        tree_entries(self.public_keys)
    }

    /// Every private key has its public key stored beside it.
    pub open spec fn consistent(&self) -> bool {
        keys_consistent(self.private(), self.public())
    }

    /// Create a new key store in the directory `keys.db` under `data_dir`.
    pub fn new(data_dir: &str) -> (opened: Result<Self, StoreError>)
        ensures
            opened matches Err(e) ==> e is Storage,
    {
        let path = keys_dir(data_dir);
        let db = match open_db(path.as_str()) {
            Ok(db) => db,
            Err(e) => {
                return Err(storage_error(&e));
            },
        };
        let private_keys = match open_tree(&db, "private") {
            Ok(tree) => tree,
            Err(e) => {
                return Err(storage_error(&e));
            },
        };
        let public_keys = match open_tree(&db, "public") {
            Ok(tree) => tree,
            Err(e) => {
                return Err(storage_error(&e));
            },
        };
        Ok(KeyStore { db, private_keys, public_keys })
    }

    /// Get or create a keypair by name: the stored pair where the name has
    /// one, else a fresh pair, which is stored and flushed to disk. Gives
    /// the public key, then the private key.
    pub fn get_or_create(&mut self, name: &str) -> (pair: Result<(PublicKey, [u8; 32]), StoreError>)
        ensures
            pair matches Ok((public_key, private_key)) ==> {
                if old(self).private().contains_key(name_key(name@)) {
                    &&& final(self).private() == old(self).private()
                    &&& final(self).public() == old(self).public()
                    &&& entry_at(old(self).private(), name_key(name@)) == Some(private_key@)
                    &&& entry_at(old(self).public(), name_key(name@)) == Some(public_key@)
                } else {
                    &&& public_key@ == ed25519_public_key(private_key@)
                    &&& final(self).private() == old(self).private().insert(
                        name_key(name@),
                        private_key@,
                    )
                    &&& final(self).public() == old(self).public().insert(name_key(name@), public_key@)
                }
            },
            pair matches Ok(_) ==> (old(self).consistent() ==> final(self).consistent()),
            pair matches Ok((public_key, private_key)) ==> (old(self).consistent() ==> public_key@
                == ed25519_public_key(private_key@)),
            pair matches Err(e) ==> (e is Corrupted ==> old(self).private().contains_key(
                name_key(name@),
            )),
    {
        let key = name.as_bytes();
        let stored = match tree_get(&self.private_keys, key) {
            Ok(stored) => stored,
            Err(e) => {
                return Err(storage_error(&e));
            },
        };
        match stored {
            Some(private_bytes) => {
                let public_bytes = match tree_get(&self.public_keys, key) {
                    Ok(Some(bytes)) => bytes,
                    Ok(None) => {
                        return Err(StoreError::Corrupted);
                    },
                    Err(e) => {
                        return Err(storage_error(&e));
                    },
                };
                if private_bytes.len() != 32 || public_bytes.len() != 32 {
                    return Err(StoreError::Corrupted);
                }
                let private_key = array32_at(private_bytes.as_slice(), 0);
                let public_key = array32_at(public_bytes.as_slice(), 0);
                proof {
                    assert(private_key@ =~= private_bytes@);
                }
                Ok((public_key, private_key))
            },
            None => {
                let (public_key, private_key) = generate_keypair();
                match tree_insert(&mut self.private_keys, key, private_key.as_slice()) {
                    Ok(_) => {},
                    Err(e) => {
                        return Err(storage_error(&e));
                    },
                }
                match tree_insert(&mut self.public_keys, key, public_key.as_slice()) {
                    Ok(_) => {},
                    Err(e) => {
                        return Err(storage_error(&e));
                    },
                }
                match db_flush(&self.db) {
                    Ok(_) => Ok((public_key, private_key)),
                    Err(e) => Err(storage_error(&e)),
                }
            },
        }
    }

    /// Get public key by name.
    pub fn get_public_key(&self, name: &str) -> (found: Result<Option<PublicKey>, StoreError>)
        ensures
            match found {
                Ok(Some(key)) => entry_at(self.public(), name_key(name@)) == Some(key@),
                Ok(None) => !self.public().contains_key(name_key(name@)),
                Err(e) => e is Corrupted ==> self.public().contains_key(name_key(name@))
                    && self.public()[name_key(name@)].len() != 32,
            },
    {
        read_key(&self.public_keys, name)
    }

    /// Get private key by name (use with caution).
    pub fn get_private_key(&self, name: &str) -> (found: Result<Option<[u8; 32]>, StoreError>)
        ensures
            match found {
                Ok(Some(key)) => entry_at(self.private(), name_key(name@)) == Some(key@),
                Ok(None) => !self.private().contains_key(name_key(name@)),
                Err(e) => e is Corrupted ==> self.private().contains_key(name_key(name@))
                    && self.private()[name_key(name@)].len() != 32,
            },
    {
        read_key(&self.private_keys, name)
    }

    /// List all key names: one name for each public key stored, in the
    /// order of the stored keys. Only the database can make this fail.
    pub fn list_keys(&self) -> (listed: Result<Vec<String>, StoreError>)
        ensures
            listed matches Ok(names) ==> exists|list: Seq<(Seq<u8>, Seq<u8>)>|
                #![trigger is_listing(list, self.public())]
                is_listing(list, self.public()) && text_views(names@) == key_names(list),
            listed matches Err(e) ==> e is Storage,
    {
        match tree_list(&self.public_keys) {
            Ok(list) => {
                let names = names_of(&list);
                proof {
                    assert(is_listing(pair_views(list@), self.public()));
                }
                Ok(names)
            },
            Err(e) => Err(storage_error(&e)),
        }
    }

    /// Import a private key under a name and flush to disk; gives the
    /// public key derived from it.
    pub fn import(&mut self, name: &str, private_key: &[u8; 32]) -> (imported: Result<
        PublicKey,
        StoreError,
    >)
        ensures
            imported matches Ok(public_key) ==> {
                &&& public_key@ == ed25519_public_key(private_key@)
                &&& final(self).private() == old(self).private().insert(name_key(name@), private_key@)
                &&& final(self).public() == old(self).public().insert(name_key(name@), public_key@)
                &&& old(self).consistent() ==> final(self).consistent()
            },
            imported matches Err(e) ==> e is Storage,
    {
        let public_key = public_key_of(private_key);
        let key = name.as_bytes();
        match tree_insert(&mut self.private_keys, key, private_key.as_slice()) {
            Ok(_) => {},
            Err(e) => {
                return Err(storage_error(&e));
            },
        }
        match tree_insert(&mut self.public_keys, key, public_key.as_slice()) {
            Ok(_) => {},
            Err(e) => {
                return Err(storage_error(&e));
            },
        }
        match db_flush(&self.db) {
            Ok(_) => Ok(public_key),
            Err(e) => Err(storage_error(&e)),
        }
    }

    /// Export a private key as base58 text.
    pub fn export(&self, name: &str) -> (exported: Result<Option<String>, StoreError>)
        ensures
            match exported {
                Ok(Some(text)) => entry_at(self.private(), name_key(name@)) matches Some(key)
                    && text@ == base58_text(key),
                Ok(None) => !self.private().contains_key(name_key(name@)),
                Err(e) => e is Corrupted ==> self.private().contains_key(name_key(name@))
                    && self.private()[name_key(name@)].len() != 32,
            },
    {
        match self.get_private_key(name) {
            Ok(Some(key)) => Ok(Some(encode_base58(key.as_slice()))),
            Ok(None) => Ok(None),
            Err(e) => Err(e),
        }
    }

    /// Delete a key and flush to disk; says whether the name had a private key.
    pub fn delete(&mut self, name: &str) -> (deleted: Result<bool, StoreError>)
        ensures
            deleted matches Ok(existed) ==> {
                &&& existed == old(self).private().contains_key(name_key(name@))
                &&& final(self).private() == old(self).private().remove(name_key(name@))
                &&& final(self).public() == old(self).public().remove(name_key(name@))
                &&& old(self).consistent() ==> final(self).consistent()
            },
            deleted matches Err(e) ==> e is Storage,
    {
        let key = name.as_bytes();
        let existed = match tree_remove(&mut self.private_keys, key) {
            Ok(before) => before.is_some(),
            Err(e) => {
                return Err(storage_error(&e));
            },
        };
        match tree_remove(&mut self.public_keys, key) {
            Ok(_) => {},
            Err(e) => {
                return Err(storage_error(&e));
            },
        }
        match db_flush(&self.db) {
            Ok(_) => Ok(existed),
            Err(e) => Err(storage_error(&e)),
        }
    }

    /// Flush to disk.
    pub fn flush(&self) -> (flushed: Result<(), StoreError>)
        ensures
            flushed matches Err(e) ==> e is Storage,
    {
        flush_outcome(db_flush(&self.db))
    }
}

/// The directory of the key database under a data directory.
fn keys_dir(data_dir: &str) -> (path: String)
    ensures
        path@ == data_dir@ + "/keys.db"@,
{
    crate::text::join(data_dir, "/keys.db")
}

/// Reads the 32-byte key stored under a name.
fn read_key(tree: &sled::Tree, name: &str) -> (found: Result<Option<[u8; 32]>, StoreError>)
    ensures
        match found {
            Ok(Some(key)) => entry_at(tree_entries(*tree), name_key(name@)) == Some(key@),
            Ok(None) => !tree_entries(*tree).contains_key(name_key(name@)),
            Err(e) => e is Corrupted ==> tree_entries(*tree).contains_key(name_key(name@))
                && tree_entries(*tree)[name_key(name@)].len() != 32,
        },
{
    match tree_get(tree, name.as_bytes()) {
        Ok(Some(bytes)) => {
            if bytes.len() != 32 {
                return Err(StoreError::Corrupted);
            }
            let key = array32_at(bytes.as_slice(), 0);
            Ok(Some(key))
        },
        Ok(None) => Ok(None),
        Err(e) => Err(storage_error(&e)),
    }
}

} // verus!
