//! The embedded key/value database, as the stores see it: trees that map
//! byte strings to byte strings. Everything here is believed of the
//! database, not proved.

use vstd::prelude::*;
use crate::bytes::lex_less;

verus! {

/// The handle of an open database, `sled::Db`. Nothing inside it is seen here.
#[verifier::external_type_specification]
#[verifier::external_body]
pub struct ExSledDb(sled::Db);

/// The handle of one tree of a database, `sled::Tree`. What it holds is
/// spoken of through `tree_entries`.
#[verifier::external_type_specification]
#[verifier::external_body]
pub struct ExSledTree(sled::Tree);

/// The error of a database operation, `sled::Error`.
#[verifier::external_type_specification]
#[verifier::external_body]
pub struct ExSledError(sled::Error);

/// The entries that a tree holds, as the handle at hand sees them. The
/// stores never share a tree, so that only their own writes change it.
pub uninterp spec fn tree_entries(tree: sled::Tree) -> Map<Seq<u8>, Seq<u8>>;

/// What a storage operation reports when it fails.
#[derive(Debug, Clone)]
pub enum StoreError {
    /// The database reported an error; the text is its own.
    Storage { message: String },
    /// A stored value is not the binary form of the record expected there.
    Corrupted,
}

/// The value under `key`, if there is one.
pub open spec fn entry_at(entries: Map<Seq<u8>, Seq<u8>>, key: Seq<u8>) -> Option<Seq<u8>> {
    if entries.contains_key(key) {
        Some(entries[key])
    } else {
        None
    }
}

/// The view of an optional byte string.
pub open spec fn bytes_view(value: Option<Vec<u8>>) -> Option<Seq<u8>> {
    match value {
        Some(v) => Some(v@),
        None => None,
    }
}

/// The views of listed entries.
pub open spec fn pair_views(list: Seq<(Vec<u8>, Vec<u8>)>) -> Seq<(Seq<u8>, Seq<u8>)> {
    list.map_values(|p: (Vec<u8>, Vec<u8>)| (p.0@, p.1@))
}

/// `list` holds each entry of `entries` once, in ascending order of the keys.
pub open spec fn is_listing(list: Seq<(Seq<u8>, Seq<u8>)>, entries: Map<Seq<u8>, Seq<u8>>) -> bool {
    &&& entries.dom().finite()
    &&& list.len() == entries.dom().len()
    &&& forall|i: int| 0 <= i < list.len() ==> entry_at(entries, (#[trigger] list[i]).0) == Some(list[i].1)
    &&& forall|i: int, j: int|
        0 <= i < j < list.len() ==> (#[trigger] list[i]).0 != (#[trigger] list[j]).0 && lex_less(
            list[i].0,
            list[j].0,
        )
    &&& forall|key: Seq<u8>| #[trigger]
        entries.contains_key(key) ==> exists|i: int| 0 <= i < list.len() && (#[trigger] list[i]).0 == key
}

/// Calls `sled::open`. Nothing is claimed of what the database holds.
#[verifier::external_body]
pub(crate) fn open_db(path: &str) -> (db: Result<sled::Db, sled::Error>) {
    sled::open(path)
}

/// Calls `Db::open_tree`. Nothing is claimed of what the tree holds.
#[verifier::external_body]
pub(crate) fn open_tree(db: &sled::Db, name: &str) -> (tree: Result<sled::Tree, sled::Error>) {
    db.open_tree(name)
}

/// Clones the handle of the default tree, which `Db` dereferences to.
/// Nothing is claimed of what the tree holds.
#[verifier::external_body]
pub(crate) fn default_tree(db: &sled::Db) -> (tree: sled::Tree) {
    (**db).clone()
}

/// Calls `Tree::get`. Trusted: a successful call gives the value under the key, if any.
#[verifier::external_body]
pub(crate) fn tree_get(tree: &sled::Tree, key: &[u8]) -> (found: Result<Option<Vec<u8>>, sled::Error>)
    ensures
        found matches Ok(value) ==> bytes_view(value) == entry_at(tree_entries(*tree), key@),
{
    tree.get(key).map(|found| found.map(|value| value.to_vec()))
}

/// Calls `Tree::contains_key`. Trusted: a successful call says whether the key has a value.
#[verifier::external_body]
pub(crate) fn tree_contains(tree: &sled::Tree, key: &[u8]) -> (found: Result<bool, sled::Error>)
    ensures
        found matches Ok(present) ==> present == tree_entries(*tree).contains_key(key@),
{
    tree.contains_key(key)
}

/// Calls `Tree::insert`. Trusted: a successful call puts the value under
/// the key, leaves the other entries alone, and gives the value that was
/// there before. Nothing is claimed of the tree after a failed call.
#[verifier::external_body]
pub(crate) fn tree_insert(tree: &mut sled::Tree, key: &[u8], value: &[u8]) -> (previous: Result<
    Option<Vec<u8>>,
    sled::Error,
>)
    ensures
        previous matches Ok(before) ==> {
            &&& tree_entries(*final(tree)) == tree_entries(*old(tree)).insert(key@, value@)
            &&& bytes_view(before) == entry_at(tree_entries(*old(tree)), key@)
        },
{
    tree.insert(key, value).map(|before| before.map(|value| value.to_vec()))
}

/// Calls `Tree::remove`. Trusted: a successful call takes the key's entry
/// away, leaves the other entries alone, and gives the value that was
/// there. Nothing is claimed of the tree after a failed call.
#[verifier::external_body]
pub(crate) fn tree_remove(tree: &mut sled::Tree, key: &[u8]) -> (previous: Result<
    Option<Vec<u8>>,
    sled::Error,
>)
    ensures
        previous matches Ok(before) ==> {
            &&& tree_entries(*final(tree)) == tree_entries(*old(tree)).remove(key@)
            &&& bytes_view(before) == entry_at(tree_entries(*old(tree)), key@)
        },
{
    tree.remove(key).map(|before| before.map(|value| value.to_vec()))
}

/// Walks `Tree::iter` to its end. Trusted: a successful walk hands out
/// each entry of the tree exactly once, the lesser key first.
#[verifier::external_body]
pub(crate) fn tree_list(tree: &sled::Tree) -> (list: Result<Vec<(Vec<u8>, Vec<u8>)>, sled::Error>)
    ensures
        list matches Ok(pairs) ==> is_listing(pair_views(pairs@), tree_entries(*tree)),
{
    tree.iter().map(|item| item.map(|(key, value)| (key.to_vec(), value.to_vec()))).collect()
}

/// Calls `Tree::flush`, which writes pending changes to disk.
#[verifier::external_body]
pub(crate) fn tree_flush(tree: &sled::Tree) -> (flushed: Result<usize, sled::Error>) {
    tree.flush()
}

/// Calls `Db::flush`, which writes pending changes of every tree to disk.
#[verifier::external_body]
pub(crate) fn db_flush(db: &sled::Db) -> (flushed: Result<usize, sled::Error>) {
    db.flush()
}

/// The database's own words for an error.
#[verifier::external_body]
pub(crate) fn error_text(error: &sled::Error) -> (text: String) {
    format!("{}", error)
}

/// The library's error for an error of the database.
pub(crate) fn storage_error(error: &sled::Error) -> (mapped: StoreError)
    ensures
        mapped is Storage,
{
    StoreError::Storage { message: error_text(error) }
}

impl StoreError {
    /// The error as text: the database's own words, or a fixed text for
    /// a record that does not decode.
    pub fn to_text(&self) -> (text: String)
        ensures
            text@ == (match self {
                StoreError::Storage { message } => message@,
                StoreError::Corrupted => "Corrupted store: a record does not decode"@,
            }),
    {
        match self {
            StoreError::Storage { message } => message.clone(),
            StoreError::Corrupted => "Corrupted store: a record does not decode".to_owned(),
        }
    }
}

/// What a flush reports for what the database answered: done where
/// the database flushed, its error where it did not.
pub fn flush_outcome(answer: Result<usize, sled::Error>) -> (flushed: Result<(), StoreError>)
    ensures
        flushed is Ok <==> answer is Ok,
        flushed matches Err(e) ==> e is Storage,
{
    match answer {
        Ok(_) => Ok(()),
        Err(e) => Err(storage_error(&e)),
    }
}

} // verus!
