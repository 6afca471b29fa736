//! The object store as this library reaches it: a git repository opened with
//! the `git2` crate. What the repository holds is on disk and may change, so
//! these calls promise little about the values they return: an object id
//! that `git2` hands out is 20 bytes long (`Oid::as_bytes`).
use vstd::prelude::*;

use crate::inode::ObjectId;

verus! {

#[verifier::external_type_specification]
#[verifier::external_body]
pub struct ExRepository(git2::Repository);

/// The kind of a stored object, as the store reports it.
#[derive(Clone, Copy, Debug, PartialEq, Eq, Structural)]
pub enum ObjectKind {
    Blob,
    Tree,
    Commit,
    Other,
}

/// One entry of a stored tree: the entry's object, its kind, and its name.
pub struct StoreEntry {
    pub id: ObjectId,
    pub kind: ObjectKind,
    pub name: Vec<u8>,
}

/// Relies on `git2::Repository::find_object` and `git2::Object::kind`: the
/// kind of the object with this id, or `None` where the store has no such
/// object or cannot name its kind.
#[verifier::external_body]
pub(crate) fn object_kind(repo: &git2::Repository, oid: &ObjectId) -> (r: Option<ObjectKind>) {
    let id = git2::Oid::from_bytes(oid.as_bytes()).ok()?;
    match repo.find_object(id, None).ok()?.kind() {
        Some(git2::ObjectType::Blob) => Some(ObjectKind::Blob),
        Some(git2::ObjectType::Tree) => Some(ObjectKind::Tree),
        Some(git2::ObjectType::Commit) => Some(ObjectKind::Commit),
        Some(_) => Some(ObjectKind::Other),
        None => None,
    }
}

/// Relies on `git2::Repository::find_blob` and `git2::Blob::content`: a copy
/// of the blob's bytes, or `None` where the store holds no blob with this id.
#[verifier::external_body]
pub(crate) fn blob_content(repo: &git2::Repository, oid: &ObjectId) -> (r: Option<Vec<u8>>) {
    let id = git2::Oid::from_bytes(oid.as_bytes()).ok()?;
    repo.find_blob(id).ok().map(|blob| blob.content().to_vec())
}

/// Relies on `git2::Repository::find_tree` and `git2::Tree::len`: the number
/// of entries of the tree, or `None` where the store holds no tree with this
/// id.
#[verifier::external_body]
pub(crate) fn tree_len(repo: &git2::Repository, oid: &ObjectId) -> (r: Option<u64>) {
    let id = git2::Oid::from_bytes(oid.as_bytes()).ok()?;
    repo.find_tree(id).ok().map(|tree| tree.len() as u64)
}

/// Relies on `git2::Repository::find_tree` and `git2::Tree::get`, with the
/// entry's `id`, `kind` and `name_bytes`: the entry at position `index` of the
/// tree. `None` where there is no such tree; `Some(None)` where the tree has no
/// entry at that position.
#[verifier::external_body]
pub(crate) fn tree_entry(repo: &git2::Repository, oid: &ObjectId, index: u64) -> (r: Option<
    Option<StoreEntry>,
>)
    ensures
        r matches Some(Some(e)) ==> e.id@.len() == 20 && e.kind != ObjectKind::Commit,
{
    let id = git2::Oid::from_bytes(oid.as_bytes()).ok()?;
    let tree = repo.find_tree(id).ok()?;
    Some(tree.get(index as usize).map(|e| StoreEntry {
        id: ObjectId::from_bytes(e.id().as_bytes().to_vec()),
        kind: match e.kind() {
            Some(git2::ObjectType::Blob) => ObjectKind::Blob,
            Some(git2::ObjectType::Tree) => ObjectKind::Tree,
            _ => ObjectKind::Other,
        },
        name: e.name_bytes().to_vec(),
    }))
}

/// Relies on `git2::Repository::find_tree` and `git2::Tree::get_name_bytes`:
/// the id of the tree's entry named `name`. `None` where there is no such
/// tree; `Some(None)` where the tree has no entry of that name. The name must
/// hold no zero byte, on which `get_name_bytes` panics.
#[verifier::external_body]
pub(crate) fn tree_child(repo: &git2::Repository, oid: &ObjectId, name: &[u8]) -> (r: Option<
    Option<ObjectId>,
>)
    requires
        forall|i: int| 0 <= i < name@.len() ==> name@[i] != 0,
    ensures
        r matches Some(Some(id)) ==> id@.len() == 20,
{
    let id = git2::Oid::from_bytes(oid.as_bytes()).ok()?;
    let tree = repo.find_tree(id).ok()?;
    Some(tree.get_name_bytes(name).map(|e| ObjectId::from_bytes(e.id().as_bytes().to_vec())))
}

/// Relies on `git2::Repository::find_commit` and `git2::Commit::tree_id`: the
/// id of the commit's tree, or `None` where the store holds no commit with
/// this id.
#[verifier::external_body]
pub(crate) fn commit_tree(repo: &git2::Repository, oid: &ObjectId) -> (r: Option<ObjectId>)
    ensures
        r matches Some(id) ==> id@.len() == 20,
{
    let id = git2::Oid::from_bytes(oid.as_bytes()).ok()?;
    repo.find_commit(id).ok().map(|c| ObjectId::from_bytes(c.tree_id().as_bytes().to_vec()))
}

/// Relies on `git2::Repository::head` and `git2::Reference::target`: the
/// object that HEAD resolves to at the time of the call, or `None` where HEAD
/// does not resolve to an object id.
#[verifier::external_body]
pub(crate) fn head_target(repo: &git2::Repository) -> (r: Option<ObjectId>)
    ensures
        r matches Some(id) ==> id@.len() == 20,
{
    let head = repo.head().ok()?;
    head.target().map(|t| ObjectId::from_bytes(t.as_bytes().to_vec()))
}

} // verus!
