use vstd::prelude::*;

use crate::inode::{
    node_attr, with_node_fields, DirEntry, Errno, FileAttr, FileKind, Id, IdModel, ObjectId,
    DIR_PERM,
};
use crate::store::{tree_child, tree_entry, tree_len, ObjectKind, StoreEntry};

verus! {

/// The node kind under which a tree entry of the given object kind is listed.
pub open spec fn kind_of_object(kind: ObjectKind) -> FileKind {
    match kind {
        ObjectKind::Tree => FileKind::Directory,
        ObjectKind::Blob => FileKind::RegularFile,
        _ => FileKind::CharDevice,
    }
}

/// Whether a name holds a zero byte, which no entry name can hold.
pub open spec fn has_zero_byte(name: Seq<u8>) -> bool {
    exists|i: int| 0 <= i < name.len() && name[i] == 0
}

/// What a lookup in a tree may return: a zero byte in the name is never
/// found; a child is found by its content address.
pub open spec fn tree_lookup_post(name: Seq<u8>, r: Result<Id, Errno>) -> bool {
    &&& has_zero_byte(name) ==> r == Err::<Id, Errno>(Errno::NotFound)
    &&& r is Ok ==> r.unwrap()@ is Oid
    &&& r is Err ==> r == Err::<Id, Errno>(Errno::NotFound) || r == Err::<Id, Errno>(Errno::Io)
}

/// The listing entry for a tree entry that the store returned.
pub open spec fn store_entry_model(e: StoreEntry) -> (IdModel, FileKind, Seq<u8>) {
    (IdModel::Oid(e.id@), kind_of_object(e.kind), e.name@)
}

/// The listing made of what the store returned for a run of positions: the
/// entries it found, in order; a position without an entry is left out.
pub open spec fn present_entries(fetched: Seq<Option<StoreEntry>>) -> Seq<
    (IdModel, FileKind, Seq<u8>),
>
    decreases fetched.len(),
{
    if fetched.len() == 0 {
        Seq::empty()
    } else {
        let rest = present_entries(fetched.drop_last());
        match fetched.last() {
            Some(e) => rest.push(store_entry_model(e)),
            None => rest,
        }
    }
}

/// The number of positions of a tree of `size` entries from `start` on.
pub open spec fn positions_from(size: u64, start: u64) -> nat {
    if start < size {
        (size - start) as nat
    } else {
        0
    }
}

/// What a listing of a tree returns: the entries that the store returned
/// for each position from `start` to the tree's entry count, in order; or
/// `Io` where the store cannot load the tree.
pub open spec fn tree_children_post(t: Tree, start: u64, r: Result<Vec<DirEntry>, Errno>) -> bool {
    &&& r is Err ==> r == Err::<Vec<DirEntry>, Errno>(Errno::Io)
    &&& r is Ok ==> exists|fetched: Seq<Option<StoreEntry>>|
        fetched.len() == positions_from(t.size, start) && crate::inode::entries_model(
            r.unwrap()@,
        ) == present_entries(fetched)
}

/// Classify a tree entry: trees are directories, blobs regular files, and
/// anything else an unknown kind.
pub fn classify(kind: ObjectKind) -> (r: FileKind)
    ensures
        r == kind_of_object(kind),
{
    match kind {
        ObjectKind::Tree => FileKind::Directory,
        ObjectKind::Blob => FileKind::RegularFile,
        _ => FileKind::CharDevice,
    }
}

/// The directory entry for a tree entry that the store returned.
pub fn entry_of(e: &StoreEntry) -> (r: DirEntry)
    ensures
        crate::inode::entry_model(r) == store_entry_model(*e),
{
    DirEntry { id: Id::Oid(e.id.duplicate()), kind: classify(e.kind), name: e.name.clone() }
}

/// The listing made of what the store returned for a run of positions: the
/// entries found, in order, each reached by its content address and
/// classified by its kind.
pub fn listing_from(fetched: &Vec<Option<StoreEntry>>) -> (r: Vec<DirEntry>)
    ensures
        crate::inode::entries_model(r@) == present_entries(fetched@),
{
    let mut out: Vec<DirEntry> = Vec::new();
    let mut i: usize = 0;
    while i < fetched.len()
        invariant
            i <= fetched@.len(),
            crate::inode::entries_model(out@) == present_entries(fetched@.subrange(0, i as int)),
        decreases fetched.len() - i,
    {
        let ghost prev = out@;
        assert(fetched@.subrange(0, i + 1).drop_last() =~= fetched@.subrange(0, i as int));
        match &fetched[i] {
            Some(e) => {
                let d = entry_of(e);
                out.push(d);
                assert(crate::inode::entries_model(out@) =~= crate::inode::entries_model(
                    prev,
                ).push(store_entry_model(*e)));
            },
            None => {},
        }
        i = i + 1;
    }
    assert(fetched@.subrange(0, fetched@.len() as int) =~= fetched@);
    out
}

/// The outcome of looking a name up in a tree, from what the store returned:
/// no tree at all is an I/O error, no entry of that name is not found.
pub fn child_result(found: Option<Option<ObjectId>>) -> (r: Result<Id, Errno>)
    ensures
        match found {
            None => r == Err::<Id, Errno>(Errno::Io),
            Some(None) => r == Err::<Id, Errno>(Errno::NotFound),
            Some(Some(o)) => r is Ok && r.unwrap()@ == IdModel::Oid(o@),
        },
{
    match found {
        None => Err(Errno::Io),
        Some(None) => Err(Errno::NotFound),
        Some(Some(o)) => Ok(Id::Oid(o)),
    }
}

/// Whether `name` holds a zero byte.
fn find_zero(name: &[u8]) -> (r: bool)
    ensures
        r == has_zero_byte(name@),
{
    let mut i: usize = 0;
    while i < name.len()
        invariant
            i <= name@.len(),
            forall|j: int| 0 <= j < i ==> name@[j] != 0,
        decreases name.len() - i,
    {
        if name[i] == 0 {
            return true;
        }
        i = i + 1;
    }
    false
}

/// Git trees are represented as directories
pub struct Tree {
    pub oid: ObjectId,
    /// The number of entries of the tree.
    pub size: u64,
}

impl Tree {
    /// A directory node for the tree `oid` of `size` entries.
    pub fn new(oid: ObjectId, size: u64) -> (r: Tree)
        ensures
            r.oid@ == oid@,
            r.size == size,
    {
        Tree { oid, size }
    }

    /// The tree's attributes: its entry count as size, the directory kind
    /// and mode 0755.
    pub fn getattr(&self, attr: FileAttr) -> (r: FileAttr)
        ensures
            r == with_node_fields(attr, self.size, FileKind::Directory, DIR_PERM),
            r.blocks == crate::inode::blocks_for(r.size as nat),
    {
        node_attr(attr, self.size, FileKind::Directory, DIR_PERM)
    }

    /// The child named `name`, as the store resolves it in this tree.
    pub fn lookup(&self, repo: &git2::Repository, name: &[u8]) -> (r: Result<Id, Errno>)
        ensures
            tree_lookup_post(name@, r),
    {
        if find_zero(name) {
            return Err(Errno::NotFound);
        }
        child_result(tree_child(repo, &self.oid, name))
    }

    /// The entries of the tree from position `start` on, in the tree's order.
    /// Fails with `Io` where the store cannot load the tree.
    pub fn children(&self, repo: &git2::Repository, start: u64) -> (r: Result<
        Vec<DirEntry>,
        Errno,
    >)
        ensures
            tree_children_post(*self, start, r),
    {
        if tree_len(repo, &self.oid).is_none() {
            return Err(Errno::Io);
        }
        let mut fetched: Vec<Option<StoreEntry>> = Vec::new();
        let mut i: u64 = start;
        while i < self.size
            invariant
                start <= i,
                start < self.size ==> i <= self.size,
                start >= self.size ==> i == start,
                fetched@.len() == i - start,
            decreases self.size - i,
        {
            let e = match tree_entry(repo, &self.oid, i) {
                Some(found) => found,
                None => None,
            };
            fetched.push(e);
            i = i + 1;
        }
        let r = listing_from(&fetched);
        assert(fetched@.len() == positions_from(self.size, start));
        Ok(r)
    }
}

} // verus!
