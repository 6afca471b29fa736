use vstd::prelude::*;

use crate::inode::{
    bytes_eq, entries_model, node_attr, with_node_fields, DirEntry, Errno, FileAttr, FileKind, Id,
    IdModel, ObjectId, opt_view, DIR_PERM,
};
use crate::store::head_target;

verus! {

/// The name `HEAD`.
pub open spec fn head_name() -> Seq<u8> {
    seq![72u8, 69u8, 65u8, 68u8]
}

/// The name `refs`.
pub open spec fn refs_name() -> Seq<u8> {
    seq![114u8, 101u8, 102u8, 115u8]
}

/// The bytes of the name `HEAD`.
pub fn head_bytes() -> (r: Vec<u8>)
    ensures
        r@ == head_name(),
{
    let r: Vec<u8> = vec![72u8, 69u8, 65u8, 68u8];
    assert(r@ =~= head_name());
    r
}

/// The bytes of the name `refs`.
pub fn refs_bytes() -> (r: Vec<u8>)
    ensures
        r@ == refs_name(),
{
    let r: Vec<u8> = vec![114u8, 101u8, 102u8, 115u8];
    assert(r@ =~= refs_name());
    r
}

/// The number of entries of the root: `HEAD` and `refs`.
pub const ROOT_SIZE: u64 = 2;

/// The root's listing from position `start` on, where `head` is what HEAD
/// resolved to when the listing was made.
pub open spec fn root_children(root: Root, start: u64, head: Option<Seq<u8>>) -> Seq<
    (IdModel, FileKind, Seq<u8>),
> {
    let h = match head {
        Some(o) => IdModel::Oid(o),
        None => root.head@,
    };
    let head_entry = (h, FileKind::Directory, head_name());
    let refs_entry = (root.refs@, FileKind::Directory, refs_name());
    if start == 0 {
        seq![head_entry, refs_entry]
    } else if start == 1 {
        seq![refs_entry]
    } else {
        seq![]
    }
}

/// What a lookup in the root may return: HEAD is a content address or not
/// found, `refs` is the references directory, and nothing else is found.
pub open spec fn root_lookup_post(root: Root, name: Seq<u8>, r: Result<Id, Errno>) -> bool {
    &&& name == head_name() ==> (r is Ok && r.unwrap()@ is Oid) || r == Err::<Id, Errno>(
        Errno::NotFound,
    )
    &&& name == refs_name() ==> r is Ok && r.unwrap()@ == root.refs@
    &&& name != head_name() && name != refs_name() ==> r == Err::<Id, Errno>(Errno::NotFound)
}

/// What a lookup of `name` in the root returns where HEAD resolves to
/// `head`.
pub open spec fn root_lookup(root: Root, name: Seq<u8>, head: Option<Seq<u8>>) -> Result<
    IdModel,
    Errno,
> {
    if name == head_name() {
        match head {
            Some(o) => Ok(IdModel::Oid(o)),
            None => Err(Errno::NotFound),
        }
    } else if name == refs_name() {
        Ok(root.refs@)
    } else {
        Err(Errno::NotFound)
    }
}

/// The root keeps nothing of HEAD: two lookups of HEAD made while HEAD
/// resolves to different objects each give the object of their own time.
pub proof fn lemma_head_is_live(root: Root, first: Seq<u8>, second: Seq<u8>)
    ensures
        root_lookup(root, head_name(), Some(first)) == Ok::<IdModel, Errno>(IdModel::Oid(first)),
        root_lookup(root, head_name(), Some(second)) == Ok::<IdModel, Errno>(
            IdModel::Oid(second),
        ),
        first != second ==> root_lookup(root, head_name(), Some(first)) != root_lookup(
            root,
            head_name(),
            Some(second),
        ),
{
}

/// The root of the filesystem, revealing HEAD and refs/
pub struct Root {
    /// Stands for HEAD in a listing where HEAD does not resolve.
    pub head: Id,
    /// The directory of references.
    pub refs: Id,
}

impl Root {
    /// A root with the given stand-in for HEAD and the given references
    /// directory.
    pub fn new(head: Id, refs: Id) -> (r: Root)
        ensures
            r.head@ == head@,
            r.refs@ == refs@,
    {
        Root { head, refs }
    }

    /// The root's attributes: size 2, the directory kind and mode 0755.
    pub fn getattr(&self, attr: FileAttr) -> (r: FileAttr)
        ensures
            r == with_node_fields(attr, ROOT_SIZE, FileKind::Directory, DIR_PERM),
            r.blocks == crate::inode::blocks_for(r.size as nat),
    {
        node_attr(attr, ROOT_SIZE, FileKind::Directory, DIR_PERM)
    }

    /// Look `name` up, where `head` is what HEAD resolves to now.
    pub fn lookup_with_head(&self, name: &[u8], head: Option<ObjectId>) -> (r: Result<Id, Errno>)
        ensures
            match root_lookup(*self, name@, opt_view(head)) {
                Ok(id) => r is Ok && r.unwrap()@ == id,
                Err(e) => r == Err::<Id, Errno>(e),
            },
    {
        let h = head_bytes();
        let f = refs_bytes();
        if bytes_eq(name, h.as_slice()) {
            match head {
                Some(o) => Ok(Id::Oid(o)),
                None => Err(Errno::NotFound),
            }
        } else if bytes_eq(name, f.as_slice()) {
            Ok(self.refs.duplicate())
        } else {
            Err(Errno::NotFound)
        }
    }

    /// Look `name` up. HEAD is resolved against the store on every call, so
    /// that a change of the repository shows without a new mount.
    pub fn lookup(&self, repo: &git2::Repository, name: &[u8]) -> (r: Result<Id, Errno>)
        ensures
            root_lookup_post(*self, name@, r),
    {
        let h = head_bytes();
        let head = if bytes_eq(name, h.as_slice()) {
            head_target(repo)
        } else {
            None
        };
        self.lookup_with_head(name, head)
    }

    /// The root's entries from position `start` on, where `head` is what HEAD
    /// resolves to now. Both are listed as directories.
    pub fn children_with_head(&self, start: u64, head: Option<ObjectId>) -> (r: Vec<DirEntry>)
        ensures
            entries_model(r@) == root_children(*self, start, opt_view(head)),
    {
        let mut out: Vec<DirEntry> = Vec::new();
        if start == 0 {
            let id = match head {
                Some(o) => Id::Oid(o),
                None => self.head.duplicate(),
            };
            out.push(DirEntry { id, kind: FileKind::Directory, name: head_bytes() });
        }
        if start <= 1 {
            out.push(DirEntry { id: self.refs.duplicate(), kind: FileKind::Directory, name: refs_bytes() });
        }
        assert(entries_model(out@) =~= root_children(*self, start, opt_view(head)));
        out
    }

    /// The root's entries from position `start` on; HEAD is resolved against
    /// the store.
    pub fn children(&self, repo: &git2::Repository, start: u64) -> (r: Vec<DirEntry>)
        ensures
            exists|h: Option<Seq<u8>>| entries_model(r@) == root_children(*self, start, h),
            r@.len() == root_children(*self, start, None).len(),
    {
        let head = if start == 0 {
            head_target(repo)
        } else {
            None
        };
        let ghost h = opt_view(head);
        let r = self.children_with_head(start, head);
        assert(entries_model(r@) == root_children(*self, start, h));
        assert(entries_model(r@).len() == r@.len());
        r
    }
}

} // verus!
