//! A read-only filesystem that shows the objects of a git repository: trees
//! as directories, blobs as files, and a root that holds `HEAD` and `refs`.
//! This crate holds the part that maps objects to inode numbers and answers
//! the filesystem's requests; mounting is left to the caller.
use vstd::prelude::*;

pub mod inode;
pub mod store;
pub mod blob;
pub mod tree;
pub mod root;
pub mod reference;
pub mod listing;

use crate::inode::{
    blocks_for, new_inode, Errno, FileAttr, FileKind, Id, IdModel, Inode, InodeContainer,
    InodeMapper, MapperModel, Timespec,
};
use crate::listing::{child_start, fill_listing, listing_post, page_ids, ReplyEntry};
use crate::reference::RefDir;
use crate::root::Root;

verus! {

/// The inode number of the filesystem's root.
pub const ROOT_INO: u64 = 1;

/// The state of a filesystem: the inode mapper, the nodes made so far, and
/// the fixed values that every attribute record carries.
pub struct FsModel {
    pub mapper: MapperModel,
    pub nodes: Map<u64, Inode>,
    pub epoch: Timespec,
    pub uid: u32,
    pub gid: u32,
}

/// The attribute record that a node's own fields are merged into.
pub open spec fn default_attr(m: FsModel, ino: u64) -> FileAttr {
    FileAttr {
        ino,
        size: 0,
        blocks: 0,
        atime: m.epoch,
        mtime: m.epoch,
        ctime: m.epoch,
        crtime: m.epoch,
        kind: FileKind::RegularFile,
        perm: 0,
        nlink: 1,
        uid: m.uid,
        gid: m.gid,
        rdev: 0,
        flags: 0,
    }
}

/// `n` is the node that a request on `ino` works on, where `before` is the
/// state the request found: the node stored there, or else one just made from
/// the store.
pub open spec fn made(before: FsModel, ino: u64, n: Inode) -> bool {
    if before.nodes.contains_key(ino) {
        n == before.nodes[ino]
    } else {
        n.fresh()
    }
}

/// From `before` to `after` at most a node for `ino` was made: every node
/// stays, and a node that was not there is fresh.
pub open spec fn grown_at(before: FsModel, after: FsModel, ino: u64) -> bool {
    &&& before.nodes.contains_key(ino) ==> after.nodes == before.nodes
    &&& !before.nodes.contains_key(ino) ==> {
        ||| after.nodes == before.nodes
        ||| after.nodes.contains_key(ino) && after.nodes == before.nodes.insert(
            ino,
            after.nodes[ino],
        ) && after.nodes[ino].fresh()
    }
}

/// From `before` to `after` only the node for `ino` was made or changed.
pub open spec fn changed_at(before: FsModel, after: FsModel, ino: u64) -> bool {
    ||| after.nodes == before.nodes
    ||| after.nodes.contains_key(ino) && after.nodes == before.nodes.insert(ino, after.nodes[ino])
}

/// Everything but the nodes is the same in both states.
pub open spec fn same_but_nodes(before: FsModel, after: FsModel) -> bool {
    &&& after.mapper == before.mapper
    &&& after.epoch == before.epoch
    &&& after.uid == before.uid
    &&& after.gid == before.gid
}

/// How a lookup in `parent` ends, where `found` is what the parent node's
/// own lookup returned: its error is passed on with the mapper unchanged; a
/// child that needs a fresh inode number when none is left gives `Io`;
/// otherwise the child is resolved to its inode number, and its attributes
/// are returned where it has a node, `NotFound` where it has none.
pub open spec fn lookup_outcome(
    before: FsModel,
    after: FsModel,
    parent: u64,
    found: Result<Id, Errno>,
    r: Result<FileAttr, Errno>,
) -> bool {
    match found {
        Err(e) => r == Err::<FileAttr, Errno>(e) && after.mapper == before.mapper && grown_at(
            before,
            after,
            parent,
        ),
        Ok(id) => if before.mapper.allocates(id@) && before.mapper.last == u64::MAX {
            r == Err::<FileAttr, Errno>(Errno::Io) && after.mapper == before.mapper && grown_at(
                before,
                after,
                parent,
            )
        } else {
            let (m, ino) = before.mapper.resolve(id@);
            &&& after.mapper == m
            &&& after.nodes.contains_key(ino) ==> r == Ok::<FileAttr, Errno>(
                after.nodes[ino].attr_of(default_attr(after, ino)),
            )
            &&& !after.nodes.contains_key(ino) ==> r == Err::<FileAttr, Errno>(Errno::NotFound)
        },
    }
}

/// Number of `.` and `..` entries that a listing resumed at `offset` holds.
pub open spec fn dot_count(offset: u64) -> nat {
    if offset == 0 {
        2
    } else if offset == 1 {
        1
    } else {
        0
    }
}

/// Whether a listing of `n` children resumed at `offset` fits: every child
/// can get an inode number after `last`, and every entry an offset.
pub open spec fn listing_fits(last: nat, offset: u64, n: nat) -> bool {
    &&& last + n + 2 < u64::MAX
    &&& offset + dot_count(offset) + n <= u64::MAX
}

/// How a listing of `ino` resumed at `offset` ends, where `children` is what
/// the node's own listing returned: its error is passed on with the mapper
/// unchanged; a listing that does not fit gives `Io`; otherwise the reply
/// is the page of `.`, `..` and the children from `offset` on.
pub open spec fn readdir_outcome(
    before: FsModel,
    after: FsModel,
    ino: u64,
    offset: u64,
    children: Result<Vec<crate::inode::DirEntry>, Errno>,
    r: Result<Vec<ReplyEntry>, Errno>,
) -> bool {
    match children {
        Err(e) => r == Err::<Vec<ReplyEntry>, Errno>(e) && after.mapper == before.mapper,
        Ok(c) => if listing_fits(before.mapper.last, offset, c@.len()) {
            r is Ok && listing_post(
                before.mapper,
                after.mapper,
                ino,
                offset,
                crate::inode::entries_model(c@),
                r.unwrap()@,
            )
        } else {
            r == Err::<Vec<ReplyEntry>, Errno>(Errno::Io) && after.mapper == before.mapper
        },
    }
}

/// The main object answering the requests of a filesystem.
pub struct GitFS {
    repo: git2::Repository,
    epoch: Timespec,
    uid: u32,
    gid: u32,
    mapper: InodeMapper,
    inodes: InodeContainer,
}

impl View for GitFS {
    type V = FsModel;

    closed spec fn view(&self) -> FsModel {
        FsModel {
            mapper: self.mapper@,
            nodes: self.inodes@,
            epoch: self.epoch,
            uid: self.uid,
            gid: self.gid,
        }
    }
}

impl GitFS {
    /// The mapper is well formed, and so is every node.
    pub closed spec fn wf(&self) -> bool {
        &&& self.mapper.wf()
        &&& forall|ino: u64| #[trigger] self.inodes@.contains_key(ino) ==> self.inodes@[ino].wf()
    }

    /// A filesystem over `repo` with no node yet, whose attributes carry the
    /// time `epoch` and the owner `uid`, `gid`.
    pub fn new(repo: git2::Repository, epoch: Timespec, uid: u32, gid: u32) -> (r: GitFS)
        ensures
            r.wf(),
            r@.mapper.last == 0,
            r@.mapper.forward.is_empty(),
            r@.mapper.reverse.is_empty(),
            r@.nodes.is_empty(),
            r@.epoch == epoch,
            r@.uid == uid,
            r@.gid == gid,
    {
        GitFS { repo, epoch, uid, gid, mapper: InodeMapper::new(), inodes: InodeContainer::new() }
    }

    /// The repository this filesystem shows.
    pub fn repository(&self) -> &git2::Repository {
        &self.repo
    }

    /// The last inode number handed out.
    pub fn max_ino(&self) -> (r: u64)
        ensures
            r == self@.mapper.last,
    {
        self.mapper.max_ino()
    }

    /// Create the root (inode 1), reserve inode 2 to stand for HEAD, and
    /// create the empty references directory (inode 3).
    pub fn init(&mut self)
        requires
            old(self).wf(),
            old(self)@.mapper.last == 0,
        ensures
            final(self).wf(),
            final(self)@.mapper == (MapperModel { last: 3, ..old(self)@.mapper }),
            final(self)@.epoch == old(self)@.epoch,
            final(self)@.uid == old(self)@.uid,
            final(self)@.gid == old(self)@.gid,
            final(self)@.nodes.dom() == old(self)@.nodes.dom().insert(ROOT_INO).insert(3),
            forall|ino: u64|
                ino != ROOT_INO && ino != 3 && #[trigger] old(self)@.nodes.contains_key(ino)
                    ==> final(self)@.nodes[ino] == old(self)@.nodes[ino],
            match final(self)@.nodes[ROOT_INO] {
                Inode::Root(root) => root.head@ == IdModel::Ino(2) && root.refs@ == IdModel::Ino(
                    3,
                ),
                _ => false,
            },
            match final(self)@.nodes[3] {
                Inode::RefDir(d) => d@.len() == 0,
                _ => false,
            },
    {
        let root_ino = self.mapper.new_ino();
        let head_ino = self.mapper.new_ino();
        let refs_ino = self.mapper.new_ino();
        let root = Root::new(Id::Ino(head_ino), Id::Ino(refs_ino));
        self.inodes.insert(root_ino, Inode::Root(root));
        let refs = RefDir::new();
        self.inodes.insert(refs_ino, Inode::RefDir(refs));
        assert(self@.nodes.dom() =~= old(self)@.nodes.dom().insert(ROOT_INO).insert(3));
    }

    /// The attribute record for `ino` before a node fills in its own fields.
    pub fn defattr(&self, ino: u64) -> (r: FileAttr)
        ensures
            r == default_attr(self@, ino),
    {
        FileAttr {
            ino,
            size: 0,
            blocks: 0,
            atime: self.epoch,
            mtime: self.epoch,
            ctime: self.epoch,
            crtime: self.epoch,
            kind: FileKind::RegularFile,
            perm: 0,
            nlink: 1,
            uid: self.uid,
            gid: self.gid,
            rdev: 0,
            flags: 0,
        }
    }

    /// Make the node for `ino` if there is none yet and `ino` stands for a
    /// content address that the store can show.
    fn materialize(&mut self, ino: u64)
        requires
            old(self).wf(),
        ensures
            final(self).wf(),
            final(self)@.mapper == old(self)@.mapper,
            final(self)@.epoch == old(self)@.epoch,
            final(self)@.uid == old(self)@.uid,
            final(self)@.gid == old(self)@.gid,
            grown_at(old(self)@, final(self)@, ino),
    {
        if self.inodes.contains(ino) {
            return;
        }
        if let Some(oid) = self.mapper.get_oid(ino) {
            if let Some(node) = new_inode(&self.repo, oid) {
                self.inodes.insert_absent(ino, node);
            }
        }
    }

    /// Look `name` up in the directory `parent`, make the child's node if it
    /// has none yet, and return the child's attributes. Fails with the
    /// parent's lookup error, with `NotFound` where the parent or the child
    /// has no node, and with `Io` where the child needs a fresh inode number
    /// and none is left.
    pub fn lookup(&mut self, parent: u64, name: &[u8]) -> (r: Result<FileAttr, Errno>)
        requires
            old(self).wf(),
        ensures
            final(self).wf(),
            final(self)@.epoch == old(self)@.epoch,
            final(self)@.uid == old(self)@.uid,
            final(self)@.gid == old(self)@.gid,
            old(self)@.nodes.submap_of(final(self)@.nodes),
            !final(self)@.nodes.contains_key(parent) ==> r == Err::<FileAttr, Errno>(
                Errno::NotFound,
            ) && final(self)@.mapper == old(self)@.mapper,
            final(self)@.nodes.contains_key(parent) ==> made(
                old(self)@,
                parent,
                final(self)@.nodes[parent],
            ),
            final(self)@.nodes.contains_key(parent) ==> exists|found: Result<Id, Errno>|
                {
                    &&& final(self)@.nodes[parent].lookup_post(name@, found)
                    &&& lookup_outcome(old(self)@, final(self)@, parent, found, r)
                },
    {
        self.materialize(parent);
        let ghost mid = self@;
        let found = match self.inodes.find(parent) {
            Ok(node) => node.lookup(&self.repo, name),
            Err(e) => return Err(e),
        };
        let ghost found_g = found;
        let r = match found {
            Err(e) => Err(e),
            Ok(id) => {
                if self.mapper.max_ino() == u64::MAX && self.mapper.allocates(&id) {
                    Err(Errno::Io)
                } else {
                    let ino = self.mapper.get_ino(id);
                    self.materialize(ino);
                    let attr = self.defattr(ino);
                    match self.inodes.find(ino) {
                        Ok(node) => node.getattr(attr),
                        Err(e) => Err(e),
                    }
                }
            },
        };
        assert(self@.nodes[parent] == mid.nodes[parent]);
        assert(lookup_outcome(old(self)@, self@, parent, found_g, r));
        r
    }

    /// Get the attributes of the node `ino`, made first if it has none yet;
    /// `NotFound` where it has none.
    pub fn getattr(&mut self, ino: u64) -> (r: Result<FileAttr, Errno>)
        requires
            old(self).wf(),
        ensures
            final(self).wf(),
            same_but_nodes(old(self)@, final(self)@),
            grown_at(old(self)@, final(self)@, ino),
            final(self)@.nodes.contains_key(ino) ==> r == Ok::<FileAttr, Errno>(
                final(self)@.nodes[ino].attr_of(default_attr(final(self)@, ino)),
            ),
            !final(self)@.nodes.contains_key(ino) ==> r == Err::<FileAttr, Errno>(
                Errno::NotFound,
            ),
            r is Ok ==> r.unwrap().blocks == blocks_for(r.unwrap().size as nat),
    {
        self.materialize(ino);
        let attr = self.defattr(ino);
        match self.inodes.find(ino) {
            Ok(node) => node.getattr(attr),
            Err(e) => Err(e),
        }
    }

    /// Open the file `ino`, fetching its content from the store.
    pub fn open(&mut self, ino: u64) -> (r: Result<(), Errno>)
        requires
            old(self).wf(),
        ensures
            final(self).wf(),
            same_but_nodes(old(self)@, final(self)@),
            changed_at(old(self)@, final(self)@, ino),
            !final(self)@.nodes.contains_key(ino) ==> r == Err::<(), Errno>(Errno::NotFound),
            final(self)@.nodes.contains_key(ino) ==> exists|n: Inode|
                made(old(self)@, ino, n) && n.open_post(final(self)@.nodes[ino], r),
    {
        self.materialize(ino);
        match self.inodes.take(ino) {
            Ok(node) => {
                let ghost before = node;
                let mut node = node;
                let r = node.open(&self.repo);
                self.inodes.insert(ino, node);
                assert(self@.nodes =~= old(self)@.nodes.insert(ino, self@.nodes[ino]));
                assert(made(old(self)@, ino, before) && before.open_post(self@.nodes[ino], r));
                r
            },
            Err(e) => Err(e),
        }
    }

    /// Read up to `size` bytes from `offset` of the open file `ino`.
    pub fn read(&mut self, ino: u64, offset: u64, size: u32) -> (r: Result<Vec<u8>, Errno>)
        requires
            old(self).wf(),
        ensures
            final(self).wf(),
            same_but_nodes(old(self)@, final(self)@),
            grown_at(old(self)@, final(self)@, ino),
            !final(self)@.nodes.contains_key(ino) ==> r == Err::<Vec<u8>, Errno>(
                Errno::NotFound,
            ),
            final(self)@.nodes.contains_key(ino) ==> match final(self)@.nodes[ino].read_result(
                offset,
                size,
            ) {
                Ok(d) => r is Ok && r.unwrap()@ == d,
                Err(e) => r == Err::<Vec<u8>, Errno>(e),
            },
    {
        self.materialize(ino);
        match self.inodes.find(ino) {
            Ok(node) => node.read(offset, size),
            Err(e) => Err(e),
        }
    }

    /// Release the open file `ino`, dropping its content.
    pub fn release(&mut self, ino: u64) -> (r: Result<(), Errno>)
        requires
            old(self).wf(),
        ensures
            final(self).wf(),
            same_but_nodes(old(self)@, final(self)@),
            changed_at(old(self)@, final(self)@, ino),
            !final(self)@.nodes.contains_key(ino) ==> r == Err::<(), Errno>(Errno::NotFound),
            final(self)@.nodes.contains_key(ino) ==> exists|n: Inode|
                made(old(self)@, ino, n) && n.release_post(final(self)@.nodes[ino], r),
    {
        self.materialize(ino);
        match self.inodes.take(ino) {
            Ok(node) => {
                let ghost before = node;
                let mut node = node;
                let r = node.release();
                self.inodes.insert(ino, node);
                assert(self@.nodes =~= old(self)@.nodes.insert(ino, self@.nodes[ino]));
                assert(made(old(self)@, ino, before) && before.release_post(self@.nodes[ino], r));
                r
            },
            Err(e) => Err(e),
        }
    }

    /// List the directory `ino` from `offset` on: `.` at offset 0, `..` at
    /// offset 1, then the node's entries, each with its inode number and the
    /// offset to resume after it. Fails with the node's error, with
    /// `NotFound` where `ino` has no node, and with `Io` where the inode
    /// numbers or offsets are used up.
    pub fn readdir(&mut self, ino: u64, offset: u64) -> (r: Result<Vec<ReplyEntry>, Errno>)
        requires
            old(self).wf(),
        ensures
            final(self).wf(),
            final(self)@.epoch == old(self)@.epoch,
            final(self)@.uid == old(self)@.uid,
            final(self)@.gid == old(self)@.gid,
            grown_at(old(self)@, final(self)@, ino),
            !final(self)@.nodes.contains_key(ino) ==> r == Err::<Vec<ReplyEntry>, Errno>(
                Errno::NotFound,
            ) && final(self)@.mapper == old(self)@.mapper,
            final(self)@.nodes.contains_key(ino) ==> exists|
                children: Result<Vec<crate::inode::DirEntry>, Errno>,
            |
                {
                    &&& final(self)@.nodes[ino].children_post(child_start(offset), children)
                    &&& readdir_outcome(old(self)@, final(self)@, ino, offset, children, r)
                },
    {
        self.materialize(ino);
        let start = if offset >= 2 {
            offset - 2
        } else {
            0
        };
        let listed = match self.inodes.find(ino) {
            Ok(node) => node.children(&self.repo, start),
            Err(e) => return Err(e),
        };
        let ghost listed_g = listed;
        let ghost mid = self@;
        assert(start == child_start(offset));
        assert(mid.nodes[ino].children_post(child_start(offset), listed_g));
        let r = match listed {
            Err(e) => Err(e),
            Ok(children) => {
                let n = children.len() as u64;
                let dots: u64 = if offset == 0 {
                    2
                } else if offset == 1 {
                    1
                } else {
                    0
                };
                if self.mapper.max_ino() >= u64::MAX - 2 || n >= u64::MAX - 2
                    - self.mapper.max_ino() {
                    Err(Errno::Io)
                } else if n + dots > u64::MAX - offset {
                    Err(Errno::Io)
                } else {
                    assert(page_ids(ino, offset, crate::inode::entries_model(children@)).len()
                        == n + dots);
                    Ok(fill_listing(&mut self.mapper, ino, offset, children))
                }
            },
        };
        assert(self@.nodes == mid.nodes);
        assert(readdir_outcome(old(self)@, self@, ino, offset, listed_g, r));
        r
    }
}

} // verus!
