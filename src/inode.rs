use vstd::prelude::*;

use crate::blob::{read_window, Blob};
use crate::reference::{refdir_children, refdir_lookup_post, RefDir};
use crate::root::{root_children, root_lookup_post, Root, ROOT_SIZE};
use crate::store::{blob_content, commit_tree, object_kind, tree_len, ObjectKind};
use crate::tree::{tree_children_post, tree_lookup_post, Tree};
use std::collections::HashMap;

verus! {

/// Number of 512-byte blocks that hold `size` bytes: the size divided by the
/// block size, rounded up.
pub open spec fn blocks_for(size: nat) -> nat {
    (size + 511) / 512
}

/// Compute the number of blocks needed to contain a given size.
pub fn st_blocks(size: u64) -> (r: u64)
    ensures
        r == blocks_for(size as nat),
{
    let wide: u128 = (size as u128 + 511) / 512;
    wide as u64
}

/// The failures that a node operation can report; each stands for one
/// errno value of the filesystem protocol.
#[derive(Clone, Copy, Debug, PartialEq, Eq, Structural)]
pub enum Errno {
    /// No such entry.
    NotFound,
    /// Invalid argument.
    InvalidArgument,
    /// The operation wants a file, and the node is a directory.
    IsADirectory,
    /// The operation wants a directory, and the node is not one.
    NotADirectory,
    /// The object store could not deliver an object.
    Io,
}

/// The kind of a filesystem node.
#[derive(Clone, Copy, Debug, PartialEq, Eq, Structural)]
pub enum FileKind {
    Directory,
    RegularFile,
    /// Stands for a store object that is neither a tree nor a blob.
    CharDevice,
}

/// A point in time, in seconds and nanoseconds since the Unix epoch.
#[derive(Clone, Copy, Debug, PartialEq, Eq, Structural)]
pub struct Timespec {
    pub sec: i64,
    pub nsec: i32,
}

/// The attributes of a node, as the filesystem protocol reports them.
#[derive(Clone, Copy, Debug, PartialEq, Eq, Structural)]
pub struct FileAttr {
    pub ino: u64,
    pub size: u64,
    pub blocks: u64,
    pub atime: Timespec,
    pub mtime: Timespec,
    pub ctime: Timespec,
    pub crtime: Timespec,
    pub kind: FileKind,
    pub perm: u16,
    pub nlink: u32,
    pub uid: u32,
    pub gid: u32,
    pub rdev: u32,
    pub flags: u32,
}

/// Permission bits of a file node.
pub const FILE_PERM: u16 = 0o644;

/// Permission bits of a directory node.
pub const DIR_PERM: u16 = 0o755;

/// `attr` with the size, block count, kind and permission bits that a node
/// reports, and every other field kept.
pub open spec fn with_node_fields(attr: FileAttr, size: u64, kind: FileKind, perm: u16) -> FileAttr {
    FileAttr { size, blocks: blocks_for(size as nat) as u64, kind, perm, ..attr }
}

/// Fill in the fields of `attr` that a node decides.
pub fn node_attr(attr: FileAttr, size: u64, kind: FileKind, perm: u16) -> (r: FileAttr)
    ensures
        r == with_node_fields(attr, size, kind, perm),
        r.blocks == blocks_for(r.size as nat),
{
    FileAttr { size, blocks: st_blocks(size), kind, perm, ..attr }
}

/// The content address of a stored object: the raw bytes of its hash.
#[derive(Debug)]
pub struct ObjectId {
    bytes: Vec<u8>,
}

impl View for ObjectId {
    type V = Seq<u8>;

    closed spec fn view(&self) -> Seq<u8> {
        self.bytes@
    }
}

impl ObjectId {
    /// An identifier made of the given hash bytes.
    pub fn from_bytes(bytes: Vec<u8>) -> (r: ObjectId)
        ensures
            r@ == bytes@,
    {
        ObjectId { bytes }
    }

    /// The hash bytes of this identifier.
    pub fn as_bytes(&self) -> (r: &[u8])
        ensures
            r@ == self@,
    {
        self.bytes.as_slice()
    }

    /// A second identifier equal to this one.
    pub fn duplicate(&self) -> (r: ObjectId)
        ensures
            r@ == self@,
    {
        ObjectId { bytes: self.bytes.clone() }
    }

    /// Whether the two identifiers hold the same hash.
    pub fn same_as(&self, other: &ObjectId) -> (r: bool)
        ensures
            r == (self@ == other@),
    {
        bytes_eq(self.bytes.as_slice(), other.bytes.as_slice())
    }
}

/// The hash bytes of an optional identifier.
pub open spec fn opt_view(o: Option<ObjectId>) -> Option<Seq<u8>> {
    match o {
        Some(x) => Some(x@),
        None => None,
    }
}

/// A reference to a node: either an inode number that is already known, or
/// the content address of an object whose inode number the mapper decides.
#[derive(Debug)]
pub enum Id {
    Ino(u64),
    Oid(ObjectId),
}

/// What an `Id` denotes.
pub enum IdModel {
    Ino(u64),
    Oid(Seq<u8>),
}

impl View for Id {
    type V = IdModel;

    open spec fn view(&self) -> IdModel {
        match self {
            Id::Ino(n) => IdModel::Ino(*n),
            Id::Oid(o) => IdModel::Oid(o@),
        }
    }
}

impl Id {
    /// A second reference equal to this one.
    pub fn duplicate(&self) -> (r: Id)
        ensures
            r@ == self@,
    {
        match self {
            Id::Ino(n) => Id::Ino(*n),
            Id::Oid(o) => Id::Oid(o.duplicate()),
        }
    }
}

/// One child of a directory node: how to reach it, its kind, and its name.
pub struct DirEntry {
    pub id: Id,
    pub kind: FileKind,
    pub name: Vec<u8>,
}

/// What a directory entry denotes.
pub open spec fn entry_model(e: DirEntry) -> (IdModel, FileKind, Seq<u8>) {
    (e.id@, e.kind, e.name@)
}

/// The entries of a listing, as models.
pub open spec fn entries_model(v: Seq<DirEntry>) -> Seq<(IdModel, FileKind, Seq<u8>)> {
    v.map_values(|e: DirEntry| entry_model(e))
}

/// Whether two byte strings are equal.
pub fn bytes_eq(a: &[u8], b: &[u8]) -> (r: bool)
    ensures
        r == (a@ == b@),
{
    if a.len() != b.len() {
        return false;
    }
    let mut i: usize = 0;
    while i < a.len()
        invariant
            i <= a@.len(),
            a@.len() == b@.len(),
            forall|j: int| 0 <= j < i ==> a@[j] == b@[j],
        decreases a.len() - i,
    {
        if a[i] != b[i] {
            return false;
        }
        i = i + 1;
    }
    assert(a@ =~= b@);
    true
}

/// The state of an inode mapper: the last inode number handed out, and the
/// registry between content addresses and inode numbers in both directions.
pub struct MapperModel {
    pub last: nat,
    pub forward: Map<Seq<u8>, u64>,
    pub reverse: Map<u64, Seq<u8>>,
}

impl MapperModel {
    /// The two maps are mutual inverses, and every number in them has been
    /// handed out already.
    pub open spec fn wf(self) -> bool {
        &&& forall|k: Seq<u8>| #[trigger]
            self.forward.contains_key(k) ==> {
                &&& 1 <= self.forward[k] <= self.last
                &&& self.reverse.contains_key(self.forward[k])
                &&& self.reverse[self.forward[k]] == k
            }
        &&& forall|n: u64| #[trigger]
            self.reverse.contains_key(n) ==> {
                &&& self.forward.contains_key(self.reverse[n])
                &&& self.forward[self.reverse[n]] == n
            }
    }

    /// The state after handing out a fresh inode number, and that number.
    pub open spec fn allocate(self) -> (MapperModel, u64) {
        (MapperModel { last: self.last + 1, ..self }, (self.last + 1) as u64)
    }

    /// Whether resolving `id` hands out a fresh inode number: it is a content
    /// address that has none yet.
    pub open spec fn allocates(self, id: IdModel) -> bool {
        match id {
            IdModel::Oid(o) => !self.forward.contains_key(o),
            IdModel::Ino(_) => false,
        }
    }

    /// The state after resolving `id`, and the inode number it resolves to:
    /// an inode number stands for itself; a content address keeps the number
    /// it was given, or else gets the next fresh one.
    pub open spec fn resolve(self, id: IdModel) -> (MapperModel, u64) {
        match id {
            IdModel::Ino(n) => (self, n),
            IdModel::Oid(o) => if self.forward.contains_key(o) {
                (self, self.forward[o])
            } else {
                let n = (self.last + 1) as u64;
                (
                    MapperModel {
                        last: self.last + 1,
                        forward: self.forward.insert(o, n),
                        reverse: self.reverse.insert(n, o),
                    },
                    n,
                )
            },
        }
    }
}

/// Resolving keeps the registry well formed, and a content address resolves
/// to the number registered for it afterwards.
pub proof fn lemma_resolve_wf(m: MapperModel, o: Seq<u8>)
    requires
        m.wf(),
        m.last < u64::MAX,
    ensures
        m.resolve(IdModel::Oid(o)).0.wf(),
        m.resolve(IdModel::Oid(o)).0.forward.contains_key(o),
        m.resolve(IdModel::Oid(o)).0.forward[o] == m.resolve(IdModel::Oid(o)).1,
        m.resolve(IdModel::Oid(o)).0.last <= m.last + 1,
        m.forward.submap_of(m.resolve(IdModel::Oid(o)).0.forward),
{
    let (m1, n) = m.resolve(IdModel::Oid(o));
    if !m.forward.contains_key(o) {
        assert(!m.reverse.contains_key(n)) by {
            if m.reverse.contains_key(n) {
                assert(m.forward.contains_key(m.reverse[n]));
            }
        }
        assert forall|k: Seq<u8>| #[trigger] m1.forward.contains_key(k) implies {
            &&& 1 <= m1.forward[k] <= m1.last
            &&& m1.reverse.contains_key(m1.forward[k])
            &&& m1.reverse[m1.forward[k]] == k
        } by {
            if k != o {
                assert(m.forward.contains_key(k));
            }
        }
        assert forall|x: u64| #[trigger] m1.reverse.contains_key(x) implies {
            &&& m1.forward.contains_key(m1.reverse[x])
            &&& m1.forward[m1.reverse[x]] == x
        } by {
            if x != n {
                assert(m.reverse.contains_key(x));
                assert(m.forward.contains_key(m.reverse[x]));
                assert(m.reverse[x] != o);
            }
        }
    }
}

/// Handing out a fresh number keeps the registry well formed.
pub proof fn lemma_allocate_wf(m: MapperModel)
    requires
        m.wf(),
    ensures
        m.allocate().0.wf(),
{
    let m1 = m.allocate().0;
    assert forall|k: Seq<u8>| #[trigger] m1.forward.contains_key(k) implies m1.forward[k]
        <= m1.last by {
        assert(m.forward.contains_key(k));
    }
}

/// Resolution is a bijection on content addresses: resolving the same address
/// twice gives the same inode number, and two different addresses never share
/// one, whatever was resolved in between.
pub proof fn lemma_resolution_bijective(m: MapperModel, a: Seq<u8>, b: Seq<u8>)
    requires
        m.wf(),
        m.last + 1 < u64::MAX,
    ensures
        ({
            let (m1, i) = m.resolve(IdModel::Oid(a));
            let (m2, j) = m1.resolve(IdModel::Oid(b));
            &&& m2.wf()
            &&& (a == b <==> i == j)
        }),
{
    lemma_resolve_wf(m, a);
    let (m1, i) = m.resolve(IdModel::Oid(a));
    lemma_resolve_wf(m1, b);
    let (m2, j) = m1.resolve(IdModel::Oid(b));
    assert(m2.forward.contains_key(a));
    if i == j {
        assert(m2.reverse[i] == a);
        assert(m2.reverse[j] == b);
    }
}

/// Assign new inode numbers, and map content addresses to inode numbers on
/// demand.
pub struct InodeMapper {
    max_ino: u64,
    /// Each content address with its inode number, in the order handed out.
    assigned: Vec<(u64, ObjectId)>,
    /// The content address of each inode number that has one.
    inos: HashMap<u64, ObjectId>,
    forward: Ghost<Map<Seq<u8>, u64>>,
    reverse: Ghost<Map<u64, Seq<u8>>>,
}

impl View for InodeMapper {
    type V = MapperModel;

    closed spec fn view(&self) -> MapperModel {
        MapperModel { last: self.max_ino as nat, forward: self.forward@, reverse: self.reverse@ }
    }
}

impl InodeMapper {
    /// The registry is well formed, and the list of assignments holds exactly
    /// the content addresses that it maps.
    pub closed spec fn wf(&self) -> bool {
        &&& self@.wf()
        &&& forall|i: int|
            0 <= i < self.assigned@.len() ==> {
                &&& self.forward@.contains_key(#[trigger] self.assigned@[i].1@)
                &&& self.forward@[self.assigned@[i].1@] == self.assigned@[i].0
            }
        &&& forall|k: Seq<u8>| #[trigger]
            self.forward@.contains_key(k) ==> exists|i: int|
                0 <= i < self.assigned@.len() && #[trigger] self.assigned@[i].1@ == k
        &&& forall|n: u64| #[trigger]
            self.inos@.contains_key(n) ==> self.reverse@.contains_key(n) && self.inos@[n]@
                == self.reverse@[n]
        &&& forall|n: u64| #[trigger] self.reverse@.contains_key(n) ==> self.inos@.contains_key(n)
    }

    /// A mapper that has handed out no number yet.
    pub fn new() -> (r: InodeMapper)
        ensures
            r.wf(),
            r@.last == 0,
            r@.forward.is_empty(),
            r@.reverse.is_empty(),
    {
        InodeMapper {
            max_ino: 0,
            assigned: Vec::new(),
            inos: HashMap::new(),
            forward: Ghost(Map::empty()),
            reverse: Ghost(Map::empty()),
        }
    }

    /// The last inode number handed out.
    pub fn max_ino(&self) -> (r: u64)
        ensures
            r == self@.last,
    {
        self.max_ino
    }

    /// Reserve a new inode number
    pub fn new_ino(&mut self) -> (r: u64)
        requires
            old(self).wf(),
            old(self)@.last < u64::MAX,
        ensures
            final(self).wf(),
            (final(self)@, r) == old(self)@.allocate(),
    {
        self.max_ino = self.max_ino + 1;
        proof {
            lemma_allocate_wf(old(self)@);
            assert(self@ == old(self)@.allocate().0);
            assert forall|k: Seq<u8>| #[trigger]
                self.forward@.contains_key(k) implies exists|i: int|
                0 <= i < self.assigned@.len() && #[trigger] self.assigned@[i].1@ == k by {
                let w = choose|w: int|
                    0 <= w < old(self).assigned@.len() && #[trigger] old(self).assigned@[w].1@
                        == k;
                assert(self.assigned@[w].1@ == k);
            }
        }
        self.max_ino
    }

    /// Get the content address associated with this inode number
    pub fn get_oid(&self, ino: u64) -> (r: Option<ObjectId>)
        requires
            self.wf(),
        ensures
            match r {
                Some(o) => self@.reverse.contains_key(ino) && o@ == self@.reverse[ino],
                None => !self@.reverse.contains_key(ino),
            },
    {
        broadcast use vstd::std_specs::hash::group_hash_axioms;

        match self.inos.get(&ino) {
            Some(o) => {
                assert(self@.reverse.contains_key(ino));
                Some(o.duplicate())
            },
            None => {
                assert(!self@.reverse.contains_key(ino));
                None
            },
        }
    }

    /// The inode number registered for a content address, if any.
    fn find_ino(&self, oid: &ObjectId) -> (r: Option<u64>)
        requires
            self.wf(),
        ensures
            match r {
                Some(n) => self@.forward.contains_key(oid@) && n == self@.forward[oid@],
                None => !self@.forward.contains_key(oid@),
            },
    {
        let mut i: usize = 0;
        while i < self.assigned.len()
            invariant
                self.wf(),
                i <= self.assigned@.len(),
                forall|j: int| 0 <= j < i ==> #[trigger] self.assigned@[j].1@ != oid@,
            decreases self.assigned.len() - i,
        {
            if self.assigned[i].1.same_as(oid) {
                assert(self.forward@.contains_key(self.assigned@[i as int].1@));
                assert(self@.forward.contains_key(oid@));
                return Some(self.assigned[i].0);
            }
            i = i + 1;
        }
        proof {
            if self.forward@.contains_key(oid@) {
                let w = choose|w: int|
                    0 <= w < self.assigned@.len() && #[trigger] self.assigned@[w].1@ == oid@;
                assert(self.assigned@[w].1@ == oid@);
            }
        }
        None
    }

    /// Whether resolving `id` would hand out a fresh inode number.
    pub fn allocates(&self, id: &Id) -> (r: bool)
        requires
            self.wf(),
        ensures
            r == self@.allocates(id@),
    {
        match id {
            Id::Ino(_) => false,
            Id::Oid(oid) => self.find_ino(oid).is_none(),
        }
    }

    /// Map any Id to an inode number
    pub fn get_ino(&mut self, id: Id) -> (r: u64)
        requires
            old(self).wf(),
            old(self)@.allocates(id@) ==> old(self)@.last < u64::MAX,
        ensures
            final(self).wf(),
            (final(self)@, r) == old(self)@.resolve(id@),
    {
        match id {
            Id::Ino(ino) => ino,
            Id::Oid(oid) => {
                if let Some(ino) = self.find_ino(&oid) {
                    return ino;
                }
                proof {
                    lemma_resolve_wf(self@, oid@);
                }
                let ino = self.max_ino + 1;
                self.max_ino = ino;
                let ghost key = oid@;
                self.inos.insert(ino, oid.duplicate());
                self.assigned.push((ino, oid));
                self.forward = Ghost(self.forward@.insert(key, ino));
                self.reverse = Ghost(self.reverse@.insert(ino, key));
                proof {
                    assert forall|k: Seq<u8>| #[trigger]
                        self.forward@.contains_key(k) implies exists|i: int|
                        0 <= i < self.assigned@.len() && #[trigger] self.assigned@[i].1@
                            == k by {
                        if k == key {
                            assert(self.assigned@[self.assigned@.len() - 1].1@ == k);
                        } else {
                            let w = choose|w: int|
                                0 <= w < old(self).assigned@.len()
                                    && #[trigger] old(self).assigned@[w].1@ == k;
                            assert(self.assigned@[w].1@ == k);
                        }
                    }
                }
                ino
            },
        }
    }
}

/// A filesystem node: one of the four kinds of object that the filesystem
/// shows. Every kind answers every request; a request that does not apply
/// to a kind fails with that request's error.
pub enum Inode {
    Blob(Blob),
    Tree(Tree),
    Root(Root),
    RefDir(RefDir),
}

impl Inode {
    /// The node's own invariant.
    pub open spec fn wf(&self) -> bool {
        match self {
            Inode::RefDir(d) => d.wf(),
            _ => true,
        }
    }

    /// Whether the node is as `new_inode` makes it: a closed file or a
    /// directory of a tree.
    pub open spec fn fresh(&self) -> bool {
        match self {
            Inode::Blob(b) => b.data.is_none(),
            Inode::Tree(_) => true,
            _ => false,
        }
    }

    /// The attributes the node reports, given the defaults in `attr`.
    pub open spec fn attr_of(&self, attr: FileAttr) -> FileAttr {
        match self {
            Inode::Blob(b) => with_node_fields(attr, b.size, FileKind::RegularFile, FILE_PERM),
            Inode::Tree(t) => with_node_fields(attr, t.size, FileKind::Directory, DIR_PERM),
            Inode::Root(_) => with_node_fields(attr, ROOT_SIZE, FileKind::Directory, DIR_PERM),
            Inode::RefDir(d) => with_node_fields(
                attr,
                d@.len() as u64,
                FileKind::Directory,
                DIR_PERM,
            ),
        }
    }

    /// What a lookup of `name` in this node may return.
    pub open spec fn lookup_post(&self, name: Seq<u8>, r: Result<Id, Errno>) -> bool {
        match self {
            Inode::Blob(_) => r == Err::<Id, Errno>(Errno::NotADirectory),
            Inode::Tree(_) => tree_lookup_post(name, r),
            Inode::Root(root) => root_lookup_post(*root, name, r),
            Inode::RefDir(d) => refdir_lookup_post(d@, name, r),
        }
    }

    /// How opening changes this node into `after`, with result `r`.
    pub open spec fn open_post(&self, after: Inode, r: Result<(), Errno>) -> bool {
        match *self {
            Inode::Blob(b) => match after {
                Inode::Blob(b2) => {
                    &&& b2.oid == b.oid
                    &&& b2.size == b.size
                    &&& b.data.is_some() ==> r is Ok && b2.data == b.data
                    &&& r is Ok <==> b2.data.is_some()
                    &&& r is Err ==> r == Err::<(), Errno>(Errno::Io)
                },
                _ => false,
            },
            _ => r == Err::<(), Errno>(Errno::IsADirectory) && after == *self,
        }
    }

    /// What a read of up to `size` bytes from `offset` returns.
    pub open spec fn read_result(&self, offset: u64, size: u32) -> Result<Seq<u8>, Errno> {
        match self {
            Inode::Blob(b) => match b.data {
                Some(d) => if offset <= d@.len() {
                    Ok(read_window(d@, offset as int, size as int))
                } else {
                    Err(Errno::InvalidArgument)
                },
                None => Err(Errno::InvalidArgument),
            },
            _ => Err(Errno::IsADirectory),
        }
    }

    /// How releasing changes this node into `after`, with result `r`.
    pub open spec fn release_post(&self, after: Inode, r: Result<(), Errno>) -> bool {
        match *self {
            Inode::Blob(b) => r is Ok && match after {
                Inode::Blob(b2) => b2.oid == b.oid && b2.size == b.size && b2.data.is_none(),
                _ => false,
            },
            _ => r == Err::<(), Errno>(Errno::IsADirectory) && after == *self,
        }
    }

    /// What a listing of this node's entries from position `start` may
    /// return.
    pub open spec fn children_post(&self, start: u64, r: Result<Vec<DirEntry>, Errno>) -> bool {
        match self {
            Inode::Blob(_) => r == Err::<Vec<DirEntry>, Errno>(Errno::NotADirectory),
            Inode::Tree(t) => tree_children_post(*t, start, r),
            Inode::Root(root) => {
                &&& r is Ok
                &&& exists|h: Option<Seq<u8>>|
                    entries_model(r.unwrap()@) == root_children(*root, start, h)
                &&& r.unwrap()@.len() == root_children(*root, start, None).len()
            },
            Inode::RefDir(d) => r is Ok && entries_model(r.unwrap()@) == refdir_children(
                d@,
                start,
            ),
        }
    }

    /// Find a directory entry in this node by name.
    pub fn lookup(&self, repo: &git2::Repository, name: &[u8]) -> (r: Result<Id, Errno>)
        requires
            self.wf(),
        ensures
            self.lookup_post(name@, r),
    {
        match self {
            Inode::Blob(_) => Err(Errno::NotADirectory),
            Inode::Tree(t) => t.lookup(repo, name),
            Inode::Root(root) => root.lookup(repo, name),
            Inode::RefDir(d) => d.lookup(name),
        }
    }

    /// Get the attributes of this node: `attr` with the node's size, block
    /// count, kind and permission bits.
    pub fn getattr(&self, attr: FileAttr) -> (r: Result<FileAttr, Errno>)
        ensures
            r == Ok::<FileAttr, Errno>(self.attr_of(attr)),
            r.unwrap().blocks == blocks_for(r.unwrap().size as nat),
    {
        match self {
            Inode::Blob(b) => Ok(b.getattr(attr)),
            Inode::Tree(t) => Ok(t.getattr(attr)),
            Inode::Root(root) => Ok(root.getattr(attr)),
            Inode::RefDir(d) => Ok(d.getattr(attr)),
        }
    }

    /// Open a file: a blob fetches its content unless it holds it already.
    pub fn open(&mut self, repo: &git2::Repository) -> (r: Result<(), Errno>)
        ensures
            old(self).open_post(*final(self), r),
    {
        match self {
            Inode::Blob(b) => b.open(repo),
            _ => Err(Errno::IsADirectory),
        }
    }

    /// Read up to `size` bytes from `offset` of an open file.
    pub fn read(&self, offset: u64, size: u32) -> (r: Result<Vec<u8>, Errno>)
        ensures
            match self.read_result(offset, size) {
                Ok(d) => r is Ok && r.unwrap()@ == d,
                Err(e) => r == Err::<Vec<u8>, Errno>(e),
            },
    {
        match self {
            Inode::Blob(b) => b.read(offset, size),
            _ => Err(Errno::IsADirectory),
        }
    }

    /// Release data from an opened file.
    pub fn release(&mut self) -> (r: Result<(), Errno>)
        ensures
            old(self).release_post(*final(self), r),
    {
        match self {
            Inode::Blob(b) => {
                b.release();
                Ok(())
            },
            _ => Err(Errno::IsADirectory),
        }
    }

    /// The node's directory entries from position `start` on.
    pub fn children(&self, repo: &git2::Repository, start: u64) -> (r: Result<
        Vec<DirEntry>,
        Errno,
    >)
        ensures
            self.children_post(start, r),
    {
        match self {
            Inode::Blob(_) => Err(Errno::NotADirectory),
            Inode::Tree(t) => t.children(repo, start),
            Inode::Root(root) => Ok(root.children(repo, start)),
            Inode::RefDir(d) => Ok(d.children(start)),
        }
    }
}

/// `r` is the node for the object `oid` of kind `kind`, where `len` is the
/// blob's length or the tree's entry count: a closed file for a blob, a
/// directory for a tree, and none for anything else or a missing length.
pub open spec fn built_from(
    r: Option<Inode>,
    oid: Seq<u8>,
    kind: Option<ObjectKind>,
    len: Option<u64>,
) -> bool {
    match (kind, len) {
        (Some(ObjectKind::Blob), Some(n)) => r is Some && match r.unwrap() {
            Inode::Blob(b) => b.oid@ == oid && b.size == n && b.data.is_none(),
            _ => false,
        },
        (Some(ObjectKind::Tree), Some(n)) => r is Some && match r.unwrap() {
            Inode::Tree(t) => t.oid@ == oid && t.size == n,
            _ => false,
        },
        _ => r is None,
    }
}

/// `r` is the node for the object `oid`, given the store's answers: `kind`
/// is the kind of `oid`; where that is a commit, `tree` is the id of its tree
/// and `tree_kind` the kind of that tree, and the commit stands for its tree;
/// `len` is the length or entry count of the object the node is made for.
pub open spec fn node_outcome(
    r: Option<Inode>,
    oid: Seq<u8>,
    kind: Option<ObjectKind>,
    tree: Option<Seq<u8>>,
    tree_kind: Option<ObjectKind>,
    len: Option<u64>,
) -> bool {
    if kind == Some(ObjectKind::Commit) {
        match tree {
            Some(t) => built_from(r, t, tree_kind, len),
            None => r is None,
        }
    } else {
        built_from(r, oid, kind, len)
    }
}

/// The node for the object `oid` of kind `kind`, where `len` is the blob's
/// length or the tree's entry count as the store reported it.
pub fn node_from_store(oid: ObjectId, kind: Option<ObjectKind>, len: Option<u64>) -> (r: Option<
    Inode,
>)
    ensures
        built_from(r, oid@, kind, len),
{
    match (kind, len) {
        (Some(ObjectKind::Blob), Some(n)) => Some(Inode::Blob(Blob::new(oid, n))),
        (Some(ObjectKind::Tree), Some(n)) => Some(Inode::Tree(Tree::new(oid, n))),
        _ => None,
    }
}

/// The node for the object `oid` from the store's answers about it; a
/// commit is replaced by its tree.
pub fn node_for(
    oid: ObjectId,
    kind: Option<ObjectKind>,
    tree: Option<ObjectId>,
    tree_kind: Option<ObjectKind>,
    len: Option<u64>,
) -> (r: Option<Inode>)
    ensures
        node_outcome(r, oid@, kind, opt_view(tree), tree_kind, len),
{
    match kind {
        Some(ObjectKind::Commit) => match tree {
            Some(t) => node_from_store(t, tree_kind, len),
            None => None,
        },
        _ => node_from_store(oid, kind, len),
    }
}

/// What the store reports as the size of the object `oid` of kind `kind`:
/// a blob's length or a tree's entry count.
fn store_len(repo: &git2::Repository, oid: &ObjectId, kind: Option<ObjectKind>) -> (r: Option<u64>)
    ensures
        kind != Some(ObjectKind::Blob) && kind != Some(ObjectKind::Tree) ==> r is None,
{
    match kind {
        Some(ObjectKind::Blob) => match blob_content(repo, oid) {
            Some(content) => Some(content.len() as u64),
            None => None,
        },
        Some(ObjectKind::Tree) => tree_len(repo, oid),
        _ => None,
    }
}

/// Creates a node from any content address: a blob becomes a closed file, a
/// tree a directory, and a commit the directory of its tree. The store is
/// asked for the kind of `oid`, for a commit's tree and that tree's kind, and
/// for the size of the object the node is made for.
pub fn new_inode(repo: &git2::Repository, oid: ObjectId) -> (r: Option<Inode>)
    ensures
        r is Some ==> r.unwrap().fresh(),
        exists|
            kind: Option<ObjectKind>,
            tree: Option<Seq<u8>>,
            tree_kind: Option<ObjectKind>,
            len: Option<u64>,
        | node_outcome(r, oid@, kind, tree, tree_kind, len),
{
    let kind = object_kind(repo, &oid);
    let is_commit = match kind {
        Some(ObjectKind::Commit) => true,
        _ => false,
    };
    let tree = if is_commit {
        commit_tree(repo, &oid)
    } else {
        None
    };
    let tree_kind = match &tree {
        Some(t) => object_kind(repo, t),
        None => None,
    };
    let len = if is_commit {
        match &tree {
            Some(t) => store_len(repo, t, tree_kind),
            None => None,
        }
    } else {
        store_len(repo, &oid, kind)
    };
    let ghost tv = opt_view(tree);
    let r = node_for(oid, kind, tree, tree_kind, len);
    assert(node_outcome(r, oid@, kind, tv, tree_kind, len));
    r
}

/// A sparse map from inode number to node, filled as nodes are first
/// reached.
pub struct InodeContainer {
    inodes: HashMap<u64, Inode>,
}

impl View for InodeContainer {
    type V = Map<u64, Inode>;

    closed spec fn view(&self) -> Map<u64, Inode> {
        self.inodes@
    }
}

impl InodeContainer {
    /// An empty container.
    pub fn new() -> (r: InodeContainer)
        ensures
            r@ == Map::<u64, Inode>::empty(),
    {
        InodeContainer { inodes: HashMap::new() }
    }

    /// Store `inode` under `ino`, handing back the node it replaces.
    pub fn insert(&mut self, ino: u64, inode: Inode) -> (r: Option<Inode>)
        ensures
            final(self)@ == old(self)@.insert(ino, inode),
            match r {
                Some(v) => old(self)@.contains_key(ino) && v == old(self)@[ino],
                None => !old(self)@.contains_key(ino),
            },
    {
        broadcast use vstd::std_specs::hash::group_hash_axioms;

        self.inodes.insert(ino, inode)
    }

    /// Whether a node is stored under `ino`.
    pub fn contains(&self, ino: u64) -> (r: bool)
        ensures
            r == self@.contains_key(ino),
    {
        broadcast use vstd::std_specs::hash::group_hash_axioms;

        self.inodes.contains_key(&ino)
    }

    /// The node stored under `ino`; `NotFound` where there is none.
    pub fn find(&self, ino: u64) -> (r: Result<&Inode, Errno>)
        ensures
            match r {
                Ok(v) => self@.contains_key(ino) && *v == self@[ino],
                Err(e) => e == Errno::NotFound && !self@.contains_key(ino),
            },
    {
        broadcast use vstd::std_specs::hash::group_hash_axioms;

        match self.inodes.get(&ino) {
            Some(v) => Ok(v),
            None => Err(Errno::NotFound),
        }
    }

    /// Take the node stored under `ino` out of the container; `NotFound`
    /// where there is none.
    pub fn take(&mut self, ino: u64) -> (r: Result<Inode, Errno>)
        ensures
            match r {
                Ok(v) => old(self)@.contains_key(ino) && v == old(self)@[ino] && final(self)@
                    == old(self)@.remove(ino),
                Err(e) => e == Errno::NotFound && !old(self)@.contains_key(ino) && final(self)@
                    == old(self)@,
            },
    {
        broadcast use vstd::std_specs::hash::group_hash_axioms;

        match self.inodes.remove(&ino) {
            Some(v) => Ok(v),
            None => Err(Errno::NotFound),
        }
    }

    /// Store `inode` under `ino` unless a node is stored there already; says
    /// whether it was stored.
    pub fn insert_absent(&mut self, ino: u64, inode: Inode) -> (r: bool)
        ensures
            r == !old(self)@.contains_key(ino),
            final(self)@ == if r {
                old(self)@.insert(ino, inode)
            } else {
                old(self)@
            },
    {
        if self.contains(ino) {
            false
        } else {
            self.insert(ino, inode);
            true
        }
    }
}

} // verus!
