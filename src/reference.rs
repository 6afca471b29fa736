use vstd::prelude::*;

use crate::inode::{
    bytes_eq, entries_model, node_attr, with_node_fields, DirEntry, Errno, FileAttr, FileKind, Id,
    IdModel, DIR_PERM,
};

verus! {

/// The listing of a reference directory from position `start` on: each
/// entry as a directory, in the directory's order.
pub open spec fn refdir_children(entries: Seq<(Seq<u8>, IdModel)>, start: u64) -> Seq<
    (IdModel, FileKind, Seq<u8>),
> {
    let from = if start < entries.len() { start as int } else { entries.len() as int };
    entries.subrange(from, entries.len() as int).map_values(
        |e: (Seq<u8>, IdModel)| (e.1, FileKind::Directory, e.0),
    )
}

/// What a lookup in a reference directory returns: the target of the entry
/// of that name, or `NotFound` where there is none.
pub open spec fn refdir_lookup_post(
    entries: Seq<(Seq<u8>, IdModel)>,
    name: Seq<u8>,
    r: Result<Id, Errno>,
) -> bool {
    match r {
        Ok(id) => exists|k: int|
            0 <= k < entries.len() && entries[k].0 == name && id@ == entries[k].1,
        Err(e) => e == Errno::NotFound && forall|k: int|
            0 <= k < entries.len() ==> entries[k].0 != name,
    }
}

/// Represents a virtual directory in reference paths
/// (e.g. `refs/heads/master` needs intermediate `refs/` and `refs/heads/`)
pub struct RefDir {
    entries: Vec<(Vec<u8>, Id)>,
}

impl View for RefDir {
    type V = Seq<(Seq<u8>, IdModel)>;

    closed spec fn view(&self) -> Seq<(Seq<u8>, IdModel)> {
        self.entries@.map_values(|e: (Vec<u8>, Id)| (e.0@, e.1@))
    }
}

impl RefDir {
    /// No two entries share a name.
    pub open spec fn wf(&self) -> bool {
        forall|i: int, j: int|
            0 <= i < self@.len() && 0 <= j < self@.len() && i != j ==> #[trigger] self@[i].0
                != #[trigger] self@[j].0
    }

    /// An empty directory.
    pub fn new() -> (r: RefDir)
        ensures
            r.wf(),
            r@ == Seq::<(Seq<u8>, IdModel)>::empty(),
    {
        let r = RefDir { entries: Vec::new() };
        assert(r@ =~= Seq::<(Seq<u8>, IdModel)>::empty());
        r
    }

    /// The number of entries.
    pub fn len(&self) -> (r: u64)
        ensures
            r == self@.len(),
    {
        proof {
            assert(self@.len() == self.entries@.len());
        }
        self.entries.len() as u64
    }

    /// The position of the entry named `name`, if there is one.
    fn position(&self, name: &[u8]) -> (r: Option<usize>)
        requires
            self.wf(),
        ensures
            match r {
                Some(k) => k < self@.len() && self@[k as int].0 == name@,
                None => forall|k: int| 0 <= k < self@.len() ==> self@[k].0 != name@,
            },
    {
        let mut i: usize = 0;
        while i < self.entries.len()
            invariant
                i <= self.entries@.len(),
                self@.len() == self.entries@.len(),
                forall|k: int| 0 <= k < i ==> self@[k].0 != name@,
            decreases self.entries.len() - i,
        {
            assert(self@[i as int].0 == self.entries@[i as int].0@);
            if bytes_eq(self.entries[i].0.as_slice(), name) {
                return Some(i);
            }
            i = i + 1;
        }
        None
    }

    /// Bind `name` to `id`: an entry of that name keeps its place and takes
    /// the new target; otherwise the entry is added at the end.
    pub fn insert(&mut self, name: Vec<u8>, id: Id)
        requires
            old(self).wf(),
        ensures
            final(self).wf(),
            (exists|k: int|
                0 <= k < old(self)@.len() && old(self)@[k].0 == name@ && final(self)@ == old(
                    self,
                )@.update(k, (name@, id@))) || ((forall|k: int|
                0 <= k < old(self)@.len() ==> old(self)@[k].0 != name@) && final(self)@ == old(
                self,
            )@.push((name@, id@))),
    {
        match self.position(name.as_slice()) {
            Some(k) => {
                let ghost nv = name@;
                let ghost iv = id@;
                self.entries.set(k, (name, id));
                assert(self@ =~= old(self)@.update(k as int, (nv, iv)));
            },
            None => {
                let ghost nv = name@;
                let ghost iv = id@;
                self.entries.push((name, id));
                assert(self@ =~= old(self)@.push((nv, iv)));
            },
        }
    }

    /// The target bound to `name`; `NotFound` where no entry has that name.
    pub fn lookup(&self, name: &[u8]) -> (r: Result<Id, Errno>)
        requires
            self.wf(),
        ensures
            refdir_lookup_post(self@, name@, r),
    {
        match self.position(name) {
            Some(k) => {
                assert(self@[k as int].1 == self.entries@[k as int].1@);
                Ok(self.entries[k].1.duplicate())
            },
            None => Err(Errno::NotFound),
        }
    }

    /// The directory's attributes: its entry count as size, the directory
    /// kind and mode 0755.
    pub fn getattr(&self, attr: FileAttr) -> (r: FileAttr)
        ensures
            r == with_node_fields(attr, self@.len() as u64, FileKind::Directory, DIR_PERM),
            r.blocks == crate::inode::blocks_for(r.size as nat),
    {
        node_attr(attr, self.len(), FileKind::Directory, DIR_PERM)
    }

    /// The entries from position `start` on, each listed as a directory.
    pub fn children(&self, start: u64) -> (r: Vec<DirEntry>)
        ensures
            entries_model(r@) == refdir_children(self@, start),
    {
        let mut out: Vec<DirEntry> = Vec::new();
        let n = self.entries.len();
        let from: usize = if start < n as u64 {
            start as usize
        } else {
            n
        };
        let mut i: usize = from;
        while i < n
            invariant
                from <= i <= n,
                n == self.entries@.len(),
                self@.len() == n,
                from == (if start < n { start as int } else { n as int }),
                entries_model(out@) == self@.subrange(from as int, i as int).map_values(
                    |e: (Seq<u8>, IdModel)| (e.1, FileKind::Directory, e.0),
                ),
            decreases n - i,
        {
            let e = &self.entries[i];
            let ghost before = out@;
            out.push(DirEntry { id: e.1.duplicate(), kind: FileKind::Directory, name: e.0.clone() });
            proof {
                assert(self@[i as int] == (self.entries@[i as int].0@, self.entries@[i as int].1@));
                assert(entries_model(out@) =~= entries_model(before).push(entry_of_last(out@)));
                assert(self@.subrange(from as int, i + 1) =~= self@.subrange(from as int, i as int).push(self@[i as int]));
            }
            i = i + 1;
            assert(entries_model(out@) =~= self@.subrange(from as int, i as int).map_values(
                |e: (Seq<u8>, IdModel)| (e.1, FileKind::Directory, e.0),
            ));
        }
        out
    }
}

/// The model of the last entry of a nonempty listing.
spec fn entry_of_last(v: Seq<DirEntry>) -> (IdModel, FileKind, Seq<u8>) {
    crate::inode::entry_model(v.last())
}

} // verus!
