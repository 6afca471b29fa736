//! Directory listings as the filesystem protocol pages them: `.` and `..`
//! first, then the node's own entries, each entry carrying the offset from
//! which a later request resumes after it.
use vstd::prelude::*;

use crate::inode::{entries_model, DirEntry, FileKind, Id, IdModel, InodeMapper, MapperModel};

verus! {

/// The inode number reported for `..`, which no node records.
pub const UNKNOWN_INO: u64 = 0xffff_ffff_ffff_ffff;

/// The name `.`.
pub open spec fn dot_name() -> Seq<u8> {
    seq![46u8]
}

/// The name `..`.
pub open spec fn dotdot_name() -> Seq<u8> {
    seq![46u8, 46u8]
}

/// The two entries that open every listing of the directory `dir`.
pub open spec fn dots(dir: u64) -> Seq<(IdModel, FileKind, Seq<u8>)> {
    seq![
        (IdModel::Ino(dir), FileKind::Directory, dot_name()),
        (IdModel::Ino(UNKNOWN_INO), FileKind::Directory, dotdot_name()),
    ]
}

/// The position among a node's own entries at which a listing resumed at
/// `offset` starts.
pub open spec fn child_start(offset: u64) -> u64 {
    if offset >= 2 {
        (offset - 2) as u64
    } else {
        0
    }
}

/// The entries of a listing of `dir` resumed at `offset`, where `children`
/// are the node's entries from `child_start(offset)` on.
pub open spec fn page_ids(dir: u64, offset: u64, children: Seq<(IdModel, FileKind, Seq<u8>)>) -> Seq<
    (IdModel, FileKind, Seq<u8>),
> {
    let d = if offset < 2 {
        dots(dir).subrange(offset as int, 2)
    } else {
        Seq::empty()
    };
    d + children
}

/// Each entry of `s` with the offset that follows it, the first entry
/// standing at `offset`.
pub open spec fn numbered<T>(s: Seq<T>, offset: int) -> Seq<(T, int)> {
    Seq::new(s.len(), |i: int| (s[i], offset + i + 1))
}

/// The ids of a sequence of entries.
pub open spec fn ids_of(s: Seq<(IdModel, FileKind, Seq<u8>)>) -> Seq<IdModel> {
    s.map_values(|e: (IdModel, FileKind, Seq<u8>)| e.0)
}

/// The mapper's state after resolving `ids` in order, and the inode numbers
/// they resolve to.
pub open spec fn resolve_all(m: MapperModel, ids: Seq<IdModel>) -> (MapperModel, Seq<u64>)
    decreases ids.len(),
{
    if ids.len() == 0 {
        (m, Seq::empty())
    } else {
        let (m1, ns) = resolve_all(m, ids.drop_last());
        let (m2, n) = m1.resolve(ids.last());
        (m2, ns.push(n))
    }
}

/// A listing resumed at `offset` is the full listing, `.` and `..` followed
/// by all of the node's entries, from position `offset` on.
pub proof fn lemma_page_is_suffix(
    dir: u64,
    all: Seq<(IdModel, FileKind, Seq<u8>)>,
    offset: u64,
)
    requires
        offset <= all.len() + 2,
    ensures
        page_ids(dir, offset, all.subrange(child_start(offset) as int, all.len() as int))
            == (dots(dir) + all).subrange(offset as int, all.len() + 2 as int),
{
    let full = dots(dir) + all;
    let page = page_ids(dir, offset, all.subrange(child_start(offset) as int, all.len() as int));
    assert(page =~= full.subrange(offset as int, all.len() + 2 as int));
}

/// Resuming a listing at any offset that an earlier page handed out gives
/// the rest of that page exactly: no entry is repeated or skipped, however
/// the listing is split across requests.
pub proof fn lemma_readdir_continuation(
    dir: u64,
    all: Seq<(IdModel, FileKind, Seq<u8>)>,
    first: u64,
    resume: u64,
)
    requires
        first <= resume <= all.len() + 2,
    ensures
        numbered(
            page_ids(dir, first, all.subrange(child_start(first) as int, all.len() as int)),
            first as int,
        ).subrange(resume - first, all.len() + 2 - first) == numbered(
            page_ids(dir, resume, all.subrange(child_start(resume) as int, all.len() as int)),
            resume as int,
        ),
{
    lemma_page_is_suffix(dir, all, first);
    lemma_page_is_suffix(dir, all, resume);
    let full = dots(dir) + all;
    let a = numbered(full.subrange(first as int, all.len() + 2 as int), first as int);
    let b = numbered(full.subrange(resume as int, all.len() + 2 as int), resume as int);
    assert(a.subrange(resume - first, all.len() + 2 - first) =~= b);
}

/// A listing from offset 0 is `.`, then `..`, then every entry of the node
/// in its order.
pub proof fn lemma_listing_from_start(dir: u64, all: Seq<(IdModel, FileKind, Seq<u8>)>)
    ensures
        page_ids(dir, 0, all.subrange(child_start(0) as int, all.len() as int)) == dots(dir)
            + all,
        page_ids(dir, 0, all)[0].2 == dot_name(),
        page_ids(dir, 0, all)[1].2 == dotdot_name(),
{
    assert(all.subrange(0, all.len() as int) =~= all);
    assert(dots(dir).subrange(0, 2) =~= dots(dir));
}

/// `r` is the reply to a listing of `dir` resumed at `offset`, where
/// `children` are the node's entries from `child_start(offset)` on, and the
/// mapper went from `before` to `after` resolving the entries' ids in order.
pub open spec fn listing_post(
    before: MapperModel,
    after: MapperModel,
    dir: u64,
    offset: u64,
    children: Seq<(IdModel, FileKind, Seq<u8>)>,
    r: Seq<ReplyEntry>,
) -> bool {
    let ids = page_ids(dir, offset, children);
    let (m, inos) = resolve_all(before, ids_of(ids));
    &&& after == m
    &&& r.len() == ids.len()
    &&& forall|i: int|
        0 <= i < r.len() ==> {
            &&& (#[trigger] r[i]).ino == inos[i]
            &&& r[i].offset == offset + i + 1
            &&& r[i].kind == ids[i].1
            &&& r[i].name@ == ids[i].2
        }
}

/// One entry of a listing as the protocol replies it.
pub struct ReplyEntry {
    pub ino: u64,
    /// The offset from which a later request resumes after this entry.
    pub offset: u64,
    pub kind: FileKind,
    pub name: Vec<u8>,
}

/// The `.` and `..` entries that a listing resumed at `offset` starts with.
fn dot_entries(dir: u64, offset: u64) -> (r: Vec<DirEntry>)
    ensures
        entries_model(r@) == (if offset < 2 {
            dots(dir).subrange(offset as int, 2)
        } else {
            Seq::empty()
        }),
{
    let mut r: Vec<DirEntry> = Vec::new();
    if offset == 0 {
        let name: Vec<u8> = vec![46u8];
        assert(name@ =~= dot_name());
        r.push(DirEntry { id: Id::Ino(dir), kind: FileKind::Directory, name });
    }
    if offset <= 1 {
        let name: Vec<u8> = vec![46u8, 46u8];
        assert(name@ =~= dotdot_name());
        r.push(DirEntry { id: Id::Ino(UNKNOWN_INO), kind: FileKind::Directory, name });
    }
    assert(entries_model(r@) =~= (if offset < 2 {
        dots(dir).subrange(offset as int, 2)
    } else {
        Seq::empty()
    }));
    r
}

/// Build the reply to a listing of `dir` resumed at `offset`, where
/// `children` are the node's entries from `child_start(offset)` on: each
/// entry's id is resolved to an inode number, in order, and each entry
/// carries the offset that follows it.
pub fn fill_listing(mapper: &mut InodeMapper, dir: u64, offset: u64, children: Vec<DirEntry>) -> (r:
    Vec<ReplyEntry>)
    requires
        old(mapper).wf(),
        old(mapper)@.last + children@.len() + 2 < u64::MAX,
        offset + page_ids(dir, offset, entries_model(children@)).len() <= u64::MAX,
    ensures
        final(mapper).wf(),
        listing_post(old(mapper)@, final(mapper)@, dir, offset, entries_model(children@), r@),
{
    let ghost ids = page_ids(dir, offset, entries_model(children@));
    let mut all = dot_entries(dir, offset);
    let mut rest = children;
    all.append(&mut rest);
    assert(entries_model(all@) =~= ids);
    let mut out: Vec<ReplyEntry> = Vec::new();
    let mut i: usize = 0;
    while i < all.len()
        invariant
            i <= all@.len(),
            entries_model(all@) == ids,
            ids.len() == all@.len(),
            offset + ids.len() <= u64::MAX,
            mapper.wf(),
            mapper@.last <= old(mapper)@.last + i,
            old(mapper)@.last + all@.len() < u64::MAX,
            (mapper@, out@.map_values(|e: ReplyEntry| e.ino)) == resolve_all(
                old(mapper)@,
                ids_of(ids).subrange(0, i as int),
            ),
            out@.len() == i,
            forall|j: int|
                0 <= j < i ==> {
                    &&& (#[trigger] out@[j]).offset == offset + j + 1
                    &&& out@[j].kind == ids[j].1
                    &&& out@[j].name@ == ids[j].2
                },
        decreases all.len() - i,
    {
        let ghost before = mapper@;
        let ghost prev = out@;
        let e = &all[i];
        assert(entry_model_at(all@, i as int) == ids[i as int]);
        let ino = mapper.get_ino(e.id.duplicate());
        out.push(ReplyEntry { ino, offset: offset + i as u64 + 1, kind: e.kind, name: e.name.clone() });
        proof {
            let s = ids_of(ids).subrange(0, i + 1);
            assert(s.drop_last() =~= ids_of(ids).subrange(0, i as int));
            assert(s.last() == e.id@);
            assert(out@.map_values(|e: ReplyEntry| e.ino) =~= prev.map_values(
                |e: ReplyEntry| e.ino,
            ).push(ino));
        }
        i = i + 1;
    }
    assert(ids_of(ids).subrange(0, all@.len() as int) =~= ids_of(ids));
    proof {
        let inos = resolve_all(old(mapper)@, ids_of(ids)).1;
        assert forall|j: int| 0 <= j < out@.len() implies (#[trigger] out@[j]).ino == inos[j] by {
            assert(out@.map_values(|e: ReplyEntry| e.ino)[j] == out@[j].ino);
        }
    }
    out
}

/// The model of the entry at position `i`.
spec fn entry_model_at(v: Seq<DirEntry>, i: int) -> (IdModel, FileKind, Seq<u8>) {
    crate::inode::entry_model(v[i])
}

} // verus!
