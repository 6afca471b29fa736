use gitfs::blob::Blob;
use gitfs::inode::{node_for, node_from_store, Errno, FileAttr, FileKind, Id, Inode, ObjectId, Timespec};
use gitfs::reference::RefDir;
use gitfs::root::{head_bytes, refs_bytes, Root};
use gitfs::store::{ObjectKind, StoreEntry};
use gitfs::tree::{child_result, classify, listing_from, Tree};

fn oid(b: u8) -> ObjectId {
    ObjectId::from_bytes(vec![b; 20])
}

fn attr() -> FileAttr {
    let t = Timespec { sec: 10, nsec: 0 };
    FileAttr {
        ino: 9,
        size: 0,
        blocks: 0,
        atime: t,
        mtime: t,
        ctime: t,
        crtime: t,
        kind: FileKind::RegularFile,
        perm: 0,
        nlink: 1,
        uid: 1000,
        gid: 100,
        rdev: 0,
        flags: 0,
    }
}

fn open_blob(content: &[u8]) -> Blob {
    let mut b = Blob::new(oid(1), content.len() as u64);
    assert_eq!(b.load(Some(content.to_vec())), Ok(()));
    b
}

#[test]
fn blob_attributes() {
    let b = Blob::new(oid(1), 1025);
    let a = b.getattr(attr());
    assert_eq!(a.size, 1025);
    assert_eq!(a.blocks, 3);
    assert_eq!(a.kind, FileKind::RegularFile);
    assert_eq!(a.perm, 0o644);
    assert_eq!(a.ino, 9);
    assert_eq!(a.uid, 1000);
}

#[test]
fn blob_read_whole() {
    let b = open_blob(b"hello");
    assert_eq!(b.read(0, 4096).unwrap(), b"hello".to_vec());
}

#[test]
fn blob_read_clamped() {
    let b = open_blob(b"hello");
    assert_eq!(b.read(1, 3).unwrap(), b"ell".to_vec());
    assert_eq!(b.read(2, 10).unwrap(), b"llo".to_vec());
    assert_eq!(b.read(4, 0).unwrap(), Vec::<u8>::new());
}

#[test]
fn blob_read_at_end_is_empty() {
    let b = open_blob(b"hello");
    assert_eq!(b.read(5, 1).unwrap(), Vec::<u8>::new());
}

#[test]
fn blob_read_past_end_fails() {
    let b = open_blob(b"hello");
    assert_eq!(b.read(6, 1), Err(Errno::InvalidArgument));
}

#[test]
fn blob_read_unopened_fails() {
    let b = Blob::new(oid(1), 5);
    assert_eq!(b.read(0, 1), Err(Errno::InvalidArgument));
}

#[test]
fn blob_load_failure_is_io() {
    let mut b = Blob::new(oid(1), 5);
    assert_eq!(b.load(None), Err(Errno::Io));
    assert!(b.data.is_none());
}

#[test]
fn blob_load_keeps_held_content() {
    let mut b = open_blob(b"hello");
    assert_eq!(b.load(Some(b"other".to_vec())), Ok(()));
    assert_eq!(b.read(0, 10).unwrap(), b"hello".to_vec());
}

#[test]
fn blob_release_drops_content() {
    let mut b = open_blob(b"hello");
    b.release();
    assert!(b.data.is_none());
    assert_eq!(b.read(0, 1), Err(Errno::InvalidArgument));
    let mut closed = Blob::new(oid(2), 3);
    closed.release();
    assert!(closed.data.is_none());
}

#[test]
fn tree_attributes() {
    let t = Tree::new(oid(2), 3);
    let a = t.getattr(attr());
    assert_eq!(a.size, 3);
    assert_eq!(a.blocks, 1);
    assert_eq!(a.kind, FileKind::Directory);
    assert_eq!(a.perm, 0o755);
}

#[test]
fn tree_entry_kinds() {
    assert_eq!(classify(ObjectKind::Tree), FileKind::Directory);
    assert_eq!(classify(ObjectKind::Blob), FileKind::RegularFile);
    assert_eq!(classify(ObjectKind::Commit), FileKind::CharDevice);
    assert_eq!(classify(ObjectKind::Other), FileKind::CharDevice);
}

#[test]
fn tree_lookup_outcomes() {
    assert!(matches!(child_result(None), Err(Errno::Io)));
    assert!(matches!(child_result(Some(None)), Err(Errno::NotFound)));
    match child_result(Some(Some(oid(4)))) {
        Ok(Id::Oid(o)) => assert!(o.same_as(&oid(4))),
        _ => panic!("expected the child's address"),
    }
}

#[test]
fn root_attributes() {
    let r = Root::new(Id::Ino(2), Id::Ino(3));
    let a = r.getattr(attr());
    assert_eq!(a.size, 2);
    assert_eq!(a.blocks, 1);
    assert_eq!(a.kind, FileKind::Directory);
    assert_eq!(a.perm, 0o755);
}

#[test]
fn root_head_follows_current_value() {
    let r = Root::new(Id::Ino(2), Id::Ino(3));
    match r.lookup_with_head(b"HEAD", Some(oid(5))) {
        Ok(Id::Oid(o)) => assert!(o.same_as(&oid(5))),
        _ => panic!("HEAD should resolve"),
    }
    match r.lookup_with_head(b"HEAD", Some(oid(6))) {
        Ok(Id::Oid(o)) => assert!(o.same_as(&oid(6))),
        _ => panic!("HEAD should resolve"),
    }
    assert!(matches!(r.lookup_with_head(b"HEAD", None), Err(Errno::NotFound)));
}

#[test]
fn root_refs_and_misses() {
    let r = Root::new(Id::Ino(2), Id::Ino(3));
    assert!(matches!(r.lookup_with_head(b"refs", None), Ok(Id::Ino(3))));
    assert!(matches!(r.lookup_with_head(b"tags", Some(oid(5))), Err(Errno::NotFound)));
    assert!(matches!(r.lookup_with_head(b"HEADS", Some(oid(5))), Err(Errno::NotFound)));
    assert_eq!(head_bytes(), b"HEAD".to_vec());
    assert_eq!(refs_bytes(), b"refs".to_vec());
}

#[test]
fn root_listing() {
    let r = Root::new(Id::Ino(2), Id::Ino(3));
    let all = r.children_with_head(0, Some(oid(5)));
    assert_eq!(all.len(), 2);
    assert_eq!(all[0].name, b"HEAD".to_vec());
    assert!(matches!(&all[0].id, Id::Oid(o) if o.same_as(&oid(5))));
    assert_eq!(all[1].name, b"refs".to_vec());
    assert!(matches!(all[1].id, Id::Ino(3)));
    assert!(all.iter().all(|e| e.kind == FileKind::Directory));
    let unresolved = r.children_with_head(0, None);
    assert!(matches!(unresolved[0].id, Id::Ino(2)));
    let rest = r.children_with_head(1, None);
    assert_eq!(rest.len(), 1);
    assert_eq!(rest[0].name, b"refs".to_vec());
    assert!(r.children_with_head(2, None).is_empty());
}

#[test]
fn refdir_entries() {
    let mut d = RefDir::new();
    assert_eq!(d.len(), 0);
    assert!(matches!(d.lookup(b"heads"), Err(Errno::NotFound)));
    d.insert(b"heads".to_vec(), Id::Ino(10));
    d.insert(b"tags".to_vec(), Id::Ino(11));
    d.insert(b"heads".to_vec(), Id::Ino(12));
    assert_eq!(d.len(), 2);
    assert!(matches!(d.lookup(b"heads"), Ok(Id::Ino(12))));
    assert!(matches!(d.lookup(b"tags"), Ok(Id::Ino(11))));
    let a = d.getattr(attr());
    assert_eq!(a.size, 2);
    assert_eq!(a.kind, FileKind::Directory);
    let all = d.children(0);
    assert_eq!(all.len(), 2);
    assert_eq!(all[0].name, b"heads".to_vec());
    assert_eq!(all[1].name, b"tags".to_vec());
    let rest = d.children(1);
    assert_eq!(rest.len(), 1);
    assert_eq!(rest[0].name, b"tags".to_vec());
    assert!(d.children(5).is_empty());
}

#[test]
fn wrong_kind_errors() {
    let b = Inode::Blob(Blob::new(oid(1), 1));
    let mut d = Inode::RefDir(RefDir::new());
    assert!(matches!(d.read(0, 1), Err(Errno::IsADirectory)));
    assert!(matches!(d.release(), Err(Errno::IsADirectory)));
    assert!(matches!(b.getattr(attr()), Ok(a) if a.kind == FileKind::RegularFile));
    assert!(matches!(d.getattr(attr()), Ok(a) if a.kind == FileKind::Directory && a.size == 0));
}

#[test]
fn node_from_store_answers() {
    match node_from_store(oid(1), Some(ObjectKind::Blob), Some(5)) {
        Some(Inode::Blob(b)) => {
            assert!(b.oid.same_as(&oid(1)));
            assert_eq!(b.size, 5);
            assert!(b.data.is_none());
        }
        _ => panic!("a blob becomes a file node"),
    }
    match node_from_store(oid(2), Some(ObjectKind::Tree), Some(3)) {
        Some(Inode::Tree(t)) => {
            assert!(t.oid.same_as(&oid(2)));
            assert_eq!(t.size, 3);
        }
        _ => panic!("a tree becomes a directory node"),
    }
    assert!(node_from_store(oid(3), Some(ObjectKind::Other), Some(3)).is_none());
    assert!(node_from_store(oid(3), Some(ObjectKind::Blob), None).is_none());
    assert!(node_from_store(oid(3), None, Some(1)).is_none());
}

#[test]
fn commit_stands_for_its_tree() {
    match node_for(oid(1), Some(ObjectKind::Commit), Some(oid(2)), Some(ObjectKind::Tree), Some(4)) {
        Some(Inode::Tree(t)) => {
            assert!(t.oid.same_as(&oid(2)));
            assert_eq!(t.size, 4);
        }
        _ => panic!("a commit becomes its tree's directory"),
    }
    assert!(node_for(oid(1), Some(ObjectKind::Commit), None, None, None).is_none());
    assert!(node_for(oid(1), Some(ObjectKind::Commit), Some(oid(2)), Some(ObjectKind::Commit), Some(1))
        .is_none());
    match node_for(oid(1), Some(ObjectKind::Blob), None, None, Some(7)) {
        Some(Inode::Blob(b)) => assert!(b.oid.same_as(&oid(1)) && b.size == 7),
        _ => panic!("a blob is not redirected"),
    }
}

#[test]
fn tree_listing_from_store_entries() {
    let fetched = vec![
        Some(StoreEntry { id: oid(4), kind: ObjectKind::Blob, name: b"a".to_vec() }),
        None,
        Some(StoreEntry { id: oid(5), kind: ObjectKind::Tree, name: b"d".to_vec() }),
        Some(StoreEntry { id: oid(6), kind: ObjectKind::Other, name: b"m".to_vec() }),
    ];
    let r = listing_from(&fetched);
    assert_eq!(r.len(), 3);
    assert_eq!(r[0].name, b"a".to_vec());
    assert_eq!(r[0].kind, FileKind::RegularFile);
    assert!(matches!(&r[0].id, Id::Oid(o) if o.same_as(&oid(4))));
    assert_eq!(r[1].name, b"d".to_vec());
    assert_eq!(r[1].kind, FileKind::Directory);
    assert_eq!(r[2].kind, FileKind::CharDevice);
    assert!(listing_from(&Vec::new()).is_empty());
}
