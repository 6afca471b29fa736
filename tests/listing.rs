use gitfs::inode::{DirEntry, FileKind, Id, InodeMapper, ObjectId};
use gitfs::listing::{fill_listing, ReplyEntry, UNKNOWN_INO};

fn entry(b: u8, name: &str) -> DirEntry {
    DirEntry {
        id: Id::Oid(ObjectId::from_bytes(vec![b; 20])),
        kind: FileKind::RegularFile,
        name: name.as_bytes().to_vec(),
    }
}

fn children(from: usize) -> Vec<DirEntry> {
    let all = vec![entry(1, "a"), entry(2, "b"), entry(3, "c")];
    all.into_iter().skip(from).collect()
}

fn names(v: &[ReplyEntry]) -> Vec<String> {
    v.iter().map(|e| String::from_utf8(e.name.clone()).unwrap()).collect()
}

#[test]
fn listing_from_zero() {
    let mut m = InodeMapper::new();
    m.new_ino();
    let r = fill_listing(&mut m, 1, 0, children(0));
    assert_eq!(names(&r), vec![".", "..", "a", "b", "c"]);
    let offsets: Vec<u64> = r.iter().map(|e| e.offset).collect();
    assert_eq!(offsets, vec![1, 2, 3, 4, 5]);
    assert_eq!(r[0].ino, 1);
    assert_eq!(r[1].ino, UNKNOWN_INO);
    assert_eq!(r[2].ino, 2);
    assert_eq!(r[3].ino, 3);
    assert_eq!(r[4].ino, 4);
    assert!(r[..2].iter().all(|e| e.kind == FileKind::Directory));
    assert_eq!(r[2].kind, FileKind::RegularFile);
}

#[test]
fn listing_from_one() {
    let mut m = InodeMapper::new();
    let r = fill_listing(&mut m, 1, 1, children(0));
    assert_eq!(names(&r), vec!["..", "a", "b", "c"]);
    assert_eq!(r[0].offset, 2);
    assert_eq!(r[3].offset, 5);
}

#[test]
fn listing_resumes_without_gaps() {
    let mut m = InodeMapper::new();
    let first = fill_listing(&mut m, 1, 0, children(0));
    // The client took the first three entries and resumes after the third.
    let resume = first[2].offset;
    assert_eq!(resume, 3);
    let second = fill_listing(&mut m, 1, resume, children((resume - 2) as usize));
    assert_eq!(names(&second), vec!["b", "c"]);
    assert_eq!(second[0].offset, 4);
    assert_eq!(second[0].ino, first[3].ino);
    assert_eq!(second[1].ino, first[4].ino);
}

#[test]
fn listing_past_end_is_empty() {
    let mut m = InodeMapper::new();
    let r = fill_listing(&mut m, 1, 5, children(3));
    assert!(r.is_empty());
    assert_eq!(m.max_ino(), 0);
}
