use gitfs::inode::{Errno, FileKind, Timespec};
use gitfs::listing::ReplyEntry;
use gitfs::{GitFS, ROOT_INO};

/// A bare repository at `path` holding one commit per entry of `contents`,
/// each of a tree with the single file `a.txt`; HEAD is left detached at the
/// first commit. Returns the repository and the commits' ids.
fn repository(path: &str, contents: &[&[u8]]) -> (git2::Repository, Vec<git2::Oid>) {
    let repo = git2::Repository::init_bare(path).unwrap();
    let sig = git2::Signature::new("Test", "test@example.com", &git2::Time::new(0, 0)).unwrap();
    let mut commits = Vec::new();
    for content in contents {
        let blob = repo.blob(content).unwrap();
        let mut builder = repo.treebuilder(None).unwrap();
        builder.insert("a.txt", blob, 0o100644).unwrap();
        let tree_id = builder.write().unwrap();
        let tree = repo.find_tree(tree_id).unwrap();
        let commit = repo.commit(None, &sig, &sig, "test", &tree, &[]).unwrap();
        commits.push(commit);
    }
    repo.set_head_detached(commits[0]).unwrap();
    (repo, commits)
}

fn mounted(path: &str, contents: &[&[u8]]) -> (GitFS, Vec<git2::Oid>) {
    let (repo, commits) = repository(path, contents);
    let mut fs = GitFS::new(repo, Timespec { sec: 1000, nsec: 0 }, 1000, 100);
    fs.init();
    (fs, commits)
}

fn names(v: &[ReplyEntry]) -> Vec<String> {
    v.iter().map(|e| String::from_utf8(e.name.clone()).unwrap()).collect()
}

#[test]
fn head_file_reads_back() {
    let (mut fs, _) = mounted("/tmp/gitfs_test_head_file", &[b"hello"]);
    let head = fs.lookup(ROOT_INO, b"HEAD").unwrap();
    assert_eq!(head.kind, FileKind::Directory);
    assert_eq!(head.size, 1);
    assert_eq!(head.perm, 0o755);
    let file = fs.lookup(head.ino, b"a.txt").unwrap();
    assert_eq!(file.kind, FileKind::RegularFile);
    assert_eq!(file.size, 5);
    assert_eq!(file.blocks, 1);
    assert_eq!(file.perm, 0o644);
    assert_eq!(file.uid, 1000);
    assert_eq!(file.gid, 100);
    assert_eq!(file.atime, Timespec { sec: 1000, nsec: 0 });
    assert_eq!(fs.open(file.ino), Ok(()));
    assert_eq!(fs.read(file.ino, 0, 4096).unwrap(), b"hello".to_vec());
    assert_eq!(fs.read(file.ino, 6, 1), Err(Errno::InvalidArgument));
    assert_eq!(fs.release(file.ino), Ok(()));
    assert_eq!(fs.read(file.ino, 0, 4096), Err(Errno::InvalidArgument));
}

#[test]
fn lookup_is_stable() {
    let (mut fs, _) = mounted("/tmp/gitfs_test_stable", &[b"hello"]);
    let head = fs.lookup(ROOT_INO, b"HEAD").unwrap();
    let a = fs.lookup(head.ino, b"a.txt").unwrap();
    let again = fs.lookup(head.ino, b"a.txt").unwrap();
    assert_eq!(a.ino, again.ino);
    assert_eq!(fs.lookup(ROOT_INO, b"HEAD").unwrap().ino, head.ino);
    assert_eq!(fs.getattr(a.ino).unwrap().size, 5);
}

#[test]
fn head_is_resolved_on_each_lookup() {
    let (mut fs, commits) = mounted("/tmp/gitfs_test_live_head", &[b"hello", b"goodbye!"]);
    let first = fs.lookup(ROOT_INO, b"HEAD").unwrap();
    let file = fs.lookup(first.ino, b"a.txt").unwrap();
    assert_eq!(file.size, 5);
    fs.repository().set_head_detached(commits[1]).unwrap();
    let second = fs.lookup(ROOT_INO, b"HEAD").unwrap();
    assert_ne!(first.ino, second.ino);
    let file = fs.lookup(second.ino, b"a.txt").unwrap();
    assert_eq!(file.size, 8);
}

#[test]
fn root_and_refs() {
    let (mut fs, _) = mounted("/tmp/gitfs_test_root", &[b"hello"]);
    let root = fs.getattr(ROOT_INO).unwrap();
    assert_eq!(root.size, 2);
    assert_eq!(root.kind, FileKind::Directory);
    let refs = fs.lookup(ROOT_INO, b"refs").unwrap();
    assert_eq!(refs.ino, 3);
    assert_eq!(refs.size, 0);
    assert_eq!(fs.lookup(ROOT_INO, b"nothing"), Err(Errno::NotFound));
    assert_eq!(fs.lookup(3, b"heads"), Err(Errno::NotFound));
    assert_eq!(fs.getattr(99), Err(Errno::NotFound));
}

#[test]
fn root_listing_pages() {
    let (mut fs, _) = mounted("/tmp/gitfs_test_root_listing", &[b"hello"]);
    let all = fs.readdir(ROOT_INO, 0).unwrap();
    assert_eq!(names(&all), vec![".", "..", "HEAD", "refs"]);
    let offsets: Vec<u64> = all.iter().map(|e| e.offset).collect();
    assert_eq!(offsets, vec![1, 2, 3, 4]);
    assert_eq!(all[0].ino, ROOT_INO);
    assert_eq!(all[3].ino, 3);
    let head = fs.lookup(ROOT_INO, b"HEAD").unwrap();
    assert_eq!(all[2].ino, head.ino);
    let rest = fs.readdir(ROOT_INO, 3).unwrap();
    assert_eq!(names(&rest), vec!["refs"]);
    assert!(fs.readdir(ROOT_INO, 4).unwrap().is_empty());
}

#[test]
fn tree_listing_pages() {
    let (mut fs, _) = mounted("/tmp/gitfs_test_tree_listing", &[b"hello"]);
    let head = fs.lookup(ROOT_INO, b"HEAD").unwrap();
    let all = fs.readdir(head.ino, 0).unwrap();
    assert_eq!(names(&all), vec![".", "..", "a.txt"]);
    assert_eq!(all[2].kind, FileKind::RegularFile);
    assert_eq!(all[2].offset, 3);
    // A node reached only through a listing is made on first use.
    let listed = fs.getattr(all[2].ino).unwrap();
    assert_eq!(listed.size, 5);
    assert_eq!(listed.kind, FileKind::RegularFile);
    let file = fs.lookup(head.ino, b"a.txt").unwrap();
    assert_eq!(all[2].ino, file.ino);
    let rest = fs.readdir(head.ino, 2).unwrap();
    assert_eq!(names(&rest), vec!["a.txt"]);
    assert_eq!(rest[0].ino, file.ino);
    assert!(fs.readdir(head.ino, 3).unwrap().is_empty());
}

#[test]
fn wrong_kind_requests() {
    let (mut fs, _) = mounted("/tmp/gitfs_test_wrong_kind", &[b"hello"]);
    let head = fs.lookup(ROOT_INO, b"HEAD").unwrap();
    let file = fs.lookup(head.ino, b"a.txt").unwrap();
    assert_eq!(fs.lookup(file.ino, b"x"), Err(Errno::NotADirectory));
    assert!(matches!(fs.readdir(file.ino, 0), Err(Errno::NotADirectory)));
    assert_eq!(fs.open(head.ino), Err(Errno::IsADirectory));
    assert_eq!(fs.read(head.ino, 0, 1), Err(Errno::IsADirectory));
    assert_eq!(fs.release(ROOT_INO), Err(Errno::IsADirectory));
    assert_eq!(fs.lookup(head.ino, b"missing"), Err(Errno::NotFound));
    assert_eq!(fs.lookup(head.ino, b"a\0b"), Err(Errno::NotFound));
    assert_eq!(fs.open(99), Err(Errno::NotFound));
}

#[test]
fn missing_tree_is_an_io_error() {
    let (fs, _) = mounted("/tmp/gitfs_test_missing_tree", &[b"hello"]);
    let t = gitfs::tree::Tree::new(gitfs::inode::ObjectId::from_bytes(vec![0xab; 20]), 2);
    assert!(matches!(t.children(fs.repository(), 0), Err(Errno::Io)));
    assert!(matches!(t.lookup(fs.repository(), b"a.txt"), Err(Errno::Io)));
}
