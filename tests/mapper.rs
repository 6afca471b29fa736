use gitfs::inode::{st_blocks, Id, InodeMapper, ObjectId};

fn oid(b: u8) -> ObjectId {
    ObjectId::from_bytes(vec![b; 20])
}

#[test]
fn blocks_round_up() {
    assert_eq!(st_blocks(0), 0);
    assert_eq!(st_blocks(1), 1);
    assert_eq!(st_blocks(511), 1);
    assert_eq!(st_blocks(512), 1);
    assert_eq!(st_blocks(513), 2);
    assert_eq!(st_blocks(5), 1);
    assert_eq!(st_blocks(u64::MAX), 1u64 << 55);
}

#[test]
fn new_ino_counts_from_one() {
    let mut m = InodeMapper::new();
    assert_eq!(m.max_ino(), 0);
    assert_eq!(m.new_ino(), 1);
    assert_eq!(m.new_ino(), 2);
    assert_eq!(m.max_ino(), 2);
}

#[test]
fn same_address_same_ino() {
    let mut m = InodeMapper::new();
    m.new_ino();
    let a = m.get_ino(Id::Oid(oid(7)));
    let b = m.get_ino(Id::Oid(oid(7)));
    assert_eq!(a, 2);
    assert_eq!(a, b);
    assert_eq!(m.max_ino(), 2);
}

#[test]
fn distinct_addresses_distinct_inos() {
    let mut m = InodeMapper::new();
    let a = m.get_ino(Id::Oid(oid(1)));
    let b = m.get_ino(Id::Oid(oid(2)));
    let c = m.get_ino(Id::Oid(oid(1)));
    assert_ne!(a, b);
    assert_eq!(a, c);
    assert_eq!(m.max_ino(), 2);
}

#[test]
fn known_ino_passes_through() {
    let mut m = InodeMapper::new();
    assert_eq!(m.get_ino(Id::Ino(42)), 42);
    assert_eq!(m.max_ino(), 0);
    assert!(m.get_oid(42).is_none());
}

#[test]
fn reverse_lookup() {
    let mut m = InodeMapper::new();
    m.new_ino();
    let a = m.get_ino(Id::Oid(oid(9)));
    assert_eq!(m.get_oid(a).unwrap().as_bytes(), &[9u8; 20][..]);
    assert!(m.get_oid(1).is_none());
    assert!(m.get_oid(a + 1).is_none());
}

#[test]
fn object_id_equality() {
    assert!(oid(3).same_as(&oid(3)));
    assert!(!oid(3).same_as(&oid(4)));
    assert!(!oid(3).same_as(&ObjectId::from_bytes(vec![3u8; 19])));
    assert!(oid(5).duplicate().same_as(&oid(5)));
}
