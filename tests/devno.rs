use myos_sched::devno::{MajorDevNo, MinorDevNo};

#[test]
fn minor_numbers_are_inode_numbers() {
    let d = MinorDevNo::try_from(5).unwrap();
    assert_eq!(d.inode(), 5);
    assert!(MinorDevNo::try_from(0).is_err());
    assert!(MinorDevNo::try_from(0xffff).is_err());
    assert_eq!(MinorDevNo::try_from(0xfffe).unwrap().inode(), 0xfffe);
}

#[test]
fn major_numbers_live_in_the_top_bits() {
    let d = MajorDevNo::try_from(3u64 << 48).unwrap();
    assert_eq!(d.inode(), 3u64 << 48);
    assert!(MajorDevNo::try_from(5).is_err());
    assert!(MajorDevNo::try_from(0xffffu64 << 48).is_err());
    assert_eq!(MajorDevNo::try_from((7u64 << 48) | 9).unwrap().inode(), 7u64 << 48);
}
