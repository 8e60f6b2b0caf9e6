use arceos_guestaspace::arch::MapPolicy;
use arceos_guestaspace::s2as::{MapError, Mapping, MemError, Perms, SecondStage};

fn space() -> SecondStage {
    SecondStage::new_empty(0x4000_0000, 0x800_0000, 0x9000_0000).unwrap()
}

#[test]
fn new_empty_has_no_mappings() {
    let s = space();
    assert_eq!(s.base(), 0x4000_0000);
    assert_eq!(s.size(), 0x800_0000);
    assert_eq!(s.root_physical(), 0x9000_0000);
    assert!(!s.stale());
    assert!(!s.is_mapped(0x4000_0000));
    assert_eq!(s.translate(0x4020_0000), None);
    assert!(s.mapped_pages().is_empty());
}

#[test]
fn new_empty_refuses_a_region_past_the_end() {
    assert!(SecondStage::new_empty(u64::MAX, 2, 0).is_none());
    assert!(SecondStage::new_empty(u64::MAX, 0, 0).is_some());
    assert!(SecondStage::new_empty(0, u64::MAX, 0).is_some());
}

#[test]
fn contains_is_the_half_open_region() {
    let s = space();
    assert!(!s.contains(0x3fff_ffff));
    assert!(s.contains(0x4000_0000));
    assert!(s.contains(0x47ff_ffff));
    assert!(!s.contains(0x4800_0000));
}

#[test]
fn perms_bits() {
    assert_eq!(Perms::all().bits(), 0xf);
    assert_eq!(Perms { read: true, write: false, execute: true, user: false }.bits(), 0x5);
    assert_eq!(Perms { read: false, write: true, execute: false, user: true }.bits(), 0xa);
}

#[test]
fn passthrough_maps_identity_for_every_byte_of_the_range() {
    let mut s = space();
    assert_eq!(s.map_passthrough(0x4010_0000, 0x3000, Perms::all()), Ok(()));
    for page in [0x4010_0000u64, 0x4010_1000, 0x4010_2000] {
        assert_eq!(s.translate(page), Some(page));
        assert_eq!(s.translate(page + 0xfff), Some(page + 0xfff));
        assert_eq!(
            s.lookup(page + 7),
            Some(Mapping { hpa: page, perms: Perms::all(), backing: MapPolicy::Passthrough })
        );
    }
    assert_eq!(s.translate(0x4010_3000), None);
    assert_eq!(s.translate(0x400f_ffff), None);
    assert!(s.stale());
    assert_eq!(s.mapped_pages(), vec![0x4010_0000, 0x4010_1000, 0x4010_2000]);
}

#[test]
fn map_errors_in_order_of_precedence() {
    let mut s = space();
    assert_eq!(s.map_passthrough(0x4000_0001, 0x1000, Perms::all()), Err(MapError::Misaligned));
    assert_eq!(s.map_passthrough(0x4000_0000, 0x1001, Perms::all()), Err(MapError::Misaligned));
    assert_eq!(s.map_passthrough(0x3000_0001, 0x1000, Perms::all()), Err(MapError::Misaligned));
    assert_eq!(s.map_passthrough(0x3fff_f000, 0x1000, Perms::all()), Err(MapError::OutOfRange));
    assert_eq!(s.map_passthrough(0x47ff_f000, 0x2000, Perms::all()), Err(MapError::OutOfRange));
    assert_eq!(s.map_passthrough(0x47ff_f000, 0x1000, Perms::all()), Ok(()));
    assert_eq!(
        s.map_allocated(0x4000_0000, 0x2000, Perms::all(), &vec![0x5000_0000]),
        Err(MapError::OutOfFrames)
    );
    assert_eq!(
        s.map_allocated(0x3000_0000, 0x2000, Perms::all(), &vec![0x5000_0000]),
        Err(MapError::OutOfRange)
    );
    assert!(s.mapped_pages() == vec![0x47ff_f000]);
}

#[test]
fn double_mapping_is_a_no_op() {
    let mut s = space();
    let first = Perms { read: true, write: false, execute: false, user: true };
    assert_eq!(s.map_passthrough(0x4010_0000, 0x1000, first), Ok(()));
    s.note_shootdown();
    assert!(!s.stale());
    assert_eq!(s.map_passthrough(0x4010_0000, 0x1000, Perms::all()), Ok(()));
    assert!(!s.stale());
    assert_eq!(s.lookup(0x4010_0000).unwrap().perms, first);
    assert_eq!(
        s.map_allocated(0x4010_0000, 0x1000, Perms::all(), &vec![0x5000_0000]),
        Ok(())
    );
    assert_eq!(s.lookup(0x4010_0000).unwrap().backing, MapPolicy::Passthrough);
    assert_eq!(s.mapped_pages().len(), 1);
    assert_eq!(s.map_passthrough(0x4010_0000, 0x2000, Perms::all()), Ok(()));
    assert!(s.stale());
    assert_eq!(s.mapped_pages().len(), 2);
}

#[test]
fn allocated_pages_take_the_frames_in_order_and_start_zeroed() {
    let mut s = space();
    let frames = vec![0x5000_3000u64, 0x5000_1000, 0x5000_2000];
    assert_eq!(s.map_allocated(0x4020_0000, 0x3000, Perms::all(), &frames), Ok(()));
    assert_eq!(s.translate(0x4020_0004), Some(0x5000_3004));
    assert_eq!(s.translate(0x4020_1000), Some(0x5000_1000));
    assert_eq!(s.translate(0x4020_2fff), Some(0x5000_2fff));
    assert_eq!(s.read_bytes(0x4020_0ffe, 4), Ok(vec![0, 0, 0, 0]));
    assert_eq!(s.lookup(0x4020_1000).unwrap().backing, MapPolicy::Allocated);
}

#[test]
fn allocated_skips_mapped_pages_and_leaves_their_frames_unused() {
    let mut s = space();
    assert_eq!(s.map_passthrough(0x4020_1000, 0x1000, Perms::all()), Ok(()));
    let frames = vec![0x5000_0000u64, 0x5000_0000, 0x5000_2000];
    assert_eq!(s.map_allocated(0x4020_0000, 0x3000, Perms::all(), &frames), Ok(()));
    assert_eq!(s.translate(0x4020_0000), Some(0x5000_0000));
    assert_eq!(s.translate(0x4020_1000), Some(0x4020_1000));
    assert_eq!(s.translate(0x4020_2000), Some(0x5000_2000));
}

#[test]
fn frames_must_be_aligned_unused_and_distinct() {
    let mut s = space();
    assert_eq!(
        s.map_allocated(0x4020_0000, 0x1000, Perms::all(), &vec![0x5000_0800]),
        Err(MapError::FrameInUse)
    );
    assert_eq!(
        s.map_allocated(0x4020_0000, 0x2000, Perms::all(), &vec![0x5000_0000, 0x5000_0000]),
        Err(MapError::FrameInUse)
    );
    assert!(s.mapped_pages().is_empty());
    assert!(!s.stale());
    assert_eq!(s.map_allocated(0x4020_0000, 0x1000, Perms::all(), &vec![0x5000_0000]), Ok(()));
    assert_eq!(
        s.map_allocated(0x4020_1000, 0x1000, Perms::all(), &vec![0x5000_0000]),
        Err(MapError::FrameInUse)
    );
    assert_eq!(s.map_passthrough(0x4030_0000, 0x1000, Perms::all()), Ok(()));
    assert_eq!(
        s.map_allocated(0x4020_1000, 0x1000, Perms::all(), &vec![0x4030_0000]),
        Err(MapError::FrameInUse)
    );
    assert_eq!(s.mapped_pages().len(), 2);
}

#[test]
fn passthrough_maps_identity_whatever_else_the_frame_backs() {
    let mut s = space();
    assert_eq!(s.map_allocated(0x4020_0000, 0x1000, Perms::all(), &vec![0x4040_0000]), Ok(()));
    assert_eq!(s.map_passthrough(0x403f_f000, 0x2000, Perms::all()), Ok(()));
    assert_eq!(s.translate(0x403f_f000), Some(0x403f_f000));
    assert_eq!(s.translate(0x4040_0010), Some(0x4040_0010));
    assert_eq!(s.translate(0x4020_0010), Some(0x4040_0010));
    assert_eq!(s.map_passthrough(0x4020_0000, 0x1000, Perms::all()), Ok(()));
    assert_eq!(s.lookup(0x4020_0000).unwrap().backing, MapPolicy::Allocated);
    assert_eq!(s.mapped_pages(), vec![0x4020_0000, 0x403f_f000, 0x4040_0000]);
}

#[test]
fn pages_are_listed_in_the_order_of_mapping_not_of_address() {
    let mut s = space();
    assert_eq!(s.map_passthrough(0x4030_0000, 0x2000, Perms::all()), Ok(()));
    assert_eq!(s.map_allocated(0x4010_0000, 0x1000, Perms::all(), &vec![0x5000_0000]), Ok(()));
    assert_eq!(s.map_passthrough(0x402f_f000, 0x4000, Perms::all()), Ok(()));
    assert_eq!(
        s.mapped_pages(),
        vec![0x4030_0000, 0x4030_1000, 0x4010_0000, 0x402f_f000, 0x4030_2000]
    );
    assert_eq!(s.write_bytes(0x4010_0000, &[1, 2]), Ok(()));
    s.note_shootdown();
    assert_eq!(s.mapped_pages().len(), 5);
    assert_eq!(s.mapped_pages()[2], 0x4010_0000);
}

#[test]
fn written_bytes_read_back_across_a_page_boundary() {
    let mut s = space();
    let frames = vec![0x5000_0000u64, 0x5000_1000];
    assert_eq!(s.map_allocated(0x4020_0000, 0x2000, Perms::all(), &frames), Ok(()));
    let text: Vec<u8> = (0..200u32).map(|i| (i * 7 + 1) as u8).collect();
    assert_eq!(s.write_bytes(0x4020_0f80, &text), Ok(()));
    assert_eq!(s.read_bytes(0x4020_0f80, 200), Ok(text.clone()));
    assert_eq!(s.read_bytes(0x4020_0f7f, 2), Ok(vec![0, text[0]]));
    assert_eq!(s.read_bytes(0x4020_1047, 2), Ok(vec![text[199], 0]));
    assert_eq!(s.read_bytes(0x4020_0000, 0), Ok(vec![]));
}

#[test]
fn write_fails_where_a_page_is_not_mapped_and_changes_nothing() {
    let mut s = space();
    assert_eq!(s.map_allocated(0x4020_0000, 0x1000, Perms::all(), &vec![0x5000_0000]), Ok(()));
    assert_eq!(s.write_bytes(0x4020_0ffe, &[1, 2, 3]), Err(MemError::Unmapped));
    assert_eq!(s.read_bytes(0x4020_0ffe, 2), Ok(vec![0, 0]));
    assert_eq!(s.write_bytes(0x4030_0000, &[1]), Err(MemError::Unmapped));
    assert_eq!(s.read_bytes(0x401f_ffff, 2), Err(MemError::Unmapped));
    assert_eq!(s.check_range(0x4020_0000, 0x1000), Ok(()));
    assert_eq!(s.check_range(0x4020_0000, 0x1001), Err(MemError::Unmapped));
    assert_eq!(s.check_range(u64::MAX, 2), Err(MemError::Unmapped));
}

#[test]
fn passthrough_pages_hold_no_bytes_of_their_own() {
    let mut s = space();
    assert_eq!(s.map_allocated(0x4020_0000, 0x1000, Perms::all(), &vec![0x5000_0000]), Ok(()));
    assert_eq!(s.map_passthrough(0x4020_1000, 0x1000, Perms::all()), Ok(()));
    assert_eq!(s.write_bytes(0x4020_1000, &[1]), Err(MemError::HostOwned));
    assert_eq!(s.write_bytes(0x4020_0fff, &[1, 2]), Err(MemError::HostOwned));
    assert_eq!(s.read_bytes(0x4020_0fff, 1), Ok(vec![0]));
    assert_eq!(s.read_bytes(0x4020_1000, 1), Err(MemError::HostOwned));
    assert_eq!(s.write_bytes(0x4020_1ffe, &[1, 2, 3]), Err(MemError::Unmapped));
}
