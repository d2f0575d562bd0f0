use memory_pages::perm::{Perm, WinProtect};
use memory_pages::region::{
    next_page_boundary, posix_transition, region_len, windows_transition, Advice, PageSpan,
    RegionError, PAGE_SIZE,
};

fn span(addr: usize, len: usize) -> PageSpan {
    match PageSpan::from_mapping(addr, len) {
        Ok(s) => s,
        Err(e) => panic!("not a page range: {:?}", e),
    }
}

#[test]
fn round_up_to_whole_pages() {
    assert_eq!(region_len(0x1234), Ok(0x2000));
    assert_eq!(region_len(0x8000), Ok(0x8000));
    assert_eq!(region_len(1), Ok(0x1000));
    assert_eq!(region_len(256), Ok(0x1000));
    assert_eq!(next_page_boundary(0x1001), 0x2000);
    assert_eq!(next_page_boundary(0), 0);
}

#[test]
fn zero_length_is_rejected() {
    assert_eq!(region_len(0), Err(RegionError::ZeroLength));
}

#[test]
fn length_past_the_address_space_is_rejected() {
    assert_eq!(region_len(usize::MAX), Err(RegionError::TooLarge));
    assert_eq!(region_len(usize::MAX - PAGE_SIZE + 2), Err(RegionError::TooLarge));
}

#[test]
fn kernel_answers_are_checked() {
    assert_eq!(PageSpan::from_mapping(usize::MAX, 0x1000).err(), Some(RegionError::MapFailed));
    assert_eq!(PageSpan::from_mapping(0, 0x1000).err(), Some(RegionError::MapFailed));
    assert_eq!(PageSpan::from_mapping(0x1001, 0x1000).err(), Some(RegionError::Misaligned));
    assert_eq!(PageSpan::from_mapping(0x1000, 0x1800).err(), Some(RegionError::Misaligned));
    assert_eq!(PageSpan::from_mapping(0x1000, 0).err(), Some(RegionError::Misaligned));
    let s = span(0x7f00_0000_0000, 0x4000);
    assert_eq!(s.base(), 0x7f00_0000_0000);
    assert_eq!(s.len(), 0x4000);
}

#[test]
fn spans_are_page_aligned() {
    let s = span(0x10_0000, 0x3000);
    assert_eq!(s.base() % PAGE_SIZE, 0);
    assert_eq!(s.len() % PAGE_SIZE, 0);
}

#[test]
fn offsets_are_bounds_checked() {
    let s = span(0x10_0000, 0x1000);
    assert!(s.contains_offset(0));
    assert!(s.contains_offset(0xfff));
    assert!(!s.contains_offset(0x1000));
    assert!(!s.contains_offset(0x1001));
    assert_eq!(s.address(0x1ff), 0x10_01ff);
}

#[test]
fn written_offset_lies_in_region() {
    let s = span(0x20_0000, 0x4000);
    assert!(s.contains_offset(0x1fff));
    assert_eq!(s.address(0x1fff), 0x20_1fff);
}

#[test]
fn hints_and_copies_stay_in_region() {
    let s = span(0x10_0000, 0x2000);
    assert_eq!(s.advise_len(0x100), 0x100);
    assert_eq!(s.advise_len(0x5000), 0x2000);
    assert_eq!(s.preserved_len(0x1000), 0x1000);
    assert_eq!(s.preserved_len(0x8000), 0x2000);
}

#[test]
fn decommit_covers_whole_pages() {
    let s = span(0x10_0000, 0x4000);
    assert_eq!(s.decommit_range(0, 0x4000), (0, 0x4000));
    assert_eq!(s.decommit_range(0x1234, 0x10), (0x1000, 0x1000));
    assert_eq!(s.decommit_range(0x1234, 0x1000), (0x1000, 0x2000));
    assert_eq!(s.decommit_range(0x3000, usize::MAX), (0x3000, 0x1000));
    assert_eq!(s.decommit_range(0x4000, 0x10).1, 0);
    assert_eq!(s.decommit_range(0x10, 0).1, 0);
}

#[test]
fn transition_to_same_state_makes_no_call() {
    let rw = Perm { read: true, write: true, execute: false };
    let rx = Perm { read: true, write: false, execute: true };
    assert_eq!(posix_transition(rw, rw), None);
    assert_eq!(windows_transition(rw, rw), None);
    assert_eq!(posix_transition(rw, rx), Some(5));
    assert_eq!(posix_transition(rx, rw), Some(3));
    assert_eq!(windows_transition(rw, rx), Some(WinProtect::ExecuteRead));
    assert_eq!(windows_transition(rx, rw), Some(WinProtect::ReadWrite));
}

#[test]
fn promoted_windows_classes_elide_the_call() {
    let w = Perm { read: false, write: true, execute: false };
    let rw = Perm { read: true, write: true, execute: false };
    assert_eq!(posix_transition(w, rw), Some(3));
    assert_eq!(windows_transition(w, rw), None);
}

#[test]
fn advice_codes() {
    assert_eq!(Advice::WillNeed.posix_code(), 3);
    assert_eq!(Advice::Sequential.posix_code(), 2);
    assert_eq!(Advice::Random.posix_code(), 1);
    assert_eq!(Advice::DontNeed.posix_code(), 4);
}
