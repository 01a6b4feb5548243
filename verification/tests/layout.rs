use ogsp_installer::fetch::DownloadedSegment;
use ogsp_installer::layout::first_overlap;

fn at(flash_offset: u32, length: usize) -> DownloadedSegment {
    DownloadedSegment { flash_offset, data: vec![0xff; length] }
}

#[test]
fn segments_side_by_side_do_not_overlap() {
    assert_eq!(first_overlap(&vec![]), None);
    assert_eq!(first_overlap(&vec![at(0, 16)]), None);
    assert_eq!(first_overlap(&vec![at(0, 0x1000), at(0x1000, 0x1000), at(0x10000, 4)]), None);
    assert_eq!(first_overlap(&vec![at(0x10000, 4), at(0, 0x10000)]), None);
}

#[test]
fn a_shared_byte_is_an_overlap() {
    assert_eq!(first_overlap(&vec![at(0, 0x1001), at(0x1000, 0x1000)]), Some((0, 1)));
    assert_eq!(first_overlap(&vec![at(0x1000, 0x1000), at(0, 0x1001)]), Some((0, 1)));
    assert_eq!(first_overlap(&vec![at(8, 1), at(8, 1)]), Some((0, 1)));
    assert_eq!(first_overlap(&vec![at(0, 100), at(10, 5)]), Some((0, 1)));
}

#[test]
fn the_first_overlap_in_listed_order_is_reported() {
    let segments = vec![at(0, 4), at(100, 4), at(2, 200), at(0, 1)];
    assert_eq!(first_overlap(&segments), Some((0, 2)));
    let later = vec![at(0, 4), at(100, 4), at(200, 4), at(101, 200)];
    assert_eq!(first_overlap(&later), Some((1, 3)));
}

#[test]
fn a_segment_without_data_overlaps_nothing() {
    assert_eq!(first_overlap(&vec![at(0, 16), at(4, 0)]), None);
    assert_eq!(first_overlap(&vec![at(4, 0), at(4, 0)]), None);
    assert_eq!(first_overlap(&vec![at(4, 0), at(0, 16), at(15, 1)]), Some((1, 2)));
}

#[test]
fn the_highest_addresses_are_compared_without_wrapping() {
    assert_eq!(first_overlap(&vec![at(u32::MAX, 16), at(0, 16)]), None);
    assert_eq!(first_overlap(&vec![at(u32::MAX, 16), at(u32::MAX - 1, 2)]), Some((0, 1)));
    assert_eq!(first_overlap(&vec![at(u32::MAX - 1, 1), at(u32::MAX, 1)]), None);
}
