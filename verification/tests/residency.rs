use filebuffer::backend::{get_resident, PlatformData};
use filebuffer::buffer::FileBuffer;
use filebuffer::page::AddressRange;
use filebuffer::residency::{ResidencyScan, BATCH_PAGES};

const PAGE: usize = 4096;
const BASE: usize = 0x7f00_0000;

fn mapped(length: usize) -> FileBuffer {
    let platform_data = PlatformData { mapping_handle: 0, holds_file: false };
    FileBuffer::open(PAGE, BASE, length, platform_data).unwrap()
}

fn resident_up_to(pages: usize, count: usize) -> Vec<bool> {
    let mut flags = vec![true; count];
    if pages < count {
        flags[pages] = false;
    }
    flags
}

#[test]
fn batch_holds_32_pages() {
    assert_eq!(32, BATCH_PAGES);
}

#[test]
fn resident_len_counts_from_the_offset() {
    let buffer = mapped(3 * PAGE + 100);
    // The cover of [5000, 11000) is the two pages [4096, 12288).
    assert_eq!(6000, buffer.resident_len(5000, 6000, &[true, true]));
    assert_eq!(3192, buffer.resident_len(5000, 6000, &[true, false]));
    assert_eq!(0, buffer.resident_len(5000, 6000, &[false, true]));
    assert_eq!(0, buffer.resident_len(5000, 6000, &[false, false]));
}

#[test]
fn resident_len_is_clamped_to_the_length() {
    let buffer = mapped(3 * PAGE + 100);
    assert_eq!(10, buffer.resident_len(3, 10, &[true]));
    assert_eq!(100, buffer.resident_len(3 * PAGE, 100, &[true]));
    assert_eq!(1, buffer.resident_len(PAGE - 1, 1, &[true]));
    assert_eq!(1, buffer.resident_len(PAGE - 1, 2, &[true, false]));
    assert_eq!(2, buffer.resident_len(PAGE - 1, 2, &[true, true]));
    assert_eq!(3 * PAGE + 100, buffer.resident_len(0, 3 * PAGE + 100, &[true; 4]));
    assert_eq!(3 * PAGE, buffer.resident_len(0, 3 * PAGE + 100, &[true, true, true, false]));
}

#[test]
fn pages_without_a_flag_are_not_resident() {
    let buffer = mapped(3 * PAGE + 100);
    assert_eq!(0, buffer.resident_len(0, 3 * PAGE, &[]));
    assert_eq!(PAGE, buffer.resident_len(0, 3 * PAGE, &[true]));
    assert_eq!(2 * PAGE - 10, buffer.resident_len(10, 3 * PAGE, &[true, true]));
}

#[test]
fn flags_behind_the_cover_are_not_read() {
    let buffer = mapped(3 * PAGE + 100);
    assert_eq!(PAGE, buffer.resident_len(0, PAGE, &[true, false, false]));
    assert_eq!(0, buffer.resident_len(0, 0, &[true, true]));
    assert_eq!(0, buffer.resident_len(PAGE, 0, &[false]));
}

#[test]
fn empty_range_at_unaligned_offset_still_asks_for_its_page() {
    let buffer = mapped(3 * PAGE + 100);
    let mut scan = buffer.scan(5000, 0);
    assert_eq!(Some(AddressRange { address: BASE + PAGE, length: PAGE }), scan.next_query());
    scan.record(&[true]);
    assert!(scan.is_finished());
    assert_eq!(0, scan.resident_len());
    let scan = buffer.scan(2 * PAGE, 0);
    assert_eq!(None, scan.next_query());
    assert!(scan.is_finished());
}

#[test]
fn resident_len_over_many_batches() {
    let pages = 100;
    let buffer = mapped(pages * PAGE);
    for first_absent in [0, 1, 31, 32, 33, 63, 64, 65, 95, 96, 97, 99, 100] {
        let flags = resident_up_to(first_absent, pages);
        assert_eq!(first_absent * PAGE, buffer.resident_len(0, pages * PAGE, &flags));
        let expected = if first_absent == 0 { 0 } else { first_absent * PAGE - 7 };
        let length = pages * PAGE - 7;
        assert_eq!(expected.min(length), buffer.resident_len(7, length, &flags));
    }
}

#[test]
fn scan_asks_in_batches_of_32_pages() {
    let pages = 100;
    let buffer = mapped(pages * PAGE);
    let mut scan = buffer.scan(10, pages * PAGE - 10);
    let all = [true; 32];
    let mut asked = Vec::new();
    while let Some(query) = scan.next_query() {
        asked.push(query);
        assert!(!scan.is_finished());
        scan.record(&all);
    }
    assert_eq!(
        vec![
            AddressRange { address: BASE, length: 32 * PAGE },
            AddressRange { address: BASE + 32 * PAGE, length: 32 * PAGE },
            AddressRange { address: BASE + 64 * PAGE, length: 32 * PAGE },
            AddressRange { address: BASE + 96 * PAGE, length: 4 * PAGE },
        ],
        asked
    );
    assert!(scan.is_finished());
    assert_eq!(pages * PAGE - 10, scan.resident_len());
}

#[test]
fn scan_starts_at_the_page_of_the_offset() {
    let buffer = mapped(100 * PAGE);
    let scan = buffer.scan(5 * PAGE + 1, 2 * PAGE);
    assert_eq!(
        Some(AddressRange { address: BASE + 5 * PAGE, length: 3 * PAGE }),
        scan.next_query()
    );
    let scan = buffer.scan(5 * PAGE, 2 * PAGE);
    assert_eq!(
        Some(AddressRange { address: BASE + 5 * PAGE, length: 2 * PAGE }),
        scan.next_query()
    );
}

#[test]
fn scan_stops_at_the_first_page_that_is_not_resident() {
    let buffer = mapped(100 * PAGE);
    let mut scan = buffer.scan(0, 100 * PAGE);
    scan.record(&[true; 32]);
    assert_eq!(32 * PAGE, scan.resident_len());
    let mut second = [true; 32];
    second[5] = false;
    second[6] = true;
    scan.record(&second);
    assert!(scan.is_finished());
    assert_eq!(None, scan.next_query());
    assert_eq!(37 * PAGE, scan.resident_len());
    // Nothing is pending: further answers change nothing.
    scan.record(&[true; 32]);
    assert_eq!(37 * PAGE, scan.resident_len());
    assert_eq!(None, scan.next_query());
}

#[test]
fn scan_takes_a_short_answer_as_the_end_of_the_resident_pages() {
    let buffer = mapped(100 * PAGE);
    let mut scan = buffer.scan(0, 100 * PAGE);
    scan.record(&[true; 10]);
    assert!(scan.is_finished());
    assert_eq!(10 * PAGE, scan.resident_len());
}

#[test]
fn scan_reads_only_the_pending_pages_of_an_answer() {
    let buffer = mapped(3 * PAGE);
    let mut scan = buffer.scan(0, 3 * PAGE);
    let mut answer = [false; 32];
    answer[0] = true;
    answer[1] = true;
    answer[2] = true;
    scan.record(&answer);
    assert!(scan.is_finished());
    assert_eq!(3 * PAGE, scan.resident_len());
}

#[test]
fn run_agrees_with_batch_by_batch_answers() {
    let pages = 70;
    let buffer = mapped(pages * PAGE - 1);
    for first_absent in [0, 1, 31, 32, 33, 64, 69, 70] {
        let flags = resident_up_to(first_absent, pages);
        let mut by_batch = buffer.scan(100, 60 * PAGE);
        let mut from = 0;
        while let Some(query) = by_batch.next_query() {
            assert_eq!(BASE + from * PAGE, query.address);
            let count = query.length / PAGE;
            by_batch.record(&flags[from..from + count]);
            from += count;
        }
        let mut at_once = buffer.scan(100, 60 * PAGE);
        at_once.run(&flags);
        assert!(at_once.is_finished());
        assert_eq!(by_batch.resident_len(), at_once.resident_len());
        assert_eq!(by_batch.resident_len(), buffer.resident_len(100, 60 * PAGE, &flags));
    }
}

#[test]
fn optimistic_resident_len_is_the_length() {
    let buffer = mapped(100 * PAGE + 17);
    assert_eq!(100 * PAGE + 17, buffer.optimistic_resident_len(0, 100 * PAGE + 17));
    assert_eq!(10, buffer.optimistic_resident_len(3, 10));
    assert_eq!(2, buffer.optimistic_resident_len(4095, 2));
    assert_eq!(0, buffer.optimistic_resident_len(5000, 0));
    assert_eq!(40 * PAGE, buffer.optimistic_resident_len(33 * PAGE + 1, 40 * PAGE));
    assert_eq!(0, buffer.optimistic_resident_len(100 * PAGE + 17, 0));
}

#[test]
fn optimistic_answers_make_the_whole_range_resident() {
    let buffer = mapped(100 * PAGE + 17);
    for (offset, length) in [(0, 100 * PAGE + 17), (5, 10), (4095, 2), (99 * PAGE, PAGE + 17)] {
        let mut scan = buffer.scan(offset, length);
        let mut residency = [false; BATCH_PAGES];
        while let Some(query) = scan.next_query() {
            get_resident(query.address, query.length, &mut residency);
            scan.record(&residency);
        }
        assert_eq!(length, scan.resident_len());
    }
}

#[test]
fn scan_of_a_mapping_given_by_its_address() {
    let mut scan = ResidencyScan::new(16384, 0x10_0000, 16384 + 5, 3 * 16384);
    assert_eq!(
        Some(AddressRange { address: 0x10_0000 + 16384, length: 4 * 16384 }),
        scan.next_query()
    );
    scan.record(&[true, true, false, true]);
    assert!(scan.is_finished());
    assert_eq!(2 * 16384 - 5, scan.resident_len());

    let mut bytes = ResidencyScan::new(1, 0x10_0000, 7, 40);
    assert_eq!(Some(AddressRange { address: 0x10_0007, length: 32 }), bytes.next_query());
    bytes.record(&[true; 32]);
    assert_eq!(Some(AddressRange { address: 0x10_0027, length: 8 }), bytes.next_query());
    bytes.record(&[true, true, true, false]);
    assert_eq!(35, bytes.resident_len());

    let empty = ResidencyScan::new(4096, 0, 0, 0);
    assert!(empty.is_finished());
    assert_eq!(0, empty.resident_len());
}
