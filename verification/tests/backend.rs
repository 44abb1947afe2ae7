use filebuffer::backend::{
    get_page_size, get_resident, map_file, mapping_created, prefetch, query_outcome, unmap_file,
    view_mapped, Backend, MapError, MapStep, PlatformData, QueryOutcome, Release,
};
use filebuffer::page::AddressRange;

const NOTHING_HELD: PlatformData = PlatformData { mapping_handle: 0, holds_file: false };
const FILE_HELD: PlatformData = PlatformData { mapping_handle: 0, holds_file: true };

#[test]
fn page_size_at_least_4096() {
    assert!(get_page_size(4096).unwrap() >= 4096);
    assert_eq!(Some(4096), get_page_size(4096));
    assert_eq!(Some(16384), get_page_size(16384));
    assert_eq!(Some(65536), get_page_size(65536));
}

#[test]
fn page_size_must_be_a_power_of_two() {
    assert_eq!(None, get_page_size(0));
    assert_eq!(None, get_page_size(-1));
    assert_eq!(None, get_page_size(i64::MIN));
    assert_eq!(None, get_page_size(4095));
    assert_eq!(None, get_page_size(12288));
    assert_eq!(None, get_page_size(i64::MAX));
    assert_eq!(Some(1), get_page_size(1));
    assert_eq!(Some(1 << 30), get_page_size(1 << 30));
}

#[test]
fn empty_file_is_mapped_without_a_request() {
    assert_eq!(
        MapStep::Mapped { buffer: 0, length: 0, platform_data: NOTHING_HELD },
        map_file(Backend::Posix, 0)
    );
    assert_eq!(
        MapStep::Mapped { buffer: 0, length: 0, platform_data: FILE_HELD },
        map_file(Backend::Windows, 0)
    );
}

#[test]
fn posix_maps_in_one_request() {
    let step = map_file(Backend::Posix, 5000);
    assert_eq!(MapStep::MapView { length: 5000, platform_data: NOTHING_HELD }, step);
    assert_eq!(
        MapStep::Mapped { buffer: 0x7f00_0000, length: 5000, platform_data: NOTHING_HELD },
        view_mapped(Backend::Posix, 5000, NOTHING_HELD, 0x7f00_0000)
    );
}

#[test]
fn windows_maps_in_two_requests() {
    assert_eq!(MapStep::CreateMapping { length: 5000 }, map_file(Backend::Windows, 5000));
    let held = PlatformData { mapping_handle: 0x1c4, holds_file: true };
    assert_eq!(
        MapStep::MapView { length: 5000, platform_data: held },
        mapping_created(5000, 0x1c4)
    );
    assert_eq!(
        MapStep::Mapped { buffer: 0x2_0000, length: 5000, platform_data: held },
        view_mapped(Backend::Windows, 5000, held, 0x2_0000)
    );
}

#[test]
fn file_larger_than_address_space_is_refused() {
    if usize::BITS < 64 {
        let step = map_file(Backend::Posix, u64::MAX);
        assert_eq!(MapStep::Failed { error: MapError::TooLarge, platform_data: NOTHING_HELD }, step);
        let step = map_file(Backend::Windows, usize::MAX as u64 + 1);
        assert_eq!(MapStep::Failed { error: MapError::TooLarge, platform_data: NOTHING_HELD }, step);
    } else {
        let step = map_file(Backend::Posix, u64::MAX);
        assert_eq!(
            MapStep::MapView { length: usize::MAX, platform_data: NOTHING_HELD },
            step
        );
    }
    assert_eq!("file is larger than address space", MapError::TooLarge.message());
}

#[test]
fn failed_requests_hand_back_what_was_acquired() {
    assert_eq!(
        MapStep::Failed { error: MapError::Os, platform_data: FILE_HELD },
        mapping_created(5000, 0)
    );
    let held = PlatformData { mapping_handle: 0x1c4, holds_file: true };
    assert_eq!(
        MapStep::Failed { error: MapError::Os, platform_data: held },
        view_mapped(Backend::Windows, 5000, held, 0)
    );
    assert_eq!(
        MapStep::Failed { error: MapError::Os, platform_data: NOTHING_HELD },
        view_mapped(Backend::Posix, 5000, NOTHING_HELD, usize::MAX)
    );
    assert_eq!(
        MapStep::Failed { error: MapError::Os, platform_data: NOTHING_HELD },
        view_mapped(Backend::Posix, 5000, NOTHING_HELD, 0)
    );
    assert_eq!(
        vec![Release::MappingHandle { handle: 0x1c4 }, Release::File],
        unmap_file(0, 0, held)
    );
    assert_eq!("the operating system refused the mapping", MapError::Os.message());
}

#[test]
fn failed_addresses_differ_by_backend() {
    assert_eq!(usize::MAX, Backend::Posix.failed_address());
    assert_eq!(0, Backend::Windows.failed_address());
    assert_eq!(
        MapStep::Mapped { buffer: usize::MAX, length: 1, platform_data: FILE_HELD },
        view_mapped(Backend::Windows, 1, FILE_HELD, usize::MAX)
    );
    assert_eq!(NOTHING_HELD, Backend::Posix.platform_data());
    assert_eq!(FILE_HELD, Backend::Windows.platform_data());
}

#[test]
fn release_goes_view_then_handle_then_file() {
    let held = PlatformData { mapping_handle: 7, holds_file: true };
    assert_eq!(
        vec![
            Release::View { address: 0x2_0000, length: 5000 },
            Release::MappingHandle { handle: 7 },
            Release::File,
        ],
        unmap_file(0x2_0000, 5000, held)
    );
    assert_eq!(
        vec![Release::View { address: 0x7f00_0000, length: 1 }],
        unmap_file(0x7f00_0000, 1, NOTHING_HELD)
    );
    assert_eq!(vec![Release::File], unmap_file(0, 0, FILE_HELD));
    assert!(unmap_file(0, 0, NOTHING_HELD).is_empty());
}

#[test]
fn busy_kernel_is_asked_again() {
    assert_eq!(QueryOutcome::Answered, query_outcome(0, 11));
    assert_eq!(QueryOutcome::Busy, query_outcome(11, 11));
    assert_eq!(QueryOutcome::Busy, query_outcome(35, 35));
    assert_eq!(QueryOutcome::Failed, query_outcome(35, 11));
    assert_eq!(QueryOutcome::Failed, query_outcome(-1, 11));
    assert_eq!(QueryOutcome::Failed, query_outcome(12, 11));
    assert_eq!(QueryOutcome::Answered, query_outcome(0, 0));
}

#[test]
fn optimistic_backend_reports_every_page_resident() {
    let mut residency = [false; 32];
    get_resident(0x7f00_0000, 32 * 4096, &mut residency);
    assert_eq!([true; 32], residency);
    let mut mixed = vec![true, false, true];
    get_resident(0, 0, &mut mixed);
    assert_eq!(vec![true, true, true], mixed);
    let mut none: Vec<bool> = Vec::new();
    get_resident(0, 0, &mut none);
    assert!(none.is_empty());
}

#[test]
fn prefetch_advises_whole_pages() {
    assert_eq!(None, prefetch(4096, 0, 0, 0));
    assert_eq!(
        Some(AddressRange { address: 0x1_0000, length: 4096 }),
        prefetch(4096, 0x1_0000, 3, 10)
    );
    assert_eq!(
        Some(AddressRange { address: 0x1_1000, length: 8192 }),
        prefetch(4096, 0x1_0000, 4096 + 4095, 2)
    );
    assert_eq!(
        Some(AddressRange { address: 0x1_0000, length: 0x1_0000 }),
        prefetch(0x1_0000, 0x1_0000, 1, 1)
    );
    assert_eq!(
        Some(AddressRange { address: 0x1_0000 + 17, length: 5 }),
        prefetch(1, 0x1_0000, 17, 5)
    );
    let top = usize::MAX - 4095;
    assert_eq!(
        Some(AddressRange { address: top - 4096, length: 4096 }),
        prefetch(4096, top - 8192, 4096 + 1, 4095)
    );
}
