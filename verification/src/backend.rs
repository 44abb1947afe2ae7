//! The steps by which a mapping is acquired from the operating system and
//! given back to it, for both kinds of operating-system interface.

use crate::page::{
    cover_fits, is_page_size, lemma_cover_end, lemma_round_down, lemma_round_up, round_down,
    round_down_to, round_up, round_up_to, AddressRange,
};
use vstd::arithmetic::power2::is_pow2;
use vstd::prelude::*;

verus! {

/// The kind of operating-system interface through which a file is mapped.
#[derive(Clone, Copy, Debug, PartialEq, Eq, Structural)]
pub enum Backend {
    /// One request maps the file, and the file may be closed right after it.
    Posix,
    /// A mapping object is created first and a view of it is mapped second;
    /// the file stays open for as long as the view exists.
    Windows,
}

/// What a mapping holds besides its view.
#[derive(Clone, Copy, Debug, PartialEq, Eq, Structural)]
pub struct PlatformData {
    /// The handle of the mapping object, or 0 where there is none.
    pub mapping_handle: usize,
    /// Whether the file is kept open for the mapping.
    pub holds_file: bool,
}

/// Why a file could not be mapped.
#[derive(Clone, Copy, Debug, PartialEq, Eq, Structural)]
pub enum MapError {
    /// The file is larger than the address space.
    TooLarge,
    /// The operating system refused a request.
    Os,
    /// The values handed in do not describe a mapping.
    Invalid,
}

/// What is to be done next to map a file.
#[derive(Clone, Copy, Debug, PartialEq, Eq, Structural)]
pub enum MapStep {
    /// Create a read-only mapping object of the whole file, and report its
    /// handle with `mapping_created`.
    CreateMapping { length: usize },
    /// Map `length` bytes from the start of the file, read-only and private,
    /// and report the address with `view_mapped`.
    MapView { length: usize, platform_data: PlatformData },
    /// The file is mapped at `buffer`; an empty file is mapped nowhere.
    Mapped { buffer: usize, length: usize, platform_data: PlatformData },
    /// The file cannot be mapped; what `platform_data` holds is to be released.
    Failed { error: MapError, platform_data: PlatformData },
}

/// One thing that is given back to the operating system.
#[derive(Clone, Copy, Debug, PartialEq, Eq, Structural)]
pub enum Release {
    /// Unmap the view of `length` bytes at `address`.
    View { address: usize, length: usize },
    /// Close the handle of the mapping object.
    MappingHandle { handle: usize },
    /// Close the file.
    File,
}

/// How a residency request ended.
#[derive(Clone, Copy, Debug, PartialEq, Eq, Structural)]
pub enum QueryOutcome {
    /// The residency flags are filled in.
    Answered,
    /// The kernel was busy: yield, then ask again, as often as it takes.
    Busy,
    /// The request was refused, which only a wrong request can cause.
    Failed,
}

impl Backend {
    /// The address with which a failed mapping request answers.
    pub open spec fn spec_failed_address(self) -> usize {
        match self {
            Backend::Posix => usize::MAX,
            Backend::Windows => 0,
        }
    }

    /// The address with which a failed mapping request answers.
    #[verifier::when_used_as_spec(spec_failed_address)]
    pub fn failed_address(self) -> (address: usize)
        ensures
            address == self.spec_failed_address(),
    {
        match self {
            Backend::Posix => usize::MAX,
            Backend::Windows => 0,
        }
    }

    /// What a mapping holds before any request has been made.
    pub open spec fn spec_platform_data(self) -> PlatformData {
        PlatformData { mapping_handle: 0, holds_file: self == Backend::Windows }
    }

    /// What a mapping holds before any request has been made.
    #[verifier::when_used_as_spec(spec_platform_data)]
    pub fn platform_data(self) -> (data: PlatformData)
        ensures
            data == self.spec_platform_data(),
    {
        match self {
            Backend::Posix => PlatformData { mapping_handle: 0, holds_file: false },
            Backend::Windows => PlatformData { mapping_handle: 0, holds_file: true },
        }
    }
}

impl MapError {
    /// The error in words.
    pub fn message(&self) -> (text: &'static str)
        ensures
            text@ == match *self {
                MapError::TooLarge => "file is larger than address space"@,
                MapError::Os => "the operating system refused the mapping"@,
                MapError::Invalid => "the values do not describe a mapping"@,
            },
    {
        match self {
            MapError::TooLarge => "file is larger than address space",
            MapError::Os => "the operating system refused the mapping",
            MapError::Invalid => "the values do not describe a mapping",
        }
    }
}

/// Checks the page size that the operating system reports: it is accepted
/// if it is a power of two that fits the address space.
pub fn get_page_size(reported: i64) -> (page_size: Option<usize>)
    ensures
        page_size.is_some() == (reported <= usize::MAX && is_pow2(reported as int)),
        page_size matches Some(size) ==> size == reported,
{
    proof {
        reveal(is_pow2);
    }
    if reported <= 0 || reported as u64 > usize::MAX as u64 {
        return None;
    }
    let size = reported as usize;
    if is_page_size(size) {
        Some(size)
    } else {
        None
    }
}

/// The first step of mapping a file of `file_length` bytes. A file that the
/// address space cannot hold fails, and an empty file is mapped at once,
/// nowhere and without a request.
pub fn map_file(backend: Backend, file_length: u64) -> (step: MapStep)
    ensures
        file_length > usize::MAX ==> step == (MapStep::Failed {
            error: MapError::TooLarge,
            platform_data: PlatformData { mapping_handle: 0, holds_file: false },
        }),
        file_length == 0 ==> step == (MapStep::Mapped {
            buffer: 0,
            length: 0,
            platform_data: backend.platform_data(),
        }),
        0 < file_length <= usize::MAX && backend == Backend::Posix ==> step == (MapStep::MapView {
            length: file_length as usize,
            platform_data: backend.platform_data(),
        }),
        0 < file_length <= usize::MAX && backend == Backend::Windows ==> step
            == (MapStep::CreateMapping { length: file_length as usize }),
{
    if file_length > usize::MAX as u64 {
        return MapStep::Failed {
            error: MapError::TooLarge,
            platform_data: PlatformData { mapping_handle: 0, holds_file: false },
        };
    }
    let length = file_length as usize;
    if length == 0 {
        return MapStep::Mapped { buffer: 0, length: 0, platform_data: backend.platform_data() };
    }
    match backend {
        Backend::Posix => MapStep::MapView { length, platform_data: backend.platform_data() },
        Backend::Windows => MapStep::CreateMapping { length },
    }
}

/// The step after the request for a mapping object has answered with
/// `mapping_handle`, where 0 says that the request failed.
pub fn mapping_created(length: usize, mapping_handle: usize) -> (step: MapStep)
    ensures
        mapping_handle == 0 ==> step == (MapStep::Failed {
            error: MapError::Os,
            platform_data: PlatformData { mapping_handle: 0, holds_file: true },
        }),
        mapping_handle != 0 ==> step == (MapStep::MapView {
            length,
            platform_data: PlatformData { mapping_handle, holds_file: true },
        }),
{
    let platform_data = PlatformData { mapping_handle, holds_file: true };
    if mapping_handle == 0 {
        MapStep::Failed { error: MapError::Os, platform_data }
    } else {
        MapStep::MapView { length, platform_data }
    }
}

/// The step after the request for a view has answered with `address`. The
/// request failed if that is the address that stands for no mapping, or the
/// address with which the backend reports a failure; what has been acquired
/// before is then handed back for release.
pub fn view_mapped(backend: Backend, length: usize, platform_data: PlatformData, address: usize) -> (step:
    MapStep)
    ensures
        address == 0 || address == backend.failed_address() ==> step == (MapStep::Failed {
            error: MapError::Os,
            platform_data,
        }),
        address != 0 && address != backend.failed_address() ==> step == (MapStep::Mapped {
            buffer: address,
            length,
            platform_data,
        }),
{
    if address == 0 || address == backend.failed_address() {
        MapStep::Failed { error: MapError::Os, platform_data }
    } else {
        MapStep::Mapped { buffer: address, length, platform_data }
    }
}

/// What is given back when a mapping ends, in this order: the view, unless
/// nothing is mapped; the mapping object, if there is one; the file, if it
/// was kept open.
pub open spec fn release_order(buffer: usize, length: usize, platform_data: PlatformData) -> Seq<
    Release,
> {
    let view = if buffer != 0 {
        seq![Release::View { address: buffer, length }]
    } else {
        seq![]
    };
    let handle = if platform_data.mapping_handle != 0 {
        seq![Release::MappingHandle { handle: platform_data.mapping_handle }]
    } else {
        seq![]
    };
    let file = if platform_data.holds_file {
        seq![Release::File]
    } else {
        seq![]
    };
    view + handle + file
}

/// Lists what is to be given back to end the mapping of `length` bytes at
/// `buffer`, in the order in which it is to happen.
pub fn unmap_file(buffer: usize, length: usize, platform_data: PlatformData) -> (steps: Vec<Release>)
    ensures
        steps@ == release_order(buffer, length, platform_data),
{
    let mut steps: Vec<Release> = Vec::new();
    if buffer != 0 {
        steps.push(Release::View { address: buffer, length });
    }
    if platform_data.mapping_handle != 0 {
        steps.push(Release::MappingHandle { handle: platform_data.mapping_handle });
    }
    if platform_data.holds_file {
        steps.push(Release::File);
    }
    assert(steps@ =~= release_order(buffer, length, platform_data));
    steps
}

/// The pages that a prefetch of the `length` bytes at `offset` of a mapping
/// at `buffer` names: the page-aligned cover of the range, or nothing where
/// nothing is mapped.
pub open spec fn advice_for(page_size: int, buffer: int, offset: int, length: int) -> Option<
    AddressRange,
> {
    if buffer == 0 {
        None
    } else {
        let aligned_offset = round_down(offset, page_size);
        Some(
            AddressRange {
                address: (buffer + aligned_offset) as usize,
                length: round_up(length + (offset - aligned_offset), page_size) as usize,
            },
        )
    }
}

/// Names the pages that the kernel is to be advised to make resident for the
/// `length` bytes at `offset` of a mapping at `buffer`. There is nothing to
/// advise where nothing is mapped.
pub fn prefetch(page_size: usize, buffer: usize, offset: usize, length: usize) -> (advice: Option<
    AddressRange,
>)
    requires
        cover_fits(page_size as int, buffer as int, offset as int, length as int),
    ensures
        advice == advice_for(page_size as int, buffer as int, offset as int, length as int),
        advice matches Some(pages) ==> {
            &&& pages.address == buffer + round_down(offset as int, page_size as int)
            &&& pages.address + pages.length == buffer + round_up(offset + length, page_size as int)
            &&& pages.address % page_size == 0
            &&& pages.length % page_size == 0
        },
{
    if buffer == 0 {
        return None;
    }
    proof {
        reveal(is_pow2);
        vstd::arithmetic::div_mod::lemma_fundamental_div_mod(buffer as int, page_size as int);
        vstd::arithmetic::div_mod::lemma_mod_multiples_vanish(
            buffer as int / page_size as int,
            round_down(offset as int, page_size as int),
            page_size as int,
        );
        vstd::arithmetic::div_mod::lemma_mod_is_zero(buffer as nat, page_size as nat);
        lemma_round_down(offset as int, page_size as int);
        lemma_cover_end(offset as int, length as int, page_size as int);
        lemma_round_up(offset + length, page_size as int);
    }
    let aligned_offset = round_down_to(offset, page_size);
    let aligned_length = round_up_to(length + (offset - aligned_offset), page_size);
    Some(AddressRange { address: buffer + aligned_offset, length: aligned_length })
}

/// Classifies the status of a residency request: 0 says that it was
/// answered, `busy_status` that the kernel was busy.
pub fn query_outcome(status: i32, busy_status: i32) -> (outcome: QueryOutcome)
    ensures
        outcome == if status == 0 {
            QueryOutcome::Answered
        } else if status == busy_status {
            QueryOutcome::Busy
        } else {
            QueryOutcome::Failed
        },
{
    if status == 0 {
        QueryOutcome::Answered
    } else if status == busy_status {
        QueryOutcome::Busy
    } else {
        QueryOutcome::Failed
    }
}

/// Answers a residency request where the operating system cannot tell which
/// pages are resident: every page is reported resident.
pub fn get_resident(_buffer: usize, _length: usize, residency: &mut [bool])
    ensures
        final(residency)@.len() == old(residency)@.len(),
        forall|i: int| 0 <= i < final(residency)@.len() ==> final(residency)@[i],
{
    let count = residency.len();
    let mut index: usize = 0;
    while index < count
        invariant
            count == residency@.len(),
            residency@.len() == old(residency)@.len(),
            index <= count,
            forall|i: int| 0 <= i < index ==> residency@[i],
        decreases count - index,
    {
        residency[index] = true;
        index += 1;
    }
}

} // verus!
