//! The buffer over a mapped file: what it holds, which ranges lie in it, and
//! what it asks of the operating system.

use crate::backend::{
    advice_for, get_resident, prefetch, release_order, unmap_file, MapError, PlatformData,
    Release,
};
use crate::page::{
    is_page_size, lemma_cover_end, lemma_round_aligned, lemma_round_down, lemma_round_monotonic,
    lemma_round_up, round_down, round_up, round_up_to, AddressRange,
};
use crate::residency::{
    lemma_query_lies_in_cover, lemma_record_makes_progress, lemma_resident_answer_goes_on,
    lemma_scan_agrees_with_map, lemma_unstopped_scan_finds_all, resident_len_of, ResidencyScan,
    ScanModel, BATCH_PAGES,
};
use vstd::arithmetic::power2::is_pow2;
use vstd::prelude::*;

verus! {

/// Whether `length` bytes at `buffer` can be the mapping of a file in pages
/// of `page_size` bytes: the page size is a power of two, an empty file is
/// mapped nowhere and no other file is, the mapping starts on a page
/// boundary, and its pages lie in the address space together with the
/// address behind the last of them.
pub open spec fn is_mapping(page_size: int, buffer: int, length: int) -> bool {
    &&& is_pow2(page_size)
    &&& 0 <= buffer
    &&& 0 <= length
    &&& buffer == 0 <==> length == 0
    &&& buffer % page_size == 0
    &&& buffer + round_up(length, page_size) <= usize::MAX
}

/// A file buffer as mathematical values.
pub struct Mapping {
    /// The page size.
    pub page_size: int,
    /// The address of the first byte, or 0 where nothing is mapped.
    pub base: int,
    /// The number of bytes.
    pub len: int,
    /// What the mapping holds besides its view.
    pub platform_data: PlatformData,
}

impl Mapping {
    /// Whether these values describe a mapping.
    pub open spec fn wf(self) -> bool {
        is_mapping(self.page_size, self.base, self.len)
    }

    /// Whether the `length` bytes at `offset` lie in the buffer.
    pub open spec fn contains(self, offset: int, length: int) -> bool {
        0 <= offset && 0 <= length && offset + length <= self.len
    }

    /// The scan for the resident prefix of the `length` bytes at `offset`,
    /// at its start.
    pub open spec fn scan(self, offset: int, length: int) -> ScanModel {
        ScanModel {
            page_size: self.page_size,
            base: self.base,
            offset,
            length,
            checked: 0,
            resident: 0,
            stopped: false,
        }
    }

    /// The pages that a prefetch of the `length` bytes at `offset` names:
    /// the page-aligned cover of the range, or nothing where nothing is
    /// mapped.
    pub open spec fn advice(self, offset: int, length: int) -> Option<AddressRange> {
        advice_for(self.page_size, self.base, offset, length)
    }
}

/// A file mapped into memory, read-only.
#[derive(Debug)]
pub struct FileBuffer {
    page_size: usize,
    buffer: usize,
    length: usize,
    platform_data: PlatformData,
}

impl View for FileBuffer {
    type V = Mapping;

    closed spec fn view(&self) -> Mapping {
        Mapping {
            page_size: self.page_size as int,
            base: self.buffer as int,
            len: self.length as int,
            platform_data: self.platform_data,
        }
    }
}

/// What `try_slice` found.
#[derive(Clone, Copy, Debug, PartialEq, Eq)]
pub enum SliceStep<'a> {
    /// The range is resident: here are its bytes.
    Ready(&'a [u8]),
    /// The range is not resident yet: advise the operating system to load
    /// these pages, if any are named, and try again later.
    NotReady(Option<AddressRange>),
}

impl FileBuffer {
    /// Every file buffer is a mapping.
    #[verifier::type_invariant]
    pub open spec fn wf(&self) -> bool {
        self@.wf()
    }

    /// Makes the buffer over the `length` bytes that were mapped at `buffer`,
    /// in pages of `page_size` bytes. Values that do not describe a mapping
    /// are refused.
    pub fn open(page_size: usize, buffer: usize, length: usize, platform_data: PlatformData) -> (opened:
        Result<FileBuffer, MapError>)
        ensures
            opened.is_ok() == is_mapping(page_size as int, buffer as int, length as int),
            opened matches Ok(file_buffer) ==> file_buffer@ == (Mapping {
                page_size: page_size as int,
                base: buffer as int,
                len: length as int,
                platform_data,
            }),
            opened matches Err(error) ==> error == MapError::Invalid,
    {
        proof {
            reveal(is_pow2);
        }
        if !is_page_size(page_size) || (buffer == 0) != (length == 0) || buffer % page_size != 0 {
            return Err(MapError::Invalid);
        }
        proof {
            lemma_round_up(length as int, page_size as int);
            if buffer != 0 {
                vstd::arithmetic::div_mod::lemma_mod_is_zero(buffer as nat, page_size as nat);
            }
        }
        if length > usize::MAX - (page_size - 1) {
            return Err(MapError::Invalid);
        }
        let mapped = round_up_to(length, page_size);
        if mapped > usize::MAX - buffer {
            return Err(MapError::Invalid);
        }
        Ok(FileBuffer { page_size, buffer, length, platform_data })
    }

    /// The number of bytes in the buffer.
    pub fn len(&self) -> (length: usize)
        ensures
            length == self@.len,
    {
        self.length
    }

    /// Whether the buffer holds no byte.
    pub fn is_empty(&self) -> (empty: bool)
        ensures
            empty == (self@.len == 0),
    {
        self.length == 0
    }

    /// The address of the first byte, or 0 where nothing is mapped.
    pub fn address(&self) -> (address: usize)
        ensures
            address == self@.base,
    {
        self.buffer
    }

    /// What the mapping holds besides its view.
    pub fn platform_data(&self) -> (data: PlatformData)
        ensures
            data == self@.platform_data,
    {
        self.platform_data
    }

    /// Returns the system page size.
    ///
    /// Residency and prefetching work on whole pages, so this is a good
    /// length for the chunks in which a caller goes through the buffer.
    pub fn chunk_len_hint(&self) -> (page_size: usize)
        ensures
            page_size == self@.page_size,
            is_pow2(page_size as int),
    {
        proof {
            use_type_invariant(self);
        }
        self.page_size
    }

    /// Whether the `length` bytes at `offset` lie in the buffer.
    pub fn contains(&self, offset: usize, length: usize) -> (inside: bool)
        ensures
            inside == self@.contains(offset as int, length as int),
    {
        offset <= self.length && length <= self.length - offset
    }

    /// Starts a scan for the resident prefix of the `length` bytes at
    /// `offset`. The caller asks the operating system each query of the scan
    /// and hands the answer back to it.
    pub fn scan(&self, offset: usize, length: usize) -> (scan: ResidencyScan)
        requires
            self@.contains(offset as int, length as int),
        ensures
            scan@ == self@.scan(offset as int, length as int),
    {
        proof {
            use_type_invariant(self);
            reveal(is_pow2);
            lemma_round_monotonic(offset + length, self.length as int, self.page_size as int);
        }
        ResidencyScan::new(self.page_size, self.buffer, offset, length)
    }

    /// Returns the number of bytes resident in physical memory, starting from
    /// `offset`, where `residency[i]` tells whether page `i` of the
    /// page-aligned cover of the range is resident. A page without a flag
    /// counts as not resident.
    ///
    /// The returned resident length is at most `length`.
    pub fn resident_len(&self, offset: usize, length: usize, residency: &[bool]) -> (resident: usize)
        requires
            self@.contains(offset as int, length as int),
        ensures
            resident == resident_len_of(
                self@.page_size,
                offset as int,
                length as int,
                residency@,
            ),
            resident <= length,
    {
        let mut scan = self.scan(offset, length);
        proof {
            use_type_invariant(self);
            reveal(is_pow2);
            lemma_scan_agrees_with_map(scan@, residency@);
        }
        scan.run(residency);
        scan.resident_len()
    }

    /// Returns the resident length of the `length` bytes at `offset` where the
    /// operating system cannot tell which pages are resident. Each query of
    /// the scan is then answered by `get_resident`, which reports every page
    /// resident, so the whole range counts as resident.
    pub fn optimistic_resident_len(&self, offset: usize, length: usize) -> (resident: usize)
        requires
            self@.contains(offset as int, length as int),
        ensures
            resident == length,
    {
        let mut residency = [false; BATCH_PAGES];
        let mut scan = self.scan(offset, length);
        loop
            invariant
                scan@.length == length,
                !scan@.stopped,
            ensures
                scan@.length == length,
                !scan@.stopped,
                scan@.pending() == 0,
            decreases scan@.remaining(),
        {
            proof {
                use_type_invariant(&scan);
            }
            match scan.next_query() {
                None => {
                    break;
                },
                Some(query) => {
                    get_resident(query.address, query.length, &mut residency);
                    proof {
                        lemma_resident_answer_goes_on(scan@, residency@);
                        lemma_record_makes_progress(scan@, residency@);
                    }
                    scan.record(&residency);
                },
            }
        }
        proof {
            use_type_invariant(&scan);
            lemma_unstopped_scan_finds_all(scan@);
        }
        scan.resident_len()
    }

    /// Names the pages that the kernel is to be advised to make resident for
    /// the `length` bytes at `offset`: the page-aligned cover of the range.
    /// There is nothing to advise where nothing is mapped.
    pub fn prefetch(&self, offset: usize, length: usize) -> (advice: Option<AddressRange>)
        requires
            self@.contains(offset as int, length as int),
        ensures
            advice == self@.advice(offset as int, length as int),
    {
        proof {
            use_type_invariant(self);
            reveal(is_pow2);
            lemma_round_monotonic(offset + length, self.length as int, self.page_size as int);
        }
        prefetch(self.page_size, self.buffer, offset, length)
    }

    /// Hands out the `length` bytes at `offset` of `bytes`, the bytes of the
    /// buffer, if `resident`, the resident length of that range, says that
    /// all of it is resident. If not, names the pages to prefetch instead.
    pub fn try_slice<'a>(&self, bytes: &'a [u8], offset: usize, length: usize, resident: usize) -> (step:
        SliceStep<'a>)
        requires
            self@.contains(offset as int, length as int),
            bytes@.len() == self@.len,
        ensures
            resident == length ==> (step matches SliceStep::Ready(slice) && slice@
                == bytes@.subrange(offset as int, offset + length)),
            resident != length ==> step == SliceStep::NotReady(
                self@.advice(offset as int, length as int),
            ),
    {
        if resident == length {
            SliceStep::Ready(vstd::slice::slice_subrange(bytes, offset, offset + length))
        } else {
            SliceStep::NotReady(self.prefetch(offset, length))
        }
    }

    /// Leaks the bytes of the buffer: returns where they are and takes them
    /// out of the buffer, which from now on holds no byte and will not have
    /// them unmapped. What else the mapping holds stays with the buffer.
    pub fn leak(&mut self) -> (bytes: AddressRange)
        ensures
            bytes.address == old(self)@.base,
            bytes.length == old(self)@.len,
            final(self)@ == (Mapping { base: 0, len: 0, ..old(self)@ }),
    {
        proof {
            use_type_invariant(&*self);
            reveal(is_pow2);
            lemma_round_up(0, self.page_size as int);
        }
        let bytes = AddressRange { address: self.buffer, length: self.length };
        *self = FileBuffer { buffer: 0, length: 0, ..*self };
        bytes
    }

    /// Ends the mapping: lists what is to be given back to the operating
    /// system, in order, and takes all of it out of the buffer, so that
    /// nothing is given back twice.
    pub fn release(&mut self) -> (steps: Vec<Release>)
        ensures
            steps@ == release_order(
                old(self)@.base as usize,
                old(self)@.len as usize,
                old(self)@.platform_data,
            ),
            final(self)@ == (Mapping {
                base: 0,
                len: 0,
                platform_data: PlatformData { mapping_handle: 0, holds_file: false },
                ..old(self)@
            }),
    {
        proof {
            use_type_invariant(&*self);
            reveal(is_pow2);
            lemma_round_up(0, self.page_size as int);
        }
        let steps = unmap_file(self.buffer, self.length, self.platform_data);
        *self = FileBuffer {
            buffer: 0,
            length: 0,
            platform_data: PlatformData { mapping_handle: 0, holds_file: false },
            ..*self
        };
        steps
    }
}

/// An empty file, which is mapped nowhere, makes a file buffer under every
/// page size.
pub proof fn lemma_empty_file_is_mapping(page_size: int)
    requires
        is_pow2(page_size),
    ensures
        is_mapping(page_size, 0, 0),
{
    reveal(is_pow2);
    lemma_round_aligned(0, page_size);
}

/// Where nothing is mapped, only the empty range at the start lies in the
/// buffer; none of it is resident, no page is asked about and none is
/// advised.
pub proof fn lemma_empty_mapping(mapping: Mapping, offset: int, length: int, flags: Seq<bool>)
    requires
        mapping.wf(),
        mapping.base == 0,
        mapping.contains(offset, length),
    ensures
        mapping.len == 0,
        offset == 0,
        length == 0,
        resident_len_of(mapping.page_size, offset, length, flags) == 0,
        mapping.advice(offset, length).is_none(),
        mapping.scan(offset, length).pending() == 0,
{
    reveal(is_pow2);
    lemma_round_aligned(0, mapping.page_size);
}

/// The advice for a range of a mapping names whole pages of the mapping
/// that hold every byte of the range.
pub proof fn lemma_advice_covers_range(mapping: Mapping, offset: int, length: int)
    requires
        mapping.wf(),
        mapping.base != 0,
        mapping.contains(offset, length),
    ensures
        mapping.advice(offset, length) matches Some(advice) && {
            &&& advice.address == mapping.base + round_down(offset, mapping.page_size)
            &&& advice.address + advice.length == mapping.base + round_up(
                offset + length,
                mapping.page_size,
            )
            &&& advice.address as int % mapping.page_size == 0
            &&& advice.length as int % mapping.page_size == 0
            &&& mapping.base <= advice.address <= mapping.base + offset
            &&& mapping.base + offset + length <= advice.address + advice.length
            &&& advice.address + advice.length <= mapping.base + round_up(
                mapping.len,
                mapping.page_size,
            )
        },
{
    reveal(is_pow2);
    let page_size = mapping.page_size;
    let aligned_offset = round_down(offset, page_size);
    lemma_round_down(offset, page_size);
    lemma_round_up(length + (offset - aligned_offset), page_size);
    lemma_cover_end(offset, length, page_size);
    lemma_round_up(offset + length, page_size);
    lemma_round_monotonic(offset + length, mapping.len, page_size);
    vstd::arithmetic::div_mod::lemma_fundamental_div_mod(mapping.base, page_size);
    vstd::arithmetic::div_mod::lemma_mod_multiples_vanish(
        mapping.base / page_size,
        aligned_offset,
        page_size,
    );
}

/// A prefetch names the very pages that a scan of the same range asks
/// about: both work on the page-aligned cover of the range.
pub proof fn lemma_advice_is_scanned_cover(mapping: Mapping, offset: int, length: int)
    requires
        mapping.wf(),
        mapping.base != 0,
        mapping.contains(offset, length),
    ensures
        mapping.advice(offset, length) matches Some(advice) && {
            &&& advice.address == mapping.scan(offset, length).query_address()
            &&& advice.length == mapping.scan(offset, length).pages() * mapping.page_size
        },
{
    reveal(is_pow2);
    let page_size = mapping.page_size;
    let span = length + (offset - round_down(offset, page_size));
    lemma_advice_covers_range(mapping, offset, length);
    lemma_cover_end(offset, length, page_size);
    lemma_round_up(span, page_size);
    vstd::arithmetic::div_mod::lemma_fundamental_div_mod(round_up(span, page_size), page_size);
    assert(mapping.scan(offset, length).pages() * page_size == page_size * mapping.scan(
        offset,
        length,
    ).pages()) by (nonlinear_arith);
    assert(0 * page_size == 0);
}

/// Every query of a scan of a range of a mapping names whole pages of the
/// mapping.
pub proof fn lemma_query_lies_in_mapping(mapping: Mapping, scan: ScanModel)
    requires
        mapping.wf(),
        scan.valid(),
        scan.page_size == mapping.page_size,
        scan.base == mapping.base,
        mapping.contains(scan.offset, scan.length),
        scan.pending() > 0,
    ensures
        mapping.base != 0,
        scan.query_address() % mapping.page_size == 0,
        mapping.base <= scan.query_address(),
        scan.query_address() + scan.pending() * scan.page_size <= mapping.base + round_up(
            mapping.len,
            mapping.page_size,
        ),
{
    reveal(is_pow2);
    lemma_query_lies_in_cover(scan);
    lemma_round_down(scan.offset, scan.page_size);
    lemma_round_monotonic(scan.offset + scan.length, mapping.len, mapping.page_size);
    if mapping.base == 0 {
        lemma_empty_mapping(mapping, scan.offset, scan.length, Seq::empty());
    }
}

/// A buffer that was released, or whose bytes were leaked, has no view left
/// to unmap; and a buffer that was released has nothing left to give back.
pub proof fn lemma_released_once(length: usize, platform_data: PlatformData)
    ensures
        forall|i: int|
            0 <= i < release_order(0, length, platform_data).len() ==> !(#[trigger] release_order(
                0,
                length,
                platform_data,
            )[i] is View),
        release_order(0, length, PlatformData { mapping_handle: 0, holds_file: false }).len() == 0,
{
}

} // verus!
