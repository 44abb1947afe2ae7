//! The resident prefix of a range of pages, found in bounded batches.

use crate::page::{
    cover_fits, cover_pages, lemma_cover_end, lemma_round_down, lemma_round_up, round_down,
    round_down_to, round_up, round_up_to, AddressRange,
};
use vstd::arithmetic::power2::is_pow2;
use vstd::prelude::*;

verus! {

/// The most pages whose residency is asked for in one request.
pub const BATCH_PAGES: usize = 32;

/// The number of leading resident pages among the first `limit` pages, where
/// `flags[i]` tells whether page `i` is resident and a page without a flag
/// counts as not resident.
pub open spec fn resident_prefix(flags: Seq<bool>, limit: int) -> int
    decreases limit,
{
    if limit <= 0 {
        0
    } else {
        let before = resident_prefix(flags, limit - 1);
        if before == limit - 1 && limit <= flags.len() && flags[limit - 1] {
            limit
        } else {
            before
        }
    }
}

/// The resident prefix ends at the first page that is not resident.
pub proof fn lemma_resident_prefix(flags: Seq<bool>, limit: int)
    ensures
        0 <= resident_prefix(flags, limit),
        resident_prefix(flags, limit) <= limit || limit < 0,
        resident_prefix(flags, limit) <= flags.len(),
        forall|i: int| 0 <= i < resident_prefix(flags, limit) ==> flags[i],
        resident_prefix(flags, limit) < limit && resident_prefix(flags, limit) < flags.len()
            ==> !flags[resident_prefix(flags, limit)],
    decreases limit,
{
    if limit > 0 {
        lemma_resident_prefix(flags, limit - 1);
    }
}

/// A count of leading resident pages that stops at a page that is not
/// resident, at the last flag or at the limit is the resident prefix.
pub proof fn lemma_resident_prefix_unique(flags: Seq<bool>, limit: int, count: int)
    requires
        0 <= count <= limit,
        count <= flags.len(),
        forall|i: int| 0 <= i < count ==> flags[i],
        count < limit && count < flags.len() ==> !flags[count],
    ensures
        resident_prefix(flags, limit) == count,
    decreases limit,
{
    if limit > 0 {
        if count == limit {
            lemma_resident_prefix_unique(flags, limit - 1, count - 1);
        } else {
            lemma_resident_prefix_unique(flags, limit - 1, count);
        }
    }
}

/// The flags of the pages from page `start` on.
pub open spec fn flags_from(flags: Seq<bool>, start: int) -> Seq<bool> {
    if 0 <= start <= flags.len() {
        flags.skip(start)
    } else {
        Seq::empty()
    }
}

/// The number of bytes at the start of the `length` bytes at `offset` that
/// are resident, where `flags[i]` tells whether page `i` of the page-aligned
/// cover of the range is resident: the resident pages at the start of the
/// cover, without the slack before the range, and no more than `length`.
pub open spec fn resident_len_of(page_size: int, offset: int, length: int, flags: Seq<bool>) -> int {
    let slack = offset - round_down(offset, page_size);
    let pages = cover_pages(page_size, offset, length);
    let bytes = resident_prefix(flags, pages) * page_size - slack;
    if bytes < 0 {
        0
    } else if bytes > length {
        length
    } else {
        bytes
    }
}

/// The page of the cover of the range at `offset` that holds the byte at
/// `position`, both in bytes from the start of the mapping.
pub open spec fn page_of(page_size: int, offset: int, position: int) -> int {
    (position - round_down(offset, page_size)) / page_size
}

/// The state of a scan as mathematical values.
pub struct ScanModel {
    /// The page size.
    pub page_size: int,
    /// The address at which the mapping starts.
    pub base: int,
    /// Where the range starts, in bytes from the start of the mapping.
    pub offset: int,
    /// The number of bytes in the range.
    pub length: int,
    /// The pages of whole batches found resident so far.
    pub checked: int,
    /// The length of the resident prefix found so far, in pages.
    pub resident: int,
    /// Whether a page that is not resident has been met.
    pub stopped: bool,
}

impl ScanModel {
    /// Where the page-aligned cover of the range starts.
    pub open spec fn aligned_offset(self) -> int {
        round_down(self.offset, self.page_size)
    }

    /// The bytes between the start of the cover and the start of the range.
    pub open spec fn slack(self) -> int {
        self.offset - self.aligned_offset()
    }

    /// The number of pages in the cover.
    pub open spec fn pages(self) -> int {
        cover_pages(self.page_size, self.offset, self.length)
    }

    /// The number of pages in the next batch; 0 when the scan has ended.
    pub open spec fn pending(self) -> int {
        if self.stopped {
            0
        } else if self.pages() - self.checked < BATCH_PAGES {
            self.pages() - self.checked
        } else {
            BATCH_PAGES as int
        }
    }

    /// The address of the first page of the next batch.
    pub open spec fn query_address(self) -> int {
        self.base + self.aligned_offset() + self.checked * self.page_size
    }

    /// The state after the flags of the pending batch have come in: `flags[i]`
    /// tells whether page `i` of the batch is resident.
    pub open spec fn record(self, flags: Seq<bool>) -> ScanModel {
        let found = resident_prefix(flags, self.pending());
        if found < self.pending() {
            ScanModel { resident: self.resident + found, stopped: true, ..self }
        } else {
            ScanModel {
                checked: self.checked + self.pending(),
                resident: self.resident + self.pending(),
                ..self
            }
        }
    }

    /// Whether a scan can be in this state: the cover of its range fits the
    /// address space, whole batches were found resident up to `checked`, and
    /// the resident prefix ends there or, if the scan has stopped, in the
    /// batch behind.
    pub open spec fn valid(self) -> bool {
        &&& cover_fits(self.page_size, self.base, self.offset, self.length)
        &&& 0 <= self.offset
        &&& 0 <= self.length
        &&& 0 <= self.checked <= self.pages()
        &&& !self.stopped ==> self.resident == self.checked
        &&& self.stopped ==> self.checked <= self.resident < self.pages()
    }

    /// A bound on the number of queries that the scan still asks: the pages
    /// of the cover that lie behind the batches found resident, while a
    /// query is pending.
    pub open spec fn remaining(self) -> int {
        if self.pending() > 0 {
            self.pages() - self.checked
        } else {
            0
        }
    }

    /// The state in which the scan ends when every query is answered from
    /// `flags`, the residency of the pages of the whole cover.
    pub open spec fn run(self, flags: Seq<bool>) -> ScanModel
        decreases self.remaining(),
    {
        if self.pending() > 0 {
            self.record(flags_from(flags, self.checked)).run(flags)
        } else {
            self
        }
    }

    /// The resident bytes of the range that the scan has found so far: the
    /// resident pages without the slack before the range, and no more than
    /// the range holds.
    pub open spec fn resident_len(self) -> int {
        let bytes = self.resident * self.page_size - self.slack();
        if bytes < 0 {
            0
        } else if bytes > self.length {
            self.length
        } else {
            bytes
        }
    }
}

/// A scan for the resident prefix of a byte range of a mapping. It asks for
/// the residency of at most `BATCH_PAGES` pages at a time and ends at the
/// first page that is not resident.
#[derive(Debug)]
pub struct ResidencyScan {
    page_size: usize,
    base: usize,
    offset: usize,
    length: usize,
    aligned_offset: usize,
    num_pages: usize,
    pages_checked: usize,
    pages_resident: usize,
    stopped: bool,
}

impl View for ResidencyScan {
    type V = ScanModel;

    closed spec fn view(&self) -> ScanModel {
        ScanModel {
            page_size: self.page_size as int,
            base: self.base as int,
            offset: self.offset as int,
            length: self.length as int,
            checked: self.pages_checked as int,
            resident: self.pages_resident as int,
            stopped: self.stopped,
        }
    }
}

impl ResidencyScan {
    /// Every scan is in a valid state, and knows the cover of its range.
    #[verifier::type_invariant]
    pub open spec fn wf(&self) -> bool {
        self@.valid() && self.knows_cover()
    }

    /// Whether the scan holds the start of the cover of its range and the
    /// number of its pages.
    pub closed spec fn knows_cover(&self) -> bool {
        &&& self.aligned_offset == self@.aligned_offset()
        &&& self.num_pages == self@.pages()
        &&& self.num_pages * self.page_size == round_up(
            self.length + self@.slack(),
            self.page_size as int,
        )
    }

    /// Starts a scan of the `length` bytes at `offset` of a mapping at `base`,
    /// whose page-aligned cover fits the address space.
    pub fn new(page_size: usize, base: usize, offset: usize, length: usize) -> (scan: Self)
        requires
            cover_fits(page_size as int, base as int, offset as int, length as int),
        ensures
            scan@ == (ScanModel {
                page_size: page_size as int,
                base: base as int,
                offset: offset as int,
                length: length as int,
                checked: 0,
                resident: 0,
                stopped: false,
            }),
    {
        proof {
            reveal(is_pow2);
            lemma_round_down(offset as int, page_size as int);
            lemma_cover_end(offset as int, length as int, page_size as int);
            lemma_round_up(offset + length, page_size as int);
            if base != 0 {
                vstd::arithmetic::div_mod::lemma_mod_is_zero(base as nat, page_size as nat);
            }
        }
        let aligned_offset = round_down_to(offset, page_size);
        let aligned_length = round_up_to(length + (offset - aligned_offset), page_size);
        let num_pages = aligned_length / page_size;
        proof {
            vstd::arithmetic::div_mod::lemma_fundamental_div_mod(aligned_length as int, page_size as int);
            assert(num_pages * page_size == aligned_length) by (nonlinear_arith)
                requires
                    aligned_length == page_size * (aligned_length / page_size) + aligned_length % page_size,
                    aligned_length % page_size == 0,
                    num_pages == aligned_length / page_size,
            ;
        }
        ResidencyScan {
            page_size,
            base,
            offset,
            length,
            aligned_offset,
            num_pages,
            pages_checked: 0,
            pages_resident: 0,
            stopped: false,
        }
    }

    /// The number of pages in the next batch.
    fn pending(&self) -> (pages: usize)
        ensures
            pages == self@.pending(),
            pages <= BATCH_PAGES,
            self.wf(),
    {
        proof {
            use_type_invariant(self);
        }
        if self.stopped {
            0
        } else if self.num_pages - self.pages_checked < BATCH_PAGES {
            self.num_pages - self.pages_checked
        } else {
            BATCH_PAGES
        }
    }

    /// Whether the scan has ended: at a page that is not resident, or behind
    /// the last page of the cover.
    pub fn is_finished(&self) -> (finished: bool)
        ensures
            finished == (self@.pending() == 0),
    {
        self.pending() == 0
    }

    /// The pages whose residency the scan needs next, or `None` when it has
    /// ended. The span starts on a page boundary and holds the pending batch,
    /// which is at most `BATCH_PAGES` pages.
    pub fn next_query(&self) -> (query: Option<AddressRange>)
        ensures
            query.is_some() == (self@.pending() > 0),
            query matches Some(span) ==> {
                &&& span.address == self@.query_address()
                &&& span.length == self@.pending() * self@.page_size
                &&& span.address as int % self@.page_size == 0
                &&& 0 < self@.pending() <= BATCH_PAGES
            },
    {
        let pending = self.pending();
        if pending == 0 {
            return None;
        }
        proof {
            reveal(is_pow2);
            lemma_query_lies_in_cover(self@);
            lemma_span_in_cover(
                self.page_size as int,
                self.num_pages as int,
                self.pages_checked as int,
                pending as int,
            );
            lemma_round_down(self.offset as int, self.page_size as int);
            lemma_cover_end(self.offset as int, self.length as int, self.page_size as int);
        }
        let address = self.base + self.aligned_offset + self.pages_checked * self.page_size;
        Some(AddressRange { address, length: pending * self.page_size })
    }

    /// Takes in the answer to the pending query: `residency[i]` tells whether
    /// page `i` of the queried span is resident. A page without a flag counts
    /// as not resident, and flags behind the batch are not read. Where no
    /// query is pending, the scan stays as it is.
    pub fn record(&mut self, residency: &[bool])
        ensures
            final(self)@ == old(self)@.record(residency@),
    {
        let pending = self.pending();
        let mut found: usize = 0;
        while found < pending && found < residency.len() && residency[found]
            invariant
                found <= pending,
                found <= residency@.len(),
                forall|i: int| 0 <= i < found ==> residency@[i],
            decreases pending - found,
        {
            found += 1;
        }
        proof {
            lemma_resident_prefix_unique(residency@, pending as int, found as int);
        }
        if found < pending {
            *self = ResidencyScan {
                pages_resident: self.pages_resident + found,
                stopped: true,
                ..*self
            };
        } else {
            *self = ResidencyScan {
                pages_checked: self.pages_checked + pending,
                pages_resident: self.pages_resident + pending,
                ..*self
            };
        }
    }

    /// Answers every query that is left from `residency`, the residency of
    /// the pages of the whole cover, batch after batch.
    pub fn run(&mut self, residency: &[bool])
        ensures
            final(self)@ == old(self)@.run(residency@),
    {
        while !self.is_finished()
            invariant
                self@.run(residency@) == old(self)@.run(residency@),
            decreases self@.remaining(),
        {
            let from = if self.pages_checked < residency.len() {
                self.pages_checked
            } else {
                residency.len()
            };
            let rest = vstd::slice::slice_subrange(residency, from, residency.len());
            assert(rest@ =~= flags_from(residency@, self@.checked));
            proof {
                use_type_invariant(&*self);
            }
            self.record(rest);
        }
    }

    /// The number of bytes at the start of the range that the scan has found
    /// resident so far. It is at most the length of the range.
    pub fn resident_len(&self) -> (bytes: usize)
        ensures
            bytes == self@.resident_len(),
            bytes <= self@.length,
    {
        proof {
            use_type_invariant(self);
            reveal(is_pow2);
            lemma_round_down(self.offset as int, self.page_size as int);
            lemma_cover_end(self.offset as int, self.length as int, self.page_size as int);
            lemma_span_in_cover(
                self.page_size as int,
                self.num_pages as int,
                self.pages_resident as int,
                0,
            );
        }
        let slack = self.offset - self.aligned_offset;
        let resident_bytes = self.pages_resident * self.page_size;
        if resident_bytes <= slack {
            0
        } else if resident_bytes - slack > self.length {
            self.length
        } else {
            resident_bytes - slack
        }
    }
}

// Laws of the resident prefix and of the resident length.

/// Once the resident prefix has ended below a limit, it is the same under
/// every greater limit.
pub proof fn lemma_resident_prefix_ends(flags: Seq<bool>, limit: int, greater: int)
    requires
        resident_prefix(flags, limit) < limit <= greater,
    ensures
        resident_prefix(flags, greater) == resident_prefix(flags, limit),
{
    lemma_resident_prefix(flags, limit);
    lemma_resident_prefix_unique(flags, greater, resident_prefix(flags, limit));
}

/// Behind `start` resident pages, the resident prefix goes on with the
/// resident prefix of the pages that follow.
pub proof fn lemma_resident_prefix_split(flags: Seq<bool>, start: int, limit: int)
    requires
        0 <= start,
        0 <= limit,
        resident_prefix(flags, start) == start,
    ensures
        resident_prefix(flags, start + limit) == start + resident_prefix(
            flags_from(flags, start),
            limit,
        ),
{
    let rest = flags_from(flags, start);
    let found = resident_prefix(rest, limit);
    lemma_resident_prefix(flags, start);
    lemma_resident_prefix(rest, limit);
    assert forall|i: int| 0 <= i < start + found implies flags[i] by {
        if i >= start {
            assert(rest[i - start]);
        }
    }
    lemma_resident_prefix_unique(flags, start + limit, start + found);
}

/// The resident length is at most the length of the range.
pub proof fn lemma_resident_len_bounds(page_size: int, offset: int, length: int, flags: Seq<bool>)
    requires
        0 <= length,
    ensures
        0 <= resident_len_of(page_size, offset, length, flags) <= length,
{
}

/// Every byte that the resident length counts lies on a page that is
/// reported resident.
pub proof fn lemma_resident_bytes_are_resident(
    page_size: int,
    offset: int,
    length: int,
    flags: Seq<bool>,
    index: int,
)
    requires
        page_size > 0,
        0 <= offset,
        0 <= index < resident_len_of(page_size, offset, length, flags),
    ensures
        0 <= page_of(page_size, offset, offset + index) < flags.len(),
        flags[page_of(page_size, offset, offset + index)],
{
    let slack = offset - round_down(offset, page_size);
    let pages = round_up(length + slack, page_size) / page_size;
    let found = resident_prefix(flags, pages);
    lemma_round_down(offset, page_size);
    lemma_resident_prefix(flags, pages);
    assert(slack + index < page_size * found) by (nonlinear_arith)
        requires
            slack + index < found * page_size,
    ;
    vstd::arithmetic::div_mod::lemma_multiply_divide_lt(slack + index, page_size, found);
    vstd::arithmetic::div_mod::lemma_div_pos_is_pos(slack + index, page_size);
}

/// Where the resident length is less than the length of the range, the
/// byte behind it lies on the first page that is not reported resident.
pub proof fn lemma_resident_len_ends_at_absent_page(
    page_size: int,
    offset: int,
    length: int,
    flags: Seq<bool>,
)
    requires
        page_size > 0,
        0 <= offset,
        0 <= length,
        resident_len_of(page_size, offset, length, flags) < length,
    ensures
        ({
            let resident = resident_len_of(page_size, offset, length, flags);
            let page = page_of(page_size, offset, offset + resident);
            &&& 0 <= page
            &&& forall|i: int| 0 <= i < page ==> i < flags.len() && flags[i]
            &&& page >= flags.len() || !flags[page]
        }),
{
    let slack = offset - round_down(offset, page_size);
    let cover = round_up(length + slack, page_size);
    let pages = cover / page_size;
    let found = resident_prefix(flags, pages);
    let resident = resident_len_of(page_size, offset, length, flags);
    lemma_round_down(offset, page_size);
    lemma_round_up(length + slack, page_size);
    lemma_resident_prefix(flags, pages);
    vstd::arithmetic::div_mod::lemma_fundamental_div_mod(cover, page_size);
    if found * page_size - slack < 0 {
        if found >= 1 {
            assert(found * page_size >= page_size) by (nonlinear_arith)
                requires
                    found >= 1,
                    page_size > 0,
            ;
        }
        vstd::arithmetic::div_mod::lemma_small_mod(slack as nat, page_size as nat);
        vstd::arithmetic::div_mod::lemma_fundamental_div_mod(slack, page_size);
        assert(page_size * (slack / page_size) == 0);
        assert(slack / page_size == 0) by (nonlinear_arith)
            requires
                page_size > 0,
                page_size * (slack / page_size) == 0,
        ;
    } else {
        assert(slack + resident == page_size * found) by (nonlinear_arith)
            requires
                slack + resident == found * page_size,
        ;
        vstd::arithmetic::div_mod::lemma_div_multiples_vanish(found, page_size);
    }
    assert(page_of(page_size, offset, offset + resident) == found);
    if found >= pages {
        assert(found * page_size >= pages * page_size) by (nonlinear_arith)
            requires
                found >= pages,
                page_size > 0,
        ;
        assert(pages * page_size == page_size * pages) by (nonlinear_arith);
    }
}

/// Where every page of the cover is reported resident, the whole range is
/// resident.
pub proof fn lemma_all_resident(page_size: int, offset: int, length: int, flags: Seq<bool>)
    requires
        page_size > 0,
        0 <= offset,
        0 <= length,
        forall|page: int|
            0 <= page < cover_pages(page_size, offset, length) ==> page < flags.len()
                && flags[page],
    ensures
        resident_len_of(page_size, offset, length, flags) == length,
{
    let slack = offset - round_down(offset, page_size);
    let cover = round_up(length + slack, page_size);
    let pages = cover_pages(page_size, offset, length);
    lemma_round_down(offset, page_size);
    lemma_round_up(length + slack, page_size);
    vstd::arithmetic::div_mod::lemma_fundamental_div_mod(cover, page_size);
    vstd::arithmetic::div_mod::lemma_div_pos_is_pos(cover, page_size);
    if pages > 0 {
        assert(flags[pages - 1]);
    }
    lemma_resident_prefix_unique(flags, pages, pages);
    assert(pages * page_size == page_size * pages) by (nonlinear_arith);
}

/// A range that holds a byte is resident as a whole only if every page of
/// its cover is reported resident.
pub proof fn lemma_resident_as_a_whole(page_size: int, offset: int, length: int, flags: Seq<bool>)
    requires
        page_size > 0,
        0 <= offset,
        0 < length,
        resident_len_of(page_size, offset, length, flags) == length,
    ensures
        forall|page: int|
            0 <= page < cover_pages(page_size, offset, length) ==> page < flags.len()
                && flags[page],
{
    let slack = offset - round_down(offset, page_size);
    let cover = round_up(length + slack, page_size);
    let pages = cover_pages(page_size, offset, length);
    let found = resident_prefix(flags, pages);
    lemma_round_down(offset, page_size);
    lemma_round_up(length + slack, page_size);
    lemma_resident_prefix(flags, pages);
    vstd::arithmetic::div_mod::lemma_fundamental_div_mod(cover, page_size);
    assert(pages <= found) by (nonlinear_arith)
        requires
            page_size > 0,
            page_size * pages == cover,
            cover < length + slack + page_size,
            found * page_size - slack >= length,
    ;
}

// Laws of scans.

/// A scan whose checked pages are all resident in `flags`, run on with
/// answers from `flags`, ends with the resident prefix of the whole cover.
pub proof fn lemma_run_finds_resident_prefix(scan: ScanModel, flags: Seq<bool>)
    requires
        0 <= scan.checked <= scan.pages(),
        !scan.stopped,
        scan.resident == scan.checked,
        resident_prefix(flags, scan.checked) == scan.checked,
    ensures
        scan.run(flags).pending() == 0,
        scan.run(flags).resident == resident_prefix(flags, scan.pages()),
        scan.run(flags) == (ScanModel {
            checked: scan.run(flags).checked,
            resident: scan.run(flags).resident,
            stopped: scan.run(flags).stopped,
            ..scan
        }),
    decreases scan.remaining(),
{
    let pending = scan.pending();
    if pending > 0 {
        let found = resident_prefix(flags_from(flags, scan.checked), pending);
        lemma_resident_prefix_split(flags, scan.checked, pending);
        let next = scan.record(flags_from(flags, scan.checked));
        assert(next.pages() == scan.pages());
        if found < pending {
            lemma_resident_prefix_ends(flags, scan.checked + pending, scan.pages());
            assert(next.run(flags) == next);
        } else {
            lemma_resident_prefix(flags_from(flags, scan.checked), pending);
            lemma_run_finds_resident_prefix(next, flags);
        }
    }
}

/// A scan from its start, with every query answered from one residency map
/// of the cover, finds what `resident_len_of` states of that map.
pub proof fn lemma_scan_agrees_with_map(scan: ScanModel, flags: Seq<bool>)
    requires
        scan.page_size > 0,
        0 <= scan.offset,
        0 <= scan.length,
        scan.checked == 0,
        scan.resident == 0,
        !scan.stopped,
    ensures
        scan.run(flags).pending() == 0,
        scan.run(flags).resident_len() == resident_len_of(
            scan.page_size,
            scan.offset,
            scan.length,
            flags,
        ),
{
    lemma_round_down(scan.offset, scan.page_size);
    lemma_round_up(scan.length + scan.slack(), scan.page_size);
    vstd::arithmetic::div_mod::lemma_div_pos_is_pos(
        round_up(scan.length + scan.slack(), scan.page_size),
        scan.page_size,
    );
    lemma_run_finds_resident_prefix(scan, flags);
}

/// An answer that reports every page of the pending batch resident does not
/// stop the scan.
pub proof fn lemma_resident_answer_goes_on(scan: ScanModel, flags: Seq<bool>)
    requires
        scan.valid(),
        !scan.stopped,
        flags.len() >= scan.pending(),
        forall|i: int| 0 <= i < flags.len() ==> flags[i],
    ensures
        !scan.record(flags).stopped,
{
    lemma_resident_prefix_unique(flags, scan.pending(), scan.pending());
}

/// A scan that has ended without meeting a page that is not resident has
/// found the whole range resident.
pub proof fn lemma_unstopped_scan_finds_all(scan: ScanModel)
    requires
        scan.valid(),
        !scan.stopped,
        scan.pending() == 0,
    ensures
        scan.resident_len() == scan.length,
{
    reveal(is_pow2);
    let cover = round_up(scan.length + scan.slack(), scan.page_size);
    lemma_round_down(scan.offset, scan.page_size);
    lemma_round_up(scan.length + scan.slack(), scan.page_size);
    vstd::arithmetic::div_mod::lemma_fundamental_div_mod(cover, scan.page_size);
    assert(scan.pages() * scan.page_size == scan.page_size * scan.pages()) by (nonlinear_arith);
}

/// Each answer to a pending query brings a scan nearer to its end, so a scan
/// asks no more queries than its cover has pages.
pub proof fn lemma_record_makes_progress(scan: ScanModel, flags: Seq<bool>)
    requires
        scan.valid(),
        scan.pending() > 0,
    ensures
        scan.record(flags).valid(),
        0 <= scan.record(flags).remaining() < scan.remaining() <= scan.pages(),
{
    lemma_resident_prefix(flags, scan.pending());
}

/// Each query of a scan names whole pages of the cover of its range: it
/// starts on a page boundary, and it lies between the start of the cover and
/// its end.
pub proof fn lemma_query_lies_in_cover(scan: ScanModel)
    requires
        scan.valid(),
        scan.pending() > 0,
    ensures
        scan.query_address() % scan.page_size == 0,
        scan.base + scan.aligned_offset() <= scan.query_address(),
        scan.query_address() + scan.pending() * scan.page_size <= scan.base + round_up(
            scan.offset + scan.length,
            scan.page_size,
        ),
        scan.query_address() + scan.pending() * scan.page_size <= usize::MAX,
{
    reveal(is_pow2);
    let cover = round_up(scan.length + scan.slack(), scan.page_size);
    lemma_round_down(scan.offset, scan.page_size);
    lemma_round_up(scan.length + scan.slack(), scan.page_size);
    lemma_cover_end(scan.offset, scan.length, scan.page_size);
    vstd::arithmetic::div_mod::lemma_fundamental_div_mod(cover, scan.page_size);
    assert(scan.pages() * scan.page_size == scan.page_size * scan.pages()) by (nonlinear_arith);
    lemma_span_in_cover(scan.page_size, scan.pages(), scan.checked, scan.pending());
    vstd::arithmetic::div_mod::lemma_mod_multiples_vanish(
        scan.checked,
        scan.base + scan.aligned_offset(),
        scan.page_size,
    );
    assert(scan.page_size * scan.checked == scan.checked * scan.page_size) by (nonlinear_arith);
    vstd::arithmetic::div_mod::lemma_mod_multiples_vanish(
        scan.base / scan.page_size,
        scan.aligned_offset(),
        scan.page_size,
    );
    vstd::arithmetic::div_mod::lemma_fundamental_div_mod(scan.base, scan.page_size);
}

/// A batch of `pending` pages behind `checked` pages lies within `pages` pages.
proof fn lemma_span_in_cover(page_size: int, pages: int, checked: int, pending: int)
    requires
        page_size > 0,
        0 <= checked,
        0 <= pending,
        checked + pending <= pages,
    ensures
        0 <= checked * page_size,
        0 <= pending * page_size,
        pending > 0 ==> page_size <= pending * page_size,
        checked * page_size + pending * page_size <= pages * page_size,
{
    assert(pending > 0 ==> page_size <= pending * page_size) by (nonlinear_arith)
        requires
            page_size > 0,
    ;
    assert(checked * page_size + pending * page_size == (checked + pending) * page_size)
        by (nonlinear_arith);
    assert((checked + pending) * page_size <= pages * page_size) by (nonlinear_arith)
        requires
            page_size > 0,
            checked + pending <= pages,
    ;
    assert(0 <= checked * page_size && 0 <= pending * page_size) by (nonlinear_arith)
        requires
            page_size > 0,
            0 <= checked,
            0 <= pending,
    ;
}

} // verus!
