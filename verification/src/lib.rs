//! Verified core of a read-only, memory-mapped file buffer.
//!
//! A file buffer maps a whole file into memory once and hands out its bytes.
//! On top of the mapping it can tell how much of a range is resident in
//! physical memory, advise the kernel to load a range ahead of use, and hand
//! out a slice only once reading it will not block.
//!
//! This crate holds every decision that such a buffer makes, and proves what
//! it states of them:
//!
//! - `page`: rounding to pages, and the page-aligned cover of a range;
//! - `backend`: the steps by which a mapping is acquired and given back, for
//!   both kinds of operating-system interface;
//! - `residency`: the scan for the resident prefix of a range, in batches of
//!   bounded size;
//! - `buffer`: the file buffer itself.
//!
//! The crate performs no request to the operating system. It names each
//! request, the caller performs it and reports the outcome back as plain
//! values: addresses, lengths, status codes and residency flags.

pub mod backend;
pub mod buffer;
pub mod page;
pub mod residency;

pub use crate::backend::{Backend, MapError, MapStep, PlatformData, QueryOutcome, Release};
pub use crate::buffer::{FileBuffer, SliceStep};
pub use crate::page::{round_down_to, round_up_to, AddressRange};
pub use crate::residency::{ResidencyScan, BATCH_PAGES};
