use vstd::prelude::*;

use crate::numbers::parse_unsigned_span;
use crate::text::{chars_of, split_words};
use crate::numbers;
use crate::text;

verus! {

/// Whole mebibytes in `bytes` (`bytes / 1024 / 1024`).
pub fn bytes_to_mib(bytes: u64) -> (m: u64)
    ensures
        m == bytes / 1024 / 1024,
{
    bytes / 1024 / 1024
}

/// The two counters of `/proc/<pid>/statm` that private memory is made of,
/// in pages.
#[derive(Clone, Copy, Debug, PartialEq, Eq, Structural)]
pub struct StatmPages {
    pub resident: u64,
    pub shared: u64,
}

/// `statm` holds `size resident shared ...`; the second and third fields
/// must be numbers.
pub open spec fn statm(content: Seq<char>) -> Option<StatmPages> {
    let w = text::words(content);
    if w.len() < 3 {
        None
    } else {
        match (numbers::parse_unsigned(w[1], 10, u64::MAX as nat), numbers::parse_unsigned(w[2], 10, u64::MAX as nat)) {
            (Some(r), Some(sh)) => Some(StatmPages { resident: r as u64, shared: sh as u64 }),
            _ => None,
        }
    }
}

/// `statm` gives the resident pages as its second number and the shared
/// pages as its third; the first (total size) is not used, and the text
/// is read only when all three are there and the two are numbers.
pub proof fn lemma_statm_fields(content: Seq<char>)
    ensures
        text::words(content).len() >= 3 && numbers::parse_unsigned(
            text::words(content)[1],
            10,
            u64::MAX as nat,
        ) is Some && numbers::parse_unsigned(text::words(content)[2], 10, u64::MAX as nat) is Some
            ==> statm(content) is Some && statm(content)->0.resident == numbers::parse_unsigned(
            text::words(content)[1],
            10,
            u64::MAX as nat,
        )->0 && statm(content)->0.shared == numbers::parse_unsigned(
            text::words(content)[2],
            10,
            u64::MAX as nat,
        )->0,
        text::words(content).len() < 3 ==> statm(content) is None,
{
}

/// Reads the resident and shared page counts of a `statm` file.
pub fn parse_statm(content: &str) -> (r: Option<StatmPages>)
    ensures
        r == statm(content@),
{
    let s = chars_of(content);
    let ws = split_words(&s, 0, s.len());
    proof {
        assert(s@.subrange(0, s.len() as int) =~= content@);
    }
    if ws.len() < 3 {
        return None;
    }
    let (a1, b1) = ws[1];
    let (a2, b2) = ws[2];
    let resident = match parse_unsigned_span(&s, a1, b1, 10, u64::MAX) {
        Some(v) => v,
        None => return None,
    };
    let shared = match parse_unsigned_span(&s, a2, b2, 10, u64::MAX) {
        Some(v) => v,
        None => return None,
    };
    Some(StatmPages { resident, shared })
}

pub open spec fn private_pages(p: StatmPages) -> int {
    if p.resident >= p.shared {
        p.resident - p.shared
    } else {
        0
    }
}

/// Memory that a process does not share, in bytes: resident pages less
/// shared pages (never below 0), times the page size.
pub fn private_memory_bytes(pages: StatmPages, page_size: u64) -> (b: u64)
    requires
        private_pages(pages) * page_size <= u64::MAX,
    ensures
        b == private_pages(pages) * page_size,
{
    pages.resident.saturating_sub(pages.shared) * page_size
}

/// The product that `private_memory_bytes` computes fits in a `u64`.
pub fn private_memory_fits(pages: StatmPages, page_size: u64) -> (ok: bool)
    ensures
        ok == (private_pages(pages) * page_size <= u64::MAX),
{
    let p = pages.resident.saturating_sub(pages.shared);
    p.checked_mul(page_size).is_some()
}

} // verus!
