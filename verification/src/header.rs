use vstd::prelude::*;
use crate::error::VfsError;

verus! {

/// Byte offset in block 0 at which the page count starts.
pub const PAGE_COUNT_AT: usize = 28;

/// Byte offset in block 0 just behind the page count.
pub const PAGE_COUNT_END: usize = 32;

/// The number that four bytes spell, most significant byte first.
pub open spec fn big_endian(b0: u8, b1: u8, b2: u8, b3: u8) -> int {
    b0 * 0x100_0000 + b1 * 0x1_0000 + b2 * 0x100 + b3
}

/// The page count that a stored block 0 declares, if it is long enough to
/// hold one.
pub open spec fn declared_pages(block: Seq<u8>) -> Option<int> {
    if block.len() >= PAGE_COUNT_END {
        Some(big_endian(block[28], block[29], block[30], block[31]))
    } else {
        None
    }
}

/// The block count a file starts with, given what the store holds as its
/// block 0: nothing for a file with no block 0, else the declared count if
/// the whole file then fits in 64 bits.
pub open spec fn initial_count(block0: Option<Seq<u8>>, block_size: int) -> Option<int> {
    match block0 {
        None => Some(0),
        Some(block) => match declared_pages(block) {
            Some(n) if n * block_size <= u64::MAX => Some(n),
            _ => None,
        },
    }
}

/// Reads the page count out of a stored block 0.
pub fn page_count(block: &[u8]) -> (r: Result<u32, VfsError>)
    ensures
        r == match declared_pages(block@) {
            Some(n) => Ok::<u32, VfsError>(n as u32),
            None => Err(VfsError::CorruptHeader),
        },
        r matches Ok(n) ==> declared_pages(block@) == Some(n as int),
{
    if block.len() < PAGE_COUNT_END {
        return Err(VfsError::CorruptHeader);
    }
    let b0: u32 = block[28] as u32;
    let b1: u32 = block[29] as u32;
    let b2: u32 = block[30] as u32;
    let b3: u32 = block[31] as u32;
    Ok(b0 * 0x100_0000 + b1 * 0x1_0000 + b2 * 0x100 + b3)
}

} // verus!
