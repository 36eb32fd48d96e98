use vstd::prelude::*;

verus! {

/// One cached block: its bytes, and whether they are newer than the store's.
pub struct PageModel {
    pub data: Seq<u8>,
    pub dirty: bool,
}

/// An open file as the contracts see it.
pub struct CacheModel {
    /// Number of blocks the file is known to have.
    pub count: int,
    /// The byte cursor.
    pub offset: int,
    /// The cached blocks by index.
    pub blocks: Map<u64, PageModel>,
}

/// A block of zeros.
pub open spec fn zero_block(block_size: int) -> Seq<u8> {
    Seq::new(block_size as nat, |i: int| 0u8)
}

/// The bytes a block starts with once fetched: the stored ones, or zeros
/// where the store has none.
pub open spec fn fetched_or_zero(fetched: Option<Seq<u8>>, block_size: int) -> Seq<u8> {
    match fetched {
        Some(data) => data,
        None => zero_block(block_size),
    }
}

/// How many bytes one read or write moves: as many as were asked for, but
/// never past the end of the block that holds `offset`.
pub open spec fn span(offset: int, len: int, block_size: int) -> int {
    if len <= block_size - offset % block_size {
        len
    } else {
        block_size - offset % block_size
    }
}

/// `data` with `bytes` laid over it from position `at` on.
pub open spec fn overlay(data: Seq<u8>, at: int, bytes: Seq<u8>) -> Seq<u8> {
    data.subrange(0, at) + bytes + data.subrange(at + bytes.len(), data.len() as int)
}

/// How an offset splits into a block index and a position in that block.
pub proof fn lemma_block_split(offset: int, block_size: int)
    requires
        0 <= offset,
        0 < block_size,
    ensures
        0 <= offset % block_size < block_size,
        0 <= offset / block_size <= offset,
        offset == (offset / block_size) * block_size + offset % block_size,
        (offset / block_size + 1) * block_size == (offset / block_size) * block_size + block_size,
        offset / block_size + 1 <= (offset / block_size + 1) * block_size,
{
    vstd::arithmetic::div_mod::lemma_fundamental_div_mod(offset, block_size);
    vstd::arithmetic::div_mod::lemma_mod_bound(offset, block_size);
    vstd::arithmetic::div_mod::lemma_div_pos_is_pos(offset, block_size);
    let q = offset / block_size;
    assert(q <= offset && (q + 1) * block_size == q * block_size + block_size && q + 1 <= (q + 1)
        * block_size && block_size * q == q * block_size) by (nonlinear_arith)
        requires
            0 <= q,
            0 < block_size,
            offset == block_size * q + offset % block_size,
            0 <= offset % block_size,
    ;
}

impl CacheModel {
    /// A file that was just opened with `count` blocks.
    pub open spec fn fresh(count: int) -> CacheModel {
        CacheModel { count, offset: 0, blocks: Map::empty() }
    }

    pub open spec fn wf(self, block_size: int) -> bool {
        &&& 0 < block_size <= usize::MAX
        &&& 0 <= self.offset <= u64::MAX
        &&& 0 <= self.count
        &&& self.count * block_size <= u64::MAX
        &&& self.blocks.dom().finite()
        &&& forall|i: u64| #[trigger]
            self.blocks.contains_key(i) ==> self.blocks[i].data.len() == block_size
    }

    /// Index of the block under the cursor.
    pub open spec fn index(self, block_size: int) -> u64 {
        (self.offset / block_size) as u64
    }

    /// Position of the cursor inside its block.
    pub open spec fn intra(self, block_size: int) -> int {
        self.offset % block_size
    }

    /// The block under the cursor ends within the 64-bit offset range.
    pub open spec fn in_range(self, block_size: int) -> bool {
        (self.offset / block_size + 1) * block_size <= u64::MAX
    }

    pub open spec fn cached(self, index: u64) -> bool {
        self.blocks.contains_key(index)
    }

    pub open spec fn dirty(self, index: u64) -> bool {
        self.blocks.contains_key(index) && self.blocks[index].dirty
    }

    /// No cached block is newer than the store.
    pub open spec fn clean(self) -> bool {
        forall|i: u64| !self.dirty(i)
    }

    pub open spec fn file_size(self, block_size: int) -> int {
        self.count * block_size
    }

    pub open spec fn seek(self, position: int) -> CacheModel {
        CacheModel { offset: position, ..self }
    }

    /// The block under the cursor enters the cache, unless it is there
    /// already: with the stored bytes, or zeros where the store has none.
    pub open spec fn materialize(self, fetched: Option<Seq<u8>>, block_size: int) -> CacheModel {
        if self.cached(self.index(block_size)) {
            self
        } else {
            CacheModel {
                blocks: self.blocks.insert(
                    self.index(block_size),
                    PageModel { data: fetched_or_zero(fetched, block_size), dirty: false },
                ),
                ..self
            }
        }
    }

    /// The bytes that a read of up to `len` bytes returns.
    pub open spec fn read_bytes(self, len: int, block_size: int) -> Seq<u8> {
        self.blocks[self.index(block_size)].data.subrange(
            self.intra(block_size),
            self.intra(block_size) + span(self.offset, len, block_size),
        )
    }

    /// The file after a read of up to `len` bytes.
    pub open spec fn read(self, len: int, block_size: int) -> CacheModel {
        CacheModel { offset: self.offset + span(self.offset, len, block_size), ..self }
    }

    /// The file after a write of `bytes`, of which only those up to the end
    /// of the current block are taken.
    pub open spec fn write(self, bytes: Seq<u8>, block_size: int) -> CacheModel {
        let n = span(self.offset, bytes.len() as int, block_size);
        let index = self.index(block_size);
        CacheModel {
            count: if n > 0 && self.count < index + 1 {
                index + 1
            } else {
                self.count
            },
            offset: self.offset + n,
            blocks: self.blocks.insert(
                index,
                PageModel {
                    data: overlay(
                        self.blocks[index].data,
                        self.intra(block_size),
                        bytes.subrange(0, n),
                    ),
                    dirty: true,
                },
            ),
        }
    }

    /// The file after block `index` was written back.
    pub open spec fn flushed(self, index: u64) -> CacheModel {
        if self.cached(index) {
            CacheModel {
                blocks: self.blocks.insert(
                    index,
                    PageModel { data: self.blocks[index].data, dirty: false },
                ),
                ..self
            }
        } else {
            self
        }
    }

    /// The indices of the blocks that are newer than the store.
    pub open spec fn dirty_set(self) -> Set<u64> {
        Set::new(|i: u64| self.dirty(i))
    }

    /// Every cached block that is not marked as changed holds what the
    /// store holds for it, or zeros where the store holds nothing.
    pub open spec fn coherent(self, store: Map<u64, Seq<u8>>, block_size: int) -> bool {
        forall|i: u64|
            self.cached(i) && !self.dirty(i) ==> (#[trigger] self.blocks[i]).data
                == fetched_or_zero(lookup(store, i), block_size)
    }

    /// What the store holds once every changed block was written back to it.
    pub open spec fn persisted(self, store: Map<u64, Seq<u8>>) -> Map<u64, Seq<u8>> {
        Map::new(
            |i: u64| store.contains_key(i) || self.dirty(i),
            |i: u64|
                if self.dirty(i) {
                    self.blocks[i].data
                } else {
                    store[i]
                },
        )
    }
}

/// What a store holds for a block: its bytes, or nothing.
pub open spec fn lookup(store: Map<u64, Seq<u8>>, index: u64) -> Option<Seq<u8>> {
    if store.contains_key(index) {
        Some(store[index])
    } else {
        None
    }
}

/// Every block in the store is one whole block.
pub open spec fn store_wf(store: Map<u64, Seq<u8>>, block_size: int) -> bool {
    forall|i: u64| #[trigger] store.contains_key(i) ==> store[i].len() == block_size
}

/// Number of blocks needed to hold `bytes` bytes.
pub open spec fn blocks_for(bytes: int, block_size: int) -> int {
    (bytes + block_size - 1) / block_size
}

} // verus!
