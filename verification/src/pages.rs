use std::collections::HashMap;
use vstd::prelude::*;
use crate::error::{Step, VfsError, Whence};
use crate::header::{initial_count, page_count};
use crate::path::{companion_path, is_companion};
use crate::model::{lemma_block_split, overlay, span, zero_block, CacheModel, PageModel};

verus! {

broadcast use vstd::std_specs::hash::group_hash_axioms;

/// A cached block.
pub struct Page {
    data: Vec<u8>,
    dirty: bool,
}

impl View for Page {
    type V = PageModel;

    closed spec fn view(&self) -> PageModel {
        PageModel { data: self.data@, dirty: self.dirty }
    }
}

/// An open file: its block count, its cursor and the blocks touched so far.
/// Blocks are `PAGE_SIZE` bytes each.
pub struct Pages<const PAGE_SIZE: usize> {
    count: u64,
    offset: u64,
    blocks: HashMap<u64, Page>,
}

/// Opens files whose blocks are `PAGE_SIZE` bytes each.
pub struct PagesVfs<const PAGE_SIZE: usize>;

/// What the store handed back for a block, as the contracts see it.
pub open spec fn stored(block: Option<Vec<u8>>) -> Option<Seq<u8>> {
    match block {
        Some(data) => Some(data@),
        None => None,
    }
}

/// Copies `n` bytes of `src`, from `src_at` on, over `dst` from `dst_at` on.
fn copy_bytes(dst: &mut Vec<u8>, dst_at: usize, src: &[u8], src_at: usize, n: usize)
    requires
        dst_at + n <= old(dst).len(),
        src_at + n <= src.len(),
    ensures
        final(dst)@ == overlay(old(dst)@, dst_at as int, src@.subrange(src_at as int, src_at + n)),
{
    let mut i: usize = 0;
    while i < n
        invariant
            i <= n,
            dst_at + n <= dst.len(),
            src_at + n <= src.len(),
            dst.len() == old(dst).len(),
            dst@ == overlay(old(dst)@, dst_at as int, src@.subrange(src_at as int, src_at + i)),
        decreases n - i,
    {
        let byte: u8 = src[src_at + i];
        dst[dst_at + i] = byte;
        i += 1;
        assert(dst@ =~= overlay(
            old(dst)@,
            dst_at as int,
            src@.subrange(src_at as int, src_at + i),
        ));
    }
}

/// A block of `n` zeros.
fn zeros(n: usize) -> (block: Vec<u8>)
    ensures
        block@ == zero_block(n as int),
{
    let mut block: Vec<u8> = Vec::new();
    let mut i: usize = 0;
    while i < n
        invariant
            i <= n,
            block@ == zero_block(i as int),
        decreases n - i,
    {
        block.push(0u8);
        i += 1;
        assert(block@ =~= zero_block(i as int));
    }
    block
}

impl<const PAGE_SIZE: usize> View for Pages<PAGE_SIZE> {
    type V = CacheModel;

    closed spec fn view(&self) -> CacheModel {
        CacheModel {
            count: self.count as int,
            offset: self.offset as int,
            blocks: self.blocks@.map_values(|page: Page| page@),
        }
    }
}

impl<const PAGE_SIZE: usize> PagesVfs<PAGE_SIZE> {
    /// Opens a file, given what the store holds as its block 0. The block
    /// count comes from the page count that block 0 declares; a file without
    /// a block 0 is empty.
    pub fn open(&self, block0: Option<Vec<u8>>) -> (r: Result<Pages<PAGE_SIZE>, VfsError>)
        requires
            PAGE_SIZE > 0,
        ensures
            match initial_count(stored(block0), PAGE_SIZE as int) {
                Some(n) => r matches Ok(file) && file.wf() && file@ == CacheModel::fresh(n),
                None => r matches Err(e) && e == VfsError::CorruptHeader,
            },
    {
        Pages::open(block0)
    }

    /// Deleting is only ever asked for journals and write-ahead logs, which
    /// are never stored: nothing happens, whatever the path.
    pub fn delete(&self, _path: &str) {
    }

    /// Whether the file at `path` exists: a journal or a write-ahead log
    /// never does, a database file does once the store holds its block 0.
    pub fn file_exists(&self, path: &str, block0_stored: bool) -> (r: bool)
        ensures
            r == (!companion_path(path@) && block0_stored),
    {
        !is_companion(path) && block0_stored
    }
}

impl<const PAGE_SIZE: usize> Pages<PAGE_SIZE> {
    pub open spec fn wf(&self) -> bool {
        self@.wf(PAGE_SIZE as int)
    }

    /// A file with an empty cache and the cursor at 0, given what the store
    /// holds as its block 0.
    pub fn open(block0: Option<Vec<u8>>) -> (r: Result<Self, VfsError>)
        requires
            PAGE_SIZE > 0,
        ensures
            match initial_count(stored(block0), PAGE_SIZE as int) {
                Some(n) => r matches Ok(file) && file.wf() && file@ == CacheModel::fresh(n),
                None => r matches Err(e) && e == VfsError::CorruptHeader,
            },
    {
        let count: u64 = match block0 {
            None => 0,
            Some(block) => match page_count(block.as_slice()) {
                Err(e) => {
                    return Err(e);
                },
                Ok(declared) => match (declared as u64).checked_mul(PAGE_SIZE as u64) {
                    None => {
                        return Err(VfsError::CorruptHeader);
                    },
                    Some(_) => {
                        assert(declared * PAGE_SIZE <= u64::MAX);
                        declared as u64
                    },
                },
            },
        };
        assert(count * PAGE_SIZE <= u64::MAX) by (nonlinear_arith)
            requires
                count == 0 || count * PAGE_SIZE <= u64::MAX,
        ;
        let file = Pages { count, offset: 0, blocks: HashMap::new() };
        assert(file@.blocks =~= Map::empty());
        Ok(file)
    }

    /// Size of the file in bytes.
    pub fn file_size(&self) -> (size: u64)
        requires
            self.wf(),
        ensures
            size == self@.file_size(PAGE_SIZE as int),
    {
        self.count * (PAGE_SIZE as u64)
    }

    /// The byte cursor.
    pub fn offset(&self) -> (offset: u64)
        ensures
            offset == self@.offset,
    {
        self.offset
    }

    /// Moves the cursor to an absolute position. Seeks measured from the
    /// cursor or from the end are refused and change nothing.
    pub fn seek(&mut self, to: Whence) -> (r: Result<u64, VfsError>)
        requires
            old(self).wf(),
        ensures
            final(self).wf(),
            match to {
                Whence::Start(position) => r == Ok::<u64, VfsError>(position) && final(self)@
                    == old(self)@.seek(position as int),
                _ => r == Err::<u64, VfsError>(VfsError::UnsupportedSeek) && final(self)@ == old(
                    self,
                )@,
            },
    {
        match to {
            Whence::Start(position) => {
                self.offset = position;
                Ok(position)
            },
            _ => Err(VfsError::UnsupportedSeek),
        }
    }

    /// Index of the block under the cursor.
    pub fn index(&self) -> (index: u64)
        requires
            self.wf(),
        ensures
            index == self@.index(PAGE_SIZE as int),
    {
        self.offset / (PAGE_SIZE as u64)
    }

    /// Whether the block under the cursor ends within the 64-bit offset
    /// range, so that a read or a write can advance the cursor to its end.
    pub fn in_range(&self) -> (r: bool)
        requires
            self.wf(),
        ensures
            r == self@.in_range(PAGE_SIZE as int),
    {
        let q: u64 = self.offset / (PAGE_SIZE as u64);
        proof {
            lemma_block_split(self.offset as int, PAGE_SIZE as int);
        }
        if q == u64::MAX {
            assert((q + 1) * PAGE_SIZE > u64::MAX) by (nonlinear_arith)
                requires
                    q == u64::MAX,
                    PAGE_SIZE >= 1,
            ;
            return false;
        }
        (q + 1).checked_mul(PAGE_SIZE as u64).is_some()
    }

    /// Whether block `index` is cached.
    pub fn is_cached(&self, index: u64) -> (r: bool)
        ensures
            r == self@.cached(index),
    {
        self.blocks.contains_key(&index)
    }

    /// Whether block `index` is cached and newer than the store.
    pub fn is_dirty(&self, index: u64) -> (r: bool)
        ensures
            r == self@.dirty(index),
    {
        match self.blocks.get(&index) {
            Some(page) => page.dirty,
            None => false,
        }
    }

    /// The cached bytes of block `index`.
    pub fn block(&self, index: u64) -> (r: Option<Vec<u8>>)
        requires
            self.wf(),
        ensures
            match r {
                Some(data) => self@.cached(index) && data@ == self@.blocks[index].data,
                None => !self@.cached(index),
            },
    {
        match self.blocks.get(&index) {
            Some(page) => {
                assert(self@.blocks.contains_key(index) && self@.blocks[index] == page@);
                let mut data = zeros(PAGE_SIZE);
                copy_bytes(&mut data, 0, page.data.as_slice(), 0, PAGE_SIZE);
                assert(data@ =~= page.data@);
                Some(data)
            },
            None => None,
        }
    }

    /// Makes sure the block under the cursor is cached and returns its
    /// index. If it is cached already, `fetched` is ignored. Otherwise
    /// `fetched` is what the store holds for it: its bytes enter the cache,
    /// or zeros if the store has none. Stored bytes that are not one whole
    /// block are refused and change nothing.
    pub fn current(&mut self, fetched: Option<Vec<u8>>) -> (r: Result<u64, VfsError>)
        requires
            old(self).wf(),
        ensures
            final(self).wf(),
            old(self)@.cached(old(self)@.index(PAGE_SIZE as int)) || match fetched {
                Some(data) => data.len() == PAGE_SIZE,
                None => true,
            } ==> r == Ok::<u64, VfsError>(old(self)@.index(PAGE_SIZE as int)) && final(self)@
                == old(self)@.materialize(stored(fetched), PAGE_SIZE as int),
            !old(self)@.cached(old(self)@.index(PAGE_SIZE as int)) && (fetched matches Some(data)
                && data.len() != PAGE_SIZE) ==> r == Err::<u64, VfsError>(VfsError::BackingStore)
                && final(self)@ == old(self)@,
    {
        let index = self.index();
        if self.blocks.contains_key(&index) {
            return Ok(index);
        }
        let data = match fetched {
            Some(data) => {
                if data.len() != PAGE_SIZE {
                    return Err(VfsError::BackingStore);
                }
                data
            },
            None => zeros(PAGE_SIZE),
        };
        self.blocks.insert(index, Page { data, dirty: false });
        assert(final(self)@.blocks =~= old(self)@.materialize(
            stored(fetched),
            PAGE_SIZE as int,
        ).blocks);
        Ok(index)
    }
}

impl<const PAGE_SIZE: usize> Pages<PAGE_SIZE> {
    /// Reads from the cursor on into `buf`: as many bytes as `buf` holds, but
    /// never past the end of the block under the cursor. If that block is
    /// not cached, nothing is read and the block is asked for.
    pub fn read(&mut self, buf: &mut Vec<u8>) -> (r: Step)
        requires
            old(self).wf(),
            old(self)@.in_range(PAGE_SIZE as int),
        ensures
            final(self).wf(),
            if old(self)@.cached(old(self)@.index(PAGE_SIZE as int)) {
                &&& r == Step::Done(
                    span(old(self)@.offset, old(buf).len() as int, PAGE_SIZE as int) as usize,
                )
                &&& final(self)@ == old(self)@.read(old(buf).len() as int, PAGE_SIZE as int)
                &&& final(buf)@ == overlay(
                    old(buf)@,
                    0,
                    old(self)@.read_bytes(old(buf).len() as int, PAGE_SIZE as int),
                )
            } else {
                &&& r == Step::Fetch(old(self)@.index(PAGE_SIZE as int))
                &&& final(self)@ == old(self)@
                &&& final(buf)@ == old(buf)@
            },
    {
        proof {
            lemma_block_split(self.offset as int, PAGE_SIZE as int);
        }
        let index = self.index();
        let intra: usize = (self.offset % (PAGE_SIZE as u64)) as usize;
        let room: usize = PAGE_SIZE - intra;
        let n: usize = if buf.len() <= room {
            buf.len()
        } else {
            room
        };
        match self.blocks.get(&index) {
            None => {
                return Step::Fetch(index);
            },
            Some(page) => {
                assert(self@.blocks.contains_key(index) && self@.blocks[index] == page@);
                copy_bytes(buf, 0, page.data.as_slice(), intra, n);
            },
        }
        self.offset = self.offset + n as u64;
        Step::Done(n)
    }

    /// Writes `buf` at the cursor: as many bytes as `buf` holds, but never
    /// past the end of the block under the cursor. The block is marked as
    /// changed, and the file grows to hold the last byte written. If the
    /// block is not cached, nothing is written and the block is asked for.
    pub fn write(&mut self, buf: &[u8]) -> (r: Step)
        requires
            old(self).wf(),
            old(self)@.in_range(PAGE_SIZE as int),
        ensures
            final(self).wf(),
            if old(self)@.cached(old(self)@.index(PAGE_SIZE as int)) {
                &&& r == Step::Done(
                    span(old(self)@.offset, buf.len() as int, PAGE_SIZE as int) as usize,
                )
                &&& final(self)@ == old(self)@.write(buf@, PAGE_SIZE as int)
            } else {
                &&& r == Step::Fetch(old(self)@.index(PAGE_SIZE as int))
                &&& final(self)@ == old(self)@
            },
    {
        proof {
            lemma_block_split(self.offset as int, PAGE_SIZE as int);
        }
        let index = self.index();
        if !self.blocks.contains_key(&index) {
            return Step::Fetch(index);
        }
        let intra: usize = (self.offset % (PAGE_SIZE as u64)) as usize;
        let room: usize = PAGE_SIZE - intra;
        let n: usize = if buf.len() <= room {
            buf.len()
        } else {
            room
        };
        let mut data = match self.blocks.remove(&index) {
            Some(page) => page.data,
            None => zeros(PAGE_SIZE),
        };
        assert(old(self)@.blocks.contains_key(index) && data@ == old(self)@.blocks[index].data);
        copy_bytes(&mut data, intra, buf, 0, n);
        self.blocks.insert(index, Page { data, dirty: true });
        self.offset = self.offset + n as u64;
        if n > 0 && self.count < index + 1 {
            self.count = index + 1;
        }
        assert(final(self)@.blocks =~= old(self)@.write(buf@, PAGE_SIZE as int).blocks);
        Step::Done(n)
    }

    /// Picks a block that has to be written back, if there is one.
    pub fn flush_next(&self) -> (r: Option<u64>)
        requires
            self.wf(),
        ensures
            match r {
                Some(index) => self@.dirty(index),
                None => self@.clean(),
            },
    {
        for key in it: self.blocks.keys()
            invariant
                forall|j: int| 0 <= j < it.index() ==> !self@.dirty(*it.seq()[j]),
        {
            if self.is_dirty(*key) {
                return Some(*key);
            }
        }
        None
    }

    /// Takes note of how writing block `index` back went. If it was stored,
    /// the block counts as unchanged from now on; if not, it stays marked
    /// and the failure is reported.
    pub fn flushed(&mut self, index: u64, was_stored: bool) -> (r: Result<(), VfsError>)
        requires
            old(self).wf(),
        ensures
            final(self).wf(),
            was_stored ==> r.is_ok() && final(self)@ == old(self)@.flushed(index),
            !was_stored ==> r == Err::<(), VfsError>(VfsError::PartialFlushFailure) && final(self)@
                == old(self)@,
    {
        if !was_stored {
            return Err(VfsError::PartialFlushFailure);
        }
        match self.blocks.remove(&index) {
            Some(page) => {
                self.blocks.insert(index, Page { data: page.data, dirty: false });
                assert(final(self)@.blocks =~= old(self)@.flushed(index).blocks);
            },
            None => {
                assert(final(self)@.blocks =~= old(self)@.blocks);
            },
        }
        Ok(())
    }
}

} // verus!
