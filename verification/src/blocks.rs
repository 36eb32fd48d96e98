use vstd::prelude::*;
use crate::error::{Step, VfsError, Whence};
use crate::header::initial_count;
use crate::model::{overlay, span, CacheModel};
use crate::pages::{stored, Pages};
use crate::path::{block_key, chars_of, make_key};

verus! {

/// An open file whose blocks live in a store keyed by strings: a cache and
/// the name under which the file's blocks are stored. Blocks are
/// `BLOCK_SIZE` bytes each.
pub struct Blocks<const BLOCK_SIZE: usize> {
    name: Vec<char>,
    cache: Pages<BLOCK_SIZE>,
}

impl<const BLOCK_SIZE: usize> View for Blocks<BLOCK_SIZE> {
    type V = CacheModel;

    closed spec fn view(&self) -> CacheModel {
        self.cache@
    }
}

impl<const BLOCK_SIZE: usize> Blocks<BLOCK_SIZE> {
    /// The file's name.
    pub closed spec fn name(&self) -> Seq<char> {
        self.name@
    }

    pub open spec fn wf(&self) -> bool {
        self@.wf(BLOCK_SIZE as int)
    }

    /// Opens the file `name`, given what the store holds under the key of
    /// its block 0. The block count comes from the page count that block 0
    /// declares; a file without a block 0 is empty.
    pub fn open(name: &str, block0: Option<Vec<u8>>) -> (r: Result<Self, VfsError>)
        requires
            BLOCK_SIZE > 0,
        ensures
            match initial_count(stored(block0), BLOCK_SIZE as int) {
                Some(n) => r matches Ok(file) && file.wf() && file@ == CacheModel::fresh(n)
                    && file.name() == name@,
                None => r matches Err(e) && e == VfsError::CorruptHeader,
            },
    {
        let cache = Pages::open(block0)?;
        Ok(Blocks { name: chars_of(name), cache })
    }

    /// The key under which block `index` of this file is stored.
    pub fn key(&self, index: u64) -> (key: Vec<char>)
        ensures
            key@ == block_key(self.name(), index as nat),
    {
        make_key(&self.name, index)
    }

    /// The cache, for looking at it.
    pub fn cache(&self) -> (cache: &Pages<BLOCK_SIZE>)
        ensures
            cache@ == self@,
    {
        &self.cache
    }

    /// Size of the file in bytes.
    pub fn file_size(&self) -> (size: u64)
        requires
            self.wf(),
        ensures
            size == self@.file_size(BLOCK_SIZE as int),
    {
        self.cache.file_size()
    }

    /// Whether the block under the cursor ends within the 64-bit offset
    /// range, so that a read or a write can advance the cursor to its end.
    pub fn in_range(&self) -> (r: bool)
        requires
            self.wf(),
        ensures
            r == self@.in_range(BLOCK_SIZE as int),
    {
        self.cache.in_range()
    }

    /// Moves the cursor to an absolute position. Seeks measured from the
    /// cursor or from the end are refused and change nothing.
    pub fn seek(&mut self, to: Whence) -> (r: Result<u64, VfsError>)
        requires
            old(self).wf(),
        ensures
            final(self).wf(),
            final(self).name() == old(self).name(),
            match to {
                Whence::Start(position) => r == Ok::<u64, VfsError>(position) && final(self)@
                    == old(self)@.seek(position as int),
                _ => r == Err::<u64, VfsError>(VfsError::UnsupportedSeek) && final(self)@ == old(
                    self,
                )@,
            },
    {
        self.cache.seek(to)
    }

    /// Makes sure the block under the cursor is cached and returns its
    /// index. If it is cached already, `fetched` is ignored. Otherwise
    /// `fetched` is what the store holds under the block's key: its bytes
    /// enter the cache, or zeros if the store has none. Stored bytes that
    /// are not one whole block are refused and change nothing.
    pub fn current(&mut self, fetched: Option<Vec<u8>>) -> (r: Result<u64, VfsError>)
        requires
            old(self).wf(),
        ensures
            final(self).wf(),
            final(self).name() == old(self).name(),
            old(self)@.cached(old(self)@.index(BLOCK_SIZE as int)) || match fetched {
                Some(data) => data.len() == BLOCK_SIZE,
                None => true,
            } ==> r == Ok::<u64, VfsError>(old(self)@.index(BLOCK_SIZE as int)) && final(self)@
                == old(self)@.materialize(stored(fetched), BLOCK_SIZE as int),
            !old(self)@.cached(old(self)@.index(BLOCK_SIZE as int)) && (fetched matches Some(data)
                && data.len() != BLOCK_SIZE) ==> r == Err::<u64, VfsError>(VfsError::BackingStore)
                && final(self)@ == old(self)@,
    {
        self.cache.current(fetched)
    }

    /// Reads from the cursor on into `buf`: as many bytes as `buf` holds, but
    /// never past the end of the block under the cursor. If that block is
    /// not cached, nothing is read and the block is asked for.
    pub fn read(&mut self, buf: &mut Vec<u8>) -> (r: Step)
        requires
            old(self).wf(),
            old(self)@.in_range(BLOCK_SIZE as int),
        ensures
            final(self).wf(),
            final(self).name() == old(self).name(),
            if old(self)@.cached(old(self)@.index(BLOCK_SIZE as int)) {
                &&& r == Step::Done(
                    span(old(self)@.offset, old(buf).len() as int, BLOCK_SIZE as int) as usize,
                )
                &&& final(self)@ == old(self)@.read(old(buf).len() as int, BLOCK_SIZE as int)
                &&& final(buf)@ == overlay(
                    old(buf)@,
                    0,
                    old(self)@.read_bytes(old(buf).len() as int, BLOCK_SIZE as int),
                )
            } else {
                &&& r == Step::Fetch(old(self)@.index(BLOCK_SIZE as int))
                &&& final(self)@ == old(self)@
                &&& final(buf)@ == old(buf)@
            },
    {
        self.cache.read(buf)
    }

    /// Writes `buf` at the cursor: as many bytes as `buf` holds, but never
    /// past the end of the block under the cursor. The block is marked as
    /// changed, and the file grows to hold the last byte written. If the
    /// block is not cached, nothing is written and the block is asked for.
    pub fn write(&mut self, buf: &[u8]) -> (r: Step)
        requires
            old(self).wf(),
            old(self)@.in_range(BLOCK_SIZE as int),
        ensures
            final(self).wf(),
            final(self).name() == old(self).name(),
            if old(self)@.cached(old(self)@.index(BLOCK_SIZE as int)) {
                &&& r == Step::Done(
                    span(old(self)@.offset, buf.len() as int, BLOCK_SIZE as int) as usize,
                )
                &&& final(self)@ == old(self)@.write(buf@, BLOCK_SIZE as int)
            } else {
                &&& r == Step::Fetch(old(self)@.index(BLOCK_SIZE as int))
                &&& final(self)@ == old(self)@
            },
    {
        self.cache.write(buf)
    }

    /// Picks a block that has to be written back, if there is one.
    pub fn flush_next(&self) -> (r: Option<u64>)
        requires
            self.wf(),
        ensures
            match r {
                Some(index) => self@.dirty(index),
                None => self@.clean(),
            },
    {
        self.cache.flush_next()
    }

    /// Takes note of how writing block `index` back went. If it was stored,
    /// the block counts as unchanged from now on; if not, it stays marked
    /// and the failure is reported.
    pub fn flushed(&mut self, index: u64, was_stored: bool) -> (r: Result<(), VfsError>)
        requires
            old(self).wf(),
        ensures
            final(self).wf(),
            final(self).name() == old(self).name(),
            was_stored ==> r.is_ok() && final(self)@ == old(self)@.flushed(index),
            !was_stored ==> r == Err::<(), VfsError>(VfsError::PartialFlushFailure) && final(self)@
                == old(self)@,
    {
        self.cache.flushed(index, was_stored)
    }
}

} // verus!
