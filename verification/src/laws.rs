use vstd::prelude::*;
use crate::header::initial_count;
use crate::model::{
    blocks_for, fetched_or_zero, lemma_block_split, lookup, span, store_wf, CacheModel,
};

verus! {

/// Bytes written at any position come back unchanged after the changed
/// blocks were written to the store and the file was opened again, with
/// whatever block count, and read at that position.
pub proof fn lemma_round_trip(
    file: CacheModel,
    store: Map<u64, Seq<u8>>,
    position: int,
    bytes: Seq<u8>,
    reopened_count: int,
    block_size: int,
)
    requires
        file.wf(block_size),
        store_wf(store, block_size),
        0 <= position <= u64::MAX,
    ensures
        ({
            let index = file.seek(position).index(block_size);
            let written = file.seek(position).materialize(lookup(store, index), block_size).write(
                bytes,
                block_size,
            );
            let reopened = CacheModel::fresh(reopened_count).seek(position).materialize(
                lookup(written.persisted(store), index),
                block_size,
            );
            &&& reopened.cached(reopened.index(block_size))
            &&& reopened.read_bytes(bytes.len() as int, block_size) == bytes.subrange(
                0,
                span(position, bytes.len() as int, block_size),
            )
        }),
{
    lemma_block_split(position, block_size);
    let index = file.seek(position).index(block_size);
    let ready = file.seek(position).materialize(lookup(store, index), block_size);
    assert(ready.blocks.contains_key(index));
    assert(ready.blocks[index].data.len() == block_size) by {
        if file.blocks.contains_key(index) {
        } else if store.contains_key(index) {
        } else {
        }
    }
    let written = ready.write(bytes, block_size);
    let n = span(position, bytes.len() as int, block_size);
    assert(written.dirty(index));
    let reopened = CacheModel::fresh(reopened_count).seek(position).materialize(
        lookup(written.persisted(store), index),
        block_size,
    );
    assert(reopened.blocks[index].data == written.blocks[index].data);
    assert(reopened.read_bytes(bytes.len() as int, block_size) =~= bytes.subrange(0, n));
}

/// Writing one changed block back brings the store one step nearer to what
/// it holds in the end, and takes that block, and no other, off the list of
/// blocks to write.
pub proof fn lemma_flush_step(file: CacheModel, store: Map<u64, Seq<u8>>, index: u64)
    requires
        file.dirty(index),
    ensures
        file.flushed(index).persisted(store.insert(index, file.blocks[index].data))
            == file.persisted(store),
        file.flushed(index).dirty_set() == file.dirty_set().remove(index),
{
    assert(file.flushed(index).persisted(store.insert(index, file.blocks[index].data))
        =~= file.persisted(store));
    assert(file.flushed(index).dirty_set() =~= file.dirty_set().remove(index));
}

/// A file with no changed block has nothing to write back, and the store
/// stays as it is; seeking, fetching and reading change no block.
pub proof fn lemma_flush_idempotent(
    file: CacheModel,
    store: Map<u64, Seq<u8>>,
    position: int,
    fetched: Option<Seq<u8>>,
    len: int,
    block_size: int,
)
    requires
        file.clean(),
    ensures
        file.dirty_set() == Set::<u64>::empty(),
        file.persisted(store) == store,
        file.seek(position).clean(),
        file.materialize(fetched, block_size).clean(),
        file.read(len, block_size).clean(),
{
    assert(forall|i: u64| !file.dirty(i));
    assert(file.dirty_set() =~= Set::<u64>::empty());
    assert(file.persisted(store) =~= store);
    assert forall|i: u64| !file.materialize(fetched, block_size).dirty(i) by {
        assert(!file.dirty(i));
    }
    assert forall|i: u64| !file.seek(position).dirty(i) by {
        assert(!file.dirty(i));
    }
    assert forall|i: u64| !file.read(len, block_size).dirty(i) by {
        assert(!file.dirty(i));
    }
}

/// A read or write that would cross the end of the block under the cursor
/// moves exactly the bytes up to that end, and leaves the cursor at the
/// start of the next block.
pub proof fn lemma_short_io(offset: int, len: int, block_size: int)
    requires
        0 <= offset,
        0 < block_size,
        offset % block_size + len > block_size,
    ensures
        span(offset, len, block_size) == block_size - offset % block_size,
        (offset + span(offset, len, block_size)) % block_size == 0,
        (offset + span(offset, len, block_size)) / block_size == offset / block_size + 1,
{
    lemma_block_split(offset, block_size);
    vstd::arithmetic::div_mod::lemma_fundamental_div_mod_converse(
        offset + span(offset, len, block_size),
        block_size,
        offset / block_size + 1,
        0,
    );
}

/// No operation makes the file smaller. A write of at least one byte
/// leaves it at the larger of its old size and the size that just holds the
/// last byte written.
pub proof fn lemma_monotonic_growth(
    file: CacheModel,
    bytes: Seq<u8>,
    position: int,
    fetched: Option<Seq<u8>>,
    index: u64,
    len: int,
    block_size: int,
)
    requires
        file.wf(block_size),
        file.in_range(block_size),
    ensures
        file.seek(position).file_size(block_size) == file.file_size(block_size),
        file.materialize(fetched, block_size).file_size(block_size) == file.file_size(block_size),
        file.read(len, block_size).file_size(block_size) == file.file_size(block_size),
        file.flushed(index).file_size(block_size) == file.file_size(block_size),
        file.write(bytes, block_size).file_size(block_size) >= file.file_size(block_size),
        bytes.len() > 0 ==> ({
            let written = file.write(bytes, block_size);
            let needed = blocks_for(written.offset, block_size) * block_size;
            written.file_size(block_size) == if file.file_size(block_size) >= needed {
                file.file_size(block_size)
            } else {
                needed
            }
        }),
{
    lemma_block_split(file.offset, block_size);
    let written = file.write(bytes, block_size);
    let q = file.offset / block_size;
    assert(q + 1 <= u64::MAX);
    assert(file.index(block_size) == q);
    assert(written.count >= file.count);
    assert(written.count * block_size >= file.count * block_size) by (nonlinear_arith)
        requires
            written.count >= file.count,
            block_size > 0,
    ;
    if bytes.len() > 0 {
        let n = span(file.offset, bytes.len() as int, block_size);
        assert(1 <= n <= block_size - file.offset % block_size);
        vstd::arithmetic::div_mod::lemma_fundamental_div_mod_converse(
            written.offset + block_size - 1,
            block_size,
            q + 1,
            file.offset % block_size + n - 1,
        );
        assert(blocks_for(written.offset, block_size) == q + 1);
        if file.count < q + 1 {
            assert(file.count * block_size <= (q + 1) * block_size) by (nonlinear_arith)
                requires
                    file.count <= q + 1,
                    block_size > 0,
            ;
        } else {
            assert(file.count * block_size >= (q + 1) * block_size) by (nonlinear_arith)
                requires
                    file.count >= q + 1,
                    block_size > 0,
            ;
        }
    }
}

/// A file whose block 0 the store does not hold opens with no blocks and
/// size zero.
pub proof fn lemma_fresh_file(block_size: int)
    ensures
        initial_count(None, block_size) == Some(0int),
        CacheModel::fresh(0).file_size(block_size) == 0,
{
}

/// A read or write of at least one byte moves at least one byte, and never
/// more than were asked for or than the block has left.
pub proof fn lemma_io_advances(offset: int, len: int, block_size: int)
    requires
        0 <= offset,
        0 < block_size,
        0 < len,
    ensures
        1 <= span(offset, len, block_size) <= len,
        span(offset, len, block_size) <= block_size - offset % block_size,
{
    lemma_block_split(offset, block_size);
}

/// The cache never disagrees with the store about a block that is not
/// marked as changed: this holds of a file just opened, and every operation
/// keeps it, where a block enters the cache as the store holds it and a
/// block that was written back is in the store as the cache holds it.
pub proof fn lemma_cache_follows_store(
    file: CacheModel,
    store: Map<u64, Seq<u8>>,
    count: int,
    position: int,
    len: int,
    bytes: Seq<u8>,
    index: u64,
    block_size: int,
)
    requires
        file.coherent(store, block_size),
    ensures
        CacheModel::fresh(count).coherent(store, block_size),
        file.seek(position).coherent(store, block_size),
        file.materialize(lookup(store, file.index(block_size)), block_size).coherent(
            store,
            block_size,
        ),
        file.read(len, block_size).coherent(store, block_size),
        file.write(bytes, block_size).coherent(store, block_size),
        file.cached(index) ==> file.flushed(index).coherent(
            store.insert(index, file.blocks[index].data),
            block_size,
        ),
{
    let fetched = file.materialize(lookup(store, file.index(block_size)), block_size);
    assert forall|i: u64| fetched.cached(i) && !fetched.dirty(i) implies (
    #[trigger] fetched.blocks[i]).data == fetched_or_zero(lookup(store, i), block_size) by {
        if file.cached(i) {
            assert(fetched.blocks[i] == file.blocks[i]);
        }
    }
    let written = file.write(bytes, block_size);
    assert forall|i: u64| written.cached(i) && !written.dirty(i) implies (
    #[trigger] written.blocks[i]).data == fetched_or_zero(lookup(store, i), block_size) by {
        assert(i != file.index(block_size));
        assert(written.blocks[i] == file.blocks[i]);
    }
    if file.cached(index) {
        let after = file.flushed(index);
        let put = store.insert(index, file.blocks[index].data);
        assert forall|i: u64| after.cached(i) && !after.dirty(i) implies (
        #[trigger] after.blocks[i]).data == fetched_or_zero(lookup(put, i), block_size) by {
            if i != index {
                assert(after.blocks[i] == file.blocks[i]);
                assert(lookup(put, i) == lookup(store, i));
            }
        }
    }
}

} // verus!
