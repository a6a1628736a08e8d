//! The decisions of the write and verify passes. The passes alternate I/O
//! (reading the input, writing or reading the disk, reporting progress) with
//! these decisions; the I/O stays with the caller.
use vstd::prelude::*;

use crate::writer_process::ipc::ErrorType;

verus! {

/// Largest buffer a pass reads or writes at once: 1 MiB.
pub const MAX_BUF_SIZE: usize = 1048576;

/// Bytes a pass moves between two progress reports: 8 MiB.
pub const CHECKPOINT_BYTES: usize = 8388608;

/// Block size assumed for a disk that does not report one.
pub const DEFAULT_BLOCK_SIZE: u64 = 512;

/// Buffer geometry of the write and verify passes.
#[derive(Debug, PartialEq, Eq, Structural, Clone, Copy)]
pub struct BufferPlan {
    /// Bytes moved per block.
    pub buf_size: usize,
    /// Alignment of the buffers: the disk's block size.
    pub disk_block_size: usize,
    /// Blocks moved between two progress reports.
    pub checkpoint_period: usize,
}

/// The block size a plan is made for.
pub open spec fn effective_block_size(block_size: Option<u64>) -> u64 {
    match block_size {
        Some(bs) => bs,
        None => DEFAULT_BLOCK_SIZE,
    }
}

/// Whether a plan can be made for this block size without overflow or a
/// zero-sized buffer.
pub open spec fn plannable(block_size: Option<u64>) -> bool {
    let bs = effective_block_size(block_size);
    0 < bs && bs * 2048 <= usize::MAX
}

/// The plan for a block size: buffers of 2048 blocks, at most
/// [`MAX_BUF_SIZE`], and a report every [`CHECKPOINT_BYTES`].
pub open spec fn plan_spec(block_size: Option<u64>) -> BufferPlan {
    let bs = effective_block_size(block_size);
    let buf = if bs * 2048 < MAX_BUF_SIZE {
        (bs * 2048) as usize
    } else {
        MAX_BUF_SIZE
    };
    BufferPlan {
        buf_size: buf,
        disk_block_size: bs as usize,
        checkpoint_period: (CHECKPOINT_BYTES / buf) as usize,
    }
}

/// The buffer geometry for a disk of the given block size (512 bytes when
/// unknown).
pub fn plan_buffers(block_size: Option<u64>) -> (r: BufferPlan)
    requires
        plannable(block_size),
    ensures
        r == plan_spec(block_size),
        0 < r.buf_size <= MAX_BUF_SIZE,
        r.checkpoint_period > 0,
{
    let bs: u64 = match block_size {
        Some(bs) => bs,
        None => DEFAULT_BLOCK_SIZE,
    };
    let full: usize = (bs * 2048) as usize;
    let buf_size: usize = if full < MAX_BUF_SIZE {
        full
    } else {
        MAX_BUF_SIZE
    };
    assert(CHECKPOINT_BYTES / buf_size >= 8) by (nonlinear_arith)
        requires
            0 < buf_size <= MAX_BUF_SIZE,
            CHECKPOINT_BYTES == 8 * MAX_BUF_SIZE,
    ;
    BufferPlan {
        buf_size,
        disk_block_size: bs as usize,
        checkpoint_period: CHECKPOINT_BYTES / buf_size,
    }
}

/// What the write pass does after reading a block of input.
#[derive(Debug, PartialEq, Eq, Structural, Clone, Copy)]
pub enum AfterRead {
    /// The input is exhausted: flush the disk, report progress, and finish
    /// with the number of input bytes read.
    Finish,
    /// Write the whole buffer to the disk.
    WriteBlock,
}

/// What a pass does after moving a block.
#[derive(Debug, PartialEq, Eq, Structural, Clone, Copy)]
pub enum AfterBlock {
    /// Report progress, then stop with this error.
    Fail(ErrorType),
    /// Report progress, then go on with the next block.
    Checkpoint,
    /// Go on with the next block.
    Continue,
}

/// Counts blocks towards the next progress report.
#[derive(Debug, PartialEq, Eq, Structural, Clone, Copy)]
pub struct BlockCounter {
    period: usize,
    blocks: usize,
}

impl BlockCounter {
    pub closed spec fn period_spec(&self) -> usize {
        self.period
    }

    /// Blocks moved since the last progress report.
    pub closed spec fn blocks_spec(&self) -> usize {
        self.blocks
    }

    /// Whether the counter is one a pass can be in.
    pub closed spec fn wf(&self) -> bool {
        0 < self.period && self.blocks < self.period
    }

    /// A counter that reports after every `period` blocks.
    pub fn new(period: usize) -> (r: Self)
        requires
            period > 0,
        ensures
            r.wf(),
            r.period_spec() == period,
            r.blocks_spec() == 0,
    {
        BlockCounter { period, blocks: 0 }
    }

    /// Counts one more block moved; reports progress when the period is
    /// complete and starts the next one.
    pub fn block_done(&mut self) -> (r: bool)
        requires
            old(self).wf(),
        ensures
            final(self).wf(),
            final(self).period_spec() == old(self).period_spec(),
            r == (old(self).blocks_spec() + 1 == old(self).period_spec()),
            r ==> final(self).blocks_spec() == 0,
            !r ==> final(self).blocks_spec() == old(self).blocks_spec() + 1,
    {
        if self.blocks + 1 == self.period {
            self.blocks = 0;
            true
        } else {
            self.blocks = self.blocks + 1;
            false
        }
    }

    /// The write pass read `read_bytes` bytes of input into its buffer.
    pub fn write_after_read(&self, read_bytes: usize) -> (r: AfterRead)
        ensures
            r == (if read_bytes == 0 {
                AfterRead::Finish
            } else {
                AfterRead::WriteBlock
            }),
    {
        if read_bytes == 0 {
            AfterRead::Finish
        } else {
            AfterRead::WriteBlock
        }
    }

    /// The write pass wrote `written_bytes` bytes of its buffer to the disk.
    /// A disk that takes nothing has ended before the input.
    pub fn write_after_write(&mut self, written_bytes: usize) -> (r: AfterBlock)
        requires
            old(self).wf(),
        ensures
            final(self).wf(),
            final(self).period_spec() == old(self).period_spec(),
            written_bytes == 0 ==> r == AfterBlock::Fail(ErrorType::EndOfOutput),
            written_bytes == 0 ==> *final(self) == *old(self),
            written_bytes > 0 ==> !(r is Fail),
            written_bytes > 0 ==> (r == AfterBlock::Checkpoint <==> old(self).blocks_spec() + 1
                == old(self).period_spec()),
    {
        if written_bytes == 0 {
            return AfterBlock::Fail(ErrorType::EndOfOutput);
        }
        if self.block_done() {
            AfterBlock::Checkpoint
        } else {
            AfterBlock::Continue
        }
    }

    /// The verify pass compared a block: the first `read_bytes` bytes of the
    /// input against the same bytes read back from the disk.
    pub fn verify_after_compare(&mut self, matched: bool) -> (r: AfterBlock)
        requires
            old(self).wf(),
        ensures
            final(self).wf(),
            final(self).period_spec() == old(self).period_spec(),
            !matched ==> r == AfterBlock::Fail(ErrorType::VerificationFailed),
            !matched ==> *final(self) == *old(self),
            matched ==> !(r is Fail),
            matched ==> (r == AfterBlock::Checkpoint <==> old(self).blocks_spec() + 1
                == old(self).period_spec()),
    {
        if !matched {
            return AfterBlock::Fail(ErrorType::VerificationFailed);
        }
        if self.block_done() {
            AfterBlock::Checkpoint
        } else {
            AfterBlock::Continue
        }
    }
}

/// Whether the first `n` bytes of the input block and of the block read back
/// from the disk are the same.
pub fn blocks_match(file_buf: &[u8], disk_buf: &[u8], n: usize) -> (r: bool)
    requires
        n <= file_buf@.len(),
        n <= disk_buf@.len(),
    ensures
        r == (file_buf@.take(n as int) == disk_buf@.take(n as int)),
{
    let mut i: usize = 0;
    while i < n
        invariant
            i <= n,
            n <= file_buf@.len(),
            n <= disk_buf@.len(),
            file_buf@.take(i as int) == disk_buf@.take(i as int),
        decreases n - i,
    {
        if file_buf[i] != disk_buf[i] {
            assert(file_buf@.take(n as int)[i as int] != disk_buf@.take(n as int)[i as int]);
            return false;
        }
        assert(file_buf@.take(i + 1) =~= file_buf@.take(i as int).push(file_buf@[i as int]));
        assert(disk_buf@.take(i + 1) =~= disk_buf@.take(i as int).push(disk_buf@[i as int]));
        i = i + 1;
    }
    true
}

/// What writing a block of `block_len` bytes came to, `written` bytes
/// having gone to the disk: a short write means the disk has ended.
pub fn block_write_outcome(written: usize, block_len: usize) -> (r: Result<(), ErrorType>)
    ensures
        r == if written == block_len {
            Ok(())
        } else {
            Err(ErrorType::EndOfOutput)
        },
{
    if written != block_len {
        return Err(ErrorType::EndOfOutput);
    }
    Ok(())
}

/// What verifying `block` came to, `read` bytes having been read back from
/// the disk into `scratch`: a short read means the disk has ended, and
/// otherwise the bytes read back must be the block's.
pub fn block_verify_outcome(block: &[u8], scratch: &[u8], read: usize) -> (r: Result<(), ErrorType>)
    ensures
        r == if read != block@.len() {
            Err(ErrorType::EndOfOutput)
        } else if block@ != scratch@ {
            Err(ErrorType::VerificationFailed)
        } else {
            Ok(())
        },
{
    if read != block.len() {
        return Err(ErrorType::EndOfOutput);
    }
    if block.len() != scratch.len() {
        assert(block@.len() != scratch@.len());
        return Err(ErrorType::VerificationFailed);
    }
    if !blocks_match(block, scratch, block.len()) {
        assert(block@ != scratch@) by {
            assert(block@.take(block@.len() as int) =~= block@);
            assert(scratch@.take(scratch@.len() as int) =~= scratch@);
        }
        return Err(ErrorType::VerificationFailed);
    }
    assert(block@ =~= scratch@) by {
        assert(block@.take(block@.len() as int) =~= block@);
        assert(scratch@.take(scratch@.len() as int) =~= scratch@);
    }
    Ok(())
}

/// The progress report of a pass comes every `period` blocks: after any
/// number of blocks, the counter holds how many blocks the current period
/// has moved.
pub proof fn lemma_counter_period(c: BlockCounter, next: BlockCounter, reported: bool)
    requires
        c.wf(),
        next.period_spec() == c.period_spec(),
        reported == (c.blocks_spec() + 1 == c.period_spec()),
        reported ==> next.blocks_spec() == 0,
        !reported ==> next.blocks_spec() == c.blocks_spec() + 1,
    ensures
        next.blocks_spec() == (c.blocks_spec() + 1) % (c.period_spec() as int),
{
    if reported {
        assert((c.blocks_spec() + 1) % (c.period_spec() as int) == 0) by {
            vstd::arithmetic::div_mod::lemma_mod_self_0(c.period_spec() as int);
        }
    } else {
        vstd::arithmetic::div_mod::lemma_small_mod(
            (c.blocks_spec() + 1) as nat,
            c.period_spec() as nat,
        );
    }
}

} // verus!
